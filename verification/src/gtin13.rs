//! GTIN-13 codes: thirteen ASCII digits, the last of which is the GS1 check
//! digit of the twelve before it.

use crate::utils::{
    all_digits, check_digit, compute_check_digit, digit_value, is_digit, is_number,
    lemma_check_digit_of_payload,
};
use vstd::prelude::*;
use vstd::string::*;
use vstd::utf8::is_ascii_chars;

verus! {

/// Why a string could not be turned into a GTIN-13.
#[derive(Debug)]
pub enum FixError {
    /// The string holds a character outside ASCII.
    NonAsciiString,
    /// The string has more than thirteen characters.
    TooLong,
    /// No check digit can be computed: a character is not a digit.
    CheckDigitIncorrect,
}

/// `c` is one of the characters `'0'` to `'9'`.
pub open spec fn is_digit_char(c: char) -> bool {
    '0' <= c <= '9'
}

/// Every character of `text` is a decimal digit.
pub open spec fn all_digit_chars(text: Seq<char>) -> bool {
    forall|i: int| 0 <= i < text.len() ==> is_digit_char(#[trigger] text[i])
}

/// The bytes of an ASCII text: one byte per character, with the character's
/// code.
pub open spec fn ascii_bytes(text: Seq<char>) -> Seq<u8> {
    Seq::new(text.len(), |i: int| text[i] as u8)
}

/// `text` is a valid GTIN-13: thirteen digits, the last one being the check
/// digit of the first twelve.
pub open spec fn is_gtin13(text: Seq<char>) -> bool {
    &&& text.len() == 13
    &&& all_digit_chars(text)
    &&& check_digit(ascii_bytes(text), 13) == digit_value(text[12] as u8)
}

/// The character that writes the digit `d`.
pub open spec fn digit_char(d: int) -> char {
    ((d + 0x30) as u8) as char
}

/// `text` behind as many zeros as it lacks to be thirteen characters long.
pub open spec fn zero_padded(text: Seq<char>) -> Seq<char> {
    Seq::new((13 - text.len()) as nat, |i: int| '0') + text
}

/// What `fix` makes of a text of at most thirteen digits: the text padded
/// with leading zeros to thirteen characters, with its last character
/// replaced by the check digit of the twelve before it.
pub open spec fn repaired(text: Seq<char>) -> Seq<char> {
    let padded = zero_padded(text);
    padded.update(12, digit_char(check_digit(ascii_bytes(padded), 13)))
}

/// A text of digit characters is ASCII, and its bytes are digit bytes.
pub proof fn lemma_digit_chars_are_ascii_digits(text: Seq<char>)
    requires
        all_digit_chars(text),
    ensures
        is_ascii_chars(text),
        all_digits(ascii_bytes(text), text.len() as int),
{
    assert forall|i: int| 0 <= i < text.len() implies '\0' <= #[trigger] text[i] <= '\u{7f}' by {
        assert(is_digit_char(text[i]));
    }
    assert forall|i: int| 0 <= i < text.len() implies is_digit(#[trigger] ascii_bytes(text)[i]) by {
        assert(is_digit_char(text[i]));
    }
}

/// An ASCII text whose bytes are digit bytes is made of digit characters.
pub proof fn lemma_ascii_digits_are_digit_chars(text: Seq<char>)
    requires
        is_ascii_chars(text),
        all_digits(ascii_bytes(text), text.len() as int),
    ensures
        all_digit_chars(text),
{
    assert forall|i: int| 0 <= i < text.len() implies is_digit_char(#[trigger] text[i]) by {
        assert('\0' <= text[i] <= '\u{7f}');
        assert(is_digit(ascii_bytes(text)[i]));
    }
}

/// Tells whether `upc` is a valid GTIN-13.
///
/// The answer is `false` for any string that is not exactly thirteen ASCII
/// digits, and otherwise says whether the thirteenth digit is the check digit
/// of the first twelve.
pub fn check(upc: &str) -> (r: bool)
    ensures
        r == is_gtin13(upc@),
        upc@.len() != 13 ==> !r,
        upc.spec_bytes().len() != 13 ==> !r,
        !is_ascii(upc) ==> !r,
        upc@.len() == 13 && all_digit_chars(upc@) ==> (r <==> digit_value(upc@[12] as u8)
            == check_digit(ascii_bytes(upc@), 13)),
{
    proof {
        is_ascii_spec_bytes(upc);
        if all_digit_chars(upc@) {
            lemma_digit_chars_are_ascii_digits(upc@);
        }
    }
    if !upc.is_ascii() {
        return false;
    }
    let bytes = upc.as_bytes();
    if bytes.len() != 13 {
        return false;
    }
    assert(bytes@ =~= ascii_bytes(upc@));
    if !is_number(bytes, 13) {
        return false;
    }
    proof {
        lemma_ascii_digits_are_digit_chars(upc@);
    }
    let expected: u8 = compute_check_digit(bytes, 13);
    assert(is_digit(bytes@[12]));
    expected == bytes[12] - 48
}

/// The one-character text that writes the digit `d`.
fn digit_text(d: u8) -> (r: &'static str)
    requires
        d <= 9,
    ensures
        r@ == seq![digit_char(d as int)],
{
    proof {
        reveal_strlit("0");
        reveal_strlit("1");
        reveal_strlit("2");
        reveal_strlit("3");
        reveal_strlit("4");
        reveal_strlit("5");
        reveal_strlit("6");
        reveal_strlit("7");
        reveal_strlit("8");
        reveal_strlit("9");
    }
    let r = match d {
        0 => "0",
        1 => "1",
        2 => "2",
        3 => "3",
        4 => "4",
        5 => "5",
        6 => "6",
        7 => "7",
        8 => "8",
        _ => "9",
    };
    assert(r@ =~= seq![digit_char(d as int)]);
    r
}

/// Builds the text of `count` zeros.
fn zeros(count: usize) -> (r: String)
    ensures
        r@ == Seq::new(count as nat, |i: int| '0'),
{
    let mut r = String::new();
    let mut i: usize = 0;
    while i < count
        invariant
            i <= count,
            r@ == Seq::new(i as nat, |j: int| '0'),
        decreases count - i,
    {
        proof {
            reveal_strlit("0");
        }
        r.append("0");
        i += 1;
        assert(r@ =~= Seq::new(i as nat, |j: int| '0'));
    }
    r
}

/// Turns a string of at most thirteen ASCII digits into a valid GTIN-13.
///
/// The digits are padded with leading zeros to thirteen characters, and the
/// thirteenth is then replaced by the check digit of the first twelve. A
/// string that is already a valid GTIN-13 comes back unchanged.
///
/// A string with a character outside ASCII gives `NonAsciiString`; an ASCII
/// string of more than thirteen characters gives `TooLong`; an ASCII string
/// of at most thirteen characters, one of which is no digit, gives
/// `CheckDigitIncorrect`, since no check digit exists for it.
pub fn fix(upc: &str) -> (r: Result<String, FixError>)
    ensures
        match r {
            Ok(code) => {
                &&& is_ascii(upc)
                &&& upc@.len() <= 13
                &&& all_digit_chars(upc@)
                &&& code@ == repaired(upc@)
            },
            Err(FixError::NonAsciiString) => !is_ascii(upc),
            Err(FixError::TooLong) => is_ascii(upc) && upc@.len() > 13,
            Err(FixError::CheckDigitIncorrect) => {
                &&& is_ascii(upc)
                &&& upc@.len() <= 13
                &&& !all_digit_chars(upc@)
            },
        },
        r matches Ok(code) ==> is_gtin13(code@),
        is_gtin13(upc@) ==> (r matches Ok(code) && code@ == upc@),
{
    proof {
        is_ascii_spec_bytes(upc);
        if all_digit_chars(upc@) {
            lemma_digit_chars_are_ascii_digits(upc@);
        }
    }
    if !upc.is_ascii() {
        return Err(FixError::NonAsciiString);
    }
    let bytes = upc.as_bytes();
    let length: usize = bytes.len();
    assert(bytes@ =~= ascii_bytes(upc@));
    if length > 13 {
        return Err(FixError::TooLong);
    }
    if !is_number(bytes, length) {
        return Err(FixError::CheckDigitIncorrect);
    }
    proof {
        lemma_ascii_digits_are_digit_chars(upc@);
        lemma_zero_padded_digits(upc@);
        lemma_digit_chars_are_ascii_digits(zero_padded(upc@));
        lemma_repaired_is_gtin13(upc@);
        if is_gtin13(upc@) {
            lemma_repaired_keeps_gtin13(upc@);
        }
    }
    let mut padded = zeros(13 - length);
    padded.append(upc);
    assert(padded@ == zero_padded(upc@));
    let padded_text = padded.as_str();
    proof {
        is_ascii_spec_bytes(padded_text);
    }
    let padded_bytes = padded_text.as_bytes();
    assert(padded_bytes@ =~= ascii_bytes(padded@));
    let digit: u8 = compute_check_digit(padded_bytes, 13);
    let mut code = String::from_str(padded_text.substring_ascii(0, 12));
    code.append(digit_text(digit));
    assert(code@ =~= repaired(upc@));
    Ok(code)
}

/// Padding a text of at most thirteen digits gives thirteen digits.
pub proof fn lemma_zero_padded_digits(text: Seq<char>)
    requires
        text.len() <= 13,
        all_digit_chars(text),
    ensures
        zero_padded(text).len() == 13,
        all_digit_chars(zero_padded(text)),
        text.len() == 13 ==> zero_padded(text) == text,
{
    let padded = zero_padded(text);
    let zeros = 13 - text.len();
    assert forall|i: int| 0 <= i < padded.len() implies is_digit_char(#[trigger] padded[i]) by {
        if i >= zeros {
            assert(padded[i] == text[i - zeros]);
            assert(is_digit_char(text[i - zeros]));
        }
    }
    if text.len() == 13 {
        assert(padded =~= text);
    }
}

/// Repairing a text of at most thirteen digits gives a valid GTIN-13.
pub proof fn lemma_repaired_is_gtin13(text: Seq<char>)
    requires
        text.len() <= 13,
        all_digit_chars(text),
    ensures
        is_gtin13(repaired(text)),
{
    let padded = zero_padded(text);
    let code = repaired(text);
    let digit = check_digit(ascii_bytes(padded), 13);
    lemma_zero_padded_digits(text);
    assert(0 <= digit <= 9);
    assert(is_digit_char(digit_char(digit)));
    assert forall|i: int| 0 <= i < code.len() implies is_digit_char(#[trigger] code[i]) by {
        if i != 12 {
            assert(code[i] == padded[i]);
            assert(is_digit_char(padded[i]));
        }
    }
    lemma_check_digit_of_payload(ascii_bytes(code), ascii_bytes(padded), 13);
    assert(digit_value(code[12] as u8) == digit);
}

/// Repairing a valid GTIN-13 leaves it as it is.
pub proof fn lemma_repaired_keeps_gtin13(text: Seq<char>)
    requires
        is_gtin13(text),
    ensures
        repaired(text) == text,
{
    lemma_zero_padded_digits(text);
    assert(is_digit_char(text[12]));
    assert(digit_char(digit_value(text[12] as u8)) == text[12]);
    assert(repaired(text) =~= text);
}

/// Repairing twice gives what repairing once gives.
pub proof fn lemma_repaired_idempotent(text: Seq<char>)
    requires
        text.len() <= 13,
        all_digit_chars(text),
    ensures
        repaired(repaired(text)) == repaired(text),
{
    lemma_repaired_is_gtin13(text);
    lemma_repaired_keeps_gtin13(repaired(text));
}

/// Whether a string is a valid GTIN-13 depends on its characters alone: two
/// strings with the same characters get the same verdict, whenever and
/// however often they are asked about.
pub proof fn lemma_verdict_depends_on_text(first: &str, second: &str)
    requires
        first@ == second@,
    ensures
        is_gtin13(first@) == is_gtin13(second@),
{
}

} // verus!
