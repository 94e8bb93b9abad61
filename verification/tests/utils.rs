use gtin_validate::utils::{compute_check_digit, is_number, NINE, ZERO};

#[test]
fn digit_bytes() {
    assert_eq!(ZERO, b'0');
    assert_eq!(NINE, b'9');
}

#[test]
fn is_number_all_digits() {
    assert!(is_number(b"0123456789", 10));
    assert!(is_number(b"", 0));
}

#[test]
fn is_number_reads_only_the_prefix() {
    assert!(is_number(b"123abc", 3));
    assert!(!is_number(b"123abc", 4));
    assert!(is_number(b"abc", 0));
}

#[test]
fn is_number_rejects_neighbours_of_digits() {
    assert!(!is_number(b"/", 1));
    assert!(!is_number(b":", 1));
    assert!(!is_number(b" ", 1));
    assert!(!is_number(b"a", 1));
    assert!(!is_number(&[0x00], 1));
    assert!(!is_number(&[0x80], 1));
    assert!(!is_number(&[0xff], 1));
}

#[test]
fn is_number_rejects_at_any_position() {
    for position in 0..13 {
        let mut bytes = *b"0000000000000";
        bytes[position] = b'x';
        assert!(!is_number(&bytes, 13));
        assert_eq!(is_number(&bytes, position), true);
    }
}

#[test]
fn compute_check_digit_thirteen() {
    assert_eq!(compute_check_digit(b"1498279802125", 13), 5);
    assert_eq!(compute_check_digit(b"0000000000000", 13), 0);
    assert_eq!(compute_check_digit(b"0123456789012", 13), 2);
    assert_eq!(compute_check_digit(b"4459121265748", 13), 8);
    assert_eq!(compute_check_digit(b"0999999999993", 13), 3);
}

#[test]
fn compute_check_digit_ignores_last_byte() {
    for last in b'0'..=b'9' {
        let mut bytes = *b"1498279802120";
        bytes[12] = last;
        assert_eq!(compute_check_digit(&bytes, 13), 5);
    }
}

#[test]
fn compute_check_digit_weights() {
    // The digit just before the check digit weighs 3, the one before it 1.
    assert_eq!(compute_check_digit(b"10", 2), 7);
    assert_eq!(compute_check_digit(b"100", 3), 9);
    assert_eq!(compute_check_digit(b"1000", 4), 7);
    assert_eq!(compute_check_digit(b"110", 3), 6);
}

#[test]
fn compute_check_digit_other_lengths() {
    // Sums that are a multiple of ten give 0, not 10.
    assert_eq!(compute_check_digit(b"0", 1), 0);
    assert_eq!(compute_check_digit(b"00", 2), 0);
    assert_eq!(compute_check_digit(b"130", 3), 0);
    // Eight and twelve digits.
    assert_eq!(compute_check_digit(b"73513537", 8), 7);
    assert_eq!(compute_check_digit(b"036000291452", 12), 2);
}

#[test]
fn compute_check_digit_long_input() {
    // 1000 nines before the check digit: 500 * 27 + 500 * 9 = 18000.
    let bytes = vec![b'9'; 1001];
    assert_eq!(compute_check_digit(&bytes, 1001), 0);
    // 999 nines: 500 * 27 + 499 * 9 = 17991.
    assert_eq!(compute_check_digit(&bytes, 1000), 9);
}
