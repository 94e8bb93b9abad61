//! Validation and repair of GTIN-13 product codes.
//!
//! A GTIN-13 is a string of thirteen ASCII digits whose last digit is a
//! checksum over the first twelve. [`gtin13::check`] decides whether a string
//! is one; [`gtin13::fix`] pads a shorter digit string and sets its checksum.
//! The digit test and the checksum itself live in [`utils`].

pub mod gtin13;
pub mod utils;
