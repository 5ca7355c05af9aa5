//! Password records and the two rules they are held against.
//!
//! A record is a line such as `1-3 a: abcde`: two numbers, a letter and a password. The count
//! rule asks that the letter occurs in the password at least as often as the first number says
//! and at most as often as the second. The position rule asks that exactly one of the two
//! positions that the numbers name, counted from 1, holds the letter.
//!
//! `parser` reads a line into a record, `policy` holds a record against the rules, and `tally`
//! counts the lines of an input that pass each rule. Lines are matched by a regular expression;
//! `pattern` holds what is taken from the regex engine without proof.

pub mod error;
pub mod number;
pub mod parser;
pub mod pattern;
pub mod policy;
pub mod tally;
pub mod text;

pub use error::{Error, NumberError};
pub use number::parse_decimal;
pub use parser::{record_from_groups, Parser, RECORD_PATTERN};
pub use policy::{Policy, Record};
pub use tally::{count_valid, count_valid_strict};
