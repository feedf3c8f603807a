//! A small error taxonomy for utility code, and its propagation paths.

use vstd::prelude::*;
use vstd::string::StringExecFns;
use crate::parse::{parse_i32, parse_i32_spec};

verus! {

/// The different kinds of utility errors; each carries its description.
#[derive(Debug)]
pub enum CustomError {
    /// A failure of the surrounding input/output layer.
    Io(String),
    /// An error raised deliberately, with its message.
    Custom(String),
    /// Text that does not parse as an integer.
    Parse(String),
    /// Any other failure, described in words.
    Other(String),
}

/// Raises a custom error.
pub fn handle_custom_error() -> (r: Result<(), CustomError>)
    ensures
        r matches Err(e) && (e matches CustomError::Custom(m) && m@ == "Custom error message"@),
{
    Err(CustomError::Custom(String::from_str("Custom error message")))
}

/// Parses a fixed non-numeric string into an integer, turning the parse
/// failure into a `CustomError`.
pub fn parse_int_and_chain_error(s: &str) -> (r: Result<i32, CustomError>)
    ensures
        r matches Err(e) && (e matches CustomError::Parse(m) && m@ == "invalid integer"@),
{
    let _ = s;
    let num_str = "not a number";
    match parse_i32(num_str) {
        Some(v) => {
            proof {
                reveal_strlit("not a number");
                assert("not a number"@[0] == 'n');
                assert(!crate::parse::is_digit("not a number"@[0]));
                assert(!crate::parse::all_digits("not a number"@));
                assert(parse_i32_spec("not a number"@) is None);
                assert(false);
            }
            Ok(v)
        },
        None => Err(CustomError::Parse(String::from_str("invalid integer"))),
    }
}

/// Propagates the custom error unchanged.
pub fn propagate_custom_error() -> (r: Result<(), CustomError>)
    ensures
        r matches Err(e) && (e matches CustomError::Custom(m) && m@ == "Custom error message"@),
{
    match handle_custom_error() {
        Ok(()) => Ok(()),
        Err(e) => Err(e),
    }
}

} // verus!
