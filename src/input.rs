//! Reading a menu choice: a number within bounds.

use vstd::prelude::*;
use crate::text::{is_decimal, is_decimal_text, parse_usize, parse_usize_text, trim, trimmed};

verus! {

/// Why a line did not give a number within bounds.
#[derive(Clone, Copy, Debug, PartialEq, Eq, Structural)]
pub enum NumberInputError {
    /// Nothing but white space.
    Blank,
    /// Not a decimal number.
    NotANumber,
    /// A number outside `min..=max` (or too large to hold).
    OutOfRange { min: usize, max: usize },
}

/// The result for the trimmed line `t` and the bounds `min..=max`.
pub open spec fn number_input_result(t: Seq<char>, min: usize, max: usize) -> Result<
    usize,
    NumberInputError,
> {
    if t.len() == 0 {
        Err(NumberInputError::Blank)
    } else if !is_decimal(t) {
        Err(NumberInputError::NotANumber)
    } else {
        let n = parse_usize(t);
        if n is Some && min <= n->Some_0 <= max {
            Ok(n->Some_0)
        } else {
            Err(NumberInputError::OutOfRange { min, max })
        }
    }
}

/// Line-oriented user input.
pub struct Input;

impl Input {
    /// Reads a number in `min..=max` from one line of input.
    pub fn parse_number_input(line: &str, min: usize, max: usize) -> (r: Result<usize, NumberInputError>)
        ensures
            r == number_input_result(trimmed(line@), min, max),
    {
        let t = trim(line);
        if t.unicode_len() == 0 {
            return Err(NumberInputError::Blank);
        }
        if !is_decimal_text(t) {
            return Err(NumberInputError::NotANumber);
        }
        match parse_usize_text(t) {
            Some(n) => {
                if min <= n && n <= max {
                    Ok(n)
                } else {
                    Err(NumberInputError::OutOfRange { min, max })
                }
            },
            None => Err(NumberInputError::OutOfRange { min, max }),
        }
    }
}

} // verus!
