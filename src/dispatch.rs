use vstd::prelude::*;
use crate::decimal::{decimal_digits, decimal_text, parse_i32, parsed_int};
use crate::error::{outcome_is, to_outcome, ModeError};
use crate::permissions::{
    octal_string_to_rwx_string, octal_to_symbolic_outcome, rwx_string_to_octal_string,
    symbolic_to_octal_outcome,
};
use crate::table::{rwx_string_to_table, table_outcome};

verus! {

/// Reading an octal mode: the text must be a base-10 integer (else not a
/// number) between 0 and 777 (else an invalid value); the result is its
/// canonical decimal text, without leading zeros or padding.
pub open spec fn parse_octal_outcome(s: Seq<char>) -> Result<Seq<char>, ModeError> {
    match parsed_int(s) {
        None => Err(ModeError::NotANumber),
        Some(v) => if 0 <= v <= 777 {
            Ok(decimal_digits(v as nat))
        } else {
            Err(ModeError::InvalidValue)
        },
    }
}

/// The dispatcher: a text that reads as an octal mode is converted to
/// symbolic text (or its table); any other text is taken as symbolic and
/// converted to octal text (or, unchecked, rendered as a table).
pub open spec fn convert_outcome(input: Seq<char>, table: bool) -> Result<Seq<char>, ModeError> {
    match parse_octal_outcome(input) {
        Ok(octal) => match octal_to_symbolic_outcome(octal) {
            Ok(symbolic) => if table {
                table_outcome(symbolic)
            } else {
                Ok(symbolic)
            },
            Err(e) => Err(e),
        },
        Err(_) => if table {
            table_outcome(input)
        } else {
            symbolic_to_octal_outcome(input)
        },
    }
}

fn parse_octal(input: &str) -> (r: Result<String, ModeError>)
    ensures
        match parse_octal_outcome(input@) {
            Ok(s) => r is Ok && r->Ok_0@ == s,
            Err(e) => r == Err::<String, ModeError>(e),
        },
{
    match parse_i32(input) {
        None => Err(ModeError::NotANumber),
        Some(v) => {
            if v < 0 || v > 777 {
                Err(ModeError::InvalidValue)
            } else {
                Ok(decimal_text(v as u32))
            }
        },
    }
}

/// Reads an octal mode given as a base-10 integer, leading zeros allowed,
/// and returns its canonical decimal text.
pub fn parse_octal_string(input: String) -> (r: Result<String, &'static str>)
    ensures
        outcome_is(r, parse_octal_outcome(input@)),
{
    to_outcome(parse_octal(input.as_str()))
}

/// Converts a text in either notation to the other one, or to the table of
/// its symbolic form when `table` is set.
pub fn convert(input: String, table: bool) -> (r: Result<String, &'static str>)
    ensures
        outcome_is(r, convert_outcome(input@, table)),
{
    match parse_octal_string(input.clone()) {
        Ok(octal) => {
            let symbolic = octal_string_to_rwx_string(octal);
            match symbolic {
                Ok(s) => if table {
                    rwx_string_to_table(s)
                } else {
                    Ok(s)
                },
                Err(e) => Err(e),
            }
        },
        Err(_) => if table {
            rwx_string_to_table(input)
        } else {
            rwx_string_to_octal_string(input)
        },
    }
}

} // verus!
