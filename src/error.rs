use vstd::prelude::*;

verus! {

/// What can go wrong while reading or converting a permission mode.
#[derive(Debug, Clone, Copy, PartialEq, Eq, Structural)]
pub enum ModeError {
    /// The input does not read as a base-10 integer.
    NotANumber,
    /// A number outside 0..=777, or a text of the wrong length.
    InvalidValue,
    /// A character other than '0'..='7' in an octal mode.
    InvalidCharacter,
    /// A group of three characters that is no permission triplet.
    InvalidCharacters,
    /// Too few characters to fill a permission table.
    NotEnoughCharacters,
}

/// The stable message of each error kind.
pub open spec fn error_text(e: ModeError) -> &'static str {
    match e {
        ModeError::NotANumber => "Not a number",
        ModeError::InvalidValue => "Invalid value",
        ModeError::InvalidCharacter => "Invalid character",
        ModeError::InvalidCharacters => "Invalid characters",
        ModeError::NotEnoughCharacters => "Not enough characters",
    }
}

impl ModeError {
    /// The message shown for this error.
    pub fn message(&self) -> (r: &'static str)
        ensures
            r == error_text(*self),
    {
        match self {
            ModeError::NotANumber => "Not a number",
            ModeError::InvalidValue => "Invalid value",
            ModeError::InvalidCharacter => "Invalid character",
            ModeError::InvalidCharacters => "Invalid characters",
            ModeError::NotEnoughCharacters => "Not enough characters",
        }
    }
}

/// Relates an executable outcome to its model: the same text on success,
/// the error's message on failure.
pub open spec fn outcome_is(r: Result<String, &'static str>, m: Result<Seq<char>, ModeError>) -> bool {
    match m {
        Ok(s) => r is Ok && r->Ok_0@ == s,
        Err(e) => r == Err::<String, &'static str>(error_text(e)),
    }
}

/// The executable form of an outcome of the model.
pub(crate) fn to_outcome(r: Result<String, ModeError>) -> (out: Result<String, &'static str>)
    ensures
        match r {
            Ok(s) => out == Ok::<String, &'static str>(s),
            Err(e) => out == Err::<String, &'static str>(error_text(e)),
        },
{
    match r {
        Ok(s) => Ok(s),
        Err(e) => Err(e.message()),
    }
}

} // verus!
