//! The ways in which reading a version from text can fail.

use vstd::prelude::*;
use vstd::std_specs::convert::FromSpecImpl;
use vstd::string::StringExecFns;
use crate::decimal::{decimal_text, push_decimal};

verus! {

/// Why a piece of text is not an unsigned decimal number.
#[derive(PartialEq, Eq, Structural, Clone, Copy, Debug)]
pub enum NumberError {
    /// The text has no characters.
    Empty,
    /// The text holds a character other than `0` to `9`.
    InvalidDigit,
    /// The digits stand for a number above `u32::MAX`.
    Overflow,
}

/// Why a piece of text is not a version.
#[derive(PartialEq, Eq, Structural, Clone, Copy, Debug)]
pub enum VersionError {
    /// The text gave no segment at all.
    Empty,
    /// The text has more than three segments; holds the number of segments.
    TooManyDecimals(usize),
    /// A segment is not an unsigned decimal number.
    ParseError(NumberError),
}

impl NumberError {
    /// The message of the error.
    pub open spec fn message(self) -> Seq<char> {
        match self {
            NumberError::Empty => "cannot parse integer from empty string"@,
            NumberError::InvalidDigit => "invalid digit found in string"@,
            NumberError::Overflow => "number too large to fit in target type"@,
        }
    }

    /// The message of the error, as text.
    pub fn to_string(&self) -> (text: String)
        ensures
            text@ == self.message(),
    {
        match self {
            NumberError::Empty => "cannot parse integer from empty string".to_owned(),
            NumberError::InvalidDigit => "invalid digit found in string".to_owned(),
            NumberError::Overflow => "number too large to fit in target type".to_owned(),
        }
    }
}

impl VersionError {
    /// The message of the error: the name of its kind, followed for
    /// `TooManyDecimals` by the number of segments found, and for
    /// `ParseError` by the message of the number error.
    pub open spec fn message(self) -> Seq<char> {
        match self {
            VersionError::Empty => "VersionError::Empty"@,
            VersionError::TooManyDecimals(n) => "VersionError::TooManyDecimals => found "@
                + decimal_text(n as nat),
            VersionError::ParseError(e) => "VersionError::ParseError => "@ + e.message(),
        }
    }

    /// The message of the error, as text.
    pub fn to_string(&self) -> (text: String)
        ensures
            text@ == self.message(),
    {
        match self {
            VersionError::Empty => "VersionError::Empty".to_owned(),
            VersionError::TooManyDecimals(n) => {
                let mut text = "VersionError::TooManyDecimals => found ".to_owned();
                push_decimal(&mut text, *n as u64);
                text
            },
            VersionError::ParseError(e) => {
                let mut text = "VersionError::ParseError => ".to_owned();
                text.append(e.to_string().as_str());
                text
            },
        }
    }
}

impl From<NumberError> for VersionError {
    /// The version error that wraps a number error.
    fn from(e: NumberError) -> (r: VersionError) {
        VersionError::ParseError(e)
    }
}

impl FromSpecImpl<NumberError> for VersionError {
    open spec fn obeys_from_spec() -> bool {
        true
    }

    open spec fn from_spec(e: NumberError) -> VersionError {
        VersionError::ParseError(e)
    }
}

} // verus!
