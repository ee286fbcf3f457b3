//! Reading a version from text.
//!
//! A version text is one to three segments separated by dots, each an
//! unsigned decimal number: `"5"`, `"5.1"`, `"5.1.0"`. A segment that is
//! left out stands for zero. Nothing is trimmed and nothing is skipped.

use vstd::prelude::*;
use crate::decimal::{number_of, parse_number};
use crate::error::{NumberError, VersionError};
use crate::segment::{
    count_dots, find_dot, lemma_lossy_segments_at, lemma_lossy_segments_first, lemma_segments_at,
    lemma_segments_shape, lossy_segments, segments, skip_digits, skip_separator,
};
use crate::version::Version;

verus! {

/// What reading segment `i` of `parts` as a component gives: zero where the
/// text has no such segment.
pub open spec fn component(parts: Seq<Seq<char>>, i: int) -> Result<u32, NumberError> {
    if i < parts.len() {
        number_of(parts[i])
    } else {
        Ok(0)
    }
}

/// What reading the segments `parts` as a version gives.
///
/// The components are read in order, and the first that is not a number
/// decides the error. Only when the first three are numbers does a fourth
/// segment count as one too many.
pub open spec fn version_of_segments(parts: Seq<Seq<char>>) -> Result<Version, VersionError> {
    if parts.len() == 0 {
        Err(VersionError::Empty)
    } else {
        match component(parts, 0) {
            Err(e) => Err(VersionError::ParseError(e)),
            Ok(major) => match component(parts, 1) {
                Err(e) => Err(VersionError::ParseError(e)),
                Ok(minor) => match component(parts, 2) {
                    Err(e) => Err(VersionError::ParseError(e)),
                    Ok(revision) => if parts.len() > 3 {
                        Err(VersionError::TooManyDecimals(parts.len() as usize))
                    } else {
                        Ok(Version { major, minor, revision })
                    },
                },
            },
        }
    }
}

/// What reading the text `s` as a version gives.
pub open spec fn version_of_text(s: Seq<char>) -> Result<Version, VersionError> {
    version_of_segments(segments(s))
}

/// What reading segment `i` of `parts` as a component gives in lossy
/// reading: zero where the text has no such segment, and zero where the
/// segment is not a number.
pub open spec fn lossy_component(parts: Seq<Seq<char>>, i: int) -> u32 {
    match component(parts, i) {
        Ok(n) => n,
        Err(_) => 0,
    }
}

/// What reading the segments `parts` as a version gives in lossy reading.
///
/// Only the major number has to be a number. A minor number or a revision
/// that is not one counts as zero, and segments after the third are not
/// looked at.
pub open spec fn lossy_version_of_segments(parts: Seq<Seq<char>>) -> Result<
    Version,
    VersionError,
> {
    if parts.len() == 0 {
        Err(VersionError::Empty)
    } else {
        match number_of(parts[0]) {
            Err(e) => Err(VersionError::ParseError(e)),
            Ok(major) => Ok(
                Version {
                    major,
                    minor: lossy_component(parts, 1),
                    revision: lossy_component(parts, 2),
                },
            ),
        }
    }
}

/// What reading the text `s` as a version gives in lossy reading.
pub open spec fn lossy_version_of_text(s: Seq<char>) -> Result<Version, VersionError> {
    lossy_version_of_segments(lossy_segments(s))
}

/// The characters of `s`, in order.
fn chars_of(s: &str) -> (text: Vec<char>)
    ensures
        text@ == s@,
{
    let mut text: Vec<char> = Vec::new();
    for c in it: s.chars()
        invariant
            text@ == it.history(),
    {
        text.push(c);
    }
    text
}

/// Reads a version from the characters `text`.
pub fn parse_chars(text: &[char]) -> (r: Result<Version, VersionError>)
    ensures
        r == version_of_text(text@),
{
    let ghost parts = segments(text@);
    assert(text@.skip(0) =~= text@);
    let end0 = find_dot(text, 0);
    proof {
        lemma_segments_at(text@, 0, end0 as int);
    }
    let major = match parse_number(text, 0, end0) {
        Ok(n) => n,
        Err(e) => {
            return Err(VersionError::ParseError(e));
        },
    };
    if end0 == text.len() {
        return Ok(Version { major, minor: 0, revision: 0 });
    }
    let end1 = find_dot(text, end0 + 1);
    proof {
        lemma_segments_at(text@, end0 + 1, end1 as int);
        assert(parts[1] == text@.subrange(end0 + 1, end1 as int));
    }
    let minor = match parse_number(text, end0 + 1, end1) {
        Ok(n) => n,
        Err(e) => {
            return Err(VersionError::ParseError(e));
        },
    };
    if end1 == text.len() {
        return Ok(Version { major, minor, revision: 0 });
    }
    let end2 = find_dot(text, end1 + 1);
    proof {
        lemma_segments_at(text@, end1 + 1, end2 as int);
        assert(parts[2] == text@.subrange(end1 + 1, end2 as int));
    }
    let revision = match parse_number(text, end1 + 1, end2) {
        Ok(n) => n,
        Err(e) => {
            return Err(VersionError::ParseError(e));
        },
    };
    if end2 == text.len() {
        return Ok(Version { major, minor, revision });
    }
    let dots = count_dots(text, end2 + 1);
    Err(VersionError::TooManyDecimals(dots + 4))
}

/// Reads a version from the characters `text`, in lossy reading.
pub fn parse_chars_lossy(text: &[char]) -> (r: Result<Version, VersionError>)
    ensures
        r == lossy_version_of_text(text@),
{
    let ghost parts = lossy_segments(text@);
    assert(text@.skip(0) =~= text@);
    let end0 = skip_digits(text, 0);
    let start1 = if end0 < text.len() {
        skip_separator(text, end0 + 1)
    } else {
        end0
    };
    proof {
        lemma_lossy_segments_at(text@, 0, end0 as int, start1 as int);
    }
    let major = match parse_number(text, 0, end0) {
        Ok(n) => n,
        Err(e) => {
            return Err(VersionError::ParseError(e));
        },
    };
    if end0 == text.len() {
        return Ok(Version { major, minor: 0, revision: 0 });
    }
    let end1 = skip_digits(text, start1);
    let start2 = if end1 < text.len() {
        skip_separator(text, end1 + 1)
    } else {
        end1
    };
    proof {
        lemma_lossy_segments_at(text@, start1 as int, end1 as int, start2 as int);
        assert(parts[1] == text@.subrange(start1 as int, end1 as int));
    }
    let minor = match parse_number(text, start1, end1) {
        Ok(n) => n,
        Err(_) => 0,
    };
    if end1 == text.len() {
        return Ok(Version { major, minor, revision: 0 });
    }
    let end2 = skip_digits(text, start2);
    proof {
        lemma_lossy_segments_first(text@, start2 as int, end2 as int);
        assert(parts[2] == text@.subrange(start2 as int, end2 as int));
    }
    let revision = match parse_number(text, start2, end2) {
        Ok(n) => n,
        Err(_) => 0,
    };
    Ok(Version { major, minor, revision })
}

impl Version {
    /// Reads a version from text.
    ///
    /// Succeeds exactly on one to three dot-separated unsigned decimal
    /// numbers, each at most `u32::MAX`.
    pub fn parse(s: &str) -> (r: Result<Version, VersionError>)
        ensures
            r == version_of_text(s@),
            r != Err::<Version, VersionError>(VersionError::Empty),
    {
        proof {
            lemma_segments_shape(s@);
        }
        let text = chars_of(s);
        parse_chars(text.as_slice())
    }

    /// Reads a version from text in lossy reading.
    ///
    /// Any run of characters that are no digits separates two segments.
    /// Succeeds exactly when the text starts with a decimal number that is
    /// at most `u32::MAX`.
    pub fn parse_lossy(s: &str) -> (r: Result<Version, VersionError>)
        ensures
            r == lossy_version_of_text(s@),
            r is Ok <==> number_of(lossy_segments(s@)[0]) is Ok,
            r matches Err(e) ==> e is ParseError,
    {
        let text = chars_of(s);
        parse_chars_lossy(text.as_slice())
    }
}

impl core::str::FromStr for Version {
    type Err = VersionError;

    /// Reads a version from text, as `Version::parse` does.
    fn from_str(s: &str) -> (r: Result<Version, VersionError>)
        ensures
            r == version_of_text(s@),
    {
        Version::parse(s)
    }
}

impl TryFrom<&str> for Version {
    type Error = VersionError;

    /// Reads a version from text, as `Version::parse` does.
    fn try_from(s: &str) -> (r: Result<Version, VersionError>) {
        Version::parse(s)
    }
}

impl vstd::std_specs::convert::TryFromSpecImpl<&str> for Version {
    open spec fn obeys_try_from_spec() -> bool {
        true
    }

    open spec fn try_from_spec(s: &str) -> Result<Version, VersionError> {
        version_of_text(s@)
    }
}

} // verus!
