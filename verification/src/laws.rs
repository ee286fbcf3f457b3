//! Laws that relate writing a version to reading it back.

use vstd::prelude::*;
use crate::decimal::{
    all_digits, decimal_text, digits, lemma_decimal_text_digits,
    lemma_number_of_decimal_text, lemma_number_of_is_ok, number_of,
};
use crate::error::VersionError;
use crate::parse::{lossy_version_of_text, version_of_text};
use crate::scan::{leading, lemma_leading_is, lemma_leading_run};
use crate::segment::{
    lemma_segments_at, lemma_segments_shape, lossy_segments, not_digit, not_dot, segments,
};
use crate::version::Version;

verus! {

/// A text without a dot is its own single segment.
pub proof fn lemma_segments_of_one(a: Seq<char>)
    requires
        forall|i: int| 0 <= i < a.len() ==> #[trigger] a[i] != '.',
    ensures
        segments(a) == seq![a],
{
    lemma_segments_at(a, 0, a.len() as int);
    assert(a.skip(0) =~= a);
    assert(a.subrange(0, a.len() as int) =~= a);
}

/// A text without a dot, then a dot, then any text: the first is the first
/// segment, and the segments of the last follow.
pub proof fn lemma_segments_of_joined(a: Seq<char>, rest: Seq<char>)
    requires
        forall|i: int| 0 <= i < a.len() ==> #[trigger] a[i] != '.',
    ensures
        segments(a + seq!['.'] + rest) == seq![a] + segments(rest),
{
    let s = a + seq!['.'] + rest;
    lemma_segments_at(s, 0, a.len() as int);
    assert(s.skip(0) =~= s);
    assert(s.subrange(0, a.len() as int) =~= a);
    assert(s.skip(a.len() as int + 1) =~= rest);
}

/// The decimal text of a number holds no dot.
pub proof fn lemma_decimal_text_has_no_dot(n: nat)
    ensures
        forall|i: int| 0 <= i < decimal_text(n).len() ==> #[trigger] decimal_text(n)[i] != '.',
{
    lemma_decimal_text_digits(n);
}

/// Writing a version and reading the text back gives the same version.
pub proof fn lemma_read_back(v: Version)
    ensures
        version_of_text(v.display_text()) == Ok::<Version, VersionError>(v),
{
    let a = decimal_text(v.major as nat);
    let b = decimal_text(v.minor as nat);
    let c = decimal_text(v.revision as nat);
    lemma_decimal_text_has_no_dot(v.major as nat);
    lemma_decimal_text_has_no_dot(v.minor as nat);
    lemma_decimal_text_has_no_dot(v.revision as nat);
    lemma_segments_of_one(c);
    lemma_segments_of_joined(b, c);
    lemma_segments_of_joined(a, b + seq!['.'] + c);
    assert(v.display_text() =~= a + seq!['.'] + (b + seq!['.'] + c));
    assert(segments(v.display_text()) =~= seq![a, b, c]);
    lemma_number_of_decimal_text(v.major);
    lemma_number_of_decimal_text(v.minor);
    lemma_number_of_decimal_text(v.revision);
}

/// A lone number reads as that major number, with minor and revision zero.
pub proof fn lemma_read_major_alone(major: u32)
    ensures
        version_of_text(decimal_text(major as nat)) == Ok::<Version, VersionError>(
            Version { major, minor: 0, revision: 0 },
        ),
{
    let a = decimal_text(major as nat);
    lemma_decimal_text_has_no_dot(major as nat);
    lemma_segments_of_one(a);
    lemma_number_of_decimal_text(major);
}

/// Two numbers joined by a dot read as major and minor, with revision zero.
pub proof fn lemma_read_major_minor(major: u32, minor: u32)
    ensures
        version_of_text(decimal_text(major as nat) + seq!['.'] + decimal_text(minor as nat))
            == Ok::<Version, VersionError>(Version { major, minor, revision: 0 }),
{
    let a = decimal_text(major as nat);
    let b = decimal_text(minor as nat);
    lemma_decimal_text_has_no_dot(major as nat);
    lemma_decimal_text_has_no_dot(minor as nat);
    lemma_segments_of_one(b);
    lemma_segments_of_joined(a, b);
    assert(segments(a + seq!['.'] + b) =~= seq![a, b]);
    lemma_number_of_decimal_text(major);
    lemma_number_of_decimal_text(minor);
}

/// Reading succeeds exactly on one to three segments that each read as a
/// number.
pub proof fn lemma_read_succeeds_iff(s: Seq<char>)
    ensures
        version_of_text(s) is Ok <==> segments(s).len() <= 3 && forall|k: int|
            0 <= k < segments(s).len() ==> (#[trigger] number_of(segments(s)[k])) is Ok,
{
    lemma_segments_shape(s);
    let parts = segments(s);
    if version_of_text(s) is Ok {
        assert forall|k: int| 0 <= k < parts.len() implies (#[trigger] number_of(
            parts[k],
        )) is Ok by {
            assert(k == 0 || k == 1 || k == 2);
        }
    }
    if parts.len() <= 3 && forall|k: int|
        0 <= k < parts.len() ==> (#[trigger] number_of(parts[k])) is Ok {
        assert(number_of(parts[0]) is Ok);
        if parts.len() > 1 {
            assert(number_of(parts[1]) is Ok);
        }
        if parts.len() > 2 {
            assert(number_of(parts[2]) is Ok);
        }
    }
}

/// Reading never fails with `Empty`: every text has a first segment. Where
/// it fails with `TooManyDecimals`, the error holds the number of segments,
/// which is four or more, and the first three all read as numbers.
pub proof fn lemma_read_errors(s: Seq<char>)
    requires
        segments(s).len() <= usize::MAX,
    ensures
        version_of_text(s) != Err::<Version, VersionError>(VersionError::Empty),
        lossy_version_of_text(s) != Err::<Version, VersionError>(VersionError::Empty),
        !(lossy_version_of_text(s) matches Err(VersionError::TooManyDecimals(_))),
        forall|n: usize| #[trigger]
            version_of_text(s) == Err::<Version, VersionError>(VersionError::TooManyDecimals(n))
                <==> {
                &&& n == segments(s).len()
                &&& n >= 4
                &&& number_of(segments(s)[0]) is Ok
                &&& number_of(segments(s)[1]) is Ok
                &&& number_of(segments(s)[2]) is Ok
            },
{
    lemma_segments_shape(s);
    lemma_leading_run(s, digits());
}

/// Where every segment of a text is a run of one or more digits, lossy
/// reading finds the same segments.
pub proof fn lemma_lossy_segments_of_numbers(s: Seq<char>)
    requires
        forall|k: int|
            0 <= k < segments(s).len() ==> (#[trigger] segments(s)[k]).len() > 0 && all_digits(
                segments(s)[k],
            ),
    ensures
        lossy_segments(s) == segments(s),
    decreases s.len(),
{
    let n = leading(s, not_dot()) as int;
    lemma_leading_run(s, not_dot());
    let first = segments(s)[0];
    assert(first.len() > 0 && all_digits(first));
    if n < s.len() {
        let rest = s.skip(n + 1);
        assert(first == s.take(n));
        assert forall|i: int| 0 <= i < n implies digits()(#[trigger] s[i]) by {
            assert(s[i] == first[i]);
        }
        assert(!not_dot()(s[n]));
        lemma_leading_is(s, digits(), n);
        assert forall|k: int| 0 <= k < segments(rest).len() implies (#[trigger] segments(
            rest,
        )[k]).len() > 0 && all_digits(segments(rest)[k]) by {
            assert(segments(rest)[k] == segments(s)[k + 1]);
        }
        lemma_lossy_segments_of_numbers(rest);
        let second = segments(rest)[0];
        lemma_segments_shape(rest);
        assert(second.len() > 0 && all_digits(second));
        lemma_leading_run(rest, not_dot());
        assert(leading(rest, not_dot()) > 0) by {
            if leading(rest, not_dot()) == 0 {
                if rest.len() > 0 {
                    assert(second =~= rest.take(0));
                }
            }
        }
        assert(rest[0] == second[0]);
        assert(!not_digit()(rest[0]));
        lemma_leading_is(rest, not_digit(), 0);
    } else {
        assert(first == s);
        assert forall|i: int| 0 <= i < s.len() implies digits()(#[trigger] s[i]) by {}
        lemma_leading_is(s, digits(), s.len() as int);
    }
}

/// Whatever text strict reading accepts, lossy reading reads the same.
pub proof fn lemma_lossy_reads_what_strict_reads(s: Seq<char>)
    requires
        version_of_text(s) is Ok,
    ensures
        lossy_version_of_text(s) == version_of_text(s),
{
    lemma_read_succeeds_iff(s);
    assert forall|k: int| 0 <= k < segments(s).len() implies (#[trigger] segments(s)[k]).len() > 0
        && all_digits(segments(s)[k]) by {
        assert(number_of(segments(s)[k]) is Ok);
        lemma_number_of_is_ok(segments(s)[k]);
    }
    lemma_lossy_segments_of_numbers(s);
}

/// Writing a version and reading the text back in lossy reading gives the
/// same version.
pub proof fn lemma_read_back_lossy(v: Version)
    ensures
        lossy_version_of_text(v.display_text()) == Ok::<Version, VersionError>(v),
{
    lemma_read_back(v);
    lemma_lossy_reads_what_strict_reads(v.display_text());
}

} // verus!
