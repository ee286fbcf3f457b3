//! The segments of a version text: the pieces between its dots.

use vstd::prelude::*;
use crate::decimal::{digits, is_digit};
use crate::scan::{leading, lemma_leading_is, lemma_leading_run};

verus! {

/// Every character but the separator `.`.
pub open spec fn not_dot() -> spec_fn(char) -> bool {
    |c: char| c != '.'
}

/// The segments of `s`: the pieces between its `.` characters, in order.
///
/// A text with `k` dots has `k + 1` segments, and any of them may be empty:
/// the empty text has one empty segment, `".."` has three.
pub open spec fn segments(s: Seq<char>) -> Seq<Seq<char>>
    decreases s.len(),
{
    let n = leading(s, not_dot()) as int;
    if n < s.len() {
        seq![s.take(n)] + segments(s.skip(n + 1))
    } else {
        seq![s]
    }
}

/// The segments of `s` from `start` on, where the first dot at or after
/// `start` stands at `end` (or `s` ends there without one): `s[start..end]`
/// is the first, and the rest are the segments after that dot.
pub proof fn lemma_segments_at(s: Seq<char>, start: int, end: int)
    requires
        0 <= start <= end <= s.len(),
        forall|i: int| start <= i < end ==> #[trigger] s[i] != '.',
        end < s.len() ==> s[end] == '.',
    ensures
        end < s.len() ==> segments(s.skip(start)) == seq![s.subrange(start, end)] + segments(
            s.skip(end + 1),
        ),
        end == s.len() ==> segments(s.skip(start)) == seq![s.subrange(start, end)],
{
    let t = s.skip(start);
    assert forall|i: int| 0 <= i < end - start implies not_dot()(#[trigger] t[i]) by {
        assert(t[i] == s[start + i]);
    }
    lemma_leading_is(t, not_dot(), end - start);
    assert(t.take(end - start) =~= s.subrange(start, end));
    if end < s.len() {
        assert(t.skip(end - start + 1) =~= s.skip(end + 1));
    } else {
        assert(t =~= s.subrange(start, end));
    }
}

/// A text has at least one segment, and no segment holds a dot.
pub proof fn lemma_segments_shape(s: Seq<char>)
    ensures
        segments(s).len() >= 1,
        forall|k: int, i: int|
            0 <= k < segments(s).len() && 0 <= i < segments(s)[k].len() ==> #[trigger] segments(
                s,
            )[k][i] != '.',
    decreases s.len(),
{
    let n = leading(s, not_dot()) as int;
    lemma_leading_run(s, not_dot());
    if n < s.len() {
        let rest = segments(s.skip(n + 1));
        lemma_segments_shape(s.skip(n + 1));
        assert forall|k: int, i: int|
            0 <= k < segments(s).len() && 0 <= i < segments(s)[k].len() implies #[trigger] segments(
            s,
        )[k][i] != '.' by {
            if k == 0 {
                assert(segments(s)[0] == s.take(n));
                assert(not_dot()(s[i]));
            } else {
                assert(segments(s)[k] == rest[k - 1]);
            }
        }
    } else {
        assert forall|i: int| 0 <= i < s.len() implies #[trigger] s[i] != '.' by {
            assert(not_dot()(s[i]));
        }
    }
}

/// The place of the first dot of `text` at or after `start`, or the length
/// of `text` where none follows.
pub(crate) fn find_dot(text: &[char], start: usize) -> (end: usize)
    requires
        start <= text@.len(),
    ensures
        start <= end <= text@.len(),
        forall|i: int| start <= i < end ==> #[trigger] text@[i] != '.',
        end < text@.len() ==> text@[end as int] == '.',
{
    let mut end: usize = start;
    while end < text.len() && text[end] != '.'
        invariant
            start <= end <= text@.len(),
            forall|i: int| start <= i < end ==> #[trigger] text@[i] != '.',
        decreases text@.len() - end,
    {
        end += 1;
    }
    end
}

/// The number of dots of `text` at or after `start`: one less than the
/// number of segments there.
pub(crate) fn count_dots(text: &[char], start: usize) -> (dots: usize)
    requires
        start <= text@.len(),
    ensures
        dots + 1 == segments(text@.skip(start as int)).len(),
        dots <= text@.len() - start,
{
    let mut dots: usize = 0;
    let mut from: usize = start;
    loop
        invariant
            start <= from <= text@.len(),
            dots <= from - start,
            dots + segments(text@.skip(from as int)).len() == segments(
                text@.skip(start as int),
            ).len(),
        decreases text@.len() - from,
    {
        let end = find_dot(text, from);
        proof {
            lemma_segments_at(text@, from as int, end as int);
        }
        if end == text.len() {
            return dots;
        }
        dots += 1;
        from = end + 1;
    }
}

/// Every character but the ten digits.
pub open spec fn not_digit() -> spec_fn(char) -> bool {
    |c: char| !is_digit(c)
}

/// The segments of `s` in lossy reading: the runs of digits that are left
/// when every run of other characters is taken as one separator.
///
/// A segment holds digits alone. Only the first can be empty, where `s` is
/// empty or starts with a separator, and the last, where `s` ends with one.
pub open spec fn lossy_segments(s: Seq<char>) -> Seq<Seq<char>>
    decreases s.len(),
{
    let n = leading(s, digits()) as int;
    if n < s.len() {
        let gap = 1 + leading(s.skip(n + 1), not_digit()) as int;
        proof {
            lemma_leading_run(s.skip(n + 1), not_digit());
        }
        seq![s.take(n)] + lossy_segments(s.skip(n + gap))
    } else {
        seq![s]
    }
}

/// The lossy segments of `s` from `start` on, where the digits that start
/// at `start` end at `end`, and the separator that starts at `end` ends at
/// `next`: `s[start..end]` is the first, and the rest are the lossy segments
/// from `next` on.
pub proof fn lemma_lossy_segments_at(s: Seq<char>, start: int, end: int, next: int)
    requires
        0 <= start <= end <= s.len(),
        forall|i: int| start <= i < end ==> is_digit(#[trigger] s[i]),
        end == s.len() ==> next == end,
        end < s.len() ==> end < next <= s.len(),
        forall|i: int| end <= i < next ==> !is_digit(#[trigger] s[i]),
        next < s.len() ==> is_digit(s[next]),
    ensures
        end < s.len() ==> lossy_segments(s.skip(start)) == seq![s.subrange(start, end)]
            + lossy_segments(s.skip(next)),
        end == s.len() ==> lossy_segments(s.skip(start)) == seq![s.subrange(start, end)],
{
    let t = s.skip(start);
    assert forall|i: int| 0 <= i < end - start implies digits()(#[trigger] t[i]) by {
        assert(t[i] == s[start + i]);
    }
    if end < s.len() {
        assert(t[end - start] == s[end]);
    }
    lemma_leading_is(t, digits(), end - start);
    assert(t.take(end - start) =~= s.subrange(start, end));
    if end < s.len() {
        let u = t.skip(end - start + 1);
        assert(u =~= s.skip(end + 1));
        assert forall|i: int| 0 <= i < next - end - 1 implies not_digit()(#[trigger] u[i]) by {
            assert(u[i] == s[end + 1 + i]);
        }
        if next < s.len() {
            assert(u[next - end - 1] == s[next]);
        }
        lemma_leading_is(u, not_digit(), next - end - 1);
        assert(t.skip(next - start) =~= s.skip(next));
    } else {
        assert(t =~= s.subrange(start, end));
    }
}

/// The first lossy segment of `s` from `start` on, where the digits that
/// start at `start` end at `end`: it is `s[start..end]`.
pub proof fn lemma_lossy_segments_first(s: Seq<char>, start: int, end: int)
    requires
        0 <= start <= end <= s.len(),
        forall|i: int| start <= i < end ==> is_digit(#[trigger] s[i]),
        end < s.len() ==> !is_digit(s[end]),
    ensures
        lossy_segments(s.skip(start)).len() >= 1,
        lossy_segments(s.skip(start))[0] == s.subrange(start, end),
{
    let t = s.skip(start);
    assert forall|i: int| 0 <= i < end - start implies digits()(#[trigger] t[i]) by {
        assert(t[i] == s[start + i]);
    }
    if end < s.len() {
        assert(t[end - start] == s[end]);
    }
    lemma_leading_is(t, digits(), end - start);
    assert(t.take(end - start) =~= s.subrange(start, end));
    if end == s.len() {
        assert(t =~= s.subrange(start, end));
    }
}

/// The place at which the digits of `text` that start at `start` end.
pub(crate) fn skip_digits(text: &[char], start: usize) -> (end: usize)
    requires
        start <= text@.len(),
    ensures
        start <= end <= text@.len(),
        forall|i: int| start <= i < end ==> is_digit(#[trigger] text@[i]),
        end < text@.len() ==> !is_digit(text@[end as int]),
{
    let mut end: usize = start;
    while end < text.len() && text[end] >= '0' && text[end] <= '9'
        invariant
            start <= end <= text@.len(),
            forall|i: int| start <= i < end ==> is_digit(#[trigger] text@[i]),
        decreases text@.len() - end,
    {
        end += 1;
    }
    end
}

/// The place at which the characters of `text` that start at `start` and
/// are no digits end.
pub(crate) fn skip_separator(text: &[char], start: usize) -> (end: usize)
    requires
        start <= text@.len(),
    ensures
        start <= end <= text@.len(),
        forall|i: int| start <= i < end ==> !is_digit(#[trigger] text@[i]),
        end < text@.len() ==> is_digit(text@[end as int]),
{
    let mut end: usize = start;
    while end < text.len() && !(text[end] >= '0' && text[end] <= '9')
        invariant
            start <= end <= text@.len(),
            forall|i: int| start <= i < end ==> !is_digit(#[trigger] text@[i]),
        decreases text@.len() - end,
    {
        end += 1;
    }
    end
}

} // verus!
