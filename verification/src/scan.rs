//! Runs of like characters at the front of a text.

use vstd::prelude::*;

verus! {

/// How many characters at the front of `s` satisfy `keep` before the first
/// one that does not.
pub open spec fn leading(s: Seq<char>, keep: spec_fn(char) -> bool) -> nat
    decreases s.len(),
{
    if s.len() > 0 && keep(s[0]) {
        1 + leading(s.drop_first(), keep)
    } else {
        0
    }
}

/// `leading(s, keep)` is the one place `k` such that every character of `s`
/// before `k` satisfies `keep`, and `s` either ends at `k` or holds there a
/// character that does not.
pub proof fn lemma_leading_is(s: Seq<char>, keep: spec_fn(char) -> bool, k: int)
    requires
        0 <= k <= s.len(),
        forall|i: int| 0 <= i < k ==> keep(#[trigger] s[i]),
        k < s.len() ==> !keep(s[k]),
    ensures
        leading(s, keep) == k,
    decreases s.len(),
{
    if k > 0 {
        let rest = s.drop_first();
        assert forall|i: int| 0 <= i < k - 1 implies keep(#[trigger] rest[i]) by {
            assert(rest[i] == s[i + 1]);
        }
        lemma_leading_is(rest, keep, k - 1);
    }
}

/// What `leading(s, keep)` says of `s`: the converse of `lemma_leading_is`.
pub proof fn lemma_leading_run(s: Seq<char>, keep: spec_fn(char) -> bool)
    ensures
        leading(s, keep) <= s.len(),
        forall|i: int| 0 <= i < leading(s, keep) ==> keep(#[trigger] s[i]),
        leading(s, keep) < s.len() ==> !keep(s[leading(s, keep) as int]),
    decreases s.len(),
{
    if s.len() > 0 && keep(s[0]) {
        let rest = s.drop_first();
        lemma_leading_run(rest, keep);
        assert forall|i: int| 0 <= i < leading(s, keep) implies keep(#[trigger] s[i]) by {
            if i > 0 {
                assert(s[i] == rest[i - 1]);
            }
        }
        if leading(s, keep) < s.len() {
            assert(s[leading(s, keep) as int] == rest[leading(rest, keep) as int]);
        }
    }
}

/// A run at the front that satisfies `keep` is no longer than
/// `leading(s, keep)`.
pub proof fn lemma_leading_at_least(s: Seq<char>, keep: spec_fn(char) -> bool, k: int)
    requires
        0 <= k <= s.len(),
        forall|i: int| 0 <= i < k ==> keep(#[trigger] s[i]),
    ensures
        k <= leading(s, keep),
{
    lemma_leading_run(s, keep);
    if leading(s, keep) < k {
        assert(keep(s[leading(s, keep) as int]));
    }
}

} // verus!
