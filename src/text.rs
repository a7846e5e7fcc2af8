//! Searching and splitting character sequences by a predicate.
use vstd::prelude::*;

verus! {

/// Index of the first character of `s` that satisfies `f`, or the length of
/// `s` when none does.
pub open spec fn first_where(s: Seq<char>, f: spec_fn(char) -> bool) -> nat
    decreases s.len(),
{
    if s.len() == 0 || f(s[0]) {
        0
    } else {
        1 + first_where(s.drop_first(), f)
    }
}

/// The pieces of `s` between the characters that satisfy `f`.
pub open spec fn split_where(s: Seq<char>, f: spec_fn(char) -> bool) -> Seq<Seq<char>>
    decreases s.len(),
{
    if first_where(s, f) >= s.len() {
        seq![s]
    } else {
        seq![s.take(first_where(s, f) as int)] + split_where(s.skip(first_where(s, f) as int + 1), f)
    }
}

/// The first index that satisfies `f` is `k` when none before it does and
/// `k` ends `s` or satisfies `f`.
pub proof fn lemma_first_where(s: Seq<char>, f: spec_fn(char) -> bool, k: int)
    requires
        0 <= k <= s.len(),
        forall|i: int| 0 <= i < k ==> !f(#[trigger] s[i]),
        k == s.len() || f(s[k]),
    ensures
        first_where(s, f) == k,
    decreases k,
{
    if k > 0 {
        let t = s.drop_first();
        assert forall|i: int| 0 <= i < k - 1 implies !f(#[trigger] t[i]) by {
            assert(t[i] == s[i + 1]);
        }
        if k < s.len() {
            assert(t[k - 1] == s[k]);
        }
        assert(!f(s[0]));
        lemma_first_where(t, f, k - 1);
    }
}

} // verus!
