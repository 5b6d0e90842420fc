//! Stable rearrangements: a list reordered so that every item is kept once
//! and items that compare equal keep the order they came in.
use vstd::prelude::*;

verus! {

/// `out` is `orig` rearranged: position `k` of `out` holds item `perm[k]`
/// of `orig`, and no item of `orig` is used twice.
pub open spec fn rearranges<T>(orig: Seq<T>, out: Seq<T>, perm: Seq<int>) -> bool {
    &&& perm.len() == out.len()
    &&& out.len() == orig.len()
    &&& forall|k: int| 0 <= k < out.len() ==> 0 <= #[trigger] perm[k] < orig.len() && out[k] == orig[perm[k]]
    &&& forall|i: int, j: int| 0 <= i < j < out.len() ==> #[trigger] perm[i] != #[trigger] perm[j]
}

/// Items of `out` that `same` relates stand in the order of their places
/// in the list they came from.
pub open spec fn keeps_order<T>(out: Seq<T>, perm: Seq<int>, same: spec_fn(T, T) -> bool) -> bool {
    forall|i: int, j: int|
        #![trigger perm[i], perm[j]]
        0 <= i < j < out.len() && same(out[i], out[j]) ==> perm[i] < perm[j]
}

/// `out` is a stable rearrangement of `orig` for `same`.
pub open spec fn stable_rearrangement<T>(orig: Seq<T>, out: Seq<T>, same: spec_fn(T, T) -> bool) -> bool {
    exists|perm: Seq<int>| rearranges(orig, out, perm) && keeps_order(out, perm, same)
}

/// Inserting the next input item at `p` keeps a stable rearrangement of
/// the items taken so far, when no item at or after `p` is related to it.
pub proof fn lemma_insert_next<T>(
    orig: Seq<T>,
    taken: int,
    before: Seq<T>,
    perm: Seq<int>,
    p: int,
    same: spec_fn(T, T) -> bool,
)
    requires
        0 <= taken < orig.len(),
        rearranges(orig.take(taken), before, perm),
        keeps_order(before, perm, same),
        0 <= p <= before.len(),
        forall|k: int| p <= k < before.len() ==> !same(orig[taken], #[trigger] before[k]),
    ensures
        rearranges(orig.take(taken + 1), before.insert(p, orig[taken]), perm.insert(p, taken)),
        keeps_order(before.insert(p, orig[taken]), perm.insert(p, taken), same),
{
    let item = orig[taken];
    let after = before.insert(p, item);
    let np = perm.insert(p, taken);
    let o2 = orig.take(taken + 1);
    assert forall|k: int| 0 <= k < after.len() implies 0 <= #[trigger] np[k] < o2.len() && after[k] == o2[np[k]] by {
        if k < p {
            assert(np[k] == perm[k] && after[k] == before[k]);
        } else if k > p {
            assert(np[k] == perm[k - 1] && after[k] == before[k - 1]);
        }
    }
    assert forall|i: int, j: int| 0 <= i < j < after.len() implies #[trigger] np[i] != #[trigger] np[j] by {
        if i < p && j < p {
            assert(np[i] == perm[i] && np[j] == perm[j]);
        } else if i < p && j > p {
            assert(np[i] == perm[i] && np[j] == perm[j - 1]);
        } else if i > p {
            assert(np[i] == perm[i - 1] && np[j] == perm[j - 1]);
        } else if i == p {
            assert(np[j] == perm[j - 1]);
        } else {
            assert(np[i] == perm[i]);
        }
    }
    assert forall|i: int, j: int| #![trigger np[i], np[j]] 0 <= i < j < after.len() && same(after[i], after[j]) implies np[i] < np[j] by {
        if i < p && j < p {
            assert(np[i] == perm[i] && np[j] == perm[j] && after[i] == before[i] && after[j] == before[j]);
        } else if i < p && j == p {
            assert(np[i] == perm[i]);
        } else if i < p && j > p {
            assert(np[i] == perm[i] && np[j] == perm[j - 1] && after[i] == before[i] && after[j] == before[j - 1]);
        } else if i == p {
            assert(after[j] == before[j - 1]);
        } else {
            assert(np[i] == perm[i - 1] && np[j] == perm[j - 1] && after[i] == before[i - 1] && after[j] == before[j - 1]);
        }
    }
}

} // verus!
