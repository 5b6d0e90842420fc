//! The order mods are listed in: by display name ignoring case, then by
//! folder or file name.
use vstd::prelude::*;

use super::inventory::InstalledMod;
use crate::stable::{lemma_insert_next, rearranges, keeps_order, stable_rearrangement};
use crate::text::{chars_eq, chars_of, lowercase, to_lower};

verus! {

/// `a` sorts strictly before `b` when both are read from index `i` on:
/// characters compare by code point, and a proper prefix comes first
/// (the order of `str`'s `Ord`).
pub open spec fn text_lt_from(a: Seq<char>, b: Seq<char>, i: int) -> bool
    decreases a.len() - i,
{
    if i < 0 {
        false
    } else if i >= a.len() {
        i < b.len()
    } else if i >= b.len() {
        false
    } else if (a[i] as u32) < (b[i] as u32) {
        true
    } else if (a[i] as u32) > (b[i] as u32) {
        false
    } else {
        text_lt_from(a, b, i + 1)
    }
}

/// `a` sorts strictly before `b`.
pub open spec fn text_lt(a: Seq<char>, b: Seq<char>) -> bool {
    text_lt_from(a, b, 0)
}

/// The strict text order is transitive.
pub proof fn lemma_text_lt_transitive(a: Seq<char>, b: Seq<char>, c: Seq<char>, i: int)
    requires
        i >= 0,
        text_lt_from(a, b, i),
        text_lt_from(b, c, i),
    ensures
        text_lt_from(a, c, i),
    decreases a.len() - i,
{
    if i < a.len() && i < b.len() && i < c.len() && (a[i] as u32) == (b[i] as u32) && (b[i] as u32) == (c[i] as u32) {
        lemma_text_lt_transitive(a, b, c, i + 1);
    }
}

/// The strict text order is irreflexive.
pub proof fn lemma_text_lt_irreflexive(a: Seq<char>, i: int)
    requires
        i >= 0,
    ensures
        !text_lt_from(a, a, i),
    decreases a.len() - i,
{
    if i < a.len() {
        lemma_text_lt_irreflexive(a, i + 1);
    }
}

/// Does `a` sort strictly before `b`? Character by character, by code point.
pub fn text_lt_exec(a: &Vec<char>, b: &Vec<char>) -> (r: bool)
    ensures
        r == text_lt(a@, b@),
{
    let mut i: usize = 0;
    while i < a.len() && i < b.len() && (a[i] as u32) == (b[i] as u32)
        invariant
            i <= a.len(),
            i <= b.len(),
            text_lt(a@, b@) == text_lt_from(a@, b@, i as int),
        decreases a.len() - i,
    {
        i += 1;
    }
    if i >= a.len() {
        i < b.len()
    } else if i >= b.len() {
        false
    } else {
        (a[i] as u32) < (b[i] as u32)
    }
}

/// The sort key of a mod: lower-cased display name, then entry name.
pub open spec fn mod_key(m: InstalledMod) -> (Seq<char>, Seq<char>) {
    (lowercase(m.display_name@), m.entry_name@)
}

/// Key `x` sorts strictly before key `y`.
pub open spec fn key_lt(x: (Seq<char>, Seq<char>), y: (Seq<char>, Seq<char>)) -> bool {
    text_lt(x.0, y.0) || (x.0 == y.0 && text_lt(x.1, y.1))
}

/// The key order is transitive.
pub proof fn lemma_key_lt_transitive(x: (Seq<char>, Seq<char>), y: (Seq<char>, Seq<char>), z: (Seq<char>, Seq<char>))
    requires
        key_lt(x, y),
        key_lt(y, z),
    ensures
        key_lt(x, z),
{
    if text_lt(x.0, y.0) && text_lt(y.0, z.0) {
        lemma_text_lt_transitive(x.0, y.0, z.0, 0);
    } else if x.0 == y.0 && y.0 == z.0 {
        lemma_text_lt_transitive(x.1, y.1, z.1, 0);
    }
}

/// No mod sorts after a mod that comes later in the list.
pub open spec fn mods_sorted(s: Seq<InstalledMod>) -> bool {
    forall|i: int, j: int| 0 <= i < j < s.len() ==> !key_lt(#[trigger] mod_key(s[j]), #[trigger] mod_key(s[i]))
}

/// Two mods have the same sort key.
pub open spec fn same_mod_key() -> spec_fn(InstalledMod, InstalledMod) -> bool {
    |a: InstalledMod, b: InstalledMod| mod_key(a) == mod_key(b)
}

/// Sorts mods by lower-cased display name, then entry name; mods with the
/// same key keep their order.
pub fn sort_installed_mods(mods: Vec<InstalledMod>) -> (r: Vec<InstalledMod>)
    ensures
        r@.to_multiset() == mods@.to_multiset(),
        mods_sorted(r@),
        stable_rearrangement(mods@, r@, same_mod_key()),
{
    let mut out: Vec<InstalledMod> = Vec::new();
    let mut keys: Vec<(Vec<char>, Vec<char>)> = Vec::new();
    let mut rest = mods;
    let ghost orig = rest@;
    let ghost mut taken: int = 0;
    let ghost mut perm: Seq<int> = Seq::empty();
    proof {
        assert(orig.take(0) =~= Seq::<InstalledMod>::empty());
        assert(orig.skip(0) =~= orig);
    }
    while rest.len() > 0
        invariant
            0 <= taken <= orig.len(),
            taken + rest.len() == orig.len(),
            rest@ == orig.skip(taken),
            out@.to_multiset() == orig.take(taken).to_multiset(),
            mods_sorted(out@),
            rearranges(orig.take(taken), out@, perm),
            keeps_order(out@, perm, same_mod_key()),
            keys@.len() == out@.len(),
            forall|k: int| 0 <= k < out@.len() ==> (#[trigger] keys@[k]).0@ == mod_key(out@[k]).0 && keys@[k].1@ == mod_key(out@[k]).1,
        decreases rest.len(),
    {
        let item = rest.remove(0);
        let dk = chars_of(to_lower(item.display_name.as_str()).as_str());
        let ek = chars_of(item.entry_name.as_str());
        let ghost kx = mod_key(item);
        assert(dk@ == kx.0 && ek@ == kx.1);
        let mut q: usize = 0;
        while q < out.len()
            invariant
                q <= out.len(),
                keys@.len() == out@.len(),
                forall|k: int| 0 <= k < out@.len() ==> (#[trigger] keys@[k]).0@ == mod_key(out@[k]).0 && keys@[k].1@ == mod_key(out@[k]).1,
                dk@ == kx.0 && ek@ == kx.1,
                forall|j: int| 0 <= j < q ==> !key_lt(kx, #[trigger] mod_key(out@[j])),
            ensures
                q <= out.len(),
                forall|j: int| 0 <= j < q ==> !key_lt(kx, #[trigger] mod_key(out@[j])),
                q < out.len() ==> key_lt(kx, mod_key(out@[q as int])),
            decreases out.len() - q,
        {
            let kq = &keys[q];
            assert(kq.0@ == mod_key(out@[q as int]).0 && kq.1@ == mod_key(out@[q as int]).1);
            let lt = text_lt_exec(&dk, &kq.0) || (chars_eq(&dk, &kq.0) && text_lt_exec(&ek, &kq.1));
            if lt {
                break;
            }
            q += 1;
        }
        let p = q;
        let ghost before = out@;
        proof {
            assert forall|k: int| p <= k < before.len() implies !key_lt(#[trigger] mod_key(before[k]), kx) by {
                assert(key_lt(kx, mod_key(before[p as int])));
                if key_lt(mod_key(before[k]), kx) {
                    lemma_key_lt_transitive(mod_key(before[k]), kx, mod_key(before[p as int]));
                    if k == p {
                        lemma_text_lt_irreflexive(mod_key(before[k]).0, 0);
                        lemma_text_lt_irreflexive(mod_key(before[k]).1, 0);
                    } else {
                        assert(!key_lt(mod_key(before[k]), mod_key(before[p as int])));
                    }
                }
            }
        }
        proof {
            assert forall|k: int| p <= k < before.len() implies !same_mod_key()(orig[taken], #[trigger] before[k]) by {
                assert(orig[taken] == item);
                if mod_key(before[k]) == kx {
                    if k == p {
                        lemma_text_lt_irreflexive(kx.0, 0);
                        lemma_text_lt_irreflexive(kx.1, 0);
                    } else {
                        assert(!key_lt(mod_key(before[k]), mod_key(before[p as int])));
                    }
                }
            }
            lemma_insert_next(orig, taken, before, perm, p as int, same_mod_key());
            perm = perm.insert(p as int, taken);
        }
        out.insert(p, item);
        keys.insert(p, (dk, ek));
        proof {
            let after = out@;
            assert(after == before.insert(p as int, item));
            assert forall|i: int, j: int| 0 <= i < j < after.len() implies !key_lt(#[trigger] mod_key(after[j]), #[trigger] mod_key(after[i])) by {
                if i < p && j < p {
                    assert(after[i] == before[i] && after[j] == before[j]);
                } else if i < p && j == p {
                    assert(after[i] == before[i]);
                } else if i < p && j > p {
                    assert(after[i] == before[i] && after[j] == before[j - 1]);
                } else if i == p {
                    assert(after[j] == before[j - 1]);
                } else {
                    assert(after[i] == before[i - 1] && after[j] == before[j - 1]);
                }
            }
            assert forall|k: int| 0 <= k < after.len() implies (#[trigger] keys@[k]).0@ == mod_key(after[k]).0 && keys@[k].1@ == mod_key(after[k]).1 by {
                if k < p {
                } else if k == p {
                } else {
                    assert(after[k] == before[k - 1]);
                }
            }
            assert(orig.take(taken + 1) =~= orig.take(taken).push(orig[taken]));
            assert(orig[taken] == item);
            vstd::seq_lib::to_multiset_insert(before, p as int, item);
            vstd::seq_lib::to_multiset_build(orig.take(taken), item);
            taken = taken + 1;
            assert(rest@ =~= orig.skip(taken));
        }
    }
    assert(orig.take(orig.len() as int) =~= orig);
    assert(rearranges(mods@, out@, perm) && keeps_order(out@, perm, same_mod_key()));
    out
}

} // verus!
