//! What holds of the single-owner interner across calls.
use vstd::prelude::*;
use vstd::std_specs::cmp::PartialEqSpec;

use crate::unsync::{indexed_count, Interner};

verus! {

/// `T`'s equality is an equivalence relation, as `Eq` asks of it.
pub open spec fn eq_is_equivalence<T: PartialEq>() -> bool {
    &&& forall|a: T| #[trigger] a.eq_spec(&a)
    &&& forall|a: T, b: T| #[trigger] a.eq_spec(&b) ==> b.eq_spec(&a)
    &&& forall|a: T, b: T, c: T| #[trigger] a.eq_spec(&b) && #[trigger] b.eq_spec(&c) ==> a.eq_spec(&c)
}

/// In a canonical interner, at most one slot filed under `hash` holds a value
/// equal to `value`.
pub proof fn lemma_match_unique<T: PartialEq>(s: Interner<T>, value: T, hash: u64, k1: int, k2: int)
    requires
        s.canonical(),
        eq_is_equivalence::<T>(),
        s.matches_at(k1, &value, hash),
        s.matches_at(k2, &value, hash),
    ensures
        k1 == k2,
{
    if k1 < k2 {
        assert(value.eq_spec(&s@[k2]));
        assert(s@[k1].eq_spec(&s@[k2]));
    } else if k2 < k1 {
        assert(value.eq_spec(&s@[k1]));
        assert(s@[k2].eq_spec(&s@[k1]));
    }
}

/// Interning two equal values, in either order and under the same hash, gives
/// the same slot.
pub proof fn lemma_dedup<T: PartialEq>(
    s0: Interner<T>,
    s1: Interner<T>,
    s2: Interner<T>,
    v1: T,
    v2: T,
    hash: u64,
    r1: usize,
    r2: usize,
)
    requires
        s0.wf(),
        s0.canonical(),
        s1.canonical(),
        eq_is_equivalence::<T>(),
        v1.eq_spec(&v2),
        s0.interned(&s1, &v1, hash, r1),
        s1.interned(&s2, &v2, hash, r2),
    ensures
        r1 == r2,
{
    s0.lemma_filed_len();
    assert(s1.matches_at(r1 as int, &v1, hash));
    assert(s1@[r1 as int].eq_spec(&v2));
    assert(s1.matches_at(r1 as int, &v2, hash));
    assert(!s1.misses(&v2, hash));
    lemma_match_unique(s1, v2, hash, r1 as int, r2 as int);
}

/// After `value` is interned under `hash`, the slot handed back is the one
/// and only slot that a lookup of `value` under `hash` finds.
pub proof fn lemma_resolve_after_intern<T: PartialEq>(
    s0: Interner<T>,
    s1: Interner<T>,
    value: T,
    hash: u64,
    r: usize,
)
    requires
        s0.wf(),
        s1.canonical(),
        eq_is_equivalence::<T>(),
        s0.interned(&s1, &value, hash, r),
    ensures
        s1.matches_at(r as int, &value, hash),
        forall|k: int| #[trigger] s1.matches_at(k, &value, hash) ==> k == r,
{
    s0.lemma_filed_len();
    assert(s1.matches_at(r as int, &value, hash));
    assert forall|k: int| #[trigger] s1.matches_at(k, &value, hash) implies k == r by {
        lemma_match_unique(s1, value, hash, k, r as int);
    }
}

/// An interner that holds nothing finds nothing.
pub proof fn lemma_fresh_misses<T: PartialEq>(s: Interner<T>, value: T, hash: u64)
    requires
        s@.len() == 0,
    ensures
        s.misses(&value, hash),
{
}

/// Interning keeps every slot handed out before, with the value it held.
pub proof fn lemma_slots_stable<T: PartialEq>(
    s0: Interner<T>,
    s1: Interner<T>,
    value: T,
    hash: u64,
    r: usize,
    k: int,
)
    requires
        s0.wf(),
        s0.interned(&s1, &value, hash, r),
        0 <= k < s0@.len(),
    ensures
        k < s1@.len(),
        s1@[k] == s0@[k],
        s1.filed()[k] == s0.filed()[k],
{
    s0.lemma_filed_len();
}

/// Where every value is filed, under a hash that equal values share, a
/// canonical interner holds no two equal values: its length is the number of
/// distinct values it was given.
pub proof fn lemma_no_equal_pair<T: PartialEq>(s: Interner<T>)
    requires
        s.wf(),
        s.canonical(),
        eq_is_equivalence::<T>(),
        forall|k: int| 0 <= k < s@.len() ==> (#[trigger] s.filed()[k]) is Some,
        forall|i: int, j: int|
            #![trigger s@[i], s@[j]]
            0 <= i < s@.len() && 0 <= j < s@.len() && s@[i].eq_spec(&s@[j]) ==> s.filed()[i]
                == s.filed()[j],
    ensures
        forall|i: int, j: int|
            #![trigger s@[i], s@[j]]
            0 <= i < s@.len() && 0 <= j < s@.len() && i != j ==> !s@[i].eq_spec(&s@[j]),
        s.spec_len() == s@.len(),
{
    s.lemma_filed_len();
    assert forall|i: int, j: int|
        #![trigger s@[i], s@[j]]
        0 <= i < s@.len() && 0 <= j < s@.len() && i != j implies !s@[i].eq_spec(&s@[j]) by {
        if s@[i].eq_spec(&s@[j]) {
            assert(s.filed()[i] == s.filed()[j]);
            if j < i {
                assert(s@[j].eq_spec(&s@[i]));
            }
        }
    }
    lemma_all_filed_count(s.filed());
}

proof fn lemma_all_filed_count(f: Seq<Option<u64>>)
    requires
        forall|k: int| 0 <= k < f.len() ==> (#[trigger] f[k]) is Some,
    ensures
        indexed_count(f) == f.len(),
    decreases f.len(),
{
    if f.len() > 0 {
        let g = f.drop_last();
        assert forall|k: int| 0 <= k < g.len() implies (#[trigger] g[k]) is Some by {
            assert(g[k] == f[k]);
        }
        lemma_all_filed_count(g);
    }
}

} // verus!
