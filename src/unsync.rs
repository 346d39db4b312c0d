//! The single-owner interner: an append-only arena of values and a hash index
//! over it, with no locking.
//!
//! A value is named by its slot, the position of its copy in the arena. Slots
//! are never reused and values are never moved or dropped while the interner
//! lives, so a slot stays valid, and keeps naming the same value, for the
//! interner's whole life.
use core::hash::Hash;
use vstd::prelude::*;
use vstd::std_specs::cmp::PartialEqSpec;

use crate::hashing::fx_hash;
use crate::table::{table_candidates, table_entries, table_insert, table_len, table_new, HashIndex};

verus! {

/// How many slots of `s` are filed in the index.
pub open spec fn indexed_count(s: Seq<Option<u64>>) -> nat
    decreases s.len(),
{
    if s.len() == 0 {
        0
    } else {
        indexed_count(s.drop_last()) + if s.last() is Some {
            1nat
        } else {
            0nat
        }
    }
}

proof fn lemma_indexed_count_bound(s: Seq<Option<u64>>)
    ensures
        indexed_count(s) <= s.len(),
    decreases s.len(),
{
    if s.len() > 0 {
        lemma_indexed_count_bound(s.drop_last());
    }
}

proof fn lemma_indexed_count_push(s: Seq<Option<u64>>, x: Option<u64>)
    ensures
        indexed_count(s.push(x)) == indexed_count(s) + if x is Some {
            1nat
        } else {
            0nat
        },
{
    assert(s.push(x).drop_last() =~= s);
}

/// An interner for a single owner: `intern` and its kin take `&mut self`.
pub struct Interner<T> {
    arena: Vec<T>,
    index: HashIndex,
    /// For each arena slot, the hash it is filed under in the index, if any.
    filed: Ghost<Seq<Option<u64>>>,
}

impl<T> View for Interner<T> {
    type V = Seq<T>;

    /// The arena: every value stored, in the order it was stored.
    closed spec fn view(&self) -> Seq<T> {
        self.arena@
    }
}

impl<T: PartialEq> Default for Interner<T> {
    fn default() -> (r: Self)
        ensures
            r.wf(),
            r.canonical(),
            r@ == Seq::<T>::empty(),
            r.filed() == Seq::<Option<u64>>::empty(),
    {
        Self::new()
    }
}

impl<T: PartialEq> Interner<T> {
    /// For each slot, the hash under which the index files it (`None` for a
    /// value placed in the arena alone).
    pub closed spec fn filed(&self) -> Seq<Option<u64>> {
        self.filed@
    }

    /// The structural invariant: the index holds exactly one entry
    /// `(hash, slot)` for each filed slot, and nothing else.
    pub closed spec fn wf(&self) -> bool {
        &&& self.filed@.len() == self.arena@.len()
        &&& table_entries(self.index).len() == indexed_count(self.filed@)
        &&& forall|e: (u64, usize)|
            #![trigger table_entries(self.index).count(e)]
            table_entries(self.index).count(e) == if e.1 < self.arena@.len() && self.filed@[e.1 as int]
                == Some(e.0) {
                1nat
            } else {
                0nat
            }
    }

    /// A well-formed interner records a filing for each slot of the arena.
    pub proof fn lemma_filed_len(&self)
        requires
            self.wf(),
        ensures
            self.filed().len() == self@.len(),
    {
    }

    /// No slot filed under a hash repeats a value filed earlier under the same
    /// hash: the index holds one representative for each class of equal values.
    pub open spec fn canonical(&self) -> bool {
        forall|i: int, j: int|
            0 <= i < j < self@.len() && (#[trigger] self.filed()[i]) is Some && self.filed()[i]
                == #[trigger] self.filed()[j] ==> !self@[i].eq_spec(&self@[j])
    }

    /// Slot `k` is filed under `hash` and holds a value equal to `value`.
    pub open spec fn matches_at(&self, k: int, value: &T, hash: u64) -> bool {
        &&& 0 <= k < self@.len()
        &&& self.filed()[k] == Some(hash)
        &&& self@[k].eq_spec(value)
    }

    /// No slot filed under `hash` holds a value equal to `value`.
    pub open spec fn misses(&self, value: &T, hash: u64) -> bool {
        forall|k: int| !#[trigger] self.matches_at(k, value, hash)
    }

    /// What interning `value` under `hash` does, going from `self` to `post`
    /// and returning slot `r`: the slot of the equal value filed under `hash`
    /// if there is one, with nothing changed; else a new slot that files
    /// `value` under `hash`.
    pub open spec fn interned(&self, post: &Self, value: &T, hash: u64, r: usize) -> bool {
        if self.misses(value, hash) {
            &&& r == self@.len()
            &&& post@ == self@.push(*value)
            &&& post.filed() == self.filed().push(Some(hash))
            &&& post.spec_len() == self.spec_len() + 1
        } else {
            &&& self.matches_at(r as int, value, hash)
            &&& *post == *self
        }
    }

    /// The number of values filed in the index.
    pub open spec fn spec_len(&self) -> nat {
        indexed_count(self.filed())
    }

    /// Creates an empty interner. Nothing is allocated until the first insert.
    pub fn new() -> (r: Self)
        ensures
            r.wf(),
            r.canonical(),
            r@ == Seq::<T>::empty(),
            r.filed() == Seq::<Option<u64>>::empty(),
    {
        Interner { arena: Vec::new(), index: table_new(), filed: Ghost(Seq::empty()) }
    }

    /// The number of values filed in the index.
    pub fn len(&self) -> (r: usize)
        requires
            self.wf(),
        ensures
            r == self.spec_len(),
    {
        table_len(&self.index)
    }

    /// Whether no value is filed in the index.
    pub fn is_empty(&self) -> (r: bool)
        requires
            self.wf(),
        ensures
            r == (self.spec_len() == 0),
    {
        self.len() == 0
    }

    /// The value stored in `slot`.
    pub fn resolve(&self, slot: usize) -> (r: &T)
        requires
            slot < self@.len(),
        ensures
            *r == self@[slot as int],
    {
        &self.arena[slot]
    }

    /// Places `value` in the arena without filing it in the index: later
    /// lookups do not find it. Returns its slot.
    pub fn insert_arena(&mut self, value: T) -> (r: usize)
        requires
            old(self).wf(),
        ensures
            final(self).wf(),
            r == old(self)@.len(),
            final(self)@ == old(self)@.push(value),
            final(self).filed() == old(self).filed().push(None),
            old(self).canonical() ==> final(self).canonical(),
    {
        let slot = self.arena.len();
        self.arena.push(value);
        proof {
            lemma_indexed_count_push(self.filed@, None);
            self.filed@ = self.filed@.push(None);
        }
        slot
    }

    /// Finds the slot filed under `hash` whose value equals `value`.
    pub fn try_resolve_with(&self, value: &T, hash: u64) -> (r: Option<usize>)
        requires
            self.wf(),
            T::obeys_eq_spec(),
        ensures
            r matches Some(k) ==> self.matches_at(k as int, value, hash),
            r is None ==> self.misses(value, hash),
    {
        let cands = table_candidates(&self.index, hash);
        let stored = self.arena.len();
        let mut n: usize = 0;
        while n < cands.len()
            invariant
                self.wf(),
                T::obeys_eq_spec(),
                n <= cands@.len(),
                stored == self@.len(),
                forall|k: int| 0 <= k < cands@.len() ==> table_entries(self.index).count(#[trigger] cands@[k]) > 0,
                forall|e: (u64, usize)|
                    e.0 == hash && table_entries(self.index).count(e) > 0 ==> #[trigger] cands@.contains(e),
                forall|m: int|
                    0 <= m < n ==> !self.matches_at(#[trigger] cands@[m].1 as int, value, hash),
            decreases cands@.len() - n,
        {
            let (h, slot) = cands[n];
            if h == hash && slot < stored && self.arena[slot].eq(value) {
                let ghost e = (h, slot);
                assert(table_entries(self.index).count(e) > 0);
                return Some(slot);
            }
            proof {
                let e = cands@[n as int];
                assert(table_entries(self.index).count(e) > 0);
            }
            n = n + 1;
        }
        proof {
            assert forall|k: int| !#[trigger] self.matches_at(k, value, hash) by {
                if self.matches_at(k, value, hash) {
                    let e = (hash, k as usize);
                    assert(table_entries(self.index).count(e) > 0);
                    assert(cands@.contains(e));
                    let m = choose|m: int| 0 <= m < cands@.len() && cands@[m] == e;
                    assert(!self.matches_at(cands@[m].1 as int, value, hash));
                }
            }
        }
        None
    }

    /// Looks `value` up without inserting it.
    pub fn try_resolve(&self, value: &T) -> (r: Option<usize>)
        where
            T: Hash,
        requires
            self.wf(),
            T::obeys_eq_spec(),
        ensures
            r matches Some(k) ==> exists|h: u64| self.matches_at(k as int, value, h),
            r is None ==> exists|h: u64| #[trigger] self.misses(value, h),
    {
        let hash = fx_hash(value);
        let r = self.try_resolve_with(value, hash);
        assert(r matches Some(k) ==> self.matches_at(k as int, value, hash));
        assert(r is None ==> self.misses(value, hash));
        r
    }
    /// Places `value` in the arena and files it in the index under `hash`,
    /// without looking for an equal value first. Returns its slot.
    pub fn insert(&mut self, hash: u64, value: T) -> (r: usize)
        requires
            old(self).wf(),
        ensures
            final(self).wf(),
            r == old(self)@.len(),
            final(self)@ == old(self)@.push(value),
            final(self).filed() == old(self).filed().push(Some(hash)),
            final(self).spec_len() == old(self).spec_len() + 1,
            old(self).canonical() && old(self).misses(&value, hash) ==> final(self).canonical(),
    {
        let slot = self.arena.len();
        self.arena.push(value);
        table_insert(&mut self.index, hash, slot);
        proof {
            let old_filed = self.filed@;
            lemma_indexed_count_push(old_filed, Some(hash));
            self.filed@ = old_filed.push(Some(hash));
            assert forall|e: (u64, usize)|
                #![trigger table_entries(self.index).count(e)]
                table_entries(self.index).count(e) == if e.1 < self.arena@.len() && self.filed@[e.1 as int]
                    == Some(e.0) {
                    1nat
                } else {
                    0nat
                } by {
                if e.1 < old_filed.len() {
                    assert(self.filed@[e.1 as int] == old_filed[e.1 as int]);
                }
            }
            if old(self).canonical() && old(self).misses(&value, hash) {
                assert forall|i: int, j: int|
                    0 <= i < j < self@.len() && (#[trigger] self.filed()[i]) is Some && self.filed()[i]
                        == #[trigger] self.filed()[j] implies !self@[i].eq_spec(&self@[j]) by {
                    if j == slot {
                        assert(!old(self).matches_at(i, &value, hash));
                    } else {
                        assert(old(self).filed()[i] == self.filed()[i]);
                        assert(old(self).filed()[j] == self.filed()[j]);
                    }
                }
            }
        }
        slot
    }

    /// Returns the slot of the value filed under `hash` that equals `value`,
    /// or files `value` under `hash` in a new slot when there is none.
    pub fn intern_with(&mut self, value: T, hash: u64) -> (r: usize)
        requires
            old(self).wf(),
            T::obeys_eq_spec(),
        ensures
            final(self).wf(),
            old(self).canonical() ==> final(self).canonical(),
            old(self).interned(final(self), &value, hash, r),
    {
        match self.try_resolve_with(&value, hash) {
            Some(slot) => slot,
            None => self.insert(hash, value),
        }
    }

    /// Returns the slot of the value equal to `value` that is filed under
    /// `value`'s hash, or files `value` in a new slot when there is none.
    pub fn intern(&mut self, value: T) -> (r: usize)
        where
            T: Hash,
        requires
            old(self).wf(),
            T::obeys_eq_spec(),
        ensures
            final(self).wf(),
            old(self).canonical() ==> final(self).canonical(),
            exists|h: u64| #[trigger] old(self).interned(final(self), &value, h, r),
    {
        let hash = fx_hash(&value);
        self.intern_with(value, hash)
    }

    /// Files `value` in a new slot without looking for an equal value first,
    /// so the index may then hold two equal values.
    pub fn intern_new(&mut self, value: T) -> (r: usize)
        where
            T: Hash,
        requires
            old(self).wf(),
        ensures
            final(self).wf(),
            r == old(self)@.len(),
            final(self)@ == old(self)@.push(value),
            exists|h: u64| #[trigger] final(self).filed() == old(self).filed().push(Some(h)),
    {
        let hash = fx_hash(&value);
        self.insert(hash, value)
    }
}

} // verus!
