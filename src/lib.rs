//! Value interning: each distinct value is stored once and named by a stable
//! handle, the slot of its canonical copy in an append-only arena.
//!
//! `unsync::Interner` is the store itself, for a single owner. `sync::Interner`
//! shares it between threads behind a read-write lock and allows unchecked
//! inserts. `Interner` shares it too, and keeps it canonical: each class of
//! equal values is filed at most once under a given hash.
use core::hash::Hash;
use vstd::prelude::*;
use vstd::rwlock::{RwLock, RwLockPredicate};
use vstd::std_specs::cmp::PartialEqSpec;

mod hashing;
pub mod laws;
pub mod sync;
mod table;
pub mod unsync;

use crate::hashing::fx_hash;

verus! {

/// Every slot of `s` is filed in the index.
pub open spec fn all_filed<T: PartialEq>(s: unsync::Interner<T>) -> bool {
    forall|k: int| 0 <= k < s@.len() ==> (#[trigger] s.filed()[k]) is Some
}

/// What the lock keeps true of the store it guards: the store is well formed,
/// canonical, and files every value it holds.
pub struct Canonical;

impl<T: PartialEq> RwLockPredicate<unsync::Interner<T>> for Canonical {
    open spec fn inv(self, v: unsync::Interner<T>) -> bool {
        &&& v.wf()
        &&& v.canonical()
        &&& all_filed(v)
    }
}

/// An interner that any number of threads may share. A miss and the insert
/// that follows it happen under one exclusive lock, so no other thread can
/// insert an equal value in between.
pub struct Interner<T: PartialEq> {
    inner: RwLock<unsync::Interner<T>, Canonical>,
}

impl<T: PartialEq> Interner<T> {
    /// Creates an empty interner. Nothing is allocated until the first insert.
    pub fn new() -> (r: Self) {
        Interner { inner: RwLock::new(unsync::Interner::new(), Ghost(Canonical)) }
    }

    /// The number of values interned.
    pub fn len(&self) -> (r: usize) {
        let read = self.inner.acquire_read();
        let n = read.borrow().len();
        read.release_read();
        n
    }

    /// Looks `value` up without inserting it; takes the shared lock only.
    pub fn try_resolve(&self, value: &T) -> (r: Option<usize>)
        where
            T: Hash,
        requires
            T::obeys_eq_spec(),
    {
        let read = self.inner.acquire_read();
        let found = read.borrow().try_resolve(value);
        read.release_read();
        found
    }

    /// Returns the slot of the value equal to `value`, inserting `value` when
    /// there is none.
    pub fn intern(&self, value: T) -> (r: usize)
        where
            T: Hash,
        requires
            T::obeys_eq_spec(),
    {
        let hash = fx_hash(&value);
        let (mut store, write) = self.inner.acquire_write();
        let ghost before = store;
        let slot = store.intern_with(value, hash);
        proof {
            before.lemma_filed_len();
            assert forall|k: int| 0 <= k < store@.len() implies (#[trigger] store.filed()[k]) is Some by {
                if k < before@.len() {
                    assert(store.filed()[k] == before.filed()[k]);
                }
            }
        }
        write.release_write(store);
        slot
    }

    /// Ends sharing and hands back the store: well formed, canonical, and
    /// filing every value it holds.
    pub fn into_inner(self) -> (r: unsync::Interner<T>)
        ensures
            r.wf(),
            r.canonical(),
            all_filed(r),
    {
        self.inner.into_inner()
    }
}

} // verus!
