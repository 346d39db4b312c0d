//! A thread-safe interner: the single-owner interner behind a read-write
//! lock.
//!
//! `intern` looks under the shared lock first, since most values submitted
//! have been seen before; on a miss it takes the exclusive lock and looks
//! again before it inserts, as another thread may have inserted the value in
//! between.
use core::hash::Hash;
use vstd::prelude::*;
use vstd::rwlock::{RwLock, RwLockPredicate};
use vstd::std_specs::cmp::PartialEqSpec;

use crate::hashing::fx_hash;
use crate::unsync;

verus! {

/// What the lock keeps true of the store it guards: the store is well formed.
pub struct StoreFormed;

impl<T: PartialEq> RwLockPredicate<unsync::Interner<T>> for StoreFormed {
    open spec fn inv(self, v: unsync::Interner<T>) -> bool {
        v.wf()
    }
}

/// An interner that any number of threads may share.
pub struct Interner<T: PartialEq> {
    inner: RwLock<unsync::Interner<T>, StoreFormed>,
}

impl<T: PartialEq> Interner<T> {
    /// Creates an empty interner. Nothing is allocated until the first insert.
    pub fn new() -> (r: Self) {
        Interner { inner: RwLock::new(unsync::Interner::new(), Ghost(StoreFormed)) }
    }

    /// The number of values filed in the index.
    pub fn len(&self) -> (r: usize) {
        let read = self.inner.acquire_read();
        let n = read.borrow().len();
        read.release_read();
        n
    }

    /// Whether no value is filed in the index.
    pub fn is_empty(&self) -> (r: bool) {
        self.len() == 0
    }

    /// Looks `value` up without inserting it; takes the shared lock only.
    pub fn try_resolve(&self, value: &T) -> (r: Option<usize>)
        where
            T: Hash,
        requires
            T::obeys_eq_spec(),
    {
        let read = self.inner.acquire_read();
        let found = read.borrow().try_resolve(value);
        read.release_read();
        found
    }

    /// Returns the slot of the value equal to `value`, inserting `value` when
    /// there is none.
    pub fn intern(&self, value: T) -> (r: usize)
        where
            T: Hash,
        requires
            T::obeys_eq_spec(),
    {
        let hash = fx_hash(&value);
        let read = self.inner.acquire_read();
        let found = read.borrow().try_resolve_with(&value, hash);
        read.release_read();
        if let Some(slot) = found {
            return slot;
        }
        let (mut store, write) = self.inner.acquire_write();
        let slot = store.intern_with(value, hash);
        write.release_write(store);
        slot
    }

    /// Inserts `value` in a new slot without looking for an equal value first.
    pub fn intern_new(&self, value: T) -> (r: usize)
        where
            T: Hash,
    {
        let (mut store, write) = self.inner.acquire_write();
        let slot = store.intern_new(value);
        write.release_write(store);
        slot
    }

    /// Ends sharing and hands back the store, well formed.
    pub fn into_inner(self) -> (r: unsync::Interner<T>)
        ensures
            r.wf(),
    {
        self.inner.into_inner()
    }
}

} // verus!
