//! The hash index: a `hashbrown::HashTable` of `(hash, slot)` pairs.
//!
//! Each entry carries the hash it was filed under, so the table can move
//! entries when it grows without hashing the stored values again.
use hashbrown::HashTable;
use vstd::multiset::Multiset;
use vstd::prelude::*;

verus! {

/// A `hashbrown::HashTable` of `(hash, slot)` entries, opaque to proofs and
/// described by `table_entries` alone.
#[verifier::external_body]
pub struct HashIndex {
    table: HashTable<(u64, usize)>,
}

/// What a hash index holds: each `(hash, slot)` entry with its multiplicity.
pub uninterp spec fn table_entries(t: HashIndex) -> Multiset<(u64, usize)>;

/// Relies on `hashbrown::HashTable::new`: the table starts empty.
#[verifier::external_body]
pub(crate) fn table_new() -> (r: HashIndex)
    ensures
        table_entries(r) =~= Multiset::empty(),
{
    HashIndex { table: HashTable::new() }
}

/// Relies on `hashbrown::HashTable::insert_unique`: the entry is added as it
/// is, and the rehash function hands back the hash each entry was filed under.
/// The table stops the program only when its capacity cannot be allocated,
/// like the arena's `Vec`.
#[verifier::external_body]
pub(crate) fn table_insert(t: &mut HashIndex, hash: u64, slot: usize)
    ensures
        table_entries(*final(t)) =~= table_entries(*old(t)).insert((hash, slot)),
{
    t.table.insert_unique(hash, (hash, slot), |e| e.0);
}

/// Relies on `hashbrown::HashTable::iter_hash`: it visits every entry filed
/// under `hash` (and perhaps others), and only entries of the table.
#[verifier::external_body]
pub(crate) fn table_candidates(t: &HashIndex, hash: u64) -> (r: Vec<(u64, usize)>)
    ensures
        forall|k: int| 0 <= k < r@.len() ==> table_entries(*t).count(#[trigger] r@[k]) > 0,
        forall|e: (u64, usize)|
            e.0 == hash && table_entries(*t).count(e) > 0 ==> #[trigger] r@.contains(e),
{
    t.table.iter_hash(hash).map(|e| *e).collect()
}

/// Relies on `hashbrown::HashTable::len`: the number of entries in the table.
#[verifier::external_body]
pub(crate) fn table_len(t: &HashIndex) -> (r: usize)
    ensures
        r == table_entries(*t).len(),
{
    t.table.len()
}

} // verus!
