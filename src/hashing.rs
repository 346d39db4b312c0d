//! The hash function that files values in the index.
use core::hash::BuildHasher;
use core::hash::Hash;
use rustc_hash::FxBuildHasher;
use vstd::prelude::*;

verus! {

/// Relies on `rustc_hash::FxBuildHasher::hash_one`: a 64-bit hash of the
/// value, computed through the value's own `Hash` impl. Nothing is stated of
/// the result, which that impl alone decides.
#[verifier::external_body]
pub(crate) fn fx_hash<T: Hash>(value: &T) -> (r: u64) {
    FxBuildHasher.hash_one(value)
}

} // verus!
