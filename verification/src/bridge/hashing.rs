//! Hashing with the `ahash` crate.

use ahash::AHasher;
use std::hash::{BuildHasher, BuildHasherDefault, Hasher};
use vstd::prelude::*;

verus! {

/// The `AHasher` digest of a byte string, built from `BuildHasherDefault<AHasher>`
/// and fed with one `write`.
///
/// Nothing is stated of the value: with its default features `ahash` draws the
/// keys of its "fixed" hashers at random once per process (`get_fixed_seeds`,
/// `runtime-rng`), so equal inputs give equal digests only within one process.
#[verifier::external_body]
pub(crate) fn ahash_bytes(bytes: &[u8]) -> u64 {
    let mut hasher = BuildHasherDefault::<AHasher>::default().build_hasher();
    hasher.write(bytes);
    hasher.finish()
}

} // verus!
