//! Random numbers and random identifiers.

use vstd::prelude::*;

verus! {

/// `rand::random::<u128>()`: a number from the thread-local generator.
/// Nothing is stated of it: it is chance.
#[verifier::external_body]
pub(crate) fn random_u128() -> u128 {
    rand::random::<u128>()
}

/// `fastrand::u64(..)`: a number from the thread-local generator, over the
/// whole range. Nothing is stated of it: it is chance.
#[verifier::external_body]
pub(crate) fn random_u64() -> u64 {
    fastrand::u64(..)
}

/// `uuid::Uuid::new_v4().as_u128()`: a random version-4 UUID. Its version
/// nibble is 4 and its variant bits are `10`; the other bits are chance.
#[verifier::external_body]
pub fn new_uuid() -> (r: u128)
    ensures
        r & 0xF000C000000000000000u128 == 0x40008000000000000000u128,
{
    uuid::Uuid::new_v4().as_u128()
}

} // verus!
