//! Aligned byte vectors of the `rkyv` crate.

use rkyv::AlignedVec;
use vstd::prelude::*;

verus! {

/// `rkyv::AlignedVec`, a byte vector aligned for zero-copy deserialization.
#[verifier::external_type_specification]
#[verifier::external_body]
pub struct ExAlignedVec(AlignedVec);

/// The bytes that an `AlignedVec` holds, in order.
pub uninterp spec fn aligned_vec_view(v: AlignedVec) -> Seq<u8>;

/// `AlignedVec::with_capacity`: an empty vector; it asserts that the capacity
/// is at most `isize::MAX - 15`.
#[verifier::external_body]
pub(crate) fn aligned_with_capacity(capacity: usize) -> (r: AlignedVec)
    requires
        capacity <= isize::MAX - 15,
    ensures
        aligned_vec_view(r) == Seq::<u8>::empty(),
{
    AlignedVec::with_capacity(capacity)
}

/// `AlignedVec::extend_from_slice`: appends the slice; it grows the vector,
/// which panics past the maximum capacity.
#[verifier::external_body]
pub(crate) fn aligned_extend(v: &mut AlignedVec, s: &[u8])
    requires
        aligned_vec_view(*old(v)).len() + s@.len() <= isize::MAX - 15,
    ensures
        aligned_vec_view(*final(v)) == aligned_vec_view(*old(v)) + s@,
{
    v.extend_from_slice(s)
}

} // verus!
