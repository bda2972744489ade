//! Byte buffers of the `bytes` crate.

use bytes::{Buf, Bytes, BytesMut};
use vstd::prelude::*;

verus! {

/// `bytes::BytesMut`, a growable byte buffer.
#[verifier::external_type_specification]
#[verifier::external_body]
pub struct ExBytesMut(BytesMut);

/// `bytes::Bytes`, an immutable shared byte buffer.
#[verifier::external_type_specification]
#[verifier::external_body]
pub struct ExBytes(Bytes);

/// The bytes that a `BytesMut` holds, in order.
pub uninterp spec fn bytes_mut_view(b: BytesMut) -> Seq<u8>;

/// The bytes that a `Bytes` holds, in order.
pub uninterp spec fn bytes_view(b: Bytes) -> Seq<u8>;

/// `BytesMut::new`: an empty buffer.
#[verifier::external_body]
pub(crate) fn buf_new() -> (r: BytesMut)
    ensures
        bytes_mut_view(r) == Seq::<u8>::empty(),
{
    BytesMut::new()
}

/// `BytesMut::len`: the number of bytes held.
#[verifier::external_body]
pub(crate) fn buf_len(b: &BytesMut) -> (r: usize)
    ensures
        r == bytes_mut_view(*b).len(),
{
    b.len()
}

/// `<BytesMut as Deref>::deref`: the held bytes as a slice.
#[verifier::external_body]
pub(crate) fn buf_as_slice(b: &BytesMut) -> (r: &[u8])
    ensures
        r@ == bytes_mut_view(*b),
{
    &b[..]
}

/// `BytesMut::extend_from_slice`: appends the slice. It grows the buffer, which
/// panics when the new length exceeds what an allocation can hold.
#[verifier::external_body]
pub(crate) fn buf_extend(b: &mut BytesMut, s: &[u8])
    requires
        bytes_mut_view(*old(b)).len() + s@.len() <= isize::MAX,
    ensures
        bytes_mut_view(*final(b)) == bytes_mut_view(*old(b)) + s@,
{
    b.extend_from_slice(s)
}

/// `<BytesMut as Buf>::advance`: drops the first `n` bytes; panics past the end.
#[verifier::external_body]
pub(crate) fn buf_advance(b: &mut BytesMut, n: usize)
    requires
        n <= bytes_mut_view(*old(b)).len(),
    ensures
        bytes_mut_view(*final(b)) == bytes_mut_view(*old(b)).skip(n as int),
{
    b.advance(n)
}

/// `BytesMut::split_to`: removes and returns the first `n` bytes; panics past the end.
#[verifier::external_body]
pub(crate) fn buf_split_to(b: &mut BytesMut, n: usize) -> (r: BytesMut)
    requires
        n <= bytes_mut_view(*old(b)).len(),
    ensures
        bytes_mut_view(r) == bytes_mut_view(*old(b)).take(n as int),
        bytes_mut_view(*final(b)) == bytes_mut_view(*old(b)).skip(n as int),
{
    b.split_to(n)
}

/// `BytesMut::truncate`: keeps the first `n` bytes; no effect when `n` is at least the length.
#[verifier::external_body]
pub(crate) fn buf_truncate(b: &mut BytesMut, n: usize)
    ensures
        n < bytes_mut_view(*old(b)).len() ==> bytes_mut_view(*final(b)) == bytes_mut_view(
            *old(b),
        ).take(n as int),
        n >= bytes_mut_view(*old(b)).len() ==> bytes_mut_view(*final(b)) == bytes_mut_view(
            *old(b),
        ),
{
    b.truncate(n)
}

/// `BytesMut::clear`: removes every byte.
#[verifier::external_body]
pub(crate) fn buf_clear(b: &mut BytesMut)
    ensures
        bytes_mut_view(*final(b)) == Seq::<u8>::empty(),
{
    b.clear()
}

/// `<BytesMut as DerefMut>::deref_mut` then `copy_from_slice`: overwrites the
/// bytes at `at..at + s.len()`; the range must lie inside the buffer.
#[verifier::external_body]
pub(crate) fn buf_write_at(b: &mut BytesMut, at: usize, s: &[u8])
    requires
        at + s@.len() <= bytes_mut_view(*old(b)).len(),
    ensures
        bytes_mut_view(*final(b)) == bytes_mut_view(*old(b)).take(at as int) + s@
            + bytes_mut_view(*old(b)).skip(at + s@.len()),
{
    b[at..at + s.len()].copy_from_slice(s)
}

/// `<BytesMut as DerefMut>::deref_mut` on `at..`: the bytes from `at` on, to
/// be written in place. A slice keeps its length; the buffer ends up with its
/// first `at` bytes, then what the slice holds when the borrow ends.
#[verifier::external_body]
pub(crate) fn buf_tail_mut(b: &mut BytesMut, at: usize) -> (r: &mut [u8])
    requires
        at <= bytes_mut_view(*old(b)).len(),
    ensures
        r@ == bytes_mut_view(*old(b)).skip(at as int),
        final(r)@.len() == r@.len(),
        bytes_mut_view(*final(b)) == bytes_mut_view(*old(b)).take(at as int) + final(r)@,
{
    &mut b[at..]
}

/// `BytesMut::freeze`: the same bytes as an immutable buffer.
#[verifier::external_body]
pub(crate) fn buf_freeze(b: BytesMut) -> (r: Bytes)
    ensures
        bytes_view(r) == bytes_mut_view(b),
{
    b.freeze()
}

/// `<Bytes as Clone>::clone`: another handle on the same bytes.
pub assume_specification[ <Bytes as Clone>::clone ](b: &Bytes) -> (r: Bytes)
    ensures
        bytes_view(r) == bytes_view(*b),
;

} // verus!
