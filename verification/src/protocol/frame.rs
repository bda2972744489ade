//! Length-prefixed framing: a big-endian `u32` length, then that many bytes.

use bytes::BytesMut;
use rkyv::AlignedVec;
use vstd::prelude::*;
use vstd::slice::slice_subrange;

use crate::bridge::aligned::{aligned_extend, aligned_vec_view, aligned_with_capacity};
use crate::bridge::buffer::{buf_advance, buf_as_slice, buf_len, bytes_mut_view};
use crate::client::inner::RexClientInner;

verus! {

/// The big-endian `u32` at `at..at + 4`.
pub open spec fn be_u32_at(b: Seq<u8>, at: int) -> int {
    b[at] * 16777216 + b[at + 1] * 65536 + b[at + 2] * 256 + b[at + 3]
}

/// Reads the big-endian `u32` at `at..at + 4` (what `u32::from_be_bytes` computes).
pub fn read_be_u32(b: &[u8], at: usize) -> (r: u32)
    requires
        at + 4 <= b@.len(),
    ensures
        r == be_u32_at(b@, at as int),
{
    let v: u32 = b[at] as u32 * 16777216 + b[at + 1] as u32 * 65536 + b[at + 2] as u32 * 256
        + b[at + 3] as u32;
    v
}

/// Why a frame is refused.
#[derive(Debug, Clone, Copy, PartialEq, Eq, Structural)]
pub enum FrameError {
    /// The announced length is zero or larger than the framer accepts.
    InvalidFrameSize(usize),
}

/// A frame received from a client.
pub struct RexFrame {
    pub peer: std::sync::Arc<RexClientInner>,
    pub payload: AlignedVec,
}

/// Splits a byte stream into frames of at most `max_frame_size` bytes.
pub struct RexFramer {
    max_frame_size: usize,
}

/// What the framer does with the front of a buffer.
pub enum FrameStep {
    /// Fewer bytes than the frame needs; nothing is consumed.
    NeedMore,
    /// The announced length is refused; nothing is consumed.
    Invalid(usize),
    /// A frame of `len` bytes; header and payload are consumed.
    Frame(nat),
}

/// The framing decision for buffer `b` and size limit `max`.
pub open spec fn frame_step(b: Seq<u8>, max: nat) -> FrameStep {
    if b.len() < 4 {
        FrameStep::NeedMore
    } else {
        let len = be_u32_at(b, 0);
        if len == 0 || len > max {
            FrameStep::Invalid(len as usize)
        } else if b.len() < 4 + len {
            FrameStep::NeedMore
        } else {
            FrameStep::Frame(len as nat)
        }
    }
}

impl RexFramer {
    pub fn new(max_frame_size: usize) -> (r: Self)
        requires
            max_frame_size <= isize::MAX - 15,
        ensures
            r.max_frame_size() == max_frame_size,
    {
        RexFramer { max_frame_size }
    }

    pub closed spec fn max_frame_size(&self) -> nat {
        self.max_frame_size as nat
    }

    #[verifier::type_invariant]
    spec fn inv(&self) -> bool {
        self.max_frame_size <= isize::MAX - 15
    }

    /// Takes the next frame from the front of `buffer`: its payload, copied into
    /// an aligned vector.
    pub fn try_next_frame(&mut self, buffer: &mut BytesMut) -> (r: Result<Option<AlignedVec>, FrameError>)
        ensures
            *final(self) == *old(self),
            match frame_step(bytes_mut_view(*old(buffer)), old(self).max_frame_size()) {
                FrameStep::NeedMore => r matches Ok(None)
                    && bytes_mut_view(*final(buffer)) == bytes_mut_view(*old(buffer)),
                FrameStep::Invalid(n) => r == Err::<Option<AlignedVec>, FrameError>(
                    FrameError::InvalidFrameSize(n),
                ) && bytes_mut_view(*final(buffer)) == bytes_mut_view(*old(buffer)),
                FrameStep::Frame(n) => r matches Ok(Some(v))
                    && aligned_vec_view(v) == bytes_mut_view(*old(buffer)).subrange(4, 4 + n as int)
                    && bytes_mut_view(*final(buffer)) == bytes_mut_view(*old(buffer)).skip(
                    4 + n as int,
                ),
            },
    {
        proof {
            use_type_invariant(&*self);
        }
        let total = buf_len(buffer);
        if total < 4 {
            return Ok(None);
        }
        let len = read_be_u32(buf_as_slice(buffer), 0) as usize;
        if len == 0 || len > self.max_frame_size {
            return Err(FrameError::InvalidFrameSize(len));
        }
        if total - 4 < len {
            return Ok(None);
        }
        buf_advance(buffer, 4);
        let mut aligned = aligned_with_capacity(len);
        aligned_extend(&mut aligned, slice_subrange(buf_as_slice(buffer), 0, len));
        buf_advance(buffer, len);
        proof {
            assert(bytes_mut_view(*buffer) =~= bytes_mut_view(*old(buffer)).skip(4 + len));
        }
        Ok(Some(aligned))
    }
}

} // verus!
