//! Framing of the messages that nodes exchange over TCP: a big-endian `u32`
//! length, then the encoded message. A frame that announces more than 16 MiB
//! is skipped: its header is dropped and reading goes on after it.

use bytes::{Bytes, BytesMut};
use vstd::prelude::*;

use crate::bridge::buffer::{
    buf_advance, buf_as_slice, buf_extend, buf_freeze, buf_len, buf_new, buf_split_to, bytes_mut_view,
    bytes_view,
};
use crate::cluster::types::{ClusterMessage, NodeId};
use crate::protocol::frame::{be_u32_at, read_be_u32};

verus! {

/// The largest message a frame may carry: 16 MiB.
pub const MAX_MESSAGE_SIZE: usize = 16777216;

/// The size of the length header.
pub const HEADER_SIZE: usize = 4;

/// The complete frames at the front of a stream, and what is left of it.
pub open spec fn cluster_frames(s: Seq<u8>) -> (Seq<Seq<u8>>, Seq<u8>)
    decreases s.len(),
{
    if s.len() < 4 {
        (Seq::empty(), s)
    } else {
        let len = be_u32_at(s, 0);
        if len > 16777216 {
            cluster_frames(s.skip(4))
        } else if s.len() < 4 + len {
            (Seq::empty(), s)
        } else {
            let rest = cluster_frames(s.skip(4 + len));
            (seq![s.subrange(4, 4 + len)] + rest.0, rest.1)
        }
    }
}

/// A `u32` in big-endian order.
pub open spec fn be_bytes(n: u32) -> Seq<u8> {
    seq![(n / 16777216) as u8, (n / 65536 % 256) as u8, (n / 256 % 256) as u8, (n % 256) as u8]
}

/// The views of buffers.
pub open spec fn buffers_view(v: Seq<BytesMut>) -> Seq<Seq<u8>> {
    v.map_values(|b: BytesMut| bytes_mut_view(b))
}

/// Takes every complete frame from the front of a buffer, in order, and
/// leaves the incomplete rest.
pub fn drain_cluster_frames(buffer: &mut BytesMut) -> (r: Vec<BytesMut>)
    ensures
        buffers_view(r@) == cluster_frames(bytes_mut_view(*old(buffer))).0,
        bytes_mut_view(*final(buffer)) == cluster_frames(bytes_mut_view(*old(buffer))).1,
{
    let ghost s0 = bytes_mut_view(*buffer);
    let mut frames: Vec<BytesMut> = Vec::new();
    loop
        invariant
            cluster_frames(s0).0 == buffers_view(frames@) + cluster_frames(bytes_mut_view(*buffer)).0,
            cluster_frames(s0).1 == cluster_frames(bytes_mut_view(*buffer)).1,
        ensures
            cluster_frames(s0).0 == buffers_view(frames@),
            cluster_frames(s0).1 == bytes_mut_view(*buffer),
        decreases bytes_mut_view(*buffer).len(),
    {
        let ghost s = bytes_mut_view(*buffer);
        let total = buf_len(buffer);
        if total < 4 {
            assert(buffers_view(frames@) + Seq::<Seq<u8>>::empty() =~= buffers_view(frames@));
            break;
        }
        let len = read_be_u32(buf_as_slice(buffer), 0) as usize;
        if len > MAX_MESSAGE_SIZE {
            buf_advance(buffer, 4);
            continue;
        }
        if total - 4 < len {
            assert(buffers_view(frames@) + Seq::<Seq<u8>>::empty() =~= buffers_view(frames@));
            break;
        }
        buf_advance(buffer, 4);
        let data = buf_split_to(buffer, len);
        let ghost before = frames@;
        frames.push(data);
        proof {
            assert(s.skip(4).take(len as int) =~= s.subrange(4, 4 + len));
            assert(s.skip(4).skip(len as int) =~= s.skip(4 + len));
            assert(buffers_view(frames@) =~= buffers_view(before).push(s.subrange(4, 4 + len)));
            let rest = cluster_frames(s.skip(4 + len));
            assert(buffers_view(before) + (seq![s.subrange(4, 4 + len)] + rest.0) =~= buffers_view(
                frames@,
            ) + rest.0);
        }
    }
    frames
}

/// Frames a message: its length in big-endian order, then its bytes.
pub fn encode_cluster_frame(data: &[u8]) -> (r: Bytes)
    requires
        data@.len() <= u32::MAX,
        data@.len() + 4 <= isize::MAX,
    ensures
        bytes_view(r) == be_bytes(data@.len() as u32) + data@,
{
    let n = data.len() as u32;
    let header: [u8; 4] = [(n / 16777216) as u8, (n / 65536 % 256) as u8, (n / 256 % 256) as u8, (n % 256) as u8];
    let mut frame = buf_new();
    buf_extend(&mut frame, &header);
    buf_extend(&mut frame, data);
    assert(header@ =~= be_bytes(n));
    buf_freeze(frame)
}

/// The big-endian bytes of a `u32` read back as that `u32`.
proof fn lemma_be_bytes_read(n: u32, t: Seq<u8>)
    ensures
        be_u32_at(be_bytes(n) + t, 0) == n,
{
    let s = be_bytes(n) + t;
    assert(s[0] == (n / 16777216) as u8);
    assert(s[1] == (n / 65536 % 256) as u8);
    assert(s[2] == (n / 256 % 256) as u8);
    assert(s[3] == (n % 256) as u8);
    assert((n / 16777216) * 16777216 + (n / 65536 % 256) * 65536 + (n / 256 % 256) * 256 + n % 256
        == n) by (nonlinear_arith);
}

/// Reading a framed message, followed by any bytes, yields that message
/// first, then whatever the following bytes yield.
pub proof fn lemma_frame_roundtrip(data: Seq<u8>, t: Seq<u8>)
    requires
        data.len() <= 16777216,
    ensures
        cluster_frames(be_bytes(data.len() as u32) + data + t) == (
            seq![data] + cluster_frames(t).0,
            cluster_frames(t).1,
        ),
{
    let n = data.len() as u32;
    let s = be_bytes(n) + data + t;
    assert(s =~= be_bytes(n) + (data + t));
    lemma_be_bytes_read(n, data + t);
    assert(s.subrange(4, 4 + data.len() as int) =~= data);
    assert(s.skip(4 + data.len() as int) =~= t);
}

/// What an incoming connection knows of its peer after a message: the peer
/// id it records (a join records the joining node, once) and the node the
/// message comes from (the join's node, else the recorded peer, else
/// `unknown`).
pub fn incoming_source(recorded: &Option<String>, message: &ClusterMessage) -> (r: (Option<String>, NodeId))
    ensures
        match message {
            ClusterMessage::Join(info) => {
                &&& (recorded matches Some(p) ==> (r.0 matches Some(q) && q@ == p@))
                &&& (recorded is None ==> (r.0 matches Some(q) && q@ == info.node_id@))
                &&& r.1@ == info.node_id@
            },
            _ => {
                &&& (recorded matches Some(p) ==> (r.0 matches Some(q) && q@ == p@ && r.1@ == p@))
                &&& (recorded is None ==> r.0 is None && r.1@ == "unknown"@)
            },
        },
{
    match message {
        ClusterMessage::Join(info) => {
            let rec = match recorded {
                Some(p) => Some(p.clone()),
                None => Some(info.node_id.to_string()),
            };
            proof {
                reveal_strlit("unknown");
            }
            (rec, NodeId::new(info.node_id.as_str()))
        },
        _ => match recorded {
            Some(p) => (Some(p.clone()), NodeId::new(p.as_str())),
            None => (None, NodeId::new("unknown")),
        },
    }
}

} // verus!
