//! The packed packet format used between clients and the broker.
//!
//! `total_len:4 command:4 retcode:4 message_id:8 source:16 | title_len:1 | title | data`
//!
//! The 36-byte head is stored little-endian; `total_len` counts the whole packet.

use bytes::{Bytes, BytesMut};
use vstd::bytes::{
    lemma_auto_spec_u128_to_from_le_bytes, lemma_auto_spec_u32_to_from_le_bytes,
    lemma_auto_spec_u64_to_from_le_bytes, spec_u128_from_le_bytes, spec_u128_to_le_bytes,
    spec_u32_from_le_bytes, spec_u32_to_le_bytes, spec_u64_from_le_bytes, spec_u64_to_le_bytes,
    u128_from_le_bytes, u128_to_le_bytes, u32_from_le_bytes, u32_to_le_bytes, u64_from_le_bytes,
    u64_to_le_bytes,
};
use vstd::prelude::*;
use vstd::slice::slice_subrange;
use vstd::utf8::{decode_utf8, encode_utf8, valid_utf8};

use super::types::{
    command_code, command_of_code, retcode_code, retcode_of_code, RetCode, RexCommand,
};
use crate::bridge::buffer::{
    buf_as_slice, buf_extend, buf_freeze, buf_len, buf_new, buf_split_to, buf_tail_mut, buf_truncate,
    buf_write_at, bytes_mut_view, bytes_view,
};
use crate::bridge::text::{str_from_utf8, string_from_utf8_lossy, utf8_lossy};
use crate::protocol::error::RexError;

verus! {

broadcast use vstd::seq_lib::group_seq_properties;

pub const REX_LEN_SIZE: usize = 4;

/// 4 + 4 + 4 + 8 + 16 bytes.
pub const REX_HEAD_LEN: usize = 36;

pub const TITLE_LEN_SIZE: usize = 1;

pub const TITLE_LEN_OFFSET: usize = 36;

pub const TITLE_OFFSET: usize = 37;

/// The fixed head of a packet.
pub struct RexHead {
    pub total_len: u32,
    pub command: u32,
    pub retcode: u32,
    pub message_id: u64,
    pub source: u128,
}

/// The 36 bytes that encode a head.
pub open spec fn head_bytes(h: RexHead) -> Seq<u8> {
    spec_u32_to_le_bytes(h.total_len) + spec_u32_to_le_bytes(h.command) + spec_u32_to_le_bytes(
        h.retcode,
    ) + spec_u64_to_le_bytes(h.message_id) + spec_u128_to_le_bytes(h.source)
}

/// The head that the first 36 bytes of a packet encode.
pub open spec fn head_of(c: Seq<u8>) -> RexHead {
    RexHead {
        total_len: spec_u32_from_le_bytes(c.subrange(0, 4)),
        command: spec_u32_from_le_bytes(c.subrange(4, 8)),
        retcode: spec_u32_from_le_bytes(c.subrange(8, 12)),
        message_id: spec_u64_from_le_bytes(c.subrange(12, 20)),
        source: spec_u128_from_le_bytes(c.subrange(20, 36)),
    }
}

/// A packet holds its head and title-length byte, and the title that the
/// length byte announces.
pub open spec fn packet_well_formed(c: Seq<u8>) -> bool {
    c.len() >= TITLE_OFFSET && TITLE_OFFSET + c[36] <= c.len()
}

/// The title bytes of a packet.
pub open spec fn packet_title_bytes(c: Seq<u8>) -> Seq<u8> {
    c.subrange(37, 37 + c[36])
}

/// The payload of a packet: everything after the title.
pub open spec fn packet_data(c: Seq<u8>) -> Seq<u8> {
    c.subrange(37 + c[36], c.len() as int)
}

/// The text of a title: its characters when well-formed UTF-8, empty otherwise.
pub open spec fn title_text(tb: Seq<u8>) -> Seq<char> {
    if valid_utf8(tb) {
        decode_utf8(tb)
    } else {
        Seq::<char>::empty()
    }
}

/// The packet that `RexData::new` builds.
pub open spec fn packet_bytes(command: RexCommand, title: Seq<char>, data: Seq<u8>) -> Seq<u8> {
    let tb = encode_utf8(title);
    let h = RexHead {
        total_len: (37 + tb.len() + data.len()) as u32,
        command: command_code(command),
        retcode: 0,
        message_id: 0,
        source: 0,
    };
    head_bytes(h) + seq![tb.len() as u8] + tb + data
}

/// The encoding of a head is 36 bytes long and decodes to the head, whatever follows it.
pub proof fn lemma_head_roundtrip(h: RexHead, rest: Seq<u8>)
    ensures
        head_bytes(h).len() == REX_HEAD_LEN,
        head_of(head_bytes(h) + rest) == h,
        (head_bytes(h) + rest).skip(36) == rest,
{
    lemma_auto_spec_u32_to_from_le_bytes();
    lemma_auto_spec_u64_to_from_le_bytes();
    lemma_auto_spec_u128_to_from_le_bytes();
    let b = head_bytes(h) + rest;
    assert(b.subrange(0, 4) =~= spec_u32_to_le_bytes(h.total_len));
    assert(b.subrange(4, 8) =~= spec_u32_to_le_bytes(h.command));
    assert(b.subrange(8, 12) =~= spec_u32_to_le_bytes(h.retcode));
    assert(b.subrange(12, 20) =~= spec_u64_to_le_bytes(h.message_id));
    assert(b.subrange(20, 36) =~= spec_u128_to_le_bytes(h.source));
    assert(b.skip(36) =~= rest);
}

/// A packet, held in a byte buffer.
pub struct RexData {
    pub content: BytesMut,
}

impl RexData {
    /// The bytes of the packet.
    pub open spec fn bytes(&self) -> Seq<u8> {
        bytes_mut_view(self.content)
    }

    pub open spec fn well_formed(&self) -> bool {
        packet_well_formed(self.bytes())
    }

    /// Borrows the buffer that holds the packet.
    pub fn pack_ref(&self) -> (r: &BytesMut)
        ensures
            bytes_mut_view(*r) == self.bytes(),
    {
        &self.content
    }

    /// The packet's bytes, as an immutable buffer.
    pub fn pack(self) -> (r: Bytes)
        ensures
            bytes_view(r) == self.bytes(),
    {
        buf_freeze(self.content)
    }

    /// Wraps a buffer that holds a packet.
    pub fn unpack(buf: BytesMut) -> (r: Self)
        requires
            packet_well_formed(bytes_mut_view(buf)),
        ensures
            r.bytes() == bytes_mut_view(buf),
            r.well_formed(),
    {
        RexData { content: buf }
    }

    /// Takes the packet at the front of `buf` when `buf` holds all of it.
    ///
    /// The first four bytes announce the packet's length. While fewer bytes
    /// are there, nothing is taken. Otherwise the announced bytes are split
    /// off as they are: whether they form a well-formed packet (a head, a
    /// title-length byte and the title it announces) is for the reader to
    /// check before reading the packet. It never fails.
    pub fn try_deserialize(buf: &mut BytesMut) -> (r: Result<Option<Self>, RexError>)
        ensures
            ({
                let b = bytes_mut_view(*old(buf));
                let total = spec_u32_from_le_bytes(b.subrange(0, 4)) as int;
                if b.len() < REX_LEN_SIZE || b.len() < total {
                    r matches Ok(None) && bytes_mut_view(*final(buf)) == b
                } else {
                    r matches Ok(Some(p)) && p.bytes() == b.take(total) && bytes_mut_view(
                        *final(buf),
                    ) == b.skip(total)
                }
            }),
    {
        let len = buf_len(buf);
        if len < REX_LEN_SIZE {
            return Ok(None);
        }
        let total_len = u32_from_le_bytes(slice_subrange(buf_as_slice(buf), 0, 4)) as usize;
        if len < total_len {
            return Ok(None);
        }
        let pack = buf_split_to(buf, total_len);
        Ok(Some(RexData { content: pack }))
    }

    /// Whether the packet is well formed: it holds its head and title-length
    /// byte, and the title that the length byte announces.
    pub fn is_well_formed(&self) -> (r: bool)
        ensures
            r == self.well_formed(),
    {
        let c = buf_as_slice(&self.content);
        c.len() >= TITLE_OFFSET && TITLE_OFFSET + (c[TITLE_LEN_OFFSET] as usize) <= c.len()
    }

    /// Builds a packet with return code `Success`, message id 0 and source 0.
    ///
    /// The title length is stored in one byte, so a title of more than 255
    /// UTF-8 bytes keeps only the low byte of its length.
    pub fn new(command: RexCommand, title: &str, data: &[u8]) -> (r: Self)
        requires
            encode_utf8(title@).len() + data@.len() + 64 <= isize::MAX,
        ensures
            r.bytes() == packet_bytes(command, title@, data@),
            r.well_formed(),
    {
        let title_bytes = title.as_bytes();
        let total_len = REX_HEAD_LEN + TITLE_LEN_SIZE + title_bytes.len() + data.len();
        let head = RexHead {
            total_len: total_len as u32,
            command: command.as_u32(),
            retcode: RetCode::Success.as_u32(),
            message_id: 0,
            source: 0,
        };
        proof {
            lemma_head_roundtrip(head, Seq::<u8>::empty());
        }
        let mut content = buf_new();
        write_head(&mut content, &head);
        let mut title_len_byte: Vec<u8> = Vec::new();
        title_len_byte.push(title_bytes.len() as u8);
        buf_extend(&mut content, title_len_byte.as_slice());
        buf_extend(&mut content, title_bytes);
        buf_extend(&mut content, data);
        proof {
            assert(bytes_mut_view(content) =~= packet_bytes(command, title@, data@));
        }
        RexData { content }
    }

    /// The command in the head; an unknown number reads as `Login`.
    pub fn command(&self) -> (c: RexCommand)
        requires
            self.well_formed(),
        ensures
            c == command_of_code(head_of(self.bytes()).command),
    {
        let c = buf_as_slice(&self.content);
        RexCommand::from_u32(u32_from_le_bytes(slice_subrange(c, 4, 8)))
    }

    /// The source client id in the head.
    pub fn source(&self) -> (s: u128)
        requires
            self.well_formed(),
        ensures
            s == head_of(self.bytes()).source,
    {
        let c = buf_as_slice(&self.content);
        u128_from_le_bytes(slice_subrange(c, 20, 36))
    }

    /// The return code in the head; an unknown number reads as `Error`.
    pub fn retcode(&self) -> (r: RetCode)
        requires
            self.well_formed(),
        ensures
            r == retcode_of_code(head_of(self.bytes()).retcode),
    {
        let c = buf_as_slice(&self.content);
        RetCode::from_u32(u32_from_le_bytes(slice_subrange(c, 8, 12)))
    }

    pub fn is_success(&self) -> (b: bool)
        requires
            self.well_formed(),
        ensures
            b <==> retcode_of_code(head_of(self.bytes()).retcode) == RetCode::Success,
    {
        self.retcode() == RetCode::Success
    }

    /// The message id in the head (0 when no acknowledgement is asked for).
    pub fn message_id(&self) -> (m: u64)
        requires
            self.well_formed(),
        ensures
            m == head_of(self.bytes()).message_id,
    {
        let c = buf_as_slice(&self.content);
        u64_from_le_bytes(slice_subrange(c, 12, 20))
    }

    /// The number of title bytes, from the title-length byte.
    pub fn title_len(&self) -> (n: usize)
        requires
            self.well_formed(),
        ensures
            n == self.bytes()[36],
    {
        buf_as_slice(&self.content)[TITLE_LEN_OFFSET] as usize
    }

    /// The title. Bytes that are not well-formed UTF-8 read as the empty title.
    pub fn title(&self) -> (t: &str)
        requires
            self.well_formed(),
        ensures
            t@ == title_text(packet_title_bytes(self.bytes())),
    {
        let c = buf_as_slice(&self.content);
        let len = c[TITLE_LEN_OFFSET] as usize;
        match str_from_utf8(slice_subrange(c, TITLE_OFFSET, TITLE_OFFSET + len)) {
            Some(t) => t,
            None => {
                proof {
                    reveal_strlit("");
                }
                ""
            },
        }
    }

    /// The payload: every byte after the title.
    pub fn data(&self) -> (d: &[u8])
        requires
            self.well_formed(),
        ensures
            d@ == packet_data(self.bytes()),
    {
        let c = buf_as_slice(&self.content);
        let offset = TITLE_OFFSET + c[TITLE_LEN_OFFSET] as usize;
        slice_subrange(c, offset, c.len())
    }

    /// The payload, to be written in place. The packet keeps its head, its
    /// title and its length.
    pub fn data_mut(&mut self) -> (d: &mut [u8])
        requires
            old(self).well_formed(),
        ensures
            d@ == packet_data(old(self).bytes()),
            final(d)@.len() == d@.len(),
            final(self).bytes() == old(self).bytes().take(37 + old(self).bytes()[36]) + final(d)@,
    {
        let offset = TITLE_OFFSET + buf_as_slice(&self.content)[TITLE_LEN_OFFSET] as usize;
        buf_tail_mut(&mut self.content, offset)
    }

    /// The payload as text, with each ill-formed part replaced by U+FFFD.
    pub fn data_as_string_lossy(&self) -> (s: String)
        requires
            self.well_formed(),
        ensures
            s@ == utf8_lossy(packet_data(self.bytes())),
    {
        string_from_utf8_lossy(self.data())
    }

    /// Sets the message id.
    pub fn set_message_id(&mut self, message_id: u64) -> (r: &mut Self)
        requires
            old(self).well_formed(),
        ensures
            r.bytes() == spliced(old(self).bytes(), 12, spec_u64_to_le_bytes(message_id)),
            r.well_formed(),
            head_of(r.bytes()).message_id == message_id,
            *final(self) == *final(r),
    {
        let bytes = u64_to_le_bytes(message_id);
        self.write_head_field(12, bytes.as_slice());
        proof {
            lemma_auto_spec_u64_to_from_le_bytes();
            assert(self.bytes().subrange(12, 20) =~= spec_u64_to_le_bytes(message_id));
        }
        self
    }

    /// Sets the command.
    pub fn set_command(&mut self, command: RexCommand) -> (r: &mut Self)
        requires
            old(self).well_formed(),
        ensures
            r.bytes() == spliced(old(self).bytes(), 4, spec_u32_to_le_bytes(command_code(command))),
            r.well_formed(),
            head_of(r.bytes()).command == command_code(command),
            *final(self) == *final(r),
    {
        let bytes = u32_to_le_bytes(command.as_u32());
        self.write_head_field(4, bytes.as_slice());
        proof {
            lemma_auto_spec_u32_to_from_le_bytes();
            assert(self.bytes().subrange(4, 8) =~= spec_u32_to_le_bytes(command_code(command)));
        }
        self
    }

    /// Sets the source client id.
    pub fn set_source(&mut self, source: u128) -> (r: &mut Self)
        requires
            old(self).well_formed(),
        ensures
            r.bytes() == spliced(old(self).bytes(), 20, spec_u128_to_le_bytes(source)),
            r.well_formed(),
            head_of(r.bytes()).source == source,
            *final(self) == *final(r),
    {
        let bytes = u128_to_le_bytes(source);
        self.write_head_field(20, bytes.as_slice());
        proof {
            lemma_auto_spec_u128_to_from_le_bytes();
            assert(self.bytes().subrange(20, 36) =~= spec_u128_to_le_bytes(source));
        }
        self
    }

    /// Sets the return code.
    pub fn set_retcode(&mut self, retcode: RetCode) -> (r: &mut Self)
        requires
            old(self).well_formed(),
        ensures
            r.bytes() == spliced(old(self).bytes(), 8, spec_u32_to_le_bytes(retcode_code(retcode))),
            r.well_formed(),
            head_of(r.bytes()).retcode == retcode_code(retcode),
            *final(self) == *final(r),
    {
        let bytes = u32_to_le_bytes(retcode.as_u32());
        self.write_head_field(8, bytes.as_slice());
        proof {
            lemma_auto_spec_u32_to_from_le_bytes();
            assert(self.bytes().subrange(8, 12) =~= spec_u32_to_le_bytes(retcode_code(retcode)));
        }
        self
    }

    /// Overwrites head bytes, leaving title and payload alone.
    fn write_head_field(&mut self, at: usize, bytes: &[u8])
        requires
            old(self).well_formed(),
            at + bytes@.len() <= REX_HEAD_LEN,
        ensures
            final(self).bytes() == spliced(old(self).bytes(), at as int, bytes@),
            final(self).well_formed(),
    {
        buf_write_at(&mut self.content, at, bytes);
        proof {
            assert(self.bytes() =~= spliced(old(self).bytes(), at as int, bytes@));
        }
    }

    /// Replaces the payload and updates `total_len` to the new length.
    pub fn set_data(&mut self, data: &[u8]) -> (r: &mut Self)
        requires
            old(self).well_formed(),
            old(self).bytes().len() + data@.len() <= isize::MAX,
        ensures
            r.well_formed(),
            r.bytes() == spliced(
                old(self).bytes().take(37 + old(self).bytes()[36]) + data@,
                0,
                spec_u32_to_le_bytes((37 + old(self).bytes()[36] + data@.len()) as u32),
            ),
            packet_title_bytes(r.bytes()) == packet_title_bytes(old(self).bytes()),
            packet_data(r.bytes()) == data@,
            *final(self) == *final(r),
    {
        let offset = TITLE_OFFSET + self.title_len();
        let len = offset + data.len();
        buf_truncate(&mut self.content, offset);
        buf_extend(&mut self.content, data);
        let total = u32_to_le_bytes(len as u32);
        proof {
            lemma_auto_spec_u32_to_from_le_bytes();
        }
        buf_write_at(&mut self.content, 0, total.as_slice());
        proof {
            let ob = old(self).bytes();
            assert(self.bytes() =~= spliced(
                ob.take(37 + ob[36]) + data@,
                0,
                spec_u32_to_le_bytes((37 + ob[36] + data@.len()) as u32),
            ));
            assert(packet_title_bytes(self.bytes()) =~= packet_title_bytes(ob));
            assert(packet_data(self.bytes()) =~= data@);
        }
        self
    }
}

/// `s` with the bytes at `at..at + part.len()` replaced by `part`.
pub open spec fn spliced(s: Seq<u8>, at: int, part: Seq<u8>) -> Seq<u8> {
    s.take(at) + part + s.skip(at + part.len())
}

/// Appends the 36-byte encoding of a head.
fn write_head(buf: &mut BytesMut, h: &RexHead)
    requires
        bytes_mut_view(*old(buf)).len() + REX_HEAD_LEN <= isize::MAX,
    ensures
        bytes_mut_view(*final(buf)) == bytes_mut_view(*old(buf)) + head_bytes(*h),
{
    proof {
        lemma_auto_spec_u32_to_from_le_bytes();
        lemma_auto_spec_u64_to_from_le_bytes();
        lemma_auto_spec_u128_to_from_le_bytes();
    }
    let mut bytes = u32_to_le_bytes(h.total_len);
    let mut part = u32_to_le_bytes(h.command);
    bytes.append(&mut part);
    let mut part = u32_to_le_bytes(h.retcode);
    bytes.append(&mut part);
    let mut part = u64_to_le_bytes(h.message_id);
    bytes.append(&mut part);
    let mut part = u128_to_le_bytes(h.source);
    bytes.append(&mut part);
    assert(bytes@ =~= head_bytes(*h));
    buf_extend(buf, bytes.as_slice());
}

/// A packet built by `RexData::new` is well formed and reads back the
/// command, title and payload it was built from, with return code `Success`,
/// message id 0 and source 0, when the title takes at most 255 UTF-8 bytes.
pub proof fn lemma_new_packet_reads_back(command: RexCommand, title: Seq<char>, data: Seq<u8>)
    requires
        encode_utf8(title).len() <= 255,
        37 + encode_utf8(title).len() + data.len() <= u32::MAX,
    ensures
        packet_well_formed(packet_bytes(command, title, data)),
        command_of_code(head_of(packet_bytes(command, title, data)).command) == command,
        retcode_of_code(head_of(packet_bytes(command, title, data)).retcode) == RetCode::Success,
        head_of(packet_bytes(command, title, data)).message_id == 0,
        head_of(packet_bytes(command, title, data)).source == 0,
        head_of(packet_bytes(command, title, data)).total_len == packet_bytes(
            command,
            title,
            data,
        ).len(),
        title_text(packet_title_bytes(packet_bytes(command, title, data))) == title,
        packet_data(packet_bytes(command, title, data)) == data,
{
    broadcast use vstd::utf8::encode_utf8_valid_utf8, vstd::utf8::encode_utf8_decode_utf8;

    let tb = encode_utf8(title);
    let h = RexHead {
        total_len: (37 + tb.len() + data.len()) as u32,
        command: command_code(command),
        retcode: 0,
        message_id: 0,
        source: 0,
    };
    let rest = seq![tb.len() as u8] + tb + data;
    let p = packet_bytes(command, title, data);
    assert(p =~= head_bytes(h) + rest);
    lemma_head_roundtrip(h, rest);
    assert(p[36] == tb.len());
    assert(packet_title_bytes(p) =~= tb);
    assert(packet_data(p) =~= data);
}

/// An acknowledgement: the id of the message that it acknowledges.
///
/// On the wire it is a packet with an empty title whose payload is the
/// message id as 8 little-endian bytes (45 bytes in all).
pub struct AckData {
    pub message_id: u64,
}

/// The packet that carries an acknowledgement.
pub open spec fn ack_packet_bytes(message_id: u64, source: u128, command: RexCommand) -> Seq<u8> {
    let h = RexHead {
        total_len: 45,
        command: command_code(command),
        retcode: 0,
        message_id: 0,
        source,
    };
    head_bytes(h) + seq![0u8] + spec_u64_to_le_bytes(message_id)
}

impl AckData {
    pub fn new(message_id: u64) -> (r: Self)
        ensures
            r.message_id == message_id,
    {
        AckData { message_id }
    }

    /// The packet that carries this acknowledgement.
    pub fn to_rex_data(&self, source: u128, command: RexCommand) -> (r: RexData)
        ensures
            r.bytes() == ack_packet_bytes(self.message_id, source, command),
            r.well_formed(),
    {
        let head = RexHead {
            total_len: 45,
            command: command.as_u32(),
            retcode: RetCode::Success.as_u32(),
            message_id: 0,
            source,
        };
        proof {
            lemma_head_roundtrip(head, Seq::<u8>::empty());
            lemma_auto_spec_u64_to_from_le_bytes();
        }
        let mut content = buf_new();
        write_head(&mut content, &head);
        let mut rest: Vec<u8> = Vec::new();
        rest.push(0u8);
        let mut id = u64_to_le_bytes(self.message_id);
        rest.append(&mut id);
        buf_extend(&mut content, rest.as_slice());
        proof {
            assert(bytes_mut_view(content) =~= ack_packet_bytes(self.message_id, source, command));
        }
        RexData { content }
    }

    /// Reads the acknowledged message id from bytes 37..45 of a packet.
    pub fn from_rex_data(rex_data: &RexData) -> (r: Self)
        requires
            rex_data.bytes().len() >= 45,
        ensures
            r.message_id == spec_u64_from_le_bytes(rex_data.bytes().subrange(37, 45)),
    {
        let c = buf_as_slice(&rex_data.content);
        AckData { message_id: u64_from_le_bytes(slice_subrange(c, 37, 45)) }
    }
}

/// Reading an acknowledgement back from the packet that carries it gives the
/// same message id; the packet is well formed, has an empty title and the
/// given command and source.
pub proof fn lemma_ack_roundtrip(message_id: u64, source: u128, command: RexCommand)
    ensures
        ack_packet_bytes(message_id, source, command).len() == 45,
        packet_well_formed(ack_packet_bytes(message_id, source, command)),
        spec_u64_from_le_bytes(ack_packet_bytes(message_id, source, command).subrange(37, 45))
            == message_id,
        head_of(ack_packet_bytes(message_id, source, command)).source == source,
        command_of_code(head_of(ack_packet_bytes(message_id, source, command)).command)
            == command,
        packet_title_bytes(ack_packet_bytes(message_id, source, command)).len() == 0,
{
    lemma_auto_spec_u64_to_from_le_bytes();
    let h = RexHead {
        total_len: 45,
        command: command_code(command),
        retcode: 0,
        message_id: 0,
        source,
    };
    let rest = seq![0u8] + spec_u64_to_le_bytes(message_id);
    let p = ack_packet_bytes(message_id, source, command);
    assert(p =~= head_bytes(h) + rest);
    lemma_head_roundtrip(h, rest);
    assert(p.subrange(37, 45) =~= spec_u64_to_le_bytes(message_id));
}

} // verus!
