//! Framed message codec.
//!
//! A frame is a fixed 56-byte little-endian header, an extension block (the
//! title, when there is one), the payload, and a CRC-32 over extension and
//! payload:
//!
//! `magic:4 version:2 flags:2 ext_len:4 data_len:4 command:4 source:16 target:16 retcode:4`
//! `ext:ext_len data:data_len crc:4`

use bytes::{Bytes, BytesMut};
use vstd::bytes::*;
use vstd::prelude::*;
use vstd::slice::*;
use vstd::utf8::*;

use super::error::RexError;
use super::types::{
    command_code, command_of_code, is_command_code, is_retcode_code, retcode_code,
    retcode_of_code, RetCode, RexCommand,
};
use crate::bridge::buffer::{
    buf_advance, buf_as_slice, buf_extend, buf_freeze, buf_new, buf_split_to, bytes_mut_view,
    bytes_view,
};
use crate::bridge::checksum::{crc32_of, crc32_value};
use crate::bridge::text::string_from_utf8;

verus! {

broadcast use vstd::seq_lib::group_seq_properties;

/// `'REXM'`.
pub const MAGIC: u32 = 0x5245584D;

pub const VERSION: u16 = 1;

/// 4+2+2+4+4+4+16+16+4 bytes.
pub const FIXED_HEADER_LEN: usize = 56;

/// Largest accepted extension block (1 MiB).
pub const MAX_EXT_LEN: usize = 1048576;

/// Largest accepted payload (100 MiB).
pub const MAX_DATA_LEN: usize = 104857600;

/// The fixed header of a frame, as it stands on the wire.
#[derive(Debug, Clone, Copy)]
pub struct RawHeader {
    pub magic: u32,
    pub version: u16,
    pub flags: u16,
    pub ext_len: u32,
    pub data_len: u32,
    pub command: u32,
    pub source: u128,
    pub target: u128,
    pub retcode: u32,
}

/// The 56 bytes that encode a header.
pub open spec fn header_bytes(h: RawHeader) -> Seq<u8> {
    spec_u32_to_le_bytes(h.magic) + spec_u16_to_le_bytes(h.version) + spec_u16_to_le_bytes(h.flags)
        + spec_u32_to_le_bytes(h.ext_len) + spec_u32_to_le_bytes(h.data_len)
        + spec_u32_to_le_bytes(h.command) + spec_u128_to_le_bytes(h.source)
        + spec_u128_to_le_bytes(h.target) + spec_u32_to_le_bytes(h.retcode)
}

/// The little-endian `u32` at `at..at + 4`.
pub open spec fn le_u32_at(b: Seq<u8>, at: int) -> u32 {
    spec_u32_from_le_bytes(b.subrange(at, at + 4))
}

/// The header that the first 56 bytes of `b` encode.
pub open spec fn parse_header(b: Seq<u8>) -> RawHeader {
    RawHeader {
        magic: le_u32_at(b, 0),
        version: spec_u16_from_le_bytes(b.subrange(4, 6)),
        flags: spec_u16_from_le_bytes(b.subrange(6, 8)),
        ext_len: le_u32_at(b, 8),
        data_len: le_u32_at(b, 12),
        command: le_u32_at(b, 16),
        source: spec_u128_from_le_bytes(b.subrange(20, 36)),
        target: spec_u128_from_le_bytes(b.subrange(36, 52)),
        retcode: le_u32_at(b, 52),
    }
}

/// The first check that a header fails, if any.
pub open spec fn header_error(h: RawHeader) -> Option<RexError> {
    if h.magic != MAGIC {
        Some(RexError::DataCorrupted)
    } else if h.version != VERSION {
        Some(RexError::VersionMismatch { expected: VERSION, actual: h.version })
    } else if h.ext_len > MAX_EXT_LEN {
        Some(RexError::DataTooLarge { field: "ext_len", size: h.ext_len as usize, max: MAX_EXT_LEN })
    } else if h.data_len > MAX_DATA_LEN {
        Some(RexError::DataTooLarge { field: "data_len", size: h.data_len as usize, max: MAX_DATA_LEN })
    } else {
        None
    }
}

/// The encoding of a header is 56 bytes long and decodes to the header, whatever follows it.
pub proof fn lemma_header_roundtrip(h: RawHeader, rest: Seq<u8>)
    ensures
        header_bytes(h).len() == FIXED_HEADER_LEN,
        parse_header(header_bytes(h) + rest) == h,
{
    lemma_auto_spec_u16_to_from_le_bytes();
    lemma_auto_spec_u32_to_from_le_bytes();
    lemma_auto_spec_u128_to_from_le_bytes();
    let b = header_bytes(h) + rest;
    assert(b.subrange(0, 4) =~= spec_u32_to_le_bytes(h.magic));
    assert(b.subrange(4, 6) =~= spec_u16_to_le_bytes(h.version));
    assert(b.subrange(6, 8) =~= spec_u16_to_le_bytes(h.flags));
    assert(b.subrange(8, 12) =~= spec_u32_to_le_bytes(h.ext_len));
    assert(b.subrange(12, 16) =~= spec_u32_to_le_bytes(h.data_len));
    assert(b.subrange(16, 20) =~= spec_u32_to_le_bytes(h.command));
    assert(b.subrange(20, 36) =~= spec_u128_to_le_bytes(h.source));
    assert(b.subrange(36, 52) =~= spec_u128_to_le_bytes(h.target));
    assert(b.subrange(52, 56) =~= spec_u32_to_le_bytes(h.retcode));
}

impl RawHeader {
    /// Checks magic, version and the two length limits, in that order.
    pub fn validate(&self) -> (r: Result<(), RexError>)
        ensures
            match header_error(*self) {
                Some(e) => r == Err::<(), RexError>(e),
                None => r is Ok,
            },
    {
        if self.magic != MAGIC {
            return Err(RexError::DataCorrupted);
        }
        if self.version != VERSION {
            return Err(RexError::VersionMismatch { expected: VERSION, actual: self.version });
        }
        if self.ext_len as usize > MAX_EXT_LEN {
            return Err(
                RexError::DataTooLarge {
                    field: "ext_len",
                    size: self.ext_len as usize,
                    max: MAX_EXT_LEN,
                },
            );
        }
        if self.data_len as usize > MAX_DATA_LEN {
            return Err(
                RexError::DataTooLarge {
                    field: "data_len",
                    size: self.data_len as usize,
                    max: MAX_DATA_LEN,
                },
            );
        }
        Ok(())
    }

    /// Reads and validates the header at the start of `buf`.
    pub fn read_from(buf: &[u8]) -> (r: Result<RawHeader, RexError>)
        ensures
            buf@.len() < FIXED_HEADER_LEN ==> r matches Err(RexError::InsufficientData),
            buf@.len() >= FIXED_HEADER_LEN ==> match header_error(parse_header(buf@)) {
                Some(e) => r == Err::<RawHeader, RexError>(e),
                None => r == Ok::<RawHeader, RexError>(parse_header(buf@)),
            },
    {
        if buf.len() < FIXED_HEADER_LEN {
            return Err(RexError::InsufficientData);
        }
        let header = RawHeader {
            magic: u32_from_le_bytes(slice_subrange(buf, 0, 4)),
            version: u16_from_le_bytes(slice_subrange(buf, 4, 6)),
            flags: u16_from_le_bytes(slice_subrange(buf, 6, 8)),
            ext_len: u32_from_le_bytes(slice_subrange(buf, 8, 12)),
            data_len: u32_from_le_bytes(slice_subrange(buf, 12, 16)),
            command: u32_from_le_bytes(slice_subrange(buf, 16, 20)),
            source: u128_from_le_bytes(slice_subrange(buf, 20, 36)),
            target: u128_from_le_bytes(slice_subrange(buf, 36, 52)),
            retcode: u32_from_le_bytes(slice_subrange(buf, 52, 56)),
        };
        match header.validate() {
            Ok(()) => Ok(header),
            Err(e) => Err(e),
        }
    }

    /// Appends the 56-byte encoding of the header.
    pub fn write_to(&self, buf: &mut BytesMut)
        requires
            bytes_mut_view(*old(buf)).len() + FIXED_HEADER_LEN <= isize::MAX,
        ensures
            bytes_mut_view(*final(buf)) == bytes_mut_view(*old(buf)) + header_bytes(*self),
    {
        let ghost start = bytes_mut_view(*buf);
        proof {
            lemma_auto_spec_u16_to_from_le_bytes();
            lemma_auto_spec_u32_to_from_le_bytes();
            lemma_auto_spec_u128_to_from_le_bytes();
        }
        let mut bytes: Vec<u8> = u32_to_le_bytes(self.magic);
        let mut part = u16_to_le_bytes(self.version);
        bytes.append(&mut part);
        let mut part = u16_to_le_bytes(self.flags);
        bytes.append(&mut part);
        let mut part = u32_to_le_bytes(self.ext_len);
        bytes.append(&mut part);
        let mut part = u32_to_le_bytes(self.data_len);
        bytes.append(&mut part);
        let mut part = u32_to_le_bytes(self.command);
        bytes.append(&mut part);
        let mut part = u128_to_le_bytes(self.source);
        bytes.append(&mut part);
        let mut part = u128_to_le_bytes(self.target);
        bytes.append(&mut part);
        let mut part = u32_to_le_bytes(self.retcode);
        bytes.append(&mut part);
        assert(bytes@ =~= header_bytes(*self));
        buf_extend(buf, bytes.as_slice());
    }
}


/// The extension block that carries a title: its UTF-8 length as a
/// little-endian `u32`, then its UTF-8 bytes. No title, no block.
pub open spec fn title_ext(title: Option<Seq<char>>) -> Seq<u8> {
    match title {
        None => Seq::<u8>::empty(),
        Some(t) => spec_u32_to_le_bytes(encode_utf8(t).len() as u32) + encode_utf8(t),
    }
}

/// What an extension block holds as a title.
pub enum TitleParse {
    /// The block ends before the announced title does.
    Short,
    /// The title bytes are not well-formed UTF-8.
    NotUtf8,
    Title(Seq<char>),
}

/// Reads the title from an extension block.
pub open spec fn parse_title(ext: Seq<u8>) -> TitleParse {
    if ext.len() < 4 {
        TitleParse::Short
    } else {
        let n = le_u32_at(ext, 0);
        if ext.len() - 4 < n {
            TitleParse::Short
        } else {
            let tb = ext.subrange(4, 4 + n);
            if valid_utf8(tb) {
                TitleParse::Title(decode_utf8(tb))
            } else {
                TitleParse::NotUtf8
            }
        }
    }
}

/// The view of an optional string slice.
pub open spec fn opt_str_view(t: Option<&str>) -> Option<Seq<char>> {
    match t {
        Some(s) => Some(s@),
        None => None,
    }
}

/// Encoding and decoding the title block.
pub struct ExtCodec;

impl ExtCodec {
    /// The extension block of an optional title.
    pub fn encode_title(title: Option<&str>) -> (r: Option<BytesMut>)
        requires
            title matches Some(t) ==> encode_utf8(t@).len() + 4 <= isize::MAX,
        ensures
            r is Some <==> title is Some,
            r matches Some(b) ==> bytes_mut_view(b) == title_ext(opt_str_view(title)),
    {
        match title {
            None => None,
            Some(t) => {
                let title_bytes = t.as_bytes();
                let mut buf = buf_new();
                let len_bytes = u32_to_le_bytes(title_bytes.len() as u32);
                buf_extend(&mut buf, len_bytes.as_slice());
                buf_extend(&mut buf, title_bytes);
                Some(buf)
            },
        }
    }

    /// Reads the title from an extension block.
    pub fn decode_title(buf: &[u8]) -> (r: Result<String, RexError>)
        ensures
            match parse_title(buf@) {
                TitleParse::Short => r matches Err(RexError::InsufficientData),
                TitleParse::NotUtf8 => r matches Err(RexError::InvalidString(_)),
                TitleParse::Title(t) => r matches Ok(s) && s@ == t,
            },
    {
        if buf.len() < 4 {
            return Err(RexError::InsufficientData);
        }
        let title_len = u32_from_le_bytes(slice_subrange(buf, 0, 4)) as usize;
        if buf.len() - 4 < title_len {
            return Err(RexError::InsufficientData);
        }
        let bytes = slice_to_vec(slice_subrange(buf, 4, 4 + title_len));
        match string_from_utf8(bytes) {
            Ok(s) => Ok(s),
            Err(e) => Err(RexError::InvalidString(e)),
        }
    }
}

/// A UTF-8 encoding takes at most four bytes per character.
pub proof fn lemma_utf8_len_bound(t: Seq<char>)
    ensures
        encode_utf8(t).len() <= 4 * t.len(),
    decreases t.len(),
{
    if t.len() > 0 {
        lemma_utf8_len_bound(t.drop_first());
        assert(encode_utf8(t) == encode_scalar(t[0] as u32) + encode_utf8(t.drop_first()));
    }
}

/// CRC-32 over extension block and payload.
pub struct Crc32;

impl Crc32 {
    /// The checksum of `ext` followed by `data`.
    pub fn compute(ext: &[u8], data: &[u8]) -> (r: u32)
        ensures
            r == crc32_value(ext@ + data@),
    {
        let mut all = slice_to_vec(ext);
        let mut tail = slice_to_vec(data);
        all.append(&mut tail);
        crc32_of(all.as_slice())
    }

    /// Whether `expected` is the checksum of `ext` followed by `data`.
    pub fn verify(ext: &[u8], data: &[u8], expected: u32) -> (r: bool)
        ensures
            r <==> crc32_value(ext@ + data@) == expected,
    {
        Self::compute(ext, data) == expected
    }
}


/// The length of the complete frame at the start of `b`, when `b` holds one
/// whose announced lengths are within limits.
pub open spec fn frame_len(b: Seq<u8>) -> Option<nat> {
    if b.len() < FIXED_HEADER_LEN {
        None
    } else {
        let e = le_u32_at(b, 8);
        let d = le_u32_at(b, 12);
        if e > MAX_EXT_LEN || d > MAX_DATA_LEN {
            None
        } else if b.len() >= FIXED_HEADER_LEN + e + d + 4 {
            Some((FIXED_HEADER_LEN + e + d + 4) as nat)
        } else {
            None
        }
    }
}

/// A decoded frame, in terms of plain values.
pub struct SpecMessage {
    pub command: RexCommand,
    pub source: u128,
    pub target: u128,
    pub retcode: RetCode,
    pub title: Option<Seq<char>>,
    pub data: Seq<u8>,
    pub consumed: nat,
}

/// The outcome of decoding the front of a buffer.
pub enum DecodeSpec {
    /// No complete frame yet; the buffer is left as it is.
    Incomplete,
    /// The frame is refused; the buffer is left as it is.
    Rejected(RexError),
    /// The title block is cut short; the header has been consumed.
    TitleTooShort,
    /// The title is not UTF-8; the header has been consumed.
    TitleNotUtf8,
    /// A message; the whole frame has been consumed.
    Message(SpecMessage),
}

/// The command that a wire number names.
pub open spec fn wire_command(v: u32) -> Option<RexCommand> {
    if is_command_code(v) {
        Some(command_of_code(v))
    } else {
        None
    }
}

/// The return code that a wire number names.
pub open spec fn wire_retcode(v: u32) -> Option<RetCode> {
    if is_retcode_code(v) {
        Some(retcode_of_code(v))
    } else {
        None
    }
}

/// Decoding the front of a buffer, step by step as the codec checks it.
pub open spec fn decode_spec(b: Seq<u8>) -> DecodeSpec {
    match frame_len(b) {
        None => DecodeSpec::Incomplete,
        Some(total) => {
            let h = parse_header(b);
            match header_error(h) {
                Some(e) => DecodeSpec::Rejected(e),
                None => {
                    if !is_command_code(h.command) {
                        DecodeSpec::Rejected(RexError::InvalidCommand(h.command))
                    } else if !is_retcode_code(h.retcode) {
                        DecodeSpec::Rejected(RexError::InvalidRetCode(h.retcode))
                    } else {
                        let e = h.ext_len as int;
                        let d = h.data_len as int;
                        let ext = b.subrange(56, 56 + e);
                        let data = b.subrange(56 + e, 56 + e + d);
                        if crc32_value(ext + data) != le_u32_at(b, 56 + e + d) {
                            DecodeSpec::Rejected(RexError::DataCorrupted)
                        } else {
                            let msg = |title: Option<Seq<char>>|
                                SpecMessage {
                                    command: command_of_code(h.command),
                                    source: h.source,
                                    target: h.target,
                                    retcode: retcode_of_code(h.retcode),
                                    title,
                                    data,
                                    consumed: total,
                                };
                            if e > 0 {
                                match parse_title(ext) {
                                    TitleParse::Short => DecodeSpec::TitleTooShort,
                                    TitleParse::NotUtf8 => DecodeSpec::TitleNotUtf8,
                                    TitleParse::Title(t) => DecodeSpec::Message(msg(Some(t))),
                                }
                            } else {
                                DecodeSpec::Message(msg(None))
                            }
                        }
                    }
                }
            }
        }
    }
}

/// The frame that encodes a message.
pub open spec fn encode_spec(
    command: RexCommand,
    source: u128,
    target: u128,
    retcode: RetCode,
    title: Option<Seq<char>>,
    data: Seq<u8>,
) -> Seq<u8> {
    let ext = title_ext(title);
    let h = RawHeader {
        magic: MAGIC,
        version: VERSION,
        flags: 0,
        ext_len: ext.len() as u32,
        data_len: data.len() as u32,
        command: command_code(command),
        source,
        target,
        retcode: retcode_code(retcode),
    };
    header_bytes(h) + ext + data + spec_u32_to_le_bytes(crc32_value(ext + data))
}

/// A message decoded from a frame.
#[derive(Debug, Clone)]
pub struct DecodedMessage {
    pub command: RexCommand,
    pub source: u128,
    pub target: u128,
    pub retcode: RetCode,
    pub title: Option<String>,
    pub data: Bytes,
    pub consumed_bytes: usize,
}

/// The view of an optional owned string.
pub open spec fn opt_string_view(t: Option<String>) -> Option<Seq<char>> {
    match t {
        Some(s) => Some(s@),
        None => None,
    }
}

/// Whether a decoded message carries exactly the values of a spec message.
pub open spec fn message_matches(d: DecodedMessage, m: SpecMessage) -> bool {
    &&& d.command == m.command
    &&& d.source == m.source
    &&& d.target == m.target
    &&& d.retcode == m.retcode
    &&& opt_string_view(d.title) == m.title
    &&& bytes_view(d.data) == m.data
    &&& d.consumed_bytes == m.consumed
}

/// The command that a wire number names, if any.
fn command_from_wire(v: u32) -> (r: Option<RexCommand>)
    ensures
        r == wire_command(v),
{
    if 9901 <= v && v <= 9916 {
        Some(RexCommand::from_u32(v))
    } else {
        None
    }
}

/// The return code that a wire number names, if any.
fn retcode_from_wire(v: u32) -> (r: Option<RetCode>)
    ensures
        r == wire_retcode(v),
{
    if v == 0 || v == 1 || v == 8802 || v == 8803 || v == 8804 {
        Some(RetCode::from_u32(v))
    } else {
        None
    }
}

/// Framing of whole messages.
pub struct MessageCodec;

impl MessageCodec {
    /// The length of the complete frame at the start of `buf`, if it holds one.
    pub fn peek_message_len(buf: &[u8]) -> (r: Option<usize>)
        ensures
            match frame_len(buf@) {
                Some(n) => r == Some(n as usize),
                None => r is None,
            },
    {
        if buf.len() < FIXED_HEADER_LEN {
            return None;
        }
        let ext_len = u32_from_le_bytes(slice_subrange(buf, 8, 12)) as usize;
        let data_len = u32_from_le_bytes(slice_subrange(buf, 12, 16)) as usize;
        if ext_len > MAX_EXT_LEN || data_len > MAX_DATA_LEN {
            return None;
        }
        let total = FIXED_HEADER_LEN + ext_len + data_len + 4;
        if buf.len() >= total {
            Some(total)
        } else {
            None
        }
    }

    /// Encodes a message into a frame.
    pub fn encode(
        command: RexCommand,
        source: u128,
        target: u128,
        retcode: RetCode,
        title: Option<&str>,
        data: &[u8],
    ) -> (r: BytesMut)
        requires
            title matches Some(t) ==> encode_utf8(t@).len() + data@.len() + 64 <= isize::MAX,
            data@.len() + 64 <= isize::MAX,
        ensures
            bytes_mut_view(r) == encode_spec(
                command,
                source,
                target,
                retcode,
                opt_str_view(title),
                data@,
            ),
    {
        let ext_bytes = ExtCodec::encode_title(title);
        let empty: Vec<u8> = Vec::new();
        let ext: &[u8] = match &ext_bytes {
            Some(b) => buf_as_slice(b),
            None => empty.as_slice(),
        };
        assert(ext@ == title_ext(opt_str_view(title)));
        let crc = Crc32::compute(ext, data);
        let header = RawHeader {
            magic: MAGIC,
            version: VERSION,
            flags: 0,
            ext_len: ext.len() as u32,
            data_len: data.len() as u32,
            command: command.as_u32(),
            source,
            target,
            retcode: retcode.as_u32(),
        };
        let mut buf = buf_new();
        proof {
            lemma_header_roundtrip(header, Seq::<u8>::empty());
            lemma_auto_spec_u32_to_from_le_bytes();
        }
        header.write_to(&mut buf);
        buf_extend(&mut buf, ext);
        buf_extend(&mut buf, data);
        let crc_bytes = u32_to_le_bytes(crc);
        buf_extend(&mut buf, crc_bytes.as_slice());
        proof {
            assert(bytes_mut_view(buf) =~= encode_spec(
                command,
                source,
                target,
                retcode,
                opt_str_view(title),
                data@,
            ));
        }
        buf
    }

    /// Decodes the frame at the front of `buf` and consumes it.
    ///
    /// Every refusal before the title leaves `buf` as it was; a bad title
    /// leaves the header consumed; a message consumes the whole frame.
    pub fn decode(buf: &mut BytesMut) -> (r: Result<DecodedMessage, RexError>)
        ensures
            match decode_spec(bytes_mut_view(*old(buf))) {
                DecodeSpec::Incomplete => r matches Err(RexError::InsufficientData)
                    && bytes_mut_view(*final(buf)) == bytes_mut_view(*old(buf)),
                DecodeSpec::Rejected(e) => r == Err::<DecodedMessage, RexError>(e)
                    && bytes_mut_view(*final(buf)) == bytes_mut_view(*old(buf)),
                DecodeSpec::TitleTooShort => r matches Err(RexError::InsufficientData)
                    && bytes_mut_view(*final(buf)) == bytes_mut_view(*old(buf)).skip(56),
                DecodeSpec::TitleNotUtf8 => r matches Err(RexError::InvalidString(_))
                    && bytes_mut_view(*final(buf)) == bytes_mut_view(*old(buf)).skip(56),
                DecodeSpec::Message(m) => r matches Ok(d) && message_matches(d, m)
                    && bytes_mut_view(*final(buf)) == bytes_mut_view(*old(buf)).skip(
                    m.consumed as int,
                ),
            },
    {
        let ghost b0 = bytes_mut_view(*buf);
        let total = match Self::peek_message_len(buf_as_slice(buf)) {
            Some(n) => n,
            None => {
                return Err(RexError::InsufficientData);
            },
        };
        let header = match RawHeader::read_from(buf_as_slice(buf)) {
            Ok(h) => h,
            Err(e) => {
                return Err(e);
            },
        };
        let ext_len = header.ext_len as usize;
        let data_len = header.data_len as usize;
        let command = match command_from_wire(header.command) {
            Some(c) => c,
            None => {
                return Err(RexError::InvalidCommand(header.command));
            },
        };
        let retcode = match retcode_from_wire(header.retcode) {
            Some(c) => c,
            None => {
                return Err(RexError::InvalidRetCode(header.retcode));
            },
        };
        let data_start = FIXED_HEADER_LEN + ext_len;
        let crc_start = data_start + data_len;
        {
            let bytes = buf_as_slice(buf);
            let ext_slice = slice_subrange(bytes, FIXED_HEADER_LEN, data_start);
            let data_slice = slice_subrange(bytes, data_start, crc_start);
            let crc_read = u32_from_le_bytes(slice_subrange(bytes, crc_start, crc_start + 4));
            if !Crc32::verify(ext_slice, data_slice, crc_read) {
                return Err(RexError::DataCorrupted);
            }
        }
        buf_advance(buf, FIXED_HEADER_LEN);
        let title = if ext_len > 0 {
            let ext = slice_subrange(buf_as_slice(buf), 0, ext_len);
            assert(ext@ =~= b0.subrange(56, 56 + ext_len));
            match ExtCodec::decode_title(ext) {
                Ok(t) => {
                    buf_advance(buf, ext_len);
                    Some(t)
                },
                Err(e) => {
                    return Err(e);
                },
            }
        } else {
            None
        };
        let data = buf_freeze(buf_split_to(buf, data_len));
        buf_advance(buf, 4);
        proof {
            assert(bytes_view(data) =~= b0.subrange(56 + ext_len, 56 + ext_len + data_len));
            assert(bytes_mut_view(*buf) =~= b0.skip(total as int));
        }
        Ok(
            DecodedMessage {
                command,
                source: header.source,
                target: header.target,
                retcode,
                title,
                data,
                consumed_bytes: total,
            },
        )
    }

    /// Decodes a frame when `buf` holds a complete one; `None` otherwise.
    pub fn decode_stream(buf: &mut BytesMut) -> (r: Result<Option<DecodedMessage>, RexError>)
        ensures
            match decode_spec(bytes_mut_view(*old(buf))) {
                DecodeSpec::Incomplete => r matches Ok(None)
                    && bytes_mut_view(*final(buf)) == bytes_mut_view(*old(buf)),
                DecodeSpec::Rejected(e) => r == Err::<Option<DecodedMessage>, RexError>(e)
                    && bytes_mut_view(*final(buf)) == bytes_mut_view(*old(buf)),
                DecodeSpec::TitleTooShort => r matches Err(RexError::InsufficientData)
                    && bytes_mut_view(*final(buf)) == bytes_mut_view(*old(buf)).skip(56),
                DecodeSpec::TitleNotUtf8 => r matches Err(RexError::InvalidString(_))
                    && bytes_mut_view(*final(buf)) == bytes_mut_view(*old(buf)).skip(56),
                DecodeSpec::Message(m) => r matches Ok(Some(d)) && message_matches(d, m)
                    && bytes_mut_view(*final(buf)) == bytes_mut_view(*old(buf)).skip(
                    m.consumed as int,
                ),
            },
    {
        if Self::peek_message_len(buf_as_slice(buf)).is_none() {
            return Ok(None);
        }
        match Self::decode(buf) {
            Ok(m) => Ok(Some(m)),
            Err(e) => Err(e),
        }
    }
}

/// A frame written by `MessageCodec::encode` decodes to the very message that
/// was encoded, whatever bytes follow it in the buffer, and consumes exactly
/// the frame, as long as title block and payload are within the limits that
/// the decoder enforces.
#[verifier::rlimit(30)]
pub proof fn lemma_codec_roundtrip(
    command: RexCommand,
    source: u128,
    target: u128,
    retcode: RetCode,
    title: Option<Seq<char>>,
    data: Seq<u8>,
    rest: Seq<u8>,
)
    requires
        title matches Some(t) ==> encode_utf8(t).len() + 4 <= MAX_EXT_LEN,
        data.len() <= MAX_DATA_LEN,
    ensures
        decode_spec(encode_spec(command, source, target, retcode, title, data) + rest)
            == DecodeSpec::Message(
            SpecMessage {
                command,
                source,
                target,
                retcode,
                title,
                data,
                consumed: encode_spec(command, source, target, retcode, title, data).len(),
            },
        ),
{
    broadcast use encode_utf8_valid_utf8, encode_utf8_decode_utf8;

    lemma_auto_spec_u32_to_from_le_bytes();
    let ext = title_ext(title);
    let h = RawHeader {
        magic: MAGIC,
        version: VERSION,
        flags: 0,
        ext_len: ext.len() as u32,
        data_len: data.len() as u32,
        command: command_code(command),
        source,
        target,
        retcode: retcode_code(retcode),
    };
    let crc = spec_u32_to_le_bytes(crc32_value(ext + data));
    let enc = encode_spec(command, source, target, retcode, title, data);
    let b = enc + rest;
    let tail = ext + data + crc + rest;
    assert(b =~= header_bytes(h) + tail);
    lemma_header_roundtrip(h, tail);
    assert(parse_header(b) == h);
    let e = ext.len() as int;
    let d = data.len() as int;
    assert(h.ext_len == e);
    assert(h.data_len == d);
    assert(b.len() == 56 + e + d + 4 + rest.len());
    assert(b.subrange(56, 56 + e) =~= ext);
    assert(b.subrange(56 + e, 56 + e + d) =~= data);
    assert(b.subrange(56 + e + d, 56 + e + d + 4) =~= crc);
    assert(le_u32_at(b, 56 + e + d) == crc32_value(ext + data));
    match title {
        Some(t) => {
            let tb = encode_utf8(t);
            assert(ext.subrange(0, 4) =~= spec_u32_to_le_bytes(tb.len() as u32));
            assert(ext.subrange(4, 4 + tb.len() as int) =~= tb);
            assert(parse_title(ext) == TitleParse::Title(t));
        },
        None => {},
    }
}

} // verus!
