use bytes::{BufMut, BytesMut};
use rexmq::protocol::codec::{
    Crc32, ExtCodec, MessageCodec, RawHeader, FIXED_HEADER_LEN, MAGIC, VERSION,
};
use rexmq::protocol::data::{AckData, RexData};
use rexmq::protocol::error::RexError;
use rexmq::protocol::frame::{FrameError, RexFramer};
use rexmq::protocol::{Protocol, RetCode, RexCommand};

#[test]
fn test_raw_header_roundtrip() {
    let header = RawHeader {
        magic: MAGIC,
        version: VERSION,
        flags: 0,
        ext_len: 100,
        data_len: 200,
        command: 9901,
        source: 12345,
        target: 67890,
        retcode: 0,
    };

    let mut buf = BytesMut::new();
    header.write_to(&mut buf);

    let decoded = RawHeader::read_from(&buf).unwrap();
    assert_eq!(header.magic, decoded.magic);
    assert_eq!(header.ext_len, decoded.ext_len);
    assert_eq!(header.data_len, decoded.data_len);
}

#[test]
fn test_peek_message_len() {
    let mut buf = BytesMut::new();

    let header = RawHeader {
        magic: MAGIC,
        version: VERSION,
        flags: 0,
        ext_len: 10,
        data_len: 20,
        command: 9901,
        source: 0,
        target: 0,
        retcode: 0,
    };
    header.write_to(&mut buf);
    buf.resize(FIXED_HEADER_LEN + 10 + 20 + 4, 0);

    let len = MessageCodec::peek_message_len(&buf);
    assert_eq!(len, Some(FIXED_HEADER_LEN + 10 + 20 + 4));
}

#[test]
fn test_codec_zerocopy_roundtrip() {
    let encoded = MessageCodec::encode(
        RexCommand::Login,
        123,
        456,
        RetCode::Success,
        Some("test_title"),
        b"hello world",
    );

    let mut buf = encoded;
    let buf_len = buf.len();
    let decoded = MessageCodec::decode(&mut buf).unwrap();

    assert_eq!(decoded.command, RexCommand::Login);
    assert_eq!(decoded.source, 123);
    assert_eq!(decoded.target, 456);
    assert_eq!(decoded.title.as_deref(), Some("test_title"));
    assert_eq!(&decoded.data[..], b"hello world");
    assert_eq!(decoded.consumed_bytes, buf_len);
    assert_eq!(buf.len(), 0);
}

#[test]
fn test_stream_decode() {
    let mut buf = MessageCodec::encode(RexCommand::Title, 1, 2, RetCode::Success, None, b"data");

    let msg = MessageCodec::decode_stream(&mut buf)
        .unwrap()
        .expect("should have message");

    assert_eq!(msg.command, RexCommand::Title);
    assert_eq!(buf.len(), 0);
}

#[test]
fn test_zerocopy_clone() {
    let mut buf = MessageCodec::encode(
        RexCommand::Title,
        1,
        2,
        RetCode::Success,
        Some("test"),
        b"hello",
    );

    let msg = MessageCodec::decode(&mut buf).unwrap();

    let data1 = msg.data.clone();
    let data2 = msg.data.clone();

    assert_eq!(data1.len(), data2.len());
    assert_eq!(&data1[..], b"hello");
}

#[test]
fn test_invalid_magic() {
    let mut buf = BytesMut::with_capacity(FIXED_HEADER_LEN);
    buf.put_u32_le(0xDEADBEEF);
    buf.resize(FIXED_HEADER_LEN, 0);

    let result = RawHeader::read_from(&buf);
    assert!(matches!(result, Err(RexError::DataCorrupted)));
}

#[test]
fn test_crc_verification() {
    let data = b"test data";
    let ext = b"";

    let crc = Crc32::compute(ext, data);
    assert!(Crc32::verify(ext, data, crc));
    assert!(!Crc32::verify(ext, data, crc + 1));
}

#[test]
fn crc_of_known_input_matches_the_reference_value() {
    // CRC-32 (IEEE) of "123456789" is the standard check value.
    assert_eq!(Crc32::compute(b"1234", b"56789"), 0xCBF4_3926);
}

#[test]
fn header_with_other_version_is_refused() {
    let header = RawHeader {
        magic: MAGIC,
        version: 7,
        flags: 0,
        ext_len: 0,
        data_len: 0,
        command: 9901,
        source: 0,
        target: 0,
        retcode: 0,
    };
    let mut buf = BytesMut::new();
    header.write_to(&mut buf);
    let result = RawHeader::read_from(&buf);
    assert!(matches!(result, Err(RexError::VersionMismatch { expected: 1, actual: 7 })));
}

#[test]
fn header_with_oversized_ext_is_refused() {
    let header = RawHeader {
        magic: MAGIC,
        version: VERSION,
        flags: 0,
        ext_len: 2 * 1024 * 1024,
        data_len: 0,
        command: 9901,
        source: 0,
        target: 0,
        retcode: 0,
    };
    assert!(matches!(header.validate(), Err(RexError::DataTooLarge { .. })));
}

#[test]
fn short_header_is_insufficient_data() {
    let buf = [0u8; 10];
    assert!(matches!(RawHeader::read_from(&buf), Err(RexError::InsufficientData)));
}

#[test]
fn decode_stream_waits_for_a_whole_frame() {
    let mut full = MessageCodec::encode(RexCommand::Title, 1, 2, RetCode::Success, Some("t"), b"xyz");
    let total = full.len();
    let mut partial = full.split_to(total - 1);
    let before = partial.len();
    let r = MessageCodec::decode_stream(&mut partial).unwrap();
    assert!(r.is_none());
    assert_eq!(partial.len(), before);
}

#[test]
fn corrupted_payload_fails_the_checksum() {
    let mut buf = MessageCodec::encode(RexCommand::Title, 1, 2, RetCode::Success, None, b"abc");
    let n = buf.len();
    buf[n - 5] ^= 0xFF;
    assert!(matches!(MessageCodec::decode(&mut buf), Err(RexError::DataCorrupted)));
}

#[test]
fn title_with_bad_utf8_is_invalid_string() {
    let r = ExtCodec::decode_title(&[2, 0, 0, 0, 0xFF, 0xFE]);
    assert!(matches!(r, Err(RexError::InvalidString(_))));
    assert_eq!(ExtCodec::decode_title(&[2, 0, 0, 0, b'h', b'i']).unwrap(), "hi");
}

#[test]
fn encode_title_prefixes_the_length() {
    let enc = ExtCodec::encode_title(Some("abc")).unwrap();
    assert_eq!(&enc[..], &[3, 0, 0, 0, b'a', b'b', b'c']);
    assert!(ExtCodec::encode_title(None).is_none());
}

#[test]
fn command_codes_round_trip() {
    for c in [
        RexCommand::Title,
        RexCommand::Group,
        RexCommand::Cast,
        RexCommand::Login,
        RexCommand::Check,
        RexCommand::RegTitle,
        RexCommand::DelTitle,
        RexCommand::Ack,
    ] {
        assert_eq!(RexCommand::from_u32(c.as_u32()), c);
    }
    assert_eq!(RexCommand::from_u32(123456), RexCommand::Login);
}

#[test]
fn retcode_codes_round_trip() {
    assert!(RetCode::Success.is_success());
    assert_eq!(RetCode::from_u32(RetCode::Success.as_u32()), RetCode::Success);
    assert_eq!(RetCode::from_u32(987654), RetCode::Error);
}

#[test]
fn protocol_names_parse() {
    assert_eq!(Protocol::from("tcp"), Some(Protocol::Tcp));
    assert_eq!(Protocol::from("quic"), Some(Protocol::Quic));
    assert_eq!(Protocol::from("websocket"), Some(Protocol::WebSocket));
    assert_eq!(Protocol::from("udp"), None);
}

#[test]
fn new_packet_reads_back() {
    let d = RexData::new(RexCommand::Title, "news", b"payload");
    assert_eq!(d.command(), RexCommand::Title);
    assert_eq!(d.title(), "news");
    assert_eq!(d.data(), b"payload");
    assert_eq!(d.source(), 0);
    assert_eq!(d.message_id(), 0);
    assert_eq!(d.title_len(), 4);
}

#[test]
fn setters_change_only_their_field() {
    let mut d = RexData::new(RexCommand::Group, "g", b"x");
    d.set_source(77).set_message_id(99).set_retcode(RetCode::Success);
    assert_eq!(d.source(), 77);
    assert_eq!(d.message_id(), 99);
    assert_eq!(d.command(), RexCommand::Group);
    assert_eq!(d.title(), "g");
    d.set_data(b"longer payload");
    assert_eq!(d.data(), b"longer payload");
    assert_eq!(d.title(), "g");
}

#[test]
fn data_mut_writes_in_place() {
    let mut d = RexData::new(RexCommand::Title, "t", &[0u8; 20]);
    d.data_mut()[0..4].copy_from_slice(&[1, 2, 3, 4]);
    assert_eq!(&d.data()[0..4], &[1, 2, 3, 4]);
    assert_eq!(d.data().len(), 20);
    assert_eq!(d.title(), "t");
}

#[test]
fn packets_deserialize_in_order() {
    let a = RexData::new(RexCommand::Title, "a", b"1");
    let b = RexData::new(RexCommand::Cast, "b", b"22");
    let mut buf = BytesMut::new();
    buf.extend_from_slice(a.pack_ref());
    buf.extend_from_slice(b.pack_ref());
    let first = RexData::try_deserialize(&mut buf).unwrap().unwrap();
    let second = RexData::try_deserialize(&mut buf).unwrap().unwrap();
    assert_eq!(first.title(), "a");
    assert_eq!(second.data(), b"22");
    assert!(RexData::try_deserialize(&mut buf).unwrap().is_none());
}

#[test]
fn packet_shorter_than_a_head_is_split_off_as_announced() {
    let mut buf = BytesMut::new();
    buf.put_u32_le(10);
    buf.extend_from_slice(&[0u8; 10]);
    let p = RexData::try_deserialize(&mut buf).unwrap().expect("announced bytes are there");
    assert_eq!(p.pack_ref().len(), 10);
    assert!(!p.is_well_formed());
    assert_eq!(buf.len(), 4);
}

#[test]
fn packet_with_title_past_its_end_is_split_off_and_reads_as_ill_formed() {
    let d = RexData::new(RexCommand::Title, "abc", b"");
    let mut raw = BytesMut::new();
    raw.extend_from_slice(d.pack_ref());
    raw[36] = 200;
    raw.extend_from_slice(b"next");
    let p = RexData::try_deserialize(&mut raw).unwrap().expect("announced bytes are there");
    assert_eq!(p.pack_ref().len(), 40);
    assert!(!p.is_well_formed());
    assert_eq!(&raw[..], b"next");
    assert!(d.is_well_formed());
}

#[test]
fn ack_round_trips() {
    let p = AckData::new(0xABCD).to_rex_data(5, RexCommand::Ack);
    assert_eq!(p.pack_ref().len(), 45);
    assert_eq!(AckData::from_rex_data(&p).message_id, 0xABCD);
    assert_eq!(p.source(), 5);
    assert_eq!(p.command(), RexCommand::Ack);
    assert_eq!(p.title(), "");
}

#[test]
fn framer_splits_frames() {
    let mut f = RexFramer::new(1024);
    let mut buf = BytesMut::new();
    buf.put_u32(3);
    buf.extend_from_slice(b"abc");
    buf.put_u32(2);
    let frame = f.try_next_frame(&mut buf).unwrap().unwrap();
    assert_eq!(&frame[..], b"abc");
    assert!(f.try_next_frame(&mut buf).unwrap().is_none());
    assert_eq!(buf.len(), 4);
}

#[test]
fn framer_refuses_oversized_frames() {
    let mut f = RexFramer::new(4);
    let mut buf = BytesMut::new();
    buf.put_u32(5);
    assert!(matches!(f.try_next_frame(&mut buf), Err(FrameError::InvalidFrameSize(5))));
    let mut zero = BytesMut::new();
    zero.put_u32(0);
    assert!(matches!(f.try_next_frame(&mut zero), Err(FrameError::InvalidFrameSize(0))));
}

#[test]
fn payload_text_replaces_ill_formed_bytes() {
    let d = RexData::new(RexCommand::Title, "t", &[b'h', 0xFF, b'i']);
    assert_eq!(d.data_as_string_lossy(), "h\u{FFFD}i");
}
