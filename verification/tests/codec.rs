use bytes::{Buf, BufMut, BytesMut};
use prost::encoding::{DecodeContext, WireType};
use prost::Message;
use vpn::io_error::IoErrorKind;
use vpn::msgx::codec::{FrameError, ProtoCodec, MAX_FRAME_LENGTH};

#[derive(Clone, Debug, Default, PartialEq)]
struct TestMsg {
    text: String,
    number: u32,
}

impl Message for TestMsg {
    fn encode_raw(&self, buf: &mut impl BufMut) {
        if !self.text.is_empty() {
            prost::encoding::string::encode(1, &self.text, buf);
        }
        if self.number != 0 {
            prost::encoding::uint32::encode(2, &self.number, buf);
        }
    }

    fn merge_field(
        &mut self,
        tag: u32,
        wire_type: WireType,
        buf: &mut impl Buf,
        ctx: DecodeContext,
    ) -> Result<(), prost::DecodeError> {
        match tag {
            1 => prost::encoding::string::merge(wire_type, &mut self.text, buf, ctx),
            2 => prost::encoding::uint32::merge(wire_type, &mut self.number, buf, ctx),
            _ => prost::encoding::skip_field(wire_type, tag, buf, ctx),
        }
    }

    fn encoded_len(&self) -> usize {
        let mut n = 0;
        if !self.text.is_empty() {
            n += prost::encoding::string::encoded_len(1, &self.text);
        }
        if self.number != 0 {
            n += prost::encoding::uint32::encoded_len(2, &self.number);
        }
        n
    }

    fn clear(&mut self) {
        *self = TestMsg::default();
    }
}

fn msg(text: &str, number: u32) -> TestMsg {
    TestMsg { text: text.to_string(), number }
}

fn parse(bytes: Vec<u8>) -> Result<TestMsg, String> {
    TestMsg::decode(bytes.as_slice()).map_err(|e| e.to_string())
}

fn encode(codec: &mut ProtoCodec, m: TestMsg, buf: &mut BytesMut) -> Result<(), FrameError> {
    codec.encode(m.encode_to_vec(), buf)
}

fn decode(codec: &mut ProtoCodec, buf: &mut BytesMut) -> Result<Option<TestMsg>, FrameError> {
    codec.decode(buf, parse)
}

fn decode_eof(codec: &mut ProtoCodec, buf: &mut BytesMut) -> Result<Option<TestMsg>, FrameError> {
    codec.decode_eof(buf, parse)
}

#[test]
fn test_encode_length_prefix_is_big_endian_u32() {
    let mut codec = ProtoCodec::new();
    for m in [msg("alice", 1), msg("data", 0), msg(&"x".repeat(100), 999)] {
        let mut buf = BytesMut::new();
        encode(&mut codec, m, &mut buf).unwrap();
        assert!(buf.len() >= 4);
        let bytes: [u8; 4] = [buf[0], buf[1], buf[2], buf[3]];
        let as_big = u32::from_be_bytes(bytes);
        let as_little = u32::from_le_bytes(bytes);
        assert_eq!(as_big as usize, buf.len() - 4);
        assert_ne!(as_little as usize, buf.len() - 4);
    }
}

#[test]
fn test_max_frame_length_constant_equals_64kib() {
    assert_eq!(MAX_FRAME_LENGTH, 65_536);
}

#[test]
fn test_roundtrip_typical_message_preserves_fields() {
    let mut codec = ProtoCodec::new();
    for m in [msg("alice", 1), msg("hello world", 42), msg("中文", 7)] {
        let mut buf = BytesMut::new();
        encode(&mut codec, m.clone(), &mut buf).unwrap();
        let decoded = decode(&mut codec, &mut buf).unwrap().unwrap();
        assert_eq!(decoded, m);
    }
}

#[test]
fn test_roundtrip_empty_payload_frame_returns_default() {
    let mut codec = ProtoCodec::new();
    let mut buf = BytesMut::new();
    encode(&mut codec, TestMsg::default(), &mut buf).unwrap();
    let decoded = decode(&mut codec, &mut buf).unwrap().unwrap();
    assert_eq!(decoded, TestMsg::default());
}

#[test]
fn test_decode_zero_length_prefix_returns_default() {
    let mut codec = ProtoCodec::new();
    let mut buf = BytesMut::new();
    buf.extend_from_slice(&0u32.to_be_bytes());
    let decoded = decode(&mut codec, &mut buf).unwrap().unwrap();
    assert_eq!(decoded, TestMsg::default());
}

#[test]
fn test_half_packet_length_prefix_partial_returns_none() {
    let mut codec = ProtoCodec::new();
    let mut full = BytesMut::new();
    encode(&mut codec, msg("payload", 1), &mut full).unwrap();
    let prefix = &full[..4];

    for split in [1usize, 2, 3] {
        let mut buf = BytesMut::new();
        buf.extend_from_slice(&prefix[..split]);
        assert!(decode(&mut codec, &mut buf).unwrap().is_none());
    }
}

#[test]
fn test_half_packet_payload_partial_returns_none() {
    let mut codec = ProtoCodec::new();
    let mut full = BytesMut::new();
    encode(&mut codec, msg("payload-here", 1), &mut full).unwrap();
    assert!(full.len() > 5);

    let mut buf = full.clone();
    buf.truncate(4 + 1);
    assert!(decode(&mut codec, &mut buf).unwrap().is_none());
    // The length has left the buffer, and is waited for.
    assert_eq!(&buf[..], &full[4..5]);
    buf.extend_from_slice(&full[5..]);
    assert_eq!(decode(&mut codec, &mut buf).unwrap(), Some(msg("payload-here", 1)));
}

#[test]
fn test_half_packet_progressive_returns_message_when_complete() {
    let mut codec = ProtoCodec::new();
    let m = msg("payload", 1);
    let mut full = BytesMut::new();
    encode(&mut codec, m.clone(), &mut full).unwrap();

    let mut buf = BytesMut::new();
    buf.extend_from_slice(&full[..3]);
    assert!(decode(&mut codec, &mut buf).unwrap().is_none());
    buf.extend_from_slice(&full[3..]);
    let decoded = decode(&mut codec, &mut buf).unwrap().unwrap();
    assert_eq!(decoded, m);
}

#[test]
fn test_sticky_packet_two_frames_decode_in_order() {
    let mut codec = ProtoCodec::new();
    let m1 = msg("first", 1);
    let m2 = msg("second", 2);
    let mut buf = BytesMut::new();
    encode(&mut codec, m1.clone(), &mut buf).unwrap();
    encode(&mut codec, m2.clone(), &mut buf).unwrap();

    assert_eq!(decode(&mut codec, &mut buf).unwrap().unwrap(), m1);
    assert_eq!(decode(&mut codec, &mut buf).unwrap().unwrap(), m2);
    assert!(decode(&mut codec, &mut buf).unwrap().is_none());
}

#[test]
fn test_encode_oversized_payload_returns_err() {
    let mut codec = ProtoCodec::new();
    let oversized = msg(&"x".repeat(MAX_FRAME_LENGTH), 1);
    let mut buf = BytesMut::new();
    assert!(oversized.encode_to_vec().len() > MAX_FRAME_LENGTH);
    let err = encode(&mut codec, oversized, &mut buf).unwrap_err();
    assert!(matches!(err, FrameError::Codec(_)));
}

#[test]
fn longest_message_fits_and_one_more_byte_does_not() {
    let mut codec = ProtoCodec::new();
    let mut buf = BytesMut::new();
    codec.encode(vec![7; MAX_FRAME_LENGTH], &mut buf).unwrap();
    assert_eq!(buf.len(), MAX_FRAME_LENGTH + 4);
    assert_eq!(&buf[..4], &[0, 1, 0, 0]);
    let err = codec.encode(vec![7; MAX_FRAME_LENGTH + 1], &mut buf).unwrap_err();
    assert_eq!(buf.len(), MAX_FRAME_LENGTH + 4);
    match err {
        FrameError::Codec(e) => {
            assert_eq!(e.kind, IoErrorKind::InvalidInput);
            assert_eq!(e.message, "frame size too big");
        }
        FrameError::Decode(_) => panic!("a codec error was due"),
    }
}

#[test]
fn test_decode_oversized_length_prefix_returns_err() {
    let mut codec = ProtoCodec::new();
    let mut buf = BytesMut::new();
    let oversize = (MAX_FRAME_LENGTH + 1) as u32;
    buf.extend_from_slice(&oversize.to_be_bytes());
    let err = decode(&mut codec, &mut buf).unwrap_err();
    assert!(matches!(err, FrameError::Codec(_)));
    match err {
        FrameError::Codec(e) => {
            assert_eq!(e.kind, IoErrorKind::InvalidData);
            assert_eq!(e.message, "frame size too big");
        }
        FrameError::Decode(_) => panic!("a codec error was due"),
    }
    assert_eq!(&buf[..], &oversize.to_be_bytes());
}

#[test]
fn test_decode_malformed_payload_returns_decode_error() {
    let mut codec = ProtoCodec::new();
    let mut buf = BytesMut::new();
    let payload: [u8; 8] = [0xFF; 8];
    let len = payload.len() as u32;
    buf.extend_from_slice(&len.to_be_bytes());
    buf.extend_from_slice(&payload);
    let err = decode(&mut codec, &mut buf).unwrap_err();
    assert!(matches!(err, FrameError::Decode(_)));
}

#[test]
fn test_error_variants_distinguish_codec_and_decode() {
    let mut codec = ProtoCodec::new();

    let oversized = msg(&"x".repeat(MAX_FRAME_LENGTH), 1);
    let mut buf = BytesMut::new();
    let codec_err = encode(&mut codec, oversized, &mut buf).unwrap_err();
    assert!(matches!(codec_err, FrameError::Codec(_)));
    assert_eq!(codec_err.message(), "codec error");

    let mut buf2 = BytesMut::new();
    let payload: [u8; 8] = [0xFF; 8];
    let len = payload.len() as u32;
    buf2.extend_from_slice(&len.to_be_bytes());
    buf2.extend_from_slice(&payload);
    let decode_err = decode(&mut codec, &mut buf2).unwrap_err();
    assert!(matches!(decode_err, FrameError::Decode(_)));
    assert_eq!(decode_err.message(), "decode error");
}

#[test]
fn test_decode_eof_residual_half_frame_returns_err() {
    let mut codec = ProtoCodec::new();
    let mut full = BytesMut::new();
    encode(&mut codec, msg("payload", 1), &mut full).unwrap();
    let mut buf = BytesMut::new();
    buf.extend_from_slice(&full[..3]);
    let err = decode_eof(&mut codec, &mut buf).unwrap_err();
    match err {
        FrameError::Codec(e) => {
            assert_eq!(e.kind, IoErrorKind::Other);
            assert_eq!(e.message, "bytes remaining on stream");
        }
        FrameError::Decode(_) => panic!("a codec error was due"),
    }
}

#[test]
fn test_decode_eof_no_residual_returns_none() {
    let mut codec = ProtoCodec::new();
    let mut buf = BytesMut::new();
    assert!(decode_eof(&mut codec, &mut buf).unwrap().is_none());
}

#[test]
fn decode_eof_after_the_length_alone_returns_none() {
    let mut codec = ProtoCodec::new();
    let mut buf = BytesMut::new();
    buf.extend_from_slice(&9u32.to_be_bytes());
    assert!(decode_eof(&mut codec, &mut buf).unwrap().is_none());
}

#[test]
fn decode_eof_of_a_message_that_is_too_long_returns_err() {
    let mut codec = ProtoCodec::new();
    let mut buf = BytesMut::new();
    buf.extend_from_slice(&u32::MAX.to_be_bytes());
    let err = decode_eof(&mut codec, &mut buf).unwrap_err();
    assert!(matches!(err, FrameError::Codec(e) if e.kind == IoErrorKind::InvalidData));
}

#[test]
fn test_decode_eof_complete_frame_returns_message() {
    let mut codec = ProtoCodec::new();
    let m = msg("payload", 1);
    let mut buf = BytesMut::new();
    encode(&mut codec, m.clone(), &mut buf).unwrap();
    let decoded = decode_eof(&mut codec, &mut buf).unwrap().unwrap();
    assert_eq!(decoded, m);
}

#[test]
fn test_default_returns_working_codec() {
    let mut codec = ProtoCodec::default();
    let m = msg("payload", 1);
    let mut buf = BytesMut::new();
    encode(&mut codec, m.clone(), &mut buf).unwrap();
    let decoded = decode(&mut codec, &mut buf).unwrap().unwrap();
    assert_eq!(decoded, m);
}

#[test]
fn message_goes_into_a_buffer_that_has_room() {
    let mut codec = ProtoCodec::new();
    let mut buf = BytesMut::from(&b"xy"[..]);
    assert_eq!(codec.try_encode(vec![7, 8, 9], &mut buf), Some(Ok(())));
    assert_eq!(&buf[..], &[b'x', b'y', 0, 0, 0, 3, 7, 8, 9]);
    let refused = codec.try_encode(vec![0; MAX_FRAME_LENGTH + 1], &mut buf);
    assert!(matches!(refused, Some(Err(FrameError::Codec(e))) if e.kind == IoErrorKind::InvalidInput));
    assert_eq!(buf.len(), 9);
}

#[test]
fn frames_in_a_row_come_in_order_and_a_cut_one_is_waited_for() {
    let mut codec = ProtoCodec::new();
    let messages = [vec![1u8], vec![], vec![2, 3], vec![4; 300]];
    let last = vec![9u8; 5];
    let mut wire = BytesMut::new();
    for m in messages.iter().chain([&last]) {
        assert_eq!(codec.encode(m.clone(), &mut wire), Ok(()));
    }
    let tail = wire.split_off(wire.len() - 3);
    for m in &messages {
        assert_eq!(codec.decode(&mut wire, Ok), Ok(Some(m.clone())));
    }
    assert_eq!(codec.decode(&mut wire, Ok::<Vec<u8>, String>), Ok(None));
    wire.extend_from_slice(&tail);
    assert_eq!(codec.decode(&mut wire, Ok), Ok(Some(last)));
    assert!(wire.is_empty());
}
