//! Tests of the OSC wire codec: exact byte layouts, round trips through
//! encode and decode for every argument type, stream framing, and the
//! framing, string and argument errors.

use vmc::decoder::{decode_tcp, decode_tcp_vec, decode_udp};
use vmc::encoder::{encode, encode_into, encode_string, encode_string_into};
use vmc::osc::{
    OSCArray, OSCBundle, OSCColor, OSCMessage, OSCMidiMessage, OSCPacket, OSCTime, OSCType,
};
use vmc::wire::pad;
use vmc::OSCError;

#[test]
fn test_padding_law() {
    let packet = OSCPacket::Message(OSCMessage::new("/foo", vec![]));
    let bytes = encode(&packet).unwrap();
    assert_eq!(
        bytes,
        vec![0x2F, 0x66, 0x6F, 0x6F, 0x00, 0x00, 0x00, 0x00, 0x2C, 0x00, 0x00, 0x00]
    );
}

#[test]
fn test_pad() {
    assert_eq!(pad(10), 12);
    assert_eq!(pad(12), 12);
    assert_eq!(pad(0), 0);
}

#[test]
fn test_encode_string() {
    assert_eq!(encode_string("hi"), vec![b'h', b'i', 0, 0]);
    assert_eq!(encode_string("abcd"), vec![b'a', b'b', b'c', b'd', 0, 0, 0, 0]);
    let mut out: Vec<u8> = Vec::new();
    let written = encode_string_into("osc", &mut out);
    assert_eq!(written, 4);
    assert_eq!(out, vec![b'o', b's', b'c', 0]);
}

fn all_types_message() -> OSCPacket {
    OSCPacket::Message(OSCMessage::new(
        "/every/type",
        vec![
            OSCType::Int(-5),
            OSCType::Float(3.25f32.to_bits()),
            OSCType::String("h\u{e9}llo".to_string()),
            OSCType::Blob(vec![1, 2, 3]),
            OSCType::Time(OSCTime { seconds: 3_000_000_000, fractional: 42 }),
            OSCType::Long(-9_000_000_000_000_000_000),
            OSCType::Double(2.5f64.to_bits()),
            OSCType::Char('\u{e9}'),
            OSCType::Color(OSCColor { red: 1, green: 2, blue: 3, alpha: 4 }),
            OSCType::Midi(OSCMidiMessage { port: 9, status: 8, data1: 7, data2: 6 }),
            OSCType::Bool(true),
            OSCType::Bool(false),
            OSCType::Array(OSCArray {
                content: vec![
                    OSCType::Int(1),
                    OSCType::Array(OSCArray { content: vec![OSCType::Float(0)] }),
                ],
            }),
            OSCType::Nil,
            OSCType::Inf,
        ],
    ))
}

#[test]
fn test_codec_roundtrip_all_types() {
    let bytes = encode(&all_types_message()).unwrap();
    let (rest, decoded) = decode_udp(&bytes).unwrap();
    assert!(rest.is_empty());
    assert_eq!(decoded, all_types_message());
}

#[test]
fn test_codec_roundtrip_nested_bundle() {
    let timetag = OSCTime { seconds: 2_208_988_801, fractional: 7 };
    let make = || {
        OSCPacket::Bundle(OSCBundle {
            timetag,
            content: vec![
                OSCPacket::Message(OSCMessage::new(
                    "/a",
                    vec![OSCType::Int(1), OSCType::String("x".to_string())],
                )),
                OSCPacket::Bundle(OSCBundle {
                    timetag,
                    content: vec![OSCPacket::Message(OSCMessage::new("/b", vec![]))],
                }),
            ],
        })
    };
    let bytes = encode(&make()).unwrap();
    let (rest, decoded) = decode_udp(&bytes).unwrap();
    assert!(rest.is_empty());
    assert_eq!(decoded, make());
}

#[test]
fn test_decode_empty_is_error() {
    let err = decode_udp(&[]).unwrap_err();
    assert!(matches!(err, OSCError::BadPacket(_)));
}

#[test]
fn test_decode_bad_address_tag() {
    // a padded string that neither starts with '/' nor is "#bundle"
    let bytes = [b'x', b'y', b'z', 0];
    let err = decode_udp(&bytes).unwrap_err();
    assert!(matches!(err, OSCError::BadPacket(_)));
}

#[test]
fn test_decode_invalid_utf8_address() {
    let bytes = [0xFF, 0xFE, 0x00, 0x00];
    let err = decode_udp(&bytes).unwrap_err();
    assert_eq!(err, OSCError::StringError(vec![0xFF, 0xFE]));
}

#[test]
fn test_decode_unknown_type_tag() {
    let mut bytes = encode_string("/a");
    bytes.extend_from_slice(&encode_string(",q"));
    let err = decode_udp(&bytes).unwrap_err();
    assert!(matches!(err, OSCError::BadArg(_)));
}

#[test]
fn test_decode_tag_string_without_comma() {
    let mut bytes = encode_string("/a");
    bytes.extend_from_slice(&encode_string("if"));
    let err = decode_udp(&bytes).unwrap_err();
    assert!(matches!(err, OSCError::BadMessage(_)));
}

#[test]
fn test_decode_close_bracket_without_open() {
    let mut bytes = encode_string("/a");
    bytes.extend_from_slice(&encode_string(",]"));
    let err = decode_udp(&bytes).unwrap_err();
    assert!(matches!(err, OSCError::BadMessage(_)));
}

#[test]
fn test_decode_invalid_char_scalar() {
    let mut bytes = encode_string("/a");
    bytes.extend_from_slice(&encode_string(",c"));
    // 0xD800 is a surrogate, not a Unicode scalar value
    bytes.extend_from_slice(&[0x00, 0x00, 0xD8, 0x00]);
    let err = decode_udp(&bytes).unwrap_err();
    assert!(matches!(err, OSCError::BadArg(_)));
}

#[test]
fn test_decode_truncated_argument() {
    let mut bytes = encode_string("/a");
    bytes.extend_from_slice(&encode_string(",i"));
    bytes.extend_from_slice(&[0x00, 0x00]);
    let err = decode_udp(&bytes).unwrap_err();
    assert!(matches!(err, OSCError::BadPacket(_)));
}

#[test]
fn test_decode_bundle_element_shorter_than_declared() {
    let mut bytes = encode_string("#bundle");
    bytes.extend_from_slice(&[0, 0, 0, 0, 0, 0, 0, 0]); // time tag
    bytes.extend_from_slice(&[0, 0, 0, 100]); // element claims 100 bytes
    bytes.extend_from_slice(&[0, 0]); // but only two follow
    let err = decode_udp(&bytes).unwrap_err();
    assert!(matches!(err, OSCError::BadBundle(_)));
}

#[test]
fn test_decode_nested_array() {
    let make = || {
        OSCPacket::Message(OSCMessage::new(
            "/arr",
            vec![OSCType::Array(OSCArray {
                content: vec![OSCType::Int(7), OSCType::Int(8)],
            })],
        ))
    };
    let bytes = encode(&make()).unwrap();
    let (_, decoded) = decode_udp(&bytes).unwrap();
    assert_eq!(decoded, make());
}

#[test]
fn test_decode_tcp_incomplete_yields_none() {
    // a declared length far beyond what has arrived
    let bytes = [0x00, 0x00, 0x01, 0x00, b'/', b'a'];
    let (rest, packet) = decode_tcp(&bytes).unwrap();
    assert!(packet.is_none());
    assert_eq!(rest, &bytes[..]);
}

#[test]
fn test_decode_tcp_vec_two_packets() {
    let packet = OSCPacket::Message(OSCMessage::new("/p", vec![OSCType::Int(3)]));
    let one = encode(&packet).unwrap();
    let mut stream: Vec<u8> = Vec::new();
    stream.extend_from_slice(&(one.len() as u32).to_be_bytes());
    stream.extend_from_slice(&one);
    stream.extend_from_slice(&(one.len() as u32).to_be_bytes());
    stream.extend_from_slice(&one);
    let (rest, packets) = decode_tcp_vec(&stream).unwrap();
    assert!(rest.is_empty());
    assert_eq!(packets.len(), 2);
    assert_eq!(packets[0], OSCPacket::Message(OSCMessage::new("/p", vec![OSCType::Int(3)])));
    assert_eq!(packets[1], OSCPacket::Message(OSCMessage::new("/p", vec![OSCType::Int(3)])));
}

#[test]
fn test_encode_into_reports_length() {
    let packet = OSCPacket::Message(OSCMessage::new("/foo", vec![]));
    let mut out: Vec<u8> = Vec::new();
    let written = encode_into(&packet, &mut out);
    assert_eq!(written, 12);
    assert_eq!(out.len(), 12);
}

#[test]
fn test_message_accessors() {
    let msg = OSCMessage::new("/x", vec![OSCType::Int(1)]);
    assert!(msg.starts_with("/x"));
    assert!(msg.starts_with("/"));
    assert!(!msg.starts_with("/y"));
    let (addr, args) = msg.as_tuple();
    assert_eq!(addr, "/x");
    assert_eq!(args.len(), 1);

    let packet = OSCPacket::Message(msg);
    assert!(packet.message().is_some());
    let msg = packet.into_message().unwrap();
    assert_eq!(msg.addr, "/x");

    assert_eq!(OSCType::Int(4).int_value(), Some(4));
    assert_eq!(OSCType::Int(4).float(), None);
    assert_eq!(OSCType::Char('a').char(), Some('a'));
    assert_eq!(OSCType::Bool(true).bool(), Some(true));
    assert_eq!(
        OSCType::String("s".to_string()).string(),
        Some("s".to_string())
    );
    assert_eq!(OSCType::Time(OSCTime { seconds: 1, fractional: 2 }).time(),
        Some(OSCTime { seconds: 1, fractional: 2 }));
}

#[test]
fn test_blob_aligned_length_round_trip() {
    // a blob whose length is already a multiple of four gets no padding
    let make = || {
        OSCPacket::Message(OSCMessage::new(
            "/blob",
            vec![OSCType::Blob(vec![9, 8, 7, 6]), OSCType::Int(1)],
        ))
    };
    let bytes = encode(&make()).unwrap();
    let (rest, decoded) = decode_udp(&bytes).unwrap();
    assert!(rest.is_empty());
    assert_eq!(decoded, make());
}

#[test]
fn test_empty_bundle_round_trip() {
    let make = || {
        OSCPacket::Bundle(OSCBundle {
            timetag: OSCTime { seconds: 1, fractional: 0 },
            content: vec![],
        })
    };
    let bytes = encode(&make()).unwrap();
    let (rest, decoded) = decode_udp(&bytes).unwrap();
    assert!(rest.is_empty());
    assert_eq!(decoded, make());
}
