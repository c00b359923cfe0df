//! Length-prefixed frames.

use betanet::error::MixnodeError;
use betanet::framing::{drain_frames, encode_frame, next_frame, FrameStep, MAX_PACKET_SIZE};
use betanet::wire::{copy_range, push_be32, push_be64, read_be32, read_be64};

#[test]
fn frame_is_length_then_payload() {
    assert_eq!(encode_frame(&[1, 2, 3]).unwrap(), vec![0, 0, 0, 3, 1, 2, 3]);
    assert_eq!(encode_frame(&[]).unwrap(), vec![0, 0, 0, 0]);
    let long = vec![7u8; 0x0102_03];
    let frame = encode_frame(&long).unwrap();
    assert_eq!(&frame[..4], &[0x00, 0x01, 0x02, 0x03]);
    assert_eq!(&frame[4..], &long[..]);
}

#[test]
fn a_packet_of_1200_bytes_makes_a_frame_of_1204() {
    let packet = vec![0xABu8; 1200];
    let frame = encode_frame(&packet).unwrap();
    assert_eq!(frame.len(), 1204);
    assert!(frame.len() >= 4);
    match next_frame(&frame, MAX_PACKET_SIZE) {
        FrameStep::Frame { payload, consumed } => {
            assert_eq!(payload, packet);
            assert_eq!(consumed, 1204);
        }
        _ => panic!("a whole frame"),
    }
}

#[test]
fn next_frame_waits_for_the_whole_frame() {
    assert!(matches!(next_frame(&[], 100), FrameStep::Incomplete));
    assert!(matches!(next_frame(&[0, 0, 0], 100), FrameStep::Incomplete));
    assert!(matches!(next_frame(&[0, 0, 0, 2, 9], 100), FrameStep::Incomplete));
    match next_frame(&[0, 0, 0, 2, 9, 8, 7], 100) {
        FrameStep::Frame { payload, consumed } => {
            assert_eq!(payload, vec![9, 8]);
            assert_eq!(consumed, 6);
        }
        _ => panic!("a whole frame"),
    }
    match next_frame(&[0, 0, 0, 0], 0) {
        FrameStep::Frame { payload, consumed } => {
            assert!(payload.is_empty());
            assert_eq!(consumed, 4);
        }
        _ => panic!("an empty frame"),
    }
}

#[test]
fn next_frame_refuses_what_is_over_the_limit() {
    match next_frame(&[0, 0, 1, 1], 256) {
        FrameStep::TooLarge { length } => assert_eq!(length, 257),
        _ => panic!("too large"),
    }
    assert!(matches!(next_frame(&[0, 0, 1, 0], 256), FrameStep::Incomplete));
    match next_frame(&[0xFF, 0xFF, 0xFF, 0xFF, 1, 2], 2048) {
        FrameStep::TooLarge { length } => assert_eq!(length, 0xFFFF_FFFF),
        _ => panic!("too large"),
    }
}

#[test]
fn drain_takes_whole_frames_and_leaves_the_rest() {
    let mut buffer = Vec::new();
    buffer.extend(encode_frame(&[1]).unwrap());
    buffer.extend(encode_frame(&[]).unwrap());
    buffer.extend(encode_frame(&[2, 3]).unwrap());
    buffer.extend([0, 0, 0, 9, 4]);
    let frames = drain_frames(&mut buffer, 100);
    assert_eq!(frames, vec![vec![1], vec![], vec![2, 3]]);
    assert_eq!(buffer, vec![0, 0, 0, 9, 4]);
    // nothing more until more bytes come in
    assert!(drain_frames(&mut buffer, 100).is_empty());
    assert_eq!(buffer, vec![0, 0, 0, 9, 4]);
    buffer.extend([5, 6, 7, 8, 9, 10, 11, 12]);
    assert_eq!(drain_frames(&mut buffer, 100), vec![vec![4, 5, 6, 7, 8, 9, 10, 11, 12]]);
    assert!(buffer.is_empty());
}

#[test]
fn drain_stops_at_a_frame_that_is_too_large() {
    let mut buffer = encode_frame(&[1, 2]).unwrap();
    buffer.extend([0, 0, 0, 200, 1, 2, 3]);
    let frames = drain_frames(&mut buffer, 100);
    assert_eq!(frames, vec![vec![1, 2]]);
    assert_eq!(buffer, vec![0, 0, 0, 200, 1, 2, 3]);
    assert!(matches!(next_frame(&buffer, 100), FrameStep::TooLarge { length: 200 }));
}

#[test]
fn frames_survive_any_split_of_the_stream() {
    let payloads: Vec<Vec<u8>> = (0..20u8).map(|i| vec![i; (i as usize * 7) % 31]).collect();
    let mut stream = Vec::new();
    for p in &payloads {
        stream.extend(encode_frame(p).unwrap());
    }
    for chunk in [1usize, 2, 3, 5, 8, 13, 64, 1000] {
        let mut buffer = Vec::new();
        let mut got = Vec::new();
        for piece in stream.chunks(chunk) {
            buffer.extend_from_slice(piece);
            got.extend(drain_frames(&mut buffer, 64));
        }
        assert_eq!(got, payloads);
        assert!(buffer.is_empty());
    }
}

#[test]
fn big_endian_numbers() {
    let mut out = vec![9];
    push_be32(&mut out, 0x0102_0304);
    push_be64(&mut out, 0x1112_1314_1516_1718);
    assert_eq!(out, vec![9, 1, 2, 3, 4, 0x11, 0x12, 0x13, 0x14, 0x15, 0x16, 0x17, 0x18]);
    assert_eq!(read_be32(&out[1..]), 0x0102_0304);
    assert_eq!(read_be64(&out[5..]), 0x1112_1314_1516_1718);
    assert_eq!(read_be32(&[0xFF; 4]), u32::MAX);
    assert_eq!(read_be64(&[0xFF; 9]), u64::MAX);
    assert_eq!(copy_range(&out, 1, 5), vec![1, 2, 3, 4]);
    assert_eq!(copy_range(&out, 3, 3), Vec::<u8>::new());
}

#[test]
fn error_messages_name_their_kind() {
    assert_eq!(MixnodeError::Io("a".into()).message(), "IO error: a");
    assert_eq!(MixnodeError::Crypto("b".into()).message(), "Crypto error: b");
    assert_eq!(MixnodeError::Packet("c".into()).message(), "Packet error: c");
    assert_eq!(MixnodeError::Routing("d".into()).message(), "Routing error: d");
    assert_eq!(MixnodeError::Config("e".into()).message(), "Configuration error: e");
    assert_eq!(MixnodeError::Network("f".into()).message(), "Network error: f");
    assert_eq!(MixnodeError::Vrf("g".into()).message(), "VRF error: g");
    assert_eq!(MixnodeError::Protocol("h".into()).message(), "Protocol error: h");
}
