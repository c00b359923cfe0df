//! The version handshake.

use betanet::compatibility::{Feature, PacketFormat, TranslationContext};
use betanet::error::MixnodeError;
use betanet::framing::encode_frame;
use betanet::handshake::{Handshake, HandshakeAction, HandshakeEvent, HandshakeState};
use betanet::protocol_version::ProtocolVersion;

fn begin(h: &mut Handshake, ad: &[u8]) -> HandshakeAction {
    h.step(HandshakeEvent::Begin { advertisement: ad.to_vec() })
}

fn protocol_error(action: HandshakeAction) -> String {
    match action {
        HandshakeAction::Fail { error: MixnodeError::Protocol(reason) } => reason,
        _ => panic!("expected a protocol error"),
    }
}

/// Runs one side up to the confirmation and gives the byte it sends.
fn up_to_confirmation(ours: ProtocolVersion, theirs: ProtocolVersion) -> (Handshake, u8) {
    let mut h = Handshake::new(ours);
    match begin(&mut h, b"{}") {
        HandshakeAction::Send { bytes, then_read } => {
            assert_eq!(bytes, encode_frame(b"{}").unwrap());
            assert_eq!(then_read, 4);
        }
        _ => panic!("send"),
    }
    match h.step(HandshakeEvent::Length { bytes: vec![0, 0, 0, 17] }) {
        HandshakeAction::Read { count } => assert_eq!(count, 17),
        _ => panic!("read"),
    }
    assert_eq!(h.current_state(), HandshakeState::AwaitAdvertisement { length: 17 });
    match h.step(HandshakeEvent::Advertisement { version: Ok(theirs) }) {
        HandshakeAction::Send { bytes, then_read } => {
            assert_eq!(bytes.len(), 1);
            assert_eq!(then_read, 1);
            (h, bytes[0])
        }
        _ => panic!("send"),
    }
}

#[test]
fn newer_and_older_peer_agree_on_the_older_version() {
    let v1_2 = ProtocolVersion::new(1, 2, 0);
    let v1_1 = ProtocolVersion::new(1, 1, 0);
    let (mut a, byte_a) = up_to_confirmation(v1_2, v1_1);
    let (mut b, byte_b) = up_to_confirmation(v1_1, v1_2);
    assert_eq!(byte_a, 0x11);
    assert_eq!(byte_b, 0x11);
    assert_eq!(a.negotiated(), None);
    match a.step(HandshakeEvent::Confirmation { byte: byte_b }) {
        HandshakeAction::Done { negotiated } => assert_eq!(negotiated, v1_1),
        _ => panic!("done"),
    }
    match b.step(HandshakeEvent::Confirmation { byte: byte_a }) {
        HandshakeAction::Done { negotiated } => assert_eq!(negotiated, v1_1),
        _ => panic!("done"),
    }
    assert_eq!(a.negotiated(), Some(v1_1));
    assert_eq!(b.current_state(), HandshakeState::Ready { negotiated: v1_1 });

    // what follows the handshake: only batch processing, and packets in the 1.1 format
    let context = TranslationContext::new(v1_2, a.negotiated().unwrap());
    assert!(context.has_feature(Feature::BatchProcessing));
    assert!(!context.has_feature(Feature::RelayLottery));
    assert!(!context.has_feature(Feature::VrfDelays));
    assert!(!context.has_feature(Feature::CoverTraffic));
    assert!(!context.has_feature(Feature::EnhancedSphinx));
    let adapter = context.get_adapter().unwrap();
    assert_eq!(adapter.source_format(), PacketFormat::V1_2);
    assert_eq!(adapter.target_format(), PacketFormat::V1_1);
}

#[test]
fn differing_majors_abort() {
    let mut h = Handshake::new(ProtocolVersion::new(1, 2, 0));
    begin(&mut h, b"ad");
    h.step(HandshakeEvent::Length { bytes: vec![0, 0, 0, 2] });
    let reason = protocol_error(
        h.step(HandshakeEvent::Advertisement { version: Ok(ProtocolVersion::new(2, 0, 0)) }),
    );
    assert_eq!(reason, "Incompatible protocol versions: ours=1.2.0, theirs=2.0.0");
    assert_eq!(h.current_state(), HandshakeState::Aborted);
    assert_eq!(h.negotiated(), None);
}

#[test]
fn oversized_advertisements_abort() {
    let mut h = Handshake::new(ProtocolVersion::v1_2_0());
    begin(&mut h, b"ad");
    // 4097
    let reason = protocol_error(h.step(HandshakeEvent::Length { bytes: vec![0, 0, 0x10, 0x01] }));
    assert_eq!(reason, "Advertisement too large");
    assert_eq!(h.current_state(), HandshakeState::Aborted);

    let mut h = Handshake::new(ProtocolVersion::v1_2_0());
    begin(&mut h, b"ad");
    match h.step(HandshakeEvent::Length { bytes: vec![0, 0, 0x10, 0x00] }) {
        HandshakeAction::Read { count } => assert_eq!(count, 4096),
        _ => panic!("4096 bytes are accepted"),
    }

    let mut h = Handshake::new(ProtocolVersion::v1_2_0());
    assert_eq!(protocol_error(begin(&mut h, &vec![0u8; 4097])), "Advertisement too large");
    let mut h = Handshake::new(ProtocolVersion::v1_2_0());
    assert!(matches!(begin(&mut h, &vec![0u8; 4096]), HandshakeAction::Send { .. }));
}

#[test]
fn malformed_input_aborts() {
    let mut h = Handshake::new(ProtocolVersion::v1_2_0());
    begin(&mut h, b"ad");
    assert_eq!(
        protocol_error(h.step(HandshakeEvent::Length { bytes: vec![0, 0, 1] })),
        "Malformed length prefix"
    );

    let mut h = Handshake::new(ProtocolVersion::v1_2_0());
    begin(&mut h, b"ad");
    h.step(HandshakeEvent::Length { bytes: vec![0, 0, 0, 1] });
    assert_eq!(
        protocol_error(h.step(HandshakeEvent::Advertisement { version: Err("bad json".into()) })),
        "Failed to decode peer advertisement: bad json"
    );
}

#[test]
fn confirmation_must_name_our_choice() {
    let (mut h, byte) = up_to_confirmation(ProtocolVersion::v1_2_0(), ProtocolVersion::v1_2_0());
    assert_eq!(byte, 0x12);
    assert_eq!(
        protocol_error(h.step(HandshakeEvent::Confirmation { byte: 0x11 })),
        "Version negotiation mismatch: we agreed on 1.2.0, they agreed on 1.1.0"
    );
    assert_eq!(h.current_state(), HandshakeState::Aborted);

    let (mut h, _) = up_to_confirmation(ProtocolVersion::v1_2_0(), ProtocolVersion::v1_2_0());
    assert_eq!(
        protocol_error(h.step(HandshakeEvent::Confirmation { byte: 0xFF })),
        "Invalid version byte: 255"
    );
}

#[test]
fn events_out_of_order_abort_and_aborted_stays_aborted() {
    let mut h = Handshake::new(ProtocolVersion::v1_2_0());
    assert_eq!(
        protocol_error(h.step(HandshakeEvent::Confirmation { byte: 0x12 })),
        "Unexpected handshake event"
    );
    assert_eq!(h.current_state(), HandshakeState::Aborted);
    assert_eq!(protocol_error(begin(&mut h, b"ad")), "Unexpected handshake event");
    assert_eq!(h.current_state(), HandshakeState::Aborted);

    let (mut h, byte) = up_to_confirmation(ProtocolVersion::v1_1_0(), ProtocolVersion::v1_1_0());
    assert!(matches!(h.step(HandshakeEvent::Confirmation { byte }), HandshakeAction::Done { .. }));
    // a finished handshake takes no further event
    assert_eq!(
        protocol_error(h.step(HandshakeEvent::Confirmation { byte })),
        "Unexpected handshake event"
    );
    assert_eq!(h.negotiated(), None);
}

#[test]
fn a_patch_level_cannot_be_confirmed_over_the_wire() {
    // both sides at 1.2.3 choose 1.2.3, but the byte only carries 1.2.0
    let v = ProtocolVersion::new(1, 2, 3);
    let (mut h, byte) = up_to_confirmation(v, v);
    assert_eq!(byte, 0x12);
    assert_eq!(
        protocol_error(h.step(HandshakeEvent::Confirmation { byte })),
        "Version negotiation mismatch: we agreed on 1.2.3, they agreed on 1.2.0"
    );
}
