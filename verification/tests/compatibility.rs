//! Packet formats, adapters and migration steps.

use betanet::compatibility::{
    Feature, MigrationHelper, PacketAdapter, PacketFormat, TranslationContext,
};
use betanet::protocol_version::ProtocolVersion;

#[test]
fn test_packet_format_conversion() {
    assert!(PacketFormat::V1_2.can_convert_to(&PacketFormat::V1_1));
    assert!(PacketFormat::V1_2.can_convert_to(&PacketFormat::V1_0));
    assert!(PacketFormat::V1_1.can_convert_to(&PacketFormat::V1_0));
    assert!(!PacketFormat::V1_0.can_convert_to(&PacketFormat::V1_1));
}

#[test]
fn compatibility_test_translation_context() {
    let ctx = TranslationContext::new(ProtocolVersion::v1_2_0(), ProtocolVersion::v1_1_0());

    // v1.1 doesn't have relay lottery
    assert!(!ctx.has_feature(Feature::RelayLottery));
    // v1.1 has batch processing
    assert!(ctx.has_feature(Feature::BatchProcessing));
}

#[test]
fn test_migration_helper() {
    let helper = MigrationHelper::new(ProtocolVersion::new(1, 0, 0), ProtocolVersion::new(1, 2, 0));

    assert!(helper.needs_migration());
    assert!(helper.is_supported());
    assert!(!helper.get_steps().is_empty());
}

#[test]
fn test_packet_adapter_v1_1_to_v1_0() {
    let adapter = PacketAdapter::new(PacketFormat::V1_1, PacketFormat::V1_0).unwrap();

    // Create mock v1.1 packet: [length:4][batch_info:2][payload]
    let v1_1_packet = vec![
        0, 0, 0, 10, // length = 10
        0, 5, // batch info
        1, 2, 3, 4, 5, 6, 7, 8, // payload (8 bytes)
    ];

    let v1_0_packet = adapter.convert(&v1_1_packet).unwrap();

    // v1.0 should have length=8 and payload only
    assert_eq!(v1_0_packet.len(), 12); // 4 bytes length + 8 bytes payload
    assert_eq!(&v1_0_packet[4..], &[1, 2, 3, 4, 5, 6, 7, 8]);
}

#[test]
fn downshift_v1_1_rewrites_the_length_prefix() {
    let adapter = PacketAdapter::new(PacketFormat::V1_1, PacketFormat::V1_0).unwrap();
    let packet = vec![0, 0, 0, 10, 0, 5, 1, 2, 3, 4, 5, 6, 7, 8];
    assert_eq!(adapter.convert(&packet).unwrap(), vec![0, 0, 0, 8, 1, 2, 3, 4, 5, 6, 7, 8]);
}

#[test]
fn downshift_v1_1_with_empty_payload() {
    let adapter = PacketAdapter::new(PacketFormat::V1_1, PacketFormat::V1_0).unwrap();
    assert_eq!(adapter.convert(&[0, 0, 0, 2, 9, 9]).unwrap(), vec![0, 0, 0, 0]);
}

#[test]
fn downshift_v1_1_of_a_long_payload_uses_all_prefix_bytes() {
    let adapter = PacketAdapter::new(PacketFormat::V1_1, PacketFormat::V1_0).unwrap();
    let mut packet = vec![0u8, 0, 0, 0, 0xAA, 0xBB];
    let payload: Vec<u8> = (0..70_000u32).map(|i| (i % 251) as u8).collect();
    packet.extend_from_slice(&payload);
    let out = adapter.convert(&packet).unwrap();
    // 70_000 = 0x00011170
    assert_eq!(&out[..4], &[0x00, 0x01, 0x11, 0x70]);
    assert_eq!(&out[4..], &payload[..]);
}

#[test]
fn downshift_v1_1_rejects_short_packets() {
    let adapter = PacketAdapter::new(PacketFormat::V1_1, PacketFormat::V1_0).unwrap();
    for len in 0..6usize {
        let packet = vec![0u8; len];
        assert_eq!(adapter.convert(&packet).unwrap_err(), "Packet too small for v1.1 format");
    }
}

#[test]
fn downshift_v1_2_to_v1_1_drops_the_last_forty_bytes() {
    let adapter = PacketAdapter::new(PacketFormat::V1_2, PacketFormat::V1_1).unwrap();
    let packet: Vec<u8> = (0..50u8).collect();
    assert_eq!(adapter.convert(&packet).unwrap(), (0..10u8).collect::<Vec<u8>>());
    let smallest: Vec<u8> = (0..44u8).collect();
    assert_eq!(adapter.convert(&smallest).unwrap(), vec![0, 1, 2, 3]);
    let short = vec![0u8; 43];
    assert_eq!(adapter.convert(&short).unwrap_err(), "Packet too small for v1.2 format");
}

#[test]
fn downshift_v1_2_to_v1_0_composes_both_steps() {
    let adapter = PacketAdapter::new(PacketFormat::V1_2, PacketFormat::V1_0).unwrap();
    let mut packet = vec![0, 0, 0, 5, 7, 7, 1, 2, 3];
    packet.extend_from_slice(&[0xEE; 40]);
    assert_eq!(adapter.convert(&packet).unwrap(), vec![0, 0, 0, 3, 1, 2, 3]);
    // 44 bytes leave 4 after the trailer is gone: too small for the next step
    assert_eq!(adapter.convert(&[0u8; 44]).unwrap_err(), "Packet too small for v1.1 format");
    assert_eq!(adapter.convert(&[0u8; 10]).unwrap_err(), "Packet too small for v1.2 format");
}

#[test]
fn same_format_is_the_identity() {
    for format in [PacketFormat::V1_0, PacketFormat::V1_1, PacketFormat::V1_2] {
        let adapter = PacketAdapter::new(format, format).unwrap();
        assert_eq!(adapter.source_format(), format);
        assert_eq!(adapter.target_format(), format);
        assert_eq!(adapter.convert(&[1, 2, 3]).unwrap(), vec![1, 2, 3]);
        assert_eq!(adapter.convert(&[]).unwrap(), Vec::<u8>::new());
    }
}

#[test]
fn upshift_is_refused_with_a_message() {
    let err = PacketAdapter::new(PacketFormat::V1_0, PacketFormat::V1_2).unwrap_err();
    assert_eq!(err, "Cannot convert from V1_0 to V1_2");
    let err = PacketAdapter::new(PacketFormat::V1_1, PacketFormat::V1_2).unwrap_err();
    assert_eq!(err, "Cannot convert from V1_1 to V1_2");
    assert!(PacketAdapter::new(PacketFormat::V1_0, PacketFormat::V1_1).is_err());
}

#[test]
fn strip_functions_can_be_called_directly() {
    let adapter = PacketAdapter::new(PacketFormat::V1_2, PacketFormat::V1_0).unwrap();
    assert_eq!(adapter.strip_v1_1_to_v1_0(&[0, 0, 0, 3, 1, 1, 9]).unwrap(), vec![0, 0, 0, 1, 9]);
    let mut packet = vec![5u8; 4];
    packet.extend_from_slice(&[0u8; 40]);
    assert_eq!(adapter.strip_v1_2_to_v1_1(&packet).unwrap(), vec![5u8; 4]);
    assert!(adapter.strip_v1_2_to_v1_0(&packet).is_err());
}

#[test]
fn adapter_of_a_context_follows_the_versions() {
    let down = TranslationContext::new(ProtocolVersion::v1_2_0(), ProtocolVersion::v1_1_0());
    let adapter = down.get_adapter().unwrap();
    assert_eq!(adapter.source_format(), PacketFormat::V1_2);
    assert_eq!(adapter.target_format(), PacketFormat::V1_1);
    let up = TranslationContext::new(ProtocolVersion::v1_1_0(), ProtocolVersion::v1_2_0());
    assert_eq!(up.get_adapter().unwrap_err(), "Cannot convert from V1_1 to V1_2");
    assert!(!up.has_feature(Feature::VrfDelays));
    assert!(!up.has_feature(Feature::CoverTraffic));
    assert!(!up.has_feature(Feature::EnhancedSphinx));
    assert!(up.has_feature(Feature::BatchProcessing));
}

#[test]
fn migration_steps_by_pair_of_versions() {
    let from_1_0 = MigrationHelper::new(ProtocolVersion::new(1, 0, 0), ProtocolVersion::new(1, 2, 0));
    let steps = from_1_0.get_steps();
    assert_eq!(steps.len(), 6);
    assert_eq!(steps[0], "1. Enable batch processing (v1.1 feature)");
    assert_eq!(steps[5], "6. Enable cover traffic generation");
    assert_eq!(
        from_1_0.get_deprecation_warnings(),
        vec!["Warning: Simple delay mechanisms deprecated in v1.2, use VRF delays instead"]
    );

    let from_1_1 = MigrationHelper::new(ProtocolVersion::new(1, 1, 0), ProtocolVersion::new(1, 2, 0));
    let steps = from_1_1.get_steps();
    assert_eq!(steps.len(), 4);
    assert_eq!(steps[0], "1. Enable relay lottery (v1.2 feature)");
    assert_eq!(steps[3], "4. Enable cover traffic generation");

    let same = MigrationHelper::new(ProtocolVersion::v1_2_0(), ProtocolVersion::v1_2_0());
    assert!(!same.needs_migration());
    assert!(same.get_steps().is_empty());
    assert!(same.get_deprecation_warnings().is_empty());

    let other = MigrationHelper::new(ProtocolVersion::new(1, 0, 0), ProtocolVersion::new(2, 0, 0));
    assert!(other.needs_migration());
    assert!(!other.is_supported());
    assert!(other.get_steps().is_empty());
}
