//! Versions, their wire byte and the negotiation rule.

use betanet::protocol_version::{
    negotiate_version, FeatureFlags, NegotiationResult, ProtocolAdvertisement,
    ProtocolCapability, ProtocolVersion,
};

#[test]
fn test_version_encoding() {
    let v1_2 = ProtocolVersion::v1_2_0();
    assert_eq!(v1_2.encode_byte(), 0x12);

    let decoded = ProtocolVersion::decode_byte(0x12);
    assert_eq!(decoded, Some(ProtocolVersion::new(1, 2, 0)));
}

#[test]
fn test_version_compatibility() {
    let v1_2 = ProtocolVersion::v1_2_0();
    let v1_1 = ProtocolVersion::v1_1_0();

    // v1.2 can talk to v1.1 (backward compatible)
    assert!(v1_2.is_compatible_with(&v1_1));

    // v1.1 cannot talk to v1.2 (missing features)
    assert!(!v1_1.is_compatible_with(&v1_2));
}

#[test]
fn test_protocol_id() {
    let v1_2 = ProtocolVersion::v1_2_0();
    assert_eq!(v1_2.to_protocol_id(), "/betanet/mix/1.2.0");
}

#[test]
fn test_negotiation() {
    let v1_2 = ProtocolVersion::v1_2_0();
    let v1_1 = ProtocolVersion::v1_1_0();

    match negotiate_version(v1_2, v1_1) {
        NegotiationResult::Compatible(version) => {
            assert_eq!(version, v1_1); // Should use lower version
        }
        _ => panic!("Expected compatible versions"),
    }
}

#[test]
fn asymmetric_compatibility_on_three_versions() {
    let v1_2 = ProtocolVersion::new(1, 2, 0);
    let v1_1 = ProtocolVersion::new(1, 1, 0);
    let v2_0 = ProtocolVersion::new(2, 0, 0);
    assert!(v1_2.is_compatible_with(&v1_1));
    assert!(!v1_1.is_compatible_with(&v1_2));
    assert!(!v1_2.is_compatible_with(&v2_0));
    assert!(!v2_0.is_compatible_with(&v1_2));
    assert!(v1_2.is_compatible_with(&v1_2));
}

#[test]
fn byte_round_trip_for_every_minor() {
    for minor in 0u8..16 {
        let v = ProtocolVersion::new(1, minor, 0);
        let byte = v.encode_byte();
        assert_eq!(byte, 0x10 + minor);
        assert_eq!(ProtocolVersion::decode_byte(byte), Some(v));
    }
}

#[test]
fn every_byte_decodes_as_documented() {
    for byte in 0u8..=255 {
        let decoded = ProtocolVersion::decode_byte(byte);
        if byte >= 0x10 && byte <= 0x1F {
            assert_eq!(decoded, Some(ProtocolVersion::new(1, byte - 0x10, 0)));
        } else {
            assert_eq!(decoded, None);
        }
    }
}

#[test]
fn unknown_major_encodes_as_ff() {
    assert_eq!(ProtocolVersion::new(2, 0, 0).encode_byte(), 0xFF);
    assert_eq!(ProtocolVersion::new(0, 3, 1).encode_byte(), 0xFF);
    assert_eq!(ProtocolVersion::decode_byte(0xFF), None);
}

#[test]
fn encode_keeps_the_low_four_bits_of_minor() {
    assert_eq!(ProtocolVersion::new(1, 0x23, 0).encode_byte(), 0x13);
    assert_eq!(ProtocolVersion::new(1, 15, 9).encode_byte(), 0x1F);
}

#[test]
fn semver_order_decides_by_major_then_minor_then_patch() {
    let a = ProtocolVersion::new(1, 2, 3);
    assert!(a.is_older_than(&ProtocolVersion::new(2, 0, 0)));
    assert!(a.is_older_than(&ProtocolVersion::new(1, 3, 0)));
    assert!(a.is_older_than(&ProtocolVersion::new(1, 2, 4)));
    assert!(!a.is_older_than(&a));
    assert!(!a.is_older_than(&ProtocolVersion::new(1, 2, 2)));
    assert!(!a.is_older_than(&ProtocolVersion::new(0, 9, 9)));
    assert!(a < ProtocolVersion::new(1, 2, 4));
}

#[test]
fn protocol_id_and_text_of_multi_digit_versions() {
    let v = ProtocolVersion::new(10, 255, 7);
    assert_eq!(v.to_protocol_id(), "/betanet/mix/10.255.7");
    assert_eq!(v.to_text(), "10.255.7");
    assert_eq!(ProtocolVersion::new(0, 0, 0).to_text(), "0.0.0");
    assert_eq!(ProtocolVersion::default(), ProtocolVersion::v1_2_0());
}

#[test]
fn negotiation_takes_the_lower_patch_within_one_minor() {
    let ours = ProtocolVersion::new(1, 2, 1);
    let theirs = ProtocolVersion::new(1, 2, 5);
    match negotiate_version(ours, theirs) {
        NegotiationResult::Compatible(v) => assert_eq!(v, ours),
        _ => panic!("same minor is compatible"),
    }
    match negotiate_version(theirs, ours) {
        NegotiationResult::Compatible(v) => assert_eq!(v, ours),
        _ => panic!("same minor is compatible"),
    }
}

#[test]
fn negotiation_refusal_names_both_versions() {
    let ours = ProtocolVersion::new(1, 1, 0);
    let theirs = ProtocolVersion::new(2, 1, 0);
    match negotiate_version(ours, theirs) {
        NegotiationResult::Incompatible { our_version, their_version } => {
            assert_eq!(our_version, ours);
            assert_eq!(their_version, theirs);
        }
        _ => panic!("different major versions cannot talk"),
    }
    match negotiate_version(theirs, ours) {
        NegotiationResult::Incompatible { our_version, their_version } => {
            assert_eq!(our_version, theirs);
            assert_eq!(their_version, ours);
        }
        _ => panic!("different major versions cannot talk"),
    }
}

#[test]
fn negotiation_gives_both_sides_the_same_version() {
    let versions = [
        ProtocolVersion::new(1, 0, 0),
        ProtocolVersion::new(1, 1, 0),
        ProtocolVersion::new(1, 2, 0),
        ProtocolVersion::new(1, 2, 3),
        ProtocolVersion::new(1, 15, 0),
    ];
    for a in versions {
        for b in versions {
            let lower = if a < b { a } else { b };
            match (negotiate_version(a, b), negotiate_version(b, a)) {
                (NegotiationResult::Compatible(x), NegotiationResult::Compatible(y)) => {
                    assert_eq!(x, lower);
                    assert_eq!(y, lower);
                }
                _ => panic!("one major version always negotiates"),
            }
        }
    }
}

#[test]
fn features_by_version() {
    assert_eq!(FeatureFlags::for_version(&ProtocolVersion::new(1, 0, 0)), FeatureFlags::v1_0_0());
    assert_eq!(FeatureFlags::for_version(&ProtocolVersion::new(1, 1, 0)), FeatureFlags::v1_1_0());
    assert_eq!(FeatureFlags::for_version(&ProtocolVersion::new(1, 2, 7)), FeatureFlags::v1_2_0());
    assert_eq!(FeatureFlags::for_version(&ProtocolVersion::new(1, 3, 0)), FeatureFlags::v1_0_0());
    assert_eq!(FeatureFlags::for_version(&ProtocolVersion::new(2, 2, 0)), FeatureFlags::v1_0_0());
    assert_eq!(FeatureFlags::default(), FeatureFlags::v1_2_0());
}

#[test]
fn advertisement_carries_version_features_and_the_privacy_hop() {
    let ad = ProtocolAdvertisement::new(ProtocolVersion::v1_1_0(), "node-7".to_string());
    assert_eq!(ad.version, ProtocolVersion::v1_1_0());
    assert_eq!(ad.features, FeatureFlags::v1_1_0());
    assert_eq!(ad.node_id, "node-7");
    assert_eq!(ad.capabilities, vec![ProtocolCapability::l4_privacy_hop()]);
    assert_eq!(ad.capabilities[0].layer, "l4");
    assert_eq!(ad.capabilities[0].version, ProtocolVersion::v1_2_0());
    let other = ProtocolCapability::new("l2", ProtocolVersion::new(1, 0, 0));
    assert_eq!(other.layer, "l2");
    assert_eq!(other.version, ProtocolVersion::new(1, 0, 0));
}

#[test]
fn test_protocol_version_real_world_scenario() {
    // Node v1.2.0 connects to a mixed network
    let our_version = ProtocolVersion::v1_2_0();

    // An older v1.1.0 node: negotiate down to v1.1.0
    let peer_v1_1 = ProtocolVersion::v1_1_0();
    match negotiate_version(our_version, peer_v1_1) {
        NegotiationResult::Compatible(negotiated) => {
            assert_eq!(negotiated, peer_v1_1, "Should negotiate down to v1.1.0");
        }
        _ => panic!("Expected compatible negotiation with v1.1.0"),
    }

    // A node of the same version
    let peer_v1_2 = ProtocolVersion::v1_2_0();
    match negotiate_version(our_version, peer_v1_2) {
        NegotiationResult::Compatible(negotiated) => {
            assert_eq!(negotiated, peer_v1_2, "Should use v1.2.0");
        }
        _ => panic!("Expected compatible negotiation with v1.2.0"),
    }

    // Protocol ID format
    let protocol_id = our_version.to_protocol_id();
    assert_eq!(protocol_id, "/betanet/mix/1.2.0", "Protocol ID format incorrect");

    // Byte encoding roundtrip
    let encoded = our_version.encode_byte();
    assert_eq!(encoded, 0x12, "Version encoding incorrect");
    let decoded = ProtocolVersion::decode_byte(encoded);
    assert_eq!(decoded, Some(our_version), "Version decoding failed");
}
