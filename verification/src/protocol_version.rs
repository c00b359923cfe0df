//! Semantic protocol versions, their one-byte wire form, feature flags and
//! the version negotiation rule.

use crate::text::{decimal, decimal_string};
use vstd::prelude::*;

verus! {

/// A protocol version `major.minor.patch`.
///
/// Two nodes can talk when their majors agree and the speaker's minor is at
/// least the listener's: a newer node understands an older one, never the
/// other way round.
#[derive(Debug, Clone, Copy, PartialEq, Eq, PartialOrd, Ord, Hash, Structural)]
pub struct ProtocolVersion {
    /// Breaking changes.
    pub major: u8,
    /// Backward compatible features.
    pub minor: u8,
    /// Fixes without a protocol change.
    pub patch: u8,
}

/// The version that a wire byte stands for, if any: `0x1M` is `1.M.0`.
pub open spec fn decoded_version(byte: u8) -> Option<ProtocolVersion> {
    if byte / 16 == 1 {
        Some(ProtocolVersion { major: 1, minor: byte % 16, patch: 0 })
    } else {
        None
    }
}

impl ProtocolVersion {
    /// The current protocol version, 1.2.0.
    pub fn v1_2_0() -> (v: ProtocolVersion)
        ensures
            v == (ProtocolVersion { major: 1, minor: 2, patch: 0 }),
    {
        ProtocolVersion { major: 1, minor: 2, patch: 0 }
    }

    /// The previous protocol version, 1.1.0.
    pub fn v1_1_0() -> (v: ProtocolVersion)
        ensures
            v == (ProtocolVersion { major: 1, minor: 1, patch: 0 }),
    {
        ProtocolVersion { major: 1, minor: 1, patch: 0 }
    }

    /// The version `major.minor.patch`.
    pub fn new(major: u8, minor: u8, patch: u8) -> (v: ProtocolVersion)
        ensures
            v == (ProtocolVersion { major, minor, patch }),
    {
        ProtocolVersion { major, minor, patch }
    }

    /// `self` can talk to `other`.
    pub open spec fn compatible(self, other: ProtocolVersion) -> bool {
        self.major == other.major && self.minor >= other.minor
    }

    /// Semver order: by major, then minor, then patch.
    pub open spec fn precedes(self, other: ProtocolVersion) -> bool {
        self.major < other.major || (self.major == other.major && (self.minor < other.minor || (
        self.minor == other.minor && self.patch < other.patch)))
    }

    /// The smaller of two versions in semver order (`other` when they are equal).
    pub open spec fn lower_of(self, other: ProtocolVersion) -> ProtocolVersion {
        if self.precedes(other) {
            self
        } else {
            other
        }
    }

    /// The wire byte: `0x10 + (minor mod 16)` for major 1, `0xFF` for any other major.
    pub open spec fn encoded(self) -> u8 {
        if self.major == 1 {
            (16 + self.minor % 16) as u8
        } else {
            0xFFu8
        }
    }

    /// A version that the wire byte carries without loss: `1.m.0` with `m < 16`.
    pub open spec fn byte_encodable(self) -> bool {
        self.major == 1 && self.minor < 16 && self.patch == 0
    }

    /// Whether this version can talk to `other`: same major, and a minor at
    /// least as high.
    pub fn is_compatible_with(&self, other: &ProtocolVersion) -> (ok: bool)
        ensures
            ok == self.compatible(*other),
    {
        if self.major != other.major {
            return false;
        }
        self.minor >= other.minor
    }

    /// Strictly older than `other` in semver order.
    pub fn is_older_than(&self, other: &ProtocolVersion) -> (older: bool)
        ensures
            older == self.precedes(*other),
    {
        if self.major != other.major {
            self.major < other.major
        } else if self.minor != other.minor {
            self.minor < other.minor
        } else {
            self.patch < other.patch
        }
    }

    /// The wire byte of the version.
    pub fn encode_byte(&self) -> (byte: u8)
        ensures
            byte == self.encoded(),
    {
        if self.major == 1 {
            let minor = self.minor;
            assert(0x10u8 | (minor & 0x0Fu8) == (16 + minor % 16) as u8) by (bit_vector);
            0x10 | (minor & 0x0F)
        } else {
            0xFF
        }
    }

    /// The protocol identifier `/betanet/mix/<major>.<minor>.<patch>`.
    pub open spec fn protocol_id(self) -> Seq<char> {
        "/betanet/mix/"@ + decimal(self.major as nat) + "."@ + decimal(self.minor as nat) + "."@
            + decimal(self.patch as nat)
    }

    /// The dotted form `<major>.<minor>.<patch>`.
    pub open spec fn dotted(self) -> Seq<char> {
        decimal(self.major as nat) + "."@ + decimal(self.minor as nat) + "."@ + decimal(
            self.patch as nat,
        )
    }

    /// The protocol identifier of the version.
    pub fn to_protocol_id(&self) -> (id: String)
        ensures
            id@ == self.protocol_id(),
    {
        let mut id = String::from_str("/betanet/mix/");
        id.append(decimal_string(self.major as u64).as_str());
        id.append(".");
        id.append(decimal_string(self.minor as u64).as_str());
        id.append(".");
        id.append(decimal_string(self.patch as u64).as_str());
        id
    }

    /// The version as text, `<major>.<minor>.<patch>`.
    pub fn to_text(&self) -> (text: String)
        ensures
            text@ == self.dotted(),
    {
        let mut text = decimal_string(self.major as u64);
        text.append(".");
        text.append(decimal_string(self.minor as u64).as_str());
        text.append(".");
        text.append(decimal_string(self.patch as u64).as_str());
        text
    }

    /// The version that a wire byte stands for.
    pub fn decode_byte(byte: u8) -> (version: Option<ProtocolVersion>)
        ensures
            version == decoded_version(byte),
    {
        assert((byte & 0xF0u8 == 0x10u8) == (byte / 16 == 1)) by (bit_vector);
        if byte & 0xF0 == 0x10 {
            assert(byte & 0x0Fu8 == byte % 16) by (bit_vector);
            let minor = byte & 0x0F;
            Some(ProtocolVersion::new(1, minor, 0))
        } else {
            None
        }
    }
}

impl Default for ProtocolVersion {
    fn default() -> (v: ProtocolVersion)
        ensures
            v == (ProtocolVersion { major: 1, minor: 2, patch: 0 }),
    {
        ProtocolVersion::v1_2_0()
    }
}

/// What a node supports on one layer of the stack.
#[derive(Debug, Clone, PartialEq, Eq)]
pub struct ProtocolCapability {
    /// Layer identifier, `l1` to `l7`.
    pub layer: String,
    /// The version spoken on that layer.
    pub version: ProtocolVersion,
}

impl ProtocolCapability {
    /// The privacy hop: layer `l4` at version 1.2.0.
    pub fn l4_privacy_hop() -> (c: ProtocolCapability)
        ensures
            c.layer@ == "l4"@,
            c.version == (ProtocolVersion { major: 1, minor: 2, patch: 0 }),
    {
        ProtocolCapability { layer: String::from_str("l4"), version: ProtocolVersion::v1_2_0() }
    }

    /// The capability of speaking `version` on `layer`.
    pub fn new(layer: &str, version: ProtocolVersion) -> (c: ProtocolCapability)
        ensures
            c.layer@ == layer@,
            c.version == version,
    {
        ProtocolCapability { layer: String::from_str(layer), version }
    }
}

/// The optional protocol features, each on or off.
#[derive(Debug, Clone, Copy, PartialEq, Eq, Structural)]
pub struct FeatureFlags {
    /// Relay lottery (1.2 and later).
    pub relay_lottery: bool,
    /// Delays seeded by a verifiable random function (1.2 and later).
    pub vrf_delays: bool,
    /// Cover traffic (1.2 and later).
    pub cover_traffic: bool,
    /// Batch processing (1.1 and later).
    pub batch_processing: bool,
    /// Enhanced Sphinx packets (1.2 and later).
    pub enhanced_sphinx: bool,
}

/// The features of a version: none for 1.0, batch processing for 1.1, all five
/// for 1.2, and none for any version that is not known.
pub open spec fn features_of(version: ProtocolVersion) -> FeatureFlags {
    if version.major == 1 && version.minor == 1 {
        FeatureFlags {
            relay_lottery: false,
            vrf_delays: false,
            cover_traffic: false,
            batch_processing: true,
            enhanced_sphinx: false,
        }
    } else if version.major == 1 && version.minor == 2 {
        FeatureFlags {
            relay_lottery: true,
            vrf_delays: true,
            cover_traffic: true,
            batch_processing: true,
            enhanced_sphinx: true,
        }
    } else {
        FeatureFlags {
            relay_lottery: false,
            vrf_delays: false,
            cover_traffic: false,
            batch_processing: false,
            enhanced_sphinx: false,
        }
    }
}

impl FeatureFlags {
    /// Every feature of `other` is also on in `self`.
    pub open spec fn includes(self, other: FeatureFlags) -> bool {
        &&& other.relay_lottery ==> self.relay_lottery
        &&& other.vrf_delays ==> self.vrf_delays
        &&& other.cover_traffic ==> self.cover_traffic
        &&& other.batch_processing ==> self.batch_processing
        &&& other.enhanced_sphinx ==> self.enhanced_sphinx
    }

    /// The features that are on in both.
    pub open spec fn common(self, other: FeatureFlags) -> FeatureFlags {
        FeatureFlags {
            relay_lottery: self.relay_lottery && other.relay_lottery,
            vrf_delays: self.vrf_delays && other.vrf_delays,
            cover_traffic: self.cover_traffic && other.cover_traffic,
            batch_processing: self.batch_processing && other.batch_processing,
            enhanced_sphinx: self.enhanced_sphinx && other.enhanced_sphinx,
        }
    }

    /// The features of 1.0.0: none.
    pub fn v1_0_0() -> (f: FeatureFlags)
        ensures
            f == features_of(ProtocolVersion { major: 1, minor: 0, patch: 0 }),
    {
        FeatureFlags {
            relay_lottery: false,
            vrf_delays: false,
            cover_traffic: false,
            batch_processing: false,
            enhanced_sphinx: false,
        }
    }

    /// The features of 1.1.0: batch processing.
    pub fn v1_1_0() -> (f: FeatureFlags)
        ensures
            f == features_of(ProtocolVersion { major: 1, minor: 1, patch: 0 }),
    {
        FeatureFlags {
            relay_lottery: false,
            vrf_delays: false,
            cover_traffic: false,
            batch_processing: true,
            enhanced_sphinx: false,
        }
    }

    /// The features of 1.2.0: all.
    pub fn v1_2_0() -> (f: FeatureFlags)
        ensures
            f == features_of(ProtocolVersion { major: 1, minor: 2, patch: 0 }),
    {
        FeatureFlags {
            relay_lottery: true,
            vrf_delays: true,
            cover_traffic: true,
            batch_processing: true,
            enhanced_sphinx: true,
        }
    }

    /// The features of `version`.
    pub fn for_version(version: &ProtocolVersion) -> (f: FeatureFlags)
        ensures
            f == features_of(*version),
    {
        if version.major == 1 && version.minor == 1 {
            FeatureFlags::v1_1_0()
        } else if version.major == 1 && version.minor == 2 {
            FeatureFlags::v1_2_0()
        } else {
            FeatureFlags::v1_0_0()
        }
    }

    /// Whether every feature of `other` is on here too.
    pub fn supports(&self, other: &FeatureFlags) -> (ok: bool)
        ensures
            ok == self.includes(*other),
    {
        (!other.relay_lottery || self.relay_lottery) && (!other.vrf_delays || self.vrf_delays) && (
        !other.cover_traffic || self.cover_traffic) && (!other.batch_processing
            || self.batch_processing) && (!other.enhanced_sphinx || self.enhanced_sphinx)
    }

    /// The features that are on in both.
    pub fn intersect(&self, other: &FeatureFlags) -> (f: FeatureFlags)
        ensures
            f == self.common(*other),
    {
        FeatureFlags {
            relay_lottery: self.relay_lottery && other.relay_lottery,
            vrf_delays: self.vrf_delays && other.vrf_delays,
            cover_traffic: self.cover_traffic && other.cover_traffic,
            batch_processing: self.batch_processing && other.batch_processing,
            enhanced_sphinx: self.enhanced_sphinx && other.enhanced_sphinx,
        }
    }
}

impl Default for FeatureFlags {
    fn default() -> (f: FeatureFlags)
        ensures
            f == features_of(ProtocolVersion { major: 1, minor: 2, patch: 0 }),
    {
        FeatureFlags::v1_2_0()
    }
}

/// What a node announces of itself when a connection is set up.
#[derive(Debug, Clone)]
pub struct ProtocolAdvertisement {
    /// Protocol version.
    pub version: ProtocolVersion,
    /// Supported features.
    pub features: FeatureFlags,
    /// Supported layers.
    pub capabilities: Vec<ProtocolCapability>,
    /// Node identifier.
    pub node_id: String,
}

impl ProtocolAdvertisement {
    /// The advertisement of a node at `version`: that version's features and
    /// the privacy hop as its one capability.
    pub fn new(version: ProtocolVersion, node_id: String) -> (ad: ProtocolAdvertisement)
        ensures
            ad.version == version,
            ad.features == features_of(version),
            ad.node_id == node_id,
            ad.capabilities@.len() == 1,
            ad.capabilities@[0].layer@ == "l4"@,
            ad.capabilities@[0].version == (ProtocolVersion { major: 1, minor: 2, patch: 0 }),
    {
        let mut capabilities: Vec<ProtocolCapability> = Vec::new();
        capabilities.push(ProtocolCapability::l4_privacy_hop());
        ProtocolAdvertisement {
            features: FeatureFlags::for_version(&version),
            capabilities,
            version,
            node_id,
        }
    }

    /// Whether this node can talk to the one that sent `other`.
    pub fn is_compatible_with(&self, other: &ProtocolAdvertisement) -> (ok: bool)
        ensures
            ok == self.version.compatible(other.version),
    {
        self.version.is_compatible_with(&other.version)
    }
}

/// The outcome of negotiating a version with a peer.
#[derive(Debug, Clone, Copy)]
pub enum NegotiationResult {
    /// Both sides speak the given version.
    Compatible(ProtocolVersion),
    /// The two versions differ in their major version.
    Incompatible { our_version: ProtocolVersion, their_version: ProtocolVersion },
    /// The wire byte names no known version.
    Unsupported(u8),
}

/// What negotiation between `ours` and `theirs` yields: the lower of the two
/// when they share a major version, a refusal that names both when they do
/// not. Which of the two is the newer plays no part.
pub open spec fn negotiated(ours: ProtocolVersion, theirs: ProtocolVersion) -> NegotiationResult {
    if ours.major == theirs.major {
        NegotiationResult::Compatible(ours.lower_of(theirs))
    } else {
        NegotiationResult::Incompatible { our_version: ours, their_version: theirs }
    }
}

/// Negotiates a version with a peer: the lower of the two where both have the
/// same major version.
pub fn negotiate_version(our_version: ProtocolVersion, their_version: ProtocolVersion) -> (result:
    NegotiationResult)
    ensures
        result == negotiated(our_version, their_version),
{
    if our_version.major == their_version.major {
        let agreed = if our_version.is_older_than(&their_version) {
            our_version
        } else {
            their_version
        };
        NegotiationResult::Compatible(agreed)
    } else {
        NegotiationResult::Incompatible { our_version, their_version }
    }
}

/// The lower of two versions does not depend on which side computes it, is one
/// of the two, and neither of them is older than it.
pub proof fn lemma_lower_of_is_minimum(a: ProtocolVersion, b: ProtocolVersion)
    ensures
        a.lower_of(b) == b.lower_of(a),
        a.lower_of(b) == a || a.lower_of(b) == b,
        !a.precedes(a.lower_of(b)),
        !b.precedes(a.lower_of(b)),
{
}

/// Negotiation succeeds exactly between versions of one major version, and
/// then both sides, each computing for itself, reach the same version: one of
/// that major version which the newer side can talk to and the older side
/// speaks itself.
pub proof fn lemma_negotiated_version_is_common(ours: ProtocolVersion, theirs: ProtocolVersion)
    ensures
        ours.major == theirs.major ==> negotiated(ours, theirs) == NegotiationResult::Compatible(
            ours.lower_of(theirs),
        ) && negotiated(theirs, ours) == negotiated(ours, theirs) && ours.lower_of(theirs).major
            == ours.major && (ours.compatible(ours.lower_of(theirs)) || ours == ours.lower_of(
            theirs,
        )) && (theirs.compatible(ours.lower_of(theirs)) || theirs == ours.lower_of(theirs)),
        ours.major != theirs.major ==> negotiated(ours, theirs) == (NegotiationResult::Incompatible {
            our_version: ours,
            their_version: theirs,
        }),
        !(negotiated(ours, theirs) is Unsupported),
{
}

/// Among the versions 1.0 to 1.2 every version has the features of the
/// versions before it, so that what two such nodes have in common are the
/// features of the lower version: the one they negotiate.
pub proof fn lemma_common_features_are_those_of_the_lower_version(
    ours: ProtocolVersion,
    theirs: ProtocolVersion,
)
    requires
        ours.major == 1,
        theirs.major == 1,
        ours.minor <= 2,
        theirs.minor <= 2,
    ensures
        features_of(ours).common(features_of(theirs)) == features_of(ours.lower_of(theirs)),
        ours.minor >= theirs.minor ==> features_of(ours).includes(features_of(theirs)),
{
}

/// Decoding the wire byte of a version `1.m.0`, `m < 16`, gives the version back.
pub proof fn lemma_byte_round_trip(v: ProtocolVersion)
    requires
        v.byte_encodable(),
    ensures
        decoded_version(v.encoded()) == Some(v),
{
}

/// A byte that decodes at all encodes back to itself.
pub proof fn lemma_decode_then_encode(byte: u8)
    requires
        decoded_version(byte) is Some,
    ensures
        decoded_version(byte).unwrap().encoded() == byte,
        decoded_version(byte).unwrap().byte_encodable(),
{
}

/// Compatibility is not symmetric: two versions are compatible both ways only
/// when major and minor agree.
pub proof fn lemma_compatibility_is_asymmetric(a: ProtocolVersion, b: ProtocolVersion)
    ensures
        a.compatible(b) && b.compatible(a) <==> a.major == b.major && a.minor == b.minor,
        a.major != b.major ==> !a.compatible(b) && !b.compatible(a),
        a.major == b.major && a.minor > b.minor ==> a.compatible(b) && !b.compatible(a),
{
}

} // verus!
