//! Packet formats and their conversion downwards, for peers that speak an
//! older protocol version.

use crate::protocol_version::{features_of, FeatureFlags, ProtocolVersion};
use crate::wire::{be32, be32_value, copy_range, lemma_be32_round_trip, push_be32, push_range};
use crate::text::{push_text, views};
use vstd::prelude::*;

verus! {

/// The wire layout of a packet.
///
/// * 1.0: `[u32 length][payload]`
/// * 1.1: `[u32 length][u16 batch info][payload]`
/// * 1.2: the 1.1 layout followed by a 32-byte proof and an 8-byte lottery tag
#[derive(Debug, Clone, Copy, PartialEq, Eq, Structural)]
pub enum PacketFormat {
    V1_0,
    V1_1,
    V1_2,
}

/// Bytes that the 1.2 layout appends to the 1.1 layout.
pub const V1_2_TRAILER_LEN: usize = 40;

/// Length of the length prefix.
pub const LENGTH_PREFIX_LEN: usize = 4;

/// Length of the batch information that the 1.1 layout puts behind the prefix.
pub const BATCH_INFO_LEN: usize = 2;

/// The format that a version writes: 1.1 and 1.2 have their own, every other
/// version writes the oldest.
pub open spec fn format_of(version: ProtocolVersion) -> PacketFormat {
    if version.major == 1 && version.minor == 1 {
        PacketFormat::V1_1
    } else if version.major == 1 && version.minor == 2 {
        PacketFormat::V1_2
    } else {
        PacketFormat::V1_0
    }
}

/// A 1.2 packet without its trailer; nothing for a packet under 44 bytes.
pub open spec fn v1_2_to_v1_1(packet: Seq<u8>) -> Option<Seq<u8>> {
    if packet.len() < 44 {
        None
    } else {
        Some(packet.take(packet.len() - 40))
    }
}

/// A 1.1 packet without its batch information, the length prefix rewritten to
/// the number of bytes that follow it (modulo 2^32); nothing for a packet
/// under 6 bytes.
pub open spec fn v1_1_to_v1_0(packet: Seq<u8>) -> Option<Seq<u8>> {
    if packet.len() < 6 {
        None
    } else {
        Some(be32(((packet.len() - 6) % 0x1_0000_0000) as u32) + packet.skip(6))
    }
}

/// A 1.2 packet taken down to 1.0: first to 1.1, then to 1.0.
pub open spec fn v1_2_to_v1_0(packet: Seq<u8>) -> Option<Seq<u8>> {
    match v1_2_to_v1_1(packet) {
        Some(inner) => v1_1_to_v1_0(inner),
        None => None,
    }
}

/// What converting `packet` from `source` to `target` gives; nothing where
/// the packet is too short or the conversion would go upwards.
pub open spec fn converted(source: PacketFormat, target: PacketFormat, packet: Seq<u8>) -> Option<
    Seq<u8>,
> {
    if source == target {
        Some(packet)
    } else if source == PacketFormat::V1_2 && target == PacketFormat::V1_1 {
        v1_2_to_v1_1(packet)
    } else if source == PacketFormat::V1_2 && target == PacketFormat::V1_0 {
        v1_2_to_v1_0(packet)
    } else if source == PacketFormat::V1_1 && target == PacketFormat::V1_0 {
        v1_1_to_v1_0(packet)
    } else {
        None
    }
}

/// The message that goes with a failed conversion.
pub open spec fn conversion_error(source: PacketFormat, target: PacketFormat, packet: Seq<u8>) -> Seq<
    char,
> {
    if source == PacketFormat::V1_2 && target != PacketFormat::V1_2 && packet.len() < 44 {
        "Packet too small for v1.2 format"@
    } else if source.rank() > target.rank() {
        "Packet too small for v1.1 format"@
    } else {
        "Unsupported conversion: "@ + source.name() + " -> "@ + target.name()
    }
}

impl PacketFormat {
    /// Position in the order of the formats, oldest first.
    pub open spec fn rank(self) -> int {
        match self {
            PacketFormat::V1_0 => 0,
            PacketFormat::V1_1 => 1,
            PacketFormat::V1_2 => 2,
        }
    }

    /// A packet in this format can be rewritten in `target`: the same format
    /// or an older one.
    pub open spec fn convertible_to(self, target: PacketFormat) -> bool {
        self.rank() >= target.rank()
    }

    /// The format's name in messages.
    pub open spec fn name(self) -> Seq<char> {
        match self {
            PacketFormat::V1_0 => "V1_0"@,
            PacketFormat::V1_1 => "V1_1"@,
            PacketFormat::V1_2 => "V1_2"@,
        }
    }

    /// The format that `version` writes.
    pub fn for_version(version: &ProtocolVersion) -> (format: PacketFormat)
        ensures
            format == format_of(*version),
    {
        if version.major == 1 && version.minor == 1 {
            PacketFormat::V1_1
        } else if version.major == 1 && version.minor == 2 {
            PacketFormat::V1_2
        } else {
            PacketFormat::V1_0
        }
    }

    /// Whether a packet in this format can be rewritten in `target`.
    pub fn can_convert_to(&self, target: &PacketFormat) -> (ok: bool)
        ensures
            ok == self.convertible_to(*target),
    {
        match (self, target) {
            (PacketFormat::V1_0, PacketFormat::V1_0) => true,
            (PacketFormat::V1_1, PacketFormat::V1_1) => true,
            (PacketFormat::V1_2, PacketFormat::V1_2) => true,
            (PacketFormat::V1_2, PacketFormat::V1_1) => true,
            (PacketFormat::V1_2, PacketFormat::V1_0) => true,
            (PacketFormat::V1_1, PacketFormat::V1_0) => true,
            _ => false,
        }
    }

    /// The format's name as it stands in messages.
    pub fn label(&self) -> (text: &'static str)
        ensures
            text@ == self.name(),
    {
        match self {
            PacketFormat::V1_0 => "V1_0",
            PacketFormat::V1_1 => "V1_1",
            PacketFormat::V1_2 => "V1_2",
        }
    }
}

/// Rewrites packets of one format in an older one.
#[derive(Debug)]
pub struct PacketAdapter {
    source_format: PacketFormat,
    target_format: PacketFormat,
}

impl PacketAdapter {
    /// The format of the packets that come in.
    pub closed spec fn source(self) -> PacketFormat {
        self.source_format
    }

    /// The format of the packets that go out.
    pub closed spec fn target(self) -> PacketFormat {
        self.target_format
    }

    /// An adapter from `source` to `target`, refused where that would go upwards.
    pub fn new(source: PacketFormat, target: PacketFormat) -> (result: Result<PacketAdapter, String>)
        ensures
            source.convertible_to(target) ==> result is Ok && result->Ok_0.source() == source
                && result->Ok_0.target() == target,
            !source.convertible_to(target) ==> result is Err && result->Err_0@
                == "Cannot convert from "@ + source.name() + " to "@ + target.name(),
    {
        if !source.can_convert_to(&target) {
            let mut message = String::from_str("Cannot convert from ");
            message.append(source.label());
            message.append(" to ");
            message.append(target.label());
            return Err(message);
        }
        Ok(PacketAdapter { source_format: source, target_format: target })
    }

    /// The format of the packets that come in.
    pub fn source_format(&self) -> (format: PacketFormat)
        ensures
            format == self.source(),
    {
        self.source_format
    }

    /// The format of the packets that go out.
    pub fn target_format(&self) -> (format: PacketFormat)
        ensures
            format == self.target(),
    {
        self.target_format
    }

    /// Rewrites `packet_data` in the target format.
    pub fn convert(&self, packet_data: &[u8]) -> (result: Result<Vec<u8>, String>)
        ensures
            match converted(self.source(), self.target(), packet_data@) {
                Some(out) => result is Ok && result->Ok_0@ == out,
                None => result is Err && result->Err_0@ == conversion_error(
                    self.source(),
                    self.target(),
                    packet_data@,
                ),
            },
    {
        match (self.source_format, self.target_format) {
            (PacketFormat::V1_0, PacketFormat::V1_0) => Ok(whole(packet_data)),
            (PacketFormat::V1_1, PacketFormat::V1_1) => Ok(whole(packet_data)),
            (PacketFormat::V1_2, PacketFormat::V1_2) => Ok(whole(packet_data)),
            (PacketFormat::V1_2, PacketFormat::V1_1) => self.strip_v1_2_to_v1_1(packet_data),
            (PacketFormat::V1_2, PacketFormat::V1_0) => self.strip_v1_2_to_v1_0(packet_data),
            (PacketFormat::V1_1, PacketFormat::V1_0) => self.strip_v1_1_to_v1_0(packet_data),
            _ => {
                let mut message = String::from_str("Unsupported conversion: ");
                message.append(self.source_format.label());
                message.append(" -> ");
                message.append(self.target_format.label());
                Err(message)
            },
        }
    }

    /// Drops the 40-byte trailer of a 1.2 packet.
    pub fn strip_v1_2_to_v1_1(&self, packet_data: &[u8]) -> (result: Result<Vec<u8>, String>)
        ensures
            match v1_2_to_v1_1(packet_data@) {
                Some(out) => result is Ok && result->Ok_0@ == out,
                None => result is Err && result->Err_0@ == "Packet too small for v1.2 format"@,
            },
    {
        if packet_data.len() < 44 {
            return Err(String::from_str("Packet too small for v1.2 format"));
        }
        Ok(copy_range(packet_data, 0, packet_data.len() - V1_2_TRAILER_LEN))
    }

    /// Takes a 1.2 packet down to 1.0.
    pub fn strip_v1_2_to_v1_0(&self, packet_data: &[u8]) -> (result: Result<Vec<u8>, String>)
        ensures
            match v1_2_to_v1_0(packet_data@) {
                Some(out) => result is Ok && result->Ok_0@ == out,
                None => result is Err && result->Err_0@ == (if packet_data@.len() < 44 {
                    "Packet too small for v1.2 format"@
                } else {
                    "Packet too small for v1.1 format"@
                }),
            },
    {
        match self.strip_v1_2_to_v1_1(packet_data) {
            Ok(inner) => self.strip_v1_1_to_v1_0(inner.as_slice()),
            Err(e) => Err(e),
        }
    }

    /// Drops the batch information of a 1.1 packet and rewrites its length prefix.
    pub fn strip_v1_1_to_v1_0(&self, packet_data: &[u8]) -> (result: Result<Vec<u8>, String>)
        ensures
            match v1_1_to_v1_0(packet_data@) {
                Some(out) => result is Ok && result->Ok_0@ == out,
                None => result is Err && result->Err_0@ == "Packet too small for v1.1 format"@,
            },
    {
        if packet_data.len() < 6 {
            return Err(String::from_str("Packet too small for v1.1 format"));
        }
        let payload_start = LENGTH_PREFIX_LEN + BATCH_INFO_LEN;
        let rest = packet_data.len() - payload_start;
        let new_length = ((rest as u64) % 0x1_0000_0000) as u32;
        let mut out: Vec<u8> = Vec::new();
        push_be32(&mut out, new_length);
        push_range(&mut out, packet_data, payload_start, packet_data.len());
        assert(packet_data@.subrange(6, packet_data@.len() as int) =~= packet_data@.skip(6));
        assert(out@ =~= be32(new_length) + packet_data@.skip(6));
        Ok(out)
    }
}

fn whole(packet_data: &[u8]) -> (out: Vec<u8>)
    ensures
        out@ == packet_data@,
{
    let out = copy_range(packet_data, 0, packet_data.len());
    assert(packet_data@.subrange(0, packet_data@.len() as int) =~= packet_data@);
    out
}

/// Taking a 1.1 packet down to 1.0 keeps the payload and makes the length
/// prefix count exactly the payload, for any payload whose length fits in
/// 32 bits.
pub proof fn lemma_v1_1_downshift_keeps_payload(packet: Seq<u8>)
    requires
        packet.len() >= 6,
        packet.len() - 6 <= u32::MAX,
    ensures
        v1_1_to_v1_0(packet) is Some,
        v1_1_to_v1_0(packet).unwrap().len() == packet.len() - 2,
        v1_1_to_v1_0(packet).unwrap().skip(4) == packet.skip(6),
        be32_value(v1_1_to_v1_0(packet).unwrap()) == packet.len() - 6,
        be32_value(v1_1_to_v1_0(packet).unwrap()) == v1_1_to_v1_0(packet).unwrap().skip(4).len(),
{
    let n = ((packet.len() - 6) % 0x1_0000_0000) as u32;
    let out = v1_1_to_v1_0(packet).unwrap();
    lemma_be32_round_trip(n);
    assert(out =~= be32(n) + packet.skip(6));
    assert(out.skip(4) =~= packet.skip(6));
    assert(out[0] == be32(n)[0] && out[1] == be32(n)[1] && out[2] == be32(n)[2] && out[3] == be32(
        n,
    )[3]);
}

/// Taking a 1.2 packet down to 1.1 leaves a prefix of it: all but the last 40 bytes.
pub proof fn lemma_v1_2_downshift_is_prefix(packet: Seq<u8>)
    requires
        packet.len() >= 44,
    ensures
        v1_2_to_v1_1(packet) is Some,
        v1_2_to_v1_1(packet).unwrap().is_prefix_of(packet),
        v1_2_to_v1_1(packet).unwrap().len() == packet.len() - 40,
{
}

/// Conversion never goes upwards, and between the same formats it changes nothing.
pub proof fn lemma_no_upshift(source: PacketFormat, target: PacketFormat, packet: Seq<u8>)
    ensures
        !source.convertible_to(target) ==> converted(source, target, packet) is None,
        source == target ==> converted(source, target, packet) == Some(packet),
        converted(source, target, packet) matches Some(out) ==> out.len() <= packet.len(),
{
}

/// The features that two versions have in common, and the conversion between
/// their packet formats.
#[derive(Debug, Clone)]
pub struct TranslationContext {
    /// The version that packets come in.
    pub source_version: ProtocolVersion,
    /// The version that packets go out in.
    pub target_version: ProtocolVersion,
    /// The features of both versions.
    pub negotiated_features: FeatureFlags,
}

/// A protocol feature.
#[derive(Debug, Clone, Copy, PartialEq, Eq, Structural)]
pub enum Feature {
    RelayLottery,
    VrfDelays,
    CoverTraffic,
    BatchProcessing,
    EnhancedSphinx,
}

/// Whether `feature` is on in `flags`.
pub open spec fn flag_of(flags: FeatureFlags, feature: Feature) -> bool {
    match feature {
        Feature::RelayLottery => flags.relay_lottery,
        Feature::VrfDelays => flags.vrf_delays,
        Feature::CoverTraffic => flags.cover_traffic,
        Feature::BatchProcessing => flags.batch_processing,
        Feature::EnhancedSphinx => flags.enhanced_sphinx,
    }
}

impl TranslationContext {
    /// What the versions `source` and `target` have in common.
    pub fn new(source: ProtocolVersion, target: ProtocolVersion) -> (context: TranslationContext)
        ensures
            context.source_version == source,
            context.target_version == target,
            context.negotiated_features == features_of(source).common(features_of(target)),
    {
        let source_features = FeatureFlags::for_version(&source);
        let target_features = FeatureFlags::for_version(&target);
        TranslationContext {
            source_version: source,
            target_version: target,
            negotiated_features: source_features.intersect(&target_features),
        }
    }

    /// Whether both versions have `feature`.
    pub fn has_feature(&self, feature: Feature) -> (on: bool)
        ensures
            on == flag_of(self.negotiated_features, feature),
    {
        match feature {
            Feature::RelayLottery => self.negotiated_features.relay_lottery,
            Feature::VrfDelays => self.negotiated_features.vrf_delays,
            Feature::CoverTraffic => self.negotiated_features.cover_traffic,
            Feature::BatchProcessing => self.negotiated_features.batch_processing,
            Feature::EnhancedSphinx => self.negotiated_features.enhanced_sphinx,
        }
    }

    /// The adapter from the source version's format to the target version's.
    pub fn get_adapter(&self) -> (result: Result<PacketAdapter, String>)
        ensures
            ({
                let source = format_of(self.source_version);
                let target = format_of(self.target_version);
                &&& source.convertible_to(target) ==> result is Ok && result->Ok_0.source()
                    == source && result->Ok_0.target() == target
                &&& !source.convertible_to(target) ==> result is Err && result->Err_0@
                    == "Cannot convert from "@ + source.name() + " to "@ + target.name()
            }),
    {
        let source_format = PacketFormat::for_version(&self.source_version);
        let target_format = PacketFormat::for_version(&self.target_version);
        PacketAdapter::new(source_format, target_format)
    }
}

/// The steps an operator takes to move a node from one version to another.
#[derive(Debug)]
pub struct MigrationHelper {
    from_version: ProtocolVersion,
    to_version: ProtocolVersion,
}

/// The steps from `from` to `to`: six from 1.0.0 to 1.2.0, four from 1.1.0 to
/// 1.2.0, none for any other pair.
pub open spec fn migration_steps(from: ProtocolVersion, to: ProtocolVersion) -> Seq<Seq<char>> {
    if from == (ProtocolVersion { major: 1, minor: 0, patch: 0 }) && to == (ProtocolVersion {
        major: 1,
        minor: 2,
        patch: 0,
    }) {
        seq![
            "1. Enable batch processing (v1.1 feature)"@,
            "2. Upgrade packet format to include batch headers"@,
            "3. Enable relay lottery (v1.2 feature)"@,
            "4. Enable VRF delays (v1.2 feature)"@,
            "5. Upgrade packet format to include VRF fields"@,
            "6. Enable cover traffic generation"@,
        ]
    } else if from == (ProtocolVersion { major: 1, minor: 1, patch: 0 }) && to == (ProtocolVersion {
        major: 1,
        minor: 2,
        patch: 0,
    }) {
        seq![
            "1. Enable relay lottery (v1.2 feature)"@,
            "2. Enable VRF delays (v1.2 feature)"@,
            "3. Upgrade packet format to include VRF fields"@,
            "4. Enable cover traffic generation"@,
        ]
    } else {
        Seq::empty()
    }
}

/// The warnings for a move from `from` to `to`: one where the move crosses
/// into minor version 2 from below.
pub open spec fn deprecation_warnings(from: ProtocolVersion, to: ProtocolVersion) -> Seq<Seq<char>> {
    if from.minor < 2 && to.minor >= 2 {
        seq!["Warning: Simple delay mechanisms deprecated in v1.2, use VRF delays instead"@]
    } else {
        Seq::empty()
    }
}

impl MigrationHelper {
    /// The version that the node runs.
    pub closed spec fn from(self) -> ProtocolVersion {
        self.from_version
    }

    /// The version that the node is to run.
    pub closed spec fn to(self) -> ProtocolVersion {
        self.to_version
    }

    /// A helper for the move from `from` to `to`.
    pub fn new(from: ProtocolVersion, to: ProtocolVersion) -> (helper: MigrationHelper)
        ensures
            helper.from() == from,
            helper.to() == to,
    {
        MigrationHelper { from_version: from, to_version: to }
    }

    /// The two versions differ.
    pub fn needs_migration(&self) -> (needed: bool)
        ensures
            needed == (self.from() != self.to()),
    {
        self.from_version != self.to_version
    }

    /// Both versions have the same major.
    pub fn is_supported(&self) -> (ok: bool)
        ensures
            ok == (self.from().major == self.to().major),
    {
        self.from_version.major == self.to_version.major
    }

    /// The steps of the move.
    pub fn get_steps(&self) -> (steps: Vec<String>)
        ensures
            views(steps@) == migration_steps(self.from(), self.to()),
    {
        let mut steps: Vec<String> = Vec::new();
        assert(views(steps@) =~= Seq::<Seq<char>>::empty());
        if !self.needs_migration() {
            return steps;
        }
        let v1_0 = ProtocolVersion::new(1, 0, 0);
        let v1_1 = ProtocolVersion::new(1, 1, 0);
        let v1_2 = ProtocolVersion::new(1, 2, 0);
        if self.from_version == v1_0 && self.to_version == v1_2 {
            push_text(&mut steps, "1. Enable batch processing (v1.1 feature)");
            push_text(&mut steps, "2. Upgrade packet format to include batch headers");
            push_text(&mut steps, "3. Enable relay lottery (v1.2 feature)");
            push_text(&mut steps, "4. Enable VRF delays (v1.2 feature)");
            push_text(&mut steps, "5. Upgrade packet format to include VRF fields");
            push_text(&mut steps, "6. Enable cover traffic generation");
            assert(views(steps@) =~= migration_steps(self.from(), self.to()));
        } else if self.from_version == v1_1 && self.to_version == v1_2 {
            push_text(&mut steps, "1. Enable relay lottery (v1.2 feature)");
            push_text(&mut steps, "2. Enable VRF delays (v1.2 feature)");
            push_text(&mut steps, "3. Upgrade packet format to include VRF fields");
            push_text(&mut steps, "4. Enable cover traffic generation");
            assert(views(steps@) =~= migration_steps(self.from(), self.to()));
        }
        steps
    }

    /// The warnings that go with the move.
    pub fn get_deprecation_warnings(&self) -> (warnings: Vec<String>)
        ensures
            views(warnings@) == deprecation_warnings(self.from(), self.to()),
    {
        let mut warnings: Vec<String> = Vec::new();
        assert(views(warnings@) =~= Seq::<Seq<char>>::empty());
        if self.from_version.minor < 2 && self.to_version.minor >= 2 {
            push_text(
                &mut warnings,
                "Warning: Simple delay mechanisms deprecated in v1.2, use VRF delays instead",
            );
            assert(views(warnings@) =~= deprecation_warnings(self.from(), self.to()));
        }
        warnings
    }
}

} // verus!
