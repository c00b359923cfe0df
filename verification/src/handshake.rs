//! The version handshake that opens every connection, as a state machine.
//!
//! The machine decides; whoever owns the socket sends and reads what it
//! asks for and reports back what came in.
//!
//! ```text
//! Start -> AwaitLength -> AwaitAdvertisement -> AwaitConfirmation -> Ready
//!              |                  |                     |
//!              +------------------+---------------------+--> Aborted
//! ```

use crate::error::MixnodeError;
use crate::framing::framed;
use crate::protocol_version::{
    decoded_version, lemma_byte_round_trip, lemma_lower_of_is_minimum, negotiated,
    NegotiationResult, ProtocolVersion,
};
use crate::text::{decimal, decimal_string};
use crate::wire::{be32_value, push_be32, push_range, read_be32};
use vstd::prelude::*;

verus! {

/// Longest advertisement that is sent or accepted.
pub const MAX_ADVERTISEMENT_LEN: usize = 4096;

/// Where a handshake stands.
#[derive(Debug, Clone, Copy, PartialEq, Eq, Structural)]
pub enum HandshakeState {
    /// Nothing has been sent.
    Start,
    /// Our advertisement is out; the length of the peer's is awaited.
    AwaitLength,
    /// The peer's advertisement of `length` bytes is awaited.
    AwaitAdvertisement { length: u32 },
    /// Our choice is out; the peer's confirmation is awaited.
    AwaitConfirmation { negotiated: ProtocolVersion },
    /// Both sides agreed on `negotiated`: packets may flow.
    Ready { negotiated: ProtocolVersion },
    /// The handshake failed: the connection is to be closed.
    Aborted,
}

/// What happened on the connection.
pub enum HandshakeEvent {
    /// The handshake begins; `advertisement` is ours, serialised.
    Begin { advertisement: Vec<u8> },
    /// The bytes of the peer's length prefix came in.
    Length { bytes: Vec<u8> },
    /// The peer's advertisement came in; `version` is the version it
    /// announces, or why it could not be read.
    Advertisement { version: Result<ProtocolVersion, String> },
    /// The peer's confirmation byte came in.
    Confirmation { byte: u8 },
}

/// What is to be done on the connection.
pub enum HandshakeAction {
    /// Send `bytes`, then read `then_read` bytes.
    Send { bytes: Vec<u8>, then_read: usize },
    /// Read `count` bytes.
    Read { count: usize },
    /// The handshake is complete.
    Done { negotiated: ProtocolVersion },
    /// Close the connection with this error.
    Fail { error: MixnodeError },
}

/// What a step asks for, by content.
pub enum Outcome {
    Send { bytes: Seq<u8>, then_read: int },
    Read { count: int },
    Done { negotiated: ProtocolVersion },
    /// A protocol violation with this description.
    Fail { reason: Seq<char> },
}

/// The content of an action.
pub open spec fn outcome_of(action: HandshakeAction) -> Outcome {
    match action {
        HandshakeAction::Send { bytes, then_read } => Outcome::Send {
            bytes: bytes@,
            then_read: then_read as int,
        },
        HandshakeAction::Read { count } => Outcome::Read { count: count as int },
        HandshakeAction::Done { negotiated } => Outcome::Done { negotiated },
        HandshakeAction::Fail { error } => Outcome::Fail { reason: error.detail() },
    }
}

/// The description of a refusal for differing majors.
pub open spec fn incompatible_text(ours: ProtocolVersion, theirs: ProtocolVersion) -> Seq<char> {
    "Incompatible protocol versions: ours="@ + ours.dotted() + ", theirs="@ + theirs.dotted()
}

/// The description of a refusal for a confirmation that differs from our choice.
pub open spec fn mismatch_text(ours: ProtocolVersion, theirs: ProtocolVersion) -> Seq<char> {
    "Version negotiation mismatch: we agreed on "@ + ours.dotted() + ", they agreed on "@
        + theirs.dotted()
}

/// One step of the handshake of a node at version `ours`: the state that
/// follows `state` on `event`, and what is to be done.
///
/// * `Start`, on `Begin`: send our advertisement behind its length and read
///   four bytes; refused for an advertisement of more than 4096 bytes.
/// * `AwaitLength`, on `Length`: read as many bytes as the prefix says;
///   refused for a prefix of other than four bytes or of more than 4096.
/// * `AwaitAdvertisement`, on `Advertisement`: refused where the
///   advertisement could not be read or the majors differ; else choose the
///   lower of the two versions, send its byte and read one byte.
/// * `AwaitConfirmation`, on `Confirmation`: refused where the byte names no
///   version or another than ours; else done.
/// * Anything else is refused. Every refusal ends in `Aborted`.
pub open spec fn handshake_step(ours: ProtocolVersion, state: HandshakeState, event: HandshakeEvent) -> (
    HandshakeState,
    Outcome,
) {
    match (state, event) {
        (HandshakeState::Start, HandshakeEvent::Begin { advertisement }) => {
            if advertisement@.len() > 4096 {
                (HandshakeState::Aborted, Outcome::Fail { reason: "Advertisement too large"@ })
            } else {
                (
                    HandshakeState::AwaitLength,
                    Outcome::Send { bytes: framed(advertisement@), then_read: 4 },
                )
            }
        },
        (HandshakeState::AwaitLength, HandshakeEvent::Length { bytes }) => {
            if bytes@.len() != 4 {
                (HandshakeState::Aborted, Outcome::Fail { reason: "Malformed length prefix"@ })
            } else if be32_value(bytes@) > 4096 {
                (HandshakeState::Aborted, Outcome::Fail { reason: "Advertisement too large"@ })
            } else {
                (
                    HandshakeState::AwaitAdvertisement { length: be32_value(bytes@) as u32 },
                    Outcome::Read { count: be32_value(bytes@) as int },
                )
            }
        },
        (HandshakeState::AwaitAdvertisement { length }, HandshakeEvent::Advertisement { version }) => {
            match version {
                Err(why) => (
                    HandshakeState::Aborted,
                    Outcome::Fail { reason: "Failed to decode peer advertisement: "@ + why@ },
                ),
                Ok(theirs) => {
                    if ours.major != theirs.major {
                        (
                            HandshakeState::Aborted,
                            Outcome::Fail { reason: incompatible_text(ours, theirs) },
                        )
                    } else {
                        (
                            HandshakeState::AwaitConfirmation { negotiated: ours.lower_of(theirs) },
                            Outcome::Send {
                                bytes: seq![ours.lower_of(theirs).encoded()],
                                then_read: 1,
                            },
                        )
                    }
                },
            }
        },
        (HandshakeState::AwaitConfirmation { negotiated }, HandshakeEvent::Confirmation { byte }) => {
            match decoded_version(byte) {
                None => (
                    HandshakeState::Aborted,
                    Outcome::Fail { reason: "Invalid version byte: "@ + decimal(byte as nat) },
                ),
                Some(theirs) => {
                    if theirs != negotiated {
                        (
                            HandshakeState::Aborted,
                            Outcome::Fail { reason: mismatch_text(negotiated, theirs) },
                        )
                    } else {
                        (HandshakeState::Ready { negotiated }, Outcome::Done { negotiated })
                    }
                },
            }
        },
        _ => (HandshakeState::Aborted, Outcome::Fail { reason: "Unexpected handshake event"@ }),
    }
}

/// One side of a handshake.
#[derive(Debug)]
pub struct Handshake {
    our_version: ProtocolVersion,
    state: HandshakeState,
}

fn refuse(reason: String) -> (action: HandshakeAction)
    ensures
        outcome_of(action) == (Outcome::Fail { reason: reason@ }),
        action matches HandshakeAction::Fail { error } && error is Protocol,
{
    HandshakeAction::Fail { error: MixnodeError::Protocol(reason) }
}

impl Handshake {
    /// Our version.
    pub closed spec fn ours(self) -> ProtocolVersion {
        self.our_version
    }

    /// Where the handshake stands.
    pub closed spec fn state(self) -> HandshakeState {
        self.state
    }

    /// A handshake that has not begun.
    pub fn new(our_version: ProtocolVersion) -> (handshake: Handshake)
        ensures
            handshake.ours() == our_version,
            handshake.state() == HandshakeState::Start,
    {
        Handshake { our_version, state: HandshakeState::Start }
    }

    /// Where the handshake stands.
    pub fn current_state(&self) -> (state: HandshakeState)
        ensures
            state == self.state(),
    {
        self.state
    }

    /// The version agreed on, once the handshake is complete. No packet may
    /// be accepted before.
    pub fn negotiated(&self) -> (version: Option<ProtocolVersion>)
        ensures
            version == (match self.state() {
                HandshakeState::Ready { negotiated } => Some(negotiated),
                _ => None,
            }),
    {
        match self.state {
            HandshakeState::Ready { negotiated } => Some(negotiated),
            _ => None,
        }
    }

    /// Takes one step: moves to the state that follows on `event` and says
    /// what is to be done. Every failure is a protocol error.
    pub fn step(&mut self, event: HandshakeEvent) -> (action: HandshakeAction)
        ensures
            final(self).ours() == old(self).ours(),
            (final(self).state(), outcome_of(action)) == handshake_step(
                old(self).ours(),
                old(self).state(),
                event,
            ),
            action matches HandshakeAction::Fail { error } ==> error is Protocol,
    {
        let state = self.state;
        self.state = HandshakeState::Aborted;
        match (state, event) {
            (HandshakeState::Start, HandshakeEvent::Begin { advertisement }) => {
                if advertisement.len() > MAX_ADVERTISEMENT_LEN {
                    return refuse(String::from_str("Advertisement too large"));
                }
                let mut bytes: Vec<u8> = Vec::new();
                push_be32(&mut bytes, advertisement.len() as u32);
                push_range(&mut bytes, advertisement.as_slice(), 0, advertisement.len());
                assert(advertisement@.subrange(0, advertisement@.len() as int)
                    =~= advertisement@);
                assert(bytes@ =~= framed(advertisement@));
                self.state = HandshakeState::AwaitLength;
                HandshakeAction::Send { bytes, then_read: 4 }
            },
            (HandshakeState::AwaitLength, HandshakeEvent::Length { bytes }) => {
                if bytes.len() != 4 {
                    return refuse(String::from_str("Malformed length prefix"));
                }
                let length = read_be32(bytes.as_slice());
                if length > 4096 {
                    return refuse(String::from_str("Advertisement too large"));
                }
                self.state = HandshakeState::AwaitAdvertisement { length };
                HandshakeAction::Read { count: length as usize }
            },
            (
                HandshakeState::AwaitAdvertisement { length },
                HandshakeEvent::Advertisement { version },
            ) => {
                match version {
                    Err(why) => {
                        refuse(
                            String::from_str("Failed to decode peer advertisement: ").concat(
                                why.as_str(),
                            ),
                        )
                    },
                    Ok(theirs) => {
                        if self.our_version.major != theirs.major {
                            let mut reason = String::from_str(
                                "Incompatible protocol versions: ours=",
                            );
                            reason.append(self.our_version.to_text().as_str());
                            reason.append(", theirs=");
                            reason.append(theirs.to_text().as_str());
                            return refuse(reason);
                        }
                        let negotiated = if self.our_version.is_older_than(&theirs) {
                            self.our_version
                        } else {
                            theirs
                        };
                        let mut bytes: Vec<u8> = Vec::new();
                        bytes.push(negotiated.encode_byte());
                        assert(bytes@ =~= seq![negotiated.encoded()]);
                        self.state = HandshakeState::AwaitConfirmation { negotiated };
                        HandshakeAction::Send { bytes, then_read: 1 }
                    },
                }
            },
            (
                HandshakeState::AwaitConfirmation { negotiated },
                HandshakeEvent::Confirmation { byte },
            ) => {
                match ProtocolVersion::decode_byte(byte) {
                    None => {
                        refuse(
                            String::from_str("Invalid version byte: ").concat(
                                decimal_string(byte as u64).as_str(),
                            ),
                        )
                    },
                    Some(theirs) => {
                        if theirs != negotiated {
                            let mut reason = String::from_str(
                                "Version negotiation mismatch: we agreed on ",
                            );
                            reason.append(negotiated.to_text().as_str());
                            reason.append(", they agreed on ");
                            reason.append(theirs.to_text().as_str());
                            return refuse(reason);
                        }
                        self.state = HandshakeState::Ready { negotiated };
                        HandshakeAction::Done { negotiated }
                    },
                }
            },
            _ => refuse(String::from_str("Unexpected handshake event")),
        }
    }
}

/// Whatever the peer announces, a handshake goes on past the advertisement
/// exactly when the majors agree, and then with the lower of the two
/// versions, whose major is that of both.
pub proof fn lemma_negotiation_takes_the_lower_version(
    ours: ProtocolVersion,
    theirs: ProtocolVersion,
    length: u32,
)
    ensures
        ({
            let next = handshake_step(
                ours,
                HandshakeState::AwaitAdvertisement { length },
                HandshakeEvent::Advertisement { version: Ok(theirs) },
            ).0;
            &&& ours.major == theirs.major ==> next == (HandshakeState::AwaitConfirmation {
                negotiated: ours.lower_of(theirs),
            }) && ours.lower_of(theirs).major == ours.major && !ours.precedes(
                ours.lower_of(theirs),
            ) && !theirs.precedes(ours.lower_of(theirs))
            &&& ours.major != theirs.major ==> next == HandshakeState::Aborted
        }),
{
}

/// Two nodes with the same major choose the same version, whichever of
/// them computes it; and where that version can be carried by the wire
/// byte, each side's confirmation completes the other side's handshake.
pub proof fn lemma_both_sides_agree(a: ProtocolVersion, b: ProtocolVersion)
    requires
        a.major == b.major,
    ensures
        a.lower_of(b) == b.lower_of(a),
        a.lower_of(b).byte_encodable() ==> handshake_step(
            b,
            HandshakeState::AwaitConfirmation { negotiated: b.lower_of(a) },
            HandshakeEvent::Confirmation { byte: a.lower_of(b).encoded() },
        ) == (
            HandshakeState::Ready { negotiated: a.lower_of(b) },
            Outcome::Done { negotiated: a.lower_of(b) },
        ),
{
    lemma_lower_of_is_minimum(a, b);
}

/// A whole handshake with a peer that plays by the rules. A node at `ours`
/// whose advertisement has at most 4096 bytes meets a peer at `theirs` of
/// the same major version, whose advertisement has at most 4096 bytes too.
/// Then step by step: the node sends its advertisement behind its length
/// and reads four bytes; reads as many bytes as these four say; sends the
/// one byte of the lower of the two versions, which is what negotiation
/// between the two gives, and reads one byte; and, the peer having sent the
/// same byte, is done and ready at that version.
pub proof fn lemma_handshake_runs_to_the_common_version(
    ours: ProtocolVersion,
    theirs: ProtocolVersion,
    advertisement: Vec<u8>,
    length: Vec<u8>,
)
    requires
        ours.major == theirs.major,
        ours.lower_of(theirs).byte_encodable(),
        advertisement@.len() <= 4096,
        length@.len() == 4,
        be32_value(length@) <= 4096,
    ensures
        ({
            let agreed = ours.lower_of(theirs);
            let begun = handshake_step(
                ours,
                HandshakeState::Start,
                HandshakeEvent::Begin { advertisement },
            );
            let measured = handshake_step(ours, begun.0, HandshakeEvent::Length { bytes: length });
            let chosen = handshake_step(
                ours,
                measured.0,
                HandshakeEvent::Advertisement { version: Ok(theirs) },
            );
            let confirmed = handshake_step(
                ours,
                chosen.0,
                HandshakeEvent::Confirmation { byte: agreed.encoded() },
            );
            &&& begun.1 == (Outcome::Send { bytes: framed(advertisement@), then_read: 4 })
            &&& measured.1 == (Outcome::Read { count: be32_value(length@) as int })
            &&& chosen.1 == (Outcome::Send { bytes: seq![agreed.encoded()], then_read: 1 })
            &&& negotiated(ours, theirs) == NegotiationResult::Compatible(agreed)
            &&& confirmed == (
                HandshakeState::Ready { negotiated: agreed },
                Outcome::Done { negotiated: agreed },
            )
        }),
{
    lemma_byte_round_trip(ours.lower_of(theirs));
}

/// A handshake is complete only through a confirmation that names our own
/// choice, and a handshake that was aborted stays aborted.
pub proof fn lemma_ready_needs_confirmation(
    ours: ProtocolVersion,
    state: HandshakeState,
    event: HandshakeEvent,
)
    ensures
        handshake_step(ours, state, event).0 matches HandshakeState::Ready { negotiated } ==> state
            == (HandshakeState::AwaitConfirmation { negotiated }) && (event matches HandshakeEvent::Confirmation {
            byte,
        } && decoded_version(byte) == Some(negotiated)),
        state is Aborted ==> handshake_step(ours, state, event).0 is Aborted,
        state is Ready ==> handshake_step(ours, state, event).0 is Aborted,
{
}

} // verus!
