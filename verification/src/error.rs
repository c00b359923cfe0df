//! The kinds of failure of a mixnode.

use vstd::prelude::*;

verus! {

/// A failure, by kind, with a description.
#[derive(Debug, Clone, PartialEq, Eq)]
pub enum MixnodeError {
    /// Input or output failed; recoverable at the scope of the connection.
    Io(String),
    /// A cryptographic operation failed; the packet is dropped.
    Crypto(String),
    /// A packet was malformed or too large; the packet is dropped.
    Packet(String),
    /// No candidate to route to.
    Routing(String),
    /// The configuration is invalid.
    Config(String),
    /// A connection or a send to the next hop failed.
    Network(String),
    /// A proof failed to verify or could not be made.
    Vrf(String),
    /// The peer violated the handshake.
    Protocol(String),
}

impl MixnodeError {
    /// The description.
    pub open spec fn detail(self) -> Seq<char> {
        match self {
            MixnodeError::Io(m) => m@,
            MixnodeError::Crypto(m) => m@,
            MixnodeError::Packet(m) => m@,
            MixnodeError::Routing(m) => m@,
            MixnodeError::Config(m) => m@,
            MixnodeError::Network(m) => m@,
            MixnodeError::Vrf(m) => m@,
            MixnodeError::Protocol(m) => m@,
        }
    }

    /// What stands before the description in the error's message.
    pub open spec fn prefix(self) -> Seq<char> {
        match self {
            MixnodeError::Io(_) => "IO error: "@,
            MixnodeError::Crypto(_) => "Crypto error: "@,
            MixnodeError::Packet(_) => "Packet error: "@,
            MixnodeError::Routing(_) => "Routing error: "@,
            MixnodeError::Config(_) => "Configuration error: "@,
            MixnodeError::Network(_) => "Network error: "@,
            MixnodeError::Vrf(_) => "VRF error: "@,
            MixnodeError::Protocol(_) => "Protocol error: "@,
        }
    }

    /// The error's message: its kind, then its description.
    pub fn message(&self) -> (text: String)
        ensures
            text@ == self.prefix() + self.detail(),
    {
        match self {
            MixnodeError::Io(m) => String::from_str("IO error: ").concat(m.as_str()),
            MixnodeError::Crypto(m) => String::from_str("Crypto error: ").concat(m.as_str()),
            MixnodeError::Packet(m) => String::from_str("Packet error: ").concat(m.as_str()),
            MixnodeError::Routing(m) => String::from_str("Routing error: ").concat(m.as_str()),
            MixnodeError::Config(m) => String::from_str("Configuration error: ").concat(m.as_str()),
            MixnodeError::Network(m) => String::from_str("Network error: ").concat(m.as_str()),
            MixnodeError::Vrf(m) => String::from_str("VRF error: ").concat(m.as_str()),
            MixnodeError::Protocol(m) => String::from_str("Protocol error: ").concat(m.as_str()),
        }
    }
}

} // verus!
