//! The logic of a privacy-preserving mixnode, with machine-checked contracts.
//!
//! A mixnode takes onion-encrypted packets in, peels a layer, holds each
//! packet for a random time and passes it on. This crate holds what such a
//! node decides and computes; sockets, timers and whatever needs floating
//! point stay with the program around it.
//!
//! * Versions: [`protocol_version`], [`handshake`], [`compatibility`],
//!   [`versions`].
//! * The wire: [`wire`], [`framing`].
//! * The packet's way through the node: [`pipeline`], [`batching`],
//!   [`delay`], [`cover`], [`timing_defense`].
//! * Where packets go next: [`reputation`], [`relay_lottery`].
//! * Around it: [`error`], [`stats`], [`admin`], [`monitoring`],
//!   [`circuit_breaker`].
//!
//! Fractions are whole numbers of millionths throughout ([`fixed`]), so
//! that every rule on them is exact. Calls into other crates are few and
//! each stands in a small function of its own, whose comment says what is
//! taken on trust: the calendar and the clock ([`clock`]), random draws
//! ([`random`]), and in [`relay_lottery`] the weighted draw, the hash and
//! the verifiable random function.

pub mod admin;
pub mod batching;
pub mod circuit_breaker;
pub mod clock;
pub mod compatibility;
pub mod cover;
pub mod delay;
pub mod error;
pub mod fixed;
pub mod framing;
pub mod handshake;
pub mod monitoring;
pub mod pipeline;
pub mod protocol_version;
pub mod random;
pub mod relay_lottery;
pub mod reputation;
pub mod stats;
pub mod text;
pub mod timing_defense;
pub mod versions;
pub mod wire;
