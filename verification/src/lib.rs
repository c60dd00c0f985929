//! A peer-to-peer data client for a blockchain state-synchronization layer.
//!
//! The library keeps, for every connected peer, the peer's self-advertised
//! data summary together with a reputation score, and answers three kinds of
//! question for its host:
//!
//! - which peers should be polled next for a fresh storage summary
//!   (a two-tier, age-aware rotation policy);
//! - which peer should serve a given data request (score-weighted choice
//!   among the non-ignored peers that advertise the requested range);
//! - what the union of all healthy peers' advertisements currently looks
//!   like, including the optimal chunk sizes derived from it.
//!
//! The RPC transport, timers and connection events live outside the library:
//! the host feeds connection events, poll responses and request outcomes into
//! the client state and performs the network calls itself.

pub mod chunks;
pub mod client;
pub mod config;
pub mod error;
pub mod rotation;
pub mod score;
pub mod summary;
