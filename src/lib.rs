//! Roughly time-ordered 64-bit identifiers, packed from a timestamp, an instance
//! identity and a per-second sequence, and a client that spreads requests for them
//! over several generator endpoints in rotation.
pub mod clock;
pub mod id;
pub mod generator;
pub mod client;
pub mod shortener;
pub mod traffic;
