//! Synchronization core for a two-peer chess session: the wire data model,
//! a self-delimiting record codec, the translation between wire coordinates
//! and a rules engine's padded linear addressing, and the server- and
//! client-side state machines that keep both peers consistent move by move.
//!
//! Chess legality itself (move checking, checkmate detection, move
//! enumeration) is the business of an external rules engine, consulted as an
//! oracle: its verdicts enter the library as plain values, and everything the
//! library decides from them is verified.

pub mod protocol;
pub mod translate;
pub mod codec;
pub mod session;
