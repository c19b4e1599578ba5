//! Replay packet container engine: binary packet framing, protocol-phase
//! tracking, identifier filtering, and multi-stream merging for game-session
//! replay archives.

pub mod archive;
pub mod error;
pub mod filter;
pub mod flashback;
pub mod mcpr;
pub mod merge;
pub mod protocol;
