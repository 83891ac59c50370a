//! Peer-to-peer, end-to-end encrypted chat for two people: identity, message
//! framing, Noise handshake, Double Ratchet, sessions, stored records and the
//! rules of the command line and the window.

use vstd::prelude::*;

pub mod bytes;
pub mod cli;
pub mod config;
pub mod crypto;
pub mod exchange;
pub mod identity;
pub mod laws;
pub mod message;
pub mod primitives;
pub mod ratchet;
pub mod session;
pub mod storage;
pub mod text;
pub mod transport;
pub mod ui;

verus! {

/// Package version string.
pub const VERSION: &'static str = "0.1.0";

} // verus!
