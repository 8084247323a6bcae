//! A verified core for a WebSocket handshake server.
//!
//! The library holds the logic of the opening handshake of RFC 6455:
//! deriving the accept value from the client's key, collecting HTTP
//! headers streamed in arbitrary chunks, the per-connection state
//! machine, and the reactor's registry of live connections. The
//! surrounding process (sockets, readiness notifications) drives these
//! functions from outside.

pub mod conn;
pub mod headers;
pub mod key;
pub mod parser;
pub mod server;

use vstd::prelude::*;

verus! {

/// Lifecycle of one connection: the handshake request is still being
/// read, the 101 response is owed, or the upgrade is complete.
#[derive(PartialEq, Eq, Structural, Clone, Copy, Debug)]
pub enum ClientState {
    AwaitingHandshake,
    HandshakeResponse,
    Connected,
}

/// The single readiness condition a connection is interested in.
/// A connection is always interested in exactly one of the two.
#[derive(PartialEq, Eq, Structural, Clone, Copy, Debug)]
pub enum Interest {
    Readable,
    Writable,
}

/// Per-connection failures of the handshake logic. None of them is
/// allowed to take the whole server down.
#[derive(PartialEq, Eq, Structural, Clone, Copy, Debug)]
pub enum HandshakeError {
    /// Header bytes were not valid UTF-8.
    Encoding,
    /// `Sec-WebSocket-Key` was absent when the response was owed.
    MissingHeader,
}

/// Position of a state in the one-way lifecycle
/// `AwaitingHandshake -> HandshakeResponse -> Connected`.
pub open spec fn state_rank(s: ClientState) -> int {
    match s {
        ClientState::AwaitingHandshake => 0,
        ClientState::HandshakeResponse => 1,
        ClientState::Connected => 2,
    }
}

} // verus!
