//! The reactor's bookkeeping: a registry of live connections keyed by
//! token, and the dispatch steps behind each readiness notification.
//!
//! The caller owns the sockets and the readiness mechanism; it accepts,
//! reads and writes, and hands every decision to these functions. After
//! each dispatch it must re-register the connection's socket for the
//! connection's current interest, one-shot and edge-triggered.

use vstd::prelude::*;
use vstd::hash_map::HashMapWithView;
use vstd::pervasive::unreached;
use crate::conn::{conn_after_data, http_response, initial_conn, ws_key_name, WebsocketClient};
use crate::key::accept_value;
use crate::{ClientState, HandshakeError, Interest};

verus! {

broadcast use vstd::std_specs::hash::group_hash_axioms;

/// The reserved token of the listening socket, distinct from every
/// connection token.
pub const SERVER_TOKEN: usize = 0;

/// The reactor's registry: live connections keyed by their token, and
/// the counter the tokens are allocated from.
pub struct WebSocketServer {
    token_counter: usize,
    clients: HashMapWithView<usize, WebsocketClient>,
}

impl WebSocketServer {
    /// The registry of live connections.
    pub closed spec fn registry(&self) -> Map<usize, WebsocketClient> {
        self.clients@
    }

    /// The token allocated last (initially 1, a value never handed out).
    pub closed spec fn counter(&self) -> usize {
        self.token_counter
    }

    /// Connection tokens come from the counter: above the listener's
    /// reserved token, at most the counter (so never reused while
    /// live), and every registered connection is well formed.
    pub open spec fn wf(&self) -> bool {
        forall|t: usize| #[trigger]
            self.registry().contains_key(t) ==> SERVER_TOKEN < t <= self.counter()
                && self.registry()[t].wf()
    }

    /// A server with no live connections yet.
    pub fn new() -> (s: Self)
        ensures
            s.wf(),
            s.counter() == 1,
            s.registry() == Map::<usize, WebsocketClient>::empty(),
    {
        WebSocketServer { token_counter: 1, clients: HashMapWithView::new() }
    }

    /// A readable event on the listening socket, after the caller
    /// accepted the pending connection: allocates the next token and
    /// registers a fresh connection under it. The caller must then
    /// register the accepted socket under that token, readable. No
    /// other registry entry changes.
    pub fn accept_client(&mut self) -> (t: usize)
        requires
            old(self).wf(),
            old(self).counter() < usize::MAX,
        ensures
            final(self).wf(),
            t == old(self).counter() + 1,
            t != SERVER_TOKEN,
            !old(self).registry().contains_key(t),
            final(self).counter() == t,
            final(self).registry().contains_key(t),
            final(self).registry()[t]@ == initial_conn(),
            final(self).registry().remove(t) == old(self).registry(),
    {
        self.token_counter = self.token_counter + 1;
        let new_token = self.token_counter;
        self.clients.insert(new_token, WebsocketClient::new());
        proof {
            assert(!old(self).registry().contains_key(new_token));
            assert(self.clients@.remove(new_token) =~= old(self).clients@);
            assert forall|u: usize| #[trigger]
                self.registry().contains_key(u) implies SERVER_TOKEN < u <= self.counter()
                && self.registry()[u].wf() by {
                if u != new_token {
                    assert(old(self).registry().contains_key(u));
                }
            };
        }
        new_token
    }

    /// A readable event for a connection token: one chunk the caller
    /// read from that connection's socket is handed to the connection.
    /// No other registry entry changes.
    pub fn client_data(&mut self, token: usize, buf: &[u8])
        requires
            old(self).wf(),
            old(self).registry().contains_key(token),
        ensures
            final(self).wf(),
            final(self).counter() == old(self).counter(),
            final(self).registry().dom() == old(self).registry().dom(),
            final(self).registry()[token]@ == conn_after_data(
                old(self).registry()[token]@,
                buf@,
            ),
            forall|u: usize|
                u != token && old(self).registry().contains_key(u)
                    ==> final(self).registry().contains_key(u)
                    && final(self).registry()[u] == old(self).registry()[u],
    {
        let mut client = match self.clients.remove(&token) {
            Some(c) => c,
            None => unreached(),
        };
        client.on_data(buf);
        self.clients.insert(token, client);
        proof {
            assert(self.clients@.dom() =~= old(self).clients@.dom());
        }
    }

    /// A writable event for a connection token: the connection owes the
    /// handshake response; on success the caller must write the
    /// returned bytes to that connection's socket in one non-blocking
    /// attempt. Fails with `MissingHeader`, changing nothing, exactly
    /// when the request had no `Sec-WebSocket-Key`. No other registry
    /// entry changes.
    pub fn client_writable(&mut self, token: usize) -> (r: Result<String, HandshakeError>)
        requires
            old(self).wf(),
            old(self).registry().contains_key(token),
            old(self).registry()[token]@.state == ClientState::HandshakeResponse,
        ensures
            final(self).wf(),
            final(self).counter() == old(self).counter(),
            final(self).registry().dom() == old(self).registry().dom(),
            forall|u: usize|
                u != token && old(self).registry().contains_key(u)
                    ==> final(self).registry().contains_key(u)
                    && final(self).registry()[u] == old(self).registry()[u],
            match r {
                Ok(resp) => {
                    &&& old(self).registry()[token]@.parser.collector.headers.contains_key(
                        ws_key_name(),
                    )
                    &&& resp@ == http_response(
                        accept_value(
                            old(self).registry()[token]@.parser.collector.headers[ws_key_name()],
                        ),
                    )
                    &&& final(self).registry()[token]@.state == ClientState::Connected
                    &&& final(self).registry()[token]@.interest == Interest::Readable
                    &&& final(self).registry()[token]@.parser
                        == old(self).registry()[token]@.parser
                },
                Err(e) => {
                    &&& e == HandshakeError::MissingHeader
                    &&& !old(self).registry()[token]@.parser.collector.headers.contains_key(
                        ws_key_name(),
                    )
                    &&& final(self).registry()[token]@ == old(self).registry()[token]@
                },
            },
    {
        let mut client = match self.clients.remove(&token) {
            Some(c) => c,
            None => unreached(),
        };
        let r = client.on_writable();
        self.clients.insert(token, client);
        proof {
            assert(self.clients@.dom() =~= old(self).clients@.dom());
        }
        r
    }

    /// Whether another token can still be allocated.
    pub fn can_accept(&self) -> (r: bool)
        ensures
            r == (self.counter() < usize::MAX),
    {
        self.token_counter < usize::MAX
    }

    /// Whether a connection is registered under the token. The
    /// readiness mechanism reporting a token with no registry entry is
    /// an invariant violation the caller may treat as fatal.
    pub fn has_client(&self, token: usize) -> (r: bool)
        ensures
            r == self.registry().contains_key(token),
    {
        self.clients.contains_key(&token)
    }

    /// The connection registered under the token, for its interest,
    /// state and headers.
    pub fn client<'a>(&'a self, token: usize) -> (r: &'a WebsocketClient)
        requires
            self.registry().contains_key(token),
        ensures
            *r == self.registry()[token],
    {
        match self.clients.get(&token) {
            Some(c) => c,
            None => unreached(),
        }
    }
}

} // verus!
