//! The per-connection handshake state machine.
//!
//! A connection starts awaiting the handshake request and interested in
//! reading. Once the tokenizer recognizes an upgrade request, the
//! connection owes the 101 response and its interest flips to writing.
//! Producing the response makes it `Connected`, interested in reading
//! again, and nothing moves it out of that state.

use vstd::prelude::*;
use vstd::string::*;
use crate::key::{accept_value, gen_key};
use crate::parser::{initial_parser, parse_bytes, HttpParser, ParserModel};
use crate::{state_rank, ClientState, HandshakeError, Interest};

verus! {

/// The observable state of one connection.
#[verifier::ext_equal]
pub ghost struct ConnModel {
    pub state: ClientState,
    pub interest: Interest,
    pub parser: ParserModel,
}

/// A connection that has not read anything yet.
pub open spec fn initial_conn() -> ConnModel {
    ConnModel {
        state: ClientState::AwaitingHandshake,
        interest: Interest::Readable,
        parser: initial_parser(),
    }
}

/// What one chunk of read bytes does to a connection: while the
/// handshake is awaited the bytes go to the tokenizer, and a recognized
/// upgrade request moves the connection on and flips its interest to
/// writing. In any other state read data is ignored.
pub open spec fn conn_after_data(c: ConnModel, bytes: Seq<u8>) -> ConnModel {
    if c.state != ClientState::AwaitingHandshake {
        c
    } else {
        let p = parse_bytes(c.parser, bytes);
        if p.done && p.upgrade {
            ConnModel { state: ClientState::HandshakeResponse, interest: Interest::Writable, parser: p }
        } else {
            ConnModel { state: c.state, interest: c.interest, parser: p }
        }
    }
}

/// The header whose value the accept derivation needs.
pub open spec fn ws_key_name() -> Seq<char> {
    "Sec-WebSocket-Key"@
}

/// The full 101 response for a given accept value.
pub open spec fn http_response(accept: Seq<char>) -> Seq<char> {
    "HTTP/1.1 101 Switching Protocols\r\nConnection: Upgrade\r\nSec-WebSocket-Accept: "@ + accept
        + "\r\nUpgrade: websocket\r\n\r\n"@
}

/// Formats the fixed 101 response around the accept value.
pub fn format_response(accept: &str) -> (r: String)
    ensures
        r@ == http_response(accept@),
{
    let mut r = String::from_str(
        "HTTP/1.1 101 Switching Protocols\r\nConnection: Upgrade\r\nSec-WebSocket-Accept: ",
    );
    r.append(accept);
    r.append("\r\nUpgrade: websocket\r\n\r\n");
    r
}

/// One live client connection: its tokenizer (which owns the header
/// mapping), its current interest, and its lifecycle state. The socket
/// itself stays with the caller, who reads and writes on this
/// connection's behalf.
pub struct WebsocketClient {
    http_parser: HttpParser,
    interest: Interest,
    state: ClientState,
}

impl View for WebsocketClient {
    type V = ConnModel;

    closed spec fn view(&self) -> ConnModel {
        ConnModel { state: self.state, interest: self.interest, parser: self.http_parser@ }
    }
}

impl WebsocketClient {
    /// A connection is interested in writing exactly while it owes the
    /// handshake response.
    pub open spec fn wf(&self) -> bool {
        (self@.interest == Interest::Writable) <==> (self@.state == ClientState::HandshakeResponse)
    }

    /// A fresh connection, awaiting its handshake request.
    pub fn new() -> (r: Self)
        ensures
            r@ == initial_conn(),
            r.wf(),
    {
        WebsocketClient {
            http_parser: HttpParser::new(),
            interest: Interest::Readable,
            state: ClientState::AwaitingHandshake,
        }
    }

    /// Feeds one chunk of bytes read from the socket. The caller reads
    /// chunk after chunk until the socket has no more, and stops early
    /// once the interest has flipped to writing.
    pub fn on_data(&mut self, buf: &[u8])
        requires
            old(self).wf(),
        ensures
            final(self).wf(),
            final(self)@ == conn_after_data(old(self)@, buf@),
            state_rank(old(self)@.state) <= state_rank(final(self)@.state),
    {
        if self.state == ClientState::AwaitingHandshake {
            self.http_parser.parse(buf);
            if self.http_parser.is_upgrade() {
                self.state = ClientState::HandshakeResponse;
                self.interest = Interest::Writable;
            }
        }
    }

    /// Produces the handshake response owed to this connection, moving
    /// it to `Connected` with its interest back on reading. The caller
    /// writes the returned bytes to the socket in one non-blocking
    /// attempt. Without a `Sec-WebSocket-Key` header this fails with
    /// `MissingHeader`, nothing is to be written, and nothing changes.
    pub fn on_writable(&mut self) -> (r: Result<String, HandshakeError>)
        requires
            old(self).wf(),
            old(self)@.state == ClientState::HandshakeResponse,
        ensures
            final(self).wf(),
            state_rank(old(self)@.state) <= state_rank(final(self)@.state),
            match r {
                Ok(resp) => {
                    &&& old(self)@.parser.collector.headers.contains_key(ws_key_name())
                    &&& resp@ == http_response(
                        accept_value(old(self)@.parser.collector.headers[ws_key_name()]),
                    )
                    &&& final(self)@ == (ConnModel {
                        state: ClientState::Connected,
                        interest: Interest::Readable,
                        parser: old(self)@.parser,
                    })
                },
                Err(e) => {
                    &&& e == HandshakeError::MissingHeader
                    &&& !old(self)@.parser.collector.headers.contains_key(ws_key_name())
                    &&& final(self)@ == old(self)@
                },
            },
    {
        let key = match self.http_parser.headers().get("Sec-WebSocket-Key") {
            Some(k) => k,
            None => {
                return Err(HandshakeError::MissingHeader);
            },
        };
        let response_key = gen_key(key.as_str());
        let response = format_response(response_key.as_str());
        self.state = ClientState::Connected;
        self.interest = Interest::Readable;
        Ok(response)
    }

    /// The connection's lifecycle state.
    pub fn state(&self) -> (r: ClientState)
        ensures
            r == self@.state,
    {
        self.state
    }

    /// The readiness condition to register this connection for next.
    pub fn interest(&self) -> (r: Interest)
        ensures
            r == self@.interest,
    {
        self.interest
    }

    /// Looks a header of the request up, as collected so far.
    pub fn header<'a>(&'a self, k: &str) -> (r: Option<&'a String>)
        ensures
            match r {
                Some(v) => self@.parser.collector.headers.contains_key(k@) && v@
                    == self@.parser.collector.headers[k@],
                None => !self@.parser.collector.headers.contains_key(k@),
            },
    {
        self.http_parser.headers().get(k)
    }

    /// Whether the request's headers could not be decoded; the owner
    /// may drop such a connection.
    pub fn has_parse_error(&self) -> (r: bool)
        ensures
            r == self@.parser.failed,
    {
        self.http_parser.has_failed()
    }
}

/// Where the reads split the request cannot change the outcome: a
/// connection fed a byte stream in two chunks ends exactly as one fed
/// the whole stream at once.
pub proof fn lemma_conn_data_chunked(c: ConnModel, a: Seq<u8>, b: Seq<u8>)
    ensures
        conn_after_data(conn_after_data(c, a), b) == conn_after_data(c, a + b),
{
    crate::parser::lemma_parse_chunked(c.parser, a, b);
    if c.state == ClientState::AwaitingHandshake {
        let p = parse_bytes(c.parser, a);
        if p.done && p.upgrade {
            crate::parser::lemma_parse_absorbing(p, b);
        }
    }
}

/// The lifecycle is monotone: no chunk of read data moves a connection's
/// state backward.
pub proof fn lemma_data_monotone(c: ConnModel, bytes: Seq<u8>)
    ensures
        state_rank(c.state) <= state_rank(conn_after_data(c, bytes).state),
{
}

/// Interest exclusivity: at any point a connection's interest is exactly
/// one of reading and writing, never both, never neither.
pub proof fn lemma_interest_exclusive(i: Interest)
    ensures
        (i == Interest::Readable) != (i == Interest::Writable),
{
}

} // verus!
