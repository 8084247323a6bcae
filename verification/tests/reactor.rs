//! The reactor's registry: token allocation and independent connections.

use ws_handshake::key::gen_key;
use ws_handshake::server::{WebSocketServer, SERVER_TOKEN};
use ws_handshake::{ClientState, Interest};

#[test]
fn tokens_are_fresh_and_never_the_listeners() {
    let mut server = WebSocketServer::new();
    assert!(server.can_accept());
    let t1 = server.accept_client();
    let t2 = server.accept_client();
    assert_ne!(t1, SERVER_TOKEN);
    assert_ne!(t2, SERVER_TOKEN);
    assert_ne!(t1, t2);
    assert!(server.has_client(t1));
    assert!(server.has_client(t2));
    assert!(!server.has_client(SERVER_TOKEN));
    assert_eq!(server.client(t1).state(), ClientState::AwaitingHandshake);
    assert_eq!(server.client(t1).interest(), Interest::Readable);
}

#[test]
fn two_connections_are_independent() {
    let mut server = WebSocketServer::new();
    let t1 = server.accept_client();
    let t2 = server.accept_client();

    server.client_data(
        t1,
        b"GET / HTTP/1.1\r\nUpgrade: websocket\r\nSec-WebSocket-Key: dGhlIHNhbXBsZSBub25jZQ==\r\n\r\n",
    );
    server.client_data(
        t2,
        b"GET / HTTP/1.1\r\nUpgrade: websocket\r\nSec-WebSocket-Key: c2Vjb25kLWNvbm5lY3Rpb24q\r\n\r\n",
    );

    // no header of one request leaks into the other connection
    assert_eq!(
        server.client(t1).header("Sec-WebSocket-Key").unwrap().as_str(),
        "dGhlIHNhbXBsZSBub25jZQ=="
    );
    assert_eq!(
        server.client(t2).header("Sec-WebSocket-Key").unwrap().as_str(),
        "c2Vjb25kLWNvbm5lY3Rpb24q"
    );

    let r1 = server.client_writable(t1).unwrap();
    let r2 = server.client_writable(t2).unwrap();
    assert_ne!(r1, r2);
    let a1 = format!("Sec-WebSocket-Accept: {}\r\n", gen_key("dGhlIHNhbXBsZSBub25jZQ=="));
    let a2 = format!("Sec-WebSocket-Accept: {}\r\n", gen_key("c2Vjb25kLWNvbm5lY3Rpb24q"));
    assert!(r1.contains(&a1));
    assert!(r2.contains(&a2));
    assert_eq!(server.client(t1).state(), ClientState::Connected);
    assert_eq!(server.client(t2).state(), ClientState::Connected);
}

#[test]
fn dispatch_leaves_other_connections_alone() {
    let mut server = WebSocketServer::new();
    let t1 = server.accept_client();
    let t2 = server.accept_client();
    server.client_data(t1, b"GET / HTTP/1.1\r\nUpgrade: websocket\r\n\r\n");
    assert_eq!(server.client(t1).state(), ClientState::HandshakeResponse);
    assert_eq!(server.client(t2).state(), ClientState::AwaitingHandshake);
    assert_eq!(server.client(t2).interest(), Interest::Readable);
    assert!(server.client(t2).header("Upgrade").is_none());
}
