//! The opening handshake, end to end through the library's types.

use ws_handshake::conn::WebsocketClient;
use ws_handshake::key::gen_key;
use ws_handshake::{ClientState, HandshakeError, Interest};

const SAMPLE_KEY: &str = "dGhlIHNhbXBsZSBub25jZQ==";
const SAMPLE_ACCEPT: &str = "s3pPLMBiTxaQ9kYGzzhZRbK+xOo=";

#[test]
fn rfc_example_accept_value() {
    assert_eq!(gen_key(SAMPLE_KEY).as_str(), SAMPLE_ACCEPT);
}

#[test]
fn accept_value_is_deterministic() {
    assert_eq!(gen_key(SAMPLE_KEY), gen_key(SAMPLE_KEY));
}

#[test]
fn different_keys_give_different_accepts() {
    assert_ne!(gen_key(SAMPLE_KEY), gen_key("c2Vjb25kLWNvbm5lY3Rpb24q"));
}

#[test]
fn fresh_connection_awaits_handshake() {
    let client = WebsocketClient::new();
    assert_eq!(client.state(), ClientState::AwaitingHandshake);
    assert_eq!(client.interest(), Interest::Readable);
}

#[test]
fn handshake_split_across_reads() {
    let mut client = WebsocketClient::new();
    let request = "GET / HTTP/1.1\r\nHost: x\r\nUpgrade: websocket\r\nConnection: Upgrade\r\nSec-WebSocket-Key: dGhlIHNhbXBsZSBub25jZQ==\r\n\r\n";
    // split in the middle of a header line
    let (first, second) = request.as_bytes().split_at(30);

    client.on_data(first);
    assert_eq!(client.state(), ClientState::AwaitingHandshake);
    assert_eq!(client.interest(), Interest::Readable);

    client.on_data(second);
    assert_eq!(client.state(), ClientState::HandshakeResponse);
    assert_eq!(client.interest(), Interest::Writable);

    let response = client.on_writable().unwrap();
    assert_eq!(
        response,
        "HTTP/1.1 101 Switching Protocols\r\nConnection: Upgrade\r\nSec-WebSocket-Accept: s3pPLMBiTxaQ9kYGzzhZRbK+xOo=\r\nUpgrade: websocket\r\n\r\n"
    );
    assert_eq!(client.state(), ClientState::Connected);
    assert_eq!(client.interest(), Interest::Readable);
}

#[test]
fn handshake_in_one_read() {
    let mut client = WebsocketClient::new();
    client.on_data(
        b"GET / HTTP/1.1\r\nUpgrade: websocket\r\nSec-WebSocket-Key: dGhlIHNhbXBsZSBub25jZQ==\r\n\r\n",
    );
    assert_eq!(client.state(), ClientState::HandshakeResponse);
    let response = client.on_writable().unwrap();
    assert!(response.starts_with("HTTP/1.1 101 Switching Protocols\r\n"));
    assert!(response.ends_with("Upgrade: websocket\r\n\r\n"));
}

#[test]
fn missing_key_rejected_and_nothing_changes() {
    let mut client = WebsocketClient::new();
    client.on_data(b"GET / HTTP/1.1\r\nUpgrade: websocket\r\n\r\n");
    assert_eq!(client.state(), ClientState::HandshakeResponse);
    assert_eq!(client.on_writable(), Err(HandshakeError::MissingHeader));
    assert_eq!(client.state(), ClientState::HandshakeResponse);
    assert_eq!(client.interest(), Interest::Writable);
}

#[test]
fn no_upgrade_header_keeps_reading() {
    let mut client = WebsocketClient::new();
    client.on_data(b"GET / HTTP/1.1\r\nHost: x\r\n\r\n");
    assert_eq!(client.state(), ClientState::AwaitingHandshake);
    assert_eq!(client.interest(), Interest::Readable);
}

#[test]
fn upgrade_header_name_is_case_insensitive() {
    let mut client = WebsocketClient::new();
    client.on_data(b"GET / HTTP/1.1\r\nUPGRADE: websocket\r\n\r\n");
    assert_eq!(client.state(), ClientState::HandshakeResponse);
}

#[test]
fn connected_state_is_terminal() {
    let mut client = WebsocketClient::new();
    client.on_data(
        b"GET / HTTP/1.1\r\nUpgrade: websocket\r\nSec-WebSocket-Key: dGhlIHNhbXBsZSBub25jZQ==\r\n\r\n",
    );
    client.on_writable().unwrap();
    assert_eq!(client.state(), ClientState::Connected);
    // further read data must not move the connection backward
    client.on_data(b"GET / HTTP/1.1\r\nUpgrade: websocket\r\n\r\n");
    assert_eq!(client.state(), ClientState::Connected);
    assert_eq!(client.interest(), Interest::Readable);
}

#[test]
fn header_values_are_collected_and_trimmed() {
    let mut client = WebsocketClient::new();
    client.on_data(b"GET / HTTP/1.1\r\nHost:   spaced out \r\nPlain:v\r\n\r\n");
    assert_eq!(client.header("Host").unwrap().as_str(), "spaced out ");
    assert_eq!(client.header("Plain").unwrap().as_str(), "v");
    assert!(client.header("Absent").is_none());
}

#[test]
fn invalid_utf8_header_marks_the_connection() {
    let mut client = WebsocketClient::new();
    assert!(!client.has_parse_error());
    client.on_data(b"GET / HTTP/1.1\r\nHost: \xff\xfe\r\n\r\n");
    assert!(client.has_parse_error());
}
