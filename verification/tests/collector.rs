//! The header collector's callback-shaped operations.

use ws_handshake::headers::HeaderCollector;
use ws_handshake::HandshakeError;

#[test]
fn field_then_value_inserts() {
    let mut c = HeaderCollector::new();
    c.on_header_field(b"Host").unwrap();
    c.on_header_value(b"example").unwrap();
    assert_eq!(c.get("Host").unwrap().as_str(), "example");
    assert!(c.contains("Host"));
    assert!(!c.contains("host"));
}

#[test]
fn overwrite_keeps_only_the_latest_value() {
    let mut c = HeaderCollector::new();
    c.on_header_field(b"Host").unwrap();
    c.on_header_value(b"one").unwrap();
    c.on_header_field(b"Host").unwrap();
    c.on_header_value(b"two").unwrap();
    assert_eq!(c.get("Host").unwrap().as_str(), "two");
}

#[test]
fn invalid_utf8_field_is_an_encoding_error() {
    let mut c = HeaderCollector::new();
    assert_eq!(c.on_header_field(b"\xff\xfe"), Err(HandshakeError::Encoding));
    assert!(!c.contains("\u{fffd}\u{fffd}"));
}

#[test]
fn invalid_utf8_value_is_an_encoding_error() {
    let mut c = HeaderCollector::new();
    c.on_header_field(b"Host").unwrap();
    assert_eq!(c.on_header_value(b"\xff"), Err(HandshakeError::Encoding));
    assert!(!c.contains("Host"));
}

#[test]
fn non_ascii_utf8_is_decoded() {
    let mut c = HeaderCollector::new();
    c.on_header_field("Gr\u{fc}\u{df}e".as_bytes()).unwrap();
    c.on_header_value("sch\u{f6}n".as_bytes()).unwrap();
    assert_eq!(c.get("Gr\u{fc}\u{df}e").unwrap().as_str(), "sch\u{f6}n");
}

#[test]
fn headers_complete_stops_the_tokenizer() {
    let mut c = HeaderCollector::new();
    assert!(!c.on_headers_complete());
}
