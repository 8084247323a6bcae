//! Derivation of the `Sec-WebSocket-Accept` value (RFC 6455, section 4.2.2).

use vstd::prelude::*;
use vstd::string::*;
use vstd::utf8::encode_utf8;
use rustc_serialize::base64::{STANDARD, ToBase64};
use sha1::{Digest, Sha1};

verus! {

/// The digest that SHA-1 assigns to a byte sequence.
pub uninterp spec fn sha1_of(bytes: Seq<u8>) -> Seq<u8>;

/// The standard base64 encoding (`+`/`/` alphabet, `=` padding, no line
/// breaks) of a byte sequence.
pub uninterp spec fn base64_of(bytes: Seq<u8>) -> Seq<char>;

/// The fixed GUID that RFC 6455 appends to the client's key before
/// hashing.
pub open spec fn handshake_guid() -> Seq<char> {
    "258EAFA5-E914-47DA-95CA-C5AB0DC85B11"@
}

/// The accept value owed for a client key: base64 of the SHA-1 digest of
/// the UTF-8 bytes of the key followed by the protocol GUID.
pub open spec fn accept_value(key: Seq<char>) -> Seq<char> {
    base64_of(sha1_of(encode_utf8(key + handshake_guid())))
}

/// Relies on `sha1::Sha1` (through `digest::Digest::digest`): the SHA-1
/// digest is a function of the input bytes alone and is 20 bytes long.
#[verifier::external_body]
fn sha1_digest(bytes: &[u8]) -> (r: Vec<u8>)
    ensures
        r@ == sha1_of(bytes@),
        r@.len() == 20,
{
    Sha1::digest(bytes).to_vec()
}

/// Relies on `rustc_serialize::base64::ToBase64` for `[u8]` with the
/// `STANDARD` configuration: the encoding is a function of the input
/// bytes alone.
#[verifier::external_body]
fn base64_encode(bytes: &[u8]) -> (r: String)
    ensures
        r@ == base64_of(bytes@),
{
    bytes.to_base64(STANDARD)
}

/// Derives the accept value of the handshake response from the client's
/// `Sec-WebSocket-Key` value. Pure and deterministic.
pub fn gen_key(key: &str) -> (r: String)
    ensures
        r@ == accept_value(key@),
{
    let mut input = String::from_str(key);
    input.append("258EAFA5-E914-47DA-95CA-C5AB0DC85B11");
    let digest = sha1_digest(input.as_str().as_bytes());
    base64_encode(digest.as_slice())
}

} // verus!
