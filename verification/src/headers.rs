//! Incremental collection of streamed HTTP header field/value pairs into
//! a connection's header mapping.
//!
//! The tokenizer reports a header field, then its value, as raw bytes;
//! the collector decodes them as UTF-8 and inserts or overwrites the
//! entry. Only one field is pending at a time.

use vstd::prelude::*;
use vstd::hash_map::StringHashMap;
use vstd::pervasive::unreached;
use vstd::utf8::{decode_utf8, valid_utf8};
use crate::HandshakeError;

verus! {

/// Model of the collector: the decoded field name waiting for its value,
/// and the mapping built so far.
pub ghost struct CollectorModel {
    pub current_key: Option<Seq<char>>,
    pub headers: Map<Seq<char>, Seq<char>>,
}

/// The collector before any event was fed.
pub open spec fn empty_collector() -> CollectorModel {
    CollectorModel { current_key: None, headers: Map::empty() }
}

/// What a header-field event does to the model: a valid UTF-8 name
/// becomes the pending key; invalid bytes fail and change nothing.
pub open spec fn collect_field(c: CollectorModel, s: Seq<u8>) -> (CollectorModel, bool) {
    if valid_utf8(s) {
        (CollectorModel { current_key: Some(decode_utf8(s)), headers: c.headers }, true)
    } else {
        (c, false)
    }
}

/// What a header-value event does to the model: a valid UTF-8 value is
/// inserted under the pending key, overwriting any earlier value of that
/// key; invalid bytes fail and change nothing.
pub open spec fn collect_value(c: CollectorModel, s: Seq<u8>) -> (CollectorModel, bool) {
    match c.current_key {
        Some(k) => if valid_utf8(s) {
            (
                CollectorModel { current_key: c.current_key, headers: c.headers.insert(k, decode_utf8(s)) },
                true,
            )
        } else {
            (c, false)
        },
        None => (c, false),
    }
}

/// Relies on `core::str::from_utf8` (and `str::to_owned`): it succeeds
/// exactly on valid UTF-8, returning the string those bytes encode.
#[verifier::external_body]
fn bytes_to_string(s: &[u8]) -> (r: Option<String>)
    ensures
        match r {
            Some(d) => valid_utf8(s@) && d@ == decode_utf8(s@),
            None => !valid_utf8(s@),
        },
{
    match core::str::from_utf8(s) {
        Ok(d) => Some(d.to_owned()),
        Err(_) => None,
    }
}

/// Accumulates the header mapping of one connection while the tokenizer
/// streams field and value fragments to it.
pub struct HeaderCollector {
    current_key: Option<String>,
    headers: StringHashMap<String>,
}

impl View for HeaderCollector {
    type V = CollectorModel;

    closed spec fn view(&self) -> CollectorModel {
        CollectorModel {
            current_key: match self.current_key {
                Some(k) => Some(k@),
                None => None,
            },
            headers: self.headers@.map_values(|v: String| v@),
        }
    }
}

impl HeaderCollector {
    /// A collector with no pending field and an empty mapping.
    pub fn new() -> (r: Self)
        ensures
            r@ == empty_collector(),
    {
        let r = HeaderCollector { current_key: None, headers: StringHashMap::new() };
        proof {
            assert(r@.headers =~= empty_collector().headers);
        }
        r
    }

    /// Decodes the bytes as UTF-8 and remembers them as the pending
    /// field name. Fails with `Encoding` exactly on invalid UTF-8, in
    /// which case nothing changes.
    pub fn on_header_field(&mut self, s: &[u8]) -> (r: Result<(), HandshakeError>)
        ensures
            final(self)@ == collect_field(old(self)@, s@).0,
            r is Ok <==> collect_field(old(self)@, s@).1,
            r is Err ==> r == Err::<(), HandshakeError>(HandshakeError::Encoding),
    {
        match bytes_to_string(s) {
            Some(k) => {
                self.current_key = Some(k);
                Ok(())
            },
            None => Err(HandshakeError::Encoding),
        }
    }

    /// Decodes the bytes as UTF-8 and inserts them as the value of the
    /// pending field, overwriting any earlier value. A value event
    /// without a pending field is a protocol error, ruled out here.
    /// Fails with `Encoding` exactly on invalid UTF-8, in which case
    /// nothing changes.
    pub fn on_header_value(&mut self, s: &[u8]) -> (r: Result<(), HandshakeError>)
        requires
            old(self)@.current_key is Some,
        ensures
            final(self)@ == collect_value(old(self)@, s@).0,
            r is Ok <==> collect_value(old(self)@, s@).1,
            r is Err ==> r == Err::<(), HandshakeError>(HandshakeError::Encoding),
    {
        match bytes_to_string(s) {
            Some(v) => {
                let k = match &self.current_key {
                    Some(k0) => k0.clone(),
                    None => unreached(),
                };
                self.headers.insert(k, v);
                proof {
                    assert(self@.headers =~= collect_value(old(self)@, s@).0.headers);
                }
                Ok(())
            },
            None => Err(HandshakeError::Encoding),
        }
    }

    /// The headers of interest are complete; `false` tells the tokenizer
    /// not to go on into a body.
    pub fn on_headers_complete(&mut self) -> (r: bool)
        ensures
            final(self)@ == old(self)@,
            r == false,
    {
        false
    }

    /// Looks the given header name up in the mapping collected so far.
    pub fn get<'a>(&'a self, k: &str) -> (r: Option<&'a String>)
        ensures
            match r {
                Some(v) => self@.headers.contains_key(k@) && v@ == self@.headers[k@],
                None => !self@.headers.contains_key(k@),
            },
    {
        self.headers.get(k)
    }

    /// Whether the mapping collected so far has the given header name.
    pub fn contains(&self, k: &str) -> (r: bool)
        ensures
            r == self@.headers.contains_key(k@),
    {
        self.headers.contains_key(k)
    }
}

/// Overwriting is idempotent: feeding the same header field twice with
/// two values leaves only the later value in the mapping, as if the
/// earlier pair had never been fed.
pub proof fn lemma_header_overwrite(c: CollectorModel, f: Seq<u8>, v1: Seq<u8>, v2: Seq<u8>)
    requires
        valid_utf8(f),
        valid_utf8(v1),
        valid_utf8(v2),
    ensures
        collect_value(collect_field(collect_value(collect_field(c, f).0, v1).0, f).0, v2).0.headers
            =~= collect_value(collect_field(c, f).0, v2).0.headers,
{
}

} // verus!
