//! A resumable tokenizer for the head of an HTTP/1.1 request.
//!
//! Bytes arrive in chunks of arbitrary size. The tokenizer gathers them
//! into lines: the first line (the request line) is skipped, every
//! further non-empty line is split at its first colon into a header
//! field and a value (leading blanks of the value dropped), and an empty
//! line ends the head. A request whose headers name `Upgrade` (in any
//! case) is recognized as an upgrade request once its head is complete.
//!
//! The whole behaviour is fixed by the byte-by-byte transition
//! [`parse_step`]; [`lemma_parse_chunked`] states that chunk boundaries
//! cannot change the outcome.

use vstd::prelude::*;
use vstd::slice::slice_subrange;
use vstd::utf8::{decode_utf8, valid_utf8};
use crate::headers::{
    collect_field, collect_value, empty_collector, CollectorModel, HeaderCollector,
};

verus! {

pub const CR: u8 = 13;

pub const LF: u8 = 10;

pub const COLON: u8 = 58;

pub const SP: u8 = 32;

pub const HTAB: u8 = 9;

/// The line without its trailing carriage return, if it has one.
pub open spec fn strip_cr(line: Seq<u8>) -> Seq<u8> {
    if line.len() > 0 && line.last() == CR {
        line.drop_last()
    } else {
        line
    }
}

/// Splits a line at its first colon: the bytes before it and the bytes
/// after it. `None` if the line has no colon.
pub open spec fn split_colon(line: Seq<u8>) -> Option<(Seq<u8>, Seq<u8>)>
    decreases line.len(),
{
    if line.len() == 0 {
        None
    } else if line[0] == COLON {
        Some((Seq::empty(), line.skip(1)))
    } else {
        match split_colon(line.skip(1)) {
            None => None,
            Some(p) => Some((seq![line[0]] + p.0, p.1)),
        }
    }
}

/// The bytes without their leading spaces and horizontal tabs.
pub open spec fn trim_ows(s: Seq<u8>) -> Seq<u8>
    decreases s.len(),
{
    if s.len() > 0 && (s[0] == SP || s[0] == HTAB) {
        trim_ows(s.skip(1))
    } else {
        s
    }
}

/// ASCII lower case of one byte.
pub open spec fn lower_byte(b: u8) -> u8 {
    if 65 <= b && b <= 90 {
        (b + 32) as u8
    } else {
        b
    }
}

/// The bytes of `upgrade`, the header name whose presence marks an
/// upgrade request.
pub open spec fn upgrade_name() -> Seq<u8> {
    seq![117u8, 112u8, 103u8, 114u8, 97u8, 100u8, 101u8]
}

/// Whether a header field names `Upgrade`, compared without regard to
/// ASCII case.
pub open spec fn names_upgrade(f: Seq<u8>) -> bool {
    f.map_values(|b: u8| lower_byte(b)) == upgrade_name()
}

/// The whole state of the tokenizer between two bytes.
#[verifier::ext_equal]
pub ghost struct ParserModel {
    /// The request line has already been consumed.
    pub started: bool,
    /// Bytes of the current, still unterminated line.
    pub line: Seq<u8>,
    /// The header collector fed so far.
    pub collector: CollectorModel,
    /// The empty line ending the head has been seen.
    pub done: bool,
    /// A header field naming `Upgrade` has been collected.
    pub upgrade: bool,
    /// A header field or value was not valid UTF-8.
    pub failed: bool,
}

/// The tokenizer before any byte was fed.
pub open spec fn initial_parser() -> ParserModel {
    ParserModel {
        started: false,
        line: Seq::empty(),
        collector: empty_collector(),
        done: false,
        upgrade: false,
        failed: false,
    }
}

/// What completing a line (a line feed) does to the state.
pub open spec fn finish_line(m: ParserModel) -> ParserModel {
    let line = strip_cr(m.line);
    if !m.started {
        ParserModel { started: true, line: Seq::empty(), ..m }
    } else if line.len() == 0 {
        ParserModel { line: Seq::empty(), done: true, ..m }
    } else {
        match split_colon(line) {
            // a header line without a colon is ignored
            None => ParserModel { line: Seq::empty(), ..m },
            Some(p) => {
                let field = p.0;
                let value = trim_ows(p.1);
                let r1 = collect_field(m.collector, field);
                if !r1.1 {
                    ParserModel { line: Seq::empty(), collector: r1.0, failed: true, ..m }
                } else {
                    let r2 = collect_value(r1.0, value);
                    if !r2.1 {
                        ParserModel { line: Seq::empty(), collector: r2.0, failed: true, ..m }
                    } else {
                        ParserModel {
                            line: Seq::empty(),
                            collector: r2.0,
                            upgrade: m.upgrade || names_upgrade(field),
                            ..m
                        }
                    }
                }
            },
        }
    }
}

/// The transition one byte makes. Once the head is complete or the
/// tokenizer has failed, further bytes change nothing.
pub open spec fn parse_step(m: ParserModel, b: u8) -> ParserModel {
    if m.failed || m.done {
        m
    } else if b == LF {
        finish_line(m)
    } else {
        ParserModel { line: m.line.push(b), ..m }
    }
}

/// The transition a whole chunk makes, byte by byte from the front.
pub open spec fn parse_bytes(m: ParserModel, bytes: Seq<u8>) -> ParserModel
    decreases bytes.len(),
{
    if bytes.len() == 0 {
        m
    } else {
        parse_bytes(parse_step(m, bytes[0]), bytes.skip(1))
    }
}

/// Feeding a byte stream in two chunks ends in the same state as feeding
/// it at once: how reads split the stream cannot change the outcome.
pub proof fn lemma_parse_chunked(m: ParserModel, a: Seq<u8>, b: Seq<u8>)
    ensures
        parse_bytes(m, a + b) == parse_bytes(parse_bytes(m, a), b),
    decreases a.len(),
{
    if a.len() == 0 {
        assert(a + b =~= b);
    } else {
        assert((a + b)[0] == a[0]);
        assert((a + b).skip(1) =~= a.skip(1) + b);
        lemma_parse_chunked(parse_step(m, a[0]), a.skip(1), b);
    }
}

/// Once the head is complete or the tokenizer has failed, any further
/// bytes change nothing.
pub proof fn lemma_parse_absorbing(m: ParserModel, bytes: Seq<u8>)
    requires
        m.done || m.failed,
    ensures
        parse_bytes(m, bytes) == m,
    decreases bytes.len(),
{
    if bytes.len() > 0 {
        lemma_parse_absorbing(parse_step(m, bytes[0]), bytes.skip(1));
    }
}

proof fn lemma_parse_plain_bytes(m: ParserModel, s: Seq<u8>)
    requires
        !m.done,
        !m.failed,
        forall|i: int| 0 <= i < s.len() ==> s[i] != LF,
    ensures
        parse_bytes(m, s) == (ParserModel { line: m.line + s, ..m }),
    decreases s.len(),
{
    if s.len() == 0 {
        assert(m.line + s =~= m.line);
        assert(ParserModel { line: m.line + s, ..m } =~= m);
    } else {
        let m1 = parse_step(m, s[0]);
        assert(m1 == ParserModel { line: m.line.push(s[0]), ..m });
        lemma_parse_plain_bytes(m1, s.skip(1));
        assert(m.line.push(s[0]) + s.skip(1) =~= m.line + s);
    }
}

/// The declarative reading of the first line: any line feed while the
/// request line is still open just closes it; nothing else changes.
pub proof fn lemma_request_line(m: ParserModel, s: Seq<u8>)
    requires
        !m.started,
        !m.done,
        !m.failed,
        m.line == Seq::<u8>::empty(),
        forall|i: int| 0 <= i < s.len() ==> s[i] != LF,
    ensures
        parse_bytes(m, s + seq![LF]) == (ParserModel { started: true, ..m }),
{
    lemma_parse_chunked(m, s, seq![LF]);
    lemma_parse_plain_bytes(m, s);
    let m1 = parse_bytes(m, s);
    assert(parse_bytes(m1, seq![LF]) == parse_bytes(parse_step(m1, LF), seq![LF].skip(1)));
    assert(seq![LF].skip(1) =~= Seq::<u8>::empty());
    assert(finish_line(m1) =~= ParserModel { started: true, ..m });
}

/// The declarative reading of one header line `k: v` (ended by CRLF),
/// fed to a tokenizer past the request line and between lines: the pair
/// is decoded and inserted, and a field naming `Upgrade` is noticed.
/// `k` must be free of colons and line feeds, `v` free of line feeds
/// and not starting with a blank, and both must be valid UTF-8.
pub proof fn lemma_header_line(m: ParserModel, k: Seq<u8>, v: Seq<u8>)
    requires
        m.started,
        !m.done,
        !m.failed,
        m.line == Seq::<u8>::empty(),
        0 < k.len(),
        forall|i: int| 0 <= i < k.len() ==> k[i] != COLON && k[i] != LF,
        forall|i: int| 0 <= i < v.len() ==> v[i] != LF,
        v.len() > 0 ==> v[0] != SP && v[0] != HTAB,
        valid_utf8(k),
        valid_utf8(v),
    ensures
        parse_bytes(m, k + seq![COLON] + v + seq![CR, LF]) == (ParserModel {
            collector: CollectorModel {
                current_key: Some(decode_utf8(k)),
                headers: m.collector.headers.insert(decode_utf8(k), decode_utf8(v)),
            },
            upgrade: m.upgrade || names_upgrade(k),
            ..m
        }),
{
    let s = k + seq![COLON] + v + seq![CR];
    assert(forall|i: int| 0 <= i < s.len() ==> s[i] != LF);
    lemma_parse_plain_bytes(m, s);
    let m1 = parse_bytes(m, s);
    assert(m1.line =~= s);
    lemma_parse_chunked(m, s, seq![LF]);
    assert(k + seq![COLON] + v + seq![CR, LF] =~= s + seq![LF]);
    assert(parse_bytes(m1, seq![LF]) == parse_bytes(parse_step(m1, LF), seq![LF].skip(1)));
    assert(seq![LF].skip(1) =~= Seq::<u8>::empty());
    let line = strip_cr(m1.line);
    assert(s.last() == CR);
    assert(line =~= k + seq![COLON] + v);
    assert(line[k.len() as int] == COLON);
    lemma_split_colon_at(line, k.len() as int);
    assert(line.take(k.len() as int) =~= k);
    assert(line.skip(k.len() as int + 1) =~= v);
    assert(trim_ows(v) == v);
    assert(parse_bytes(m, s + seq![LF]) =~= ParserModel {
        collector: CollectorModel {
            current_key: Some(decode_utf8(k)),
            headers: m.collector.headers.insert(decode_utf8(k), decode_utf8(v)),
        },
        upgrade: m.upgrade || names_upgrade(k),
        ..m
    });
}

/// The declarative reading of the empty line: a CRLF between header
/// lines ends the head; the collected headers and the upgrade mark
/// stay as they are.
pub proof fn lemma_end_of_head(m: ParserModel)
    requires
        m.started,
        !m.done,
        !m.failed,
        m.line == Seq::<u8>::empty(),
    ensures
        parse_bytes(m, seq![CR, LF]) == (ParserModel { done: true, ..m }),
{
    let m1 = parse_step(m, CR);
    assert(parse_bytes(m, seq![CR, LF]) == parse_bytes(m1, seq![CR, LF].skip(1)));
    assert(seq![CR, LF].skip(1) =~= seq![LF]);
    assert(parse_bytes(m1, seq![LF]) == parse_bytes(parse_step(m1, LF), seq![LF].skip(1)));
    assert(seq![LF].skip(1) =~= Seq::<u8>::empty());
    assert(strip_cr(m1.line) =~= Seq::<u8>::empty());
    assert(finish_line(m1) =~= ParserModel { done: true, ..m });
}

proof fn lemma_split_colon_at(line: Seq<u8>, i: int)
    requires
        0 <= i < line.len(),
        line[i] == COLON,
        forall|j: int| 0 <= j < i ==> line[j] != COLON,
    ensures
        split_colon(line) == Some((line.take(i), line.skip(i + 1))),
    decreases i,
{
    if i == 0 {
        assert(line.take(0) =~= Seq::<u8>::empty());
    } else {
        assert(forall|j: int| 0 <= j < i - 1 ==> line.skip(1)[j] != COLON);
        lemma_split_colon_at(line.skip(1), i - 1);
        assert(seq![line[0]] + line.skip(1).take(i - 1) =~= line.take(i));
        assert(line.skip(1).skip(i) =~= line.skip(i + 1));
    }
}

proof fn lemma_split_colon_none(line: Seq<u8>)
    requires
        forall|j: int| 0 <= j < line.len() ==> line[j] != COLON,
    ensures
        split_colon(line) is None,
    decreases line.len(),
{
    if line.len() > 0 {
        assert(forall|j: int| 0 <= j < line.skip(1).len() ==> line.skip(1)[j] != COLON);
        lemma_split_colon_none(line.skip(1));
    }
}

/// Index of the first colon of the line, with what that means for
/// [`split_colon`].
fn find_colon(line: &Vec<u8>) -> (r: Option<usize>)
    ensures
        match r {
            Some(i) => i < line@.len() && split_colon(line@) == Some(
                (line@.take(i as int), line@.skip(i as int + 1)),
            ),
            None => split_colon(line@) is None,
        },
{
    let mut i: usize = 0;
    while i < line.len()
        invariant
            i <= line@.len(),
            forall|j: int| 0 <= j < i ==> line@[j] != COLON,
        decreases line@.len() - i,
    {
        if line[i] == COLON {
            proof {
                lemma_split_colon_at(line@, i as int);
            }
            return Some(i);
        }
        i += 1;
    }
    proof {
        lemma_split_colon_none(line@);
    }
    None
}

/// First index at or after `start` that does not hold a space or tab,
/// with what that means for [`trim_ows`].
fn skip_ows(line: &Vec<u8>, start: usize) -> (r: usize)
    requires
        start <= line@.len(),
    ensures
        start <= r <= line@.len(),
        trim_ows(line@.skip(start as int)) == line@.skip(r as int),
{
    let mut j: usize = start;
    while j < line.len() && (line[j] == SP || line[j] == HTAB)
        invariant
            start <= j <= line@.len(),
            trim_ows(line@.skip(start as int)) == trim_ows(line@.skip(j as int)),
        decreases line@.len() - j,
    {
        proof {
            assert(line@.skip(j as int)[0] == line@[j as int]);
            assert(line@.skip(j as int).skip(1) =~= line@.skip(j as int + 1));
        }
        j += 1;
    }
    proof {
        if j < line@.len() {
            assert(line@.skip(j as int)[0] == line@[j as int]);
        } else {
            assert(line@.skip(j as int).len() == 0);
        }
    }
    j
}

/// ASCII lower case of one byte.
fn to_lower(b: u8) -> (r: u8)
    ensures
        r == lower_byte(b),
{
    if 65 <= b && b <= 90 {
        b + 32
    } else {
        b
    }
}

/// Whether the field names `Upgrade`, compared without regard to case.
fn is_upgrade_field(f: &[u8]) -> (r: bool)
    ensures
        r == names_upgrade(f@),
{
    proof {
        assert(f@.map_values(|b: u8| lower_byte(b)).len() == f@.len());
    }
    if f.len() != 7 {
        return false;
    }
    let r = to_lower(f[0]) == 117 && to_lower(f[1]) == 112 && to_lower(f[2]) == 103 && to_lower(
        f[3],
    ) == 114 && to_lower(f[4]) == 97 && to_lower(f[5]) == 100 && to_lower(f[6]) == 101;
    proof {
        let m = f@.map_values(|b: u8| lower_byte(b));
        assert(m[0] == lower_byte(f@[0]));
        assert(m[1] == lower_byte(f@[1]));
        assert(m[2] == lower_byte(f@[2]));
        assert(m[3] == lower_byte(f@[3]));
        assert(m[4] == lower_byte(f@[4]));
        assert(m[5] == lower_byte(f@[5]));
        assert(m[6] == lower_byte(f@[6]));
        if r {
            assert(m =~= upgrade_name());
        }
    }
    r
}

/// A push tokenizer: raw bytes in, header field/value events out, one
/// instance per connection. Resumable at any byte boundary.
pub struct HttpParser {
    started: bool,
    line: Vec<u8>,
    collector: HeaderCollector,
    done: bool,
    upgrade: bool,
    failed: bool,
}

impl View for HttpParser {
    type V = ParserModel;

    closed spec fn view(&self) -> ParserModel {
        ParserModel {
            started: self.started,
            line: self.line@,
            collector: self.collector@,
            done: self.done,
            upgrade: self.upgrade,
            failed: self.failed,
        }
    }
}

impl HttpParser {
    /// A tokenizer that has seen no byte yet.
    pub fn new() -> (r: Self)
        ensures
            r@ == initial_parser(),
    {
        let r = HttpParser {
            started: false,
            line: Vec::new(),
            collector: HeaderCollector::new(),
            done: false,
            upgrade: false,
            failed: false,
        };
        proof {
            assert(r@ =~= initial_parser());
        }
        r
    }

    /// The collected headers, for lookups once the head is in.
    pub fn headers(&self) -> (r: &HeaderCollector)
        ensures
            r@ == self@.collector,
    {
        &self.collector
    }

    /// Whether the head is complete and named `Upgrade` among its
    /// headers: an upgrade request has been recognized.
    pub fn is_upgrade(&self) -> (r: bool)
        ensures
            r == (self@.done && self@.upgrade),
    {
        self.done && self.upgrade
    }

    /// Whether a header field or value was not valid UTF-8; the
    /// connection should be dropped by its owner.
    pub fn has_failed(&self) -> (r: bool)
        ensures
            r == self@.failed,
    {
        self.failed
    }

    fn finish_line_exec(&mut self)
        requires
            !old(self)@.failed,
            !old(self)@.done,
        ensures
            final(self)@ == finish_line(old(self)@),
    {
        let ghost orig = self@;
        if self.line.len() > 0 && self.line[self.line.len() - 1] == CR {
            self.line.pop();
        }
        assert(self.line@ == strip_cr(orig.line));
        if !self.started {
            self.started = true;
            self.line.clear();
            assert(self@ =~= finish_line(orig));
            return ;
        }
        if self.line.len() == 0 {
            self.done = true;
            assert(self@ =~= finish_line(orig));
            return ;
        }
        let found = find_colon(&self.line);
        match found {
            None => {
                self.line.clear();
                assert(self@ =~= finish_line(orig));
            },
            Some(i) => {
                let field = slice_subrange(self.line.as_slice(), 0, i);
                let upg = is_upgrade_field(field);
                match self.collector.on_header_field(field) {
                    Err(_) => {
                        self.failed = true;
                        self.line.clear();
                        assert(self@ =~= finish_line(orig));
                    },
                    Ok(()) => {
                        let j = skip_ows(&self.line, i + 1);
                        let value = slice_subrange(self.line.as_slice(), j, self.line.len());
                        match self.collector.on_header_value(value) {
                            Err(_) => {
                                self.failed = true;
                                self.line.clear();
                                assert(self@ =~= finish_line(orig));
                            },
                            Ok(()) => {
                                if upg {
                                    self.upgrade = true;
                                }
                                self.line.clear();
                                assert(self@ =~= finish_line(orig));
                            },
                        }
                    },
                }
            },
        }
    }

    fn step(&mut self, b: u8)
        ensures
            final(self)@ == parse_step(old(self)@, b),
    {
        if self.failed || self.done {
            return ;
        }
        if b == LF {
            self.finish_line_exec();
        } else {
            self.line.push(b);
        }
    }

    /// Feeds one chunk of bytes, resuming exactly where the last chunk
    /// stopped.
    pub fn parse(&mut self, buf: &[u8])
        ensures
            final(self)@ == parse_bytes(old(self)@, buf@),
    {
        let mut i: usize = 0;
        proof {
            assert(buf@.skip(0) =~= buf@);
        }
        while i < buf.len()
            invariant
                i <= buf@.len(),
                parse_bytes(old(self)@, buf@) == parse_bytes(self@, buf@.skip(i as int)),
            decreases buf@.len() - i,
        {
            let ghost before = self@;
            let b = buf[i];
            self.step(b);
            proof {
                assert(buf@.skip(i as int)[0] == buf@[i as int]);
                assert(buf@.skip(i as int).skip(1) =~= buf@.skip(i as int + 1));
            }
            i += 1;
        }
        proof {
            assert(buf@.skip(buf@.len() as int) =~= Seq::<u8>::empty());
        }
    }
}

} // verus!
