//! Basic resource data handling.
//!
//! DNS resource records consist of a common start — the domain name
//! they pertain to, their type and class — and record data whose
//! format depends on the record type.  With far more than the handful
//! of record types this crate knows by name, record data is handled
//! through the [`RecordData`] trait, which every concrete record data
//! type implements.  To walk over all resource records of a message,
//! including those of unknown types, [`GenericRecordData`] accepts any
//! record type and keeps the plain binary data as a [`Nest`], from
//! which a concrete type can be re-parsed on demand.

use vstd::prelude::*;
use crate::bytes::{bytes_eq, BytesBuf};
use crate::display::{
    ascii_chars, ascii_string, bytes_text, dec_digits, lemma_bytes_text_ascii,
    lemma_dec_digits_ascii, lemma_name_text_ascii, name_text, push_bytes_text, push_dec,
    push_name_text,
};
use crate::name::name_at;
use crate::error::{ComposeResult, ParseResult, ScanResult, SyntaxError};
use crate::master::{
    lemma_hex_word_bytes_len, scan_blob, scan_generic, skip_ws, token_end, Stream,
};
use crate::parse::{Nest, Parser};
use crate::rfc1035::{
    is_single_name_type, minfo_value, mx_value, reparse_minfo_eq, reparse_mx_eq, reparse_name_eq,
    reparse_soa_eq, soa_value, Minfo, Mx, Null, SingleName, Soa, Txt,
};
use crate::rtype::RRType;

verus! {

/// A trait for parsing and composing record data.
pub trait RecordData<'a>: Sized {
    /// Whether this value is well formed; parsing only ever yields
    /// well-formed values.
    spec fn wf(&self) -> bool;

    /// The type tag this value reports.
    spec fn rtype_spec(&self) -> RRType;

    /// The wire bytes that composing this value appends.
    spec fn wire(&self) -> Seq<u8>;

    /// Returns the record type tag for this record data value.
    fn rtype(&self) -> (t: RRType)
        requires
            self.wf(),
        ensures
            t == self.rtype_spec(),
    ;

    /// Appends the record data to the end of the compose target.
    ///
    /// Fails only when a contained sub-component cannot be composed;
    /// the sink itself never fails.
    fn compose<B: BytesBuf>(&self, target: &mut B) -> (r: ComposeResult<()>)
        requires
            self.wf(),
        ensures
            r is Ok ==> final(target).contents() == old(target).contents() + self.wire(),
    ;

    /// Parses record data of type `rtype` from a parser.
    ///
    /// An implementation that is not responsible for records of type
    /// `rtype` returns `None` and leaves the parser untouched, so the
    /// caller can try the next candidate or fall back to
    /// [`GenericRecordData`].  Otherwise it returns the parsed value
    /// with the parser moved past the data, or the parse error the
    /// malformed data caused.
    fn parse(rtype: RRType, parser: &mut Parser<'a>) -> (r: Option<ParseResult<Self>>)
        requires
            old(parser).wf(),
        ensures
            final(parser).wf(),
            final(parser)@.msg == old(parser)@.msg,
            final(parser)@.limit == old(parser)@.limit,
            r is None ==> final(parser)@ == old(parser)@,
            r matches Some(Ok(v)) ==> v.wf() && v.rtype_spec() == rtype,
    ;
}

/// A type for any type of record data.
///
/// This type accepts any record type and keeps the plain binary data
/// as a [`Nest`], from which the data can be re-parsed as a concrete
/// record data type when one is needed.
///
/// Since values may be built from messages, the data may contain
/// compressed domain names.  Composing such a value into a new message
/// may produce a corrupt message, since the raw bytes are replayed
/// unchanged.  Per RFC 3597, compressed names only occur in record
/// types of the base DNS specification; comparing values of those
/// types therefore goes through re-parsing, while all other types
/// compare by their raw bytes.  Be wary when re-composing parsed
/// messages unseen.
#[derive(Clone, Copy, Debug)]
pub struct GenericRecordData<'a> {
    rtype: RRType,
    data: Nest<'a>,
}

impl<'a> GenericRecordData<'a> {
    /// The type tag this value was created with.
    pub closed spec fn spec_rtype(&self) -> RRType {
        self.rtype
    }

    /// The captured data region.
    pub closed spec fn spec_data(&self) -> Nest<'a> {
        self.data
    }

    /// Creates a generic record data value from its components.
    pub fn new(rtype: RRType, data: Nest<'a>) -> (r: Self)
        ensures
            r.spec_rtype() == rtype,
            r.spec_data() == data,
    {
        GenericRecordData { rtype, data }
    }

    /// Returns the record type of the generic record data value.
    pub fn rtype(&self) -> (t: RRType)
        ensures
            t == self.spec_rtype(),
    {
        self.rtype
    }

    /// Returns a reference to the value's data.
    pub fn data(&self) -> (r: &Nest<'a>)
        ensures
            *r == self.spec_data(),
    {
        &self.data
    }

    /// Scans generic master-format record data into a byte sink.
    ///
    /// This scans *only* the generic record data format of RFC 3597:
    /// the `\#` marker token, a decimal 16-bit length, and exactly
    /// that many bytes as hexadecimal digit pairs.  A word that
    /// spells more bytes than the declared length allows is pushed
    /// only up to the declared length and reported as an overrun.
    pub fn scan_into<B: BytesBuf>(stream: &mut Stream, target: &mut B) -> (r: ScanResult<()>)
        requires
            old(stream).wf(),
        ensures
            final(stream).wf(),
            final(stream)@.text == old(stream)@.text,
            final(target).contents() == old(target).contents() + scan_generic(
                old(stream)@.text,
                old(stream)@.pos,
            ).0,
            r is Ok <==> scan_generic(old(stream)@.text, old(stream)@.pos).1 is Ok,
            r matches Err(e) ==> scan_generic(old(stream)@.text, old(stream)@.pos).1 == Err::<
                int,
                SyntaxError,
            >(e),
            r is Ok ==> scan_generic(old(stream)@.text, old(stream)@.pos).1 == Ok::<
                int,
                SyntaxError,
            >(final(stream)@.pos),
    {
        let ghost gtext = old(stream)@.text;
        let ghost gspec = scan_generic(old(stream)@.text, old(stream)@.pos);
        let marker: [u8; 2] = [92, 35];
        proof {
            assert(marker@ =~= seq![92u8, 35u8]);
        }
        match stream.skip_literal(marker.as_slice()) {
            Err(e) => {
                proof {
                    assert(old(target).contents() + gspec.0 =~= old(target).contents());
                }
                return Err(e);
            },
            Ok(()) => {},
        }
        let declared = match stream.scan_u16() {
            Ok(v) => v,
            Err(e) => {
                proof {
                    let s = skip_ws(gtext, old(stream)@.pos);
                    assert(crate::master::literal_at(gtext, s, seq![92u8, 35u8]));
                    let s2 = skip_ws(gtext, s + 2);
                    crate::master::lemma_skip_ws(gtext, s + 2);
                    crate::master::lemma_digits_end(gtext, s2);
                    assert(gspec.1 == Err::<int, SyntaxError>(e));
                    assert(old(target).contents() + gspec.0 =~= old(target).contents());
                }
                return Err(e);
            },
        };
        target.reserve(declared as usize);
        let mut len: usize = declared as usize;
        let ghost p2 = stream@.pos;
        let ghost mut gfuel: nat = (declared + 1) as nat;
        let ghost mut pushed: Seq<u8> = Seq::empty();
        proof {
            assert(gspec == scan_blob(gtext, p2, declared as nat, (declared + 1) as nat));
            assert(pushed + scan_blob(gtext, p2, declared as nat, gfuel).0 =~= scan_blob(
                gtext,
                p2,
                declared as nat,
                gfuel,
            ).0);
        }
        while len > 0
            invariant
                stream.wf(),
                stream@.text == gtext,
                gtext == old(stream)@.text,
                target.contents() == old(target).contents() + pushed,
                gfuel >= len + 1,
                gspec == scan_generic(old(stream)@.text, old(stream)@.pos),
                gspec.0 == pushed + scan_blob(gtext, stream@.pos, len as nat, gfuel).0,
                gspec.1 == scan_blob(gtext, stream@.pos, len as nat, gfuel).1,
            decreases len,
        {
            let ghost prepos = stream@.pos;
            let ghost s = skip_ws(gtext, prepos);
            let ghost e = token_end(gtext, s);
            match stream.scan_hex_word() {
                Err(err) => {
                    return Err(err);
                },
                Ok(word) => {
                    proof {
                        lemma_hex_word_bytes_len(gtext, s, e);
                    }
                    if word.len() > len {
                        let part = vstd::slice::slice_subrange(word.as_slice(), 0, len);
                        target.push_bytes(part);
                        proof {
                            assert(part@ =~= word@.take(len as int));
                            pushed = pushed + word@.take(len as int);
                            assert(target.contents() == old(target).contents() + pushed);
                            assert(gspec.0 =~= pushed);
                        }
                        return Err(SyntaxError::LongGenericData);
                    }
                    target.push_bytes(word.as_slice());
                    proof {
                        let rec = scan_blob(gtext, e, (len - word@.len()) as nat, (
                        gfuel - 1) as nat);
                        assert(pushed + (word@ + rec.0) =~= (pushed + word@) + rec.0);
                        pushed = pushed + word@;
                        gfuel = (gfuel - 1) as nat;
                    }
                    len = len - word.len();
                },
            }
        }
        proof {
            assert(gspec.0 =~= pushed);
        }
        Ok(())
    }

    /// Formats the record data for display, as its concrete type
    /// would show it.
    ///
    /// The stored type tag picks the concrete type to re-parse the
    /// data as; formatting then follows that value.  A failed
    /// re-parse silently formats as the empty string — the display
    /// path is best effort, never an error.  Tags this crate has no
    /// concrete type for format as `...`.  The text depends on the
    /// value alone: formatting the same value again gives the same
    /// text.
    #[verifier::rlimit(80)]
    pub fn display_string(&self) -> (r: String)
        ensures
            r@ == ascii_chars(generic_display_bytes(*self)),
    {
        let ghost gdb = generic_display_bytes(*self);
        let mut out: Vec<u8> = Vec::new();
        match self.rtype {
            RRType::Cname
            | RRType::Mb
            | RRType::Md
            | RRType::Mf
            | RRType::Mg
            | RRType::Mr
            | RRType::Ns
            | RRType::Ptr => {
                let mut p = self.data.parser();
                let parsed: Option<ParseResult<SingleName>> = SingleName::parse(
                    self.rtype,
                    &mut p,
                );
                match parsed {
                    Some(Ok(v)) => {
                        push_name_text(&mut out, v.name());
                        assert(out@ =~= gdb);
                    },
                    _ => {
                        assert(out@ =~= gdb);
                    },
                }
            },
            RRType::Mx => {
                let mut p = self.data.parser();
                let parsed: Option<ParseResult<Mx>> = Mx::parse(self.rtype, &mut p);
                match parsed {
                    Some(Ok(v)) => {
                        push_dec(&mut out, v.preference() as u32);
                        out.push(32);
                        push_name_text(&mut out, v.exchange());
                        assert(out@ =~= gdb);
                    },
                    _ => {
                        assert(out@ =~= gdb);
                    },
                }
            },
            RRType::Minfo => {
                let mut p = self.data.parser();
                let parsed: Option<ParseResult<Minfo>> = Minfo::parse(self.rtype, &mut p);
                match parsed {
                    Some(Ok(v)) => {
                        push_name_text(&mut out, v.rmailbx());
                        out.push(32);
                        push_name_text(&mut out, v.emailbx());
                        assert(out@ =~= gdb);
                    },
                    _ => {
                        assert(out@ =~= gdb);
                    },
                }
            },
            RRType::Soa => {
                let mut p = self.data.parser();
                let parsed: Option<ParseResult<Soa>> = Soa::parse(self.rtype, &mut p);
                match parsed {
                    Some(Ok(v)) => {
                        push_name_text(&mut out, v.mname());
                        out.push(32);
                        push_name_text(&mut out, v.rname());
                        out.push(32);
                        push_dec(&mut out, v.serial());
                        out.push(32);
                        push_dec(&mut out, v.refresh());
                        out.push(32);
                        push_dec(&mut out, v.retry());
                        out.push(32);
                        push_dec(&mut out, v.expire());
                        out.push(32);
                        push_dec(&mut out, v.minimum());
                        assert(out@ =~= gdb);
                    },
                    _ => {
                        assert(out@ =~= gdb);
                    },
                }
            },
            RRType::A => {
                let mut p = self.data.parser();
                let parsed: Option<ParseResult<crate::rfc1035::A>> = crate::rfc1035::A::parse(
                    self.rtype,
                    &mut p,
                );
                match parsed {
                    Some(Ok(v)) => {
                        let addr = v.addr();
                        proof {
                            crate::bytes::lemma_be32_round_trip(
                                addr,
                                self.spec_data().bytes()[0],
                                self.spec_data().bytes()[1],
                                self.spec_data().bytes()[2],
                                self.spec_data().bytes()[3],
                            );
                        }
                        push_dec(&mut out, addr / 0x1000000);
                        out.push(46);
                        push_dec(&mut out, (addr / 0x10000) % 256);
                        out.push(46);
                        push_dec(&mut out, (addr / 256) % 256);
                        out.push(46);
                        push_dec(&mut out, addr % 256);
                        assert(out@ =~= gdb);
                    },
                    _ => {
                        assert(out@ =~= gdb);
                    },
                }
            },
            RRType::Txt => {
                let mut p = self.data.parser();
                let parsed: Option<ParseResult<Txt>> = Txt::parse(self.rtype, &mut p);
                match parsed {
                    Some(Ok(v)) => {
                        push_bytes_text(&mut out, v.data());
                        assert(out@ =~= gdb);
                    },
                    _ => {
                        assert(out@ =~= gdb);
                    },
                }
            },
            RRType::Null => {
                let mut p = self.data.parser();
                let parsed: Option<ParseResult<Null>> = Null::parse(self.rtype, &mut p);
                match parsed {
                    Some(Ok(v)) => {
                        push_bytes_text(&mut out, v.data());
                        assert(out@ =~= gdb);
                    },
                    _ => {
                        assert(out@ =~= gdb);
                    },
                }
            },
            _ => {
                out.push(46);
                out.push(46);
                out.push(46);
                assert(out@ =~= gdb);
            },
        }
        proof {
            lemma_display_ascii(*self);
        }
        ascii_string(out)
    }

    /// Tries to re-parse the value for the concrete type `R`.
    ///
    /// Returns `None` if `R` does not want to parse the value;
    /// declination is silent and leaves no trace.
    pub fn concrete<R: RecordData<'a>>(&self) -> (r: Option<ParseResult<R>>)
        ensures
            r matches Some(Ok(v)) ==> v.wf() && v.rtype_spec() == self.spec_rtype(),
    {
        let mut parser = self.data.parser();
        R::parse(self.rtype, &mut parser)
    }
}

impl<'a> RecordData<'a> for GenericRecordData<'a> {
    /// Any captured region is acceptable generic record data.
    open spec fn wf(&self) -> bool {
        true
    }

    open spec fn rtype_spec(&self) -> RRType {
        self.spec_rtype()
    }

    /// Composing replays the captured bytes unchanged.
    open spec fn wire(&self) -> Seq<u8> {
        self.spec_data().bytes()
    }

    fn rtype(&self) -> (t: RRType) {
        self.rtype
    }

    fn compose<B: BytesBuf>(&self, target: &mut B) -> (r: ComposeResult<()>)
        ensures
            r is Ok,
    {
        self.data.compose(target)
    }

    /// Captures the entire remainder of the parser's region; parsing
    /// generic record data never fails.
    fn parse(rtype: RRType, parser: &mut Parser<'a>) -> (r: Option<ParseResult<Self>>)
        ensures
            r matches Some(Ok(v)) && v.spec_rtype() == rtype && v.spec_data()@.msg == old(
                parser,
            )@.msg && v.spec_data()@.start == old(parser)@.pos && v.spec_data()@.end == old(
                parser,
            )@.limit && final(parser)@.pos == old(parser)@.limit,
    {
        let len = parser.left();
        match parser.parse_nest(len) {
            Err(err) => Some(Err(err)),
            Ok(nest) => Some(Ok(GenericRecordData::new(rtype, nest))),
        }
    }
}

/// The presentation text of a generic record data value, as bytes.
///
/// The stored type tag picks the concrete type whose layout the data
/// is read as; the outcome of that re-parse is formatted.  A failed
/// re-parse formats as nothing, and a tag the crate has no concrete
/// type for formats as a fixed placeholder.
pub open spec fn generic_display_bytes<'a>(g: GenericRecordData<'a>) -> Seq<u8> {
    let t = g.spec_rtype();
    let m = g.spec_data()@.msg;
    let s = g.spec_data()@.start;
    let e = g.spec_data()@.end;
    if is_single_name_type(t) {
        match name_at(m, s, e) {
            Some(n) => name_text(n),
            None => Seq::empty(),
        }
    } else if t == RRType::Mx {
        match mx_value(m, s, e) {
            Some(pn) => dec_digits(pn.0 as nat) + seq![32u8] + name_text(pn.1),
            None => Seq::empty(),
        }
    } else if t == RRType::Minfo {
        match minfo_value(m, s, e) {
            Some(p) => name_text(p.0) + seq![32u8] + name_text(p.1),
            None => Seq::empty(),
        }
    } else if t == RRType::Soa {
        match soa_value(m, s, e) {
            Some(v) => name_text(v.0) + seq![32u8] + name_text(v.1) + seq![32u8] + dec_digits(
                v.2 as nat,
            ) + seq![32u8] + dec_digits(v.3 as nat) + seq![32u8] + dec_digits(v.4 as nat) + seq![
                32u8,
            ] + dec_digits(v.5 as nat) + seq![32u8] + dec_digits(v.6 as nat),
            None => Seq::empty(),
        }
    } else if t == RRType::A {
        if e - s >= 4 {
            dec_digits(m[s] as nat) + seq![46u8] + dec_digits(m[s + 1] as nat) + seq![46u8]
                + dec_digits(m[s + 2] as nat) + seq![46u8] + dec_digits(m[s + 3] as nat)
        } else {
            Seq::empty()
        }
    } else if t == RRType::Txt || t == RRType::Null {
        bytes_text(m.subrange(s, e))
    } else {
        seq![46u8, 46u8, 46u8]
    }
}

/// The presentation text of a generic record data value is ASCII.
proof fn lemma_display_ascii<'a>(g: GenericRecordData<'a>)
    ensures
        forall|i: int|
            0 <= i < generic_display_bytes(g).len() ==> #[trigger] generic_display_bytes(g)[i]
                < 127,
{
    let t = g.spec_rtype();
    let m = g.spec_data()@.msg;
    let s = g.spec_data()@.start;
    let e = g.spec_data()@.end;
    if is_single_name_type(t) {
        match name_at(m, s, e) {
            Some(n) => lemma_name_text_ascii(n),
            None => (),
        }
    } else if t == RRType::Mx {
        match mx_value(m, s, e) {
            Some(pn) => {
                lemma_dec_digits_ascii(pn.0 as nat);
                lemma_name_text_ascii(pn.1);
            },
            None => (),
        }
    } else if t == RRType::Minfo {
        match minfo_value(m, s, e) {
            Some(p) => {
                lemma_name_text_ascii(p.0);
                lemma_name_text_ascii(p.1);
            },
            None => (),
        }
    } else if t == RRType::Soa {
        match soa_value(m, s, e) {
            Some(v) => {
                lemma_name_text_ascii(v.0);
                lemma_name_text_ascii(v.1);
                lemma_dec_digits_ascii(v.2 as nat);
                lemma_dec_digits_ascii(v.3 as nat);
                lemma_dec_digits_ascii(v.4 as nat);
                lemma_dec_digits_ascii(v.5 as nat);
                lemma_dec_digits_ascii(v.6 as nat);
            },
            None => (),
        }
    } else if t == RRType::A {
        if e - s >= 4 {
            lemma_dec_digits_ascii(m[s] as nat);
            lemma_dec_digits_ascii(m[s + 1] as nat);
            lemma_dec_digits_ascii(m[s + 2] as nat);
            lemma_dec_digits_ascii(m[s + 3] as nat);
        }
    } else if t == RRType::Txt || t == RRType::Null {
        lemma_bytes_text_ascii(m.subrange(s, e));
    }
}

/// What equality of two generic record data values means.
///
/// Values of different types are unequal.  For the name-bearing types
/// of the base specification, whose wire form may embed compressed
/// domain names, equality is decided by re-parsing both sides as the
/// concrete type and comparing the decompressed outcomes — never the
/// raw bytes, since two byte-wise different encodings can stand for
/// the same value.  All other types compare by their raw bytes.
pub open spec fn generic_rdata_eq<'a>(a: GenericRecordData<'a>, b: GenericRecordData<'a>) -> bool {
    &&& a.spec_rtype() == b.spec_rtype()
    &&& {
        let t = a.spec_rtype();
        let xm = a.spec_data()@.msg;
        let xs = a.spec_data()@.start;
        let xe = a.spec_data()@.end;
        let ym = b.spec_data()@.msg;
        let ys = b.spec_data()@.start;
        let ye = b.spec_data()@.end;
        if is_single_name_type(t) {
            reparse_name_eq(xm, xs, xe, ym, ys, ye)
        } else if t == RRType::Mx {
            reparse_mx_eq(xm, xs, xe, ym, ys, ye)
        } else if t == RRType::Minfo {
            reparse_minfo_eq(xm, xs, xe, ym, ys, ye)
        } else if t == RRType::Soa {
            reparse_soa_eq(xm, xs, xe, ym, ys, ye)
        } else {
            a.spec_data().bytes() == b.spec_data().bytes()
        }
    }
}

impl<'a> PartialEq for GenericRecordData<'a> {
    /// Compares two generic record data values for equality.
    ///
    /// Almost all record types can be compared bitwise.  However,
    /// record types of the base specification may employ name
    /// compression if they contain domain names; for these the
    /// comparison re-parses both sides.
    fn eq(&self, other: &Self) -> (r: bool) {
        if self.rtype != other.rtype {
            return false;
        }
        match self.rtype {
            RRType::Cname
            | RRType::Mb
            | RRType::Md
            | RRType::Mf
            | RRType::Mg
            | RRType::Mr
            | RRType::Ns
            | RRType::Ptr => {
                let mut pa = self.data.parser();
                let mut pb = other.data.parser();
                let ra: Option<ParseResult<SingleName>> = SingleName::parse(self.rtype, &mut pa);
                let rb: Option<ParseResult<SingleName>> = SingleName::parse(other.rtype, &mut pb);
                match (ra, rb) {
                    (Some(Ok(x)), Some(Ok(y))) => x == y,
                    (Some(Err(ex)), Some(Err(ey))) => ex == ey,
                    _ => false,
                }
            },
            RRType::Mx => {
                let mut pa = self.data.parser();
                let mut pb = other.data.parser();
                let ra: Option<ParseResult<Mx>> = Mx::parse(self.rtype, &mut pa);
                let rb: Option<ParseResult<Mx>> = Mx::parse(other.rtype, &mut pb);
                match (ra, rb) {
                    (Some(Ok(x)), Some(Ok(y))) => x == y,
                    (Some(Err(ex)), Some(Err(ey))) => ex == ey,
                    _ => false,
                }
            },
            RRType::Minfo => {
                let mut pa = self.data.parser();
                let mut pb = other.data.parser();
                let ra: Option<ParseResult<Minfo>> = Minfo::parse(self.rtype, &mut pa);
                let rb: Option<ParseResult<Minfo>> = Minfo::parse(other.rtype, &mut pb);
                match (ra, rb) {
                    (Some(Ok(x)), Some(Ok(y))) => x == y,
                    (Some(Err(ex)), Some(Err(ey))) => ex == ey,
                    _ => false,
                }
            },
            RRType::Soa => {
                let mut pa = self.data.parser();
                let mut pb = other.data.parser();
                let ra: Option<ParseResult<Soa>> = Soa::parse(self.rtype, &mut pa);
                let rb: Option<ParseResult<Soa>> = Soa::parse(other.rtype, &mut pb);
                match (ra, rb) {
                    (Some(Ok(x)), Some(Ok(y))) => x == y,
                    (Some(Err(ex)), Some(Err(ey))) => ex == ey,
                    _ => false,
                }
            },
            _ => bytes_eq(self.data.as_bytes(), other.data.as_bytes()),
        }
    }
}

impl<'a> vstd::std_specs::cmp::PartialEqSpecImpl for GenericRecordData<'a> {
    open spec fn obeys_eq_spec() -> bool {
        true
    }

    open spec fn eq_spec(&self, other: &Self) -> bool {
        generic_rdata_eq(*self, *other)
    }
}

} // verus!
