//! Domain names and name decompression.
//!
//! In wire format a domain name is a run of labels — each a length
//! byte below 64 followed by that many bytes — ended by a zero byte.
//! Inside a message, a name may instead end in a compression pointer:
//! two bytes whose top two bits are set, pointing at an earlier
//! occurrence elsewhere in the same message.  [`name_at`] is the
//! mathematical reading of a (possibly compressed) name out of a
//! message, and [`Name`] owns the uncompressed result.

use vstd::prelude::*;
use crate::bytes::{bytes_eq, BytesBuf};
use crate::error::{ComposeResult, ParseError, ParseResult};
use crate::parse::Parser;

verus! {

/// The uncompressed bytes of the name starting at `pos` in `msg`,
/// with sequential reads bounded by `limit` and at most `jumps`
/// compression pointers followed, or `None` when no well-formed name
/// starts there.
///
/// A label is copied and reading goes on behind it; a compression
/// pointer moves reading to its target, after which the whole message
/// is in bounds; a zero byte ends the name and is part of it.
pub open spec fn name_value(msg: Seq<u8>, pos: int, limit: int, jumps: nat) -> Option<Seq<u8>>
    decreases jumps, limit - pos,
{
    if pos < 0 || pos >= limit || limit > msg.len() {
        None
    } else {
        let b = msg[pos];
        if b == 0 {
            Some(seq![0u8])
        } else if b < 64 {
            if pos + 1 + b <= limit {
                match name_value(msg, pos + 1 + b, limit, jumps) {
                    Some(rest) => Some(seq![b] + msg.subrange(pos + 1, pos + 1 + b) + rest),
                    None => None,
                }
            } else {
                None
            }
        } else if b >= 192 {
            if pos + 2 <= limit && jumps > 0 {
                name_value(msg, (b - 192) * 256 + msg[pos + 1], msg.len() as int, (jumps - 1) as nat)
            } else {
                None
            }
        } else {
            None
        }
    }
}

/// The position right behind the name starting at `pos`: behind its
/// zero byte, or behind the first compression pointer.  Sequential
/// reading of the enclosing record resumes there.
pub open spec fn name_end(msg: Seq<u8>, pos: int, limit: int) -> Option<int>
    decreases limit - pos,
{
    if pos < 0 || pos >= limit || limit > msg.len() {
        None
    } else {
        let b = msg[pos];
        if b == 0 {
            Some(pos + 1)
        } else if b < 64 {
            if pos + 1 + b <= limit {
                name_end(msg, pos + 1 + b, limit)
            } else {
                None
            }
        } else if b >= 192 {
            if pos + 2 <= limit {
                Some(pos + 2)
            } else {
                None
            }
        } else {
            None
        }
    }
}

/// The uncompressed name starting at `pos` in `msg`.  One message
/// offset can be jumped to at most once on any terminating pointer
/// chain, so a pointer budget of the message length loses no name.
pub open spec fn name_at(msg: Seq<u8>, pos: int, limit: int) -> Option<Seq<u8>> {
    name_value(msg, pos, limit, msg.len() as nat)
}

/// The error reading a name at `pos` reports when [`name_value`] finds
/// no well-formed name there; without meaning otherwise.
pub open spec fn name_error(msg: Seq<u8>, pos: int, limit: int, jumps: nat) -> ParseError
    decreases jumps, limit - pos,
{
    if pos < 0 || pos >= limit || limit > msg.len() {
        ParseError::UnexpectedEnd
    } else {
        let b = msg[pos];
        if b == 0 {
            ParseError::UnexpectedEnd
        } else if b < 64 {
            if pos + 1 + b <= limit {
                name_error(msg, pos + 1 + b, limit, jumps)
            } else {
                ParseError::UnexpectedEnd
            }
        } else if b >= 192 {
            if pos + 2 > limit {
                ParseError::UnexpectedEnd
            } else if jumps == 0 {
                ParseError::BadPointer
            } else if (b - 192) * 256 + msg[pos + 1] >= msg.len() {
                ParseError::BadPointer
            } else {
                name_error(msg, (b - 192) * 256 + msg[pos + 1], msg.len() as int, (
                jumps - 1) as nat)
            }
        } else {
            ParseError::BadLabelType
        }
    }
}

/// The error reading the name at `pos` in `msg` reports, under the
/// same pointer budget as [`name_at`].
pub open spec fn name_err_at(msg: Seq<u8>, pos: int, limit: int) -> ParseError {
    name_error(msg, pos, limit, msg.len() as nat)
}

/// Whether `s` is a well-formed uncompressed wire-format name:
/// labels of at most 63 bytes, ended by a zero byte.
pub open spec fn is_name(s: Seq<u8>) -> bool
    decreases s.len(),
{
    if s.len() == 0 {
        false
    } else if s[0] == 0 {
        s.len() == 1
    } else if s[0] < 64 {
        s[0] + 1 < s.len() && is_name(s.skip(s[0] + 1))
    } else {
        false
    }
}

/// Whatever `name_value` reads out of a message is a well-formed
/// uncompressed name.
pub proof fn lemma_name_value_is_name(msg: Seq<u8>, pos: int, limit: int, jumps: nat)
    requires
        name_value(msg, pos, limit, jumps) is Some,
    ensures
        is_name(name_value(msg, pos, limit, jumps).unwrap()),
    decreases jumps, limit - pos,
{
    let b = msg[pos];
    if b == 0 {
        assert(is_name(seq![0u8]));
    } else if b < 64 {
        lemma_name_value_is_name(msg, pos + 1 + b, limit, jumps);
        let rest = name_value(msg, pos + 1 + b, limit, jumps).unwrap();
        let s = name_value(msg, pos, limit, jumps).unwrap();
        assert(rest.len() > 0);
        assert(s.skip(b + 1) =~= rest);
    } else {
        lemma_name_value_is_name(msg, (b - 192) * 256 + msg[pos + 1], msg.len() as int, (
        jumps - 1) as nat);
    }
}

/// Reading a name from a region that holds exactly the uncompressed
/// bytes of a well-formed name yields that name, whatever the pointer
/// budget, and ends right behind it.
pub proof fn lemma_name_value_uncompressed(
    msg: Seq<u8>,
    pos: int,
    limit: int,
    jumps: nat,
    s: Seq<u8>,
)
    requires
        is_name(s),
        0 <= pos,
        pos + s.len() <= limit <= msg.len(),
        msg.subrange(pos, pos + s.len()) == s,
    ensures
        name_value(msg, pos, limit, jumps) == Some(s),
        name_end(msg, pos, limit) == Some(pos + s.len()),
    decreases s.len(),
{
    assert(msg[pos] == s[0]);
    let b = s[0];
    if b == 0 {
        assert(name_value(msg, pos, limit, jumps) == Some(seq![0u8]));
        assert(seq![0u8] =~= s);
    } else {
        let rest = s.skip(b + 1);
        assert(forall|j: int| 0 <= j < rest.len() ==> rest[j] == s[b + 1 + j]);
        assert(msg.subrange(pos + 1 + b, pos + 1 + b + rest.len()) =~= rest);
        lemma_name_value_uncompressed(msg, pos + 1 + b, limit, jumps, rest);
        assert(msg.subrange(pos + 1, pos + 1 + b) =~= s.subrange(1, 1 + b));
        assert(seq![b] + s.subrange(1, 1 + b) + rest =~= s);
    }
}

/// An owned, uncompressed domain name in wire format.
#[derive(Clone, Debug)]
pub struct Name {
    bytes: Vec<u8>,
}

impl View for Name {
    type V = Seq<u8>;

    closed spec fn view(&self) -> Seq<u8> {
        self.bytes@
    }
}

impl Name {
    /// The owned bytes are a well-formed uncompressed name.
    pub open spec fn wf(&self) -> bool {
        is_name(self@)
    }

    /// Reads a name from the parser's position, following compression
    /// pointers into the parser's message context, and returns it
    /// uncompressed.  The parser moves to right behind the name — its
    /// zero byte, or the first compression pointer.  On failure the
    /// parser is left as it was.
    pub fn parse(parser: &mut Parser) -> (r: ParseResult<Name>)
        requires
            old(parser).wf(),
        ensures
            final(parser).wf(),
            final(parser)@.msg == old(parser)@.msg,
            final(parser)@.limit == old(parser)@.limit,
            r is Ok <==> name_at(old(parser)@.msg, old(parser)@.pos, old(parser)@.limit) is Some,
            r matches Ok(n) ==> n.wf() && n@ == name_at(
                old(parser)@.msg,
                old(parser)@.pos,
                old(parser)@.limit,
            ).unwrap() && name_end(old(parser)@.msg, old(parser)@.pos, old(parser)@.limit) == Some(
                final(parser)@.pos,
            ),
            r is Err ==> final(parser)@ == old(parser)@,
            r matches Err(e) ==> e == name_err_at(
                old(parser)@.msg,
                old(parser)@.pos,
                old(parser)@.limit,
            ),
    {
        let msg = parser.context();
        let start = parser.position();
        let lim0 = parser.limit();
        let ghost gmsg = msg@;
        let mut out: Vec<u8> = Vec::new();
        let mut pos: usize = start;
        let mut lim: usize = lim0;
        let mut fuel: usize = msg.len();
        let mut jumped: bool = false;
        let mut resume: usize = 0;
        proof {
            if name_value(gmsg, pos as int, lim as int, fuel as nat) is Some {
                assert(out@ + name_value(gmsg, pos as int, lim as int, fuel as nat).unwrap()
                    =~= name_value(gmsg, pos as int, lim as int, fuel as nat).unwrap());
            }
        }
        loop
            invariant
                parser.wf(),
                parser@ == old(parser)@,
                gmsg == parser@.msg,
                gmsg == msg@,
                start == parser@.pos,
                lim0 == parser@.limit,
                pos <= lim <= gmsg.len(),
                jumped ==> lim == gmsg.len(),
                !jumped ==> lim == lim0,
                jumped ==> name_end(gmsg, start as int, lim0 as int) == Some(resume as int),
                !jumped ==> name_end(gmsg, start as int, lim0 as int) == name_end(
                    gmsg,
                    pos as int,
                    lim as int,
                ),
                jumped ==> start <= resume <= lim0,
                !jumped ==> start <= pos,
                name_at(gmsg, start as int, lim0 as int) == match name_value(
                    gmsg,
                    pos as int,
                    lim as int,
                    fuel as nat,
                ) {
                    Some(rest) => Some(out@ + rest),
                    None => None::<Seq<u8>>,
                },
                name_err_at(gmsg, start as int, lim0 as int) == name_error(
                    gmsg,
                    pos as int,
                    lim as int,
                    fuel as nat,
                ),
            decreases fuel, lim - pos,
        {
            if pos >= lim {
                return Err(ParseError::UnexpectedEnd);
            }
            let b = *vstd::slice::slice_index_get(msg, pos);
            if b == 0 {
                let ghost out_before = out@;
                out.push(0);
                proof {
                    assert(name_value(gmsg, pos as int, lim as int, fuel as nat) == Some(
                        seq![0u8],
                    ));
                    assert(out_before + seq![0u8] =~= out@);
                    assert(name_at(gmsg, start as int, lim0 as int) == Some(out@));
                    lemma_name_value_is_name(gmsg, start as int, lim0 as int, gmsg.len() as nat);
                    if !jumped {
                        assert(name_end(gmsg, pos as int, lim as int) == Some(pos + 1));
                    }
                }
                let n = if jumped {
                    resume - start
                } else {
                    pos + 1 - start
                };
                parser.advance(n);
                return Ok(Name { bytes: out });
            } else if b < 64 {
                let blen: usize = b as usize;
                if blen + 1 > lim - pos {
                    return Err(ParseError::UnexpectedEnd);
                }
                let ghost out_before = out@;
                out.push(b);
                let label = vstd::slice::slice_subrange(msg, pos + 1, pos + 1 + blen);
                out.push_bytes(label);
                proof {
                    let inner = name_value(gmsg, pos + 1 + blen, lim as int, fuel as nat);
                    if inner is Some {
                        assert(out@ + inner.unwrap() =~= out_before + (seq![b] + gmsg.subrange(
                            pos + 1,
                            pos + 1 + blen,
                        ) + inner.unwrap()));
                    }
                }
                pos = pos + 1 + blen;
            } else if b >= 192 {
                if pos + 1 >= lim {
                    return Err(ParseError::UnexpectedEnd);
                }
                if fuel == 0 {
                    proof {
                        assert(name_value(gmsg, pos as int, lim as int, fuel as nat) is None);
                    }
                    return Err(ParseError::BadPointer);
                }
                let b2 = *vstd::slice::slice_index_get(msg, pos + 1);
                let target: usize = ((b - 192) as usize) * 256 + (b2 as usize);
                if target >= msg.len() {
                    proof {
                        assert(name_value(gmsg, target as int, gmsg.len() as int, (fuel
                            - 1) as nat) is None);
                        assert(name_value(gmsg, pos as int, lim as int, fuel as nat) is None);
                    }
                    return Err(ParseError::BadPointer);
                }
                if !jumped {
                    resume = pos + 2;
                    jumped = true;
                }
                pos = target;
                lim = msg.len();
                fuel = fuel - 1;
            } else {
                return Err(ParseError::BadLabelType);
            }
        }
    }

    /// Returns the name's uncompressed wire bytes.
    pub fn as_bytes(&self) -> (r: &[u8])
        ensures
            r@ == self@,
    {
        self.bytes.as_slice()
    }

    /// Returns the length of the name's wire bytes.
    pub fn len(&self) -> (n: usize)
        ensures
            n == self@.len(),
    {
        self.bytes.len()
    }

    /// Appends the name's uncompressed wire bytes to a sink.
    pub fn compose<B: BytesBuf>(&self, target: &mut B) -> (r: ComposeResult<()>)
        ensures
            r is Ok,
            final(target).contents() == old(target).contents() + self@,
    {
        target.push_bytes(self.bytes.as_slice());
        Ok(())
    }
}

impl PartialEq for Name {
    /// Two names are equal when their uncompressed bytes are.
    fn eq(&self, other: &Name) -> (r: bool) {
        bytes_eq(self.bytes.as_slice(), other.bytes.as_slice())
    }
}

impl Eq for Name {

}

impl vstd::std_specs::cmp::PartialEqSpecImpl for Name {
    open spec fn obeys_eq_spec() -> bool {
        true
    }

    open spec fn eq_spec(&self, other: &Name) -> bool {
        self@ == other@
    }
}

} // verus!
