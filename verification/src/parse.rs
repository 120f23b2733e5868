//! Parsing positions over a message buffer.
//!
//! A [`Parser`] is a cursor over a region of a message: it keeps the
//! whole message around, because record data taken out of a message may
//! contain compressed domain names that point back into earlier parts
//! of that same message.  Sequential reads are bounded by the region's
//! limit; the enclosing message is available read-only as context.
//!
//! A [`Nest`] captures a region of a message verbatim — the raw data of
//! one record — so that it can be re-parsed later.  It keeps the same
//! message context for the same reason.

use vstd::prelude::*;
use crate::bytes::{BytesBuf, BytesSlice, be16, be32};
use crate::error::{ComposeResult, ParseError, ParseResult};

verus! {

/// The mathematical state of a [`Parser`].
pub ghost struct ParserView {
    /// The whole message the parser reads from.
    pub msg: Seq<u8>,
    /// The current read position.
    pub pos: int,
    /// The end of the region sequential reads may touch.
    pub limit: int,
}

/// A bounds-checked cursor over a region of a message.
pub struct Parser<'a> {
    message: &'a [u8],
    pos: usize,
    limit: usize,
}

impl<'a> View for Parser<'a> {
    type V = ParserView;

    closed spec fn view(&self) -> ParserView {
        ParserView { msg: self.message@, pos: self.pos as int, limit: self.limit as int }
    }
}

impl<'a> Parser<'a> {
    /// The parser's position and limit lie within its message.
    pub open spec fn wf(&self) -> bool {
        0 <= self@.pos <= self@.limit <= self@.msg.len()
    }

    /// The bytes between the current position and the limit.
    pub open spec fn remaining(&self) -> Seq<u8> {
        self@.msg.subrange(self@.pos, self@.limit)
    }

    /// Creates a parser over a whole message.
    pub fn new(message: &'a [u8]) -> (p: Self)
        ensures
            p.wf(),
            p@.msg == message@,
            p@.pos == 0,
            p@.limit == message@.len(),
    {
        let limit = message.len();
        Parser { message, pos: 0, limit }
    }

    /// Creates a parser over the region `[start, end)` of a message.
    pub fn range(message: &'a [u8], start: usize, end: usize) -> (p: Self)
        requires
            start <= end <= message@.len(),
        ensures
            p.wf(),
            p@.msg == message@,
            p@.pos == start,
            p@.limit == end,
    {
        Parser { message, pos: start, limit: end }
    }

    /// Returns how many bytes are left before the limit.
    pub fn left(&self) -> (n: usize)
        requires
            self.wf(),
        ensures
            n == self@.limit - self@.pos,
    {
        self.limit - self.pos
    }

    /// Returns the current read position within the message.
    pub fn position(&self) -> (n: usize)
        ensures
            n == self@.pos,
    {
        self.pos
    }

    /// Returns the end of the region sequential reads may touch.
    pub fn limit(&self) -> (n: usize)
        ensures
            n == self@.limit,
    {
        self.limit
    }

    /// Returns the whole message this parser reads from.
    ///
    /// Compressed domain names point into the message before the
    /// current region; resolving them needs this context.
    pub fn context(&self) -> (r: &'a [u8])
        ensures
            r@ == self@.msg,
    {
        self.message
    }

    /// Moves the position forward by `n` bytes.
    pub fn advance(&mut self, n: usize)
        requires
            old(self).wf(),
            n <= old(self)@.limit - old(self)@.pos,
        ensures
            final(self).wf(),
            final(self)@.msg == old(self)@.msg,
            final(self)@.limit == old(self)@.limit,
            final(self)@.pos == old(self)@.pos + n,
    {
        self.pos = self.pos + n;
    }

    /// Reads one byte and moves past it.
    pub fn parse_u8(&mut self) -> (r: ParseResult<u8>)
        requires
            old(self).wf(),
        ensures
            final(self).wf(),
            final(self)@.msg == old(self)@.msg,
            final(self)@.limit == old(self)@.limit,
            r is Ok <==> old(self).remaining().len() >= 1,
            r matches Ok(v) ==> v == old(self).remaining()[0] && final(self)@.pos == old(self)@.pos + 1,
            r is Err ==> final(self)@ == old(self)@ && r->Err_0 == ParseError::UnexpectedEnd,
    {
        let rest = vstd::slice::slice_subrange(self.message, self.pos, self.limit);
        match rest.split_u8() {
            Ok((v, _)) => {
                self.pos = self.pos + 1;
                Ok(v)
            },
            Err(e) => Err(e),
        }
    }

    /// Reads a big-endian 16-bit integer and moves past it.
    pub fn parse_u16(&mut self) -> (r: ParseResult<u16>)
        requires
            old(self).wf(),
        ensures
            final(self).wf(),
            final(self)@.msg == old(self)@.msg,
            final(self)@.limit == old(self)@.limit,
            r is Ok <==> old(self).remaining().len() >= 2,
            r matches Ok(v) ==> v == be16(old(self).remaining()[0], old(self).remaining()[1])
                && final(self)@.pos == old(self)@.pos + 2,
            r is Err ==> final(self)@ == old(self)@ && r->Err_0 == ParseError::UnexpectedEnd,
    {
        let rest = vstd::slice::slice_subrange(self.message, self.pos, self.limit);
        match rest.split_u16() {
            Ok((v, _)) => {
                self.pos = self.pos + 2;
                Ok(v)
            },
            Err(e) => Err(e),
        }
    }

    /// Reads a big-endian 32-bit integer and moves past it.
    pub fn parse_u32(&mut self) -> (r: ParseResult<u32>)
        requires
            old(self).wf(),
        ensures
            final(self).wf(),
            final(self)@.msg == old(self)@.msg,
            final(self)@.limit == old(self)@.limit,
            r is Ok <==> old(self).remaining().len() >= 4,
            r matches Ok(v) ==> v == be32(
                old(self).remaining()[0],
                old(self).remaining()[1],
                old(self).remaining()[2],
                old(self).remaining()[3],
            ) && final(self)@.pos == old(self)@.pos + 4,
            r is Err ==> final(self)@ == old(self)@ && r->Err_0 == ParseError::UnexpectedEnd,
    {
        let rest = vstd::slice::slice_subrange(self.message, self.pos, self.limit);
        match rest.split_u32() {
            Ok((v, _)) => {
                self.pos = self.pos + 4;
                Ok(v)
            },
            Err(e) => Err(e),
        }
    }

    /// Reads `len` raw bytes and moves past them.
    pub fn parse_bytes(&mut self, len: usize) -> (r: ParseResult<&'a [u8]>)
        requires
            old(self).wf(),
        ensures
            final(self).wf(),
            final(self)@.msg == old(self)@.msg,
            final(self)@.limit == old(self)@.limit,
            r is Ok <==> len <= old(self).remaining().len(),
            r matches Ok(head) ==> head@ == old(self).remaining().take(len as int) && final(self)@.pos == old(self)@.pos + len,
            r is Err ==> final(self)@ == old(self)@ && r->Err_0 == ParseError::UnexpectedEnd,
    {
        let rest = vstd::slice::slice_subrange(self.message, self.pos, self.limit);
        match rest.split_bytes(len) {
            Ok((head, _)) => {
                self.pos = self.pos + len;
                Ok(head)
            },
            Err(e) => Err(e),
        }
    }

    /// Captures the next `len` bytes as a [`Nest`] and moves past them.
    pub fn parse_nest(&mut self, len: usize) -> (r: ParseResult<Nest<'a>>)
        requires
            old(self).wf(),
        ensures
            final(self).wf(),
            final(self)@.msg == old(self)@.msg,
            final(self)@.limit == old(self)@.limit,
            r is Ok <==> len <= old(self).remaining().len(),
            r matches Ok(nest) ==> nest.wf() && nest@.msg == old(self)@.msg && nest@.start == old(self)@.pos && nest@.end == old(self)@.pos + len && final(self)@.pos == old(self)@.pos + len,
            r is Err ==> final(self)@ == old(self)@ && r->Err_0 == ParseError::UnexpectedEnd,
    {
        let rest = vstd::slice::slice_subrange(self.message, self.pos, self.limit);
        match rest.check_len(len) {
            Ok(()) => {
                let start = self.pos;
                self.pos = self.pos + len;
                Ok(Nest { message: self.message, start, end: start + len })
            },
            Err(e) => Err(e),
        }
    }
}

/// The mathematical state of a [`Nest`].
pub ghost struct NestView {
    /// The whole message the nest was captured from.
    pub msg: Seq<u8>,
    /// Where the captured region starts in the message.
    pub start: int,
    /// Where the captured region ends in the message.
    pub end: int,
}

/// A captured region of a message: one record's raw data, together
/// with the message context it may point back into.
#[derive(Clone, Copy, Debug)]
pub struct Nest<'a> {
    message: &'a [u8],
    start: usize,
    end: usize,
}

impl<'a> View for Nest<'a> {
    type V = NestView;

    closed spec fn view(&self) -> NestView {
        NestView { msg: self.message@, start: self.start as int, end: self.end as int }
    }
}

impl<'a> Nest<'a> {
    /// The nest's region lies within its message; this holds of every
    /// nest value.
    #[verifier::type_invariant]
    pub open spec fn wf(&self) -> bool {
        0 <= self@.start <= self@.end <= self@.msg.len()
    }

    /// The captured bytes themselves.
    pub open spec fn bytes(&self) -> Seq<u8> {
        self@.msg.subrange(self@.start, self@.end)
    }

    /// Captures the region `[start, end)` of a message.
    pub fn new(message: &'a [u8], start: usize, end: usize) -> (r: Self)
        requires
            start <= end <= message@.len(),
        ensures
            r.wf(),
            r@.msg == message@,
            r@.start == start,
            r@.end == end,
    {
        Nest { message, start, end }
    }

    /// Returns the length of the captured region.
    pub fn len(&self) -> (n: usize)
        ensures
            n == self.bytes().len(),
    {
        proof {
            use_type_invariant(&*self);
        }
        self.end - self.start
    }

    /// Returns the captured bytes as a slice.
    pub fn as_bytes(&self) -> (r: &'a [u8])
        ensures
            r@ == self.bytes(),
    {
        proof {
            use_type_invariant(&*self);
        }
        vstd::slice::slice_subrange(self.message, self.start, self.end)
    }

    /// Returns a parser over the captured region, with the original
    /// message as context.
    pub fn parser(&self) -> (p: Parser<'a>)
        ensures
            p.wf(),
            p@.msg == self@.msg,
            p@.pos == self@.start,
            p@.limit == self@.end,
    {
        proof {
            use_type_invariant(&*self);
        }
        Parser::range(self.message, self.start, self.end)
    }

    /// Appends the captured bytes to a sink unchanged.
    ///
    /// If the bytes came out of a message and belong to a record type
    /// of the base DNS specification, they may contain compressed
    /// domain names whose pointers are only meaningful at the offsets
    /// of the original message; replaying them into a new message is
    /// then only correct if everything keeps its offsets.  No
    /// decompression is attempted here.
    pub fn compose<B: BytesBuf>(&self, target: &mut B) -> (r: ComposeResult<()>)
        ensures
            r is Ok,
            final(target).contents() == old(target).contents() + self.bytes(),
    {
        proof {
            use_type_invariant(&*self);
        }
        let data = vstd::slice::slice_subrange(self.message, self.start, self.end);
        target.push_bytes(data);
        Ok(())
    }
}

} // verus!
