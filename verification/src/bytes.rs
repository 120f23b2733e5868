//! Byte cursor and byte sink primitives.
//!
//! Reading DNS wire data happens over plain byte slices: the
//! [`BytesSlice`] trait extends `[u8]` with bounds-checked extraction of
//! big-endian integers and of sub-ranges, always returning the value
//! together with the unconsumed remainder.  Composing happens into an
//! append-only accumulator described by the [`BytesBuf`] trait.
//!
//! All multi-byte integers use network byte order.  The conversion is
//! written out over individual bytes, so it does not depend on the
//! host's native byte order.

use vstd::prelude::*;
use crate::error::{ParseError, ParseResult};

verus! {

/// The value of two bytes read as a big-endian integer.
pub open spec fn be16(b0: u8, b1: u8) -> u16 {
    (b0 * 256 + b1) as u16
}

/// The value of four bytes read as a big-endian integer.
pub open spec fn be32(b0: u8, b1: u8, b2: u8, b3: u8) -> u32 {
    (b0 * 0x1000000 + b1 * 0x10000 + b2 * 256 + b3) as u32
}

/// The two bytes of a 16-bit integer in big-endian order.
pub open spec fn be16_bytes(v: u16) -> Seq<u8> {
    seq![(v / 256) as u8, (v % 256) as u8]
}

/// The four bytes of a 32-bit integer in big-endian order.
pub open spec fn be32_bytes(v: u32) -> Seq<u8> {
    seq![
        (v / 0x1000000) as u8,
        ((v / 0x10000) % 256) as u8,
        ((v / 256) % 256) as u8,
        (v % 256) as u8,
    ]
}

/// Encoding a 16-bit value and reading the two bytes back gives the
/// value; reading two bytes and encoding the result gives the bytes.
pub proof fn lemma_be16_round_trip(v: u16, b0: u8, b1: u8)
    ensures
        be16((v / 256) as u8, (v % 256) as u8) == v,
        be16_bytes(be16(b0, b1)) == seq![b0, b1],
{
    assert(be16((v / 256) as u8, (v % 256) as u8) == v) by (nonlinear_arith);
    assert(((b0 * 256 + b1) as u16) / 256 == b0) by (nonlinear_arith);
    assert(((b0 * 256 + b1) as u16) % 256 == b1) by (nonlinear_arith);
    assert(be16_bytes(be16(b0, b1)) =~= seq![b0, b1]);
}

/// Encoding a 32-bit value and reading the four bytes back gives the
/// value; reading four bytes and encoding the result gives the bytes.
pub proof fn lemma_be32_round_trip(v: u32, b0: u8, b1: u8, b2: u8, b3: u8)
    ensures
        be32(
            (v / 0x1000000) as u8,
            ((v / 0x10000) % 256) as u8,
            ((v / 256) % 256) as u8,
            (v % 256) as u8,
        ) == v,
        be32_bytes(be32(b0, b1, b2, b3)) == seq![b0, b1, b2, b3],
{
    assert(be32(
        (v / 0x1000000) as u8,
        ((v / 0x10000) % 256) as u8,
        ((v / 256) % 256) as u8,
        (v % 256) as u8,
    ) == v) by (nonlinear_arith);
    assert((b0 * 0x1000000 + b1 * 0x10000 + b2 * 256 + b3) / 0x1000000 == b0)
        by (nonlinear_arith);
    assert(((b0 * 0x1000000 + b1 * 0x10000 + b2 * 256 + b3) / 0x10000) % 256 == b1)
        by (nonlinear_arith);
    assert(((b0 * 0x1000000 + b1 * 0x10000 + b2 * 256 + b3) / 256) % 256 == b2)
        by (nonlinear_arith);
    assert((b0 * 0x1000000 + b1 * 0x10000 + b2 * 256 + b3) % 256 == b3) by (nonlinear_arith);
    assert(be32_bytes(be32(b0, b1, b2, b3)) =~= seq![b0, b1, b2, b3]);
}

/// Compares two byte spans for equality.
pub fn bytes_eq(a: &[u8], b: &[u8]) -> (r: bool)
    ensures
        r == (a@ == b@),
{
    if a.len() != b.len() {
        assert(a@ != b@) by {
            assert(a@.len() != b@.len());
        }
        return false;
    }
    let mut i: usize = 0;
    while i < a.len()
        invariant
            i <= a@.len(),
            a@.len() == b@.len(),
            forall|j: int| 0 <= j < i ==> a@[j] == b@[j],
        decreases a@.len() - i,
    {
        if *vstd::slice::slice_index_get(a, i) != *vstd::slice::slice_index_get(b, i) {
            return false;
        }
        i += 1;
    }
    assert(a@ =~= b@);
    true
}

/// A trait extending a byte slice with reading of DNS wire data.
///
/// Every operation either returns the extracted value together with the
/// unconsumed remainder of the view, or fails with
/// [`ParseError::UnexpectedEnd`] when fewer bytes remain than the
/// operation needs.  The receiver is never changed: a failed operation
/// leaves the view as it was, and the caller may retry with a smaller
/// size.  All bounds decisions delegate to [`BytesSlice::check_len`],
/// the single bounds-checking primitive.
pub trait BytesSlice {
    /// The bytes of this view.
    spec fn bytes(&self) -> Seq<u8>;

    /// Splits the first byte off the view.
    fn split_u8(&self) -> (r: ParseResult<(u8, &Self)>)
        ensures
            r is Ok <==> self.bytes().len() >= 1,
            r matches Ok((v, rest)) ==> v == self.bytes()[0] && rest.bytes() == self.bytes().skip(
                1,
            ),
            r matches Err(e) ==> e == ParseError::UnexpectedEnd,
    ;

    /// Splits the first two bytes off the view as a big-endian integer.
    fn split_u16(&self) -> (r: ParseResult<(u16, &Self)>)
        ensures
            r is Ok <==> self.bytes().len() >= 2,
            r matches Ok((v, rest)) ==> v == be16(self.bytes()[0], self.bytes()[1])
                && rest.bytes() == self.bytes().skip(2),
            r matches Err(e) ==> e == ParseError::UnexpectedEnd,
    ;

    /// Splits the first four bytes off the view as a big-endian integer.
    fn split_u32(&self) -> (r: ParseResult<(u32, &Self)>)
        ensures
            r is Ok <==> self.bytes().len() >= 4,
            r matches Ok((v, rest)) ==> v == be32(
                self.bytes()[0],
                self.bytes()[1],
                self.bytes()[2],
                self.bytes()[3],
            ) && rest.bytes() == self.bytes().skip(4),
            r matches Err(e) ==> e == ParseError::UnexpectedEnd,
    ;

    /// Splits the view into its first `at` bytes and the rest.
    fn split_bytes(&self, at: usize) -> (r: ParseResult<(&[u8], &Self)>)
        ensures
            r is Ok <==> at <= self.bytes().len(),
            r matches Ok((head, rest)) ==> head@ == self.bytes().take(at as int)
                && rest.bytes() == self.bytes().skip(at as int),
            r matches Err(e) ==> e == ParseError::UnexpectedEnd,
    ;

    /// Returns the view from `start` to its end.
    fn tail(&self, start: usize) -> (r: ParseResult<&Self>)
        ensures
            r is Ok <==> start <= self.bytes().len(),
            r matches Ok(rest) ==> rest.bytes() == self.bytes().skip(start as int),
            r matches Err(e) ==> e == ParseError::UnexpectedEnd,
    ;

    /// Succeeds if and only if at least `len` bytes remain in the view.
    fn check_len(&self, len: usize) -> (r: ParseResult<()>)
        ensures
            r is Ok <==> len <= self.bytes().len(),
            r matches Err(e) ==> e == ParseError::UnexpectedEnd,
    ;
}

impl BytesSlice for [u8] {
    open spec fn bytes(&self) -> Seq<u8> {
        self@
    }

    fn split_u8(&self) -> (r: ParseResult<(u8, &[u8])>) {
        match self.check_len(1) {
            Err(e) => Err(e),
            Ok(()) => {
                let v = *vstd::slice::slice_index_get(self, 0);
                let rest = vstd::slice::slice_subrange(self, 1, self.len());
                assert(rest@ =~= self@.skip(1));
                Ok((v, rest))
            },
        }
    }

    fn split_u16(&self) -> (r: ParseResult<(u16, &[u8])>) {
        match self.check_len(2) {
            Err(e) => Err(e),
            Ok(()) => {
                let b0 = *vstd::slice::slice_index_get(self, 0);
                let b1 = *vstd::slice::slice_index_get(self, 1);
                let rest = vstd::slice::slice_subrange(self, 2, self.len());
                assert(rest@ =~= self@.skip(2));
                Ok(((b0 as u16) * 256 + (b1 as u16), rest))
            },
        }
    }

    fn split_u32(&self) -> (r: ParseResult<(u32, &[u8])>) {
        match self.check_len(4) {
            Err(e) => Err(e),
            Ok(()) => {
                let b0 = *vstd::slice::slice_index_get(self, 0);
                let b1 = *vstd::slice::slice_index_get(self, 1);
                let b2 = *vstd::slice::slice_index_get(self, 2);
                let b3 = *vstd::slice::slice_index_get(self, 3);
                let rest = vstd::slice::slice_subrange(self, 4, self.len());
                assert(rest@ =~= self@.skip(4));
                let v = (b0 as u32) * 0x1000000 + (b1 as u32) * 0x10000 + (b2 as u32) * 256 + (
                b3 as u32);
                Ok((v, rest))
            },
        }
    }

    fn split_bytes(&self, at: usize) -> (r: ParseResult<(&[u8], &[u8])>) {
        match self.check_len(at) {
            Err(e) => Err(e),
            Ok(()) => {
                let head = vstd::slice::slice_subrange(self, 0, at);
                let rest = vstd::slice::slice_subrange(self, at, self.len());
                assert(head@ =~= self@.take(at as int));
                assert(rest@ =~= self@.skip(at as int));
                Ok((head, rest))
            },
        }
    }

    fn tail(&self, start: usize) -> (r: ParseResult<&[u8]>) {
        match self.check_len(start) {
            Err(e) => Err(e),
            Ok(()) => {
                let rest = vstd::slice::slice_subrange(self, start, self.len());
                assert(rest@ =~= self@.skip(start as int));
                Ok(rest)
            },
        }
    }

    fn check_len(&self, len: usize) -> (r: ParseResult<()>) {
        if len > self.len() {
            Err(ParseError::UnexpectedEnd)
        } else {
            Ok(())
        }
    }
}

/// A trait for something raw DNS wire data can be appended to.
///
/// The sink never fails: it grows as needed.  Bytes already pushed are
/// never altered by later pushes.  The multi-byte operations convert
/// their value to big-endian order and hand the bytes to
/// [`BytesBuf::push_bytes`], the single append path.
pub trait BytesBuf {
    /// The bytes pushed so far.
    spec fn contents(&self) -> Seq<u8>;

    /// Hints that `additional` more bytes are coming; no observable
    /// effect on the contents.
    fn reserve(&mut self, additional: usize)
        ensures
            final(self).contents() == old(self).contents(),
    ;

    /// Appends a byte span verbatim.
    fn push_bytes(&mut self, data: &[u8])
        ensures
            final(self).contents() == old(self).contents() + data@,
    ;

    /// Appends a single byte.
    fn push_u8(&mut self, data: u8)
        ensures
            final(self).contents() == old(self).contents().push(data),
    {
        let bytes: [u8; 1] = [data];
        self.push_bytes(bytes.as_slice());
        assert(old(self).contents() + bytes@ =~= old(self).contents().push(data));
    }

    /// Appends a 16-bit integer as two big-endian bytes.
    fn push_u16(&mut self, data: u16)
        ensures
            final(self).contents() == old(self).contents() + be16_bytes(data),
    {
        let bytes: [u8; 2] = [(data / 256) as u8, (data % 256) as u8];
        self.push_bytes(bytes.as_slice());
        assert(bytes@ =~= be16_bytes(data));
    }

    /// Appends a 32-bit integer as four big-endian bytes.
    fn push_u32(&mut self, data: u32)
        ensures
            final(self).contents() == old(self).contents() + be32_bytes(data),
    {
        let bytes: [u8; 4] = [
            (data / 0x1000000) as u8,
            ((data / 0x10000) % 256) as u8,
            ((data / 256) % 256) as u8,
            (data % 256) as u8,
        ];
        self.push_bytes(bytes.as_slice());
        assert(bytes@ =~= be32_bytes(data));
    }
}

impl BytesBuf for Vec<u8> {
    open spec fn contents(&self) -> Seq<u8> {
        self@
    }

    fn reserve(&mut self, additional: usize) {
        Vec::reserve(self, additional);
    }

    fn push_bytes(&mut self, data: &[u8]) {
        let mut i: usize = 0;
        while i < data.len()
            invariant
                i <= data@.len(),
                self@ == old(self)@ + data@.take(i as int),
            decreases data@.len() - i,
        {
            self.push(*vstd::slice::slice_index_get(data, i));
            assert(old(self)@ + data@.take(i + 1) =~= (old(self)@ + data@.take(i as int)).push(
                data@[i as int],
            ));
            i += 1;
        }
        assert(data@.take(data@.len() as int) =~= data@);
    }
}

} // verus!
