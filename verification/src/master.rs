//! Scanning record data from master-file text.
//!
//! A [`Stream`] is a cursor over master-format text held in memory.
//! Tokens are separated by white space; the stream offers skipping a
//! literal token, scanning a decimal 16-bit number, and scanning a
//! word of hexadecimal digit pairs into bytes.  These are the three
//! primitives the generic record data syntax of RFC 3597 needs.

use vstd::prelude::*;
use crate::error::{ScanResult, SyntaxError};

verus! {

/// Whether `b` is a white-space byte separating tokens.
pub open spec fn is_ws(b: u8) -> bool {
    b == 32 || b == 9
}

/// The first position at or behind `pos` that holds no white space.
pub open spec fn skip_ws(text: Seq<u8>, pos: int) -> int
    decreases text.len() - pos,
{
    if pos < 0 || pos >= text.len() {
        pos
    } else if is_ws(text[pos]) {
        skip_ws(text, pos + 1)
    } else {
        pos
    }
}

/// Skipping white space neither leaves the text nor goes backwards,
/// and stops only at its end or on a byte that is no white space.
pub proof fn lemma_skip_ws(text: Seq<u8>, pos: int)
    requires
        0 <= pos <= text.len(),
    ensures
        pos <= skip_ws(text, pos) <= text.len(),
        skip_ws(text, pos) < text.len() ==> !is_ws(text[skip_ws(text, pos)]),
    decreases text.len() - pos,
{
    if pos < text.len() && is_ws(text[pos]) {
        lemma_skip_ws(text, pos + 1);
    }
}

/// The end of the token starting at `pos`: the first position at or
/// behind it that holds white space, or the end of the text.
pub open spec fn token_end(text: Seq<u8>, pos: int) -> int
    decreases text.len() - pos,
{
    if pos < 0 || pos >= text.len() {
        pos
    } else if is_ws(text[pos]) {
        pos
    } else {
        token_end(text, pos + 1)
    }
}

/// A token's end lies between its start and the end of the text.
pub proof fn lemma_token_end(text: Seq<u8>, pos: int)
    requires
        0 <= pos <= text.len(),
    ensures
        pos <= token_end(text, pos) <= text.len(),
    decreases text.len() - pos,
{
    if pos < text.len() && !is_ws(text[pos]) {
        lemma_token_end(text, pos + 1);
    }
}

/// Whether the bytes of `lit` stand at `pos` in `text`.
pub open spec fn literal_at(text: Seq<u8>, pos: int, lit: Seq<u8>) -> bool {
    0 <= pos && pos + lit.len() <= text.len() && text.subrange(pos, pos + lit.len()) == lit
}

/// Whether `b` is a decimal digit.
pub open spec fn is_digit(b: u8) -> bool {
    48 <= b <= 57
}

/// The end of the run of decimal digits starting at `pos`.
pub open spec fn digits_end(text: Seq<u8>, pos: int) -> int
    decreases text.len() - pos,
{
    if pos < 0 || pos >= text.len() {
        pos
    } else if is_digit(text[pos]) {
        digits_end(text, pos + 1)
    } else {
        pos
    }
}

/// A digit run's end lies between its start and the end of the text,
/// and everything before it is a digit.
pub proof fn lemma_digits_end(text: Seq<u8>, pos: int)
    requires
        0 <= pos <= text.len(),
    ensures
        pos <= digits_end(text, pos) <= text.len(),
        forall|k: int| pos <= k < digits_end(text, pos) ==> is_digit(#[trigger] text[k]),
    decreases text.len() - pos,
{
    if pos < text.len() && is_digit(text[pos]) {
        lemma_digits_end(text, pos + 1);
    }
}

/// The value of the decimal digits in `[s, e)` of `text`.
pub open spec fn dec_value(text: Seq<u8>, s: int, e: int) -> int
    decreases e - s,
{
    if e <= s {
        0
    } else {
        dec_value(text, s, e - 1) * 10 + (text[e - 1] - 48)
    }
}

/// The value of a run of decimal digits is not negative.
pub proof fn lemma_dec_value_nonneg(text: Seq<u8>, s: int, e: int)
    requires
        forall|k: int| s <= k < e ==> is_digit(#[trigger] text[k]),
    ensures
        0 <= dec_value(text, s, e),
    decreases e - s,
{
    if e > s {
        lemma_dec_value_nonneg(text, s, e - 1);
    }
}

/// A longer run of decimal digits has at least the value of any of
/// its prefixes.
pub proof fn lemma_dec_value_prefix(text: Seq<u8>, s: int, i: int, e: int)
    requires
        s <= i <= e,
        forall|k: int| s <= k < e ==> is_digit(#[trigger] text[k]),
    ensures
        dec_value(text, s, i) <= dec_value(text, s, e),
    decreases e - i,
{
    if i < e {
        lemma_dec_value_prefix(text, s, i, e - 1);
        lemma_dec_value_nonneg(text, s, e - 1);
    }
}

/// Whether `b` is a hexadecimal digit.
pub open spec fn is_hex_digit(b: u8) -> bool {
    (48 <= b <= 57) || (97 <= b <= 102) || (65 <= b <= 70)
}

/// The value of the hexadecimal digit `b`.
pub open spec fn hex_digit_value(b: u8) -> int {
    if 48 <= b <= 57 {
        b - 48
    } else if 97 <= b <= 102 {
        b - 87
    } else {
        b - 55
    }
}

/// Whether `[s, e)` of `text` is a well-formed hexadecimal word: not
/// empty, of even length, and all digits.
pub open spec fn hex_word_ok(text: Seq<u8>, s: int, e: int) -> bool {
    &&& s < e <= text.len()
    &&& (e - s) % 2 == 0
    &&& forall|k: int| s <= k < e ==> is_hex_digit(#[trigger] text[k])
}

/// The bytes the hexadecimal digit pairs in `[s, e)` of `text` spell.
pub open spec fn hex_word_bytes(text: Seq<u8>, s: int, e: int) -> Seq<u8>
    decreases e - s,
{
    if e - s < 2 {
        Seq::empty()
    } else {
        seq![(hex_digit_value(text[s]) * 16 + hex_digit_value(text[s + 1])) as u8]
            + hex_word_bytes(text, s + 2, e)
    }
}

/// A word of hexadecimal digit pairs spells at least one byte.
pub proof fn lemma_hex_word_bytes_len(text: Seq<u8>, s: int, e: int)
    requires
        e - s >= 2,
    ensures
        hex_word_bytes(text, s, e).len() >= 1,
{
}

/// What scanning hexadecimal words until `need` bytes were decoded
/// pushes to the sink, and how it ends: with the position behind the
/// last word used, or with the error the scan stops on.  A word that
/// spells more bytes than are still needed has exactly the needed
/// bytes pushed and ends the scan with a length overrun.  Every word
/// spells at least one byte, so a pointer budget of `need` words and
/// one more loses nothing.
pub open spec fn scan_blob(text: Seq<u8>, pos: int, need: nat, fuel: nat) -> (
    Seq<u8>,
    ScanResult<int>,
)
    decreases fuel,
{
    if need == 0 {
        (Seq::empty(), Ok(pos))
    } else if fuel == 0 {
        (Seq::empty(), Err(SyntaxError::UnexpectedEnd))
    } else {
        let s = skip_ws(text, pos);
        if s >= text.len() {
            (Seq::empty(), Err(SyntaxError::UnexpectedEnd))
        } else {
            let e = token_end(text, s);
            if !hex_word_ok(text, s, e) {
                (Seq::empty(), Err(SyntaxError::IllegalCharacter))
            } else {
                let w = hex_word_bytes(text, s, e);
                if w.len() > need {
                    (w.take(need as int), Err(SyntaxError::LongGenericData))
                } else {
                    let rec = scan_blob(text, e, (need - w.len()) as nat, (fuel - 1) as nat);
                    (w + rec.0, rec.1)
                }
            }
        }
    }
}

/// What scanning the generic record data syntax at `pos` pushes to
/// the sink, and how it ends: the marker token, then a decimal 16-bit
/// length, then exactly that many bytes of hexadecimal digit pairs.
pub open spec fn scan_generic(text: Seq<u8>, pos: int) -> (Seq<u8>, ScanResult<int>) {
    let s = skip_ws(text, pos);
    if !literal_at(text, s, seq![92u8, 35u8]) {
        (Seq::empty(), Err(SyntaxError::ExpectedLiteral))
    } else {
        let s2 = skip_ws(text, s + 2);
        let e2 = digits_end(text, s2);
        if s2 >= text.len() {
            (Seq::empty(), Err(SyntaxError::UnexpectedEnd))
        } else if e2 == s2 {
            (Seq::empty(), Err(SyntaxError::IllegalCharacter))
        } else if dec_value(text, s2, e2) > 65535 {
            (Seq::empty(), Err(SyntaxError::NumberTooLarge))
        } else {
            scan_blob(
                text,
                e2,
                dec_value(text, s2, e2) as nat,
                (dec_value(text, s2, e2) + 1) as nat,
            )
        }
    }
}

/// The mathematical state of a [`Stream`].
pub ghost struct StreamView {
    /// The text the stream scans.
    pub text: Seq<u8>,
    /// The current scan position.
    pub pos: int,
}

/// A cursor over master-format text held in memory.
pub struct Stream<'a> {
    text: &'a [u8],
    pos: usize,
}

impl<'a> View for Stream<'a> {
    type V = StreamView;

    closed spec fn view(&self) -> StreamView {
        StreamView { text: self.text@, pos: self.pos as int }
    }
}

impl<'a> Stream<'a> {
    /// The stream's position lies within its text.
    pub open spec fn wf(&self) -> bool {
        0 <= self@.pos <= self@.text.len()
    }

    /// Creates a stream over a piece of text.
    pub fn new(text: &'a [u8]) -> (s: Self)
        ensures
            s.wf(),
            s@.text == text@,
            s@.pos == 0,
    {
        Stream { text, pos: 0 }
    }

    /// Returns the current scan position.
    pub fn position(&self) -> (n: usize)
        ensures
            n == self@.pos,
    {
        self.pos
    }

    /// Moves the position past any white space.
    fn skip_whitespace(&mut self)
        requires
            old(self).wf(),
        ensures
            final(self).wf(),
            final(self)@.text == old(self)@.text,
            final(self)@.pos == skip_ws(old(self)@.text, old(self)@.pos),
    {
        loop
            invariant
                self.wf(),
                self@.text == old(self)@.text,
                skip_ws(old(self)@.text, old(self)@.pos) == skip_ws(self@.text, self@.pos),
            ensures
                self.wf(),
                self@.text == old(self)@.text,
                self@.pos == skip_ws(old(self)@.text, old(self)@.pos),
            decreases self@.text.len() - self@.pos,
        {
            if self.pos >= self.text.len() {
                break ;
            }
            let b = *vstd::slice::slice_index_get(self.text, self.pos);
            if b != 32 && b != 9 {
                break ;
            }
            self.pos = self.pos + 1;
        }
    }

    /// Skips white space and then the given literal token.  On
    /// failure the stream is left as it was.
    pub fn skip_literal(&mut self, lit: &[u8]) -> (r: ScanResult<()>)
        requires
            old(self).wf(),
        ensures
            final(self).wf(),
            final(self)@.text == old(self)@.text,
            r is Ok <==> literal_at(
                old(self)@.text,
                skip_ws(old(self)@.text, old(self)@.pos),
                lit@,
            ),
            r is Ok ==> final(self)@.pos == skip_ws(old(self)@.text, old(self)@.pos) + lit@.len(),
            r matches Err(e) ==> e == SyntaxError::ExpectedLiteral && final(self)@ == old(self)@,
    {
        let saved = self.pos;
        self.skip_whitespace();
        if lit.len() > self.text.len() - self.pos {
            self.pos = saved;
            return Err(SyntaxError::ExpectedLiteral);
        }
        let here = vstd::slice::slice_subrange(self.text, self.pos, self.pos + lit.len());
        if crate::bytes::bytes_eq(here, lit) {
            self.pos = self.pos + lit.len();
            Ok(())
        } else {
            self.pos = saved;
            Err(SyntaxError::ExpectedLiteral)
        }
    }

    /// Skips white space and scans a run of decimal digits as a
    /// 16-bit number.
    pub fn scan_u16(&mut self) -> (r: ScanResult<u16>)
        requires
            old(self).wf(),
        ensures
            final(self).wf(),
            final(self)@.text == old(self)@.text,
            ({
                let text = old(self)@.text;
                let s = skip_ws(text, old(self)@.pos);
                let e = digits_end(text, s);
                &&& (r is Ok <==> s < text.len() && e > s && dec_value(text, s, e) <= 65535)
                &&& r matches Ok(v) ==> v == dec_value(text, s, e) && final(self)@.pos == e
                &&& r matches Err(err) ==> err == (if s >= text.len() {
                    SyntaxError::UnexpectedEnd
                } else if e == s {
                    SyntaxError::IllegalCharacter
                } else {
                    SyntaxError::NumberTooLarge
                })
            }),
    {
        let ghost gtext = self.text@;
        self.skip_whitespace();
        if self.pos >= self.text.len() {
            return Err(SyntaxError::UnexpectedEnd);
        }
        let ghost s = self.pos as int;
        proof {
            lemma_digits_end(gtext, s);
        }
        let mut value: u32 = 0;
        let mut any: bool = false;
        loop
            invariant
                self.wf(),
                gtext == old(self)@.text,
                s == skip_ws(gtext, old(self)@.pos),
                s < gtext.len(),
                self@.text == gtext,
                s <= self@.pos <= gtext.len(),
                forall|k: int| s <= k < self@.pos ==> is_digit(#[trigger] gtext[k]),
                digits_end(gtext, s) == digits_end(gtext, self@.pos),
                value == dec_value(gtext, s, self@.pos),
                value <= 65535,
                any <==> self@.pos > s,
            ensures
                self.wf(),
                self@.text == gtext,
                self@.pos == digits_end(gtext, s),
                forall|k: int| s <= k < self@.pos ==> is_digit(#[trigger] gtext[k]),
                value == dec_value(gtext, s, self@.pos),
                value <= 65535,
                any <==> self@.pos > s,
            decreases gtext.len() - self@.pos,
        {
            if self.pos >= self.text.len() {
                break ;
            }
            let b = *vstd::slice::slice_index_get(self.text, self.pos);
            if b < 48 || b > 57 {
                break ;
            }
            self.pos = self.pos + 1;
            value = value * 10 + ((b - 48) as u32);
            any = true;
            if value > 65535 {
                proof {
                    lemma_digits_end(gtext, self@.pos);
                    lemma_dec_value_prefix(gtext, s, self@.pos, digits_end(gtext, s));
                }
                return Err(SyntaxError::NumberTooLarge);
            }
        }
        if !any {
            return Err(SyntaxError::IllegalCharacter);
        }
        Ok(value as u16)
    }

    /// Skips white space and scans one token of hexadecimal digit
    /// pairs, returning the bytes they spell.
    pub fn scan_hex_word(&mut self) -> (r: ScanResult<Vec<u8>>)
        requires
            old(self).wf(),
        ensures
            final(self).wf(),
            final(self)@.text == old(self)@.text,
            ({
                let text = old(self)@.text;
                let s = skip_ws(text, old(self)@.pos);
                let e = token_end(text, s);
                &&& (r is Ok <==> s < text.len() && hex_word_ok(text, s, e))
                &&& r matches Ok(w) ==> w@ == hex_word_bytes(text, s, e) && final(self)@.pos == e
                &&& r matches Err(err) ==> err == (if s >= text.len() {
                    SyntaxError::UnexpectedEnd
                } else {
                    SyntaxError::IllegalCharacter
                })
            }),
    {
        let ghost gtext = self.text@;
        self.skip_whitespace();
        if self.pos >= self.text.len() {
            return Err(SyntaxError::UnexpectedEnd);
        }
        let ghost s = self.pos as int;
        proof {
            lemma_skip_ws(gtext, old(self)@.pos);
            lemma_token_end(gtext, s);
        }
        let start = self.pos;
        let mut good: bool = true;
        loop
            invariant
                self.wf(),
                self@.text == gtext,
                s <= self@.pos <= gtext.len(),
                token_end(gtext, s) == token_end(gtext, self@.pos),
                good <==> (forall|k: int| s <= k < self@.pos ==> is_hex_digit(#[trigger] gtext[k])),
            ensures
                self.wf(),
                self@.text == gtext,
                self@.pos == token_end(gtext, s),
                good <==> (forall|k: int| s <= k < self@.pos ==> is_hex_digit(#[trigger] gtext[k])),
            decreases gtext.len() - self@.pos,
        {
            if self.pos >= self.text.len() {
                break ;
            }
            let b = *vstd::slice::slice_index_get(self.text, self.pos);
            if b == 32 || b == 9 {
                break ;
            }
            if !((48 <= b && b <= 57) || (97 <= b && b <= 102) || (65 <= b && b <= 70)) {
                good = false;
            }
            self.pos = self.pos + 1;
        }
        proof {
            lemma_token_end(gtext, s + 1);
            assert(token_end(gtext, s) == token_end(gtext, s + 1));
            assert(token_end(gtext, s) >= s + 1);
        }
        let ghost e = self.pos as int;
        if !good || (self.pos - start) % 2 != 0 {
            return Err(SyntaxError::IllegalCharacter);
        }
        let mut out: Vec<u8> = Vec::new();
        let mut i: usize = start;
        while i < self.pos
            invariant
                self@.text == gtext,
                self@.pos == e,
                s <= i <= e <= gtext.len(),
                (e - i) % 2 == 0,
                forall|k: int| s <= k < e ==> is_hex_digit(#[trigger] gtext[k]),
                hex_word_bytes(gtext, s, e) == out@ + hex_word_bytes(gtext, i as int, e),
            decreases e - i,
        {
            let hi = *vstd::slice::slice_index_get(self.text, i);
            let lo = *vstd::slice::slice_index_get(self.text, i + 1);
            let hv: u8 = if hi <= 57 {
                hi - 48
            } else if hi >= 97 {
                hi - 87
            } else {
                hi - 55
            };
            let lv: u8 = if lo <= 57 {
                lo - 48
            } else if lo >= 97 {
                lo - 87
            } else {
                lo - 55
            };
            let ghost out_before = out@;
            out.push(hv * 16 + lv);
            proof {
                assert(out@ + hex_word_bytes(gtext, i + 2, e) =~= out_before + (seq![
                    (hex_digit_value(gtext[i as int]) * 16 + hex_digit_value(
                        gtext[i + 1],
                    )) as u8,
                ] + hex_word_bytes(gtext, i + 2, e)));
            }
            i = i + 2;
        }
        proof {
            assert(out@ + hex_word_bytes(gtext, e, e) =~= out@);
        }
        Ok(out)
    }
}

} // verus!
