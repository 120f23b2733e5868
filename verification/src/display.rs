//! Presentation formatting of record data.
//!
//! Record data is formatted into plain ASCII text: numbers as
//! decimal, domain names as labels each followed by a dot, and raw
//! bytes with everything unprintable escaped as a backslash and three
//! decimal digits.  The text of a value depends on the value alone.

use vstd::prelude::*;
use crate::name::{is_name, Name};

verus! {

/// ASCII sequences stay ASCII under concatenation.
pub proof fn lemma_ascii_concat(a: Seq<u8>, b: Seq<u8>)
    requires
        forall|i: int| 0 <= i < a.len() ==> a[i] < 127,
        forall|i: int| 0 <= i < b.len() ==> b[i] < 127,
    ensures
        forall|i: int| 0 <= i < (a + b).len() ==> (a + b)[i] < 127,
{
}

/// The characters the ASCII bytes `s` spell, one per byte.
pub open spec fn ascii_chars(s: Seq<u8>) -> Seq<char> {
    Seq::new(s.len(), |i: int| s[i] as char)
}

/// The decimal digits of `n`, most significant first.
pub open spec fn dec_digits(n: nat) -> Seq<u8>
    decreases n,
{
    if n < 10 {
        seq![(48 + n) as u8]
    } else {
        dec_digits(n / 10) + seq![(48 + n % 10) as u8]
    }
}

/// Decimal digits are ASCII digits.
pub proof fn lemma_dec_digits_ascii(n: nat)
    ensures
        forall|i: int|
            0 <= i < dec_digits(n).len() ==> 48 <= #[trigger] dec_digits(n)[i] <= 57,
    decreases n,
{
    if n >= 10 {
        lemma_dec_digits_ascii(n / 10);
        let head = dec_digits(n / 10);
        let full = dec_digits(n);
        assert(full == head + seq![(48 + n % 10) as u8]);
        assert forall|i: int| 0 <= i < full.len() implies 48 <= #[trigger] full[i] <= 57 by {
            if i < head.len() {
                assert(full[i] == head[i]);
            } else {
                assert(full[i] == (48 + n % 10) as u8);
            }
        }
    }
}

/// Appends the decimal digits of `v`.
pub fn push_dec(out: &mut Vec<u8>, v: u32)
    ensures
        final(out)@ == old(out)@ + dec_digits(v as nat),
    decreases v,
{
    if v >= 10 {
        push_dec(out, v / 10);
        out.push(48 + ((v % 10) as u8));
        proof {
            assert(out@ =~= old(out)@ + dec_digits(v as nat));
        }
    } else {
        out.push(48 + (v as u8));
        proof {
            assert(out@ =~= old(out)@ + dec_digits(v as nat));
        }
    }
}

/// The text of one byte of raw data: itself if printable and neither
/// a dot nor a backslash, else a backslash and three decimal digits.
pub open spec fn byte_text(b: u8) -> Seq<u8> {
    if 33 <= b <= 126 && b != 46 && b != 92 {
        seq![b]
    } else {
        seq![92u8, (48 + b / 100) as u8, (48 + (b / 10) % 10) as u8, (48 + b % 10) as u8]
    }
}

/// The text of a span of raw data bytes.
pub open spec fn bytes_text(s: Seq<u8>) -> Seq<u8>
    decreases s.len(),
{
    if s.len() == 0 {
        Seq::empty()
    } else {
        byte_text(s[0]) + bytes_text(s.skip(1))
    }
}

/// The text of raw data is ASCII.
pub proof fn lemma_bytes_text_ascii(s: Seq<u8>)
    ensures
        forall|i: int| 0 <= i < bytes_text(s).len() ==> #[trigger] bytes_text(s)[i] < 127,
    decreases s.len(),
{
    if s.len() > 0 {
        lemma_bytes_text_ascii(s.skip(1));
        let head = byte_text(s[0]);
        let tail = bytes_text(s.skip(1));
        assert(forall|i: int| 0 <= i < head.len() ==> #[trigger] head[i] < 127);
        lemma_ascii_concat(head, tail);
    }
}

/// Appends the text of a span of raw data bytes.
pub fn push_bytes_text(out: &mut Vec<u8>, data: &[u8])
    ensures
        final(out)@ == old(out)@ + bytes_text(data@),
{
    let ghost gdata = data@;
    let mut i: usize = 0;
    proof {
        assert(gdata.skip(0) =~= gdata);
        assert(out@ + bytes_text(gdata.skip(0)) =~= old(out)@ + bytes_text(gdata));
    }
    while i < data.len()
        invariant
            i <= gdata.len(),
            gdata == data@,
            out@ + bytes_text(gdata.skip(i as int)) == old(out)@ + bytes_text(gdata),
        decreases gdata.len() - i,
    {
        let b = *vstd::slice::slice_index_get(data, i);
        let ghost before = out@;
        if 33 <= b && b <= 126 && b != 46 && b != 92 {
            out.push(b);
        } else {
            out.push(92);
            out.push(48 + b / 100);
            out.push(48 + (b / 10) % 10);
            out.push(48 + b % 10);
        }
        proof {
            assert(out@ =~= before + byte_text(gdata[i as int]));
            assert(gdata.skip(i as int).skip(1) =~= gdata.skip(i + 1));
            assert(gdata.skip(i as int)[0] == gdata[i as int]);
            assert(before + (byte_text(gdata[i as int]) + bytes_text(gdata.skip(i + 1))) =~= (
            before + byte_text(gdata[i as int])) + bytes_text(gdata.skip(i + 1)));
        }
        i = i + 1;
    }
    proof {
        assert(bytes_text(gdata.skip(gdata.len() as int)) =~= Seq::<u8>::empty());
        assert(out@ + Seq::<u8>::empty() =~= out@);
    }
}

/// The text of an uncompressed domain name: each label's bytes,
/// escaped like raw data, followed by a dot.
pub open spec fn name_text(s: Seq<u8>) -> Seq<u8>
    decreases s.len(),
{
    if s.len() == 0 || s[0] == 0 || s[0] >= 64 {
        Seq::empty()
    } else if s[0] + 1 <= s.len() {
        bytes_text(s.subrange(1, s[0] + 1)) + seq![46u8] + name_text(s.skip(s[0] + 1))
    } else {
        Seq::empty()
    }
}

/// The text of a name is ASCII.
pub proof fn lemma_name_text_ascii(s: Seq<u8>)
    ensures
        forall|i: int| 0 <= i < name_text(s).len() ==> #[trigger] name_text(s)[i] < 127,
    decreases s.len(),
{
    if s.len() == 0 || s[0] == 0 || s[0] >= 64 {
    } else if s[0] + 1 <= s.len() {
        lemma_bytes_text_ascii(s.subrange(1, s[0] + 1));
        lemma_name_text_ascii(s.skip(s[0] + 1));
        lemma_ascii_concat(bytes_text(s.subrange(1, s[0] + 1)), seq![46u8]);
        lemma_ascii_concat(
            bytes_text(s.subrange(1, s[0] + 1)) + seq![46u8],
            name_text(s.skip(s[0] + 1)),
        );
    }
}

/// Appends the text of a domain name.
pub fn push_name_text(out: &mut Vec<u8>, name: &Name)
    requires
        name.wf(),
    ensures
        final(out)@ == old(out)@ + name_text(name@),
{
    let bytes = name.as_bytes();
    let total = bytes.len();
    let ghost gname = name@;
    let mut pos: usize = 0;
    proof {
        assert(gname.skip(0) =~= gname);
        assert(out@ + name_text(gname.skip(0)) =~= old(out)@ + name_text(gname));
    }
    loop
        invariant
            gname == name@,
            gname == bytes@,
            gname.len() == total,
            pos <= gname.len(),
            is_name(gname.skip(pos as int)),
            out@ + name_text(gname.skip(pos as int)) == old(out)@ + name_text(gname),
        decreases gname.len() - pos,
    {
        let b = *vstd::slice::slice_index_get(bytes, pos);
        proof {
            let rest = gname.skip(pos as int);
            assert(rest[0] == gname[pos as int]);
            assert(is_name(rest));
            if b != 0 {
                assert(b < 64 && rest[0] + 1 < rest.len());
            }
        }
        if b == 0 {
            proof {
                assert(name_text(gname.skip(pos as int)) =~= Seq::<u8>::empty());
                assert(out@ + Seq::<u8>::empty() =~= out@);
                assert(out@ == out@ + name_text(gname.skip(pos as int)));
                assert(out@ == old(out)@ + name_text(gname));
            }
            return ;
        }
        proof {
            assert(pos + 1 + (b as int) < gname.len());
        }
        let label = vstd::slice::slice_subrange(bytes, pos + 1, pos + 1 + (b as usize));
        let ghost before = out@;
        push_bytes_text(out, label);
        out.push(46);
        proof {
            let rest = gname.skip(pos as int);
            assert(label@ =~= rest.subrange(1, b + 1));
            assert(rest.skip(b + 1) =~= gname.skip(pos + 1 + b));
            assert(before + (bytes_text(rest.subrange(1, b + 1)) + seq![46u8] + name_text(
                rest.skip(b + 1),
            )) =~= ((before + bytes_text(rest.subrange(1, b + 1))).push(46u8)) + name_text(
                rest.skip(b + 1),
            ));
        }
        pos = pos + 1 + (b as usize);
    }
}

/// Relies on `String::from_utf8`: ASCII bytes are valid UTF-8 and
/// decode to themselves, one character per byte.
#[verifier::external_body]
pub fn ascii_string(v: Vec<u8>) -> (r: String)
    requires
        forall|i: int| 0 <= i < v@.len() ==> v@[i] < 127,
    ensures
        r@ == ascii_chars(v@),
{
    match String::from_utf8(v) {
        Ok(s) => s,
        Err(_) => String::new(),
    }
}

} // verus!
