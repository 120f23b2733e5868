//! Laws the record data types obey.
//!
//! Each law here relates the contracts of several functions: what
//! composing writes, what parsing reads back, and what equality of
//! generic record data means.  They are stated over the same spec
//! functions the functions' own contracts use.

use vstd::prelude::*;
use crate::bytes::{be16, be32, be32_bytes, lemma_be16_round_trip, lemma_be32_round_trip};
use crate::name::{lemma_name_value_uncompressed, name_at, name_end};
use crate::rdata::{generic_rdata_eq, GenericRecordData, RecordData};
use crate::rfc1035::{is_single_name_type, minfo_value, mx_value, soa_value, Minfo, Mx, SingleName, Soa, A};
use crate::rtype::admits_compressed_names;

verus! {

/// Composing a well-formed single-name record data value and placing
/// the bytes as a record's data region re-parses to the same value:
/// the name read back is the value's own uncompressed name, and the
/// read ends exactly at the region's end, leaving nothing over.
pub proof fn lemma_single_name_round_trip(v: SingleName, msg: Seq<u8>, s: int, e: int)
    requires
        v.wf(),
        0 <= s <= e <= msg.len(),
        msg.subrange(s, e) == v.wire(),
    ensures
        name_at(msg, s, e) == Some(v.spec_name()@),
        name_end(msg, s, e) == Some(e),
{
    lemma_name_value_uncompressed(msg, s, e, msg.len() as nat, v.spec_name()@);
}

/// Composing a well-formed MX record data value and placing the
/// bytes as a record's data region re-parses to the same preference
/// and the same exchange name, and the read ends at the region's
/// end.
pub proof fn lemma_mx_round_trip(v: Mx, msg: Seq<u8>, s: int, e: int)
    requires
        v.wf(),
        0 <= s <= e <= msg.len(),
        msg.subrange(s, e) == v.wire(),
    ensures
        mx_value(msg, s, e) == Some((v.spec_preference(), v.spec_exchange()@)),
        name_end(msg, s + 2, e) == Some(e),
{
    let x = v.spec_exchange()@;
    let p = v.spec_preference();
    let w = v.wire();
    assert(msg.subrange(s, e).len() == w.len());
    assert forall|i: int| 0 <= i < w.len() implies msg[s + i] == #[trigger] w[i] by {
        assert(w[i] == msg.subrange(s, e)[i]);
    }
    lemma_be16_round_trip(p, 0, 0);
    assert(msg[s] == v.wire()[0] && msg[s + 1] == v.wire()[1]);
    assert(be16(msg[s], msg[s + 1]) == p);
    assert forall|j: int| 0 <= j < x.len() implies msg.subrange(s + 2, s + 2 + x.len())[j]
        == x[j] by {
        assert(msg[s + 2 + j] == w[2 + j]);
        assert(w[2 + j] == x[j]);
    }
    assert(msg.subrange(s + 2, s + 2 + x.len()) =~= x);
    lemma_name_value_uncompressed(msg, s + 2, e, msg.len() as nat, x);
}

/// Composing a well-formed MINFO record data value and placing the
/// bytes as a record's data region re-parses to the same two mailbox
/// names, and the second read ends at the region's end.
pub proof fn lemma_minfo_round_trip(v: Minfo, msg: Seq<u8>, s: int, e: int)
    requires
        v.wf(),
        0 <= s <= e <= msg.len(),
        msg.subrange(s, e) == v.wire(),
    ensures
        minfo_value(msg, s, e) == Some((v.spec_rmailbx()@, v.spec_emailbx()@)),
        name_end(msg, s + v.spec_rmailbx()@.len(), e) == Some(e),
{
    let rm = v.spec_rmailbx()@;
    let em = v.spec_emailbx()@;
    let w = v.wire();
    assert(msg.subrange(s, e).len() == w.len());
    assert forall|i: int| 0 <= i < w.len() implies msg[s + i] == #[trigger] w[i] by {
        assert(w[i] == msg.subrange(s, e)[i]);
    }
    assert forall|j: int| 0 <= j < rm.len() implies msg.subrange(s, s + rm.len())[j] == rm[j] by {
        assert(msg[s + j] == w[j]);
        assert(w[j] == rm[j]);
    }
    assert(msg.subrange(s, s + rm.len()) =~= rm);
    lemma_name_value_uncompressed(msg, s, e, msg.len() as nat, rm);
    assert forall|j: int| 0 <= j < em.len() implies msg.subrange(
        s + rm.len(),
        s + rm.len() + em.len(),
    )[j] == em[j] by {
        assert(msg[s + (rm.len() + j)] == w[rm.len() + j]);
        assert(w[rm.len() + j] == em[j]);
    }
    assert(msg.subrange(s + rm.len(), s + rm.len() + em.len()) =~= em);
    lemma_name_value_uncompressed(msg, s + rm.len(), e, msg.len() as nat, em);
}

/// Composing a well-formed SOA record data value and placing the
/// bytes as a record's data region re-parses to the same two names
/// and the same five 32-bit fields.
#[verifier::rlimit(80)]
pub proof fn lemma_soa_round_trip(v: Soa, msg: Seq<u8>, s: int, e: int)
    requires
        v.wf(),
        0 <= s <= e <= msg.len(),
        msg.subrange(s, e) == v.wire(),
    ensures
        soa_value(msg, s, e) == Some(
            (
                v.spec_mname()@,
                v.spec_rname()@,
                v.spec_serial(),
                v.spec_refresh(),
                v.spec_retry(),
                v.spec_expire(),
                v.spec_minimum(),
            ),
        ),
{
    let mn = v.spec_mname()@;
    let rn = v.spec_rname()@;
    let e1 = s + mn.len();
    let e2 = e1 + rn.len();
    let w = v.wire();
    assert(msg.subrange(s, e).len() == w.len());
    assert forall|i: int| 0 <= i < w.len() implies msg[s + i] == #[trigger] w[i] by {
        assert(w[i] == msg.subrange(s, e)[i]);
    }
    assert forall|j: int| 0 <= j < mn.len() implies msg.subrange(s, e1)[j] == mn[j] by {
        assert(msg[s + j] == w[j]);
        assert(w[j] == mn[j]);
    }
    assert(msg.subrange(s, e1) =~= mn);
    lemma_name_value_uncompressed(msg, s, e, msg.len() as nat, mn);
    assert forall|j: int| 0 <= j < rn.len() implies msg.subrange(e1, e2)[j] == rn[j] by {
        assert(msg[s + (mn.len() + j)] == w[mn.len() + j]);
        assert(w[mn.len() + j] == rn[j]);
    }
    assert(msg.subrange(e1, e2) =~= rn);
    lemma_name_value_uncompressed(msg, e1, e, msg.len() as nat, rn);
    assert(e - e2 == 20);
    lemma_be32_round_trip(v.spec_serial(), 0, 0, 0, 0);
    lemma_be32_round_trip(v.spec_refresh(), 0, 0, 0, 0);
    lemma_be32_round_trip(v.spec_retry(), 0, 0, 0, 0);
    lemma_be32_round_trip(v.spec_expire(), 0, 0, 0, 0);
    lemma_be32_round_trip(v.spec_minimum(), 0, 0, 0, 0);
    assert(be32(msg[e2 + 0], msg[e2 + 1], msg[e2 + 2], msg[e2 + 3]) == v.spec_serial()) by {
        assert(msg[e2 + 0] == w[mn.len() + rn.len() as int + 0]);
        assert(w[mn.len() + rn.len() as int + 0] == be32_bytes(v.spec_serial())[0]);
        assert(msg[e2 + 1] == w[mn.len() + rn.len() as int + 1]);
        assert(w[mn.len() + rn.len() as int + 1] == be32_bytes(v.spec_serial())[1]);
        assert(msg[e2 + 2] == w[mn.len() + rn.len() as int + 2]);
        assert(w[mn.len() + rn.len() as int + 2] == be32_bytes(v.spec_serial())[2]);
        assert(msg[e2 + 3] == w[mn.len() + rn.len() as int + 3]);
        assert(w[mn.len() + rn.len() as int + 3] == be32_bytes(v.spec_serial())[3]);
    }
    assert(be32(msg[e2 + 4], msg[e2 + 5], msg[e2 + 6], msg[e2 + 7]) == v.spec_refresh()) by {
        assert(msg[e2 + 4] == w[mn.len() + rn.len() as int + 4]);
        assert(w[mn.len() + rn.len() as int + 4] == be32_bytes(v.spec_refresh())[0]);
        assert(msg[e2 + 5] == w[mn.len() + rn.len() as int + 5]);
        assert(w[mn.len() + rn.len() as int + 5] == be32_bytes(v.spec_refresh())[1]);
        assert(msg[e2 + 6] == w[mn.len() + rn.len() as int + 6]);
        assert(w[mn.len() + rn.len() as int + 6] == be32_bytes(v.spec_refresh())[2]);
        assert(msg[e2 + 7] == w[mn.len() + rn.len() as int + 7]);
        assert(w[mn.len() + rn.len() as int + 7] == be32_bytes(v.spec_refresh())[3]);
    }
    assert(be32(msg[e2 + 8], msg[e2 + 9], msg[e2 + 10], msg[e2 + 11]) == v.spec_retry()) by {
        assert(msg[e2 + 8] == w[mn.len() + rn.len() as int + 8]);
        assert(w[mn.len() + rn.len() as int + 8] == be32_bytes(v.spec_retry())[0]);
        assert(msg[e2 + 9] == w[mn.len() + rn.len() as int + 9]);
        assert(w[mn.len() + rn.len() as int + 9] == be32_bytes(v.spec_retry())[1]);
        assert(msg[e2 + 10] == w[mn.len() + rn.len() as int + 10]);
        assert(w[mn.len() + rn.len() as int + 10] == be32_bytes(v.spec_retry())[2]);
        assert(msg[e2 + 11] == w[mn.len() + rn.len() as int + 11]);
        assert(w[mn.len() + rn.len() as int + 11] == be32_bytes(v.spec_retry())[3]);
    }
    assert(be32(msg[e2 + 12], msg[e2 + 13], msg[e2 + 14], msg[e2 + 15]) == v.spec_expire()) by {
        assert(msg[e2 + 12] == w[mn.len() + rn.len() as int + 12]);
        assert(w[mn.len() + rn.len() as int + 12] == be32_bytes(v.spec_expire())[0]);
        assert(msg[e2 + 13] == w[mn.len() + rn.len() as int + 13]);
        assert(w[mn.len() + rn.len() as int + 13] == be32_bytes(v.spec_expire())[1]);
        assert(msg[e2 + 14] == w[mn.len() + rn.len() as int + 14]);
        assert(w[mn.len() + rn.len() as int + 14] == be32_bytes(v.spec_expire())[2]);
        assert(msg[e2 + 15] == w[mn.len() + rn.len() as int + 15]);
        assert(w[mn.len() + rn.len() as int + 15] == be32_bytes(v.spec_expire())[3]);
    }
    assert(be32(msg[e2 + 16], msg[e2 + 17], msg[e2 + 18], msg[e2 + 19]) == v.spec_minimum()) by {
        assert(msg[e2 + 16] == w[mn.len() + rn.len() as int + 16]);
        assert(w[mn.len() + rn.len() as int + 16] == be32_bytes(v.spec_minimum())[0]);
        assert(msg[e2 + 17] == w[mn.len() + rn.len() as int + 17]);
        assert(w[mn.len() + rn.len() as int + 17] == be32_bytes(v.spec_minimum())[1]);
        assert(msg[e2 + 18] == w[mn.len() + rn.len() as int + 18]);
        assert(w[mn.len() + rn.len() as int + 18] == be32_bytes(v.spec_minimum())[2]);
        assert(msg[e2 + 19] == w[mn.len() + rn.len() as int + 19]);
        assert(w[mn.len() + rn.len() as int + 19] == be32_bytes(v.spec_minimum())[3]);
    }
}

/// Composing an A record data value and placing the bytes as a
/// record's data region re-parses to the same address, read out of
/// exactly four bytes.
pub proof fn lemma_a_round_trip(v: A, msg: Seq<u8>, s: int, e: int)
    requires
        0 <= s <= e <= msg.len(),
        msg.subrange(s, e) == v.wire(),
    ensures
        e - s == 4,
        be32(msg[s], msg[s + 1], msg[s + 2], msg[s + 3]) == v.spec_addr(),
{
    let w = v.wire();
    assert(msg.subrange(s, e).len() == w.len());
    assert forall|i: int| 0 <= i < w.len() implies msg[s + i] == #[trigger] w[i] by {
        assert(w[i] == msg.subrange(s, e)[i]);
    }
    lemma_be32_round_trip(v.spec_addr(), 0, 0, 0, 0);
    assert(msg[s] == w[0] && msg[s + 1] == w[1] && msg[s + 2] == w[2] && msg[s + 3] == w[3]);
}

/// Two generic record data values of a single-name type whose data
/// regions both decompress compare equal exactly when they
/// decompress to the same domain name — never by their raw bytes,
/// which may differ between equal values.
pub proof fn lemma_eq_by_decompression<'a>(a: GenericRecordData<'a>, b: GenericRecordData<'a>)
    requires
        a.spec_rtype() == b.spec_rtype(),
        is_single_name_type(a.spec_rtype()),
        name_at(a.spec_data()@.msg, a.spec_data()@.start, a.spec_data()@.end) is Some,
        name_at(b.spec_data()@.msg, b.spec_data()@.start, b.spec_data()@.end) is Some,
    ensures
        generic_rdata_eq(a, b) <==> name_at(
            a.spec_data()@.msg,
            a.spec_data()@.start,
            a.spec_data()@.end,
        ) == name_at(b.spec_data()@.msg, b.spec_data()@.start, b.spec_data()@.end),
{
}

/// Two generic record data values of a type that admits no
/// compressed names, with the same type tag and the same raw data
/// bytes, compare equal.
pub proof fn lemma_eq_by_raw_bytes<'a>(a: GenericRecordData<'a>, b: GenericRecordData<'a>)
    requires
        a.spec_rtype() == b.spec_rtype(),
        !admits_compressed_names(a.spec_rtype()),
        a.spec_data().bytes() == b.spec_data().bytes(),
    ensures
        generic_rdata_eq(a, b),
{
}

} // verus!
