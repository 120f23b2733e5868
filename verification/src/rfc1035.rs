//! Concrete record data of the base DNS specification.
//!
//! These are the record types whose data this crate can re-parse out
//! of a [`GenericRecordData`](crate::rdata::GenericRecordData): the
//! name-bearing types of the base specification, whose wire form may
//! embed compressed domain names, and a few plain ones used for
//! display.  Their field layouts are deliberately small; the many
//! remaining record types stay generic.

use vstd::prelude::*;
use crate::bytes::{be16, be16_bytes, be32, be32_bytes, BytesBuf};
use crate::error::{ComposeResult, ParseError, ParseResult};
use crate::name::{name_at, name_end, name_err_at, Name};
use crate::parse::Parser;
use crate::rdata::RecordData;
use crate::rtype::RRType;

verus! {

/// The record data value of an MX record read out of the region
/// `[s, e)` of `m`: the 16-bit preference and the decompressed
/// exchange name, or `None` when the region holds no such value.
pub open spec fn mx_value(m: Seq<u8>, s: int, e: int) -> Option<(u16, Seq<u8>)> {
    if e - s >= 2 {
        match name_at(m, s + 2, e) {
            Some(n) => Some((be16(m[s], m[s + 1]), n)),
            None => None,
        }
    } else {
        None
    }
}

/// The error reading an MX record out of `[s, e)` of `m` reports when
/// [`mx_value`] is `None`; without meaning otherwise.
pub open spec fn mx_error(m: Seq<u8>, s: int, e: int) -> ParseError {
    if e - s >= 2 {
        name_err_at(m, s + 2, e)
    } else {
        ParseError::UnexpectedEnd
    }
}

/// The record data value of a MINFO record read out of `[s, e)` of
/// `m`: the two decompressed mailbox names.
pub open spec fn minfo_value(m: Seq<u8>, s: int, e: int) -> Option<(Seq<u8>, Seq<u8>)> {
    match name_at(m, s, e) {
        Some(rm) => match name_at(m, name_end(m, s, e).unwrap(), e) {
            Some(re) => Some((rm, re)),
            None => None,
        },
        None => None,
    }
}

/// The error reading a MINFO record out of `[s, e)` of `m` reports
/// when [`minfo_value`] is `None`; without meaning otherwise.
pub open spec fn minfo_error(m: Seq<u8>, s: int, e: int) -> ParseError {
    if name_at(m, s, e) is None {
        name_err_at(m, s, e)
    } else {
        name_err_at(m, name_end(m, s, e).unwrap(), e)
    }
}

/// The record data value of a SOA record read out of `[s, e)` of `m`:
/// the two decompressed names and the five 32-bit fields.
pub open spec fn soa_value(m: Seq<u8>, s: int, e: int) -> Option<
    (Seq<u8>, Seq<u8>, u32, u32, u32, u32, u32),
> {
    match name_at(m, s, e) {
        Some(mn) => {
            let e1 = name_end(m, s, e).unwrap();
            match name_at(m, e1, e) {
                Some(rn) => {
                    let e2 = name_end(m, e1, e).unwrap();
                    if e - e2 >= 20 {
                        Some(
                            (
                                mn,
                                rn,
                                be32(m[e2], m[e2 + 1], m[e2 + 2], m[e2 + 3]),
                                be32(m[e2 + 4], m[e2 + 5], m[e2 + 6], m[e2 + 7]),
                                be32(m[e2 + 8], m[e2 + 9], m[e2 + 10], m[e2 + 11]),
                                be32(m[e2 + 12], m[e2 + 13], m[e2 + 14], m[e2 + 15]),
                                be32(m[e2 + 16], m[e2 + 17], m[e2 + 18], m[e2 + 19]),
                            ),
                        )
                    } else {
                        None
                    }
                },
                None => None,
            }
        },
        None => None,
    }
}

/// The error reading a SOA record out of `[s, e)` of `m` reports when
/// [`soa_value`] is `None`; without meaning otherwise.
pub open spec fn soa_error(m: Seq<u8>, s: int, e: int) -> ParseError {
    if name_at(m, s, e) is None {
        name_err_at(m, s, e)
    } else if name_at(m, name_end(m, s, e).unwrap(), e) is None {
        name_err_at(m, name_end(m, s, e).unwrap(), e)
    } else {
        ParseError::UnexpectedEnd
    }
}

/// The record types whose data is exactly one domain name.
pub open spec fn is_single_name_type(t: RRType) -> bool {
    ||| t == RRType::Cname
    ||| t == RRType::Mb
    ||| t == RRType::Md
    ||| t == RRType::Mf
    ||| t == RRType::Mg
    ||| t == RRType::Mr
    ||| t == RRType::Ns
    ||| t == RRType::Ptr
}

/// Decides [`is_single_name_type`].
pub fn single_name_type(t: RRType) -> (r: bool)
    ensures
        r == is_single_name_type(t),
{
    match t {
        RRType::Cname => true,
        RRType::Mb => true,
        RRType::Md => true,
        RRType::Mf => true,
        RRType::Mg => true,
        RRType::Mr => true,
        RRType::Ns => true,
        RRType::Ptr => true,
        _ => false,
    }
}

/// Whether re-parsing the regions `[xs, xe)` and `[ys, ye)` as one
/// domain name each gives equal outcomes: equal decompressed names,
/// or the same parse error.
pub open spec fn reparse_name_eq(
    xm: Seq<u8>,
    xs: int,
    xe: int,
    ym: Seq<u8>,
    ys: int,
    ye: int,
) -> bool {
    match (name_at(xm, xs, xe), name_at(ym, ys, ye)) {
        (Some(m), Some(n)) => m == n,
        (None, None) => name_err_at(xm, xs, xe) == name_err_at(ym, ys, ye),
        _ => false,
    }
}

/// Whether re-parsing the regions `[xs, xe)` and `[ys, ye)` as MX
/// record data gives equal outcomes.
pub open spec fn reparse_mx_eq(xm: Seq<u8>, xs: int, xe: int, ym: Seq<u8>, ys: int, ye: int) -> bool {
    match (mx_value(xm, xs, xe), mx_value(ym, ys, ye)) {
        (Some(x), Some(y)) => x == y,
        (None, None) => mx_error(xm, xs, xe) == mx_error(ym, ys, ye),
        _ => false,
    }
}

/// Whether re-parsing the regions `[xs, xe)` and `[ys, ye)` as MINFO
/// record data gives equal outcomes.
pub open spec fn reparse_minfo_eq(
    xm: Seq<u8>,
    xs: int,
    xe: int,
    ym: Seq<u8>,
    ys: int,
    ye: int,
) -> bool {
    match (minfo_value(xm, xs, xe), minfo_value(ym, ys, ye)) {
        (Some(x), Some(y)) => x == y,
        (None, None) => minfo_error(xm, xs, xe) == minfo_error(ym, ys, ye),
        _ => false,
    }
}

/// Whether re-parsing the regions `[xs, xe)` and `[ys, ye)` as SOA
/// record data gives equal outcomes.
pub open spec fn reparse_soa_eq(
    xm: Seq<u8>,
    xs: int,
    xe: int,
    ym: Seq<u8>,
    ys: int,
    ye: int,
) -> bool {
    match (soa_value(xm, xs, xe), soa_value(ym, ys, ye)) {
        (Some(x), Some(y)) => x == y,
        (None, None) => soa_error(xm, xs, xe) == soa_error(ym, ys, ye),
        _ => false,
    }
}

/// Record data of the base-specification types that consist of a
/// single domain name: CNAME, MB, MD, MF, MG, MR, NS and PTR.
#[derive(Clone, Debug)]
pub struct SingleName {
    rtype: RRType,
    name: Name,
}

impl SingleName {
    /// The type tag this value was created with.
    pub closed spec fn spec_rtype(&self) -> RRType {
        self.rtype
    }

    /// The domain name the record data consists of.
    pub closed spec fn spec_name(&self) -> Name {
        self.name
    }

    /// Creates a value from a type tag of this family and a name.
    pub fn new(rtype: RRType, name: Name) -> (r: Self)
        requires
            is_single_name_type(rtype),
            name.wf(),
        ensures
            r.wf(),
            r.spec_rtype() == rtype,
            r.spec_name() == name,
    {
        SingleName { rtype, name }
    }

    /// Returns the domain name the record data consists of.
    pub fn name(&self) -> (r: &Name)
        ensures
            *r == self.spec_name(),
    {
        &self.name
    }
}

impl<'a> RecordData<'a> for SingleName {
    open spec fn wf(&self) -> bool {
        self.spec_name().wf() && is_single_name_type(self.spec_rtype())
    }

    open spec fn rtype_spec(&self) -> RRType {
        self.spec_rtype()
    }

    /// Composing writes the name uncompressed.
    open spec fn wire(&self) -> Seq<u8> {
        self.spec_name()@
    }

    fn rtype(&self) -> (t: RRType) {
        self.rtype
    }

    fn compose<B: BytesBuf>(&self, target: &mut B) -> (r: ComposeResult<()>)
        ensures
            r is Ok,
    {
        self.name.compose(target)
    }

    fn parse(rtype: RRType, parser: &mut Parser<'a>) -> (r: Option<ParseResult<Self>>)
        ensures
            r is None <==> !is_single_name_type(rtype),
            r matches Some(Ok(v)) ==> v.spec_rtype() == rtype && name_at(
                old(parser)@.msg,
                old(parser)@.pos,
                old(parser)@.limit,
            ) == Some(v.spec_name()@) && name_end(
                old(parser)@.msg,
                old(parser)@.pos,
                old(parser)@.limit,
            ) == Some(final(parser)@.pos),
            r matches Some(Err(e)) ==> name_at(
                old(parser)@.msg,
                old(parser)@.pos,
                old(parser)@.limit,
            ) is None && e == name_err_at(old(parser)@.msg, old(parser)@.pos, old(parser)@.limit)
                && final(parser)@ == old(parser)@,
    {
        if !single_name_type(rtype) {
            return None;
        }
        match Name::parse(parser) {
            Ok(name) => Some(Ok(SingleName { rtype, name })),
            Err(e) => Some(Err(e)),
        }
    }
}

impl PartialEq for SingleName {
    /// Two values are equal when their tags and their uncompressed
    /// names are.
    fn eq(&self, other: &Self) -> (r: bool) {
        self.rtype == other.rtype && self.name == other.name
    }
}

impl vstd::std_specs::cmp::PartialEqSpecImpl for SingleName {
    open spec fn obeys_eq_spec() -> bool {
        true
    }

    open spec fn eq_spec(&self, other: &Self) -> bool {
        self.spec_rtype() == other.spec_rtype() && self.spec_name()@ == other.spec_name()@
    }
}

/// MX record data: a preference value and the exchange's name.
#[derive(Clone, Debug)]
pub struct Mx {
    preference: u16,
    exchange: Name,
}

impl Mx {
    /// The preference value.
    pub closed spec fn spec_preference(&self) -> u16 {
        self.preference
    }

    /// The exchange's domain name.
    pub closed spec fn spec_exchange(&self) -> Name {
        self.exchange
    }

    /// Creates a value from its fields.
    pub fn new(preference: u16, exchange: Name) -> (r: Self)
        requires
            exchange.wf(),
        ensures
            r.wf(),
            r.spec_preference() == preference,
            r.spec_exchange() == exchange,
    {
        Mx { preference, exchange }
    }

    /// Returns the preference value.
    pub fn preference(&self) -> (r: u16)
        ensures
            r == self.spec_preference(),
    {
        self.preference
    }

    /// Returns the exchange's domain name.
    pub fn exchange(&self) -> (r: &Name)
        ensures
            *r == self.spec_exchange(),
    {
        &self.exchange
    }
}

impl<'a> RecordData<'a> for Mx {
    open spec fn wf(&self) -> bool {
        self.spec_exchange().wf()
    }

    open spec fn rtype_spec(&self) -> RRType {
        RRType::Mx
    }

    /// Composing writes the preference big-endian and the name
    /// uncompressed.
    open spec fn wire(&self) -> Seq<u8> {
        be16_bytes(self.spec_preference()) + self.spec_exchange()@
    }

    fn rtype(&self) -> (t: RRType) {
        RRType::Mx
    }

    fn compose<B: BytesBuf>(&self, target: &mut B) -> (r: ComposeResult<()>)
        ensures
            r is Ok,
    {
        target.push_u16(self.preference);
        self.exchange.compose(target)
    }

    fn parse(rtype: RRType, parser: &mut Parser<'a>) -> (r: Option<ParseResult<Self>>)
        ensures
            r is None <==> rtype != RRType::Mx,
            r matches Some(Ok(v)) ==> mx_value(
                old(parser)@.msg,
                old(parser)@.pos,
                old(parser)@.limit,
            ) == Some((v.spec_preference(), v.spec_exchange()@)),
            r matches Some(Err(e)) ==> mx_value(
                old(parser)@.msg,
                old(parser)@.pos,
                old(parser)@.limit,
            ) is None && e == mx_error(old(parser)@.msg, old(parser)@.pos, old(parser)@.limit),
            r matches Some(Ok(_)) ==> name_end(
                old(parser)@.msg,
                old(parser)@.pos + 2,
                old(parser)@.limit,
            ) == Some(final(parser)@.pos),
    {
        if !matches!(rtype, RRType::Mx) {
            return None;
        }
        let preference = match parser.parse_u16() {
            Ok(v) => v,
            Err(e) => {
                return Some(Err(e));
            },
        };
        match Name::parse(parser) {
            Ok(exchange) => Some(Ok(Mx { preference, exchange })),
            Err(e) => Some(Err(e)),
        }
    }
}

impl PartialEq for Mx {
    /// Two values are equal when their preferences and their
    /// uncompressed exchange names are.
    fn eq(&self, other: &Self) -> (r: bool) {
        self.preference == other.preference && self.exchange == other.exchange
    }
}

impl vstd::std_specs::cmp::PartialEqSpecImpl for Mx {
    open spec fn obeys_eq_spec() -> bool {
        true
    }

    open spec fn eq_spec(&self, other: &Self) -> bool {
        self.spec_preference() == other.spec_preference() && self.spec_exchange()@
            == other.spec_exchange()@
    }
}

/// MINFO record data: the responsible and the error mailbox names.
#[derive(Clone, Debug)]
pub struct Minfo {
    rmailbx: Name,
    emailbx: Name,
}

impl Minfo {
    /// The responsible mailbox's domain name.
    pub closed spec fn spec_rmailbx(&self) -> Name {
        self.rmailbx
    }

    /// The error mailbox's domain name.
    pub closed spec fn spec_emailbx(&self) -> Name {
        self.emailbx
    }

    /// Creates a value from its fields.
    pub fn new(rmailbx: Name, emailbx: Name) -> (r: Self)
        requires
            rmailbx.wf(),
            emailbx.wf(),
        ensures
            r.wf(),
            r.spec_rmailbx() == rmailbx,
            r.spec_emailbx() == emailbx,
    {
        Minfo { rmailbx, emailbx }
    }

    /// Returns the responsible mailbox's domain name.
    pub fn rmailbx(&self) -> (r: &Name)
        ensures
            *r == self.spec_rmailbx(),
    {
        &self.rmailbx
    }

    /// Returns the error mailbox's domain name.
    pub fn emailbx(&self) -> (r: &Name)
        ensures
            *r == self.spec_emailbx(),
    {
        &self.emailbx
    }
}

impl<'a> RecordData<'a> for Minfo {
    open spec fn wf(&self) -> bool {
        self.spec_rmailbx().wf() && self.spec_emailbx().wf()
    }

    open spec fn rtype_spec(&self) -> RRType {
        RRType::Minfo
    }

    /// Composing writes both names uncompressed, in order.
    open spec fn wire(&self) -> Seq<u8> {
        self.spec_rmailbx()@ + self.spec_emailbx()@
    }

    fn rtype(&self) -> (t: RRType) {
        RRType::Minfo
    }

    fn compose<B: BytesBuf>(&self, target: &mut B) -> (r: ComposeResult<()>)
        ensures
            r is Ok,
    {
        let first = self.rmailbx.compose(target);
        match first {
            Ok(()) => self.emailbx.compose(target),
            Err(e) => Err(e),
        }
    }

    fn parse(rtype: RRType, parser: &mut Parser<'a>) -> (r: Option<ParseResult<Self>>)
        ensures
            r is None <==> rtype != RRType::Minfo,
            r matches Some(Ok(v)) ==> minfo_value(
                old(parser)@.msg,
                old(parser)@.pos,
                old(parser)@.limit,
            ) == Some((v.spec_rmailbx()@, v.spec_emailbx()@)),
            r matches Some(Err(e)) ==> minfo_value(
                old(parser)@.msg,
                old(parser)@.pos,
                old(parser)@.limit,
            ) is None && e == minfo_error(old(parser)@.msg, old(parser)@.pos, old(parser)@.limit),
    {
        if !matches!(rtype, RRType::Minfo) {
            return None;
        }
        let rmailbx = match Name::parse(parser) {
            Ok(n) => n,
            Err(e) => {
                return Some(Err(e));
            },
        };
        match Name::parse(parser) {
            Ok(emailbx) => Some(Ok(Minfo { rmailbx, emailbx })),
            Err(e) => Some(Err(e)),
        }
    }
}

impl PartialEq for Minfo {
    /// Two values are equal when both uncompressed names are.
    fn eq(&self, other: &Self) -> (r: bool) {
        self.rmailbx == other.rmailbx && self.emailbx == other.emailbx
    }
}

impl vstd::std_specs::cmp::PartialEqSpecImpl for Minfo {
    open spec fn obeys_eq_spec() -> bool {
        true
    }

    open spec fn eq_spec(&self, other: &Self) -> bool {
        self.spec_rmailbx()@ == other.spec_rmailbx()@ && self.spec_emailbx()@
            == other.spec_emailbx()@
    }
}

/// SOA record data: the primary name server, the responsible
/// mailbox, and the zone's five 32-bit timers and counters.
#[derive(Clone, Debug)]
pub struct Soa {
    mname: Name,
    rname: Name,
    serial: u32,
    refresh: u32,
    retry: u32,
    expire: u32,
    minimum: u32,
}

impl Soa {
    /// The primary name server's domain name.
    pub closed spec fn spec_mname(&self) -> Name {
        self.mname
    }

    /// The responsible mailbox's domain name.
    pub closed spec fn spec_rname(&self) -> Name {
        self.rname
    }

    /// The zone's serial number.
    pub closed spec fn spec_serial(&self) -> u32 {
        self.serial
    }

    /// The zone's refresh interval.
    pub closed spec fn spec_refresh(&self) -> u32 {
        self.refresh
    }

    /// The zone's retry interval.
    pub closed spec fn spec_retry(&self) -> u32 {
        self.retry
    }

    /// The zone's expire limit.
    pub closed spec fn spec_expire(&self) -> u32 {
        self.expire
    }

    /// The zone's minimum time to live.
    pub closed spec fn spec_minimum(&self) -> u32 {
        self.minimum
    }

    /// Creates a value from its fields.
    pub fn new(
        mname: Name,
        rname: Name,
        serial: u32,
        refresh: u32,
        retry: u32,
        expire: u32,
        minimum: u32,
    ) -> (r: Self)
        requires
            mname.wf(),
            rname.wf(),
        ensures
            r.wf(),
            r.spec_mname() == mname,
            r.spec_rname() == rname,
            r.spec_serial() == serial,
            r.spec_refresh() == refresh,
            r.spec_retry() == retry,
            r.spec_expire() == expire,
            r.spec_minimum() == minimum,
    {
        Soa { mname, rname, serial, refresh, retry, expire, minimum }
    }

    /// Returns the primary name server's domain name.
    pub fn mname(&self) -> (r: &Name)
        ensures
            *r == self.spec_mname(),
    {
        &self.mname
    }

    /// Returns the responsible mailbox's domain name.
    pub fn rname(&self) -> (r: &Name)
        ensures
            *r == self.spec_rname(),
    {
        &self.rname
    }

    /// Returns the zone's serial number.
    pub fn serial(&self) -> (r: u32)
        ensures
            r == self.spec_serial(),
    {
        self.serial
    }

    /// Returns the zone's refresh interval.
    pub fn refresh(&self) -> (r: u32)
        ensures
            r == self.spec_refresh(),
    {
        self.refresh
    }

    /// Returns the zone's retry interval.
    pub fn retry(&self) -> (r: u32)
        ensures
            r == self.spec_retry(),
    {
        self.retry
    }

    /// Returns the zone's expire limit.
    pub fn expire(&self) -> (r: u32)
        ensures
            r == self.spec_expire(),
    {
        self.expire
    }

    /// Returns the zone's minimum time to live.
    pub fn minimum(&self) -> (r: u32)
        ensures
            r == self.spec_minimum(),
    {
        self.minimum
    }
}

impl<'a> RecordData<'a> for Soa {
    open spec fn wf(&self) -> bool {
        self.spec_mname().wf() && self.spec_rname().wf()
    }

    open spec fn rtype_spec(&self) -> RRType {
        RRType::Soa
    }

    /// Composing writes both names uncompressed and the five 32-bit
    /// fields big-endian.
    open spec fn wire(&self) -> Seq<u8> {
        self.spec_mname()@ + self.spec_rname()@ + be32_bytes(self.spec_serial()) + be32_bytes(
            self.spec_refresh(),
        ) + be32_bytes(self.spec_retry()) + be32_bytes(self.spec_expire()) + be32_bytes(
            self.spec_minimum(),
        )
    }

    fn rtype(&self) -> (t: RRType) {
        RRType::Soa
    }

    fn compose<B: BytesBuf>(&self, target: &mut B) -> (r: ComposeResult<()>)
        ensures
            r is Ok,
    {
        let first = self.mname.compose(target);
        let second = match first {
            Ok(()) => self.rname.compose(target),
            Err(e) => Err(e),
        };
        match second {
            Ok(()) => {
                target.push_u32(self.serial);
                target.push_u32(self.refresh);
                target.push_u32(self.retry);
                target.push_u32(self.expire);
                target.push_u32(self.minimum);
                Ok(())
            },
            Err(e) => Err(e),
        }
    }

    fn parse(rtype: RRType, parser: &mut Parser<'a>) -> (r: Option<ParseResult<Self>>)
        ensures
            r is None <==> rtype != RRType::Soa,
            r matches Some(Ok(v)) ==> soa_value(
                old(parser)@.msg,
                old(parser)@.pos,
                old(parser)@.limit,
            ) == Some(
                (
                    v.spec_mname()@,
                    v.spec_rname()@,
                    v.spec_serial(),
                    v.spec_refresh(),
                    v.spec_retry(),
                    v.spec_expire(),
                    v.spec_minimum(),
                ),
            ),
            r matches Some(Err(e)) ==> soa_value(
                old(parser)@.msg,
                old(parser)@.pos,
                old(parser)@.limit,
            ) is None && e == soa_error(old(parser)@.msg, old(parser)@.pos, old(parser)@.limit),
    {
        if !matches!(rtype, RRType::Soa) {
            return None;
        }
        let mname = match Name::parse(parser) {
            Ok(n) => n,
            Err(e) => {
                return Some(Err(e));
            },
        };
        let rname = match Name::parse(parser) {
            Ok(n) => n,
            Err(e) => {
                return Some(Err(e));
            },
        };
        let serial = match parser.parse_u32() {
            Ok(v) => v,
            Err(e) => {
                return Some(Err(e));
            },
        };
        let refresh = match parser.parse_u32() {
            Ok(v) => v,
            Err(e) => {
                return Some(Err(e));
            },
        };
        let retry = match parser.parse_u32() {
            Ok(v) => v,
            Err(e) => {
                return Some(Err(e));
            },
        };
        let expire = match parser.parse_u32() {
            Ok(v) => v,
            Err(e) => {
                return Some(Err(e));
            },
        };
        let minimum = match parser.parse_u32() {
            Ok(v) => v,
            Err(e) => {
                return Some(Err(e));
            },
        };
        Some(Ok(Soa { mname, rname, serial, refresh, retry, expire, minimum }))
    }
}

impl PartialEq for Soa {
    /// Two values are equal when all fields are, with names compared
    /// by their uncompressed bytes.
    fn eq(&self, other: &Self) -> (r: bool) {
        self.mname == other.mname && self.rname == other.rname && self.serial == other.serial
            && self.refresh == other.refresh && self.retry == other.retry && self.expire
            == other.expire && self.minimum == other.minimum
    }
}

impl vstd::std_specs::cmp::PartialEqSpecImpl for Soa {
    open spec fn obeys_eq_spec() -> bool {
        true
    }

    open spec fn eq_spec(&self, other: &Self) -> bool {
        self.spec_mname()@ == other.spec_mname()@ && self.spec_rname()@ == other.spec_rname()@
            && self.spec_serial() == other.spec_serial() && self.spec_refresh()
            == other.spec_refresh() && self.spec_retry() == other.spec_retry()
            && self.spec_expire() == other.spec_expire() && self.spec_minimum()
            == other.spec_minimum()
    }
}

/// A record data: a 32-bit IPv4 host address.
#[derive(Clone, Copy, Debug, PartialEq, Eq, Structural)]
pub struct A {
    addr: u32,
}

impl A {
    /// The host address.
    pub closed spec fn spec_addr(&self) -> u32 {
        self.addr
    }

    /// Creates a value from a host address.
    pub fn new(addr: u32) -> (r: Self)
        ensures
            r.wf(),
            r.spec_addr() == addr,
    {
        A { addr }
    }

    /// Returns the host address.
    pub fn addr(&self) -> (r: u32)
        ensures
            r == self.spec_addr(),
    {
        self.addr
    }
}

impl<'a> RecordData<'a> for A {
    open spec fn wf(&self) -> bool {
        true
    }

    open spec fn rtype_spec(&self) -> RRType {
        RRType::A
    }

    /// Composing writes the address as four big-endian bytes.
    open spec fn wire(&self) -> Seq<u8> {
        be32_bytes(self.spec_addr())
    }

    fn rtype(&self) -> (t: RRType) {
        RRType::A
    }

    fn compose<B: BytesBuf>(&self, target: &mut B) -> (r: ComposeResult<()>)
        ensures
            r is Ok,
    {
        target.push_u32(self.addr);
        Ok(())
    }

    fn parse(rtype: RRType, parser: &mut Parser<'a>) -> (r: Option<ParseResult<Self>>)
        ensures
            r is None <==> rtype != RRType::A,
            r matches Some(Ok(v)) ==> old(parser).remaining().len() >= 4 && v.spec_addr() == be32(
                old(parser).remaining()[0],
                old(parser).remaining()[1],
                old(parser).remaining()[2],
                old(parser).remaining()[3],
            ) && final(parser)@.pos == old(parser)@.pos + 4,
            r matches Some(Err(e)) ==> old(parser).remaining().len() < 4 && e
                == ParseError::UnexpectedEnd,
    {
        if !matches!(rtype, RRType::A) {
            return None;
        }
        match parser.parse_u32() {
            Ok(addr) => Some(Ok(A { addr })),
            Err(e) => Some(Err(e)),
        }
    }
}

/// TXT record data: the raw bytes of the record's character strings,
/// kept as they appear on the wire.
#[derive(Clone, Debug, PartialEq, Eq)]
pub struct Txt {
    data: Vec<u8>,
}

impl Txt {
    /// The raw bytes of the record data.
    pub closed spec fn spec_data(&self) -> Seq<u8> {
        self.data@
    }

    /// Creates a value from raw record data bytes.
    pub fn new(data: Vec<u8>) -> (r: Self)
        ensures
            r.wf(),
            r.spec_data() == data@,
    {
        Txt { data }
    }

    /// Returns the raw bytes of the record data.
    pub fn data(&self) -> (r: &[u8])
        ensures
            r@ == self.spec_data(),
    {
        self.data.as_slice()
    }
}

impl<'a> RecordData<'a> for Txt {
    open spec fn wf(&self) -> bool {
        true
    }

    open spec fn rtype_spec(&self) -> RRType {
        RRType::Txt
    }

    /// Composing replays the raw bytes unchanged.
    open spec fn wire(&self) -> Seq<u8> {
        self.spec_data()
    }

    fn rtype(&self) -> (t: RRType) {
        RRType::Txt
    }

    fn compose<B: BytesBuf>(&self, target: &mut B) -> (r: ComposeResult<()>)
        ensures
            r is Ok,
    {
        target.push_bytes(self.data.as_slice());
        Ok(())
    }

    fn parse(rtype: RRType, parser: &mut Parser<'a>) -> (r: Option<ParseResult<Self>>)
        ensures
            r is None <==> rtype != RRType::Txt,
            r matches Some(Ok(v)) ==> v.spec_data() == old(parser).remaining() && final(parser)@.pos == old(parser)@.limit,
            r matches Some(Err(_)) ==> false,
    {
        if !matches!(rtype, RRType::Txt) {
            return None;
        }
        let len = parser.left();
        match parser.parse_bytes(len) {
            Ok(data) => {
                assert(data@ =~= old(parser).remaining());
                Some(Ok(Txt { data: vstd::slice::slice_to_vec(data) }))
            },
            Err(e) => Some(Err(e)),
        }
    }
}

/// NULL record data: anything at all, kept as raw bytes.
#[derive(Clone, Debug, PartialEq, Eq)]
pub struct Null {
    data: Vec<u8>,
}

impl Null {
    /// The raw bytes of the record data.
    pub closed spec fn spec_data(&self) -> Seq<u8> {
        self.data@
    }

    /// Creates a value from raw record data bytes.
    pub fn new(data: Vec<u8>) -> (r: Self)
        ensures
            r.wf(),
            r.spec_data() == data@,
    {
        Null { data }
    }

    /// Returns the raw bytes of the record data.
    pub fn data(&self) -> (r: &[u8])
        ensures
            r@ == self.spec_data(),
    {
        self.data.as_slice()
    }
}

impl<'a> RecordData<'a> for Null {
    open spec fn wf(&self) -> bool {
        true
    }

    open spec fn rtype_spec(&self) -> RRType {
        RRType::Null
    }

    /// Composing replays the raw bytes unchanged.
    open spec fn wire(&self) -> Seq<u8> {
        self.spec_data()
    }

    fn rtype(&self) -> (t: RRType) {
        RRType::Null
    }

    fn compose<B: BytesBuf>(&self, target: &mut B) -> (r: ComposeResult<()>)
        ensures
            r is Ok,
    {
        target.push_bytes(self.data.as_slice());
        Ok(())
    }

    fn parse(rtype: RRType, parser: &mut Parser<'a>) -> (r: Option<ParseResult<Self>>)
        ensures
            r is None <==> rtype != RRType::Null,
            r matches Some(Ok(v)) ==> v.spec_data() == old(parser).remaining() && final(parser)@.pos == old(parser)@.limit,
            r matches Some(Err(_)) ==> false,
    {
        if !matches!(rtype, RRType::Null) {
            return None;
        }
        let len = parser.left();
        match parser.parse_bytes(len) {
            Ok(data) => {
                assert(data@ =~= old(parser).remaining());
                Some(Ok(Null { data: vstd::slice::slice_to_vec(data) }))
            },
            Err(e) => Some(Err(e)),
        }
    }
}

} // verus!
