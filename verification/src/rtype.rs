//! Record type tags.
//!
//! Every DNS resource record carries a numeric type code assigned by
//! IANA that decides the shape of its data.  This crate only needs to
//! compare tags and to dispatch on a fixed set of them; the catch-all
//! [`RRType::Int`] variant carries any code the crate has no name for.

use vstd::prelude::*;

verus! {

/// The type tag of a resource record.
#[derive(Clone, Copy, Debug, PartialEq, Eq, Hash, Structural)]
pub enum RRType {
    /// A host address.
    A,
    /// An authoritative name server.
    Ns,
    /// A mail destination (obsolete).
    Md,
    /// A mail forwarder (obsolete).
    Mf,
    /// The canonical name for an alias.
    Cname,
    /// The start of a zone of authority.
    Soa,
    /// A mailbox domain name.
    Mb,
    /// A mail group member.
    Mg,
    /// A mail rename domain name.
    Mr,
    /// A null resource record.
    Null,
    /// A well known service description.
    Wks,
    /// A domain name pointer.
    Ptr,
    /// Host information.
    Hinfo,
    /// Mailbox or mail list information.
    Minfo,
    /// Mail exchange.
    Mx,
    /// Text strings.
    Txt,
    /// An IPv6 host address.
    Aaaa,
    /// A record type this crate has no name for.
    Int(u16),
}

/// Whether records of this type may embed compressed domain names.
///
/// These are the record types of the base DNS specification whose data
/// carries domain-name fields, so two byte-wise different encodings may
/// stand for the same value.  Comparing such records goes through
/// re-parsing rather than through the raw bytes.
pub open spec fn admits_compressed_names(t: RRType) -> bool {
    ||| t == RRType::Cname
    ||| t == RRType::Mb
    ||| t == RRType::Md
    ||| t == RRType::Mf
    ||| t == RRType::Mg
    ||| t == RRType::Minfo
    ||| t == RRType::Mr
    ||| t == RRType::Mx
    ||| t == RRType::Ns
    ||| t == RRType::Ptr
    ||| t == RRType::Soa
}

} // verus!
