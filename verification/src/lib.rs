//! Binary encode/decode layer for DNS resource-record data.
//!
//! The crate offers bounds-checked cursor primitives for reading
//! big-endian integers and byte ranges out of DNS wire-format messages,
//! an append-only sink for composing such messages, and a pluggable
//! record-data abstraction: every concrete record type implements the
//! [`rdata::RecordData`] contract, while [`rdata::GenericRecordData`]
//! holds the raw bytes of any record whose concrete type is unknown or
//! not yet resolved.

pub mod bytes;
pub mod display;
pub mod error;
pub mod laws;
pub mod master;
pub mod name;
pub mod parse;
pub mod rdata;
pub mod rfc1035;
pub mod rtype;
