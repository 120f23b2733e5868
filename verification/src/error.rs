//! Error types shared by the parsing and composing paths.

use vstd::prelude::*;

verus! {

/// An error raised while parsing wire-format data.
#[derive(Clone, Copy, Debug, PartialEq, Eq, Structural)]
pub enum ParseError {
    /// A read was requested past the end of the data.
    UnexpectedEnd,
    /// A domain-name label started with an undefined label type.
    BadLabelType,
    /// A domain-name compression pointer could not be resolved.
    BadPointer,
}

/// The result of a parsing operation.
pub type ParseResult<T> = Result<T, ParseError>;

/// An error raised while composing wire-format data.
#[derive(Clone, Copy, Debug, PartialEq, Eq, Structural)]
pub enum ComposeError {
    /// A value was too large for the space its format gives it.
    SizeExceeded,
}

/// The result of a composing operation.
pub type ComposeResult<T> = Result<T, ComposeError>;

/// An error raised while scanning the textual form of record data.
#[derive(Clone, Copy, Debug, PartialEq, Eq, Structural)]
pub enum SyntaxError {
    /// The text ended in the middle of a token.
    UnexpectedEnd,
    /// A token held a character its position does not allow.
    IllegalCharacter,
    /// A decimal number does not fit the field it is for.
    NumberTooLarge,
    /// More data bytes were given than the declared length allows.
    LongGenericData,
    /// An expected literal token was not found.
    ExpectedLiteral,
}

/// The result of a text scanning operation.
pub type ScanResult<T> = Result<T, SyntaxError>;

} // verus!
