//! The one error type that crosses every internal boundary, and its single
//! mapping onto gRPC status codes.
//!
//! Keeping the mapping in one place is what makes the error contract
//! checkable: a reader of [`ParseError`] knows every code this service can
//! return and what earns it.

use vstd::prelude::*;
use crate::codec::{codec_message, CodecError};

verus! {

/// The gRPC status codes a failed parse can end with.
#[derive(Clone, Copy, Debug, PartialEq, Eq, Structural)]
pub enum Code {
    /// `INVALID_ARGUMENT`.
    InvalidArgument,
    /// `UNIMPLEMENTED`.
    Unimplemented,
    /// `RESOURCE_EXHAUSTED`.
    ResourceExhausted,
    /// `INTERNAL`.
    Internal,
}

/// A failure that ends a parse stream.
#[derive(Debug, Clone, PartialEq, Eq)]
pub enum ParseError {
    /// The request cannot be honored as written: no layout, a malformed
    /// copybook, overlapping fields, a record length shorter than its own
    /// prefix, a bad COMP-3 nibble, a non-decimal zoned digit, or a byte the
    /// code page leaves unassigned. Becomes `INVALID_ARGUMENT`.
    Invalid(String),
    /// The request is well formed but names something this build does not
    /// implement: a copybook feature outside the supported subset, or a field
    /// wider than the decoders handle. Becomes `UNIMPLEMENTED`.
    Unsupported(String),
    /// A resource bound was hit: the byte cap, or the concurrent-parse cap.
    /// Becomes `RESOURCE_EXHAUSTED`.
    Exhausted(String),
    /// The server broke, not the request. Becomes `INTERNAL`.
    Internal(String),
}

/// A failure as contracts speak of it: its kind and its message.
#[verifier::ext_equal]
pub enum Failure {
    /// See [`ParseError::Invalid`].
    Invalid(Seq<char>),
    /// See [`ParseError::Unsupported`].
    Unsupported(Seq<char>),
    /// See [`ParseError::Exhausted`].
    Exhausted(Seq<char>),
    /// See [`ParseError::Internal`].
    Internal(Seq<char>),
}

impl View for ParseError {
    type V = Failure;

    open spec fn view(&self) -> Failure {
        match self {
            ParseError::Invalid(message) => Failure::Invalid(message@),
            ParseError::Unsupported(message) => Failure::Unsupported(message@),
            ParseError::Exhausted(message) => Failure::Exhausted(message@),
            ParseError::Internal(message) => Failure::Internal(message@),
        }
    }
}

impl Failure {
    /// The gRPC code a failure maps to.
    pub open spec fn code(self) -> Code {
        match self {
            Failure::Invalid(_) => Code::InvalidArgument,
            Failure::Unsupported(_) => Code::Unimplemented,
            Failure::Exhausted(_) => Code::ResourceExhausted,
            Failure::Internal(_) => Code::Internal,
        }
    }

    /// The failure in words.
    pub open spec fn message(self) -> Seq<char> {
        match self {
            Failure::Invalid(message) => message,
            Failure::Unsupported(message) => message,
            Failure::Exhausted(message) => message,
            Failure::Internal(message) => message,
        }
    }
}

/// A result as contracts speak of it: the model of the value, or the failure.
pub open spec fn outcome<T: DeepView>(result: Result<T, ParseError>) -> Result<T::V, Failure> {
    match result {
        Ok(value) => Ok(value.deep_view()),
        Err(error) => Err(error@),
    }
}

impl ParseError {
    /// Build an [`Self::Invalid`] from its message.
    pub fn invalid(message: String) -> (r: Self)
        ensures
            r@ == Failure::Invalid(message@),
    {
        ParseError::Invalid(message)
    }

    /// Build an [`Self::Unsupported`] from its message.
    pub fn unsupported(message: String) -> (r: Self)
        ensures
            r@ == Failure::Unsupported(message@),
    {
        ParseError::Unsupported(message)
    }

    /// Build an [`Self::Exhausted`] from its message.
    pub fn exhausted(message: String) -> (r: Self)
        ensures
            r@ == Failure::Exhausted(message@),
    {
        ParseError::Exhausted(message)
    }

    /// Build an [`Self::Internal`] from its message.
    pub fn internal(message: String) -> (r: Self)
        ensures
            r@ == Failure::Internal(message@),
    {
        ParseError::Internal(message)
    }

    /// The gRPC code this failure maps to.
    pub fn code(&self) -> (r: Code)
        ensures
            r == self@.code(),
    {
        match self {
            ParseError::Invalid(_) => Code::InvalidArgument,
            ParseError::Unsupported(_) => Code::Unimplemented,
            ParseError::Exhausted(_) => Code::ResourceExhausted,
            ParseError::Internal(_) => Code::Internal,
        }
    }

    /// The failure in words.
    pub fn to_string(&self) -> (r: String)
        ensures
            r@ == self@.message(),
    {
        match self {
            ParseError::Invalid(message) => message.clone(),
            ParseError::Unsupported(message) => message.clone(),
            ParseError::Exhausted(message) => message.clone(),
            ParseError::Internal(message) => message.clone(),
        }
    }

    /// Both codec failures are the caller's: an encoding this build does not
    /// carry, and a byte the chosen code page does not assign. Neither is a
    /// server fault and neither is recoverable by retrying.
    pub fn from_codec(error: &CodecError) -> (r: Self)
        ensures
            r@ == Failure::Invalid(codec_message(*error)),
    {
        ParseError::Invalid(error.to_string())
    }
}

} // verus!
