//! The ways in which a signature can fail to be read.

use crate::text::Span;
use vstd::prelude::*;

verus! {

/// The part of the work at which a signature was refused.
#[derive(Clone, Copy, Debug, PartialEq, Eq, Structural)]
pub enum Stage {
    /// Cutting the text into header, parameter list and return type.
    Segmenter,
    /// Reading the header.
    HeaderParser,
    /// Reading the parameter list.
    ParameterParser,
}

/// Why a signature was refused.
#[derive(Clone, Copy, Debug, PartialEq, Eq, Structural)]
pub enum ErrorKind {
    /// The text lacks a `(` outside all brackets, or a `->` outside all
    /// brackets behind it.
    MalformedSignature,
    /// A `<` in the header is not closed.
    MalformedGenerics,
    /// A parameter has no `:` outside all brackets.
    MalformedParameter,
    /// The header names no function.
    EmptyIdentifier,
}

impl ErrorKind {
    /// The stage that refuses a signature for this reason.
    pub open spec fn stage_of(self) -> Stage {
        match self {
            ErrorKind::MalformedSignature => Stage::Segmenter,
            ErrorKind::MalformedGenerics => Stage::HeaderParser,
            ErrorKind::EmptyIdentifier => Stage::HeaderParser,
            ErrorKind::MalformedParameter => Stage::ParameterParser,
        }
    }

    /// The stage that refuses a signature for this reason.
    pub fn stage(&self) -> (r: Stage)
        ensures
            r == self.stage_of(),
    {
        match self {
            ErrorKind::MalformedSignature => Stage::Segmenter,
            ErrorKind::MalformedGenerics => Stage::HeaderParser,
            ErrorKind::EmptyIdentifier => Stage::HeaderParser,
            ErrorKind::MalformedParameter => Stage::ParameterParser,
        }
    }
}

/// A refusal: the reason, and the part of the text that the refusing stage
/// was given, as offsets into the text that the caller handed in.
#[derive(Clone, Copy, Debug, PartialEq, Eq, Structural)]
pub struct ParseError {
    pub kind: ErrorKind,
    pub span: Span,
}

/// The refusal of a whole text of `len` characters for the reason `kind`.
pub open spec fn refusal(kind: ErrorKind, len: nat) -> ParseError {
    ParseError { kind, span: Span { start: 0, end: len as usize } }
}

} // verus!
