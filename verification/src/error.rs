//! The failures that parsing and evaluation report.

use vstd::prelude::*;
use crate::small_string::SmallString;

verus! {

#[allow(inconsistent_fields)]
#[derive(Debug, PartialEq, Eq)]
pub enum Error {
    /// A value of one rough type stood where another was needed.
    TypeMismatch { expected: &'static str, received: &'static str },
    /// A function was given a number of arguments other than the one it takes.
    ExactArityMismatch { expected: u8, received: u8 },
    /// A function was given fewer arguments than it needs.
    MinimumArityMismatch { at_least: u8, received: u8 },
    /// An identifier that nothing binds.
    UnknownSymbol(SmallString),
    /// The source text is not an expression.
    ParsingError(String),
    /// An element was taken from an empty container.
    EmptyCollection,
    /// Evaluation nested deeper than the environment allows.
    DepthExceeded,
}

/// What an `Error` says, with every text as a sequence of characters.
#[allow(inconsistent_fields)]
pub enum ErrorView {
    TypeMismatch { expected: Seq<char>, received: Seq<char> },
    ExactArityMismatch { expected: u8, received: u8 },
    MinimumArityMismatch { at_least: u8, received: u8 },
    UnknownSymbol(Seq<char>),
    ParsingError(Seq<char>),
    EmptyCollection,
    DepthExceeded,
}

impl View for Error {
    type V = ErrorView;

    open spec fn view(&self) -> ErrorView {
        match self {
            Error::TypeMismatch { expected, received } => ErrorView::TypeMismatch {
                expected: expected@,
                received: received@,
            },
            Error::ExactArityMismatch { expected, received } => ErrorView::ExactArityMismatch {
                expected: *expected,
                received: *received,
            },
            Error::MinimumArityMismatch { at_least, received } => ErrorView::MinimumArityMismatch {
                at_least: *at_least,
                received: *received,
            },
            Error::UnknownSymbol(name) => ErrorView::UnknownSymbol(name@),
            Error::ParsingError(message) => ErrorView::ParsingError(message@),
            Error::EmptyCollection => ErrorView::EmptyCollection,
            Error::DepthExceeded => ErrorView::DepthExceeded,
        }
    }
}

} // verus!
