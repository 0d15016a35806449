//! The outcome of a fallible construction: no error, input that is not UTF-8,
//! or a pattern that the engine refused.

use vstd::prelude::*;

verus! {

/// What went wrong.
#[derive(Debug)]
pub enum ErrorKind {
    /// Nothing.
    NoError,
    /// The input was not UTF-8; the offset up to which it was valid.
    InvalidUtf8(usize),
    /// The engine refused the pattern; its diagnostic.
    Compile(String),
}

/// An [`ErrorKind`] with its message taken as a sequence of characters.
pub enum ErrorView {
    NoError,
    InvalidUtf8(usize),
    Compile(Seq<char>),
}

impl View for ErrorKind {
    type V = ErrorView;

    open spec fn view(&self) -> ErrorView {
        match self {
            ErrorKind::NoError => ErrorView::NoError,
            ErrorKind::InvalidUtf8(offset) => ErrorView::InvalidUtf8(*offset),
            ErrorKind::Compile(message) => ErrorView::Compile(message@),
        }
    }
}

/// An error value that can stand in a caller's error slot.
#[derive(Debug)]
pub struct Error {
    kind: ErrorKind,
}

impl View for Error {
    type V = ErrorView;

    closed spec fn view(&self) -> ErrorView {
        self.kind@
    }
}

impl Error {
    /// An error of the given kind.
    pub fn new(kind: ErrorKind) -> (e: Error)
        ensures
            e@ == kind@,
    {
        Error { kind }
    }

    /// Whether this value reports a failure.
    pub fn is_err(&self) -> (r: bool)
        ensures
            r == !(self@ is NoError),
    {
        match self.kind {
            ErrorKind::NoError => false,
            ErrorKind::InvalidUtf8(_) => true,
            ErrorKind::Compile(_) => true,
        }
    }

    /// The kind of this error.
    pub fn kind(&self) -> (k: &ErrorKind)
        ensures
            k@ == self@,
    {
        &self.kind
    }
}

} // verus!
