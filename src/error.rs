//! Errors reported by the library.
use vstd::prelude::*;

verus! {

/// The kinds of failure that a search, a scan or the cache can report.
#[derive(Clone, Copy, Debug, PartialEq, Eq, Structural)]
pub enum ErrorKind {
    NotADirectory,
    EmptyPattern,
    PatternCompile,
    LineNumbersDisabled,
    Io,
    Channel,
    LockPoisoned,
    Utf8,
    Serde,
    Internal,
}

/// An error: its kind and a human readable message.
#[derive(Clone, Debug)]
pub struct Error {
    pub kind: ErrorKind,
    pub msg: String,
}

impl Error {
    /// Creates a general error with the given message.
    pub fn new(msg: String) -> (r: Self)
        ensures
            r.kind == ErrorKind::Internal,
            r.msg@ == msg@,
    {
        Error { kind: ErrorKind::Internal, msg }
    }

    /// Creates an error of the given kind.
    pub fn with_kind(kind: ErrorKind, msg: String) -> (r: Self)
        ensures
            r.kind == kind,
            r.msg@ == msg@,
    {
        Error { kind, msg }
    }

    /// Kind of this error.
    pub fn kind(&self) -> (r: ErrorKind)
        ensures
            r == self.kind,
    {
        self.kind
    }

    /// Message of this error.
    pub fn message(&self) -> (r: &str)
        ensures
            r@ == self.msg@,
    {
        self.msg.as_str()
    }
}

} // verus!
