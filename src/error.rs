use vstd::prelude::*;

verus! {

/// What went wrong, as far as a caller needs to tell.
#[derive(Clone, Copy, Debug, PartialEq, Eq, Structural)]
pub enum ErrorKind {
    /// An ordinary application error, surfaced verbatim.
    Failed,
    /// The peer refuses for now; a retry may succeed.
    Overloaded,
    /// The connection is gone.
    Disconnected,
    /// The method or feature is unknown.
    Unimplemented,
}

/// An error with its kind and a human-readable description.
#[derive(Debug)]
pub struct Error {
    pub kind: ErrorKind,
    pub description: String,
}

/// The mathematical value of an error.
pub struct ErrorView {
    pub kind: ErrorKind,
    pub description: Seq<char>,
}

impl View for Error {
    type V = ErrorView;

    open spec fn view(&self) -> ErrorView {
        ErrorView { kind: self.kind, description: self.description@ }
    }
}

impl Error {
    pub fn new(kind: ErrorKind, description: String) -> (r: Error)
        ensures
            r.kind == kind,
            r.description@ == description@,
    {
        Error { kind, description }
    }

    pub fn failed(description: String) -> (r: Error)
        ensures
            r.kind == ErrorKind::Failed,
            r.description@ == description@,
    {
        Error { kind: ErrorKind::Failed, description }
    }

    pub fn disconnected(description: String) -> (r: Error)
        ensures
            r.kind == ErrorKind::Disconnected,
            r.description@ == description@,
    {
        Error { kind: ErrorKind::Disconnected, description }
    }

    pub fn unimplemented(description: String) -> (r: Error)
        ensures
            r.kind == ErrorKind::Unimplemented,
            r.description@ == description@,
    {
        Error { kind: ErrorKind::Unimplemented, description }
    }

    /// A second error equal to this one.
    pub fn duplicate(&self) -> (r: Error)
        ensures
            r@ == self@,
    {
        Error { kind: self.kind, description: self.description.clone() }
    }
}

} // verus!
