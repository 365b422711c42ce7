//! The error that every operation of the client reports.

use vstd::prelude::*;

verus! {

/// What went wrong, in kind.
#[derive(Clone, Copy, Debug, PartialEq, Eq, Structural)]
pub enum ErrorKind {
    NotFound,
    InvalidData,
    Other,
}

/// A failure: its kind, and a message for the user.
#[derive(Debug)]
pub struct ClientError {
    pub kind: ErrorKind,
    pub message: String,
}

/// A failure as contracts speak of it.
pub struct ErrorView {
    pub kind: ErrorKind,
    pub message: Seq<char>,
}

impl View for ClientError {
    type V = ErrorView;

    open spec fn view(&self) -> ErrorView {
        ErrorView { kind: self.kind, message: self.message@ }
    }
}

/// A failure of kind `Other`.
pub open spec fn other_error(message: Seq<char>) -> ErrorView {
    ErrorView { kind: ErrorKind::Other, message }
}

/// The view of an outcome that carries nothing but its failure.
pub open spec fn outcome(r: Result<(), ClientError>) -> Result<(), ErrorView> {
    match r {
        Ok(_) => Ok(()),
        Err(e) => Err(e@),
    }
}

impl ClientError {
    /// A failure of kind `Other`.
    pub fn other(message: String) -> (r: ClientError)
        ensures
            r@ == other_error(message@),
    {
        ClientError { kind: ErrorKind::Other, message }
    }

    /// A copy of the failure.
    pub fn copy(&self) -> (r: ClientError)
        ensures
            r@ == self@,
    {
        ClientError { kind: self.kind, message: self.message.clone() }
    }
}

/// A failure is known by its kind and its whole message, and an outcome by whether
/// it is a failure and by which.
pub proof fn law_failures_are_told_apart(r: Result<(), ClientError>, message: Seq<char>)
    ensures
        outcome(r) is Ok <==> r is Ok,
        r matches Err(e) ==> {
            &&& outcome(r)->Err_0.kind == e.kind
            &&& outcome(r)->Err_0.message == e.message@
        },
        other_error(message).kind == ErrorKind::Other,
        other_error(message).message == message,
{
}

} // verus!
