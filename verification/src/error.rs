//! The error type shared by every operation of the session.

use vstd::prelude::*;

verus! {

/// The class of a failure.
#[derive(Debug, Clone, Copy, PartialEq, Eq, Structural)]
pub enum ErrorKind {
    NotFound,
    PermissionDenied,
    AlreadyExists,
    AddrInUse,
    WouldBlock,
    InvalidInput,
    InvalidData,
    TimedOut,
    WriteZero,
    Interrupted,
    Unsupported,
    UnexpectedEof,
    OutOfMemory,
    NotConnected,
    BrokenPipe,
    Other,
}

/// A failure with the text shown to a caller.
#[derive(Debug, Clone)]
pub struct SessionError {
    pub kind: ErrorKind,
    pub message: String,
}

/// Whether an error has this class and this text.
pub open spec fn error_is(error: SessionError, kind: ErrorKind, message: Seq<char>) -> bool {
    error.kind == kind && error.message@ == message
}

/// Whether a result is the error with this class and this text.
pub open spec fn fails_with<T>(
    result: Result<T, SessionError>,
    kind: ErrorKind,
    message: Seq<char>,
) -> bool {
    result is Err && error_is(result->Err_0, kind, message)
}

/// The class and the text of a failure.
pub type Fault = (ErrorKind, Seq<char>);

/// The failure that an error tells of.
pub open spec fn fault_of(error: SessionError) -> Fault {
    (error.kind, error.message@)
}

/// What a result says: the view of its value, or its failure.
pub open spec fn seen<T: View>(result: Result<T, SessionError>) -> Result<T::V, Fault> {
    match result {
        Ok(value) => Ok(value@),
        Err(error) => Err(fault_of(error)),
    }
}

/// What a result without a value says.
pub open spec fn told(result: Result<(), SessionError>) -> Result<(), Fault> {
    match result {
        Ok(()) => Ok(()),
        Err(error) => Err(fault_of(error)),
    }
}

/// The failure of data that is not as it should be.
pub open spec fn malformed<T>(message: Seq<char>) -> Result<T, Fault> {
    Err((ErrorKind::InvalidData, message))
}

/// The failure of an argument that is not as it should be.
pub open spec fn refused<T>(message: Seq<char>) -> Result<T, Fault> {
    Err((ErrorKind::InvalidInput, message))
}

/// The failure of data that is not as it should be.
pub fn invalid<T>(message: &str) -> (result: Result<T, SessionError>)
    ensures
        fails_with(result, ErrorKind::InvalidData, message@),
{
    Err(SessionError::new(ErrorKind::InvalidData, message))
}

/// The failure of an argument that is not as it should be.
pub fn invalid_input<T>(message: &str) -> (result: Result<T, SessionError>)
    ensures
        fails_with(result, ErrorKind::InvalidInput, message@),
{
    Err(SessionError::new(ErrorKind::InvalidInput, message))
}

impl SessionError {
    pub fn new(kind: ErrorKind, message: &str) -> (error: SessionError)
        ensures
            error_is(error, kind, message@),
    {
        SessionError { kind, message: message.to_owned() }
    }

    /// The text shown to a caller.
    pub fn text(&self) -> (text: String)
        ensures
            text@ == self.message@,
    {
        self.message.clone()
    }
}

} // verus!
