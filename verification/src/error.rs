use vstd::prelude::*;

verus! {

/// The kinds of failure that positioned reads and writes report.
#[derive(Debug, Clone, Copy, PartialEq, Eq, Structural)]
pub enum ErrorKind {
    /// The operation was interrupted before it did anything; it may be retried.
    Interrupted,
    /// A write accepted no bytes although some remained to be written.
    WriteZero,
    /// The target was not found.
    NotFound,
    /// The operation lacked the necessary privileges.
    PermissionDenied,
    /// The connection was refused.
    ConnectionRefused,
    /// The connection was reset.
    ConnectionReset,
    /// The connection was aborted.
    ConnectionAborted,
    /// The target is not connected.
    NotConnected,
    /// The address is in use.
    AddrInUse,
    /// The address is not available.
    AddrNotAvailable,
    /// The pipe was closed at the other end.
    BrokenPipe,
    /// The target already exists.
    AlreadyExists,
    /// The operation would block.
    WouldBlock,
    /// A parameter was incorrect.
    InvalidInput,
    /// The data were not valid for the operation.
    InvalidData,
    /// The operation timed out.
    TimedOut,
    /// The operation is not supported.
    Unsupported,
    /// The data ended before the operation could finish.
    UnexpectedEof,
    /// Memory could not be allocated.
    OutOfMemory,
    /// Any other failure.
    Other,
}

/// An error of a positioned read or write: its kind and, where the failure
/// came from the operating system, the raw error code it reported.
#[derive(Debug, Clone, Copy, PartialEq, Eq, Structural)]
pub struct Error {
    pub kind: ErrorKind,
    pub os_code: Option<i32>,
}

/// The result of a positioned read or write.
pub type Result<T> = core::result::Result<T, Error>;

impl Error {
    /// An error of the given kind that carries no operating-system code.
    pub fn new(kind: ErrorKind) -> (e: Error)
        ensures
            e.kind == kind,
            e.os_code is None,
    {
        Error { kind, os_code: None }
    }

    /// An error reported by the operating system with the given code.
    pub fn from_os(kind: ErrorKind, code: i32) -> (e: Error)
        ensures
            e.kind == kind,
            e.os_code == Some(code),
    {
        Error { kind, os_code: Some(code) }
    }

    /// The kind of this error.
    pub fn kind(&self) -> (k: ErrorKind)
        ensures
            k == self.kind,
    {
        self.kind
    }

    /// The operating-system code of this error, if it has one.
    pub fn raw_os_error(&self) -> (c: Option<i32>)
        ensures
            c == self.os_code,
    {
        self.os_code
    }
}

} // verus!
