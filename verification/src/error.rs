//! Errors, and what a system call answers.

use vstd::prelude::*;

verus! {

/// What kind of error an I/O operation ended in, as far as it is told apart here.
#[derive(Clone, Copy, Debug, PartialEq, Eq, Structural)]
pub enum ErrorKind {
    /// The operation would have to block, and the file descriptor does not block.
    WouldBlock,
    /// The end of the file came before all the bytes that were asked for.
    UnexpectedEof,
    /// A write accepted no byte.
    WriteZero,
    /// Any other error.
    Other,
}

/// An error of an I/O operation.
#[derive(Clone, Copy, Debug, PartialEq, Eq)]
pub struct Error {
    /// The kind of the error.
    pub kind: ErrorKind,
    /// The error number of the operating system, where the error comes from there.
    pub code: Option<i32>,
}

impl Error {
    /// Returns the kind of the error.
    pub fn kind(&self) -> (kind: ErrorKind)
        ensures
            kind == self.kind,
    {
        self.kind
    }
}

/// What a system call answers: its return value, and the error that the calling thread
/// holds right after it.
#[derive(Clone, Copy, Debug, PartialEq, Eq)]
pub struct Reply {
    /// The value that the call returned.
    pub ret: i32,
    /// The last error of the thread; it means something only where `ret` is negative.
    pub last_error: Error,
}

impl Reply {
    /// The outcome that a reply stands for: the error where the return value is negative,
    /// and the return value otherwise.
    pub open spec fn outcome_spec(self) -> Result<i32, Error> {
        if self.ret < 0 {
            Err(self.last_error)
        } else {
            Ok(self.ret)
        }
    }

    /// Returns the outcome that the reply stands for.
    pub fn outcome(self) -> (outcome: Result<i32, Error>)
        ensures
            outcome == self.outcome_spec(),
    {
        if self.ret < 0 {
            Err(self.last_error)
        } else {
            Ok(self.ret)
        }
    }
}

} // verus!
