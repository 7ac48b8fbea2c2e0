//! The errors of this library.

use vstd::prelude::*;

use crate::read::ParseError;
use crate::sys::{enospc, no_space_code};

verus! {

/// What sort of error an [`Error`] is.
#[derive(Clone, Copy, Debug, PartialEq, Eq, Structural)]
pub enum ErrorKind {
    /// A system call failed.
    Os,
    /// A read came to an end before it delivered anything.
    UnexpectedEof,
    /// Anything else.
    Other,
}

/// Why an operation on a counter failed.
#[derive(Clone, Copy, Debug, PartialEq, Eq, Structural)]
pub enum Error {
    /// A system call failed and left this error code.
    Os(i32),
    /// The kernel could not schedule the counter or its group.
    Unscheduled,
    /// The words that were read do not fit the format, or the format is not supported.
    Parse(ParseError),
    /// The format does not ask for the time enabled.
    NoTimeEnabled,
    /// The format does not ask for the time running.
    NoTimeRunning,
    /// A group was to be made of a counter that is read alone.
    NoGroupFlag,
}

impl Error {
    /// The code of the error: that of the system call that failed, or `ENOSPC` if the
    /// words that were read do not fit the format.
    pub open spec fn code(self) -> Option<i32> {
        match self {
            Error::Os(code) => Some(code),
            Error::Parse(_) => Some(no_space_code()),
            _ => None,
        }
    }

    /// The code of the error: that of the system call that failed, or `ENOSPC` if the
    /// words that were read do not fit the format.
    pub fn raw_os_error(&self) -> (code: Option<i32>)
        ensures
            code == self.code(),
    {
        match self {
            Error::Os(code) => Some(*code),
            Error::Parse(_) => Some(enospc()),
            _ => None,
        }
    }

    /// What sort of error this is.
    pub fn kind(&self) -> (kind: ErrorKind)
        ensures
            kind == match *self {
                Error::Os(_) => ErrorKind::Os,
                Error::Unscheduled => ErrorKind::UnexpectedEof,
                _ => ErrorKind::Other,
            },
    {
        match self {
            Error::Os(_) => ErrorKind::Os,
            Error::Unscheduled => ErrorKind::UnexpectedEof,
            _ => ErrorKind::Other,
        }
    }

    /// The text of the error. That of a failed system call is the system's own.
    pub open spec fn text(self) -> Option<Seq<char>> {
        match self {
            Error::Os(_) => None,
            Error::Unscheduled => Some(
                "the kernel was unable to schedule the counter or group"@,
            ),
            Error::Parse(e) => Some(e.text()),
            Error::NoTimeEnabled => Some("time_enabled was not enabled within read_format"@),
            Error::NoTimeRunning => Some("time_running was not enabled within read_format"@),
            Error::NoGroupFlag => Some("a group must be read with the GROUP flag"@),
        }
    }

    /// The text of the error, or `None` if a system call failed.
    pub fn message(&self) -> (message: Option<&'static str>)
        ensures
            match message {
                Some(m) => self.text() == Some(m@),
                None => self.text() is None,
            },
    {
        match self {
            Error::Os(_) => None,
            Error::Unscheduled => Some("the kernel was unable to schedule the counter or group"),
            Error::Parse(e) => Some(e.message()),
            Error::NoTimeEnabled => Some("time_enabled was not enabled within read_format"),
            Error::NoTimeRunning => Some("time_running was not enabled within read_format"),
            Error::NoGroupFlag => Some("a group must be read with the GROUP flag"),
        }
    }
}

} // verus!
