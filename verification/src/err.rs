//! The errors of this library, and what an operating-system failure is to it.

use crate::text::{push_signed, signed_decimal};
use vstd::prelude::*;

verus! {

/// `EPERM`: the operation is not permitted.
pub const EPERM: i32 = 1;

/// `EACCES`: permission denied.
pub const EACCES: i32 = 13;

/// `EINVAL`: invalid argument; `umount2` reports it for a path that is no
/// mount point.
pub const EINVAL: i32 = 22;

/// The cause of a failed input or output operation, as far as the library's
/// decisions depend on it.
#[derive(Debug, Clone, Copy, PartialEq, Eq, Structural)]
pub enum IoError {
    /// A system call failed with this `errno`.
    Os(i32),
    /// A read met the end of the stream before the buffer was full.
    UnexpectedEof,
    /// Any other failure.
    Other,
}

impl IoError {
    /// Whether the system refused the operation for want of permission
    /// (`EACCES` or `EPERM`).
    pub open spec fn permission_denied(self) -> bool {
        self == IoError::Os(EACCES) || self == IoError::Os(EPERM)
    }

    /// Whether the system call reported an invalid argument (`EINVAL`).
    pub open spec fn invalid_argument(self) -> bool {
        self == IoError::Os(EINVAL)
    }

    /// How the cause reads in a message.
    pub open spec fn text(self) -> Seq<char> {
        match self {
            IoError::Os(code) => "os error "@ + signed_decimal(code as int),
            IoError::UnexpectedEof => "unexpected end of file"@,
            IoError::Other => "input/output error"@,
        }
    }

    /// Whether the system refused the operation for want of permission.
    pub fn is_permission_denied(&self) -> (r: bool)
        ensures
            r == self.permission_denied(),
    {
        match self {
            IoError::Os(code) => *code == EACCES || *code == EPERM,
            _ => false,
        }
    }

    /// Whether the system call reported an invalid argument.
    pub fn is_invalid_argument(&self) -> (r: bool)
        ensures
            r == self.invalid_argument(),
    {
        match self {
            IoError::Os(code) => *code == EINVAL,
            _ => false,
        }
    }

    /// Whether a read met the end of the stream too early.
    pub fn is_unexpected_eof(&self) -> (r: bool)
        ensures
            r == (*self == IoError::UnexpectedEof),
    {
        match self {
            IoError::UnexpectedEof => true,
            _ => false,
        }
    }

    /// Appends the cause to a message.
    pub fn push_text(&self, out: &mut String)
        ensures
            final(out)@ == old(out)@ + self.text(),
    {
        match self {
            IoError::Os(code) => {
                out.append("os error ");
                push_signed(out, *code);
                assert(out@ =~= old(out)@ + self.text());
            },
            IoError::UnexpectedEof => {
                out.append("unexpected end of file");
            },
            IoError::Other => {
                out.append("input/output error");
            },
        }
    }
}

/// What can go wrong in this library.
#[derive(Debug)]
pub enum Error {
    /// An input or output operation on the file `name` failed.
    File { op: String, name: String, io: IoError },
    /// A system call failed.
    OS { op: String, io: IoError },
    /// An interface name is longer than the kernel allows.
    TooLong,
    /// An interface has an address that is not IPv4.
    NotIPv4,
    /// A string holds a NUL character, or does not read as a number.
    BadStr,
    /// The helper that writes an ID map did not succeed.
    UIDMap,
    /// The file `name` is malformed.
    ParseError { msg: String, name: String },
    /// No mount covers the path.
    MissingMount,
}

/// An [`Error`] with its strings as sequences of characters.
pub enum ErrorView {
    File { op: Seq<char>, name: Seq<char>, io: IoError },
    OS { op: Seq<char>, io: IoError },
    TooLong,
    NotIPv4,
    BadStr,
    UIDMap,
    ParseError { msg: Seq<char>, name: Seq<char> },
    MissingMount,
}

impl View for Error {
    type V = ErrorView;

    open spec fn view(&self) -> ErrorView {
        match self {
            Error::File { op, name, io } => ErrorView::File { op: op@, name: name@, io: *io },
            Error::OS { op, io } => ErrorView::OS { op: op@, io: *io },
            Error::TooLong => ErrorView::TooLong,
            Error::NotIPv4 => ErrorView::NotIPv4,
            Error::BadStr => ErrorView::BadStr,
            Error::UIDMap => ErrorView::UIDMap,
            Error::ParseError { msg, name } => ErrorView::ParseError { msg: msg@, name: name@ },
            Error::MissingMount => ErrorView::MissingMount,
        }
    }
}

impl ErrorView {
    /// The cause, where an operating-system failure lies behind the error.
    pub open spec fn source(self) -> Option<IoError> {
        match self {
            ErrorView::File { io, .. } => Some(io),
            ErrorView::OS { io, .. } => Some(io),
            _ => None,
        }
    }

    /// The one-sentence diagnostic of the error.
    pub open spec fn message(self) -> Seq<char> {
        match self {
            ErrorView::File { op, name, io } => "File "@ + op + " with "@ + name + " : "@
                + io.text(),
            ErrorView::OS { op, io } => "OS "@ + op + " : "@ + io.text(),
            ErrorView::TooLong => "Interface name too long"@,
            ErrorView::NotIPv4 => "Interface address not IPv4"@,
            ErrorView::BadStr => "String can not contain nil"@,
            ErrorView::UIDMap => "newuidmap"@,
            ErrorView::ParseError { msg, name } => "Error: "@ + msg + " while parsing "@ + name,
            ErrorView::MissingMount => "Missing mount point info"@,
        }
    }
}

/// The cause of the last failed system call of this thread. Calls
/// `std::io::Error::last_os_error` and hands on its `raw_os_error`; nothing
/// is claimed of the value, which is whatever the system left behind.
#[verifier::external_body]
fn last_errno() -> (r: Option<i32>) {
    std::io::Error::last_os_error().raw_os_error()
}

impl Error {
    /// An input or output failure, with the operation and the file's name.
    pub fn file(desc: &str, path: &str, err: IoError) -> (r: Error)
        ensures
            r@ == (ErrorView::File { op: desc@, name: path@, io: err }),
    {
        Error::File { op: String::from_str(desc), name: String::from_str(path), io: err }
    }

    /// `Error::file` with the cause of the last failed system call. The
    /// cause is `IoError::Os` of the code that the system left, or
    /// `IoError::Other` where it left none.
    pub fn last_file_error(desc: &str, path: &str) -> (r: Error)
        ensures
            r@ matches ErrorView::File { op, name, io } && op == desc@ && name == path@ && !(io
                == IoError::UnexpectedEof),
    {
        let io = match last_errno() {
            Some(code) => IoError::Os(code),
            None => IoError::Other,
        };
        Error::file(desc, path, io)
    }

    /// A system call failure, with the operation.
    pub fn os(desc: &str, err: IoError) -> (r: Error)
        ensures
            r@ == (ErrorView::OS { op: desc@, io: err }),
    {
        Error::OS { op: String::from_str(desc), io: err }
    }

    /// `Error::os` with the cause of the last failed system call. The cause
    /// is `IoError::Os` of the code that the system left, or `IoError::Other`
    /// where it left none.
    pub fn last_os_error(desc: &str) -> (r: Error)
        ensures
            r@ matches ErrorView::OS { op, io } && op == desc@ && !(io == IoError::UnexpectedEof),
    {
        let io = match last_errno() {
            Some(code) => IoError::Os(code),
            None => IoError::Other,
        };
        Error::os(desc, io)
    }

    /// A malformed file, with what is wrong and the file's name.
    pub fn parse(msg: &str, path: &str) -> (r: Error)
        ensures
            r@ == (ErrorView::ParseError { msg: msg@, name: path@ }),
    {
        Error::ParseError { msg: String::from_str(msg), name: String::from_str(path) }
    }

    /// The cause, where an operating-system failure lies behind the error.
    pub fn source(&self) -> (r: Option<IoError>)
        ensures
            r == self@.source(),
    {
        match self {
            Error::File { io, .. } => Some(*io),
            Error::OS { io, .. } => Some(*io),
            _ => None,
        }
    }

    /// Whether the system refused, for want of permission, the operation
    /// that this error reports.
    pub fn is_permission_denied(&self) -> (r: bool)
        ensures
            r == (self@.source() matches Some(io) && io.permission_denied()),
    {
        match self.source() {
            Some(io) => io.is_permission_denied(),
            None => false,
        }
    }

    /// The one-sentence diagnostic of the error.
    pub fn message(&self) -> (r: String)
        ensures
            r@ == self@.message(),
    {
        let mut out = String::new();
        match self {
            Error::File { op, name, io } => {
                out.append("File ");
                out.append(op.as_str());
                out.append(" with ");
                out.append(name.as_str());
                out.append(" : ");
                io.push_text(&mut out);
            },
            Error::OS { op, io } => {
                out.append("OS ");
                out.append(op.as_str());
                out.append(" : ");
                io.push_text(&mut out);
            },
            Error::TooLong => {
                out.append("Interface name too long");
            },
            Error::NotIPv4 => {
                out.append("Interface address not IPv4");
            },
            Error::BadStr => {
                out.append("String can not contain nil");
            },
            Error::UIDMap => {
                out.append("newuidmap");
            },
            Error::ParseError { msg, name } => {
                out.append("Error: ");
                out.append(msg.as_str());
                out.append(" while parsing ");
                out.append(name.as_str());
            },
            Error::MissingMount => {
                out.append("Missing mount point info");
            },
        }
        assert(out@ =~= self@.message());
        out
    }
}

} // verus!
