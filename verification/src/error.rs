//! The error taxonomy and the classifier that builds it.
//!
//! Every failing engine call reports a raw system error code. The classifier
//! maps that code, together with a descriptor of the attempted operation,
//! into a structured [`Error`]. Equality on errors is intentionally
//! asymmetric: a specific kind matches by kind alone, while the wildcard
//! [`ErrorKind::Other`] falls back to the raw codes and then to the
//! operation descriptors, so callers can match on category without knowing
//! the exact system code.

use crate::cursor::Position;
use vstd::prelude::*;

verus! {

/// Raw system error code: operation not permitted.
pub const EPERM: i32 = 1;

/// Raw system error code: no such entry.
pub const ENOENT: i32 = 2;

/// Raw system error code: input/output error.
pub const EIO: i32 = 5;

/// Raw system error code: bad handle.
pub const EBADF: i32 = 9;

/// Raw system error code: resource busy.
pub const EBUSY: i32 = 16;

/// Raw system error code: entry already exists.
pub const EEXIST: i32 = 17;

/// Raw system error code: invalid argument.
pub const EINVAL: i32 = 22;

/// Raw system error code: stale handle.
pub const ESTALE: i32 = 116;

/// The engine operation an error was raised by.
#[derive(Clone, Debug)]
pub enum Op {
    /// Compacting the database file.
    Compact,
    /// A positioned cursor get, with its movement mode.
    CurGet(Position),
    /// Opening a cursor.
    CurOpen,
    /// Opening the database.
    Open,
    /// Reverting the last committed change.
    Revert,
    /// Flushing buffers to durable storage.
    Sync,
    /// Beginning a transaction.
    TxnBegin,
    /// Committing a transaction.
    TxnCommit,
    /// Deleting a key.
    TxnDel,
    /// Retrieving a value.
    TxnGet,
    /// Storing a value.
    TxnPut,
    /// Anything else, described in words.
    Other(String),
}

/// The classified category of an error.
#[derive(Clone, Copy, Debug, Eq, PartialEq, Structural)]
pub enum ErrorKind {
    AlreadyExists,
    BadHandle,
    Busy,
    InputOutput,
    InvalidArgument,
    NotFound,
    PermissionDenied,
    StaleHandle,
    Other,
}

/// A structured error: the raw system code, its classified kind, and the
/// operation that was attempted.
#[derive(Clone, Debug)]
pub struct Error {
    /// The raw system error code captured right after the failing call.
    pub code: i32,
    /// The classified kind of the error.
    pub kind: ErrorKind,
    /// The operation that was attempted.
    pub op: Op,
}

/// The classification table: which kind a raw system code maps to.
pub open spec fn kind_of_code(code: i32) -> ErrorKind {
    if code == EEXIST {
        ErrorKind::AlreadyExists
    } else if code == EBADF {
        ErrorKind::BadHandle
    } else if code == EBUSY {
        ErrorKind::Busy
    } else if code == EIO {
        ErrorKind::InputOutput
    } else if code == EINVAL {
        ErrorKind::InvalidArgument
    } else if code == ENOENT {
        ErrorKind::NotFound
    } else if code == EPERM {
        ErrorKind::PermissionDenied
    } else if code == ESTALE {
        ErrorKind::StaleHandle
    } else {
        ErrorKind::Other
    }
}

/// Whether two operation descriptors describe the same operation.
/// Two free-form descriptors match when their texts match.
pub open spec fn op_matches(a: Op, b: Op) -> bool {
    match a {
        Op::Compact => b is Compact,
        Op::CurGet(p) => b matches Op::CurGet(q) && p == q,
        Op::CurOpen => b is CurOpen,
        Op::Open => b is Open,
        Op::Revert => b is Revert,
        Op::Sync => b is Sync,
        Op::TxnBegin => b is TxnBegin,
        Op::TxnCommit => b is TxnCommit,
        Op::TxnDel => b is TxnDel,
        Op::TxnGet => b is TxnGet,
        Op::TxnPut => b is TxnPut,
        Op::Other(s) => b matches Op::Other(t) && s@ == t@,
    }
}

/// The context-sensitive equality rule on errors: a specific kind on both
/// sides compares by kind; a wildcard kind on either side falls back to the
/// raw codes when both are set, and otherwise to the operation descriptors.
pub open spec fn error_matches(a: Error, b: Error) -> bool {
    if a.kind == ErrorKind::Other || b.kind == ErrorKind::Other {
        if a.code > 0 && b.code > 0 {
            a.code == b.code
        } else {
            op_matches(a.op, b.op)
        }
    } else {
        a.kind == b.kind
    }
}

impl Error {
    /// Classifies the raw system error code captured right after a failing
    /// engine call, for the given attempted operation.
    pub fn new(code: i32, op: Op) -> (r: Error)
        ensures
            r.code == code,
            r.kind == kind_of_code(code),
            r.op == op,
    {
        let kind = if code == EEXIST {
            ErrorKind::AlreadyExists
        } else if code == EBADF {
            ErrorKind::BadHandle
        } else if code == EBUSY {
            ErrorKind::Busy
        } else if code == EIO {
            ErrorKind::InputOutput
        } else if code == EINVAL {
            ErrorKind::InvalidArgument
        } else if code == ENOENT {
            ErrorKind::NotFound
        } else if code == EPERM {
            ErrorKind::PermissionDenied
        } else if code == ESTALE {
            ErrorKind::StaleHandle
        } else {
            ErrorKind::Other
        };
        Error { code, kind, op }
    }

    /// An error that carries only a description, no system code.
    pub fn other(errstr: String) -> (r: Error)
        ensures
            r.code == 0,
            r.kind == ErrorKind::Other,
            r.op matches Op::Other(s) && s@ == errstr@,
    {
        Error { code: 0, kind: ErrorKind::Other, op: Op::Other(errstr) }
    }

    /// A placeholder error for comparing against a kind; it matches any
    /// error of that kind under the equality rule.
    pub fn from_kind(kind: ErrorKind) -> (r: Error)
        ensures
            r.code == 0,
            r.kind == kind,
            r.op matches Op::Other(s) && s@ == "Not an actual error"@,
    {
        Error { code: 0, kind, op: Op::Other(String::from_str("Not an actual error")) }
    }

    /// The classified kind of this error.
    pub fn kind(&self) -> (r: ErrorKind)
        ensures
            r == self.kind,
    {
        self.kind
    }

    /// The message this error describes itself with.
    pub open spec fn message(&self) -> Seq<char> {
        if self.kind == ErrorKind::BadHandle {
            "Failed to perform an operation on a bad database handle"@
        } else if self.kind == ErrorKind::StaleHandle {
            "Failed to perform an operation on a stale database handle"@
        } else {
            match self.op {
                Op::Compact => "Failed to compact the database"@,
                Op::CurGet(position) => match position {
                    Position::Current => "Failed to get data at the cursor"@,
                    Position::Exact => "Failed to get data exactly at the cursor"@,
                    Position::First => "Failed to get the first key"@,
                    Position::Next => "Failed to get the next key"@,
                },
                Op::CurOpen => "Failed to create a new cursor"@,
                Op::Open => "Failed to open the database"@,
                Op::Revert => "Failed to revert last change"@,
                Op::Sync => "Failed to sync the database"@,
                Op::TxnBegin => "Failed to start a transaction"@,
                Op::TxnCommit => "Failed to commit a transaction"@,
                Op::TxnDel => "Failed to delete a key"@,
                Op::TxnGet => if self.kind == ErrorKind::NotFound {
                    "Key not found in the database"@
                } else {
                    "Failed to retrieve value"@
                },
                Op::TxnPut => "Failed to store value"@,
                Op::Other(errstr) => errstr@,
            }
        }
    }

    /// Describes the failure in words, from the attempted operation
    /// combined with the kind.
    pub fn description(&self) -> (r: &str)
        ensures
            r@ == self.message(),
    {
        if self.kind == ErrorKind::BadHandle {
            "Failed to perform an operation on a bad database handle"
        } else if self.kind == ErrorKind::StaleHandle {
            "Failed to perform an operation on a stale database handle"
        } else {
            match &self.op {
                Op::Compact => "Failed to compact the database",
                Op::CurGet(position) => match position {
                    Position::Current => "Failed to get data at the cursor",
                    Position::Exact => "Failed to get data exactly at the cursor",
                    Position::First => "Failed to get the first key",
                    Position::Next => "Failed to get the next key",
                },
                Op::CurOpen => "Failed to create a new cursor",
                Op::Open => "Failed to open the database",
                Op::Revert => "Failed to revert last change",
                Op::Sync => "Failed to sync the database",
                Op::TxnBegin => "Failed to start a transaction",
                Op::TxnCommit => "Failed to commit a transaction",
                Op::TxnDel => "Failed to delete a key",
                Op::TxnGet => if self.kind == ErrorKind::NotFound {
                    "Key not found in the database"
                } else {
                    "Failed to retrieve value"
                },
                Op::TxnPut => "Failed to store value",
                Op::Other(errstr) => errstr.as_str(),
            }
        }
    }
}

/// Whether two movement modes are the same.
pub fn position_eq(a: &Position, b: &Position) -> (r: bool)
    ensures
        r == (*a == *b),
{
    match (a, b) {
        (Position::Current, Position::Current) => true,
        (Position::Exact, Position::Exact) => true,
        (Position::First, Position::First) => true,
        (Position::Next, Position::Next) => true,
        _ => false,
    }
}

/// Whether two operation descriptors describe the same operation.
pub fn op_eq(a: &Op, b: &Op) -> (r: bool)
    ensures
        r == op_matches(*a, *b),
{
    match a {
        Op::Compact => match b {
            Op::Compact => true,
            _ => false,
        },
        Op::CurGet(p) => match b {
            Op::CurGet(q) => position_eq(p, q),
            _ => false,
        },
        Op::CurOpen => match b {
            Op::CurOpen => true,
            _ => false,
        },
        Op::Open => match b {
            Op::Open => true,
            _ => false,
        },
        Op::Revert => match b {
            Op::Revert => true,
            _ => false,
        },
        Op::Sync => match b {
            Op::Sync => true,
            _ => false,
        },
        Op::TxnBegin => match b {
            Op::TxnBegin => true,
            _ => false,
        },
        Op::TxnCommit => match b {
            Op::TxnCommit => true,
            _ => false,
        },
        Op::TxnDel => match b {
            Op::TxnDel => true,
            _ => false,
        },
        Op::TxnGet => match b {
            Op::TxnGet => true,
            _ => false,
        },
        Op::TxnPut => match b {
            Op::TxnPut => true,
            _ => false,
        },
        Op::Other(s) => match b {
            Op::Other(t) => *s == *t,
            _ => false,
        },
    }
}

impl PartialEq for Error {
    fn eq(&self, other: &Error) -> (r: bool) {
        if matches!(self.kind, ErrorKind::Other) || matches!(other.kind, ErrorKind::Other) {
            if self.code > 0 && other.code > 0 {
                self.code == other.code
            } else {
                op_eq(&self.op, &other.op)
            }
        } else {
            self.kind == other.kind
        }
    }
}

impl vstd::std_specs::cmp::PartialEqSpecImpl for Error {
    open spec fn obeys_eq_spec() -> bool {
        true
    }

    open spec fn eq_spec(&self, other: &Error) -> bool {
        error_matches(*self, *other)
    }
}

impl PartialEq<ErrorKind> for Error {
    fn eq(&self, other: &ErrorKind) -> (r: bool) {
        self.kind == *other
    }
}

impl vstd::std_specs::cmp::PartialEqSpecImpl<ErrorKind> for Error {
    open spec fn obeys_eq_spec() -> bool {
        true
    }

    open spec fn eq_spec(&self, other: &ErrorKind) -> bool {
        self.kind == *other
    }
}

impl From<Error> for ErrorKind {
    fn from(error: Error) -> (r: ErrorKind) {
        error.kind
    }
}

impl vstd::std_specs::convert::FromSpecImpl<Error> for ErrorKind {
    open spec fn obeys_from_spec() -> bool {
        true
    }

    open spec fn from_spec(error: Error) -> ErrorKind {
        error.kind
    }
}

impl From<ErrorKind> for Error {
    fn from(kind: ErrorKind) -> (r: Error) {
        Error::from_kind(kind)
    }
}

impl vstd::std_specs::convert::FromSpecImpl<ErrorKind> for Error {
    open spec fn obeys_from_spec() -> bool {
        // The produced error carries a free-form text; a specification
        // cannot name that text as a value, so nothing is promised here.
        // `Error::from_kind` states the contract.
        false
    }

    open spec fn from_spec(kind: ErrorKind) -> Error {
        arbitrary()
    }
}

/// Turns an engine status code into a result: zero is success, anything
/// else classifies the system error code captured right after the call.
pub fn result_from_int(res: i32, code: i32, op: Op) -> (r: Result<(), Error>)
    ensures
        res == 0 ==> r is Ok,
        res != 0 ==> (r matches Err(e) && e.code == code && e.kind == kind_of_code(code) && e.op
            == op),
{
    if res == 0 {
        Ok(())
    } else {
        Err(Error::new(code, op))
    }
}

} // verus!
