//! The kinds of I/O failure that actors tell apart.
use vstd::prelude::*;

verus! {

/// What kind of failure an operation of the system reported.
#[derive(Debug, Clone, Copy, PartialEq, Eq, Structural)]
pub enum IoErrorKind {
    NotFound,
    PermissionDenied,
    ConnectionRefused,
    ConnectionReset,
    ConnectionAborted,
    BrokenPipe,
    TimedOut,
    Other,
}

} // verus!
