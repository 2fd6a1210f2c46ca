//! The kinds of failure that callers tell apart.

use vstd::prelude::*;

verus! {

/// What sort of failure an error is, in the terms of `std::io`.
#[derive(Debug, Clone, Copy, PartialEq, Eq, Structural)]
pub enum ErrorKind {
    /// The other side sent something that cannot be understood.
    InvalidData,
    /// A path or an argument cannot be used.
    InvalidInput,
    /// Something belongs to another user.
    PermissionDenied,
    /// A socket is in use by a running process.
    AddrInUse,
}

} // verus!
