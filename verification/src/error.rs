//! Error taxonomy shared by every backend.
use vstd::prelude::*;

verus! {

/// What an operation on an interface can fail with.
///
/// `Unknown` and `Io` carry the raw OS error code so that diagnostics are
/// not discarded.
#[derive(Debug, Clone, Copy, PartialEq, Eq, Structural)]
pub enum Error {
    /// A caller-supplied name or value failed local validation.
    InvalidParameter,
    /// An OS structure came back but could not be converted to the data model.
    UnexpectedMetadata,
    /// The OS reports that the index or name does not currently exist.
    InterfaceNotFound,
    /// An OS status code outside the recognized set; the errno is kept.
    Unknown(i32),
    /// A local socket or filesystem failure; the errno is kept.
    Io(i32),
    /// The operation needs elevated privileges.
    AccessDenied,
}

impl Error {
    /// Maps an errno from a failed OS call to the taxonomy, as the backends
    /// do for any status outside the recognized set.
    pub fn from_errno(code: i32) -> (r: Error)
        ensures
            r == Error::Unknown(code),
    {
        Error::Unknown(code)
    }

    /// Maps an errno from a failed local socket operation.
    pub fn from_io(code: i32) -> (r: Error)
        ensures
            r == Error::Io(code),
    {
        Error::Io(code)
    }
}

} // verus!
