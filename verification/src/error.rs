//! Error taxonomy of the library.
//!
//! Every failure of configuration resolution is an `InvalidConfig` error;
//! a failure reported by the storage-operator builder is an `OpenDalError`.

use vstd::prelude::*;

verus! {

/// The kind of a library error.
#[derive(Clone, Copy, Debug, PartialEq, Eq, Structural)]
pub enum ErrorCode {
    /// A location string could not be parsed, lacked a host or a region
    /// segment, or the catalog carried neither a region nor an endpoint.
    InvalidConfig,
    /// The storage-operator builder rejected the resolved parameters.
    OpenDalError,
}

/// An error of this library: a kind together with a human-readable message.
#[derive(Debug)]
pub struct GvfsError {
    pub code: ErrorCode,
    pub message: String,
}

impl ErrorCode {
    /// Attach a message to this error kind.
    pub fn to_error(self, message: String) -> (r: GvfsError)
        ensures
            r.code == self,
            r.message@ == message@,
    {
        GvfsError { code: self, message }
    }
}

/// Result type used throughout the library.
pub type GvfsResult<T> = Result<T, GvfsError>;

} // verus!
