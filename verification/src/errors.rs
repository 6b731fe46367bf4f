//! Error taxonomy of the storage layer.
//!
//! Every operation reports failure as a typed outcome; nothing here aborts
//! the process. The surrounding service maps each kind to a user-visible
//! response.

use vstd::prelude::*;

verus! {

/// The kinds of failure a storage operation can report.
#[derive(Clone, Copy, Debug, PartialEq, Eq, Structural)]
pub enum RustusError {
    /// The operation referenced an unknown or already-removed upload id.
    NotFound,
    /// An invalid backend selector, or a backend resource unavailable at
    /// `prepare` time; fatal, surfaces before the service starts serving.
    ConfigurationError,
    /// An underlying filesystem or database operation failed.
    IOError,
    /// An append at the wrong offset, a write that would exceed a declared
    /// length, or a descriptor update that would contradict the stored state.
    IntegrityError,
}

/// Outcome of a storage operation.
pub type RustusResult<T> = Result<T, RustusError>;

impl RustusError {
    /// A short fixed name for the error kind, for messages assembled by the
    /// surrounding service.
    pub fn kind_name(&self) -> (r: &'static str)
        ensures
            *self == RustusError::NotFound ==> r@ == "not found"@,
            *self == RustusError::ConfigurationError ==> r@ == "configuration error"@,
            *self == RustusError::IOError ==> r@ == "input/output error"@,
            *self == RustusError::IntegrityError ==> r@ == "integrity error"@,
    {
        match self {
            RustusError::NotFound => "not found",
            RustusError::ConfigurationError => "configuration error",
            RustusError::IOError => "input/output error",
            RustusError::IntegrityError => "integrity error",
        }
    }
}

} // verus!
