use vstd::prelude::*;

verus! {

/// The high-level category of a failure.
#[derive(Debug, Clone, Copy, PartialEq, Eq, Structural)]
pub enum EntailErrorKind {
    /// An error of an indeterminate or unexpected nature.
    Unknown,
    /// The operation required an entity to exist in the store, but it was not found.
    RequiredEntityNotFound,
    /// The underlying store call failed; `ds_error` carries the transport failure.
    RequestFailure,
    /// The transaction was retried the maximum allowed number of times without success.
    RetriesExhausted,
    /// The kind of the entity being deserialized does not match the expected kind.
    EntityKindMismatch,
    /// A property value could not be converted to or from its mapped field type.
    PropertyMappingError,
}

impl Default for EntailErrorKind {
    fn default() -> (r: Self)
        ensures
            r == EntailErrorKind::Unknown,
    {
        EntailErrorKind::Unknown
    }
}

/// A failure reported by the transport that carries the store's reply.
///
/// The transport classifies its failures with an optional status code string
/// (for example `ABORTED` or `UNAVAILABLE`); the transaction runner bases its
/// retry decision on that status alone.
#[derive(Debug, Clone)]
pub struct DsError {
    /// The status code string of the reply, when the failure carried one.
    pub status: Option<String>,
    /// A human-readable description of the transport failure.
    pub detail: String,
}

/// The primary error type for operations that can fail.
#[derive(Debug)]
pub struct EntailError {
    /// The general category of the error.
    pub kind: EntailErrorKind,
    /// A human-readable message describing the error.
    pub message: String,
    /// The underlying transport failure, when the error came from a store call.
    pub ds_error: Option<DsError>,
}

impl EntailError {
    /// Creates an error of the given kind with no underlying transport failure.
    pub fn simple(kind: EntailErrorKind, message: String) -> (r: Self)
        ensures
            r.kind == kind,
            r.message@ == message@,
            r.ds_error is None,
    {
        EntailError { kind, message, ds_error: None }
    }
}

} // verus!
