//! Errors of the storage backends and of a sync pass.
use vstd::prelude::*;

verus! {

/// Failure of a remote storage backend operation.
#[derive(Clone, Debug, PartialEq, Eq)]
pub enum ObjectStorageError {
    /// The configured bucket does not exist.
    NoSuchBucket(String),
    /// Transport, dispatch or timeout failure.
    ConnectionError(String),
    /// The backend refused the credentials.
    AuthenticationError(String),
    /// Failure of the local filesystem.
    IoError(String),
    /// A malformed JSON or schema document.
    SerializationError(String),
    /// Failure of SQL planning or execution.
    DataFusionError(String),
    /// Any backend response that has no kind of its own.
    UnhandledError(String),
}

/// Failure that ends a sync pass.
#[derive(Clone, Debug, PartialEq, Eq)]
pub enum MoveDataError {
    /// A local segment file could not be opened.
    Open,
    /// The row-oriented stream of a local segment file is malformed.
    Arrow(String),
    /// Writing the columnar file failed.
    Parquet(String),
    /// An upload to the backend failed.
    ObjectStorage(ObjectStorageError),
    /// The columnar file could not be created.
    Create,
    /// The converted row-oriented file could not be deleted.
    Delete,
}

} // verus!
