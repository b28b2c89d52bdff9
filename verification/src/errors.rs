//! The error taxonomy shared by every storage operation.

use vstd::prelude::*;

verus! {

/// Why a storage operation failed.
#[derive(Debug, Clone)]
pub enum StorageError {
    /// A category's partition is absent from the opened physical store: a
    /// configuration or versioning mismatch, fatal at construction
    /// granularity.
    CategoryNotFound,
    /// Stored bytes could not be decoded back into the domain type: data
    /// corruption or a schema mismatch, never a missing-key condition.
    Codec,
    /// The underlying storage engine reported a failure (I/O error, disk
    /// full, corruption). Propagated; the caller decides retry policy.
    Backend(String),
    /// A batch's key list and mutation list differ in length. Rejected
    /// before any write occurs; fully recoverable by the caller.
    BatchLengthMismatch,
    /// A facade accessor promised a value that the store does not hold.
    NotFound,
}

impl StorageError {
    /// The words a log line would carry for this error.
    pub open spec fn spec_message(&self) -> Seq<char> {
        match self {
            StorageError::CategoryNotFound => "category not found"@,
            StorageError::Codec => "codec failed"@,
            StorageError::Backend(m) => m@,
            StorageError::BatchLengthMismatch => "batch length dont match"@,
            StorageError::NotFound => "value not found"@,
        }
    }

    /// Describes the error in words.
    pub fn message(&self) -> (s: String)
        ensures
            s@ == self.spec_message(),
    {
        match self {
            StorageError::CategoryNotFound => "category not found".to_owned(),
            StorageError::Codec => "codec failed".to_owned(),
            StorageError::Backend(m) => m.clone(),
            StorageError::BatchLengthMismatch => "batch length dont match".to_owned(),
            StorageError::NotFound => "value not found".to_owned(),
        }
    }
}

} // verus!
