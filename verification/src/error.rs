use vstd::prelude::*;

verus! {

/// Tagged error type used by every fallible operation of this crate.
///
/// Each variant carries a human-readable message describing the failure.
#[derive(Debug, PartialEq, Eq)]
pub enum AppError {
    /// A plugin identifier is malformed.
    InvalidIdentifier(String),
    /// The target of an uninstall or lookup does not exist.
    NotFound(String),
    /// A download failed: timeout, transport error or non-success status.
    Network(String),
    /// A required archive file is missing, a manifest failed to parse, or
    /// the manifest identity does not match the directory name.
    Validation(String),
    /// A bad format signature, an oversized payload, or a path-traversal
    /// attempt inside an archive.
    Integrity(String),
    /// A filesystem or database failure.
    Storage(String),
}

pub type AppResult<T> = Result<T, AppError>;

impl AppError {
    /// The message carried by the error, whichever variant it is.
    pub open spec fn spec_message(&self) -> Seq<char> {
        match self {
            AppError::InvalidIdentifier(m) => m@,
            AppError::NotFound(m) => m@,
            AppError::Network(m) => m@,
            AppError::Validation(m) => m@,
            AppError::Integrity(m) => m@,
            AppError::Storage(m) => m@,
        }
    }

    /// Returns the descriptive message of this error.
    pub fn message(&self) -> (m: &String)
        ensures
            m@ == self.spec_message(),
    {
        match self {
            AppError::InvalidIdentifier(m) => m,
            AppError::NotFound(m) => m,
            AppError::Network(m) => m,
            AppError::Validation(m) => m,
            AppError::Integrity(m) => m,
            AppError::Storage(m) => m,
        }
    }
}

} // verus!
