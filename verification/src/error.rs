//! Errors of the core.
use vstd::prelude::*;

verus! {

/// Filesystem errors with a POSIX meaning.
#[derive(Debug)]
pub enum FsError {
    NotFound,
    AlreadyExists,
    NotEmpty,
    NotADirectory,
    IsADirectory,
    NotASymlink,
    InvalidPath,
    InvalidRename,
    RootOperation,
    NameTooLong,
    CrossDevice,
    PermissionDenied,
    OperationNotPermitted,
    Corrupt(String),
}

/// Errors of the core as a whole.
#[derive(Debug)]
pub enum Error {
    Fs(FsError),
    Internal(String),
    SchemaVersionMismatch { found: String, expected: String },
    ConnectionPoolTimeout,
    InvalidAgentId(String),
    AgentNotFound { id: String, path: String },
    DatabaseNotFound(String),
    InvalidUtf8Path(String),
    ToolCallNotFound,
    /// Text that should be JSON and is not, with what is wrong with it.
    Json(String),
}

/// An internal error whose message is `message`.
pub open spec fn is_internal(error: Error, message: Seq<char>) -> bool {
    error matches Error::Internal(text) && text@ == message
}

} // verus!
