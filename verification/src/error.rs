//! The ways in which an operation on the ledger fails.

use vstd::prelude::*;

verus! {

/// The five classes of failure.
#[derive(Clone, Copy, Debug, PartialEq, Eq, Structural)]
pub enum ErrorKind {
    /// An id, a file, a script or the ledger is missing.
    NotFound,
    /// An equal entry is already stored, or the ledger already exists.
    AlreadyExists,
    /// The arguments do not fit together.
    InvalidArgument,
    /// A script could not be started or reported failure.
    ExecutionFailure,
    /// A checkout, or the restoration after it, could not be completed.
    VersionControlFailure,
}

/// A failure, with what it is about.
#[derive(Clone, Copy, Debug, PartialEq, Eq, Structural)]
pub enum DbError {
    /// A ledger already stands at the given place.
    LedgerExists,
    /// No ledger stands at the given place.
    LedgerMissing,
    /// A dataset was given no path.
    NoDataPaths,
    /// A transform was given no script.
    NoScriptPaths,
    /// Scripts, arguments and commit hashes differ in number.
    LengthMismatch,
    /// A connection was given no id at all.
    NoIds,
    /// The path at this position among those given does not exist.
    PathMissing(usize),
    /// The script at this position does not exist.
    ScriptMissing(usize),
    /// The script at this position is not a regular file.
    ScriptNotAFile(usize),
    /// An equal dataset is stored under this id.
    DataExists(u64),
    /// An equal transform is stored under this id.
    TransformExists(u64),
    /// An equal connection is stored under this id.
    ConnectionExists(u64),
    /// No dataset has this id.
    DataMissing(u64),
    /// No transform has this id.
    TransformMissing(u64),
    /// No dataset has this id, named as an input of a connection.
    InputDataMissing(u64),
    /// No dataset has this id, named as an output of a connection.
    OutputDataMissing(u64),
    /// No transform has this id, named as an input of a connection.
    InputTransformMissing(u64),
    /// No transform has this id, named as an output of a connection.
    OutputTransformMissing(u64),
    /// The script at this position could not be started.
    LaunchFailed(usize),
    /// The script at this position ended with a failure status.
    ScriptFailed(usize),
    /// The output of the script at this position names a path that is not text.
    OutputNotText(usize),
    /// A pattern of the library was refused by the pattern engine.
    BadPattern,
    /// The pinned commit of the script at this position is not a commit id.
    BadCommitId(usize),
    /// The repository of the script at this position could not be brought to
    /// its pinned commit.
    CheckoutFailed(usize),
    /// The repository of the script at this position could not be brought
    /// back to where it was.
    RestoreFailed(usize),
    /// The reply does not answer the request that was made.
    UnexpectedReply,
}

impl DbError {
    /// The class of this failure.
    pub open spec fn spec_kind(self) -> ErrorKind {
        match self {
            DbError::LedgerExists => ErrorKind::AlreadyExists,
            DbError::LedgerMissing => ErrorKind::NotFound,
            DbError::NoDataPaths => ErrorKind::InvalidArgument,
            DbError::NoScriptPaths => ErrorKind::InvalidArgument,
            DbError::LengthMismatch => ErrorKind::InvalidArgument,
            DbError::NoIds => ErrorKind::InvalidArgument,
            DbError::PathMissing(_) => ErrorKind::NotFound,
            DbError::ScriptMissing(_) => ErrorKind::NotFound,
            DbError::ScriptNotAFile(_) => ErrorKind::NotFound,
            DbError::DataExists(_) => ErrorKind::AlreadyExists,
            DbError::TransformExists(_) => ErrorKind::AlreadyExists,
            DbError::ConnectionExists(_) => ErrorKind::AlreadyExists,
            DbError::DataMissing(_) => ErrorKind::NotFound,
            DbError::TransformMissing(_) => ErrorKind::NotFound,
            DbError::InputDataMissing(_) => ErrorKind::NotFound,
            DbError::OutputDataMissing(_) => ErrorKind::NotFound,
            DbError::InputTransformMissing(_) => ErrorKind::NotFound,
            DbError::OutputTransformMissing(_) => ErrorKind::NotFound,
            DbError::LaunchFailed(_) => ErrorKind::ExecutionFailure,
            DbError::ScriptFailed(_) => ErrorKind::ExecutionFailure,
            DbError::OutputNotText(_) => ErrorKind::ExecutionFailure,
            DbError::BadPattern => ErrorKind::ExecutionFailure,
            DbError::BadCommitId(_) => ErrorKind::VersionControlFailure,
            DbError::CheckoutFailed(_) => ErrorKind::VersionControlFailure,
            DbError::RestoreFailed(_) => ErrorKind::VersionControlFailure,
            DbError::UnexpectedReply => ErrorKind::InvalidArgument,
        }
    }

    /// The class of this failure.
    #[verifier::when_used_as_spec(spec_kind)]
    pub fn kind(self) -> (k: ErrorKind)
        ensures
            k == self.spec_kind(),
    {
        match self {
            DbError::LedgerExists => ErrorKind::AlreadyExists,
            DbError::LedgerMissing => ErrorKind::NotFound,
            DbError::NoDataPaths => ErrorKind::InvalidArgument,
            DbError::NoScriptPaths => ErrorKind::InvalidArgument,
            DbError::LengthMismatch => ErrorKind::InvalidArgument,
            DbError::NoIds => ErrorKind::InvalidArgument,
            DbError::PathMissing(_) => ErrorKind::NotFound,
            DbError::ScriptMissing(_) => ErrorKind::NotFound,
            DbError::ScriptNotAFile(_) => ErrorKind::NotFound,
            DbError::DataExists(_) => ErrorKind::AlreadyExists,
            DbError::TransformExists(_) => ErrorKind::AlreadyExists,
            DbError::ConnectionExists(_) => ErrorKind::AlreadyExists,
            DbError::DataMissing(_) => ErrorKind::NotFound,
            DbError::TransformMissing(_) => ErrorKind::NotFound,
            DbError::InputDataMissing(_) => ErrorKind::NotFound,
            DbError::OutputDataMissing(_) => ErrorKind::NotFound,
            DbError::InputTransformMissing(_) => ErrorKind::NotFound,
            DbError::OutputTransformMissing(_) => ErrorKind::NotFound,
            DbError::LaunchFailed(_) => ErrorKind::ExecutionFailure,
            DbError::ScriptFailed(_) => ErrorKind::ExecutionFailure,
            DbError::OutputNotText(_) => ErrorKind::ExecutionFailure,
            DbError::BadPattern => ErrorKind::ExecutionFailure,
            DbError::BadCommitId(_) => ErrorKind::VersionControlFailure,
            DbError::CheckoutFailed(_) => ErrorKind::VersionControlFailure,
            DbError::RestoreFailed(_) => ErrorKind::VersionControlFailure,
            DbError::UnexpectedReply => ErrorKind::InvalidArgument,
        }
    }
}

} // verus!
