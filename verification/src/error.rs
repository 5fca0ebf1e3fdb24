//! The error type shared by the catalogue, configuration and document modules.
use vstd::prelude::*;

verus! {

/// What can go wrong in the Atlas. Errors of the storage, file and parsing layers
/// are carried by their message.
#[derive(Debug, Clone, PartialEq, Eq)]
pub enum AtlasError {
    Sqlite(String),
    Migration(String),
    WorkspaceAlreadyRegistered { detail: String },
    WorkspaceNotFound { workspace_id: String },
    PathEscape { detail: String },
    WriterLeaseHeld { holder: String },
    WriterLeaseExpired { stale_secs: i64 },
    GenerationStateInvalid { detail: String },
    ActiveGenerationMismatch { detail: String },
    InvalidConfig(String),
    Io(String),
    Serde(String),
    Toml(String),
    Other(String),
}

/// The result is a refusal as an invalid configuration, with this message.
pub open spec fn refused_as_invalid<T>(r: Result<T, AtlasError>, message: Seq<char>) -> bool {
    r matches Err(AtlasError::InvalidConfig(m)) && m@ == message
}

/// The result is a failure with this message.
pub open spec fn failed<T>(r: Result<T, AtlasError>, message: Seq<char>) -> bool {
    r matches Err(AtlasError::Other(m)) && m@ == message
}

} // verus!
