//! Errors of the application boundary.
use vstd::prelude::*;

use crate::application_cursor::ApplicationCursorError;
use crate::context_route::ContextRouteError;
use crate::error::AtlasError;

verus! {

/// A destructive operation refused at the boundary.
#[derive(Debug)]
pub enum ApplicationBoundaryError {
    LiteralConfirmation { operation: &'static str, required: &'static str },
    ManifestMismatch { operation: &'static str, expected: String, found: String },
    UnregisterUnavailable { reason: String },
}

impl ApplicationBoundaryError {
    /// What the refusal says.
    pub open spec fn text(self) -> Seq<char> {
        match self {
            ApplicationBoundaryError::LiteralConfirmation { operation, required } => {
                operation@ + " requires literal "@ + required@ + " confirmation"@
            },
            ApplicationBoundaryError::ManifestMismatch { operation, expected, found } => {
                operation@ + " manifest mismatch: expected "@ + expected@ + ", found "@ + found@
            },
            ApplicationBoundaryError::UnregisterUnavailable { reason } => {
                "unregister_unavailable: "@ + reason@
            },
        }
    }

    pub fn message(&self) -> (r: String)
        ensures
            r@ == self.text(),
    {
        let mut out = String::new();
        match self {
            ApplicationBoundaryError::LiteralConfirmation { operation, required } => {
                out.append(operation);
                out.append(" requires literal ");
                out.append(required);
                out.append(" confirmation");
            },
            ApplicationBoundaryError::ManifestMismatch { operation, expected, found } => {
                out.append(operation);
                out.append(" manifest mismatch: expected ");
                out.append(expected.as_str());
                out.append(", found ");
                out.append(found.as_str());
            },
            ApplicationBoundaryError::UnregisterUnavailable { reason } => {
                out.append("unregister_unavailable: ");
                out.append(reason.as_str());
            },
        }
        assert(out@ =~= self.text());
        out
    }
}

/// Why a task session cannot be shown or moved on. Storage errors are carried by
/// their message.
#[derive(Debug)]
pub enum LegacyLifecycleError {
    Atlas(AtlasError),
    Sqlite(String),
    DurableContractUnavailable,
    CursorInvalid,
    CursorStale,
}

/// Why an application request fails. Storage and serialization errors are carried
/// by their message.
#[derive(Debug)]
pub enum CatalogueContextApplicationError {
    Route(ContextRouteError),
    Atlas(AtlasError),
    Cursor(ApplicationCursorError),
    Lifecycle(LegacyLifecycleError),
    Sqlite(String),
    Serde(String),
    Boundary(ApplicationBoundaryError),
}

/// The result is a refusal as an invalid configuration, with this message.
pub open spec fn refused<T>(
    r: Result<T, CatalogueContextApplicationError>,
    message: Seq<char>,
) -> bool {
    r matches Err(CatalogueContextApplicationError::Atlas(AtlasError::InvalidConfig(m))) && m@
        == message
}

/// A refusal as an invalid configuration.
pub fn refuse(message: &str) -> (r: CatalogueContextApplicationError)
    ensures
        r matches CatalogueContextApplicationError::Atlas(AtlasError::InvalidConfig(m)) && m@
            == message@,
{
    CatalogueContextApplicationError::Atlas(AtlasError::InvalidConfig(message.to_string()))
}

} // verus!
