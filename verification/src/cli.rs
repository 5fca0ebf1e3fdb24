//! The command line: its commands, the checks that they make before any work is
//! done, and the words and codes in which they fail.
use vstd::prelude::*;

pub use crate::doctor::{
    build_doctor_output, build_status_output, status_by_workspace_id, status_output_for,
    DoctorOutput, StatusOutput,
};

use crate::application_cursor::ApplicationCursorError;
use crate::application_error::{
    ApplicationBoundaryError, CatalogueContextApplicationError, LegacyLifecycleError,
};
use crate::broker;
use crate::broker::{
    build_packet, BrokerMode, ContextPacket, GenerationFacts, PacketScope, TaskRequest,
};
use crate::catalogue_route::workspace_default_display_name;
use crate::config::Config;
use crate::context_ir;
use crate::context_ir::{
    debug_text, ContextIr, TaskKind, TaskKindSource, TaskSessionState,
};
use crate::context_route::{
    ContextRouteError, DEFAULT_APPLICATION_PAGE_LIMIT, MAX_APPLICATION_PAGE_LIMIT,
};
use crate::digest;
use crate::digest::bytes_of_text;
use crate::error;
use crate::error::AtlasError;
use crate::naming::{name_parts, named_by, NameRequest};
use crate::paths;
use crate::text;
use crate::text::{append_signed, chars_of, join2, join3, text_eq, text_of_range};

verus! {

/// The longest request document.
pub const MAX_REQUEST_DOCUMENT_BYTES: u64 = 1_048_576;

/// The longest detail of an error that is not the Atlas's own.
pub const MAX_ADDITIVE_ERROR_DETAIL_BYTES: usize = 1024;

#[derive(Debug)]
pub struct Cli {
    pub command: Command,
}

#[derive(Debug)]
pub enum GovernorCommand {
    Capabilities { workspace_root: String, catalogue: Option<String> },
    Run {
        workspace_root: String,
        request: String,
        catalogue: Option<String>,
        materialize_source: bool,
        max_materialized_bytes: Option<u64>,
    },
}

#[derive(Debug)]
pub enum TaskCommand {
    Start { workspace_root: String, request: String, catalogue: Option<String> },
    Show {
        workspace_root: String,
        session_id: String,
        limit: usize,
        cursor: Option<String>,
        catalogue: Option<String>,
    },
    Complete {
        workspace_root: String,
        session_id: String,
        request: String,
        catalogue: Option<String>,
    },
    Abandon {
        workspace_root: String,
        session_id: String,
        reason_code: CliAbandonReason,
        catalogue: Option<String>,
    },
}

#[derive(Debug, Clone, Copy, PartialEq, Eq, Structural)]
pub enum CliAbandonReason {
    UserRequested,
    InactivityTimeout,
}

#[derive(Debug)]
pub enum CompiledContextCommand {
    Show {
        workspace_root: String,
        context_id: Option<String>,
        session_id: Option<String>,
        limit: usize,
        cursor: Option<String>,
        catalogue: Option<String>,
    },
}

#[derive(Debug)]
pub enum ContextYieldCommand {
    Show {
        workspace_root: String,
        session_id: String,
        limit: usize,
        cursor: Option<String>,
        catalogue: Option<String>,
    },
}

#[derive(Debug)]
pub enum RetentionCommand {
    Status {
        workspace_root: String,
        limit: usize,
        cursor: Option<String>,
        catalogue: Option<String>,
    },
    Compact {
        workspace_root: String,
        dry_run: bool,
        confirm_manifest: Option<String>,
        confirm_privacy_deletion: bool,
        limit: Option<usize>,
        cursor: Option<String>,
        catalogue: Option<String>,
    },
}

#[derive(Debug)]
pub enum Command {
    /// Register a workspace and create the catalogue.
    Init {
        workspace_root: String,
        display_name: Option<String>,
        config: Option<String>,
        catalogue: Option<String>,
        human: bool,
    },
    /// Report workspace status, active generation, integrity.
    Status { workspace_root: String, catalogue: Option<String>, human: bool },
    /// Atomically reconcile file and provider changes into a new active generation.
    Reconcile {
        workspace_root: String,
        config: Option<String>,
        catalogue: Option<String>,
        human: bool,
    },
    /// Report database health.
    Doctor { workspace_root: String, catalogue: Option<String>, human: bool },
    /// Search current symbols by display-name substring.
    Find {
        workspace_root: String,
        query: String,
        limit: i64,
        task_session_id: Option<String>,
        catalogue: Option<String>,
        human: bool,
    },
    /// Inspect a path, or a symbol in place of one.
    Inspect {
        workspace_root: String,
        path: Option<String>,
        symbol: Option<String>,
        task_session_id: Option<String>,
        catalogue: Option<String>,
        human: bool,
    },
    /// Bounded relationship traversal from a seed path.
    Trace {
        workspace_root: String,
        path: String,
        direction: String,
        max_depth: i64,
        max_records: i64,
        task_session_id: Option<String>,
        catalogue: Option<String>,
        human: bool,
    },
    /// Bounded change frontier for one or more seed paths.
    Impact { workspace_root: String, paths: Vec<String>, catalogue: Option<String>, human: bool },
    /// Exact source with hash verification.
    Source {
        workspace_root: String,
        path: String,
        task_session_id: Option<String>,
        catalogue: Option<String>,
        human: bool,
    },
    /// Build a bounded Context Packet for a task.
    Context {
        workspace_root: String,
        task: String,
        mode: String,
        path: Vec<String>,
        symbol: Vec<String>,
        max_records: i64,
        max_source_bytes: i64,
        max_token_estimate: i64,
        catalogue: Option<String>,
        human: bool,
    },
    /// Lifecycle history: renames, deletions, tombstones.
    History {
        workspace_root: String,
        path: Option<String>,
        limit: i64,
        catalogue: Option<String>,
        human: bool,
    },
    /// Provider capability and status.
    Providers { workspace_root: String, catalogue: Option<String>, human: bool },
    /// Compile deterministic, generation-bound Context IR.
    ContextIr {
        workspace_root: String,
        task: String,
        task_kind: Option<String>,
        path: Vec<String>,
        symbol: Vec<String>,
        max_records: i64,
        max_source_bytes: i64,
        max_estimated_tokens: i64,
        catalogue: Option<String>,
        human: bool,
    },
    /// Build the Serving Plane for the active generation.
    ServingBuild { workspace_root: String, catalogue: Option<String>, human: bool },
    /// Diff two committed generations into a Generation Delta.
    GenerationDelta {
        workspace_root: String,
        from: String,
        to: String,
        catalogue: Option<String>,
        human: bool,
    },
    /// Explain bounded changes and live-verified unchanged contracts.
    Temporal {
        workspace_root: String,
        from: Option<String>,
        max_records: i64,
        catalogue: Option<String>,
        human: bool,
    },
    /// Discover the frozen Context Governor contract or execute it.
    Governor { command: GovernorCommand },
    /// Operate the explicit legacy task lifecycle.
    Task { command: TaskCommand },
    /// Read persisted legacy compiled context.
    CompiledContext { command: CompiledContextCommand },
    /// Read bounded Context Yield evidence.
    ContextYield { command: ContextYieldCommand },
    /// Read bounded Serving Plane readiness.
    ServingStatus {
        workspace_root: String,
        limit: usize,
        cursor: Option<String>,
        catalogue: Option<String>,
    },
    /// Inspect or apply privacy retention.
    Retention { command: RetentionCommand },
    /// Preview catalogue unregister or invoke its fail-closed apply boundary.
    Unregister {
        workspace_root: String,
        dry_run: bool,
        confirm_manifest: Option<String>,
        irreversible: bool,
        limit: Option<usize>,
        cursor: Option<String>,
        catalogue: Option<String>,
    },
}

// ---------------------------------------------------------------------------
// Errors
// ---------------------------------------------------------------------------

/// Why a command fails.
#[derive(Debug)]
pub enum CliError {
    Atlas(AtlasError),
    Application(CatalogueContextApplicationError),
}

/// The code of an Atlas error.
pub open spec fn kind_text(error: AtlasError) -> Seq<char> {
    match error {
        AtlasError::Sqlite(_) => "sqlite"@,
        AtlasError::Migration(_) => "migration"@,
        AtlasError::WorkspaceAlreadyRegistered { .. } => "workspace_already_registered"@,
        AtlasError::WorkspaceNotFound { .. } => "workspace_not_found"@,
        AtlasError::PathEscape { .. } => "path_escape"@,
        AtlasError::WriterLeaseHeld { .. } => "writer_lease_held"@,
        AtlasError::WriterLeaseExpired { .. } => "writer_lease_expired"@,
        AtlasError::GenerationStateInvalid { .. } => "generation_state_invalid"@,
        AtlasError::ActiveGenerationMismatch { .. } => "active_generation_mismatch"@,
        AtlasError::InvalidConfig(_) => "invalid_config"@,
        AtlasError::Io(_) => "io"@,
        AtlasError::Serde(_) => "serde"@,
        AtlasError::Toml(_) => "toml"@,
        AtlasError::Other(_) => "other"@,
    }
}

/// The code of an Atlas error.
pub fn error_kind(error: &AtlasError) -> (r: &'static str)
    ensures
        r@ == kind_text(*error),
{
    match error {
        AtlasError::Sqlite(_) => "sqlite",
        AtlasError::Migration(_) => "migration",
        AtlasError::WorkspaceAlreadyRegistered { .. } => "workspace_already_registered",
        AtlasError::WorkspaceNotFound { .. } => "workspace_not_found",
        AtlasError::PathEscape { .. } => "path_escape",
        AtlasError::WriterLeaseHeld { .. } => "writer_lease_held",
        AtlasError::WriterLeaseExpired { .. } => "writer_lease_expired",
        AtlasError::GenerationStateInvalid { .. } => "generation_state_invalid",
        AtlasError::ActiveGenerationMismatch { .. } => "active_generation_mismatch",
        AtlasError::InvalidConfig(_) => "invalid_config",
        AtlasError::Io(_) => "io",
        AtlasError::Serde(_) => "serde",
        AtlasError::Toml(_) => "toml",
        AtlasError::Other(_) => "other",
    }
}

/// The code of a route error.
pub open spec fn route_kind_text(error: ContextRouteError) -> Seq<char> {
    match error {
        ContextRouteError::UnsupportedVersion { .. } => "unsupported_version"@,
        ContextRouteError::NoCommonVersion { .. } => "no_common_version"@,
        ContextRouteError::FloorAboveCeiling => "floor_above_ceiling"@,
        ContextRouteError::IntentFloorConflict => "intent_floor_conflict"@,
        ContextRouteError::IntentCeilingConflict => "intent_ceiling_conflict"@,
        ContextRouteError::DeepBudgetRequired => "deep_budget_required"@,
        ContextRouteError::InvalidDeepBudget => "invalid_deep_budget"@,
        ContextRouteError::InvalidDeepBudgetDigest => "invalid_deep_budget_digest"@,
        ContextRouteError::InvalidIdentity => "invalid_identity"@,
        ContextRouteError::InvalidLightOperations => "invalid_light_operations"@,
        ContextRouteError::UnknownProfile => "unknown_profile"@,
        ContextRouteError::InvalidExecution => "invalid_execution"@,
    }
}

/// The code of a route error.
pub fn route_error_kind(error: &ContextRouteError) -> (r: &'static str)
    ensures
        r@ == route_kind_text(*error),
{
    match error {
        ContextRouteError::UnsupportedVersion { .. } => "unsupported_version",
        ContextRouteError::NoCommonVersion { .. } => "no_common_version",
        ContextRouteError::FloorAboveCeiling => "floor_above_ceiling",
        ContextRouteError::IntentFloorConflict => "intent_floor_conflict",
        ContextRouteError::IntentCeilingConflict => "intent_ceiling_conflict",
        ContextRouteError::DeepBudgetRequired => "deep_budget_required",
        ContextRouteError::InvalidDeepBudget => "invalid_deep_budget",
        ContextRouteError::InvalidDeepBudgetDigest => "invalid_deep_budget_digest",
        ContextRouteError::InvalidIdentity => "invalid_identity",
        ContextRouteError::InvalidLightOperations => "invalid_light_operations",
        ContextRouteError::UnknownProfile => "unknown_profile",
        ContextRouteError::InvalidExecution => "invalid_execution",
    }
}

/// The code of a lifecycle error.
pub open spec fn lifecycle_kind_text(error: LegacyLifecycleError) -> Seq<char> {
    match error {
        LegacyLifecycleError::Atlas(inner) => kind_text(inner),
        LegacyLifecycleError::Sqlite(_) => "sqlite"@,
        LegacyLifecycleError::DurableContractUnavailable => "durable_contract_unavailable"@,
        LegacyLifecycleError::CursorInvalid => "cursor_invalid"@,
        LegacyLifecycleError::CursorStale => "cursor_stale"@,
    }
}

/// The code of a lifecycle error.
pub fn lifecycle_error_kind(error: &LegacyLifecycleError) -> (r: &'static str)
    ensures
        r@ == lifecycle_kind_text(*error),
{
    match error {
        LegacyLifecycleError::Atlas(inner) => error_kind(inner),
        LegacyLifecycleError::Sqlite(_) => "sqlite",
        LegacyLifecycleError::DurableContractUnavailable => "durable_contract_unavailable",
        LegacyLifecycleError::CursorInvalid => "cursor_invalid",
        LegacyLifecycleError::CursorStale => "cursor_stale",
    }
}

/// The code of a refusal at the boundary.
pub open spec fn boundary_kind_text(error: ApplicationBoundaryError) -> Seq<char> {
    match error {
        ApplicationBoundaryError::LiteralConfirmation { .. } => "confirmation_required"@,
        ApplicationBoundaryError::ManifestMismatch { .. } => "manifest_mismatch"@,
        ApplicationBoundaryError::UnregisterUnavailable { .. } => "unregister_unavailable"@,
    }
}

/// The code of a refusal at the boundary.
pub fn boundary_error_kind(error: &ApplicationBoundaryError) -> (r: &'static str)
    ensures
        r@ == boundary_kind_text(*error),
{
    match error {
        ApplicationBoundaryError::LiteralConfirmation { .. } => "confirmation_required",
        ApplicationBoundaryError::ManifestMismatch { .. } => "manifest_mismatch",
        ApplicationBoundaryError::UnregisterUnavailable { .. } => "unregister_unavailable",
    }
}

/// The code of a cursor error.
pub open spec fn cursor_kind_text(error: ApplicationCursorError) -> Seq<char> {
    match error {
        ApplicationCursorError::Invalid => "cursor_invalid"@,
        ApplicationCursorError::Stale => "cursor_stale"@,
        ApplicationCursorError::Atlas(inner) => kind_text(inner),
        ApplicationCursorError::Sqlite(_) => "sqlite"@,
    }
}

/// The code of an application error.
pub open spec fn application_kind_text(error: CatalogueContextApplicationError) -> Seq<char> {
    match error {
        CatalogueContextApplicationError::Route(inner) => route_kind_text(inner),
        CatalogueContextApplicationError::Atlas(inner) => kind_text(inner),
        CatalogueContextApplicationError::Cursor(inner) => cursor_kind_text(inner),
        CatalogueContextApplicationError::Lifecycle(inner) => lifecycle_kind_text(inner),
        CatalogueContextApplicationError::Sqlite(_) => "sqlite"@,
        CatalogueContextApplicationError::Serde(_) => "serde"@,
        CatalogueContextApplicationError::Boundary(inner) => boundary_kind_text(inner),
    }
}

/// The code of an application error.
pub fn application_error_kind(error: &CatalogueContextApplicationError) -> (r: &'static str)
    ensures
        r@ == application_kind_text(*error),
{
    match error {
        CatalogueContextApplicationError::Route(inner) => route_error_kind(inner),
        CatalogueContextApplicationError::Atlas(inner) => error_kind(inner),
        CatalogueContextApplicationError::Cursor(inner) => match inner {
            ApplicationCursorError::Invalid => "cursor_invalid",
            ApplicationCursorError::Stale => "cursor_stale",
            ApplicationCursorError::Atlas(source) => error_kind(source),
            ApplicationCursorError::Sqlite(_) => "sqlite",
        },
        CatalogueContextApplicationError::Lifecycle(inner) => lifecycle_error_kind(inner),
        CatalogueContextApplicationError::Sqlite(_) => "sqlite",
        CatalogueContextApplicationError::Serde(_) => "serde",
        CatalogueContextApplicationError::Boundary(inner) => boundary_error_kind(inner),
    }
}

/// The code under which a command fails.
pub fn cli_error_kind(error: &CliError) -> (r: &'static str)
    ensures
        r@ == (match *error {
            CliError::Atlas(inner) => kind_text(inner),
            CliError::Application(inner) => application_kind_text(inner),
        }),
{
    match error {
        CliError::Atlas(inner) => error_kind(inner),
        CliError::Application(inner) => application_error_kind(inner),
    }
}

/// How many characters of a text fit into a number of bytes, given that `from` do.
pub open spec fn fitting(s: Seq<char>, limit: int, from: int) -> int
    decreases s.len() - from,
{
    if from >= s.len() || digest::text_field(s.take(from + 1)).len() > limit {
        from
    } else {
        fitting(s, limit, from + 1)
    }
}

/// The detail of an error as it is reported.
pub open spec fn reported_detail(error: CliError, detail: Seq<char>) -> Seq<char> {
    if error is Atlas || digest::text_field(detail).len() <= MAX_ADDITIVE_ERROR_DETAIL_BYTES {
        detail
    } else {
        detail.take(fitting(detail, MAX_ADDITIVE_ERROR_DETAIL_BYTES as int, 0))
    }
}

/// The detail of an error as it is reported: the Atlas's own errors whole, others cut
/// behind the last character that fits.
pub fn error_detail(error: &CliError, detail: String) -> (r: String)
    ensures
        r@ == reported_detail(*error, detail@),
{
    if matches!(error, CliError::Atlas(_)) || detail.as_str().as_bytes().len()
        <= MAX_ADDITIVE_ERROR_DETAIL_BYTES {
        return detail;
    }
    let chars = chars_of(detail.as_str());
    let total: usize = chars.len();
    let mut kept: usize = 0;
    while kept < total
        invariant
            kept <= total,
            total == chars@.len(),
            chars@ == detail@,
            reported_detail(*error, detail@) == detail@.take(
                fitting(detail@, MAX_ADDITIVE_ERROR_DETAIL_BYTES as int, kept as int),
            ),
        decreases total - kept,
    {
        let longer = text_of_range(&chars, 0, kept + 1);
        assert(longer@ =~= detail@.take(kept + 1));
        if bytes_of_text(longer.as_str()).len() > MAX_ADDITIVE_ERROR_DETAIL_BYTES {
            assert(detail@.take(kept as int) =~= chars@.subrange(0, kept as int));
            return text_of_range(&chars, 0, kept);
        }
        kept = kept + 1;
    }
    assert(detail@.take(kept as int) =~= chars@.subrange(0, kept as int));
    text_of_range(&chars, 0, kept)
}

proof fn lemma_fitting_bounds(s: Seq<char>, limit: int, from: int)
    requires
        0 <= from <= s.len(),
        digest::text_field(s.take(from)).len() <= limit,
    ensures
        from <= fitting(s, limit, from) <= s.len(),
        digest::text_field(s.take(fitting(s, limit, from))).len() <= limit,
    decreases s.len() - from,
{
    if !(from >= s.len() || digest::text_field(s.take(from + 1)).len() > limit) {
        lemma_fitting_bounds(s, limit, from + 1);
    }
}

/// The reported detail of an error that is not the Atlas's own never exceeds its
/// bound and is a beginning of the whole detail.
pub proof fn law_additive_details_are_bounded(error: CliError, detail: Seq<char>)
    requires
        error is Application,
    ensures
        digest::text_field(reported_detail(error, detail)).len() <= MAX_ADDITIVE_ERROR_DETAIL_BYTES,
        reported_detail(error, detail).len() <= detail.len(),
        reported_detail(error, detail) == detail.take(reported_detail(error, detail).len() as int),
{
    if digest::text_field(detail).len() <= MAX_ADDITIVE_ERROR_DETAIL_BYTES {
        assert(detail.take(detail.len() as int) =~= detail);
    } else {
        assert(detail.take(0) =~= Seq::empty());
        assert(digest::text_field(Seq::<char>::empty()).len() == 0);
        lemma_fitting_bounds(detail, MAX_ADDITIVE_ERROR_DETAIL_BYTES as int, 0);
    }
}

// ---------------------------------------------------------------------------
// Checks before any work
// ---------------------------------------------------------------------------

/// Checks the length of a request document.
pub fn check_request_length(length: u64) -> (r: Result<(), AtlasError>)
    ensures
        if length <= MAX_REQUEST_DOCUMENT_BYTES {
            r is Ok
        } else {
            error::refused_as_invalid(r, "request document exceeds 1048576 bytes"@)
        },
{
    if length > MAX_REQUEST_DOCUMENT_BYTES {
        return Err(AtlasError::InvalidConfig("request document exceeds 1048576 bytes".to_string()));
    }
    Ok(())
}

/// Checks the limit of a page.
pub fn validate_page_limit(limit: usize) -> (r: Result<(), AtlasError>)
    ensures
        if 1 <= limit <= MAX_APPLICATION_PAGE_LIMIT {
            r is Ok
        } else {
            error::refused_as_invalid(r, "limit must be within 1..=200"@)
        },
{
    if limit == 0 || limit > MAX_APPLICATION_PAGE_LIMIT {
        return Err(AtlasError::InvalidConfig("limit must be within 1..=200".to_string()));
    }
    Ok(())
}

/// The authority to materialize source: only the two flags of the command line grant
/// it, together, and never the request document.
pub fn materialization_grant(
    document_materializes: bool,
    document_max_bytes: Option<u64>,
    materialize_source: bool,
    max_materialized_bytes: Option<u64>,
) -> (r: Result<Option<u64>, AtlasError>)
    ensures
        if document_materializes || document_max_bytes is Some {
            error::refused_as_invalid(
                r,
                "governor request document cannot grant CLI materialization authority"@,
            )
        } else if materialize_source != (max_materialized_bytes is Some) {
            error::refused_as_invalid(r, "CLI materialization requires both authorization flags"@)
        } else {
            r == Ok::<Option<u64>, AtlasError>(max_materialized_bytes)
        },
{
    if document_materializes || document_max_bytes.is_some() {
        return Err(
            AtlasError::InvalidConfig(
                "governor request document cannot grant CLI materialization authority".to_string(),
            ),
        );
    }
    if materialize_source != max_materialized_bytes.is_some() {
        return Err(
            AtlasError::InvalidConfig(
                "CLI materialization requires both authorization flags".to_string(),
            ),
        );
    }
    Ok(max_materialized_bytes)
}

/// What a command that can remove things comes to.
#[derive(Debug)]
pub enum RemovalPlan {
    Preview { limit: usize, cursor: Option<String> },
    Apply { manifest: String },
}

/// What a command that can remove things comes to: a page of what would be removed,
/// or the removal of what a manifest names, which takes neither a limit nor a cursor.
pub fn plan_removal(
    operation: &str,
    dry_run: bool,
    confirm_manifest: Option<String>,
    limit: Option<usize>,
    cursor: Option<String>,
) -> (r: Result<RemovalPlan, AtlasError>)
    ensures
        ({
            let asked = match limit {
                Some(limit) => limit,
                None => DEFAULT_APPLICATION_PAGE_LIMIT,
            };
            if dry_run {
                if 1 <= asked <= MAX_APPLICATION_PAGE_LIMIT {
                    r == Ok::<RemovalPlan, AtlasError>(
                        RemovalPlan::Preview { limit: asked, cursor },
                    )
                } else {
                    error::refused_as_invalid(r, "limit must be within 1..=200"@)
                }
            } else if limit is Some || cursor is Some {
                error::refused_as_invalid(
                    r,
                    operation@ + " apply does not accept limit or cursor"@,
                )
            } else {
                r matches Ok(RemovalPlan::Apply { manifest }) && manifest@ == (
                match confirm_manifest {
                    Some(named) => named@,
                    None => Seq::empty(),
                })
            }
        }),
{
    if dry_run {
        let asked: usize = match limit {
            Some(limit) => limit,
            None => DEFAULT_APPLICATION_PAGE_LIMIT,
        };
        return match validate_page_limit(asked) {
            Ok(()) => Ok(RemovalPlan::Preview { limit: asked, cursor }),
            Err(problem) => Err(problem),
        };
    }
    if limit.is_some() || cursor.is_some() {
        return Err(
            AtlasError::InvalidConfig(join2(operation, " apply does not accept limit or cursor")),
        );
    }
    let manifest = match confirm_manifest {
        Some(named) => named,
        None => String::new(),
    };
    Ok(RemovalPlan::Apply { manifest })
}

/// What is inspected.
#[derive(Debug)]
pub enum InspectTarget {
    Path(String),
    Symbol(String),
}

/// What is inspected: the symbol if one is given, or else the path.
pub fn plan_inspect(path: Option<String>, symbol: Option<String>) -> (r: Result<
    InspectTarget,
    AtlasError,
>)
    ensures
        match (path, symbol) {
            (_, Some(symbol)) => r == Ok::<InspectTarget, AtlasError>(
                InspectTarget::Symbol(symbol),
            ),
            (Some(path), None) => r == Ok::<InspectTarget, AtlasError>(InspectTarget::Path(path)),
            (None, None) => error::refused_as_invalid(
                r,
                "inspect requires either a path or --symbol <canonical_symbol_key>"@,
            ),
        },
{
    match (path, symbol) {
        (_, Some(symbol)) => Ok(InspectTarget::Symbol(symbol)),
        (Some(path), None) => Ok(InspectTarget::Path(path)),
        (None, None) => Err(
            AtlasError::InvalidConfig(
                "inspect requires either a path or --symbol <canonical_symbol_key>".to_string(),
            ),
        ),
    }
}

/// The kind of task that a name stands for.
pub open spec fn kind_named(s: Seq<char>) -> Option<TaskKind> {
    if s == "explore"@ {
        Some(TaskKind::Explore)
    } else if s == "bug_fix"@ {
        Some(TaskKind::BugFix)
    } else if s == "behavior_change"@ {
        Some(TaskKind::BehaviorChange)
    } else if s == "api_change"@ {
        Some(TaskKind::ApiChange)
    } else if s == "refactor"@ {
        Some(TaskKind::Refactor)
    } else if s == "configuration_change"@ {
        Some(TaskKind::ConfigurationChange)
    } else if s == "test_change"@ {
        Some(TaskKind::TestChange)
    } else if s == "review"@ {
        Some(TaskKind::Review)
    } else if s == "audit"@ {
        Some(TaskKind::Audit)
    } else if s == "unknown"@ {
        Some(TaskKind::Unknown)
    } else {
        None
    }
}

/// The refusal of a name that stands for no kind of task.
pub open spec fn unknown_kind_message(s: Seq<char>) -> Seq<char> {
    "unknown task_kind "@ + context_ir::debug_quoted(s)
        + "; expected explore|bug_fix|behavior_change|api_change|refactor|configuration_change|test_change|review|audit|unknown"@
}

/// The kind of task that a name stands for.
pub fn parse_task_kind(s: &str) -> (r: Result<TaskKind, AtlasError>)
    ensures
        match kind_named(s@) {
            Some(kind) => r == Ok::<TaskKind, AtlasError>(kind),
            None => error::refused_as_invalid(r, unknown_kind_message(s@)),
        },
{
    if text_eq(s, "explore") {
        Ok(TaskKind::Explore)
    } else if text_eq(s, "bug_fix") {
        Ok(TaskKind::BugFix)
    } else if text_eq(s, "behavior_change") {
        Ok(TaskKind::BehaviorChange)
    } else if text_eq(s, "api_change") {
        Ok(TaskKind::ApiChange)
    } else if text_eq(s, "refactor") {
        Ok(TaskKind::Refactor)
    } else if text_eq(s, "configuration_change") {
        Ok(TaskKind::ConfigurationChange)
    } else if text_eq(s, "test_change") {
        Ok(TaskKind::TestChange)
    } else if text_eq(s, "review") {
        Ok(TaskKind::Review)
    } else if text_eq(s, "audit") {
        Ok(TaskKind::Audit)
    } else if text_eq(s, "unknown") {
        Ok(TaskKind::Unknown)
    } else {
        Err(
            AtlasError::InvalidConfig(
                join3(
                    "unknown task_kind ",
                    debug_text(s).as_str(),
                    "; expected explore|bug_fix|behavior_change|api_change|refactor|configuration_change|test_change|review|audit|unknown",
                ),
            ),
        )
    }
}

// ---------------------------------------------------------------------------
// Context packets and Context IR
// ---------------------------------------------------------------------------

/// A request for a Context Packet as it was given.
#[derive(Debug)]
pub struct ContextArguments {
    pub task: String,
    pub mode: String,
    pub paths: Vec<String>,
    pub symbols: Vec<String>,
    pub max_records: i64,
    pub max_source_bytes: i64,
    pub max_token_estimate: i64,
}

/// The request that the arguments stand for in a mode.
pub open spec fn packet_request(arguments: ContextArguments, mode: BrokerMode) -> TaskRequest {
    TaskRequest {
        task: arguments.task,
        mode,
        known_paths: arguments.paths,
        known_symbols: arguments.symbols,
        max_records: arguments.max_records,
        max_source_bytes: arguments.max_source_bytes,
        max_token_estimate: arguments.max_token_estimate,
    }
}

/// The mode that a name stands for.
pub open spec fn mode_named(s: Seq<char>) -> Option<BrokerMode> {
    if s == "map"@ {
        Some(BrokerMode::MapOnly)
    } else if s == "change"@ {
        Some(BrokerMode::Change)
    } else if s == "audit"@ {
        Some(BrokerMode::Audit)
    } else {
        None
    }
}

/// The packet that answers a request, for a registered workspace and a known mode.
pub fn build_context_output(
    workspace: Option<PacketScope>,
    arguments: ContextArguments,
    facts: GenerationFacts,
) -> (r: Result<ContextPacket, AtlasError>)
    ensures
        match workspace {
            None => r matches Err(AtlasError::WorkspaceNotFound { workspace_id }) && workspace_id@
                == "<by root>"@,
            Some(scope) => match mode_named(arguments.mode@) {
                None => error::refused_as_invalid(
                    r,
                    "unknown mode "@ + context_ir::debug_quoted(arguments.mode@)
                        + "; expected map|change|audit"@,
                ),
                Some(mode) => r matches Ok(packet) && packet@ == broker::packet_of(
                    scope,
                    facts,
                    packet_request(arguments, mode)@,
                ),
            },
        },
{
    let scope = match workspace {
        Some(scope) => scope,
        None => return Err(
            AtlasError::WorkspaceNotFound { workspace_id: "<by root>".to_string() },
        ),
    };
    let mode = match BrokerMode::parse(arguments.mode.as_str()) {
        Some(mode) => mode,
        None => return Err(
            AtlasError::InvalidConfig(
                join3(
                    "unknown mode ",
                    debug_text(arguments.mode.as_str()).as_str(),
                    "; expected map|change|audit",
                ),
            ),
        ),
    };
    let request = TaskRequest {
        task: arguments.task,
        mode,
        known_paths: arguments.paths,
        known_symbols: arguments.symbols,
        max_records: arguments.max_records,
        max_source_bytes: arguments.max_source_bytes,
        max_token_estimate: arguments.max_token_estimate,
    };
    Ok(build_packet(&scope, facts, &request))
}

/// The refusal of a budget that is not positive.
pub open spec fn budget_message(name: Seq<char>, value: int) -> Seq<char> {
    name + " must be > 0, got "@ + text::signed_decimal(value)
}

/// The first budget of a Context IR request that is not positive.
pub open spec fn budget_fault(
    max_records: i64,
    max_source_bytes: i64,
    max_estimated_tokens: i64,
) -> Option<Seq<char>> {
    if max_records <= 0 {
        Some(budget_message("max_records"@, max_records as int))
    } else if max_source_bytes <= 0 {
        Some(budget_message("max_source_bytes"@, max_source_bytes as int))
    } else if max_estimated_tokens <= 0 {
        Some(budget_message("max_estimated_tokens"@, max_estimated_tokens as int))
    } else {
        None
    }
}

fn check_budget(name: &str, value: i64) -> (r: Result<(), AtlasError>)
    ensures
        if value > 0 {
            r is Ok
        } else {
            error::refused_as_invalid(r, budget_message(name@, value as int))
        },
{
    if value <= 0 {
        let mut message = join2(name, " must be > 0, got ");
        append_signed(&mut message, value);
        return Err(AtlasError::InvalidConfig(message));
    }
    Ok(())
}

/// Checks the budgets of a Context IR request.
pub fn check_context_ir_budgets(
    max_records: i64,
    max_source_bytes: i64,
    max_estimated_tokens: i64,
) -> (r: Result<(), AtlasError>)
    ensures
        match budget_fault(max_records, max_source_bytes, max_estimated_tokens) {
            Some(message) => error::refused_as_invalid(r, message),
            None => r is Ok,
        },
{
    match check_budget("max_records", max_records) {
        Ok(()) => {},
        Err(problem) => return Err(problem),
    }
    match check_budget("max_source_bytes", max_source_bytes) {
        Ok(()) => {},
        Err(problem) => return Err(problem),
    }
    check_budget("max_estimated_tokens", max_estimated_tokens)
}

/// The kind of task that a request declares, for a registered workspace.
pub fn declared_task_kind(registered: bool, declared: Option<&str>) -> (r: Result<
    Option<TaskKind>,
    AtlasError,
>)
    ensures
        if !registered {
            r matches Err(AtlasError::WorkspaceNotFound { workspace_id }) && workspace_id@
                == "<by root>"@
        } else {
            match declared {
                None => r == Ok::<Option<TaskKind>, AtlasError>(None),
                Some(name) => match kind_named(name@) {
                    Some(kind) => r == Ok::<Option<TaskKind>, AtlasError>(Some(kind)),
                    None => error::refused_as_invalid(r, unknown_kind_message(name@)),
                },
            }
        },
{
    if !registered {
        return Err(AtlasError::WorkspaceNotFound { workspace_id: "<by root>".to_string() });
    }
    match declared {
        None => Ok(None),
        Some(name) => match parse_task_kind(name) {
            Ok(kind) => Ok(Some(kind)),
            Err(problem) => Err(problem),
        },
    }
}

/// Whether a session is moved on when its context is compiled: only a fresh one, never
/// one that an equivalent request has advanced.
pub fn session_needs_transition(state: TaskSessionState) -> (r: bool)
    ensures
        r == (state == TaskSessionState::Created),
{
    state == TaskSessionState::Created
}

/// How far a Context IR command has come.
#[derive(Debug)]
pub enum ContextIrStage {
    /// The request is in order; nothing has been touched.
    Ready,
    /// The writer lease is held.
    Leased,
    /// A session was created, or an equivalent one found, in this state.
    SessionFound { task_session_id: String, state: TaskSessionState },
    /// The session stands for the context to be compiled.
    SessionSettled { task_session_id: String },
    /// The context was compiled.
    Compiled { task_session_id: String },
    /// The use of the context was put down.
    Recorded { task_session_id: String },
}

/// What a Context IR command does next.
#[derive(Debug, PartialEq, Eq)]
pub enum ContextIrAction {
    AcquireLease,
    CreateSession { generation_id: String },
    /// Give the request the identifier of a session without creating one.
    NameSession,
    /// Move the session on to its compiled context.
    AdvanceSession { task_session_id: String },
    Compile { task_session_id: String },
    RecordUse { task_session_id: String },
    Finish { task_session_id: String, release_lease: bool },
}

pub ghost enum ContextIrActionView {
    AcquireLease,
    CreateSession { generation_id: Seq<char> },
    NameSession,
    AdvanceSession { task_session_id: Seq<char> },
    Compile { task_session_id: Seq<char> },
    RecordUse { task_session_id: Seq<char> },
    Finish { task_session_id: Seq<char>, release_lease: bool },
}

impl View for ContextIrAction {
    type V = ContextIrActionView;

    open spec fn view(&self) -> ContextIrActionView {
        match self {
            ContextIrAction::AcquireLease => ContextIrActionView::AcquireLease,
            ContextIrAction::CreateSession {
                generation_id,
            } => ContextIrActionView::CreateSession { generation_id: generation_id@ },
            ContextIrAction::NameSession => ContextIrActionView::NameSession,
            ContextIrAction::AdvanceSession {
                task_session_id,
            } => ContextIrActionView::AdvanceSession { task_session_id: task_session_id@ },
            ContextIrAction::Compile { task_session_id } => ContextIrActionView::Compile {
                task_session_id: task_session_id@,
            },
            ContextIrAction::RecordUse { task_session_id } => ContextIrActionView::RecordUse {
                task_session_id: task_session_id@,
            },
            ContextIrAction::Finish {
                task_session_id,
                release_lease,
            } => ContextIrActionView::Finish {
                task_session_id: task_session_id@,
                release_lease: *release_lease,
            },
        }
    }
}

/// What a Context IR command does next. With an active generation it works under the
/// writer lease, in a session of that generation, of which only a fresh one is moved
/// on, and puts down that the context was used. Without one it writes nothing.
pub open spec fn context_ir_action(
    active_generation_id: Option<Seq<char>>,
    stage: ContextIrStage,
) -> ContextIrActionView {
    match (stage, active_generation_id) {
        (ContextIrStage::Ready, Some(_)) => ContextIrActionView::AcquireLease,
        (ContextIrStage::Leased, Some(generation_id)) => ContextIrActionView::CreateSession {
            generation_id,
        },
        (
            ContextIrStage::Ready | ContextIrStage::Leased,
            None,
        ) => ContextIrActionView::NameSession,
        (
            ContextIrStage::SessionFound { task_session_id, state },
            Some(_),
        ) => if state == TaskSessionState::Created {
            ContextIrActionView::AdvanceSession { task_session_id: task_session_id@ }
        } else {
            ContextIrActionView::Compile { task_session_id: task_session_id@ }
        },
        (
            ContextIrStage::SessionFound { task_session_id, .. },
            None,
        ) => ContextIrActionView::Compile { task_session_id: task_session_id@ },
        (
            ContextIrStage::SessionSettled { task_session_id },
            _,
        ) => ContextIrActionView::Compile { task_session_id: task_session_id@ },
        (ContextIrStage::Compiled { task_session_id }, Some(_)) => ContextIrActionView::RecordUse {
            task_session_id: task_session_id@,
        },
        (
            ContextIrStage::Compiled { task_session_id },
            None,
        ) => ContextIrActionView::Finish {
            task_session_id: task_session_id@,
            release_lease: false,
        },
        (
            ContextIrStage::Recorded { task_session_id },
            active,
        ) => ContextIrActionView::Finish {
            task_session_id: task_session_id@,
            release_lease: active is Some,
        },
    }
}

/// What a Context IR command does next.
pub fn next_context_ir_action(
    active_generation_id: &Option<String>,
    stage: ContextIrStage,
) -> (r: ContextIrAction)
    ensures
        r@ == context_ir_action(text::opt_text(*active_generation_id), stage),
{
    match (stage, active_generation_id) {
        (ContextIrStage::Ready, Some(_)) => ContextIrAction::AcquireLease,
        (ContextIrStage::Leased, Some(generation_id)) => ContextIrAction::CreateSession {
            generation_id: generation_id.clone(),
        },
        (ContextIrStage::Ready, None) => ContextIrAction::NameSession,
        (ContextIrStage::Leased, None) => ContextIrAction::NameSession,
        (ContextIrStage::SessionFound { task_session_id, state }, Some(_)) => {
            if session_needs_transition(state) {
                ContextIrAction::AdvanceSession { task_session_id }
            } else {
                ContextIrAction::Compile { task_session_id }
            }
        },
        (ContextIrStage::SessionFound { task_session_id, .. }, None) => ContextIrAction::Compile {
            task_session_id,
        },
        (ContextIrStage::SessionSettled { task_session_id }, _) => ContextIrAction::Compile {
            task_session_id,
        },
        (ContextIrStage::Compiled { task_session_id }, Some(_)) => ContextIrAction::RecordUse {
            task_session_id,
        },
        (ContextIrStage::Compiled { task_session_id }, None) => ContextIrAction::Finish {
            task_session_id,
            release_lease: false,
        },
        (ContextIrStage::Recorded { task_session_id }, active) => ContextIrAction::Finish {
            task_session_id,
            release_lease: active.is_some(),
        },
    }
}

/// Without an active generation a Context IR command takes no lease, creates and
/// moves no session and puts down no use; with one it gives back the lease at the end,
/// and never before it has put down the use of what it compiled.
pub proof fn law_only_active_generations_are_written(
    active_generation_id: Option<Seq<char>>,
    stage: ContextIrStage,
)
    ensures
        ({
            let action = context_ir_action(active_generation_id, stage);
            &&& active_generation_id is None ==> !(action is AcquireLease || action is CreateSession
                || action is AdvanceSession || action is RecordUse)
            &&& action is Finish ==> action->release_lease == active_generation_id is Some
            &&& action is Finish && active_generation_id is Some ==> stage is Recorded
            &&& action is RecordUse ==> stage is Compiled
            &&& action is CreateSession ==> stage is Leased
        }),
{
}

/// What a session is named after that no generation holds.
pub open spec fn detached_session_parts(
    workspace_id: Seq<char>,
    task_hash: Seq<char>,
    kind: Seq<char>,
    kind_source: Seq<char>,
    kind_rule_id: Option<Seq<char>>,
    planner_policy_version: Seq<char>,
) -> Seq<Seq<char>> {
    seq![
        workspace_id,
        "no_generation"@,
        task_hash,
        kind,
        kind_source,
        match kind_rule_id {
            Some(rule) => rule,
            None => Seq::empty(),
        },
        planner_policy_version,
    ]
}

/// The name of a session that no generation holds. `kind` and `kind_source` are the
/// names by which the planner tells kinds of tasks apart.
pub fn name_detached_session<F: Fn(NameRequest) -> String>(
    namer: &F,
    workspace_id: &str,
    task_hash: &str,
    kind: &str,
    kind_source: &str,
    kind_rule_id: Option<&str>,
    planner_policy_version: &str,
) -> (r: String)
    requires
        forall|request: NameRequest| call_requires(*namer, (request,)),
    ensures
        named_by(
            *namer,
            "task"@,
            detached_session_parts(
                workspace_id@,
                task_hash@,
                kind@,
                kind_source@,
                match kind_rule_id {
                    Some(rule) => Some(rule@),
                    None => None,
                },
                planner_policy_version@,
            ),
            r,
        ),
{
    let mut parts: Vec<String> = Vec::new();
    parts.push(workspace_id.to_string());
    parts.push("no_generation".to_string());
    parts.push(task_hash.to_string());
    parts.push(kind.to_string());
    parts.push(kind_source.to_string());
    match kind_rule_id {
        Some(rule) => parts.push(rule.to_string()),
        None => parts.push(String::new()),
    }
    parts.push(planner_policy_version.to_string());
    assert(text::texts(parts@) =~= detached_session_parts(
        workspace_id@,
        task_hash@,
        kind@,
        kind_source@,
        match kind_rule_id {
            Some(rule) => Some(rule@),
            None => None,
        },
        planner_policy_version@,
    ));
    name_parts(namer, "task", parts)
}

/// What a Context IR command is asked for.
#[derive(Debug)]
pub struct ContextIrArguments {
    pub declared_task_kind: Option<String>,
    pub max_records: i64,
    pub max_source_bytes: i64,
    pub max_estimated_tokens: i64,
}

/// What a Context IR command compiled.
#[derive(Debug)]
pub struct CompiledContextRun {
    pub task_session_id: String,
    pub task_kind: TaskKind,
    pub task_kind_source: TaskKindSource,
    pub kind_rule_id: Option<String>,
    pub context_ir: ContextIr,
}

#[derive(Debug)]
pub struct ContextIrCliOutput {
    pub ok: bool,
    pub task_session_id: String,
    pub task_kind: TaskKind,
    pub task_kind_source: TaskKindSource,
    pub kind_rule_id: Option<String>,
    pub context_ir: ContextIr,
}

/// What a Context IR command shows, given what its work and the release of the lease
/// came to. A budget that is not positive is refused first, then a workspace that is
/// not registered, then an unknown kind of task.
pub fn build_context_ir_output(
    arguments: &ContextIrArguments,
    registered: bool,
    compiled: Result<CompiledContextRun, AtlasError>,
    release: Result<(), AtlasError>,
) -> (r: Result<ContextIrCliOutput, AtlasError>)
    ensures
        match budget_fault(
            arguments.max_records,
            arguments.max_source_bytes,
            arguments.max_estimated_tokens,
        ) {
            Some(message) => error::refused_as_invalid(r, message),
            None => if !registered {
                r matches Err(AtlasError::WorkspaceNotFound { workspace_id }) && workspace_id@
                    == "<by root>"@
            } else if arguments.declared_task_kind matches Some(name) && kind_named(name@) is None {
                error::refused_as_invalid(
                    r,
                    unknown_kind_message(arguments.declared_task_kind->0@),
                )
            } else {
                match (compiled, release) {
                    (Err(problem), _) => r == Err::<ContextIrCliOutput, AtlasError>(problem),
                    (Ok(_), Err(problem)) => r == Err::<ContextIrCliOutput, AtlasError>(problem),
                    (Ok(run), Ok(_)) => r == Ok::<ContextIrCliOutput, AtlasError>(
                        ContextIrCliOutput {
                            ok: true,
                            task_session_id: run.task_session_id,
                            task_kind: run.task_kind,
                            task_kind_source: run.task_kind_source,
                            kind_rule_id: run.kind_rule_id,
                            context_ir: run.context_ir,
                        },
                    ),
                }
            },
        },
{
    match check_context_ir_budgets(
        arguments.max_records,
        arguments.max_source_bytes,
        arguments.max_estimated_tokens,
    ) {
        Ok(()) => {},
        Err(problem) => return Err(problem),
    }
    let declared = match &arguments.declared_task_kind {
        Some(name) => declared_task_kind(registered, Some(name.as_str())),
        None => declared_task_kind(registered, None),
    };
    match declared {
        Ok(_) => {},
        Err(problem) => return Err(problem),
    }
    match settle_leased_operation(compiled, release) {
        Ok(run) => Ok(
            ContextIrCliOutput {
                ok: true,
                task_session_id: run.task_session_id,
                task_kind: run.task_kind,
                task_kind_source: run.task_kind_source,
                kind_rule_id: run.kind_rule_id,
                context_ir: run.context_ir,
            },
        ),
        Err(problem) => Err(problem),
    }
}

// ---------------------------------------------------------------------------
// Configuration, reconcile and the writer lease
// ---------------------------------------------------------------------------

/// The name that a configuration gets: the one that was given, or else, where no
/// configuration was loaded, that of the directory.
pub open spec fn configured_name(
    config: Config,
    loaded: bool,
    display_name: Option<Seq<char>>,
    workspace_root: Seq<char>,
) -> Seq<char> {
    match display_name {
        Some(name) => name,
        None => if loaded {
            config.workspace.display_name@
        } else {
            match paths::last_name(workspace_root) {
                Some(name) => name,
                None => "workspace"@,
            }
        },
    }
}

/// Gives a configuration its name. Everything else stays as it is.
pub fn name_config(
    config: Config,
    loaded: bool,
    display_name: Option<&str>,
    workspace_root: &str,
) -> (r: Config)
    ensures
        r.workspace.display_name@ == configured_name(
            config,
            loaded,
            match display_name {
                Some(name) => Some(name@),
                None => None,
            },
            workspace_root@,
        ),
        named_like(r, config),
{
    let mut named = config;
    match display_name {
        Some(name) => {
            named.workspace.display_name = name.to_string();
        },
        None => {
            if !loaded {
                named.workspace.display_name = workspace_default_display_name(workspace_root);
            }
        },
    }
    named
}

/// Two configurations differ at most in the name of the workspace.
pub open spec fn named_like(a: Config, b: Config) -> bool {
    &&& a.schema_version == b.schema_version
    &&& a.workspace.workspace_id == b.workspace.workspace_id
    &&& a.workspace.canonical_root_label == b.workspace.canonical_root_label
    &&& a.database == b.database
    &&& a.policy == b.policy
    &&& a.reconcile == b.reconcile
    &&& a.provider_runtime == b.provider_runtime
    &&& a.providers == b.providers
    &&& a.evidence == b.evidence
}

/// What the initialization of a default catalogue fails with once its route was
/// reserved.
pub fn initialization_failure(canonical_root: &str, catalogue_path: &str, problem: &str) -> (r:
    AtlasError)
    ensures
        r matches AtlasError::Other(m) && m@ == "default catalogue route for workspace "@
            + canonical_root@ + " was reserved at "@ + catalogue_path@
            + ", but initialization did not complete: "@ + problem@
            + ". Retry `atlas init` with the same workspace root and display name to resume safely"@,
{
    let mut message = join3(
        "default catalogue route for workspace ",
        canonical_root,
        " was reserved at ",
    );
    message.append(catalogue_path);
    message.append(", but initialization did not complete: ");
    message.append(problem);
    message.append(
        ". Retry `atlas init` with the same workspace root and display name to resume safely",
    );
    AtlasError::Other(message)
}

/// What a reconcile reports of itself.
#[derive(Debug)]
pub struct ReconcileReport {
    pub activation: String,
    pub excluded_file_count: i64,
    pub secret_excluded_file_count: i64,
}

/// What is shown of a reconcile.
#[derive(Debug, Clone, Copy, PartialEq, Eq)]
pub struct ReconcileSummary {
    pub ok: bool,
    pub excluded_file_count: i64,
    pub secret_excluded_file_count: i64,
}

/// What is shown of a reconcile: whether it was committed, and the files that were
/// excluded, those that hold secrets apart from the others.
pub fn summarize_reconcile(report: &ReconcileReport) -> (r: ReconcileSummary)
    requires
        i64::MIN <= report.excluded_file_count - report.secret_excluded_file_count <= i64::MAX,
    ensures
        r.ok == (report.activation@ == "committed"@),
        r.excluded_file_count == report.excluded_file_count - report.secret_excluded_file_count,
        r.secret_excluded_file_count == report.secret_excluded_file_count,
{
    ReconcileSummary {
        ok: text_eq(report.activation.as_str(), "committed"),
        excluded_file_count: report.excluded_file_count - report.secret_excluded_file_count,
        secret_excluded_file_count: report.secret_excluded_file_count,
    }
}

/// The outcome of an operation that was done under the writer lease: its own failure
/// first, then that of giving the lease back.
pub fn settle_leased_operation<T>(
    operation: Result<T, AtlasError>,
    release: Result<(), AtlasError>,
) -> (r: Result<T, AtlasError>)
    ensures
        match (operation, release) {
            (Err(problem), _) => r == Err::<T, AtlasError>(problem),
            (Ok(_), Err(problem)) => r == Err::<T, AtlasError>(problem),
            (Ok(value), Ok(_)) => r == Ok::<T, AtlasError>(value),
        },
{
    match (operation, release) {
        (Ok(value), Ok(())) => Ok(value),
        (Err(problem), _) => Err(problem),
        (Ok(_), Err(problem)) => Err(problem),
    }
}

/// How a query reads the catalogue: without a trace, or under the writer lease with
/// what it delivered put down to a task session.
#[derive(Debug)]
pub enum QueryAccess {
    ReadOnly,
    Attributed { task_session_id: String },
}

/// How a query of a registered workspace reads the catalogue.
pub fn query_access(registered: bool, task_session_id: Option<String>) -> (r: Result<
    QueryAccess,
    AtlasError,
>)
    ensures
        if !registered {
            r matches Err(AtlasError::WorkspaceNotFound { workspace_id }) && workspace_id@
                == "<by root>"@
        } else {
            match task_session_id {
                Some(id) => r == Ok::<QueryAccess, AtlasError>(
                    QueryAccess::Attributed { task_session_id: id },
                ),
                None => r == Ok::<QueryAccess, AtlasError>(QueryAccess::ReadOnly),
            }
        },
{
    if !registered {
        return Err(AtlasError::WorkspaceNotFound { workspace_id: "<by root>".to_string() });
    }
    match task_session_id {
        Some(task_session_id) => Ok(QueryAccess::Attributed { task_session_id }),
        None => Ok(QueryAccess::ReadOnly),
    }
}

} // verus!
