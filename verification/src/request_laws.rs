//! What holds of whatever the application's decisions on a request come to.
use vstd::prelude::*;

use crate::application_error::CatalogueContextApplicationError;
use crate::catalogue::{
    acquire_writer_lease, heartbeat_writer_lease, LeaseClock, LeaseRow, WriterLeaseGuard,
};
use crate::catalogue_route::{
    check_legacy_sidecar, check_resolved_workspace, CatalogueLocator, SidecarFinding,
    WorkspaceRecord,
};
use crate::cli::{
    materialization_grant, plan_inspect, plan_removal, settle_leased_operation, InspectTarget,
    RemovalPlan,
};
use crate::compiled_context::{
    plan_compiled_context, CompiledContextShowPlan, CompiledContextShowRequest,
};
use crate::context_application::{
    acquired_context, application_output, check_public_request, CatalogueContextApplicationOutput,
    GovernorRunRequest,
};
use crate::context_capabilities::{
    negotiate_context_versions, NegotiatedVersions, NegotiationRequest,
};
use crate::context_execution::{ContextExecution, ExecutionState, PayloadView};
use crate::context_ir::{ContextIr, TaskSession, TaskSessionState};
use crate::context_route::{
    ContextRouteError, DeepSemanticBudget, CONTEXT_CAPABILITIES_VERSION, CONTEXT_EXECUTION_VERSION,
    CONTEXT_IR_VERSION, CONTEXT_ROUTE_POLICY_VERSION, QUERY_OPERATION_VERSION,
    SOURCE_REFERENCE_OPERATION_VERSION,
};
use crate::context_yield::{accepted_outcome, AcceptedOutcome};
use crate::deep_context_ir;
use crate::deep_context_ir::{
    read_context_ir_v1, read_deep_context_ir_v2, ContextIrVersion, DeepContextIrV2, RoleRecipe,
};
use crate::deep_outcome::check_deep_targets;
use crate::error::AtlasError;
use crate::light_outcome;
use crate::light_outcome::{
    light_query_targets, CatalogueLightResults, LightEvidence, LightQueryProjection,
    LightQueryTarget,
    MAX_LIGHT_QUERY_TARGETS,
};
use crate::text;
use crate::unregister;
use crate::unregister::{
    next_apply_step, ApplyFacts, ApplyStep, LockOutcome, TempFileView, UnregisterFault,
    IRREVERSIBLE_CONFIRMATION,
};

verus! {

/// Source is handed over only on the word of the command line, given twice; a request
/// document that asks for it is refused.
pub proof fn law_only_the_command_line_grants_source(
    document_materializes: bool,
    document_max_bytes: Option<u64>,
    flag: bool,
    max_bytes: Option<u64>,
    r: Result<Option<u64>, AtlasError>,
)
    requires
        call_ensures(
            materialization_grant,
            (document_materializes, document_max_bytes, flag, max_bytes),
            r,
        ),
    ensures
        r matches Ok(granted) ==> granted == max_bytes,
        r is Ok <==> !document_materializes && document_max_bytes is None && (flag
            <==> max_bytes is Some),
        r matches Ok(Some(_)) ==> flag,
{
}

/// Nothing is removed without the literal confirmation, the lock, the expected manifest
/// and the absence of a writer; and whatever is left is refused in the end.
pub proof fn law_removals_need_confirmation(
    facts: &ApplyFacts,
    expected: &str,
    confirmation: &str,
    fault: UnregisterFault,
    r: ApplyStep,
)
    requires
        call_ensures(next_apply_step, (facts, expected, confirmation, fault), r),
    ensures
        confirmation@ != IRREVERSIBLE_CONFIRMATION@ ==> r is Refused,
        r is CloseConnection ==> {
            &&& confirmation@ == IRREVERSIBLE_CONFIRMATION@
            &&& facts.lock == Some(LockOutcome::Acquired)
            &&& facts.manifest_digest is Some && facts.manifest_digest->0@ == expected@
            &&& facts.active_writer == Some(false)
            &&& !facts.closed
        },
        r is AcquireLock ==> facts.lock is None,
        r is ValidateManifest ==> facts.manifest_digest is None && facts.lock is Some,
        r is CheckWriter ==> facts.active_writer is None && facts.manifest_digest is Some
            && facts.manifest_digest->0@ == expected@,
        facts.active_writer == Some(true) && confirmation@ == IRREVERSIBLE_CONFIRMATION@
            && facts.lock == Some(LockOutcome::Acquired) && facts.manifest_digest is Some
            ==> r is Refused,
        facts.closed && facts.lock is Some && facts.manifest_digest is Some
            && facts.active_writer is Some ==> r is Refused,
{
}

/// A dry run never removes anything, and a removal takes neither a limit nor a cursor.
pub proof fn law_dry_runs_remove_nothing(
    operation: &str,
    dry_run: bool,
    manifest: Option<String>,
    limit: Option<usize>,
    cursor: Option<String>,
    r: Result<RemovalPlan, AtlasError>,
)
    requires
        call_ensures(plan_removal, (operation, dry_run, manifest, limit, cursor), r),
    ensures
        r matches Ok(RemovalPlan::Apply { .. }) ==> !dry_run && limit is None && cursor is None,
        r matches Ok(RemovalPlan::Preview { limit: shown, cursor: from }) ==> dry_run && 1 <= shown
            <= 200 && from == cursor && (limit is Some ==> limit == Some(shown)),
        !dry_run && limit is None && cursor is None ==> r is Ok,
        dry_run && limit is None ==> r is Ok,
{
}

/// The lease goes to the one who asked, from now on; it is never taken from another whose
/// heartbeat is not stale, and the refusal names that holder.
pub proof fn law_leases_go_to_whom_asks(
    existing: &Option<LeaseRow>,
    workspace: &str,
    holder: &str,
    now: &LeaseClock,
    expires: &str,
    limit: std::time::Duration,
    r: Result<(LeaseRow, WriterLeaseGuard), AtlasError>,
)
    requires
        call_ensures(acquire_writer_lease, (existing, workspace, holder, now, expires, limit), r),
    ensures
        r matches Ok((row, guard)) ==> {
            &&& row@.holder_id == holder@
            &&& row@.acquired_at == now.text@
            &&& row@.heartbeat_at == now.text@
            &&& row@.expires_at == expires@
            &&& guard.holder_id@ == holder@
            &&& guard.workspace_id@ == workspace@
            &&& (existing matches Some(other) ==> other@.holder_id == holder@
                || crate::catalogue::stale_at(other@.heartbeat_at, now.moment(), limit) == Ok::<
                bool,
                Seq<char>,
            >(true))
        },
        r matches Err(AtlasError::WriterLeaseHeld { holder: named }) ==> (existing matches Some(
            other,
        ) && named@ == other@.holder_id && named@ != holder@),
        existing is None ==> r is Ok,
{
}

/// A heartbeat moves the holder's own lease on and changes nothing else; nobody else has
/// one to move.
pub proof fn law_heartbeats_belong_to_the_holder(
    existing: Option<LeaseRow>,
    holder: &str,
    now: &str,
    expires: &str,
    r: Result<LeaseRow, AtlasError>,
)
    requires
        call_ensures(heartbeat_writer_lease, (existing, holder, now, expires), r),
    ensures
        r is Ok <==> existing is Some && existing->0@.holder_id == holder@,
        r matches Ok(kept) ==> {
            &&& kept@.holder_id == existing->0@.holder_id
            &&& kept@.acquired_at == existing->0@.acquired_at
            &&& kept@.schema_writer_version == existing->0@.schema_writer_version
            &&& kept@.heartbeat_at == now@
            &&& kept@.expires_at == expires@
        },
{
}

/// What was done under the lease counts only if it succeeded and the lease was given back.
pub proof fn law_leased_work_counts_when_all_went_well<T>(
    operation: Result<T, AtlasError>,
    release: Result<(), AtlasError>,
    r: Result<T, AtlasError>,
)
    requires
        call_ensures(settle_leased_operation::<T>, (operation, release), r),
    ensures
        r is Ok <==> operation is Ok && release is Ok,
        r is Ok ==> r == operation,
        operation is Err ==> r == operation,
{
}

/// A symbol is inspected where one is given, and the path only without one.
pub proof fn law_symbols_are_inspected_first(
    path: Option<String>,
    symbol: Option<String>,
    r: Result<InspectTarget, AtlasError>,
)
    requires
        call_ensures(plan_inspect, (path, symbol), r),
    ensures
        symbol is Some ==> r == Ok::<InspectTarget, AtlasError>(InspectTarget::Symbol(symbol->0)),
        symbol is None && path is Some ==> r == Ok::<InspectTarget, AtlasError>(
            InspectTarget::Path(path->0),
        ),
        r is Ok <==> path is Some || symbol is Some,
{
}

/// A single document is shown without a cursor, a session's documents page by page;
/// exactly one of the two is asked for.
pub proof fn law_documents_are_shown_one_way(
    request: CompiledContextShowRequest,
    r: Result<CompiledContextShowPlan, CatalogueContextApplicationError>,
)
    requires
        call_ensures(plan_compiled_context, (request,), r),
    ensures
        r matches Ok(CompiledContextShowPlan::Context { context_id }) ==> request.context_id
            == Some(context_id) && request.task_session_id is None && request.cursor is None,
        r matches Ok(CompiledContextShowPlan::Session { task_session_id, limit, cursor })
            ==> request.task_session_id == Some(task_session_id) && request.context_id is None
            && cursor == request.cursor && 1 <= limit <= 200 && (request.limit is Some
            ==> request.limit == Some(limit)),
        (request.context_id is Some) != (request.task_session_id is Some) && request.cursor is None
            && request.limit is None ==> r is Ok,
{
}

/// A public request never comes with the authority to hand out source.
pub proof fn law_public_requests_grant_no_source(
    request: &GovernorRunRequest,
    r: Result<(), CatalogueContextApplicationError>,
)
    requires
        call_ensures(check_public_request, (request,), r),
    ensures
        r is Ok <==> !request.semantic.materialize_source
            && request.semantic.max_materialized_bytes is None,
{
}

/// Of what was looked up and compiled a run returns only what its execution hands on:
/// lookups with a LIGHT payload, a document with the DEEP payload of its hash.
pub proof fn law_runs_return_what_they_hand_on(
    execution: ContextExecution,
    light: CatalogueLightResults,
    deep: Option<DeepContextIrV2>,
    r: CatalogueContextApplicationOutput,
)
    requires
        call_ensures(application_output, (execution, light, deep), r),
    ensures
        r.execution == execution,
        r.light_results is Some ==> execution@.payload is Some
            && execution@.payload->0 is LightBundle && r.light_results == Some(light),
        r.deep_context_ir matches Some(document) ==> deep == Some(document) && (
        execution@.payload matches Some(PayloadView::DeepContextIr { context_hash, .. })
            && context_hash == document.context_hash@),
        deep is Some && (execution@.payload matches Some(
            PayloadView::DeepContextIr { context_hash, .. },
        ) && context_hash == deep->0.context_hash@) ==> r.deep_context_ir == deep,
        !(r.light_results is Some && r.deep_context_ir is Some),
{
}

/// Context counts as acquired where a run completed, or delivered part of it from the
/// Atlas; a blocked or interrupted run acquired none.
pub proof fn law_only_answers_acquire_context(execution: &ContextExecution, r: bool)
    requires
        call_ensures(acquired_context, (execution,), r),
    ensures
        execution@.state == ExecutionState::Completed ==> r,
        execution@.state == ExecutionState::Blocked ==> !r,
        execution@.state == ExecutionState::Interrupted ==> !r,
        execution@.state == ExecutionState::Partial ==> (r <==> execution@.payload != Some(
            PayloadView::DirectNone,
        )),
{
}

/// Targets are accepted exactly if each can have a record and a unit of work.
pub proof fn law_targets_fit_the_deep_budget(
    paths: usize,
    symbols: usize,
    budget: &DeepSemanticBudget,
    r: Result<(), AtlasError>,
)
    requires
        call_ensures(check_deep_targets, (paths, symbols, budget), r),
    ensures
        r is Ok <==> paths + symbols <= usize::MAX && paths + symbols <= budget.max_records && paths
            + symbols <= budget.max_work_units,
{
}

/// Neither reader takes a document of the other's version, and the DEEP reader takes
/// none that is at fault.
pub proof fn law_readers_keep_to_their_version(
    raw: &str,
    legacy: Result<ContextIr, String>,
    deep: Result<DeepContextIrV2, String>,
    recipe: &RoleRecipe,
    old_read: Result<ContextIr, AtlasError>,
    deep_read: Result<DeepContextIrV2, AtlasError>,
)
    requires
        call_ensures(read_context_ir_v1, (raw, legacy), old_read),
        call_ensures(read_deep_context_ir_v2, (raw, deep, recipe), deep_read),
    ensures
        !(old_read is Ok && deep_read is Ok),
        old_read matches Ok(document) ==> legacy == Ok::<ContextIr, String>(document),
        deep_read matches Ok(document) ==> deep == Ok::<DeepContextIrV2, String>(document)
            && document.fault(*recipe) is None,
        deep_read is Ok ==> deep_context_ir::raw_version(raw@) == Ok::<_, Seq<char>>(
            Some(ContextIrVersion::DeepV2),
        ),
{
}

/// Only an accepted session has an outcome, and only with its end known in full.
pub proof fn law_outcomes_are_those_of_accepted_sessions(
    session: &TaskSession,
    r: Result<Option<AcceptedOutcome>, AtlasError>,
)
    requires
        call_ensures(accepted_outcome, (session,), r),
    ensures
        r matches Ok(Some(outcome)) ==> {
            &&& session.state == TaskSessionState::Completed
            &&& session.accepted == Some(true)
            &&& session.completed_at is Some && outcome.completed_at@ == session.completed_at->0@
            &&& session.end_generation_id is Some
            &&& session.end_tree_hash is Some
            &&& session.outcome_code is Some
        },
        r is Err ==> session.state == TaskSessionState::Completed && session.accepted == Some(true),
        session.accepted != Some(true) ==> (r matches Ok(found) && found is None),
{
}

/// Beside a catalogue without a locator only an empty log may stand, and only where one
/// is allowed.
pub proof fn law_only_empty_logs_are_tolerated(
    path: &str,
    allow_empty: bool,
    finding: SidecarFinding,
    r: Result<bool, AtlasError>,
)
    requires
        call_ensures(check_legacy_sidecar, (path, allow_empty, finding), r),
    ensures
        r is Ok <==> finding is Absent || allow_empty && finding == (SidecarFinding::Regular {
            len: 0,
        }),
        r matches Ok(there) ==> (there <==> !(finding is Absent)),
{
}

/// A catalogue is taken for that of a root exactly if the locator is there, the catalogue
/// holds the workspace, and both name it as the root derives it.
pub proof fn law_catalogues_hold_the_derived_workspace(
    root: &str,
    locator: &Option<CatalogueLocator>,
    workspace: &Option<WorkspaceRecord>,
    derived: &str,
    r: Result<(), AtlasError>,
)
    requires
        call_ensures(check_resolved_workspace, (root, locator, workspace, derived), r),
    ensures
        r is Ok <==> {
            &&& locator is Some
            &&& workspace is Some
            &&& workspace->0.workspace_id@ == derived@
            &&& locator->0.workspace_id@ == derived@
        },
{
}

/// Versions are settled exactly if the caller knows each one that is offered: knowing
/// more never hurts, and knowing none of a kind does.
pub proof fn law_versions_are_settled_on_what_both_know(
    a: &NegotiationRequest,
    b: &NegotiationRequest,
    ra: Result<NegotiatedVersions, ContextRouteError>,
    rb: Result<NegotiatedVersions, ContextRouteError>,
)
    requires
        call_ensures(negotiate_context_versions, (a,), ra),
        call_ensures(negotiate_context_versions, (b,), rb),
        knows_all(a.capability_versions@, b.capability_versions@),
        knows_all(a.route_versions@, b.route_versions@),
        knows_all(a.decision_versions@, b.decision_versions@),
        knows_all(a.execution_versions@, b.execution_versions@),
        knows_all(a.ir_versions@, b.ir_versions@),
        knows_all(a.operation_versions@, b.operation_versions@),
    ensures
        ra is Ok ==> rb is Ok,
        a.capability_versions@.len() == 0 || a.route_versions@.len() == 0
            || a.decision_versions@.len() == 0 || a.execution_versions@.len() == 0
            || a.ir_versions@.len() == 0 || a.operation_versions@.len() == 0 ==> ra is Err,
        ra matches Ok(settled) ==> {
            &&& knows(a.capability_versions@, settled.capability_version@)
            &&& knows(a.route_versions@, settled.route_version@)
            &&& knows(a.decision_versions@, settled.decision_version@)
            &&& knows(a.execution_versions@, settled.execution_version@)
        },
{
    if ra is Ok {
        lemma_knows(a.capability_versions@, CONTEXT_CAPABILITIES_VERSION@);
        lemma_knows(a.route_versions@, CONTEXT_ROUTE_POLICY_VERSION@);
        lemma_knows(a.decision_versions@, CONTEXT_ROUTE_POLICY_VERSION@);
        lemma_knows(a.execution_versions@, CONTEXT_EXECUTION_VERSION@);
        lemma_knows(a.ir_versions@, CONTEXT_IR_VERSION@);
        lemma_knows(a.operation_versions@, QUERY_OPERATION_VERSION@);
        lemma_knows(a.operation_versions@, SOURCE_REFERENCE_OPERATION_VERSION@);
        lemma_knows(b.capability_versions@, CONTEXT_CAPABILITIES_VERSION@);
        lemma_knows(b.route_versions@, CONTEXT_ROUTE_POLICY_VERSION@);
        lemma_knows(b.decision_versions@, CONTEXT_ROUTE_POLICY_VERSION@);
        lemma_knows(b.execution_versions@, CONTEXT_EXECUTION_VERSION@);
        lemma_knows(b.ir_versions@, CONTEXT_IR_VERSION@);
        lemma_knows(b.operation_versions@, QUERY_OPERATION_VERSION@);
        lemma_knows(b.operation_versions@, SOURCE_REFERENCE_OPERATION_VERSION@);
    }
}

/// The list names the version.
pub open spec fn knows(versions: Seq<String>, version: Seq<char>) -> bool {
    exists|i: int| 0 <= i < versions.len() && (#[trigger] versions[i])@ == version
}

/// Whatever one list names, the other does.
pub open spec fn knows_all(fewer: Seq<String>, more: Seq<String>) -> bool {
    forall|version: Seq<char>| #[trigger] knows(fewer, version) ==> knows(more, version)
}

proof fn lemma_knows(versions: Seq<String>, version: Seq<char>)
    ensures
        knows(versions, version) <==> text::texts(versions).contains(version),
        knows(versions, version) ==> versions.len() > 0,
{
    let all = text::texts(versions);
    if all.contains(version) {
        let i = choose|i: int| 0 <= i < all.len() && all[i] == version;
        assert(versions[i]@ == version);
    }
    if knows(versions, version) {
        let i = choose|i: int| 0 <= i < versions.len() && (#[trigger] versions[i])@ == version;
        assert(all[i] == version);
    }
}

/// The paths are queried first, then the symbols, each as what it is, and none beyond the
/// most that may be.
pub proof fn law_paths_are_queried_before_symbols(
    paths: &Vec<String>,
    symbols: &Vec<String>,
    r: Vec<LightQueryTarget>,
    i: int,
)
    requires
        call_ensures(light_query_targets, (paths, symbols), r),
        0 <= i < r@.len(),
    ensures
        r@.len() <= paths@.len() + symbols@.len(),
        r@.len() <= MAX_LIGHT_QUERY_TARGETS,
        r@.len() < paths@.len() + symbols@.len() ==> r@.len() == MAX_LIGHT_QUERY_TARGETS,
        i < paths@.len() ==> r@[i].target@ == paths@[i]@ && !r@[i].symbol,
        i >= paths@.len() ==> r@[i].target@ == symbols@[i - paths@.len()]@ && r@[i].symbol,
{
    let views = light_outcome::query_target_views(r@);
    let all = light_outcome::all_query_targets(text::texts(paths@), text::texts(symbols@));
    assert(views[i] == r@[i]@);
    assert(views.len() == r@.len());
    assert(views[i] == all[i]);
}

/// The counters of a LIGHT attempt say what was done: a call for each lookup, a record
/// for each row and reference, a unit of work for each target that was looked at.
pub proof fn law_light_attempts_count_what_they_did(e: LightEvidence)
    requires
        e.fault() is None,
        e.path_targets >= 0,
        e.symbol_targets >= 0,
        e.records() <= u64::MAX,
        e.work() <= u64::MAX,
    ensures
        e.counters().atlas_calls == 2 <==> e.plan.query && e.plan.sources,
        e.counters().atlas_calls == 0 <==> !e.plan.query && !e.plan.sources,
        e.results().len() == e.counters().atlas_calls,
        e.plan.query && e.plan.sources ==> e.counters().work_units == e.projections.len()
            + e.path_targets,
        e.plan.query && !e.plan.sources ==> e.counters().work_units == e.projections.len(),
        !e.plan.query && e.plan.sources ==> e.counters().work_units == e.path_targets,
        e.counters().source_bytes == 0,
        e.counters().estimated_tokens == 0,
{
}

/// The bytes of a directory are those of its files, one more adding its own.
pub proof fn law_directories_weigh_what_their_files_do(files: Seq<TempFileView>, more: TempFileView)
    ensures
        unregister::total_bytes(files.push(more)) == unregister::total_bytes(files)
            + more.byte_len,
        unregister::total_bytes(Seq::empty()) == 0,
{
    assert(files.push(more).drop_last() =~= files);
}

/// A projection more adds its own rows, of every kind it holds.
pub proof fn law_projections_count_their_rows(
    projections: Seq<LightQueryProjection>,
    more: LightQueryProjection,
)
    ensures
        light_outcome::total_records(projections.push(more)) == light_outcome::total_records(
            projections,
        ) + more.result.identity_matches@.len() + (match more.result.relationships {
            Some(rows) => rows@.len() as int,
            None => 0,
        }) + (match more.result.impact_targets {
            Some(rows) => rows@.len() as int,
            None => 0,
        }) + (match more.result.coverage {
            Some(rows) => rows@.len() as int,
            None => 0,
        }) + (match more.result.conflicts {
            Some(rows) => rows@.len() as int,
            None => 0,
        }),
        light_outcome::total_records(Seq::empty()) == 0,
{
    assert(projections.push(more).drop_last() =~= projections);
}

} // verus!
