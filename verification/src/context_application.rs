//! The shared application boundary for progressive context execution.
//!
//! Turns a transport-neutral governor request into a route request, settles the
//! decision, and holds what was delivered against what the execution says. Version
//! negotiation comes first, on its own; callers give task and target semantics,
//! never digests, classifications or observations.
use vstd::prelude::*;

pub use crate::application_cursor::{
    decode_application_cursor, decode_application_cursor_snapshot, encode_application_cursor,
    ApplicationCursorBinding, ApplicationCursorError, ApplicationCursorFilter,
    ApplicationCursorOperation, DecodedApplicationCursor,
};
pub use crate::application_error::{ApplicationBoundaryError, CatalogueContextApplicationError};
pub use crate::compiled_context::{CompiledContextShowPage, CompiledContextShowRequest};
pub use crate::context_yield::{show_context_yield, ContextYieldShowPage};
pub use crate::light_outcome::{
    CatalogueLightConflict, CatalogueLightCoverage, CatalogueLightIdentityMatch,
    CatalogueLightImpactTarget, CatalogueLightQueryTargetResult, CatalogueLightRelationship,
    CatalogueLightResults, CatalogueLightSourceReference,
};

use crate::application_error;
use crate::application_error::refuse;
use crate::context_capabilities;
use crate::context_dispatch;
use crate::context_dispatch::{execute_context_route, ContextRouteDispatcher, Exchange};
use crate::context_execution::{
    ContextExecution, ContextPayload, ExecutionState, LightOperationResult, PayloadView,
};
use crate::context_ir::{TaskKind, TaskKindSource};
use crate::context_metrics::{
    MAX_CONTEXT_EXECUTION_RECORDS, MAX_CONTEXT_EXECUTION_SOURCE_BYTES,
};
use crate::context_route;
use crate::context_route::{
    decide_context_route, negotiate_context_versions, validate_request, AtlasIntent, BudgetView,
    CapabilityMap, ContextRouteDecision, ContextRouteError, ContextRouteRequest,
    DeepContractVersions, DeepSemanticBudget, GenerationObservation, GenerationUnavailableReason,
    GenerationView, LightOperation, NegotiatedVersions, NegotiationRequest, RequestView, Route,
    RouteErrorView, SeedSummary, VersionedOperation, MAX_GOVERNOR_REQUEST_BYTES,
    MAX_GOVERNOR_TARGETS, MAX_GOVERNOR_TARGET_BYTES, TASK_CLASSIFIER_VERSION,
};
use crate::deep_context_ir::DeepContextIrV2;
use crate::digest;
use crate::digest::hash_of_text;
use crate::error::AtlasError;
use crate::light_outcome;
use crate::light_outcome::LightEvidence;
use crate::light_outcome_json;
use crate::light_outcome_json::{digest_of_query, digest_of_sources};
use crate::sorted;
use crate::sorted::sort_list;
use crate::text;
use crate::text::{is_blank, text_eq};

verus! {

/// A governor request: the versions that the caller supports and what it asks.
#[derive(Debug)]
pub struct GovernorRunRequest {
    pub supported_versions: NegotiationRequest,
    pub semantic: GovernorRunSemanticInput,
}

/// What a governor request asks.
#[derive(Debug)]
pub struct GovernorRunSemanticInput {
    pub task: String,
    pub declared_kind: Option<TaskKind>,
    pub path_targets: Vec<String>,
    pub symbol_targets: Vec<String>,
    pub caller_capabilities: CapabilityMap,
    pub atlas_intent: AtlasIntent,
    pub route_floor: Route,
    pub route_ceiling: Route,
    pub legacy_task_session_id: Option<String>,
    pub deep_limits: Option<GovernorDeepLimits>,
    pub materialize_source: bool,
    pub max_materialized_bytes: Option<u64>,
}

/// The semantic limits of the DEEP route.
#[derive(Debug, Clone, Copy, PartialEq, Eq, Structural)]
pub struct GovernorDeepLimits {
    pub max_records: u64,
    pub max_source_bytes: u64,
    pub max_estimated_tokens: u64,
    pub max_relationship_depth: u32,
    pub max_work_units: u64,
    pub uncertainty_reserve_percent: u8,
}

/// The task and the targets of an application run. A run without a task session has
/// an identity for the lifetime of its response only.
#[derive(Debug)]
pub struct CatalogueContextApplicationInput {
    pub task: String,
    pub declared_task_kind: Option<TaskKind>,
    pub task_session_id: Option<String>,
    pub seed_paths: Vec<String>,
    pub seed_symbols: Vec<String>,
    pub baseline_generation_id: Option<String>,
}

/// A governor request ready to be dispatched.
#[derive(Debug)]
pub struct GovernorRunApplicationRequest {
    pub negotiated_versions: NegotiatedVersions,
    pub route_request: ContextRouteRequest,
    pub catalogue_input: CatalogueContextApplicationInput,
    pub max_materialized_bytes: Option<u64>,
}

/// What an application run delivers.
#[derive(Debug)]
pub struct CatalogueContextApplicationOutput {
    pub execution: ContextExecution,
    pub light_results: Option<CatalogueLightResults>,
    pub deep_context_ir: Option<DeepContextIrV2>,
}

/// What a governor run delivers.
#[derive(Debug)]
pub struct GovernorRunOutput {
    pub negotiated_versions: NegotiatedVersions,
    pub execution: ContextExecution,
    pub light_results: Option<CatalogueLightResults>,
    pub deep_context_ir: Option<DeepContextIrV2>,
}

/// Why a request is refused.
pub ghost enum Refusal {
    Route { error: RouteErrorView },
    Message { message: Seq<char> },
}

/// A result is the refusal.
pub open spec fn refused_with<T>(
    r: Result<T, CatalogueContextApplicationError>,
    refusal: Refusal,
) -> bool {
    match refusal {
        Refusal::Route { error } => r matches Err(CatalogueContextApplicationError::Route(e)) && e@
            == error,
        Refusal::Message { message } => application_error::refused(r, message),
    }
}

/// The length of a text in bytes.
pub open spec fn byte_len(s: Seq<char>) -> int {
    digest::text_field(s).len() as int
}

/// A target that is empty or longer than an application accepts.
pub open spec fn target_out_of_bounds(target: Seq<char>) -> bool {
    target.len() == 0 || byte_len(target) > MAX_GOVERNOR_TARGET_BYTES
}

/// Some target is out of bounds.
pub open spec fn any_out_of_bounds(targets: Seq<Seq<char>>) -> bool {
    exists|i: int| 0 <= i < targets.len() && target_out_of_bounds(#[trigger] targets[i])
}

fn has_out_of_bounds(targets: &Vec<String>) -> (r: bool)
    ensures
        r == any_out_of_bounds(text::texts(targets@)),
{
    let ghost all = text::texts(targets@);
    for i in 0..targets.len()
        invariant
            all == text::texts(targets@),
            forall|j: int| 0 <= j < i ==> !target_out_of_bounds(#[trigger] all[j]),
    {
        assert(all[i as int] == targets@[i as int]@);
        let target = targets[i].as_str();
        if target.is_empty() || target.as_bytes().len() > MAX_GOVERNOR_TARGET_BYTES {
            assert(target_out_of_bounds(all[i as int]));
            return true;
        }
    }
    false
}

/// An ASCII text.
pub open spec fn ascii_only(s: Seq<char>) -> bool {
    forall|i: int| 0 <= i < s.len() ==> #[trigger] s[i] <= '\u{7f}'
}

fn is_ascii_only(s: &str) -> (r: bool)
    ensures
        r == ascii_only(s@),
{
    let chars = text::chars_of(s);
    for i in 0..chars.len()
        invariant
            chars@ == s@,
            forall|j: int| 0 <= j < i ==> #[trigger] s@[j] <= '\u{7f}',
    {
        if !(chars[i] <= '\u{7f}') {
            assert(!(s@[i as int] <= '\u{7f}'));
            return false;
        }
    }
    true
}

/// A session identity that an application accepts.
pub open spec fn session_id_valid(id: Seq<char>) -> bool {
    id.len() > 0 && byte_len(id) <= 128 && ascii_only(id)
}

/// The deep budget that limits stand for, with its digest.
pub open spec fn budget_of(limits: GovernorDeepLimits) -> BudgetView {
    let bare = BudgetView {
        max_records: limits.max_records,
        max_source_bytes: limits.max_source_bytes,
        max_estimated_tokens: limits.max_estimated_tokens,
        max_depth: limits.max_relationship_depth,
        max_work_units: limits.max_work_units,
        uncertainty_reserve_percent: limits.uncertainty_reserve_percent,
        budget_digest: Seq::empty(),
    };
    BudgetView { budget_digest: bare.digest(), ..bare }
}

/// The targets in canonical form: sorted, each once.
pub open spec fn canonical(targets: Seq<Seq<char>>) -> Seq<Seq<char>> {
    sorted::sorted_list::<String>(targets)
}

/// The targets in canonical form.
pub fn canonical_targets(values: &Vec<String>) -> (r: Vec<String>)
    ensures
        text::texts(r@) == canonical(text::texts(values@)),
{
    assert(sorted::views::<String>(values@) =~= text::texts(values@));
    let out = sort_list(values.as_slice());
    assert(sorted::views::<String>(out@) =~= text::texts(out@));
    out
}

impl GovernorRunSemanticInput {
    /// The materialization flag and its byte cap go together, and the cap is positive
    /// and within what is advertised.
    pub open spec fn materialization_valid(self) -> bool {
        match (self.materialize_source, self.max_materialized_bytes) {
            (false, None) => true,
            (true, Some(limit)) => 0 < limit <= MAX_CONTEXT_EXECUTION_SOURCE_BYTES,
            _ => false,
        }
    }

    /// What is wrong with the input before its targets are looked at together.
    pub open spec fn bounds_fault(self) -> Option<Refusal> {
        let paths = text::texts(self.path_targets@);
        let symbols = text::texts(self.symbol_targets@);
        if text::blank(self.task@) || byte_len(self.task@) > MAX_GOVERNOR_REQUEST_BYTES {
            Some(Refusal::Message { message: "governor task must contain 1..=1048576 bytes"@ })
        } else if paths.len() + symbols.len() > usize::MAX {
            Some(Refusal::Message { message: "governor target count overflow"@ })
        } else if paths.len() + symbols.len() > MAX_GOVERNOR_TARGETS || any_out_of_bounds(paths)
            || any_out_of_bounds(symbols) {
            Some(
                Refusal::Message {
                    message: "governor targets exceed the advertised application bounds"@,
                },
            )
        } else if self.legacy_task_session_id is Some && !session_id_valid(
            self.legacy_task_session_id->0@,
        ) {
            Some(
                Refusal::Message {
                    message: "legacy task session id exceeds the application bound"@,
                },
            )
        } else if !self.materialization_valid() {
            Some(
                Refusal::Message {
                    message: "materialization authorization requires one positive advertised byte cap"@,
                },
            )
        } else {
            None
        }
    }

    /// What is wrong with the deep limits.
    pub open spec fn limits_fault(self) -> Option<Refusal> {
        match self.deep_limits {
            Some(limits) => if self.route_ceiling != Route::AtlasDeep {
                Some(
                    Refusal::Message {
                        message: "DEEP semantic limits require an ATLAS_DEEP ceiling"@,
                    },
                )
            } else if !budget_of(limits).values_valid() {
                Some(Refusal::Route { error: RouteErrorView::InvalidDeepBudget })
            } else {
                None
            },
            None => if self.route_ceiling == Route::AtlasDeep {
                Some(Refusal::Route { error: RouteErrorView::DeepBudgetRequired })
            } else {
                None
            },
        }
    }

    /// The route request that the input stands for, given the digest of its task, its
    /// classification and the observed generation.
    pub open spec fn route_request(
        self,
        normalized_task_hash: Seq<char>,
        classifier_kind: TaskKind,
        starting_generation: GenerationView,
    ) -> RequestView {
        RequestView {
            schema_version: context_route::CONTEXT_ROUTE_POLICY_VERSION@,
            normalized_task_hash,
            declared_kind: self.declared_kind,
            classifier_kind,
            classifier_version: TASK_CLASSIFIER_VERSION@,
            explicit_seeds: context_route::seed_summary(
                canonical(text::texts(self.path_targets@)),
                canonical(text::texts(self.symbol_targets@)),
            ),
            caller_capabilities: self.caller_capabilities,
            atlas_intent: self.atlas_intent,
            route_floor: self.route_floor,
            route_ceiling: self.route_ceiling,
            capability_profile: None,
            cost_profile: None,
            profile_registry_digest: None,
            starting_generation,
            light_operations: context_route::pinned_operations(),
            deep_contracts: context_route::pinned_deep_contracts(),
            deep_budget: match self.deep_limits {
                Some(limits) => Some(budget_of(limits)),
                None => None,
            },
        }
    }
}

/// The first refusal of two.
pub open spec fn first_refusal(a: Option<Refusal>, b: Option<Refusal>) -> Option<Refusal> {
    if a is Some {
        a
    } else {
        b
    }
}

/// A route error as a refusal.
pub open spec fn route_refusal(error: Option<RouteErrorView>) -> Option<Refusal> {
    match error {
        Some(e) => Some(Refusal::Route { error: e }),
        None => None,
    }
}

impl GovernorRunRequest {
    /// Why the request is refused, if it is: versions, then bounds, then limits, then
    /// the route itself.
    pub open spec fn fault(
        self,
        normalized_task_hash: Seq<char>,
        classifier_kind: TaskKind,
        starting_generation: GenerationView,
    ) -> Option<Refusal> {
        if !context_capabilities::common_versions(self.supported_versions) {
            Some(
                Refusal::Route {
                    error: RouteErrorView::NoCommonVersion {
                        supported: context_capabilities::supported_versions(),
                    },
                },
            )
        } else {
            first_refusal(
                self.semantic.bounds_fault(),
                first_refusal(
                    self.semantic.limits_fault(),
                    route_refusal(
                        self.semantic.route_request(
                            normalized_task_hash,
                            classifier_kind,
                            starting_generation,
                        ).fault(),
                    ),
                ),
            )
        }
    }
}

fn check_bounds(semantic: &GovernorRunSemanticInput) -> (r: Result<
    (),
    CatalogueContextApplicationError,
>)
    ensures
        match semantic.bounds_fault() {
            Some(refusal) => refused_with(r, refusal),
            None => r is Ok,
        },
{
    if is_blank(semantic.task.as_str()) || semantic.task.as_str().as_bytes().len()
        > MAX_GOVERNOR_REQUEST_BYTES {
        return Err(refuse("governor task must contain 1..=1048576 bytes"));
    }
    let count: usize = match semantic.path_targets.len().checked_add(
        semantic.symbol_targets.len(),
    ) {
        Some(sum) => sum,
        None => return Err(refuse("governor target count overflow")),
    };
    if count > MAX_GOVERNOR_TARGETS || has_out_of_bounds(&semantic.path_targets)
        || has_out_of_bounds(&semantic.symbol_targets) {
        return Err(refuse("governor targets exceed the advertised application bounds"));
    }
    if let Some(id) = &semantic.legacy_task_session_id {
        if id.as_str().is_empty() || id.as_str().as_bytes().len() > 128 || !is_ascii_only(
            id.as_str(),
        ) {
            return Err(refuse("legacy task session id exceeds the application bound"));
        }
    }
    let valid = match (semantic.materialize_source, semantic.max_materialized_bytes) {
        (false, None) => true,
        (true, Some(limit)) => limit > 0 && limit <= MAX_CONTEXT_EXECUTION_SOURCE_BYTES,
        _ => false,
    };
    if !valid {
        return Err(
            refuse("materialization authorization requires one positive advertised byte cap"),
        );
    }
    Ok(())
}

fn deep_budget_of(semantic: &GovernorRunSemanticInput) -> (r: Result<
    Option<DeepSemanticBudget>,
    CatalogueContextApplicationError,
>)
    ensures
        match semantic.limits_fault() {
            Some(refusal) => refused_with(r, refusal),
            None => r matches Ok(budget) && context_route::opt_budget(budget) == (
            match semantic.deep_limits {
                Some(limits) => Some(budget_of(limits)),
                None => None,
            }),
        },
{
    match semantic.deep_limits {
        Some(limits) => {
            if semantic.route_ceiling != Route::AtlasDeep {
                return Err(refuse("DEEP semantic limits require an ATLAS_DEEP ceiling"));
            }
            match DeepSemanticBudget::new(
                limits.max_records,
                limits.max_source_bytes,
                limits.max_estimated_tokens,
                limits.max_relationship_depth,
                limits.max_work_units,
                limits.uncertainty_reserve_percent,
            ) {
                Ok(budget) => Ok(Some(budget)),
                Err(problem) => Err(CatalogueContextApplicationError::Route(problem)),
            }
        },
        None => if semantic.route_ceiling == Route::AtlasDeep {
            Err(CatalogueContextApplicationError::Route(ContextRouteError::DeepBudgetRequired))
        } else {
            Ok(None)
        },
    }
}

fn pinned_light_operations() -> (r: Vec<VersionedOperation>)
    ensures
        context_route::operation_views(r@) == context_route::pinned_operations(),
{
    let mut out: Vec<VersionedOperation> = Vec::new();
    out.push(VersionedOperation::new(LightOperation::Query));
    out.push(VersionedOperation::new(LightOperation::SourceReference));
    assert(context_route::operation_views(out@) =~= context_route::pinned_operations());
    out
}

/// Builds the one transport-neutral governor request. The digest of the task and its
/// classification come from the task compiler, the observation from the catalogue.
pub fn build_governor_run_request(
    request: GovernorRunRequest,
    normalized_task_hash: String,
    classifier_kind: TaskKind,
    starting_generation: GenerationObservation,
) -> (r: Result<GovernorRunApplicationRequest, CatalogueContextApplicationError>)
    ensures
        match request.fault(normalized_task_hash@, classifier_kind, starting_generation@) {
            Some(refusal) => refused_with(r, refusal),
            None => r matches Ok(built) && {
                &&& built.route_request@ == request.semantic.route_request(
                    normalized_task_hash@,
                    classifier_kind,
                    starting_generation@,
                )
                &&& built.negotiated_versions.route_version@
                    == context_route::CONTEXT_ROUTE_POLICY_VERSION@
                &&& built.negotiated_versions.decision_version@
                    == context_route::CONTEXT_ROUTE_POLICY_VERSION@
                &&& text::texts(built.negotiated_versions.operation_versions@)
                    == context_capabilities::supported_versions().operation_versions
                &&& built.negotiated_versions.capability_version@
                    == context_route::CONTEXT_CAPABILITIES_VERSION@
                &&& built.negotiated_versions.execution_version@
                    == context_route::CONTEXT_EXECUTION_VERSION@
                &&& built.negotiated_versions.ir_version@ == context_route::CONTEXT_IR_VERSION@
                &&& built.catalogue_input.task == request.semantic.task
                &&& built.catalogue_input.declared_task_kind == request.semantic.declared_kind
                &&& built.catalogue_input.task_session_id == request.semantic.legacy_task_session_id
                &&& text::texts(built.catalogue_input.seed_paths@) == canonical(
                    text::texts(request.semantic.path_targets@),
                )
                &&& text::texts(built.catalogue_input.seed_symbols@) == canonical(
                    text::texts(request.semantic.symbol_targets@),
                )
                &&& built.catalogue_input.baseline_generation_id is None
                &&& built.max_materialized_bytes == request.semantic.max_materialized_bytes
            },
        },
{
    let negotiated_versions = match negotiate_context_versions(&request.supported_versions) {
        Ok(versions) => versions,
        Err(problem) => return Err(CatalogueContextApplicationError::Route(problem)),
    };
    let semantic = request.semantic;
    match check_bounds(&semantic) {
        Ok(()) => {},
        Err(problem) => return Err(problem),
    }
    let deep_budget = match deep_budget_of(&semantic) {
        Ok(budget) => budget,
        Err(problem) => return Err(problem),
    };
    let seed_paths = canonical_targets(&semantic.path_targets);
    let seed_symbols = canonical_targets(&semantic.symbol_targets);
    proof {
        let paths = text::texts(semantic.path_targets@);
        let symbols = text::texts(semantic.symbol_targets@);
        assert(sorted::views::<String>(seed_paths@) =~= text::texts(seed_paths@));
        assert(sorted::views::<String>(seed_symbols@) =~= text::texts(seed_symbols@));
        sorted::lemma_sorted_list::<String>(paths);
        sorted::lemma_sorted_list::<String>(symbols);
        sorted::lemma_sorted_list::<String>(canonical(paths));
        sorted::lemma_sorted_list::<String>(canonical(symbols));
        sorted::lemma_sorted_unique::<String>(
            canonical(canonical(paths)),
            canonical(paths),
        );
        sorted::lemma_sorted_unique::<String>(
            canonical(canonical(symbols)),
            canonical(symbols),
        );
    }
    let explicit_seeds = match SeedSummary::from_targets(
        seed_paths.as_slice(),
        seed_symbols.as_slice(),
    ) {
        Ok(summary) => summary,
        Err(problem) => return Err(CatalogueContextApplicationError::Route(problem)),
    };
    let route_request = ContextRouteRequest {
        schema_version: negotiated_versions.route_version.clone(),
        normalized_task_hash,
        declared_kind: semantic.declared_kind,
        classifier_kind,
        classifier_version: TASK_CLASSIFIER_VERSION.to_string(),
        explicit_seeds,
        caller_capabilities: semantic.caller_capabilities,
        atlas_intent: semantic.atlas_intent,
        route_floor: semantic.route_floor,
        route_ceiling: semantic.route_ceiling,
        capability_profile: None,
        cost_profile: None,
        profile_registry_digest: None,
        starting_generation,
        light_operations: pinned_light_operations(),
        deep_contracts: DeepContractVersions::fixed(),
        deep_budget,
    };
    match validate_request(&route_request) {
        Ok(()) => {},
        Err(problem) => return Err(CatalogueContextApplicationError::Route(problem)),
    }
    Ok(
        GovernorRunApplicationRequest {
            negotiated_versions,
            route_request,
            catalogue_input: CatalogueContextApplicationInput {
                task: semantic.task,
                declared_task_kind: semantic.declared_kind,
                task_session_id: semantic.legacy_task_session_id,
                seed_paths,
                seed_symbols,
                baseline_generation_id: None,
            },
            max_materialized_bytes: semantic.max_materialized_bytes,
        },
    )
}

/// Decides the route of a request and runs it against a dispatcher.
pub fn dispatch_context_application<D: ContextRouteDispatcher>(
    request: ContextRouteRequest,
    dispatcher: &mut D,
) -> (r: Result<ContextExecution, D::Error>)
    ensures
        request@.fault() is Some ==> r is Err && context_dispatch::converted::<D::Error>(
            request@.fault()->0,
            r->Err_0,
        ),
        request@.fault() is None ==> exists|calls: Seq<Exchange<D, D::Error>>|
            {
                &&& #[trigger] context_dispatch::executes(request@.decided(), calls, r)
                &&& context_dispatch::unbroken(calls, *old(dispatcher), *final(dispatcher))
                &&& forall|i: int|
                    0 <= i < calls.len() ==> {
                        let call = #[trigger] calls[i];
                        exists|d: &mut D| #[trigger]
                            context_dispatch::answered(d, call) && *final(d) == call.after
                    }
            },
        request@.fault() is Some || context_dispatch::settles_alone(request@.decided())
            ==> *final(dispatcher) == *old(dispatcher),
        request@.fault() is None && context_dispatch::settles_alone(request@.decided()) ==> {
            &&& r is Ok
            &&& exists|elapsed: u64|
                elapsed >= 1 && #[trigger] context_dispatch::begin_step(
                    request@.decided(),
                    elapsed,
                ) == (context_dispatch::StepView::Finish { execution: r->Ok_0@ })
        },
        r is Ok ==> r->Ok_0@.fault() is None,
        r is Ok ==> r->Ok_0@.decision == request@.decided(),
{
    match decide_context_route(request) {
        Ok(decision) => {
            proof {
                context_route::law_decisions_validate(request@);
            }
            execute_context_route(decision, dispatcher)
        },
        Err(problem) => {
            let ghost seen = problem;
            let error = <D::Error as From<ContextRouteError>>::from(problem);
            assert(call_ensures(<D::Error as From<ContextRouteError>>::from, (seen,), error));
            Err(error)
        },
    }
}

/// What the task compiler says of a task.
#[derive(Debug)]
pub struct TaskClassification {
    pub normalized_goal_hash: String,
    pub task_kind: TaskKind,
    pub kind_source: TaskKindSource,
    pub kind_rule_id: Option<String>,
}

/// An application input whose identity is the one that the route request carries.
#[derive(Debug)]
pub struct ValidatedCatalogueContextInput {
    pub task_hash: String,
    pub normalized_goal_hash: String,
    pub task_kind: TaskKind,
    pub kind_source: TaskKindSource,
    pub kind_rule_id: Option<String>,
    pub seed_paths: Vec<String>,
    pub seed_symbols: Vec<String>,
}

/// What is wrong with an application input for a route request, if anything is.
pub open spec fn input_fault(
    request: RequestView,
    input: CatalogueContextApplicationInput,
    normalized_goal_hash: Seq<char>,
    task_kind: TaskKind,
) -> Option<Seq<char>> {
    let paths = canonical(text::texts(input.seed_paths@));
    let symbols = canonical(text::texts(input.seed_symbols@));
    if text::blank(input.task@) {
        Some("context task must not be empty"@)
    } else if paths.len() + symbols.len() > usize::MAX {
        Some("context target count overflow"@)
    } else if paths.len() + symbols.len() > MAX_CONTEXT_EXECUTION_RECORDS || any_out_of_bounds(
        paths,
    ) || any_out_of_bounds(symbols) {
        Some("context targets exceed the bounded application envelope"@)
    } else if request.normalized_task_hash != normalized_goal_hash || request.declared_kind
        != input.declared_task_kind || request.classifier_kind != task_kind
        || request.explicit_seeds != context_route::seed_summary(paths, symbols) {
        Some("route identity does not match the actual task and targets"@)
    } else {
        None
    }
}

fn same_seeds(a: &SeedSummary, b: &SeedSummary) -> (r: bool)
    ensures
        r == (a@ == b@),
{
    text_eq(a.digest.as_str(), b.digest.as_str()) && a.path_count == b.path_count && a.symbol_count
        == b.symbol_count
}

/// Holds the task and the targets against the identity of the route request.
pub fn validate_catalogue_application_input(
    request: &ContextRouteRequest,
    input: &CatalogueContextApplicationInput,
    classified: TaskClassification,
) -> (r: Result<ValidatedCatalogueContextInput, CatalogueContextApplicationError>)
    ensures
        match input_fault(
            request@,
            *input,
            classified.normalized_goal_hash@,
            classified.task_kind,
        ) {
            Some(message) => application_error::refused(r, message),
            None => r matches Ok(valid) && {
                &&& valid.task_hash@ == digest::content_hash(digest::text_field(input.task@))
                &&& valid.normalized_goal_hash == classified.normalized_goal_hash
                &&& valid.task_kind == classified.task_kind
                &&& valid.kind_source == classified.kind_source
                &&& valid.kind_rule_id == classified.kind_rule_id
                &&& text::texts(valid.seed_paths@) == canonical(text::texts(input.seed_paths@))
                &&& text::texts(valid.seed_symbols@) == canonical(text::texts(input.seed_symbols@))
            },
        },
{
    if is_blank(input.task.as_str()) {
        return Err(refuse("context task must not be empty"));
    }
    let seed_paths = canonical_targets(&input.seed_paths);
    let seed_symbols = canonical_targets(&input.seed_symbols);
    let ghost paths = canonical(text::texts(input.seed_paths@));
    let ghost symbols = canonical(text::texts(input.seed_symbols@));
    proof {
        assert(text::texts(seed_paths@).len() == seed_paths@.len());
        assert(text::texts(seed_symbols@).len() == seed_symbols@.len());
    }
    let count: usize = match seed_paths.len().checked_add(seed_symbols.len()) {
        Some(sum) => sum,
        None => return Err(refuse("context target count overflow")),
    };
    if count as u64 > MAX_CONTEXT_EXECUTION_RECORDS || has_out_of_bounds(&seed_paths)
        || has_out_of_bounds(&seed_symbols) {
        return Err(refuse("context targets exceed the bounded application envelope"));
    }
    proof {
        assert(sorted::views::<String>(seed_paths@) =~= paths);
        assert(sorted::views::<String>(seed_symbols@) =~= symbols);
        sorted::lemma_sorted_list::<String>(text::texts(input.seed_paths@));
        sorted::lemma_sorted_list::<String>(text::texts(input.seed_symbols@));
        sorted::lemma_sorted_list::<String>(paths);
        sorted::lemma_sorted_list::<String>(symbols);
        sorted::lemma_sorted_unique::<String>(canonical(paths), paths);
        sorted::lemma_sorted_unique::<String>(canonical(symbols), symbols);
    }
    let summary = match SeedSummary::from_targets(seed_paths.as_slice(), seed_symbols.as_slice()) {
        Ok(summary) => summary,
        Err(problem) => return Err(CatalogueContextApplicationError::Route(problem)),
    };
    if !text_eq(
        request.normalized_task_hash.as_str(),
        classified.normalized_goal_hash.as_str(),
    ) || request.declared_kind != input.declared_task_kind || request.classifier_kind
        != classified.task_kind || !same_seeds(&request.explicit_seeds, &summary) {
        return Err(refuse("route identity does not match the actual task and targets"));
    }
    Ok(
        ValidatedCatalogueContextInput {
            task_hash: hash_of_text(input.task.as_str()),
            normalized_goal_hash: classified.normalized_goal_hash,
            task_kind: classified.task_kind,
            kind_source: classified.kind_source,
            kind_rule_id: classified.kind_rule_id,
            seed_paths,
            seed_symbols,
        },
    )
}

/// The request that a governor built passes the identity check against its own task
/// and targets.
pub proof fn law_governor_requests_match_their_input(
    semantic: GovernorRunSemanticInput,
    input: CatalogueContextApplicationInput,
    normalized_task_hash: Seq<char>,
    kind: TaskKind,
    generation: GenerationView,
)
    requires
        semantic.bounds_fault() is None,
        input.task@ == semantic.task@,
        input.declared_task_kind == semantic.declared_kind,
        text::texts(input.seed_paths@) == canonical(text::texts(semantic.path_targets@)),
        text::texts(input.seed_symbols@) == canonical(text::texts(semantic.symbol_targets@)),
    ensures
        input_fault(
            semantic.route_request(normalized_task_hash, kind, generation),
            input,
            normalized_task_hash,
            kind,
        ) is None,
{
    let paths = text::texts(semantic.path_targets@);
    let symbols = text::texts(semantic.symbol_targets@);
    lemma_canonical(paths);
    lemma_canonical(symbols);
}

proof fn lemma_canonical(targets: Seq<Seq<char>>)
    ensures
        canonical(canonical(targets)) == canonical(targets),
        canonical(targets).len() <= targets.len(),
        !any_out_of_bounds(targets) ==> !any_out_of_bounds(canonical(targets)),
{
    sorted::lemma_sorted_list::<String>(targets);
    sorted::lemma_sorted_list::<String>(canonical(targets));
    sorted::lemma_sorted_unique::<String>(canonical(canonical(targets)), canonical(targets));
    if any_out_of_bounds(canonical(targets)) {
        let c = canonical(targets);
        let i = choose|i: int| 0 <= i < c.len() && target_out_of_bounds(#[trigger] c[i]);
        assert(c.contains(c[i]));
        let k = choose|k: int| 0 <= k < targets.len() && targets[k] == c[i];
        assert(target_out_of_bounds(targets[k]));
    }
}

/// What the catalogue says of the active generation: none where the workspace has
/// none, and a failed observation where the catalogue could not be asked.
pub fn generation_observation(active: Result<Option<String>, ()>) -> (r: GenerationObservation)
    ensures
        r@ == (match active {
            Ok(Some(generation_id)) => GenerationView::Observed { generation_id: generation_id@ },
            Ok(None) => GenerationView::Unavailable {
                reason: GenerationUnavailableReason::NoActiveGeneration,
            },
            Err(_) => GenerationView::Unavailable {
                reason: GenerationUnavailableReason::ObservationFailed,
            },
        }),
{
    match active {
        Ok(Some(generation_id)) => GenerationObservation::Observed { generation_id },
        Ok(None) => GenerationObservation::Unavailable {
            reason: GenerationUnavailableReason::NoActiveGeneration,
        },
        Err(_) => GenerationObservation::Unavailable {
            reason: GenerationUnavailableReason::ObservationFailed,
        },
    }
}

/// The generation that a dispatch to the Atlas runs against.
pub fn expected_generation(decision: &ContextRouteDecision) -> (r: Result<String, AtlasError>)
    ensures
        match decision.starting_generation@ {
            GenerationView::Observed { generation_id } => r matches Ok(id) && id@ == generation_id,
            GenerationView::Unavailable { reason } => r matches Err(AtlasError::InvalidConfig(m))
                && m@ == "Atlas dispatch requires an observed starting generation"@,
        },
{
    match &decision.starting_generation {
        GenerationObservation::Observed { generation_id } => Ok(generation_id.clone()),
        GenerationObservation::Unavailable { .. } => Err(
            AtlasError::InvalidConfig(
                "Atlas dispatch requires an observed starting generation".to_string(),
            ),
        ),
    }
}

/// A bound task session needs an observed generation to start from.
pub fn bound_start_generation(request: &ContextRouteRequest, session: &Option<String>) -> (r:
    Result<Option<String>, CatalogueContextApplicationError>)
    ensures
        if session is None {
            r matches Ok(found) && found is None
        } else {
            match request@.starting_generation {
                GenerationView::Observed { generation_id } => r matches Ok(found)
                    && text::opt_text(found) == Some(generation_id),
                GenerationView::Unavailable { reason } => application_error::refused(
                    r,
                    "bound legacy task session requires an observed starting generation"@,
                ),
            }
        },
{
    if session.is_none() {
        return Ok(None);
    }
    match &request.starting_generation {
        GenerationObservation::Observed { generation_id } => Ok(Some(generation_id.clone())),
        GenerationObservation::Unavailable { .. } => Err(
            refuse("bound legacy task session requires an observed starting generation"),
        ),
    }
}

/// The request that is decided: the given one, or the one with the generation that
/// is observed now where DIRECT succeeds without the Atlas.
pub open spec fn settled_request(request: RequestView, observed: GenerationView) -> RequestView {
    if request.decided().initial_route == Route::Direct
        && request.decided().requested_capabilities.all_satisfied() {
        RequestView { starting_generation: observed, ..request }
    } else {
        request
    }
}

/// Decides the route of a request. A run that needs nothing from the Atlas is
/// decided against the generation that is observed now.
pub fn settle_decision(request: ContextRouteRequest, observed: GenerationObservation) -> (r: Result<
    ContextRouteDecision,
    ContextRouteError,
>)
    ensures
        request@.fault() is Some ==> context_route::fault_of(r) == request@.fault(),
        request@.fault() is None ==> {
            let settled = settled_request(request@, observed@);
            &&& context_route::fault_of(r) == settled.fault()
            &&& r is Ok ==> r->Ok_0@ == settled.decided()
        },
{
    let initial = match decide_context_route(request) {
        Ok(decision) => decision,
        Err(problem) => return Err(problem),
    };
    let direct = initial.initial_route == Route::Direct
        && initial.requested_capabilities.is_all_satisfied();
    if direct && !initial.request.starting_generation.same(&observed) {
        let mut again = initial.request;
        again.starting_generation = observed;
        proof {
            assert(again@ == (RequestView { starting_generation: observed@, ..request@ }));
        }
        decide_context_route(again)
    } else {
        proof {
            if direct {
                assert((RequestView { starting_generation: observed@, ..request@ }) == request@);
            }
        }
        Ok(initial)
    }
}

/// A result of the LIGHT route has the digest of what was looked up for it.
pub open spec fn light_result_backed(
    operation: LightOperation,
    result_digest: Seq<char>,
    query: Option<Seq<char>>,
    sources: Option<Seq<char>>,
) -> bool {
    match operation {
        LightOperation::Query => query == Some(result_digest),
        LightOperation::SourceReference => sources == Some(result_digest),
    }
}

/// The digest of what a query looked up.
pub open spec fn query_lookup(results: CatalogueLightResults) -> Option<Seq<char>> {
    match results.query {
        Some(items) => Some(light_outcome_json::query_digest(items@)),
        None => None,
    }
}

/// The digest of the sources that were looked up.
pub open spec fn source_lookup(results: CatalogueLightResults) -> Option<Seq<char>> {
    match results.source_references {
        Some(items) => Some(light_outcome_json::source_digest(items@)),
        None => None,
    }
}

/// What was looked up is what the execution hands on: the payload is a LIGHT bundle
/// with one backed result per lookup.
pub open spec fn light_results_backed(
    payload: Option<PayloadView>,
    query: Option<Seq<char>>,
    sources: Option<Seq<char>>,
) -> bool {
    payload matches Some(PayloadView::LightBundle { operations }) && {
        &&& operations.len() == (if query is Some {
            1int
        } else {
            0
        }) + (if sources is Some {
            1int
        } else {
            0
        })
        &&& forall|i: int|
            0 <= i < operations.len() ==> light_result_backed(
                (#[trigger] operations[i]).operation,
                operations[i].result_digest,
                query,
                sources,
            )
    }
}

fn digest_matches(found: &Option<String>, expected: &str) -> (r: bool)
    ensures
        r == (text::opt_text(*found) == Some(expected@)),
{
    match found {
        Some(found) => text_eq(found.as_str(), expected),
        None => false,
    }
}

/// Whether the lookups of the LIGHT route are what the execution hands on.
pub fn light_results_match(execution: &ContextExecution, results: &CatalogueLightResults) -> (r:
    bool)
    ensures
        r == light_results_backed(
            execution@.payload,
            query_lookup(*results),
            source_lookup(*results),
        ),
{
    let payload = match execution.payload() {
        Some(payload) => payload,
        None => return false,
    };
    let query: Option<String> = match &results.query {
        Some(items) => Some(digest_of_query(items)),
        None => None,
    };
    let sources: Option<String> = match &results.source_references {
        Some(items) => Some(digest_of_sources(items)),
        None => None,
    };
    let ghost asked = text::opt_text(query);
    let ghost read = text::opt_text(sources);
    match payload {
        ContextPayload::LightBundle { operations } => {
            let ghost views = Seq::new(operations@.len(), |i: int| operations@[i]@);
            let expected: usize = (if query.is_some() {
                1usize
            } else {
                0usize
            }) + (if sources.is_some() {
                1usize
            } else {
                0usize
            });
            if operations.len() != expected {
                return false;
            }
            for i in 0..operations.len()
                invariant
                    views == Seq::new(operations@.len(), |i: int| operations@[i]@),
                    execution@.payload == Some(PayloadView::LightBundle { operations: views }),
                    asked == text::opt_text(query),
                    read == text::opt_text(sources),
                    asked == query_lookup(*results),
                    read == source_lookup(*results),
                    forall|j: int|
                        0 <= j < i ==> light_result_backed(
                            (#[trigger] views[j]).operation,
                            views[j].result_digest,
                            asked,
                            read,
                        ),
            {
                assert(views[i as int] == operations@[i as int]@);
                let backed = match &operations[i] {
                    LightOperationResult::Query { result_digest, .. } => digest_matches(
                        &query,
                        result_digest.as_str(),
                    ),
                    LightOperationResult::SourceReference { result_digest, .. } => digest_matches(
                        &sources,
                        result_digest.as_str(),
                    ),
                };
                if !backed {
                    assert(!light_result_backed(
                        views[i as int].operation,
                        views[i as int].result_digest,
                        asked,
                        read,
                    ));
                    return false;
                }
            }
            true
        },
        _ => false,
    }
}

/// What the LIGHT route hands on is backed by what it looked up.
pub proof fn law_light_results_are_backed(e: LightEvidence)
    requires
        e.plan.query || e.plan.sources,
    ensures
        light_results_backed(
            light_outcome::light_payload(e.results()),
            if e.plan.query {
                Some(
                    light_outcome_json::query_digest(
                        light_outcome_json::projected_results(e.projections),
                    ),
                )
            } else {
                None
            },
            if e.plan.sources {
                Some(light_outcome_json::source_digest(e.references))
            } else {
                None
            },
        ),
{
}

/// A deep document is the one that the execution hands on.
pub open spec fn deep_document_backed(
    payload: Option<PayloadView>,
    document: DeepContextIrV2,
) -> bool {
    payload matches Some(PayloadView::DeepContextIr { context_ir_version, context_hash })
        && context_hash == document.context_hash@
}

/// Whether a deep document is the one that the execution hands on.
pub fn deep_document_matches(execution: &ContextExecution, document: &DeepContextIrV2) -> (r: bool)
    ensures
        r == deep_document_backed(execution@.payload, *document),
{
    match execution.payload() {
        Some(ContextPayload::DeepContextIr { result }) => text_eq(
            result.context_hash.as_str(),
            document.context_hash.as_str(),
        ),
        _ => false,
    }
}

/// Context was acquired: the run completed, or it delivered part from the Atlas. A
/// bound task session is moved on in that case only.
pub fn acquired_context(execution: &ContextExecution) -> (r: bool)
    ensures
        r == (execution@.state == ExecutionState::Completed || (execution@.state
            == ExecutionState::Partial && execution@.payload != Some(PayloadView::DirectNone))),
{
    match execution.state() {
        ExecutionState::Completed => true,
        ExecutionState::Partial => match execution.payload() {
            Some(ContextPayload::DirectNone {  }) => false,
            _ => true,
        },
        _ => false,
    }
}

/// A public request cannot grant the authority to materialize source.
pub fn check_public_request(request: &GovernorRunRequest) -> (r: Result<
    (),
    CatalogueContextApplicationError,
>)
    ensures
        if request.semantic.materialize_source || request.semantic.max_materialized_bytes is Some {
            application_error::refused(
                r,
                "public governor request cannot grant source materialization authority"@,
            )
        } else {
            r is Ok
        },
{
    if request.semantic.materialize_source || request.semantic.max_materialized_bytes.is_some() {
        return Err(
            refuse("public governor request cannot grant source materialization authority"),
        );
    }
    Ok(())
}


/// What a run returns: the execution, and of what was looked up and compiled only that
/// which the execution hands on.
pub fn application_output(
    execution: ContextExecution,
    light_results: CatalogueLightResults,
    deep_context_ir: Option<DeepContextIrV2>,
) -> (r: CatalogueContextApplicationOutput)
    ensures
        r.execution == execution,
        r.light_results == (if light_results_backed(
            execution@.payload,
            query_lookup(light_results),
            source_lookup(light_results),
        ) {
            Some(light_results)
        } else {
            None
        }),
        r.deep_context_ir == (match deep_context_ir {
            Some(document) => if deep_document_backed(execution@.payload, document) {
                Some(document)
            } else {
                None
            },
            None => None,
        }),
{
    let light_results = if light_results_match(&execution, &light_results) {
        Some(light_results)
    } else {
        None
    };
    let deep_context_ir = match deep_context_ir {
        Some(document) => if deep_document_matches(&execution, &document) {
            Some(document)
        } else {
            None
        },
        None => None,
    };
    CatalogueContextApplicationOutput { execution, light_results, deep_context_ir }
}

/// What a governor run returns: the versions that it was negotiated for, and what the
/// run returned.
pub fn governor_output(
    negotiated_versions: NegotiatedVersions,
    output: CatalogueContextApplicationOutput,
) -> (r: GovernorRunOutput)
    ensures
        r.negotiated_versions == negotiated_versions,
        r.execution == output.execution,
        r.light_results == output.light_results,
        r.deep_context_ir == output.deep_context_ir,
{
    GovernorRunOutput {
        negotiated_versions,
        execution: output.execution,
        light_results: output.light_results,
        deep_context_ir: output.deep_context_ir,
    }
}

} // verus!
