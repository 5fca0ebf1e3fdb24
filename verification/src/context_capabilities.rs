//! Capability discovery and version negotiation.
use vstd::prelude::*;

use crate::context_execution::{CapabilityDeficitReason, ExecutionState, RouteFailureReason};
use crate::context_metrics::{
    MAX_CONTEXT_EXECUTION_ATLAS_CALLS, MAX_CONTEXT_EXECUTION_ESTIMATED_TOKENS,
    MAX_CONTEXT_EXECUTION_RECORDS, MAX_CONTEXT_EXECUTION_SOURCE_BYTES,
    MAX_CONTEXT_EXECUTION_WORK_UNITS,
};
use crate::context_route;
use crate::context_route::{
    ContextRouteError, RequiredCapability, Route, RouteErrorView, RouteReason, RouteSignal,
    CONTEXT_CAPABILITIES_VERSION, CONTEXT_EXECUTION_VERSION, CONTEXT_IR_VERSION,
    CONTEXT_ROUTE_POLICY_VERSION, DEFAULT_APPLICATION_PAGE_LIMIT, MAX_APPLICATION_CURSOR_BYTES,
    MAX_APPLICATION_PAGE_LIMIT, MAX_DEEP_DEPTH, MAX_EXECUTION_DIAGNOSTICS,
    MAX_GOVERNOR_REQUEST_BYTES, MAX_GOVERNOR_TARGETS, MAX_GOVERNOR_TARGET_BYTES,
    MAX_MATERIALIZED_SOURCES, MAX_ROUTE_ATTEMPTS, MAX_ROUTE_CAPABILITIES, QUERY_OPERATION_VERSION,
    SOURCE_REFERENCE_OPERATION_VERSION,
};
use crate::text;

verus! {

#[derive(Debug, Clone, PartialEq, Eq)]
pub struct SupportedVersions {
    pub capability_versions: Vec<String>,
    pub route_versions: Vec<String>,
    pub decision_versions: Vec<String>,
    pub execution_versions: Vec<String>,
    pub ir_versions: Vec<String>,
    pub operation_versions: Vec<String>,
}

pub struct SupportedVersionsView {
    pub capability_versions: Seq<Seq<char>>,
    pub route_versions: Seq<Seq<char>>,
    pub decision_versions: Seq<Seq<char>>,
    pub execution_versions: Seq<Seq<char>>,
    pub ir_versions: Seq<Seq<char>>,
    pub operation_versions: Seq<Seq<char>>,
}

impl View for SupportedVersions {
    type V = SupportedVersionsView;

    open spec fn view(&self) -> SupportedVersionsView {
        SupportedVersionsView {
            capability_versions: text::texts(self.capability_versions@),
            route_versions: text::texts(self.route_versions@),
            decision_versions: text::texts(self.decision_versions@),
            execution_versions: text::texts(self.execution_versions@),
            ir_versions: text::texts(self.ir_versions@),
            operation_versions: text::texts(self.operation_versions@),
        }
    }
}

#[derive(Debug, Clone, Copy, PartialEq, Eq, PartialOrd, Ord, Structural)]
pub enum Availability {
    Available,
    Unavailable,
    Unknown,
}

#[derive(Debug, Clone, Copy, PartialEq, Eq, PartialOrd, Ord, Structural)]
pub enum CapabilityFeature {
    RouteDecision,
    LightPayload,
    ProgressiveExecution,
    DeepContextIr,
    Materialization,
}

/// What is known of each feature; a feature that is not listed has no entry.
#[derive(Debug, Clone, Copy, PartialEq, Eq, Structural)]
pub struct AvailabilityMap {
    pub route_decision: Option<Availability>,
    pub light_payload: Option<Availability>,
    pub progressive_execution: Option<Availability>,
    pub deep_context_ir: Option<Availability>,
    pub materialization: Option<Availability>,
}

impl AvailabilityMap {
    pub open spec fn spec_get(self, feature: CapabilityFeature) -> Option<Availability> {
        match feature {
            CapabilityFeature::RouteDecision => self.route_decision,
            CapabilityFeature::LightPayload => self.light_payload,
            CapabilityFeature::ProgressiveExecution => self.progressive_execution,
            CapabilityFeature::DeepContextIr => self.deep_context_ir,
            CapabilityFeature::Materialization => self.materialization,
        }
    }

    /// What is known of a feature.
    pub fn get(&self, feature: CapabilityFeature) -> (r: Option<Availability>)
        ensures
            r == self.spec_get(feature),
    {
        match feature {
            CapabilityFeature::RouteDecision => self.route_decision,
            CapabilityFeature::LightPayload => self.light_payload,
            CapabilityFeature::ProgressiveExecution => self.progressive_execution,
            CapabilityFeature::DeepContextIr => self.deep_context_ir,
            CapabilityFeature::Materialization => self.materialization,
        }
    }
}

#[derive(Debug, Clone, Copy, PartialEq, Eq, Structural)]
pub struct ContextCapabilityBounds {
    pub max_required_capabilities: usize,
    pub max_route_attempts: usize,
    pub max_execution_diagnostics: usize,
    pub max_materialized_sources: usize,
    pub max_materialized_bytes: u64,
    pub max_request_bytes: usize,
    pub default_page_limit: usize,
    pub max_page_limit: usize,
    pub max_cursor_bytes: usize,
    pub max_target_bytes: usize,
    pub max_targets: usize,
    pub max_atlas_calls: u64,
    pub max_records: u64,
    pub max_source_bytes: u64,
    pub max_estimated_tokens: u64,
    pub max_depth: u32,
    pub max_work_units: u64,
}

#[derive(Debug, Clone, PartialEq, Eq)]
pub struct ContextCapabilities {
    pub schema_version: String,
    pub supported_route_policy_versions: Vec<String>,
    pub supported_decision_versions: Vec<String>,
    pub supported_execution_versions: Vec<String>,
    pub supported_ir_versions: Vec<String>,
    pub supported_operation_versions: Vec<String>,
    pub routes: Vec<Route>,
    pub required_capabilities: Vec<RequiredCapability>,
    pub signals: Vec<RouteSignal>,
    pub reasons: Vec<RouteReason>,
    pub capability_deficits: Vec<CapabilityDeficitReason>,
    pub route_failures: Vec<RouteFailureReason>,
    pub terminal_states: Vec<ExecutionState>,
    pub bounds: ContextCapabilityBounds,
    pub availability: AvailabilityMap,
}

pub struct CapabilitiesView {
    pub schema_version: Seq<char>,
    pub supported_route_policy_versions: Seq<Seq<char>>,
    pub supported_decision_versions: Seq<Seq<char>>,
    pub supported_execution_versions: Seq<Seq<char>>,
    pub supported_ir_versions: Seq<Seq<char>>,
    pub supported_operation_versions: Seq<Seq<char>>,
    pub routes: Seq<Route>,
    pub required_capabilities: Seq<RequiredCapability>,
    pub signals: Seq<RouteSignal>,
    pub reasons: Seq<RouteReason>,
    pub capability_deficits: Seq<CapabilityDeficitReason>,
    pub route_failures: Seq<RouteFailureReason>,
    pub terminal_states: Seq<ExecutionState>,
    pub bounds: ContextCapabilityBounds,
    pub availability: AvailabilityMap,
}

impl View for ContextCapabilities {
    type V = CapabilitiesView;

    open spec fn view(&self) -> CapabilitiesView {
        CapabilitiesView {
            schema_version: self.schema_version@,
            supported_route_policy_versions: text::texts(self.supported_route_policy_versions@),
            supported_decision_versions: text::texts(self.supported_decision_versions@),
            supported_execution_versions: text::texts(self.supported_execution_versions@),
            supported_ir_versions: text::texts(self.supported_ir_versions@),
            supported_operation_versions: text::texts(self.supported_operation_versions@),
            routes: self.routes@,
            required_capabilities: self.required_capabilities@,
            signals: self.signals@,
            reasons: self.reasons@,
            capability_deficits: self.capability_deficits@,
            route_failures: self.route_failures@,
            terminal_states: self.terminal_states@,
            bounds: self.bounds,
            availability: self.availability,
        }
    }
}

/// Everything that this version of the contracts offers.
pub open spec fn offered_capabilities() -> CapabilitiesView {
    CapabilitiesView {
        schema_version: CONTEXT_CAPABILITIES_VERSION@,
        supported_route_policy_versions: seq![CONTEXT_ROUTE_POLICY_VERSION@],
        supported_decision_versions: seq![CONTEXT_ROUTE_POLICY_VERSION@],
        supported_execution_versions: seq![CONTEXT_EXECUTION_VERSION@],
        supported_ir_versions: seq![CONTEXT_IR_VERSION@],
        supported_operation_versions: seq![
            QUERY_OPERATION_VERSION@,
            SOURCE_REFERENCE_OPERATION_VERSION@,
        ],
        routes: seq![Route::Direct, Route::AtlasLight, Route::AtlasDeep],
        required_capabilities: seq![
            RequiredCapability::IdentityLookup,
            RequiredCapability::ExactSource,
            RequiredCapability::BoundedRelationships,
            RequiredCapability::ImpactFrontier,
            RequiredCapability::BasicCoverageConflicts,
            RequiredCapability::TemporalHistory,
            RequiredCapability::RequiredRoleClosure,
            RequiredCapability::ValidationPlan,
        ],
        signals: seq![
            RouteSignal::CallerCapabilitiesSatisfied,
            RouteSignal::CallerCapabilitiesUnsatisfied,
            RouteSignal::CallerCapabilitiesUnknown,
            RouteSignal::AtlasIntentNone,
            RouteSignal::AtlasIntentAllow,
            RouteSignal::AtlasIntentRequire,
            RouteSignal::RouteFloorDirect,
            RouteSignal::RouteFloorLight,
            RouteSignal::RouteFloorDeep,
            RouteSignal::RouteCeilingDirect,
            RouteSignal::RouteCeilingLight,
            RouteSignal::RouteCeilingDeep,
            RouteSignal::ExplicitSeedsPresent,
            RouteSignal::IdentityOrSourceRequested,
            RouteSignal::RelationshipsOrImpactRequested,
            RouteSignal::BasicCoverageConflictsRequested,
            RouteSignal::DeepSynthesisRequested,
            RouteSignal::StartingGenerationObserved,
            RouteSignal::StartingGenerationUnavailable,
            RouteSignal::CapabilityProfileApplied,
            RouteSignal::CostProfileApplied,
        ],
        reasons: seq![
            RouteReason::CallerContextSufficient,
            RouteReason::CallerContextIncomplete,
            RouteReason::AtlasNotRequested,
            RouteReason::ExplicitAtlasRequest,
            RouteReason::LightCapabilityRequired,
            RouteReason::DeepCapabilityRequired,
            RouteReason::RouteFloorApplied,
            RouteReason::StartingGenerationUnavailable,
        ],
        capability_deficits: seq![
            CapabilityDeficitReason::Unavailable,
            CapabilityDeficitReason::Ambiguous,
            CapabilityDeficitReason::Conflicting,
            CapabilityDeficitReason::Stale,
            CapabilityDeficitReason::Unsupported,
            CapabilityDeficitReason::SemanticBudgetOmitted,
        ],
        route_failures: seq![
            RouteFailureReason::StartingGenerationUnavailable,
            RouteFailureReason::NoActiveGeneration,
            RouteFailureReason::GenerationChanged,
        ],
        terminal_states: seq![
            ExecutionState::Completed,
            ExecutionState::Partial,
            ExecutionState::Blocked,
            ExecutionState::Interrupted,
        ],
        bounds: offered_bounds(),
        availability: AvailabilityMap {
            route_decision: Some(Availability::Available),
            light_payload: Some(Availability::Available),
            progressive_execution: Some(Availability::Available),
            deep_context_ir: Some(Availability::Available),
            materialization: Some(Availability::Available),
        },
    }
}

/// The bounds that the contracts enforce.
pub open spec fn offered_bounds() -> ContextCapabilityBounds {
    ContextCapabilityBounds {
        max_required_capabilities: MAX_ROUTE_CAPABILITIES,
        max_route_attempts: MAX_ROUTE_ATTEMPTS,
        max_execution_diagnostics: MAX_EXECUTION_DIAGNOSTICS,
        max_materialized_sources: MAX_MATERIALIZED_SOURCES,
        max_materialized_bytes: MAX_CONTEXT_EXECUTION_SOURCE_BYTES,
        max_request_bytes: MAX_GOVERNOR_REQUEST_BYTES,
        default_page_limit: DEFAULT_APPLICATION_PAGE_LIMIT,
        max_page_limit: MAX_APPLICATION_PAGE_LIMIT,
        max_cursor_bytes: MAX_APPLICATION_CURSOR_BYTES,
        max_target_bytes: MAX_GOVERNOR_TARGET_BYTES,
        max_targets: MAX_GOVERNOR_TARGETS,
        max_atlas_calls: MAX_CONTEXT_EXECUTION_ATLAS_CALLS,
        max_records: MAX_CONTEXT_EXECUTION_RECORDS,
        max_source_bytes: MAX_CONTEXT_EXECUTION_SOURCE_BYTES,
        max_estimated_tokens: MAX_CONTEXT_EXECUTION_ESTIMATED_TOKENS,
        max_depth: MAX_DEEP_DEPTH,
        max_work_units: MAX_CONTEXT_EXECUTION_WORK_UNITS,
    }
}

fn one_text(value: &str) -> (r: Vec<String>)
    ensures
        text::texts(r@) == seq![value@],
{
    let mut out: Vec<String> = Vec::new();
    out.push(value.to_string());
    assert(text::texts(out@) =~= seq![value@]);
    out
}

fn operation_versions() -> (r: Vec<String>)
    ensures
        text::texts(r@) == seq![QUERY_OPERATION_VERSION@, SOURCE_REFERENCE_OPERATION_VERSION@],
{
    let mut out: Vec<String> = Vec::new();
    out.push(QUERY_OPERATION_VERSION.to_string());
    out.push(SOURCE_REFERENCE_OPERATION_VERSION.to_string());
    assert(text::texts(out@) =~= seq![QUERY_OPERATION_VERSION@, SOURCE_REFERENCE_OPERATION_VERSION@]);
    out
}

/// Everything that this version of the contracts offers.
pub fn discover_context_capabilities() -> (r: ContextCapabilities)
    ensures
        r@ == offered_capabilities(),
{
    let routes: Vec<Route> = vec![Route::Direct, Route::AtlasLight, Route::AtlasDeep];
    let required_capabilities: Vec<RequiredCapability> = vec![
        RequiredCapability::IdentityLookup,
        RequiredCapability::ExactSource,
        RequiredCapability::BoundedRelationships,
        RequiredCapability::ImpactFrontier,
        RequiredCapability::BasicCoverageConflicts,
        RequiredCapability::TemporalHistory,
        RequiredCapability::RequiredRoleClosure,
        RequiredCapability::ValidationPlan,
    ];
    let signals: Vec<RouteSignal> = vec![
        RouteSignal::CallerCapabilitiesSatisfied,
        RouteSignal::CallerCapabilitiesUnsatisfied,
        RouteSignal::CallerCapabilitiesUnknown,
        RouteSignal::AtlasIntentNone,
        RouteSignal::AtlasIntentAllow,
        RouteSignal::AtlasIntentRequire,
        RouteSignal::RouteFloorDirect,
        RouteSignal::RouteFloorLight,
        RouteSignal::RouteFloorDeep,
        RouteSignal::RouteCeilingDirect,
        RouteSignal::RouteCeilingLight,
        RouteSignal::RouteCeilingDeep,
        RouteSignal::ExplicitSeedsPresent,
        RouteSignal::IdentityOrSourceRequested,
        RouteSignal::RelationshipsOrImpactRequested,
        RouteSignal::BasicCoverageConflictsRequested,
        RouteSignal::DeepSynthesisRequested,
        RouteSignal::StartingGenerationObserved,
        RouteSignal::StartingGenerationUnavailable,
        RouteSignal::CapabilityProfileApplied,
        RouteSignal::CostProfileApplied,
    ];
    let reasons: Vec<RouteReason> = vec![
        RouteReason::CallerContextSufficient,
        RouteReason::CallerContextIncomplete,
        RouteReason::AtlasNotRequested,
        RouteReason::ExplicitAtlasRequest,
        RouteReason::LightCapabilityRequired,
        RouteReason::DeepCapabilityRequired,
        RouteReason::RouteFloorApplied,
        RouteReason::StartingGenerationUnavailable,
    ];
    let capability_deficits: Vec<CapabilityDeficitReason> = vec![
        CapabilityDeficitReason::Unavailable,
        CapabilityDeficitReason::Ambiguous,
        CapabilityDeficitReason::Conflicting,
        CapabilityDeficitReason::Stale,
        CapabilityDeficitReason::Unsupported,
        CapabilityDeficitReason::SemanticBudgetOmitted,
    ];
    let route_failures: Vec<RouteFailureReason> = vec![
        RouteFailureReason::StartingGenerationUnavailable,
        RouteFailureReason::NoActiveGeneration,
        RouteFailureReason::GenerationChanged,
    ];
    let terminal_states: Vec<ExecutionState> = vec![
        ExecutionState::Completed,
        ExecutionState::Partial,
        ExecutionState::Blocked,
        ExecutionState::Interrupted,
    ];
    let r = ContextCapabilities {
        schema_version: CONTEXT_CAPABILITIES_VERSION.to_string(),
        supported_route_policy_versions: one_text(CONTEXT_ROUTE_POLICY_VERSION),
        supported_decision_versions: one_text(CONTEXT_ROUTE_POLICY_VERSION),
        supported_execution_versions: one_text(CONTEXT_EXECUTION_VERSION),
        supported_ir_versions: one_text(CONTEXT_IR_VERSION),
        supported_operation_versions: operation_versions(),
        routes,
        required_capabilities,
        signals,
        reasons,
        capability_deficits,
        route_failures,
        terminal_states,
        bounds: ContextCapabilityBounds {
            max_required_capabilities: MAX_ROUTE_CAPABILITIES,
            max_route_attempts: MAX_ROUTE_ATTEMPTS,
            max_execution_diagnostics: MAX_EXECUTION_DIAGNOSTICS,
            max_materialized_sources: MAX_MATERIALIZED_SOURCES,
            max_materialized_bytes: MAX_CONTEXT_EXECUTION_SOURCE_BYTES,
            max_request_bytes: MAX_GOVERNOR_REQUEST_BYTES,
            default_page_limit: DEFAULT_APPLICATION_PAGE_LIMIT,
            max_page_limit: MAX_APPLICATION_PAGE_LIMIT,
            max_cursor_bytes: MAX_APPLICATION_CURSOR_BYTES,
            max_target_bytes: MAX_GOVERNOR_TARGET_BYTES,
            max_targets: MAX_GOVERNOR_TARGETS,
            max_atlas_calls: MAX_CONTEXT_EXECUTION_ATLAS_CALLS,
            max_records: MAX_CONTEXT_EXECUTION_RECORDS,
            max_source_bytes: MAX_CONTEXT_EXECUTION_SOURCE_BYTES,
            max_estimated_tokens: MAX_CONTEXT_EXECUTION_ESTIMATED_TOKENS,
            max_depth: MAX_DEEP_DEPTH,
            max_work_units: MAX_CONTEXT_EXECUTION_WORK_UNITS,
        },
        availability: AvailabilityMap {
            route_decision: Some(Availability::Available),
            light_payload: Some(Availability::Available),
            progressive_execution: Some(Availability::Available),
            deep_context_ir: Some(Availability::Available),
            materialization: Some(Availability::Available),
        },
    };
    proof {
        let want = offered_capabilities();
        assert(r@.routes =~= want.routes);
        assert(r@.required_capabilities =~= want.required_capabilities);
        assert(r@.signals =~= want.signals);
        assert(r@.reasons =~= want.reasons);
        assert(r@.capability_deficits =~= want.capability_deficits);
        assert(r@.route_failures =~= want.route_failures);
        assert(r@.terminal_states =~= want.terminal_states);
    }
    r
}

fn same_routes(a: &Vec<Route>, b: &Vec<Route>) -> (r: bool)
    ensures
        r == (a@ == b@),
{
    if a.len() != b.len() {
        return false;
    }
    for i in 0..a.len()
        invariant
            a@.len() == b@.len(),
            forall|j: int| 0 <= j < i ==> a@[j] == b@[j],
    {
        if a[i] != b[i] {
            return false;
        }
    }
    assert(a@ =~= b@);
    true
}

fn same_capabilities(a: &Vec<RequiredCapability>, b: &Vec<RequiredCapability>) -> (r: bool)
    ensures
        r == (a@ == b@),
{
    if a.len() != b.len() {
        return false;
    }
    for i in 0..a.len()
        invariant
            a@.len() == b@.len(),
            forall|j: int| 0 <= j < i ==> a@[j] == b@[j],
    {
        if a[i] != b[i] {
            return false;
        }
    }
    assert(a@ =~= b@);
    true
}

fn same_deficit_reasons(a: &Vec<CapabilityDeficitReason>, b: &Vec<CapabilityDeficitReason>) -> (r: bool)
    ensures
        r == (a@ == b@),
{
    if a.len() != b.len() {
        return false;
    }
    for i in 0..a.len()
        invariant
            a@.len() == b@.len(),
            forall|j: int| 0 <= j < i ==> a@[j] == b@[j],
    {
        if a[i] != b[i] {
            return false;
        }
    }
    assert(a@ =~= b@);
    true
}

fn same_failures(a: &Vec<RouteFailureReason>, b: &Vec<RouteFailureReason>) -> (r: bool)
    ensures
        r == (a@ == b@),
{
    if a.len() != b.len() {
        return false;
    }
    for i in 0..a.len()
        invariant
            a@.len() == b@.len(),
            forall|j: int| 0 <= j < i ==> a@[j] == b@[j],
    {
        if a[i] != b[i] {
            return false;
        }
    }
    assert(a@ =~= b@);
    true
}

fn same_states(a: &Vec<ExecutionState>, b: &Vec<ExecutionState>) -> (r: bool)
    ensures
        r == (a@ == b@),
{
    if a.len() != b.len() {
        return false;
    }
    for i in 0..a.len()
        invariant
            a@.len() == b@.len(),
            forall|j: int| 0 <= j < i ==> a@[j] == b@[j],
    {
        if a[i] != b[i] {
            return false;
        }
    }
    assert(a@ =~= b@);
    true
}

impl ContextCapabilities {
    /// Accepts exactly what this version of the contracts offers.
    pub fn validate(&self) -> (r: Result<(), ContextRouteError>)
        ensures
            r is Ok <==> self@ == offered_capabilities(),
            r is Err ==> r->Err_0@ == (RouteErrorView::UnsupportedVersion {
                contract: "capabilities"@,
                supplied: self.schema_version@,
            }),
    {
        let want = discover_context_capabilities();
        let versions = text::text_eq(self.schema_version.as_str(), want.schema_version.as_str())
            && text::texts_eq(
            &self.supported_route_policy_versions,
            &want.supported_route_policy_versions,
        ) && text::texts_eq(&self.supported_decision_versions, &want.supported_decision_versions)
            && text::texts_eq(
            &self.supported_execution_versions,
            &want.supported_execution_versions,
        ) && text::texts_eq(&self.supported_ir_versions, &want.supported_ir_versions)
            && text::texts_eq(
            &self.supported_operation_versions,
            &want.supported_operation_versions,
        );
        let vocabulary = same_routes(&self.routes, &want.routes) && same_capabilities(
            &self.required_capabilities,
            &want.required_capabilities,
        ) && context_route::same_signals(&self.signals, &want.signals)
            && context_route::same_reasons(&self.reasons, &want.reasons) && same_deficit_reasons(
            &self.capability_deficits,
            &want.capability_deficits,
        ) && same_failures(&self.route_failures, &want.route_failures) && same_states(
            &self.terminal_states,
            &want.terminal_states,
        );
        if versions && vocabulary && self.bounds == want.bounds && self.availability
            == want.availability {
            assert(self@ == want@);
            Ok(())
        } else {
            Err(
                ContextRouteError::UnsupportedVersion {
                    contract: "capabilities".to_string(),
                    supplied: self.schema_version.clone(),
                },
            )
        }
    }
}

/// The versions that a caller can work with.
#[derive(Debug, Clone, PartialEq, Eq)]
pub struct NegotiationRequest {
    pub capability_versions: Vec<String>,
    pub route_versions: Vec<String>,
    pub decision_versions: Vec<String>,
    pub execution_versions: Vec<String>,
    pub ir_versions: Vec<String>,
    pub operation_versions: Vec<String>,
}

/// The versions that both sides work with.
#[derive(Debug, Clone, PartialEq, Eq)]
pub struct NegotiatedVersions {
    pub capability_version: String,
    pub route_version: String,
    pub decision_version: String,
    pub execution_version: String,
    pub ir_version: String,
    pub operation_versions: Vec<String>,
}

/// The versions offered, one list per contract.
pub open spec fn supported_versions() -> SupportedVersionsView {
    SupportedVersionsView {
        capability_versions: seq![CONTEXT_CAPABILITIES_VERSION@],
        route_versions: seq![CONTEXT_ROUTE_POLICY_VERSION@],
        decision_versions: seq![CONTEXT_ROUTE_POLICY_VERSION@],
        execution_versions: seq![CONTEXT_EXECUTION_VERSION@],
        ir_versions: seq![CONTEXT_IR_VERSION@],
        operation_versions: seq![QUERY_OPERATION_VERSION@, SOURCE_REFERENCE_OPERATION_VERSION@],
    }
}

/// The caller can work with every version that is offered.
pub open spec fn common_versions(request: NegotiationRequest) -> bool {
    &&& text::texts(request.capability_versions@).contains(CONTEXT_CAPABILITIES_VERSION@)
    &&& text::texts(request.route_versions@).contains(CONTEXT_ROUTE_POLICY_VERSION@)
    &&& text::texts(request.decision_versions@).contains(CONTEXT_ROUTE_POLICY_VERSION@)
    &&& text::texts(request.execution_versions@).contains(CONTEXT_EXECUTION_VERSION@)
    &&& text::texts(request.ir_versions@).contains(CONTEXT_IR_VERSION@)
    &&& text::texts(request.operation_versions@).contains(QUERY_OPERATION_VERSION@)
    &&& text::texts(request.operation_versions@).contains(SOURCE_REFERENCE_OPERATION_VERSION@)
}

/// Settles on the offered versions, or says what is offered.
pub fn negotiate_context_versions(request: &NegotiationRequest) -> (r: Result<
    NegotiatedVersions,
    ContextRouteError,
>)
    ensures
        r is Ok <==> common_versions(*request),
        r is Ok ==> {
            &&& r->Ok_0.capability_version@ == CONTEXT_CAPABILITIES_VERSION@
            &&& r->Ok_0.route_version@ == CONTEXT_ROUTE_POLICY_VERSION@
            &&& r->Ok_0.decision_version@ == CONTEXT_ROUTE_POLICY_VERSION@
            &&& r->Ok_0.execution_version@ == CONTEXT_EXECUTION_VERSION@
            &&& r->Ok_0.ir_version@ == CONTEXT_IR_VERSION@
            &&& text::texts(r->Ok_0.operation_versions@) == supported_versions().operation_versions
        },
        r is Err ==> r->Err_0@ == (RouteErrorView::NoCommonVersion {
            supported: supported_versions(),
        }),
{
    if !text::has_text(&request.capability_versions, CONTEXT_CAPABILITIES_VERSION)
        || !text::has_text(&request.route_versions, CONTEXT_ROUTE_POLICY_VERSION)
        || !text::has_text(&request.decision_versions, CONTEXT_ROUTE_POLICY_VERSION)
        || !text::has_text(&request.execution_versions, CONTEXT_EXECUTION_VERSION)
        || !text::has_text(&request.ir_versions, CONTEXT_IR_VERSION) || !text::has_text(
        &request.operation_versions,
        QUERY_OPERATION_VERSION,
    ) || !text::has_text(&request.operation_versions, SOURCE_REFERENCE_OPERATION_VERSION) {
        let supported = SupportedVersions {
            capability_versions: one_text(CONTEXT_CAPABILITIES_VERSION),
            route_versions: one_text(CONTEXT_ROUTE_POLICY_VERSION),
            decision_versions: one_text(CONTEXT_ROUTE_POLICY_VERSION),
            execution_versions: one_text(CONTEXT_EXECUTION_VERSION),
            ir_versions: one_text(CONTEXT_IR_VERSION),
            operation_versions: operation_versions(),
        };
        return Err(ContextRouteError::NoCommonVersion { supported: Box::new(supported) });
    }
    Ok(
        NegotiatedVersions {
            capability_version: CONTEXT_CAPABILITIES_VERSION.to_string(),
            route_version: CONTEXT_ROUTE_POLICY_VERSION.to_string(),
            decision_version: CONTEXT_ROUTE_POLICY_VERSION.to_string(),
            execution_version: CONTEXT_EXECUTION_VERSION.to_string(),
            ir_version: CONTEXT_IR_VERSION.to_string(),
            operation_versions: operation_versions(),
        },
    )
}

/// What discovery offers can always be negotiated.
pub proof fn law_discovered_versions_negotiate(
    capabilities: ContextCapabilities,
    request: NegotiationRequest,
)
    requires
        capabilities@ == offered_capabilities(),
        text::texts(request.capability_versions@).contains(capabilities.schema_version@),
        text::texts(request.route_versions@) == capabilities@.supported_route_policy_versions,
        text::texts(request.decision_versions@) == capabilities@.supported_decision_versions,
        text::texts(request.execution_versions@) == capabilities@.supported_execution_versions,
        text::texts(request.ir_versions@) == capabilities@.supported_ir_versions,
        text::texts(request.operation_versions@) == capabilities@.supported_operation_versions,
    ensures
        common_versions(request),
{
    let offered = offered_capabilities();
    assert(offered.supported_route_policy_versions[0] == CONTEXT_ROUTE_POLICY_VERSION@);
    assert(offered.supported_decision_versions[0] == CONTEXT_ROUTE_POLICY_VERSION@);
    assert(offered.supported_execution_versions[0] == CONTEXT_EXECUTION_VERSION@);
    assert(offered.supported_ir_versions[0] == CONTEXT_IR_VERSION@);
    assert(offered.supported_operation_versions[0] == QUERY_OPERATION_VERSION@);
    assert(offered.supported_operation_versions[1] == SOURCE_REFERENCE_OPERATION_VERSION@);
}

} // verus!
