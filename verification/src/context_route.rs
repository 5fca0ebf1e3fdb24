//! Additive, transport-neutral Context Governor contracts: route decisions.
//!
//! This module freezes the decision contract. It performs no repository
//! dispatch, persistence, source reads, adaptive selection, or public CLI/MCP
//! parsing. A decision is a function of its request, and its hash covers both.
use vstd::prelude::*;

use crate::context_ir::TaskKind;
use crate::context_metrics::{
    MAX_CONTEXT_EXECUTION_ESTIMATED_TOKENS, MAX_CONTEXT_EXECUTION_RECORDS,
    MAX_CONTEXT_EXECUTION_SOURCE_BYTES, MAX_CONTEXT_EXECUTION_WORK_UNITS,
};
use crate::digest;
use crate::digest::CanonicalEncoder;
use crate::sorted;
use crate::text;

pub use crate::context_capabilities::{
    discover_context_capabilities, negotiate_context_versions, Availability, AvailabilityMap,
    CapabilityFeature, ContextCapabilities, ContextCapabilityBounds, NegotiatedVersions,
    NegotiationRequest, SupportedVersions, SupportedVersionsView,
};
pub use crate::context_dispatch::{
    duration_micros, execute_context_route, ContextRouteDispatcher, RouteAttemptOutcome,
};
pub use crate::context_execution::{
    AttemptState, CapabilityDeficitReason, ContextDiagnosticCode, ContextExecution, ContextPayload,
    DeepResultReference, ExecutionAttempt, ExecutionState, ExplicitMaterialization,
    InterruptionReason, LightOperationResult, MaterializedSource, RouteDeficit, RouteFailureReason,
    TerminalReason,
};

verus! {

pub const CONTEXT_ROUTE_POLICY_VERSION: &'static str = "context-route-v2.0.0";

pub const CONTEXT_EXECUTION_VERSION: &'static str = "context-execution-v2.0.0";

pub const CONTEXT_CAPABILITIES_VERSION: &'static str = "context-capabilities-v2.0.0";

pub const TASK_CLASSIFIER_VERSION: &'static str = "task-classifier-v1.0.0";

pub const CONTEXT_IR_VERSION: &'static str = "2.0.0";

pub const DEEP_PLANNER_VERSION: &'static str = "planner-v2.0.0";

pub const DEEP_PROJECTION_VERSION: &'static str = "projection-v2.0.0";

pub const DEEP_ESTIMATOR_VERSION: &'static str = "context-estimator-v1.0.0";

pub const QUERY_OPERATION_VERSION: &'static str = "query-v1.0.0";

pub const SOURCE_REFERENCE_OPERATION_VERSION: &'static str = "source-reference-v1.0.0";

pub const MAX_ROUTE_CAPABILITIES: usize = 8;

pub const MAX_ROUTE_ATTEMPTS: usize = 8;

pub const MAX_EXECUTION_DIAGNOSTICS: usize = 32;

pub const MAX_MATERIALIZED_SOURCES: usize = 64;

pub const MAX_DEEP_DEPTH: u32 = 64;

pub const MAX_GOVERNOR_REQUEST_BYTES: usize = 1_048_576;

pub const DEFAULT_APPLICATION_PAGE_LIMIT: usize = 50;

pub const MAX_APPLICATION_PAGE_LIMIT: usize = 200;

pub const MAX_APPLICATION_CURSOR_BYTES: usize = 4096;

pub const MAX_COMPILED_CONTEXT_DOCUMENT_BYTES: usize = 1_048_576;

pub const MAX_APPLICATION_NESTED_VECTOR_ITEMS: usize = 10_000;

pub const MAX_APPLICATION_STRING_BYTES: usize = 65_536;

pub const MAX_APPLICATION_JSON_DEPTH: usize = 64;

pub const MAX_GOVERNOR_TARGET_BYTES: usize = 512;

pub const MAX_GOVERNOR_TARGETS: usize = 200;

/// How far a context request may reach into the Atlas.
#[derive(Debug, Clone, Copy, PartialEq, Eq, PartialOrd, Ord, Structural)]
pub enum Route {
    Direct,
    AtlasLight,
    AtlasDeep,
}

impl Route {
    /// The position of the route in the order DIRECT, LIGHT, DEEP.
    pub open spec fn spec_rank(self) -> u8 {
        match self {
            Route::Direct => 0,
            Route::AtlasLight => 1,
            Route::AtlasDeep => 2,
        }
    }

    /// The position of the route in the order DIRECT, LIGHT, DEEP.
    pub fn rank(self) -> (r: u8)
        ensures
            r == self.spec_rank(),
    {
        match self {
            Route::Direct => 0,
            Route::AtlasLight => 1,
            Route::AtlasDeep => 2,
        }
    }

    pub open spec fn spec_ascii(self) -> Seq<char> {
        match self {
            Route::Direct => "DIRECT"@,
            Route::AtlasLight => "ATLAS_LIGHT"@,
            Route::AtlasDeep => "ATLAS_DEEP"@,
        }
    }

    /// The wire name.
    pub fn ascii(self) -> (r: &'static str)
        ensures
            r@ == self.spec_ascii(),
    {
        match self {
            Route::Direct => "DIRECT",
            Route::AtlasLight => "ATLAS_LIGHT",
            Route::AtlasDeep => "ATLAS_DEEP",
        }
    }
}

#[derive(Debug, Clone, Copy, PartialEq, Eq, PartialOrd, Ord, Structural)]
pub enum RequiredCapability {
    IdentityLookup,
    ExactSource,
    BoundedRelationships,
    ImpactFrontier,
    BasicCoverageConflicts,
    TemporalHistory,
    RequiredRoleClosure,
    ValidationPlan,
}

impl RequiredCapability {
    pub open spec fn spec_rank(self) -> u8 {
        match self {
            RequiredCapability::IdentityLookup => 0,
            RequiredCapability::ExactSource => 1,
            RequiredCapability::BoundedRelationships => 2,
            RequiredCapability::ImpactFrontier => 3,
            RequiredCapability::BasicCoverageConflicts => 4,
            RequiredCapability::TemporalHistory => 5,
            RequiredCapability::RequiredRoleClosure => 6,
            RequiredCapability::ValidationPlan => 7,
        }
    }

    /// The position of the capability in the order of capabilities.
    pub fn rank(self) -> (r: u8)
        ensures
            r == self.spec_rank(),
            r < 8,
    {
        match self {
            RequiredCapability::IdentityLookup => 0,
            RequiredCapability::ExactSource => 1,
            RequiredCapability::BoundedRelationships => 2,
            RequiredCapability::ImpactFrontier => 3,
            RequiredCapability::BasicCoverageConflicts => 4,
            RequiredCapability::TemporalHistory => 5,
            RequiredCapability::RequiredRoleClosure => 6,
            RequiredCapability::ValidationPlan => 7,
        }
    }

    pub open spec fn spec_ascii(self) -> Seq<char> {
        match self {
            RequiredCapability::IdentityLookup => "identity_lookup"@,
            RequiredCapability::ExactSource => "exact_source"@,
            RequiredCapability::BoundedRelationships => "bounded_relationships"@,
            RequiredCapability::ImpactFrontier => "impact_frontier"@,
            RequiredCapability::BasicCoverageConflicts => "basic_coverage_conflicts"@,
            RequiredCapability::TemporalHistory => "temporal_history"@,
            RequiredCapability::RequiredRoleClosure => "required_role_closure"@,
            RequiredCapability::ValidationPlan => "validation_plan"@,
        }
    }

    /// The wire name.
    pub fn ascii(self) -> (r: &'static str)
        ensures
            r@ == self.spec_ascii(),
    {
        match self {
            RequiredCapability::IdentityLookup => "identity_lookup",
            RequiredCapability::ExactSource => "exact_source",
            RequiredCapability::BoundedRelationships => "bounded_relationships",
            RequiredCapability::ImpactFrontier => "impact_frontier",
            RequiredCapability::BasicCoverageConflicts => "basic_coverage_conflicts",
            RequiredCapability::TemporalHistory => "temporal_history",
            RequiredCapability::RequiredRoleClosure => "required_role_closure",
            RequiredCapability::ValidationPlan => "validation_plan",
        }
    }

    pub open spec fn spec_minimum_route(self) -> Route {
        if self.spec_rank() <= 4 {
            Route::AtlasLight
        } else {
            Route::AtlasDeep
        }
    }

    /// The lowest route that can supply the capability.
    pub fn minimum_route(self) -> (r: Route)
        ensures
            r == self.spec_minimum_route(),
    {
        match self {
            RequiredCapability::IdentityLookup
            | RequiredCapability::ExactSource
            | RequiredCapability::BoundedRelationships
            | RequiredCapability::ImpactFrontier
            | RequiredCapability::BasicCoverageConflicts => Route::AtlasLight,
            RequiredCapability::TemporalHistory
            | RequiredCapability::RequiredRoleClosure
            | RequiredCapability::ValidationPlan => Route::AtlasDeep,
        }
    }
}

/// The capability at a position of their order.
pub open spec fn spec_capability_at(i: int) -> RequiredCapability {
    if i == 0 {
        RequiredCapability::IdentityLookup
    } else if i == 1 {
        RequiredCapability::ExactSource
    } else if i == 2 {
        RequiredCapability::BoundedRelationships
    } else if i == 3 {
        RequiredCapability::ImpactFrontier
    } else if i == 4 {
        RequiredCapability::BasicCoverageConflicts
    } else if i == 5 {
        RequiredCapability::TemporalHistory
    } else if i == 6 {
        RequiredCapability::RequiredRoleClosure
    } else {
        RequiredCapability::ValidationPlan
    }
}

pub(crate) fn capability_at(i: usize) -> (r: RequiredCapability)
    ensures
        r == spec_capability_at(i as int),
{
    if i == 0 {
        RequiredCapability::IdentityLookup
    } else if i == 1 {
        RequiredCapability::ExactSource
    } else if i == 2 {
        RequiredCapability::BoundedRelationships
    } else if i == 3 {
        RequiredCapability::ImpactFrontier
    } else if i == 4 {
        RequiredCapability::BasicCoverageConflicts
    } else if i == 5 {
        RequiredCapability::TemporalHistory
    } else if i == 6 {
        RequiredCapability::RequiredRoleClosure
    } else {
        RequiredCapability::ValidationPlan
    }
}

#[derive(Debug, Clone, Copy, PartialEq, Eq, PartialOrd, Ord, Structural)]
pub enum CallerCapabilityState {
    Satisfied,
    Unsatisfied,
    Unknown,
}

impl CallerCapabilityState {
    pub open spec fn spec_ascii(self) -> Seq<char> {
        match self {
            CallerCapabilityState::Satisfied => "satisfied"@,
            CallerCapabilityState::Unsatisfied => "unsatisfied"@,
            CallerCapabilityState::Unknown => "unknown"@,
        }
    }

    /// The wire name.
    pub fn ascii(self) -> (r: &'static str)
        ensures
            r@ == self.spec_ascii(),
    {
        match self {
            CallerCapabilityState::Satisfied => "satisfied",
            CallerCapabilityState::Unsatisfied => "unsatisfied",
            CallerCapabilityState::Unknown => "unknown",
        }
    }
}

/// The requested capabilities, each with what the caller has of it. A capability
/// that was not requested has no state.
#[derive(Debug, Clone, Copy, PartialEq, Eq, Structural)]
pub struct CapabilityMap {
    pub identity_lookup: Option<CallerCapabilityState>,
    pub exact_source: Option<CallerCapabilityState>,
    pub bounded_relationships: Option<CallerCapabilityState>,
    pub impact_frontier: Option<CallerCapabilityState>,
    pub basic_coverage_conflicts: Option<CallerCapabilityState>,
    pub temporal_history: Option<CallerCapabilityState>,
    pub required_role_closure: Option<CallerCapabilityState>,
    pub validation_plan: Option<CallerCapabilityState>,
}

impl CapabilityMap {
    /// The state of a capability.
    pub open spec fn state(self, capability: RequiredCapability) -> Option<CallerCapabilityState> {
        match capability {
            RequiredCapability::IdentityLookup => self.identity_lookup,
            RequiredCapability::ExactSource => self.exact_source,
            RequiredCapability::BoundedRelationships => self.bounded_relationships,
            RequiredCapability::ImpactFrontier => self.impact_frontier,
            RequiredCapability::BasicCoverageConflicts => self.basic_coverage_conflicts,
            RequiredCapability::TemporalHistory => self.temporal_history,
            RequiredCapability::RequiredRoleClosure => self.required_role_closure,
            RequiredCapability::ValidationPlan => self.validation_plan,
        }
    }

    /// The requested capabilities among the first `n`, with their states, in order.
    pub open spec fn listed_upto(self, n: nat) -> Seq<(RequiredCapability, CallerCapabilityState)>
        decreases n,
    {
        if n == 0 {
            Seq::empty()
        } else {
            let rest = self.listed_upto((n - 1) as nat);
            let capability = spec_capability_at(n - 1);
            match self.state(capability) {
                Some(state) => rest.push((capability, state)),
                None => rest,
            }
        }
    }

    /// The requested capabilities with their states, in order.
    pub open spec fn listed(self) -> Seq<(RequiredCapability, CallerCapabilityState)> {
        self.listed_upto(8)
    }

    /// Nothing requested is missing on the caller's side.
    pub open spec fn all_satisfied(self) -> bool {
        forall|c: RequiredCapability|
            self.state(c) is Some ==> #[trigger] self.state(c)
                == Some(CallerCapabilityState::Satisfied)
    }

    /// Some requested capability has the state.
    pub open spec fn has_state(self, state: CallerCapabilityState) -> bool {
        exists|c: RequiredCapability| #[trigger] self.state(c) == Some(state)
    }

    /// Some capability that the caller does not have needs at least the route.
    pub open spec fn lacks_at(self, route: Route) -> bool {
        exists|c: RequiredCapability|
            {
                &&& #[trigger] self.state(c) is Some
                &&& self.state(c) != Some(CallerCapabilityState::Satisfied)
                &&& c.spec_minimum_route() == route
            }
    }

    /// No capability requested.
    pub fn new() -> (r: Self)
        ensures
            forall|c: RequiredCapability| #[trigger] r.state(c) is None,
    {
        CapabilityMap {
            identity_lookup: None,
            exact_source: None,
            bounded_relationships: None,
            impact_frontier: None,
            basic_coverage_conflicts: None,
            temporal_history: None,
            required_role_closure: None,
            validation_plan: None,
        }
    }

    /// The state of a capability.
    pub fn get(&self, capability: RequiredCapability) -> (r: Option<CallerCapabilityState>)
        ensures
            r == self.state(capability),
    {
        match capability {
            RequiredCapability::IdentityLookup => self.identity_lookup,
            RequiredCapability::ExactSource => self.exact_source,
            RequiredCapability::BoundedRelationships => self.bounded_relationships,
            RequiredCapability::ImpactFrontier => self.impact_frontier,
            RequiredCapability::BasicCoverageConflicts => self.basic_coverage_conflicts,
            RequiredCapability::TemporalHistory => self.temporal_history,
            RequiredCapability::RequiredRoleClosure => self.required_role_closure,
            RequiredCapability::ValidationPlan => self.validation_plan,
        }
    }

    /// Requests a capability in a state.
    pub fn insert(&mut self, capability: RequiredCapability, state: CallerCapabilityState)
        ensures
            forall|c: RequiredCapability| #[trigger]
                final(self).state(c) == if c == capability {
                    Some(state)
                } else {
                    old(self).state(c)
                },
    {
        match capability {
            RequiredCapability::IdentityLookup => self.identity_lookup = Some(state),
            RequiredCapability::ExactSource => self.exact_source = Some(state),
            RequiredCapability::BoundedRelationships => self.bounded_relationships = Some(state),
            RequiredCapability::ImpactFrontier => self.impact_frontier = Some(state),
            RequiredCapability::BasicCoverageConflicts => {
                self.basic_coverage_conflicts = Some(state)
            },
            RequiredCapability::TemporalHistory => self.temporal_history = Some(state),
            RequiredCapability::RequiredRoleClosure => self.required_role_closure = Some(state),
            RequiredCapability::ValidationPlan => self.validation_plan = Some(state),
        }
    }

    /// The requested capabilities with their states, in order.
    pub fn entries(&self) -> (r: Vec<(RequiredCapability, CallerCapabilityState)>)
        ensures
            r@ == self.listed(),
    {
        let mut out: Vec<(RequiredCapability, CallerCapabilityState)> = Vec::new();
        for i in 0usize..8
            invariant
                out@ == self.listed_upto(i as nat),
        {
            let capability = capability_at(i);
            match self.get(capability) {
                Some(state) => out.push((capability, state)),
                None => {},
            }
        }
        out
    }

    /// The number of requested capabilities.
    pub fn len(&self) -> (r: usize)
        ensures
            r == self.listed().len(),
    {
        self.entries().len()
    }
}

/// Listing loses no requested capability and invents none.
pub proof fn lemma_listed(map: CapabilityMap, n: nat)
    requires
        n <= 8,
    ensures
        map.listed_upto(n).len() <= n,
        forall|i: int|
            0 <= i < map.listed_upto(n).len() ==> {
                &&& map.state((#[trigger] map.listed_upto(n)[i]).0) == Some(
                    map.listed_upto(n)[i].1,
                )
                &&& map.listed_upto(n)[i].0.spec_rank() < n
            },
        forall|c: RequiredCapability|
            c.spec_rank() < n && #[trigger] map.state(c) is Some ==> map.listed_upto(n).contains(
                (c, map.state(c)->0),
            ),
        forall|i: int, j: int|
            0 <= i < j < map.listed_upto(n).len() ==> (#[trigger] map.listed_upto(
                n,
            )[i]).0.spec_rank() < (#[trigger] map.listed_upto(n)[j]).0.spec_rank(),
    decreases n,
{
    if n > 0 {
        let m = (n - 1) as nat;
        lemma_listed(map, m);
        let rest = map.listed_upto(m);
        let whole = map.listed_upto(n);
        let last = spec_capability_at(n - 1);
        assert(last.spec_rank() == n - 1);
        assert forall|c: RequiredCapability|
            c.spec_rank() < n && #[trigger] map.state(c) is Some implies whole.contains(
            (c, map.state(c)->0),
        ) by {
            if c.spec_rank() < m {
                let k = choose|k: int| 0 <= k < rest.len() && rest[k] == (c, map.state(c)->0);
                assert(whole[k] == (c, map.state(c)->0));
            } else {
                assert(c == last);
                assert(whole[whole.len() - 1] == (c, map.state(c)->0));
            }
        }
        assert forall|i: int| 0 <= i < whole.len() implies {
            &&& map.state((#[trigger] whole[i]).0) == Some(whole[i].1)
            &&& whole[i].0.spec_rank() < n
        } by {
            if i < rest.len() {
                assert(whole[i] == rest[i]);
            }
        }
        assert forall|i: int, j: int| 0 <= i < j < whole.len() implies (
        #[trigger] whole[i]).0.spec_rank() < (#[trigger] whole[j]).0.spec_rank() by {
            assert(whole[i] == rest[i]);
            if j < rest.len() {
                assert(whole[j] == rest[j]);
            }
        }
    }
}

#[derive(Debug, Clone, Copy, PartialEq, Eq, PartialOrd, Ord, Structural)]
pub enum AtlasIntent {
    Never,
    Allow,
    Require,
}

impl AtlasIntent {
    pub open spec fn spec_ascii(self) -> Seq<char> {
        match self {
            AtlasIntent::Never => "none"@,
            AtlasIntent::Allow => "allow"@,
            AtlasIntent::Require => "require"@,
        }
    }

    /// The wire name.
    pub fn ascii(self) -> (r: &'static str)
        ensures
            r@ == self.spec_ascii(),
    {
        match self {
            AtlasIntent::Never => "none",
            AtlasIntent::Allow => "allow",
            AtlasIntent::Require => "require",
        }
    }
}

#[derive(Debug, Clone, Copy, PartialEq, Eq, PartialOrd, Ord, Structural)]
pub enum GenerationUnavailableReason {
    WorkspaceUnregistered,
    CatalogueUnavailable,
    NoActiveGeneration,
    ObservationFailed,
}

impl GenerationUnavailableReason {
    pub open spec fn spec_ascii(self) -> Seq<char> {
        match self {
            GenerationUnavailableReason::WorkspaceUnregistered => "workspace_unregistered"@,
            GenerationUnavailableReason::CatalogueUnavailable => "catalogue_unavailable"@,
            GenerationUnavailableReason::NoActiveGeneration => "no_active_generation"@,
            GenerationUnavailableReason::ObservationFailed => "observation_failed"@,
        }
    }

    /// The wire name.
    pub fn ascii(self) -> (r: &'static str)
        ensures
            r@ == self.spec_ascii(),
    {
        match self {
            GenerationUnavailableReason::WorkspaceUnregistered => "workspace_unregistered",
            GenerationUnavailableReason::CatalogueUnavailable => "catalogue_unavailable",
            GenerationUnavailableReason::NoActiveGeneration => "no_active_generation",
            GenerationUnavailableReason::ObservationFailed => "observation_failed",
        }
    }
}

#[derive(Debug, PartialEq, Eq)]
pub enum GenerationObservation {
    Observed { generation_id: String },
    Unavailable { reason: GenerationUnavailableReason },
}

pub enum GenerationView {
    Observed { generation_id: Seq<char> },
    Unavailable { reason: GenerationUnavailableReason },
}

impl View for GenerationObservation {
    type V = GenerationView;

    open spec fn view(&self) -> GenerationView {
        match self {
            GenerationObservation::Observed { generation_id } => GenerationView::Observed {
                generation_id: generation_id@,
            },
            GenerationObservation::Unavailable { reason } => GenerationView::Unavailable {
                reason: *reason,
            },
        }
    }
}

impl Clone for GenerationObservation {
    fn clone(&self) -> (r: Self)
        ensures
            r@ == self@,
    {
        match self {
            GenerationObservation::Observed { generation_id } => GenerationObservation::Observed {
                generation_id: generation_id.clone(),
            },
            GenerationObservation::Unavailable { reason } => GenerationObservation::Unavailable {
                reason: *reason,
            },
        }
    }
}

impl GenerationObservation {
    /// Whether both observe the same.
    pub fn same(&self, other: &Self) -> (r: bool)
        ensures
            r == (self@ == other@),
    {
        match (self, other) {
            (
                GenerationObservation::Observed { generation_id: a },
                GenerationObservation::Observed { generation_id: b },
            ) => text::text_eq(a.as_str(), b.as_str()),
            (
                GenerationObservation::Unavailable { reason: a },
                GenerationObservation::Unavailable { reason: b },
            ) => *a == *b,
            _ => false,
        }
    }
}

#[derive(Debug, Clone, Copy, PartialEq, Eq, PartialOrd, Ord, Structural)]
pub enum RouteSignal {
    CallerCapabilitiesSatisfied,
    CallerCapabilitiesUnsatisfied,
    CallerCapabilitiesUnknown,
    AtlasIntentNone,
    AtlasIntentAllow,
    AtlasIntentRequire,
    RouteFloorDirect,
    RouteFloorLight,
    RouteFloorDeep,
    RouteCeilingDirect,
    RouteCeilingLight,
    RouteCeilingDeep,
    ExplicitSeedsPresent,
    IdentityOrSourceRequested,
    RelationshipsOrImpactRequested,
    BasicCoverageConflictsRequested,
    DeepSynthesisRequested,
    StartingGenerationObserved,
    StartingGenerationUnavailable,
    CapabilityProfileApplied,
    CostProfileApplied,
}

impl RouteSignal {
    pub open spec fn spec_ascii(self) -> Seq<char> {
        match self {
            RouteSignal::CallerCapabilitiesSatisfied => "caller_capabilities_satisfied"@,
            RouteSignal::CallerCapabilitiesUnsatisfied => "caller_capabilities_unsatisfied"@,
            RouteSignal::CallerCapabilitiesUnknown => "caller_capabilities_unknown"@,
            RouteSignal::AtlasIntentNone => "atlas_intent_none"@,
            RouteSignal::AtlasIntentAllow => "atlas_intent_allow"@,
            RouteSignal::AtlasIntentRequire => "atlas_intent_require"@,
            RouteSignal::RouteFloorDirect => "route_floor_direct"@,
            RouteSignal::RouteFloorLight => "route_floor_light"@,
            RouteSignal::RouteFloorDeep => "route_floor_deep"@,
            RouteSignal::RouteCeilingDirect => "route_ceiling_direct"@,
            RouteSignal::RouteCeilingLight => "route_ceiling_light"@,
            RouteSignal::RouteCeilingDeep => "route_ceiling_deep"@,
            RouteSignal::ExplicitSeedsPresent => "explicit_seeds_present"@,
            RouteSignal::IdentityOrSourceRequested => "identity_or_source_requested"@,
            RouteSignal::RelationshipsOrImpactRequested => "relationships_or_impact_requested"@,
            RouteSignal::BasicCoverageConflictsRequested => "basic_coverage_conflicts_requested"@,
            RouteSignal::DeepSynthesisRequested => "deep_synthesis_requested"@,
            RouteSignal::StartingGenerationObserved => "starting_generation_observed"@,
            RouteSignal::StartingGenerationUnavailable => "starting_generation_unavailable"@,
            RouteSignal::CapabilityProfileApplied => "capability_profile_applied"@,
            RouteSignal::CostProfileApplied => "cost_profile_applied"@,
        }
    }

    /// The wire name.
    pub fn ascii(self) -> (r: &'static str)
        ensures
            r@ == self.spec_ascii(),
    {
        match self {
            RouteSignal::CallerCapabilitiesSatisfied => "caller_capabilities_satisfied",
            RouteSignal::CallerCapabilitiesUnsatisfied => "caller_capabilities_unsatisfied",
            RouteSignal::CallerCapabilitiesUnknown => "caller_capabilities_unknown",
            RouteSignal::AtlasIntentNone => "atlas_intent_none",
            RouteSignal::AtlasIntentAllow => "atlas_intent_allow",
            RouteSignal::AtlasIntentRequire => "atlas_intent_require",
            RouteSignal::RouteFloorDirect => "route_floor_direct",
            RouteSignal::RouteFloorLight => "route_floor_light",
            RouteSignal::RouteFloorDeep => "route_floor_deep",
            RouteSignal::RouteCeilingDirect => "route_ceiling_direct",
            RouteSignal::RouteCeilingLight => "route_ceiling_light",
            RouteSignal::RouteCeilingDeep => "route_ceiling_deep",
            RouteSignal::ExplicitSeedsPresent => "explicit_seeds_present",
            RouteSignal::IdentityOrSourceRequested => "identity_or_source_requested",
            RouteSignal::RelationshipsOrImpactRequested => "relationships_or_impact_requested",
            RouteSignal::BasicCoverageConflictsRequested => "basic_coverage_conflicts_requested",
            RouteSignal::DeepSynthesisRequested => "deep_synthesis_requested",
            RouteSignal::StartingGenerationObserved => "starting_generation_observed",
            RouteSignal::StartingGenerationUnavailable => "starting_generation_unavailable",
            RouteSignal::CapabilityProfileApplied => "capability_profile_applied",
            RouteSignal::CostProfileApplied => "cost_profile_applied",
        }
    }
}

#[derive(Debug, Clone, Copy, PartialEq, Eq, PartialOrd, Ord, Structural)]
pub enum RouteReason {
    CallerContextSufficient,
    CallerContextIncomplete,
    AtlasNotRequested,
    ExplicitAtlasRequest,
    LightCapabilityRequired,
    DeepCapabilityRequired,
    RouteFloorApplied,
    StartingGenerationUnavailable,
}

impl RouteReason {
    pub open spec fn spec_ascii(self) -> Seq<char> {
        match self {
            RouteReason::CallerContextSufficient => "caller_context_sufficient"@,
            RouteReason::CallerContextIncomplete => "caller_context_incomplete"@,
            RouteReason::AtlasNotRequested => "atlas_not_requested"@,
            RouteReason::ExplicitAtlasRequest => "explicit_atlas_request"@,
            RouteReason::LightCapabilityRequired => "light_capability_required"@,
            RouteReason::DeepCapabilityRequired => "deep_capability_required"@,
            RouteReason::RouteFloorApplied => "route_floor_applied"@,
            RouteReason::StartingGenerationUnavailable => "starting_generation_unavailable"@,
        }
    }

    /// The wire name.
    pub fn ascii(self) -> (r: &'static str)
        ensures
            r@ == self.spec_ascii(),
    {
        match self {
            RouteReason::CallerContextSufficient => "caller_context_sufficient",
            RouteReason::CallerContextIncomplete => "caller_context_incomplete",
            RouteReason::AtlasNotRequested => "atlas_not_requested",
            RouteReason::ExplicitAtlasRequest => "explicit_atlas_request",
            RouteReason::LightCapabilityRequired => "light_capability_required",
            RouteReason::DeepCapabilityRequired => "deep_capability_required",
            RouteReason::RouteFloorApplied => "route_floor_applied",
            RouteReason::StartingGenerationUnavailable => "starting_generation_unavailable",
        }
    }
}

/// `acc` followed by one field per text.
pub open spec fn text_fields(acc: Seq<Seq<u8>>, items: Seq<Seq<char>>) -> Seq<Seq<u8>>
    decreases items.len(),
{
    if items.len() == 0 {
        acc
    } else {
        text_fields(acc, items.drop_last()).push(digest::text_field(items.last()))
    }
}

fn encode_texts(encoder: &mut CanonicalEncoder, items: &Vec<String>)
    ensures
        final(encoder)@ == text_fields(old(encoder)@, sorted::views::<String>(items@)),
{
    let ghost all = sorted::views::<String>(items@);
    assert(all.take(0) =~= Seq::empty());
    for i in 0..items.len()
        invariant
            all == sorted::views::<String>(items@),
            encoder@ == text_fields(old(encoder)@, all.take(i as int)),
    {
        encoder.text(items[i].as_str());
        proof {
            assert(all.take(i + 1).drop_last() =~= all.take(i as int));
            assert(all.take(i + 1).last() == items@[i as int]@);
        }
    }
    assert(all.take(all.len() as int) =~= all);
}

/// Digest and counts of the explicit targets of a request.
#[derive(Debug, Clone, PartialEq, Eq)]
pub struct SeedSummary {
    pub digest: String,
    pub path_count: u32,
    pub symbol_count: u32,
}

pub struct SeedView {
    pub digest: Seq<char>,
    pub path_count: u32,
    pub symbol_count: u32,
}

impl View for SeedSummary {
    type V = SeedView;

    open spec fn view(&self) -> SeedView {
        SeedView {
            digest: self.digest@,
            path_count: self.path_count,
            symbol_count: self.symbol_count,
        }
    }
}

/// The summary of canonical targets: sorted, without repetition.
pub open spec fn seed_summary(paths: Seq<Seq<char>>, symbols: Seq<Seq<char>>) -> SeedView {
    let head = seq![
        digest::text_field("workspace-atlas/context-route-seeds-v1"@),
        digest::be64(paths.len() as u64),
    ];
    let fields = text_fields(
        text_fields(head, paths).push(digest::be64(symbols.len() as u64)),
        symbols,
    );
    SeedView {
        digest: digest::fields_digest(fields),
        path_count: paths.len() as u32,
        symbol_count: symbols.len() as u32,
    }
}

impl SeedSummary {
    /// Canonical digest/counts for the actual explicit path and symbol targets.
    pub fn from_targets(paths: &[String], symbols: &[String]) -> (r: Result<
        Self,
        ContextRouteError,
    >)
        ensures
            ({
                let p = sorted::sorted_list::<String>(sorted::views::<String>(paths@));
                let s = sorted::sorted_list::<String>(sorted::views::<String>(symbols@));
                &&& r is Ok <==> p.len() <= u32::MAX && s.len() <= u32::MAX
                &&& r is Ok ==> r->Ok_0@ == seed_summary(p, s) && text::hex64(r->Ok_0.digest@)
                &&& r is Err ==> r->Err_0@ == RouteErrorView::InvalidIdentity
            }),
    {
        let paths = sorted::sort_list(paths);
        let symbols = sorted::sort_list(symbols);
        if paths.len() as u64 > u32::MAX as u64 || symbols.len() as u64 > u32::MAX as u64 {
            return Err(ContextRouteError::InvalidIdentity);
        }
        let path_count: u32 = paths.len() as u32;
        let symbol_count: u32 = symbols.len() as u32;
        let mut encoder = CanonicalEncoder::new("workspace-atlas/context-route-seeds-v1");
        encoder.u64(path_count as u64);
        proof {
            assert(encoder@ =~= seq![
                digest::text_field("workspace-atlas/context-route-seeds-v1"@),
                digest::be64(path_count as u64),
            ]);
        }
        encode_texts(&mut encoder, &paths);
        encoder.u64(symbol_count as u64);
        encode_texts(&mut encoder, &symbols);
        Ok(SeedSummary { digest: encoder.finish(), path_count, symbol_count })
    }
}

/// The summary does not depend on the order of the targets, nor on their
/// repetition.
pub proof fn law_seed_summary_ignores_order(
    paths: Seq<Seq<char>>,
    other: Seq<Seq<char>>,
    symbols: Seq<Seq<char>>,
    other_symbols: Seq<Seq<char>>,
)
    requires
        forall|y: Seq<char>| #[trigger] paths.contains(y) <==> other.contains(y),
        forall|y: Seq<char>| #[trigger] symbols.contains(y) <==> other_symbols.contains(y),
    ensures
        seed_summary(
            sorted::sorted_list::<String>(paths),
            sorted::sorted_list::<String>(symbols),
        ) == seed_summary(
            sorted::sorted_list::<String>(other),
            sorted::sorted_list::<String>(other_symbols),
        ),
{
    sorted::law_sorted_list_depends_on_members::<String>(paths, other);
    sorted::law_sorted_list_depends_on_members::<String>(symbols, other_symbols);
}

#[derive(Debug, Clone, PartialEq, Eq)]
pub struct ProfileIdentity {
    pub profile_id: String,
    pub profile_version: String,
    pub manifest_digest: String,
}

pub struct ProfileView {
    pub profile_id: Seq<char>,
    pub profile_version: Seq<char>,
    pub manifest_digest: Seq<char>,
}

impl View for ProfileIdentity {
    type V = ProfileView;

    open spec fn view(&self) -> ProfileView {
        ProfileView {
            profile_id: self.profile_id@,
            profile_version: self.profile_version@,
            manifest_digest: self.manifest_digest@,
        }
    }
}

pub open spec fn opt_profile(value: Option<ProfileIdentity>) -> Option<ProfileView> {
    match value {
        Some(profile) => Some(profile@),
        None => None,
    }
}

#[derive(Debug, Clone, Copy, PartialEq, Eq, PartialOrd, Ord, Structural)]
pub enum LightOperation {
    Query,
    SourceReference,
}

impl LightOperation {
    pub open spec fn spec_rank(self) -> u8 {
        match self {
            LightOperation::Query => 0,
            LightOperation::SourceReference => 1,
        }
    }

    pub open spec fn spec_ascii(self) -> Seq<char> {
        match self {
            LightOperation::Query => "query"@,
            LightOperation::SourceReference => "source_reference"@,
        }
    }

    /// The wire name.
    pub fn ascii(self) -> (r: &'static str)
        ensures
            r@ == self.spec_ascii(),
    {
        match self {
            LightOperation::Query => "query",
            LightOperation::SourceReference => "source_reference",
        }
    }

    pub open spec fn spec_version(self) -> Seq<char> {
        match self {
            LightOperation::Query => QUERY_OPERATION_VERSION@,
            LightOperation::SourceReference => SOURCE_REFERENCE_OPERATION_VERSION@,
        }
    }

    /// The pinned contract version of the operation.
    pub fn version(self) -> (r: &'static str)
        ensures
            r@ == self.spec_version(),
    {
        match self {
            LightOperation::Query => QUERY_OPERATION_VERSION,
            LightOperation::SourceReference => SOURCE_REFERENCE_OPERATION_VERSION,
        }
    }
}

#[derive(Debug, Clone, PartialEq, Eq)]
pub struct VersionedOperation {
    pub operation: LightOperation,
    pub version: String,
}

pub struct OperationView {
    pub operation: LightOperation,
    pub version: Seq<char>,
}

impl View for VersionedOperation {
    type V = OperationView;

    open spec fn view(&self) -> OperationView {
        OperationView { operation: self.operation, version: self.version@ }
    }
}

impl VersionedOperation {
    /// The operation at its pinned version.
    pub fn new(operation: LightOperation) -> (r: Self)
        ensures
            r@ == pinned_operation(operation),
    {
        VersionedOperation { operation, version: operation.version().to_string() }
    }
}

/// The operation at its pinned version.
pub open spec fn pinned_operation(operation: LightOperation) -> OperationView {
    OperationView { operation, version: operation.spec_version() }
}

/// Both LIGHT operations, at their pinned versions and in order.
pub open spec fn pinned_operations() -> Seq<OperationView> {
    seq![pinned_operation(LightOperation::Query), pinned_operation(LightOperation::SourceReference)]
}

pub open spec fn operation_views(items: Seq<VersionedOperation>) -> Seq<OperationView> {
    Seq::new(items.len(), |i: int| items[i]@)
}

#[derive(Debug, Clone, PartialEq, Eq)]
pub struct DeepContractVersions {
    pub planner_version: String,
    pub projection_version: String,
    pub context_ir_version: String,
    pub estimator_version: String,
}

pub struct DeepContractView {
    pub planner_version: Seq<char>,
    pub projection_version: Seq<char>,
    pub context_ir_version: Seq<char>,
    pub estimator_version: Seq<char>,
}

impl View for DeepContractVersions {
    type V = DeepContractView;

    open spec fn view(&self) -> DeepContractView {
        DeepContractView {
            planner_version: self.planner_version@,
            projection_version: self.projection_version@,
            context_ir_version: self.context_ir_version@,
            estimator_version: self.estimator_version@,
        }
    }
}

/// The pinned DEEP contract versions.
pub open spec fn pinned_deep_contracts() -> DeepContractView {
    DeepContractView {
        planner_version: DEEP_PLANNER_VERSION@,
        projection_version: DEEP_PROJECTION_VERSION@,
        context_ir_version: CONTEXT_IR_VERSION@,
        estimator_version: DEEP_ESTIMATOR_VERSION@,
    }
}

impl DeepContractView {
    /// The four versions, separated by slashes.
    pub open spec fn slashed(self) -> Seq<char> {
        self.planner_version + "/"@ + self.projection_version + "/"@ + self.context_ir_version + "/"@
            + self.estimator_version
    }

    /// The refusal of versions other than the pinned ones.
    pub open spec fn fault(self) -> Option<RouteErrorView> {
        if self == pinned_deep_contracts() {
            None
        } else {
            Some(
                RouteErrorView::UnsupportedVersion {
                    contract: "deep_contract"@,
                    supplied: self.slashed(),
                },
            )
        }
    }
}

impl DeepContractVersions {
    /// The pinned versions.
    pub fn fixed() -> (r: Self)
        ensures
            r@ == pinned_deep_contracts(),
    {
        DeepContractVersions {
            planner_version: DEEP_PLANNER_VERSION.to_string(),
            projection_version: DEEP_PROJECTION_VERSION.to_string(),
            context_ir_version: CONTEXT_IR_VERSION.to_string(),
            estimator_version: DEEP_ESTIMATOR_VERSION.to_string(),
        }
    }

    /// Refuses any version other than the pinned one.
    pub fn validate(&self) -> (r: Result<(), ContextRouteError>)
        ensures
            fault_of(r) == self@.fault(),
    {
        if !text::text_eq(self.planner_version.as_str(), DEEP_PLANNER_VERSION) || !text::text_eq(
            self.projection_version.as_str(),
            DEEP_PROJECTION_VERSION,
        ) || !text::text_eq(self.context_ir_version.as_str(), CONTEXT_IR_VERSION) || !text::text_eq(
            self.estimator_version.as_str(),
            DEEP_ESTIMATOR_VERSION,
        ) {
            let mut supplied = self.planner_version.clone();
            supplied.append("/");
            supplied.append(self.projection_version.as_str());
            supplied.append("/");
            supplied.append(self.context_ir_version.as_str());
            supplied.append("/");
            supplied.append(self.estimator_version.as_str());
            return Err(
                ContextRouteError::UnsupportedVersion {
                    contract: "deep_contract".to_string(),
                    supplied,
                },
            );
        }
        Ok(())
    }
}

#[derive(Debug, Clone, PartialEq, Eq)]
pub struct DeepSemanticBudget {
    pub max_records: u64,
    pub max_source_bytes: u64,
    pub max_estimated_tokens: u64,
    pub max_depth: u32,
    pub max_work_units: u64,
    pub uncertainty_reserve_percent: u8,
    pub budget_digest: String,
}

pub struct BudgetView {
    pub max_records: u64,
    pub max_source_bytes: u64,
    pub max_estimated_tokens: u64,
    pub max_depth: u32,
    pub max_work_units: u64,
    pub uncertainty_reserve_percent: u8,
    pub budget_digest: Seq<char>,
}

impl View for DeepSemanticBudget {
    type V = BudgetView;

    open spec fn view(&self) -> BudgetView {
        BudgetView {
            max_records: self.max_records,
            max_source_bytes: self.max_source_bytes,
            max_estimated_tokens: self.max_estimated_tokens,
            max_depth: self.max_depth,
            max_work_units: self.max_work_units,
            uncertainty_reserve_percent: self.uncertainty_reserve_percent,
            budget_digest: self.budget_digest@,
        }
    }
}

impl BudgetView {
    /// Every limit is positive and within the advertised bounds.
    pub open spec fn values_valid(self) -> bool {
        &&& 0 < self.max_records <= MAX_CONTEXT_EXECUTION_RECORDS
        &&& 0 < self.max_source_bytes <= MAX_CONTEXT_EXECUTION_SOURCE_BYTES
        &&& 0 < self.max_estimated_tokens <= MAX_CONTEXT_EXECUTION_ESTIMATED_TOKENS
        &&& 0 < self.max_depth <= MAX_DEEP_DEPTH
        &&& 0 < self.max_work_units <= MAX_CONTEXT_EXECUTION_WORK_UNITS
        &&& 0 < self.uncertainty_reserve_percent <= 100
    }

    /// The fields under the budget digest.
    pub open spec fn fields(self) -> Seq<Seq<u8>> {
        seq![digest::text_field("workspace-atlas/context-deep-budget-v1"@)].push(
            digest::be64(self.max_records),
        ).push(digest::be64(self.max_source_bytes)).push(
            digest::be64(self.max_estimated_tokens),
        ).push(digest::be64(self.max_depth as u64)).push(digest::be64(self.max_work_units)).push(
            digest::be64(self.uncertainty_reserve_percent as u64),
        )
    }

    /// The digest that the limits must carry.
    pub open spec fn digest(self) -> Seq<char> {
        digest::fields_digest(self.fields())
    }

    /// What is wrong with the budget, if anything.
    pub open spec fn fault(self) -> Option<RouteErrorView> {
        if !self.values_valid() {
            Some(RouteErrorView::InvalidDeepBudget)
        } else if self.budget_digest != self.digest() {
            Some(RouteErrorView::InvalidDeepBudgetDigest)
        } else {
            None
        }
    }
}

impl DeepSemanticBudget {
    /// A budget with its digest, unless a limit is out of bounds.
    pub fn new(
        max_records: u64,
        max_source_bytes: u64,
        max_estimated_tokens: u64,
        max_depth: u32,
        max_work_units: u64,
        uncertainty_reserve_percent: u8,
    ) -> (r: Result<Self, ContextRouteError>)
        ensures
            ({
                let bare = BudgetView {
                    max_records,
                    max_source_bytes,
                    max_estimated_tokens,
                    max_depth,
                    max_work_units,
                    uncertainty_reserve_percent,
                    budget_digest: Seq::empty(),
                };
                &&& r is Ok <==> bare.values_valid()
                &&& r is Ok ==> r->Ok_0@ == (BudgetView { budget_digest: bare.digest(), ..bare })
                &&& r is Ok ==> r->Ok_0@.fault() is None
                &&& r is Err ==> r->Err_0@ == RouteErrorView::InvalidDeepBudget
            }),
    {
        let mut value = DeepSemanticBudget {
            max_records,
            max_source_bytes,
            max_estimated_tokens,
            max_depth,
            max_work_units,
            uncertainty_reserve_percent,
            budget_digest: String::new(),
        };
        if !value.values_are_valid() {
            return Err(ContextRouteError::InvalidDeepBudget);
        }
        value.budget_digest = value.expected_digest();
        Ok(value)
    }

    fn values_are_valid(&self) -> (r: bool)
        ensures
            r == self@.values_valid(),
    {
        !(self.max_records == 0 || self.max_records > MAX_CONTEXT_EXECUTION_RECORDS
            || self.max_source_bytes == 0 || self.max_source_bytes
            > MAX_CONTEXT_EXECUTION_SOURCE_BYTES || self.max_estimated_tokens == 0
            || self.max_estimated_tokens > MAX_CONTEXT_EXECUTION_ESTIMATED_TOKENS || self.max_depth
            == 0 || self.max_depth > MAX_DEEP_DEPTH || self.max_work_units == 0
            || self.max_work_units > MAX_CONTEXT_EXECUTION_WORK_UNITS
            || self.uncertainty_reserve_percent == 0 || self.uncertainty_reserve_percent > 100)
    }

    /// Checks the limits against the advertised bounds.
    pub fn validate_values(&self) -> (r: Result<(), ContextRouteError>)
        ensures
            r is Ok <==> self@.values_valid(),
            r is Err ==> r->Err_0@ == RouteErrorView::InvalidDeepBudget,
    {
        if self.values_are_valid() {
            Ok(())
        } else {
            Err(ContextRouteError::InvalidDeepBudget)
        }
    }

    /// The digest of the limits.
    pub fn expected_digest(&self) -> (r: String)
        ensures
            r@ == self@.digest(),
            text::hex64(r@),
    {
        let mut encoder = CanonicalEncoder::new("workspace-atlas/context-deep-budget-v1");
        encoder.u64(self.max_records);
        encoder.u64(self.max_source_bytes);
        encoder.u64(self.max_estimated_tokens);
        encoder.u64(self.max_depth as u64);
        encoder.u64(self.max_work_units);
        encoder.u64(self.uncertainty_reserve_percent as u64);
        encoder.finish()
    }

    /// Checks the limits and their digest.
    pub fn validate(&self) -> (r: Result<(), ContextRouteError>)
        ensures
            fault_of(r) == self@.fault(),
    {
        if !self.values_are_valid() {
            return Err(ContextRouteError::InvalidDeepBudget);
        }
        let expected = self.expected_digest();
        if !text::text_eq(self.budget_digest.as_str(), expected.as_str()) {
            return Err(ContextRouteError::InvalidDeepBudgetDigest);
        }
        Ok(())
    }
}

pub open spec fn opt_budget(value: Option<DeepSemanticBudget>) -> Option<BudgetView> {
    match value {
        Some(budget) => Some(budget@),
        None => None,
    }
}

#[derive(Debug, Clone, PartialEq, Eq)]
pub enum ContextRouteError {
    UnsupportedVersion { contract: String, supplied: String },
    NoCommonVersion { supported: Box<SupportedVersions> },
    FloorAboveCeiling,
    IntentFloorConflict,
    IntentCeilingConflict,
    DeepBudgetRequired,
    InvalidDeepBudget,
    InvalidDeepBudgetDigest,
    InvalidIdentity,
    InvalidLightOperations,
    UnknownProfile,
    InvalidExecution,
}

pub enum RouteErrorView {
    UnsupportedVersion { contract: Seq<char>, supplied: Seq<char> },
    NoCommonVersion { supported: SupportedVersionsView },
    FloorAboveCeiling,
    IntentFloorConflict,
    IntentCeilingConflict,
    DeepBudgetRequired,
    InvalidDeepBudget,
    InvalidDeepBudgetDigest,
    InvalidIdentity,
    InvalidLightOperations,
    UnknownProfile,
    InvalidExecution,
}

impl View for ContextRouteError {
    type V = RouteErrorView;

    open spec fn view(&self) -> RouteErrorView {
        match self {
            ContextRouteError::UnsupportedVersion { contract, supplied } => {
                RouteErrorView::UnsupportedVersion { contract: contract@, supplied: supplied@ }
            },
            ContextRouteError::NoCommonVersion { supported } => {
                RouteErrorView::NoCommonVersion { supported: supported@ }
            },
            ContextRouteError::FloorAboveCeiling => RouteErrorView::FloorAboveCeiling,
            ContextRouteError::IntentFloorConflict => RouteErrorView::IntentFloorConflict,
            ContextRouteError::IntentCeilingConflict => RouteErrorView::IntentCeilingConflict,
            ContextRouteError::DeepBudgetRequired => RouteErrorView::DeepBudgetRequired,
            ContextRouteError::InvalidDeepBudget => RouteErrorView::InvalidDeepBudget,
            ContextRouteError::InvalidDeepBudgetDigest => RouteErrorView::InvalidDeepBudgetDigest,
            ContextRouteError::InvalidIdentity => RouteErrorView::InvalidIdentity,
            ContextRouteError::InvalidLightOperations => RouteErrorView::InvalidLightOperations,
            ContextRouteError::UnknownProfile => RouteErrorView::UnknownProfile,
            ContextRouteError::InvalidExecution => RouteErrorView::InvalidExecution,
        }
    }
}

/// The error of a check, if it failed.
pub open spec fn fault_of<T>(r: Result<T, ContextRouteError>) -> Option<RouteErrorView> {
    match r {
        Ok(_) => None,
        Err(e) => Some(e@),
    }
}

impl ContextRouteError {
    pub open spec fn spec_message(self) -> Seq<char> {
        match self {
            ContextRouteError::UnsupportedVersion { contract, supplied } => "unsupported "@
                + contract@ + " version "@ + supplied@,
            ContextRouteError::NoCommonVersion { .. } => "no common Atlas contract version"@,
            ContextRouteError::FloorAboveCeiling => "route floor is above route ceiling"@,
            ContextRouteError::IntentFloorConflict => "Atlas intent conflicts with the route floor"@,
            ContextRouteError::IntentCeilingConflict => {
                "Atlas intent requires a route excluded by the ceiling"@
            },
            ContextRouteError::DeepBudgetRequired => {
                "a DEEP-permitting request requires explicit semantic budgets"@
            },
            ContextRouteError::InvalidDeepBudget => {
                "deep semantic budgets must be positive and within advertised bounds"@
            },
            ContextRouteError::InvalidDeepBudgetDigest => {
                "deep semantic budget digest is invalid"@
            },
            ContextRouteError::InvalidIdentity => "hash or identifier is malformed"@,
            ContextRouteError::InvalidLightOperations => {
                "LIGHT operation contracts are incomplete, duplicated, unordered, or unsupported"@
            },
            ContextRouteError::UnknownProfile => {
                "no capability or cost profiles are registered by context-route-v2.0.0"@
            },
            ContextRouteError::InvalidExecution => {
                "execution envelope violates its state, route, payload, or bound invariants"@
            },
        }
    }

    /// The text shown for the error.
    pub fn message(&self) -> (r: String)
        ensures
            r@ == self.spec_message(),
    {
        match self {
            ContextRouteError::UnsupportedVersion { contract, supplied } => {
                let mut out = "unsupported ".to_string();
                out.append(contract.as_str());
                out.append(" version ");
                out.append(supplied.as_str());
                out
            },
            ContextRouteError::NoCommonVersion { .. } => {
                "no common Atlas contract version".to_string()
            },
            ContextRouteError::FloorAboveCeiling => {
                "route floor is above route ceiling".to_string()
            },
            ContextRouteError::IntentFloorConflict => {
                "Atlas intent conflicts with the route floor".to_string()
            },
            ContextRouteError::IntentCeilingConflict => {
                "Atlas intent requires a route excluded by the ceiling".to_string()
            },
            ContextRouteError::DeepBudgetRequired => {
                "a DEEP-permitting request requires explicit semantic budgets".to_string()
            },
            ContextRouteError::InvalidDeepBudget => {
                "deep semantic budgets must be positive and within advertised bounds".to_string()
            },
            ContextRouteError::InvalidDeepBudgetDigest => {
                "deep semantic budget digest is invalid".to_string()
            },
            ContextRouteError::InvalidIdentity => "hash or identifier is malformed".to_string(),
            ContextRouteError::InvalidLightOperations => {
                "LIGHT operation contracts are incomplete, duplicated, unordered, or unsupported".to_string()
            },
            ContextRouteError::UnknownProfile => {
                "no capability or cost profiles are registered by context-route-v2.0.0".to_string()
            },
            ContextRouteError::InvalidExecution => {
                "execution envelope violates its state, route, payload, or bound invariants".to_string()
            },
        }
    }
}

/// A printable ASCII text of 1 to 128 characters.
pub open spec fn opaque_id(s: Seq<char>) -> bool {
    1 <= s.len() <= 128 && forall|i: int| 0 <= i < s.len() ==> ' ' <= #[trigger] s[i] && s[i] <= '~'
}

/// Whether the text has the form of a SHA-256 digest.
pub fn valid_digest(value: &str) -> (r: bool)
    ensures
        r == text::hex64(value@),
{
    text::is_hex64_text(value)
}

/// Whether the text can identify something: printable ASCII, not empty, not long.
pub fn valid_opaque_id(value: &str) -> (r: bool)
    ensures
        r == opaque_id(value@),
{
    let chars = text::chars_of(value);
    if chars.len() == 0 || chars.len() > 128 {
        return false;
    }
    for i in 0..chars.len()
        invariant
            chars@ == value@,
            forall|j: int| 0 <= j < i ==> ' ' <= #[trigger] value@[j] && value@[j] <= '~',
    {
        let c: char = chars[i];
        if !(' ' <= c && c <= '~') {
            assert(!(' ' <= value@[i as int] && value@[i as int] <= '~'));
            return false;
        }
    }
    true
}

/// A request to route one task to the context it needs.
#[derive(Debug, Clone, PartialEq, Eq)]
pub struct ContextRouteRequest {
    pub schema_version: String,
    pub normalized_task_hash: String,
    pub declared_kind: Option<TaskKind>,
    pub classifier_kind: TaskKind,
    pub classifier_version: String,
    pub explicit_seeds: SeedSummary,
    pub caller_capabilities: CapabilityMap,
    pub atlas_intent: AtlasIntent,
    pub route_floor: Route,
    pub route_ceiling: Route,
    pub capability_profile: Option<ProfileIdentity>,
    pub cost_profile: Option<ProfileIdentity>,
    pub profile_registry_digest: Option<String>,
    pub starting_generation: GenerationObservation,
    pub light_operations: Vec<VersionedOperation>,
    pub deep_contracts: DeepContractVersions,
    pub deep_budget: Option<DeepSemanticBudget>,
}

pub struct RequestView {
    pub schema_version: Seq<char>,
    pub normalized_task_hash: Seq<char>,
    pub declared_kind: Option<TaskKind>,
    pub classifier_kind: TaskKind,
    pub classifier_version: Seq<char>,
    pub explicit_seeds: SeedView,
    pub caller_capabilities: CapabilityMap,
    pub atlas_intent: AtlasIntent,
    pub route_floor: Route,
    pub route_ceiling: Route,
    pub capability_profile: Option<ProfileView>,
    pub cost_profile: Option<ProfileView>,
    pub profile_registry_digest: Option<Seq<char>>,
    pub starting_generation: GenerationView,
    pub light_operations: Seq<OperationView>,
    pub deep_contracts: DeepContractView,
    pub deep_budget: Option<BudgetView>,
}

impl View for ContextRouteRequest {
    type V = RequestView;

    open spec fn view(&self) -> RequestView {
        RequestView {
            schema_version: self.schema_version@,
            normalized_task_hash: self.normalized_task_hash@,
            declared_kind: self.declared_kind,
            classifier_kind: self.classifier_kind,
            classifier_version: self.classifier_version@,
            explicit_seeds: self.explicit_seeds@,
            caller_capabilities: self.caller_capabilities,
            atlas_intent: self.atlas_intent,
            route_floor: self.route_floor,
            route_ceiling: self.route_ceiling,
            capability_profile: opt_profile(self.capability_profile),
            cost_profile: opt_profile(self.cost_profile),
            profile_registry_digest: text::opt_text(self.profile_registry_digest),
            starting_generation: self.starting_generation@,
            light_operations: operation_views(self.light_operations@),
            deep_contracts: self.deep_contracts@,
            deep_budget: opt_budget(self.deep_budget),
        }
    }
}

impl RequestView {
    /// The first thing that makes the request unacceptable, if anything does.
    pub open spec fn fault(self) -> Option<RouteErrorView> {
        if self.schema_version != CONTEXT_ROUTE_POLICY_VERSION@ {
            Some(
                RouteErrorView::UnsupportedVersion {
                    contract: "route"@,
                    supplied: self.schema_version,
                },
            )
        } else if self.classifier_version != TASK_CLASSIFIER_VERSION@ {
            Some(
                RouteErrorView::UnsupportedVersion {
                    contract: "classifier"@,
                    supplied: self.classifier_version,
                },
            )
        } else if !text::hex64(self.normalized_task_hash) || !text::hex64(
            self.explicit_seeds.digest,
        ) {
            Some(RouteErrorView::InvalidIdentity)
        } else if self.starting_generation is Observed && !opaque_id(
            self.starting_generation->generation_id,
        ) {
            Some(RouteErrorView::InvalidIdentity)
        } else if self.route_floor.spec_rank() > self.route_ceiling.spec_rank() {
            Some(RouteErrorView::FloorAboveCeiling)
        } else if self.atlas_intent == AtlasIntent::Never && self.route_floor != Route::Direct {
            Some(RouteErrorView::IntentFloorConflict)
        } else if self.atlas_intent == AtlasIntent::Require && self.route_ceiling == Route::Direct {
            Some(RouteErrorView::IntentCeilingConflict)
        } else if self.route_ceiling == Route::AtlasDeep && self.deep_budget is None {
            Some(RouteErrorView::DeepBudgetRequired)
        } else if self.deep_budget is Some && self.deep_budget->0.fault() is Some {
            self.deep_budget->0.fault()
        } else if self.capability_profile is Some || self.cost_profile is Some
            || self.profile_registry_digest is Some {
            Some(RouteErrorView::UnknownProfile)
        } else if self.deep_contracts.fault() is Some {
            self.deep_contracts.fault()
        } else if self.light_operations != pinned_operations() {
            Some(RouteErrorView::InvalidLightOperations)
        } else {
            None
        }
    }

    /// The lowest route that the request allows.
    pub open spec fn effective_floor(self) -> Route {
        match self.atlas_intent {
            AtlasIntent::Never => Route::Direct,
            AtlasIntent::Allow => self.route_floor,
            AtlasIntent::Require => if self.route_floor == Route::Direct {
                Route::AtlasLight
            } else {
                self.route_floor
            },
        }
    }

    /// The highest route that the request allows.
    pub open spec fn effective_ceiling(self) -> Route {
        match self.atlas_intent {
            AtlasIntent::Never => Route::Direct,
            _ => self.route_ceiling,
        }
    }

    pub open spec fn requests(self, capability: RequiredCapability) -> bool {
        self.caller_capabilities.state(capability) is Some
    }

    /// The signals behind the decision, in their order.
    pub open spec fn signals(self) -> Seq<RouteSignal> {
        let caps = self.caller_capabilities;
        let floor = self.effective_floor();
        let ceiling = self.effective_ceiling();
        let s = Seq::<RouteSignal>::empty();
        let s = with_if(
            s,
            caps.has_state(CallerCapabilityState::Satisfied),
            RouteSignal::CallerCapabilitiesSatisfied,
        );
        let s = with_if(
            s,
            caps.has_state(CallerCapabilityState::Unsatisfied),
            RouteSignal::CallerCapabilitiesUnsatisfied,
        );
        let s = with_if(
            s,
            caps.has_state(CallerCapabilityState::Unknown),
            RouteSignal::CallerCapabilitiesUnknown,
        );
        let s = s.push(
            match self.atlas_intent {
                AtlasIntent::Never => RouteSignal::AtlasIntentNone,
                AtlasIntent::Allow => RouteSignal::AtlasIntentAllow,
                AtlasIntent::Require => RouteSignal::AtlasIntentRequire,
            },
        );
        let s = s.push(
            match floor {
                Route::Direct => RouteSignal::RouteFloorDirect,
                Route::AtlasLight => RouteSignal::RouteFloorLight,
                Route::AtlasDeep => RouteSignal::RouteFloorDeep,
            },
        );
        let s = s.push(
            match ceiling {
                Route::Direct => RouteSignal::RouteCeilingDirect,
                Route::AtlasLight => RouteSignal::RouteCeilingLight,
                Route::AtlasDeep => RouteSignal::RouteCeilingDeep,
            },
        );
        let s = with_if(
            s,
            self.explicit_seeds.path_count > 0 || self.explicit_seeds.symbol_count > 0,
            RouteSignal::ExplicitSeedsPresent,
        );
        let s = with_if(
            s,
            self.requests(RequiredCapability::IdentityLookup) || self.requests(
                RequiredCapability::ExactSource,
            ),
            RouteSignal::IdentityOrSourceRequested,
        );
        let s = with_if(
            s,
            self.requests(RequiredCapability::BoundedRelationships) || self.requests(
                RequiredCapability::ImpactFrontier,
            ),
            RouteSignal::RelationshipsOrImpactRequested,
        );
        let s = with_if(
            s,
            self.requests(RequiredCapability::BasicCoverageConflicts),
            RouteSignal::BasicCoverageConflictsRequested,
        );
        let s = with_if(
            s,
            self.requests(RequiredCapability::TemporalHistory) || self.requests(
                RequiredCapability::RequiredRoleClosure,
            ) || self.requests(RequiredCapability::ValidationPlan),
            RouteSignal::DeepSynthesisRequested,
        );
        s.push(
            match self.starting_generation {
                GenerationView::Observed { .. } => RouteSignal::StartingGenerationObserved,
                GenerationView::Unavailable { .. } => RouteSignal::StartingGenerationUnavailable,
            },
        )
    }

    /// The reasons behind the decision, in their order.
    pub open spec fn reasons(self) -> Seq<RouteReason> {
        let caps = self.caller_capabilities;
        let s = seq![
            if caps.all_satisfied() {
                RouteReason::CallerContextSufficient
            } else {
                RouteReason::CallerContextIncomplete
            },
        ];
        let s = with_if(s, self.atlas_intent == AtlasIntent::Never, RouteReason::AtlasNotRequested);
        let s = with_if(
            s,
            self.atlas_intent == AtlasIntent::Require,
            RouteReason::ExplicitAtlasRequest,
        );
        let s = with_if(s, caps.lacks_at(Route::AtlasLight), RouteReason::LightCapabilityRequired);
        let s = with_if(s, caps.lacks_at(Route::AtlasDeep), RouteReason::DeepCapabilityRequired);
        let s = with_if(s, self.effective_floor() != Route::Direct, RouteReason::RouteFloorApplied);
        with_if(
            s,
            self.starting_generation is Unavailable,
            RouteReason::StartingGenerationUnavailable,
        )
    }

    /// The decision that the request leads to.
    pub open spec fn decided(self) -> DecisionView {
        let bare = DecisionView {
            schema_version: CONTEXT_ROUTE_POLICY_VERSION@,
            request: self,
            effective_floor: self.effective_floor(),
            effective_ceiling: self.effective_ceiling(),
            requested_capabilities: self.caller_capabilities,
            deep_budget_digest: match self.deep_budget {
                Some(budget) => Some(budget.budget_digest),
                None => None,
            },
            initial_route: self.effective_floor(),
            signals: self.signals(),
            reasons: self.reasons(),
            starting_generation: self.starting_generation,
            policy_version: CONTEXT_ROUTE_POLICY_VERSION@,
            decision_hash: Seq::empty(),
        };
        DecisionView { decision_hash: bare.digest(), ..bare }
    }
}

/// `acc`, with `x` appended where `keep` holds.
pub open spec fn with_if<T>(acc: Seq<T>, keep: bool, x: T) -> Seq<T> {
    if keep {
        acc.push(x)
    } else {
        acc
    }
}

fn push_if<T>(out: &mut Vec<T>, keep: bool, x: T)
    ensures
        final(out)@ == with_if(old(out)@, keep, x),
{
    if keep {
        out.push(x);
    }
}

/// A frozen routing decision.
#[derive(Debug, Clone, PartialEq, Eq)]
pub struct ContextRouteDecision {
    pub schema_version: String,
    pub request: ContextRouteRequest,
    pub effective_floor: Route,
    pub effective_ceiling: Route,
    pub requested_capabilities: CapabilityMap,
    pub deep_budget_digest: Option<String>,
    pub initial_route: Route,
    pub signals: Vec<RouteSignal>,
    pub reasons: Vec<RouteReason>,
    pub starting_generation: GenerationObservation,
    pub policy_version: String,
    pub decision_hash: String,
}

pub struct DecisionView {
    pub schema_version: Seq<char>,
    pub request: RequestView,
    pub effective_floor: Route,
    pub effective_ceiling: Route,
    pub requested_capabilities: CapabilityMap,
    pub deep_budget_digest: Option<Seq<char>>,
    pub initial_route: Route,
    pub signals: Seq<RouteSignal>,
    pub reasons: Seq<RouteReason>,
    pub starting_generation: GenerationView,
    pub policy_version: Seq<char>,
    pub decision_hash: Seq<char>,
}

impl View for ContextRouteDecision {
    type V = DecisionView;

    open spec fn view(&self) -> DecisionView {
        DecisionView {
            schema_version: self.schema_version@,
            request: self.request@,
            effective_floor: self.effective_floor,
            effective_ceiling: self.effective_ceiling,
            requested_capabilities: self.requested_capabilities,
            deep_budget_digest: text::opt_text(self.deep_budget_digest),
            initial_route: self.initial_route,
            signals: self.signals@,
            reasons: self.reasons@,
            starting_generation: self.starting_generation@,
            policy_version: self.policy_version@,
            decision_hash: self.decision_hash@,
        }
    }
}

/// `acc` followed by the fields of LIGHT operations.
pub open spec fn operation_fields(acc: Seq<Seq<u8>>, items: Seq<OperationView>) -> Seq<Seq<u8>>
    decreases items.len(),
{
    if items.len() == 0 {
        acc
    } else {
        operation_fields(acc, items.drop_last()).push(
            digest::text_field(items.last().operation.spec_ascii()),
        ).push(digest::text_field(items.last().version))
    }
}

/// `acc` followed by the fields of requested capabilities.
pub open spec fn capability_fields(
    acc: Seq<Seq<u8>>,
    items: Seq<(RequiredCapability, CallerCapabilityState)>,
) -> Seq<Seq<u8>>
    decreases items.len(),
{
    if items.len() == 0 {
        acc
    } else {
        capability_fields(acc, items.drop_last()).push(
            digest::text_field(items.last().0.spec_ascii()),
        ).push(digest::text_field(items.last().1.spec_ascii()))
    }
}

/// `acc` followed by the number of requested capabilities and their fields.
pub open spec fn capability_map_fields(acc: Seq<Seq<u8>>, map: CapabilityMap) -> Seq<Seq<u8>> {
    capability_fields(acc.push(digest::be64(map.listed().len() as u64)), map.listed())
}

/// `acc` followed by the fields of an optional profile.
pub open spec fn profile_fields(acc: Seq<Seq<u8>>, value: Option<ProfileView>) -> Seq<Seq<u8>> {
    match value {
        Some(profile) => acc.push(digest::mark_field(true)).push(
            digest::text_field(profile.profile_id),
        ).push(digest::text_field(profile.profile_version)).push(
            digest::text_field(profile.manifest_digest),
        ),
        None => acc.push(digest::mark_field(false)),
    }
}

/// `acc` followed by the fields of a generation observation.
pub open spec fn generation_fields(acc: Seq<Seq<u8>>, value: GenerationView) -> Seq<Seq<u8>> {
    match value {
        GenerationView::Observed { generation_id } => acc.push(
            digest::text_field("observed"@),
        ).push(digest::text_field(generation_id)),
        GenerationView::Unavailable { reason } => acc.push(
            digest::text_field("unavailable"@),
        ).push(digest::text_field(reason.spec_ascii())),
    }
}

/// `acc` followed by the fields of an optional budget.
pub open spec fn budget_fields(acc: Seq<Seq<u8>>, value: Option<BudgetView>) -> Seq<Seq<u8>> {
    match value {
        Some(budget) => acc.push(digest::mark_field(true)).push(
            digest::be64(budget.max_records),
        ).push(digest::be64(budget.max_source_bytes)).push(
            digest::be64(budget.max_estimated_tokens),
        ).push(digest::be64(budget.max_depth as u64)).push(digest::be64(budget.max_work_units)).push(
            digest::be64(budget.uncertainty_reserve_percent as u64),
        ).push(digest::text_field(budget.budget_digest)),
        None => acc.push(digest::mark_field(false)),
    }
}

pub open spec fn signal_fields(acc: Seq<Seq<u8>>, items: Seq<RouteSignal>) -> Seq<Seq<u8>>
    decreases items.len(),
{
    if items.len() == 0 {
        acc
    } else {
        signal_fields(acc, items.drop_last()).push(digest::text_field(items.last().spec_ascii()))
    }
}

pub open spec fn reason_fields(acc: Seq<Seq<u8>>, items: Seq<RouteReason>) -> Seq<Seq<u8>>
    decreases items.len(),
{
    if items.len() == 0 {
        acc
    } else {
        reason_fields(acc, items.drop_last()).push(digest::text_field(items.last().spec_ascii()))
    }
}

impl DecisionView {
    /// The contract versions: they come first.
    pub open spec fn version_fields(self) -> Seq<Seq<u8>> {
        let q = self.request;
        let a = seq![digest::text_field("workspace-atlas/context-route-decision-v1"@)].push(
            digest::text_field(q.schema_version),
        ).push(digest::text_field(self.schema_version)).push(
            digest::text_field(self.policy_version),
        ).push(digest::text_field(q.classifier_version));
        operation_fields(a, q.light_operations).push(
            digest::text_field(q.deep_contracts.planner_version),
        ).push(digest::text_field(q.deep_contracts.projection_version)).push(
            digest::text_field(q.deep_contracts.context_ir_version),
        ).push(digest::text_field(q.deep_contracts.estimator_version))
    }

    /// `acc` followed by what the request asks.
    pub open spec fn request_fields(self, acc: Seq<Seq<u8>>) -> Seq<Seq<u8>> {
        let q = self.request;
        let a = digest::optional_text_fields(
            acc.push(digest::text_field(q.normalized_task_hash)),
            match q.declared_kind {
                Some(kind) => Some(kind.spec_ascii()),
                None => None,
            },
        ).push(digest::text_field(q.classifier_kind.spec_ascii())).push(
            digest::text_field(q.explicit_seeds.digest),
        ).push(digest::be64(q.explicit_seeds.path_count as u64)).push(
            digest::be64(q.explicit_seeds.symbol_count as u64),
        );
        let a = capability_map_fields(a, q.caller_capabilities).push(
            digest::text_field(q.atlas_intent.spec_ascii()),
        ).push(digest::text_field(q.route_floor.spec_ascii())).push(
            digest::text_field(q.route_ceiling.spec_ascii()),
        );
        let a = profile_fields(profile_fields(a, q.capability_profile), q.cost_profile);
        let a = digest::optional_text_fields(a, q.profile_registry_digest);
        budget_fields(generation_fields(a, q.starting_generation), q.deep_budget)
    }

    /// `acc` followed by what was decided.
    pub open spec fn outcome_fields(self, acc: Seq<Seq<u8>>) -> Seq<Seq<u8>> {
        let a = acc.push(digest::text_field(self.effective_floor.spec_ascii())).push(
            digest::text_field(self.effective_ceiling.spec_ascii()),
        ).push(digest::text_field(self.initial_route.spec_ascii()));
        let a = digest::optional_text_fields(a, self.deep_budget_digest);
        let a = capability_map_fields(a, self.requested_capabilities);
        let a = reason_fields(signal_fields(a, self.signals), self.reasons);
        generation_fields(a, self.starting_generation)
    }

    /// The hash over request and decision; the hash field itself does not enter.
    pub open spec fn digest(self) -> Seq<char> {
        digest::fields_digest(self.outcome_fields(self.request_fields(self.version_fields())))
    }

    /// What is wrong with the decision, if anything: it must be what its request
    /// leads to.
    #[verifier::opaque]
    pub open spec fn fault(self) -> Option<RouteErrorView> {
        if self.request.fault() is Some {
            self.request.fault()
        } else if self != self.request.decided() {
            Some(RouteErrorView::InvalidIdentity)
        } else {
            None
        }
    }
}

/// The wire name of a task kind.
pub fn task_kind_ascii(kind: TaskKind) -> (r: &'static str)
    ensures
        r@ == kind.spec_ascii(),
{
    match kind {
        TaskKind::Explore => "explore",
        TaskKind::BugFix => "bug_fix",
        TaskKind::BehaviorChange => "behavior_change",
        TaskKind::ApiChange => "api_change",
        TaskKind::Refactor => "refactor",
        TaskKind::ConfigurationChange => "configuration_change",
        TaskKind::TestChange => "test_change",
        TaskKind::Review => "review",
        TaskKind::Audit => "audit",
        TaskKind::Unknown => "unknown",
    }
}

fn encode_generation(encoder: &mut CanonicalEncoder, generation: &GenerationObservation)
    ensures
        final(encoder)@ == generation_fields(old(encoder)@, generation@),
{
    match generation {
        GenerationObservation::Observed { generation_id } => {
            encoder.text("observed");
            encoder.text(generation_id.as_str());
        },
        GenerationObservation::Unavailable { reason } => {
            encoder.text("unavailable");
            encoder.text(reason.ascii());
        },
    }
}

fn encode_operations(encoder: &mut CanonicalEncoder, items: &Vec<VersionedOperation>)
    ensures
        final(encoder)@ == operation_fields(old(encoder)@, operation_views(items@)),
{
    let ghost all = operation_views(items@);
    assert(all.take(0) =~= Seq::empty());
    for i in 0..items.len()
        invariant
            all == operation_views(items@),
            encoder@ == operation_fields(old(encoder)@, all.take(i as int)),
    {
        encoder.text(items[i].operation.ascii());
        encoder.text(items[i].version.as_str());
        proof {
            assert(all.take(i + 1).drop_last() =~= all.take(i as int));
            assert(all.take(i + 1).last() == items@[i as int]@);
        }
    }
    assert(all.take(all.len() as int) =~= all);
}

fn encode_capabilities(encoder: &mut CanonicalEncoder, map: &CapabilityMap)
    ensures
        final(encoder)@ == capability_map_fields(old(encoder)@, *map),
{
    let items = map.entries();
    let ghost all = items@;
    encoder.u64(items.len() as u64);
    let ghost base = encoder@;
    assert(all.take(0) =~= Seq::empty());
    for i in 0..items.len()
        invariant
            all == items@,
            encoder@ == capability_fields(base, all.take(i as int)),
    {
        encoder.text(items[i].0.ascii());
        encoder.text(items[i].1.ascii());
        proof {
            assert(all.take(i + 1).drop_last() =~= all.take(i as int));
        }
    }
    assert(all.take(all.len() as int) =~= all);
}

fn encode_profile(encoder: &mut CanonicalEncoder, value: &Option<ProfileIdentity>)
    ensures
        final(encoder)@ == profile_fields(old(encoder)@, opt_profile(*value)),
{
    match value {
        Some(profile) => {
            encoder.mark(true);
            encoder.text(profile.profile_id.as_str());
            encoder.text(profile.profile_version.as_str());
            encoder.text(profile.manifest_digest.as_str());
        },
        None => {
            encoder.mark(false);
        },
    }
}

fn encode_budget(encoder: &mut CanonicalEncoder, value: &Option<DeepSemanticBudget>)
    ensures
        final(encoder)@ == budget_fields(old(encoder)@, opt_budget(*value)),
{
    match value {
        Some(budget) => {
            encoder.mark(true);
            encoder.u64(budget.max_records);
            encoder.u64(budget.max_source_bytes);
            encoder.u64(budget.max_estimated_tokens);
            encoder.u64(budget.max_depth as u64);
            encoder.u64(budget.max_work_units);
            encoder.u64(budget.uncertainty_reserve_percent as u64);
            encoder.text(budget.budget_digest.as_str());
        },
        None => {
            encoder.mark(false);
        },
    }
}

fn encode_optional(encoder: &mut CanonicalEncoder, value: &Option<String>)
    ensures
        final(encoder)@ == digest::optional_text_fields(old(encoder)@, text::opt_text(*value)),
{
    match value {
        Some(text) => encoder.optional_text(Some(text.as_str())),
        None => encoder.optional_text(None),
    }
}

fn encode_versions(decision: &ContextRouteDecision) -> (encoder: CanonicalEncoder)
    ensures
        encoder@ == decision@.version_fields(),
{
    let request = &decision.request;
    let mut encoder = CanonicalEncoder::new("workspace-atlas/context-route-decision-v1");
    encoder.text(request.schema_version.as_str());
    encoder.text(decision.schema_version.as_str());
    encoder.text(decision.policy_version.as_str());
    encoder.text(request.classifier_version.as_str());
    encode_operations(&mut encoder, &request.light_operations);
    encoder.text(request.deep_contracts.planner_version.as_str());
    encoder.text(request.deep_contracts.projection_version.as_str());
    encoder.text(request.deep_contracts.context_ir_version.as_str());
    encoder.text(request.deep_contracts.estimator_version.as_str());
    encoder
}

fn encode_request(encoder: &mut CanonicalEncoder, decision: &ContextRouteDecision)
    ensures
        final(encoder)@ == decision@.request_fields(old(encoder)@),
{
    let request = &decision.request;
    encoder.text(request.normalized_task_hash.as_str());
    match request.declared_kind {
        Some(kind) => encoder.optional_text(Some(task_kind_ascii(kind))),
        None => encoder.optional_text(None),
    }
    encoder.text(task_kind_ascii(request.classifier_kind));
    encoder.text(request.explicit_seeds.digest.as_str());
    encoder.u64(request.explicit_seeds.path_count as u64);
    encoder.u64(request.explicit_seeds.symbol_count as u64);
    encode_capabilities(encoder, &request.caller_capabilities);
    encoder.text(request.atlas_intent.ascii());
    encoder.text(request.route_floor.ascii());
    encoder.text(request.route_ceiling.ascii());
    encode_profile(encoder, &request.capability_profile);
    encode_profile(encoder, &request.cost_profile);
    encode_optional(encoder, &request.profile_registry_digest);
    encode_generation(encoder, &request.starting_generation);
    encode_budget(encoder, &request.deep_budget);
}

fn encode_outcome(encoder: &mut CanonicalEncoder, decision: &ContextRouteDecision)
    ensures
        final(encoder)@ == decision@.outcome_fields(old(encoder)@),
{
    encoder.text(decision.effective_floor.ascii());
    encoder.text(decision.effective_ceiling.ascii());
    encoder.text(decision.initial_route.ascii());
    encode_optional(encoder, &decision.deep_budget_digest);
    encode_capabilities(encoder, &decision.requested_capabilities);
    let ghost base = encoder@;
    assert(decision.signals@.take(0) =~= Seq::empty());
    for i in 0..decision.signals.len()
        invariant
            encoder@ == signal_fields(base, decision.signals@.take(i as int)),
    {
        encoder.text(decision.signals[i].ascii());
        proof {
            assert(decision.signals@.take(i + 1).drop_last() =~= decision.signals@.take(i as int));
        }
    }
    assert(decision.signals@.take(decision.signals@.len() as int) =~= decision.signals@);
    let ghost base = encoder@;
    assert(decision.reasons@.take(0) =~= Seq::empty());
    for i in 0..decision.reasons.len()
        invariant
            encoder@ == reason_fields(base, decision.reasons@.take(i as int)),
    {
        encoder.text(decision.reasons[i].ascii());
        proof {
            assert(decision.reasons@.take(i + 1).drop_last() =~= decision.reasons@.take(i as int));
        }
    }
    assert(decision.reasons@.take(decision.reasons@.len() as int) =~= decision.reasons@);
    encode_generation(encoder, &decision.starting_generation);
}

/// The hash over request and decision.
pub fn canonical_decision_hash(decision: &ContextRouteDecision) -> (r: String)
    ensures
        r@ == decision@.digest(),
        text::hex64(r@),
{
    let mut encoder = encode_versions(decision);
    encode_request(&mut encoder, decision);
    encode_outcome(&mut encoder, decision);
    encoder.finish()
}

impl CapabilityMap {
    /// Whether some requested capability has the state.
    fn any_with_state(&self, state: CallerCapabilityState) -> (r: bool)
        ensures
            r == self.has_state(state),
    {
        for i in 0usize..8
            invariant
                forall|c: RequiredCapability|
                    c.spec_rank() < i ==> #[trigger] self.state(c) != Some(state),
        {
            let capability = capability_at(i);
            match self.get(capability) {
                Some(found) => {
                    if found == state {
                        assert(self.state(capability) == Some(state));
                        return true;
                    }
                },
                None => {},
            }
            assert forall|c: RequiredCapability|
                c.spec_rank() < i + 1 implies #[trigger] self.state(c) != Some(state) by {
                if c.spec_rank() == i {
                    assert(c == capability);
                }
            }
        }
        false
    }

    /// Whether the caller already has everything requested.
    pub fn is_all_satisfied(&self) -> (r: bool)
        ensures
            r == self.all_satisfied(),
    {
        let r = !self.any_with_state(CallerCapabilityState::Unsatisfied) && !self.any_with_state(
            CallerCapabilityState::Unknown,
        );
        proof {
            if r {
                assert forall|c: RequiredCapability| self.state(c) is Some implies #[trigger] self.state(c)
                    == Some(CallerCapabilityState::Satisfied) by {
                    assert(self.state(c) != Some(CallerCapabilityState::Unsatisfied));
                    assert(self.state(c) != Some(CallerCapabilityState::Unknown));
                }
            }
        }
        r
    }

    fn any_lacking_at(&self, route: Route) -> (r: bool)
        ensures
            r == self.lacks_at(route),
    {
        for i in 0usize..8
            invariant
                forall|c: RequiredCapability|
                    c.spec_rank() < i && #[trigger] self.state(c) is Some && self.state(c) != Some(
                        CallerCapabilityState::Satisfied,
                    ) ==> c.spec_minimum_route() != route,
        {
            let capability = capability_at(i);
            match self.get(capability) {
                Some(found) => {
                    if found != CallerCapabilityState::Satisfied && capability.minimum_route()
                        == route {
                        assert(self.state(capability) is Some);
                        return true;
                    }
                },
                None => {},
            }
            assert forall|c: RequiredCapability|
                c.spec_rank() < i + 1 && #[trigger] self.state(c) is Some && self.state(c) != Some(
                    CallerCapabilityState::Satisfied,
                ) implies c.spec_minimum_route() != route by {
                if c.spec_rank() == i {
                    assert(c == capability);
                }
            }
        }
        false
    }
}

/// Checks everything that the decision relies on.
pub fn validate_request(request: &ContextRouteRequest) -> (r: Result<(), ContextRouteError>)
    ensures
        fault_of(r) == request@.fault(),
{
    if !text::text_eq(request.schema_version.as_str(), CONTEXT_ROUTE_POLICY_VERSION) {
        return Err(
            ContextRouteError::UnsupportedVersion {
                contract: "route".to_string(),
                supplied: request.schema_version.clone(),
            },
        );
    }
    if !text::text_eq(request.classifier_version.as_str(), TASK_CLASSIFIER_VERSION) {
        return Err(
            ContextRouteError::UnsupportedVersion {
                contract: "classifier".to_string(),
                supplied: request.classifier_version.clone(),
            },
        );
    }
    if !valid_digest(request.normalized_task_hash.as_str()) || !valid_digest(
        request.explicit_seeds.digest.as_str(),
    ) {
        return Err(ContextRouteError::InvalidIdentity);
    }
    if let GenerationObservation::Observed { generation_id } = &request.starting_generation {
        if !valid_opaque_id(generation_id.as_str()) {
            return Err(ContextRouteError::InvalidIdentity);
        }
    }
    if request.route_floor.rank() > request.route_ceiling.rank() {
        return Err(ContextRouteError::FloorAboveCeiling);
    }
    if request.atlas_intent == AtlasIntent::Never && request.route_floor != Route::Direct {
        return Err(ContextRouteError::IntentFloorConflict);
    }
    if request.atlas_intent == AtlasIntent::Require && request.route_ceiling == Route::Direct {
        return Err(ContextRouteError::IntentCeilingConflict);
    }
    if request.route_ceiling == Route::AtlasDeep && request.deep_budget.is_none() {
        return Err(ContextRouteError::DeepBudgetRequired);
    }
    if let Some(budget) = &request.deep_budget {
        match budget.validate() {
            Ok(()) => {},
            Err(e) => return Err(e),
        }
    }
    if request.capability_profile.is_some() || request.cost_profile.is_some()
        || request.profile_registry_digest.is_some() {
        return Err(ContextRouteError::UnknownProfile);
    }
    match request.deep_contracts.validate() {
        Ok(()) => {},
        Err(e) => return Err(e),
    }
    let ghost given = operation_views(request.light_operations@);
    let pinned = request.light_operations.len() == 2 && request.light_operations[0].operation
        == LightOperation::Query && text::text_eq(
        request.light_operations[0].version.as_str(),
        QUERY_OPERATION_VERSION,
    ) && request.light_operations[1].operation == LightOperation::SourceReference && text::text_eq(
        request.light_operations[1].version.as_str(),
        SOURCE_REFERENCE_OPERATION_VERSION,
    );
    if !pinned {
        proof {
            if given == pinned_operations() {
                assert(given.len() == 2);
                assert(given[0] == pinned_operations()[0]);
                assert(given[1] == pinned_operations()[1]);
            }
        }
        return Err(ContextRouteError::InvalidLightOperations);
    }
    assert(given =~= pinned_operations());
    Ok(())
}

fn request_signals(request: &ContextRouteRequest, floor: Route, ceiling: Route) -> (r: Vec<
    RouteSignal,
>)
    requires
        floor == request@.effective_floor(),
        ceiling == request@.effective_ceiling(),
    ensures
        r@ == request@.signals(),
{
    let caps = &request.caller_capabilities;
    let mut out: Vec<RouteSignal> = Vec::new();
    push_if(
        &mut out,
        caps.any_with_state(CallerCapabilityState::Satisfied),
        RouteSignal::CallerCapabilitiesSatisfied,
    );
    push_if(
        &mut out,
        caps.any_with_state(CallerCapabilityState::Unsatisfied),
        RouteSignal::CallerCapabilitiesUnsatisfied,
    );
    push_if(
        &mut out,
        caps.any_with_state(CallerCapabilityState::Unknown),
        RouteSignal::CallerCapabilitiesUnknown,
    );
    out.push(
        match request.atlas_intent {
            AtlasIntent::Never => RouteSignal::AtlasIntentNone,
            AtlasIntent::Allow => RouteSignal::AtlasIntentAllow,
            AtlasIntent::Require => RouteSignal::AtlasIntentRequire,
        },
    );
    out.push(
        match floor {
            Route::Direct => RouteSignal::RouteFloorDirect,
            Route::AtlasLight => RouteSignal::RouteFloorLight,
            Route::AtlasDeep => RouteSignal::RouteFloorDeep,
        },
    );
    out.push(
        match ceiling {
            Route::Direct => RouteSignal::RouteCeilingDirect,
            Route::AtlasLight => RouteSignal::RouteCeilingLight,
            Route::AtlasDeep => RouteSignal::RouteCeilingDeep,
        },
    );
    push_if(
        &mut out,
        request.explicit_seeds.path_count > 0 || request.explicit_seeds.symbol_count > 0,
        RouteSignal::ExplicitSeedsPresent,
    );
    push_if(
        &mut out,
        caps.identity_lookup.is_some() || caps.exact_source.is_some(),
        RouteSignal::IdentityOrSourceRequested,
    );
    push_if(
        &mut out,
        caps.bounded_relationships.is_some() || caps.impact_frontier.is_some(),
        RouteSignal::RelationshipsOrImpactRequested,
    );
    push_if(
        &mut out,
        caps.basic_coverage_conflicts.is_some(),
        RouteSignal::BasicCoverageConflictsRequested,
    );
    push_if(
        &mut out,
        caps.temporal_history.is_some() || caps.required_role_closure.is_some()
            || caps.validation_plan.is_some(),
        RouteSignal::DeepSynthesisRequested,
    );
    out.push(
        match &request.starting_generation {
            GenerationObservation::Observed { .. } => RouteSignal::StartingGenerationObserved,
            GenerationObservation::Unavailable { .. } => RouteSignal::StartingGenerationUnavailable,
        },
    );
    out
}

fn request_reasons(request: &ContextRouteRequest, floor: Route) -> (r: Vec<RouteReason>)
    requires
        floor == request@.effective_floor(),
    ensures
        r@ == request@.reasons(),
{
    let caps = &request.caller_capabilities;
    let mut out: Vec<RouteReason> = Vec::new();
    out.push(
        if caps.is_all_satisfied() {
            RouteReason::CallerContextSufficient
        } else {
            RouteReason::CallerContextIncomplete
        },
    );
    assert(out@ =~= seq![
        if caps.all_satisfied() {
            RouteReason::CallerContextSufficient
        } else {
            RouteReason::CallerContextIncomplete
        },
    ]);
    push_if(
        &mut out,
        request.atlas_intent == AtlasIntent::Never,
        RouteReason::AtlasNotRequested,
    );
    push_if(
        &mut out,
        request.atlas_intent == AtlasIntent::Require,
        RouteReason::ExplicitAtlasRequest,
    );
    push_if(
        &mut out,
        caps.any_lacking_at(Route::AtlasLight),
        RouteReason::LightCapabilityRequired,
    );
    push_if(
        &mut out,
        caps.any_lacking_at(Route::AtlasDeep),
        RouteReason::DeepCapabilityRequired,
    );
    push_if(&mut out, floor != Route::Direct, RouteReason::RouteFloorApplied);
    let unavailable = match &request.starting_generation {
        GenerationObservation::Observed { .. } => false,
        GenerationObservation::Unavailable { .. } => true,
    };
    push_if(&mut out, unavailable, RouteReason::StartingGenerationUnavailable);
    out
}

fn request_floor(request: &ContextRouteRequest) -> (r: Route)
    ensures
        r == request@.effective_floor(),
{
    match request.atlas_intent {
        AtlasIntent::Never => Route::Direct,
        AtlasIntent::Allow => request.route_floor,
        AtlasIntent::Require => if request.route_floor == Route::Direct {
            Route::AtlasLight
        } else {
            request.route_floor
        },
    }
}

fn request_ceiling(request: &ContextRouteRequest) -> (r: Route)
    ensures
        r == request@.effective_ceiling(),
{
    match request.atlas_intent {
        AtlasIntent::Never => Route::Direct,
        _ => request.route_ceiling,
    }
}

/// Decides the route of a request, or refuses the request.
pub fn decide_context_route(request: ContextRouteRequest) -> (r: Result<
    ContextRouteDecision,
    ContextRouteError,
>)
    ensures
        fault_of(r) == request@.fault(),
        r is Ok ==> r->Ok_0@ == request@.decided(),
        r is Ok ==> r->Ok_0.request == request,
{
    match validate_request(&request) {
        Ok(()) => {},
        Err(e) => return Err(e),
    }
    let floor = request_floor(&request);
    let ceiling = request_ceiling(&request);
    let signals = request_signals(&request, floor, ceiling);
    let reasons = request_reasons(&request, floor);
    let mut decision = ContextRouteDecision {
        schema_version: CONTEXT_ROUTE_POLICY_VERSION.to_string(),
        requested_capabilities: request.caller_capabilities,
        deep_budget_digest: match &request.deep_budget {
            Some(budget) => Some(budget.budget_digest.clone()),
            None => None,
        },
        starting_generation: request.starting_generation.clone(),
        request,
        effective_floor: floor,
        effective_ceiling: ceiling,
        initial_route: floor,
        signals,
        reasons,
        policy_version: CONTEXT_ROUTE_POLICY_VERSION.to_string(),
        decision_hash: String::new(),
    };
    let hash = canonical_decision_hash(&decision);
    decision.decision_hash = hash;
    Ok(decision)
}

pub(crate) fn same_signals(a: &Vec<RouteSignal>, b: &Vec<RouteSignal>) -> (r: bool)
    ensures
        r == (a@ == b@),
{
    if a.len() != b.len() {
        return false;
    }
    for i in 0..a.len()
        invariant
            a@.len() == b@.len(),
            forall|j: int| 0 <= j < i ==> a@[j] == b@[j],
    {
        if a[i] != b[i] {
            return false;
        }
    }
    assert(a@ =~= b@);
    true
}

pub(crate) fn same_reasons(a: &Vec<RouteReason>, b: &Vec<RouteReason>) -> (r: bool)
    ensures
        r == (a@ == b@),
{
    if a.len() != b.len() {
        return false;
    }
    for i in 0..a.len()
        invariant
            a@.len() == b@.len(),
            forall|j: int| 0 <= j < i ==> a@[j] == b@[j],
    {
        if a[i] != b[i] {
            return false;
        }
    }
    assert(a@ =~= b@);
    true
}

impl ContextRouteDecision {
    /// Accepts the decision only if it is the one that its request leads to.
    pub fn validate(&self) -> (r: Result<(), ContextRouteError>)
        ensures
            fault_of(r) == self@.fault(),
    {
        reveal(DecisionView::fault);
        match validate_request(&self.request) {
            Ok(()) => {},
            Err(e) => return Err(e),
        }
        let request = &self.request;
        let floor = request_floor(request);
        let ceiling = request_ceiling(request);
        let budget_digest_matches = match (&self.deep_budget_digest, &request.deep_budget) {
            (Some(digest), Some(budget)) => text::text_eq(
                digest.as_str(),
                budget.budget_digest.as_str(),
            ),
            (None, None) => true,
            _ => false,
        };
        if !text::text_eq(self.schema_version.as_str(), CONTEXT_ROUTE_POLICY_VERSION)
            || !text::text_eq(self.policy_version.as_str(), CONTEXT_ROUTE_POLICY_VERSION)
            || self.requested_capabilities != request.caller_capabilities
            || !self.starting_generation.same(&request.starting_generation)
            || !budget_digest_matches || self.effective_floor != floor || self.effective_ceiling
            != ceiling || self.initial_route != floor {
            return Err(ContextRouteError::InvalidIdentity);
        }
        let signals = request_signals(request, floor, ceiling);
        let reasons = request_reasons(request, floor);
        if !same_signals(&self.signals, &signals) || !same_reasons(&self.reasons, &reasons) {
            return Err(ContextRouteError::InvalidIdentity);
        }
        let hash = canonical_decision_hash(self);
        if !text::text_eq(self.decision_hash.as_str(), hash.as_str()) {
            return Err(ContextRouteError::InvalidIdentity);
        }
        Ok(())
    }
}

/// A decision always passes its own check.
pub proof fn law_decisions_validate(request: RequestView)
    requires
        request.fault() is None,
    ensures
        request.decided().fault() is None,
{
    reveal(DecisionView::fault);
}

/// The initial route lies between the effective floor and ceiling, which lie
/// within what the request asked.
pub proof fn law_initial_route_within_bounds(request: RequestView)
    requires
        request.fault() is None,
    ensures
        request.decided().effective_floor.spec_rank()
            <= request.decided().initial_route.spec_rank(),
        request.decided().initial_route.spec_rank()
            <= request.decided().effective_ceiling.spec_rank(),
        request.decided().effective_ceiling.spec_rank() <= request.route_ceiling.spec_rank(),
        request.decided().effective_floor.spec_rank() >= request.route_floor.spec_rank(),
{
}

/// Without Atlas intent the decision never leaves DIRECT; a required Atlas never
/// starts there.
pub proof fn law_intent_decides_atlas(request: RequestView)
    requires
        request.fault() is None,
    ensures
        request.atlas_intent == AtlasIntent::Never ==> request.decided().effective_ceiling
            == Route::Direct,
        request.atlas_intent == AtlasIntent::Require ==> request.decided().initial_route
            != Route::Direct,
{
}

/// A decision that may go DEEP always carries a valid budget and its digest.
pub proof fn law_deep_needs_a_budget(request: RequestView)
    requires
        request.fault() is None,
        request.decided().effective_ceiling == Route::AtlasDeep,
    ensures
        request.deep_budget is Some,
        request.deep_budget->0.values_valid(),
        request.decided().deep_budget_digest == Some(request.deep_budget->0.digest()),
{
}

impl RouteSignal {
    /// The position of the signal in the order of signals.
    pub open spec fn spec_rank(self) -> u8 {
        match self {
            RouteSignal::CallerCapabilitiesSatisfied => 0,
            RouteSignal::CallerCapabilitiesUnsatisfied => 1,
            RouteSignal::CallerCapabilitiesUnknown => 2,
            RouteSignal::AtlasIntentNone => 3,
            RouteSignal::AtlasIntentAllow => 4,
            RouteSignal::AtlasIntentRequire => 5,
            RouteSignal::RouteFloorDirect => 6,
            RouteSignal::RouteFloorLight => 7,
            RouteSignal::RouteFloorDeep => 8,
            RouteSignal::RouteCeilingDirect => 9,
            RouteSignal::RouteCeilingLight => 10,
            RouteSignal::RouteCeilingDeep => 11,
            RouteSignal::ExplicitSeedsPresent => 12,
            RouteSignal::IdentityOrSourceRequested => 13,
            RouteSignal::RelationshipsOrImpactRequested => 14,
            RouteSignal::BasicCoverageConflictsRequested => 15,
            RouteSignal::DeepSynthesisRequested => 16,
            RouteSignal::StartingGenerationObserved => 17,
            RouteSignal::StartingGenerationUnavailable => 18,
            RouteSignal::CapabilityProfileApplied => 19,
            RouteSignal::CostProfileApplied => 20,
        }
    }
}

/// Signals are listed in their order, each at most once, below a position.
pub open spec fn signals_below(s: Seq<RouteSignal>, bound: u8) -> bool {
    &&& forall|i: int| 0 <= i < s.len() ==> (#[trigger] s[i]).spec_rank() < bound
    &&& forall|i: int, j: int|
        0 <= i < j < s.len() ==> (#[trigger] s[i]).spec_rank() < (#[trigger] s[j]).spec_rank()
}

proof fn lemma_signal_pushed(s: Seq<RouteSignal>, bound: u8, keep: bool, x: RouteSignal, next: u8)
    requires
        signals_below(s, bound),
        bound <= x.spec_rank() < next,
    ensures
        signals_below(with_if(s, keep, x), next),
        signals_below(s.push(x), next),
{
}

/// The signals of a decision come in their order, none twice, and none claims a
/// profile: no profile is registered.
pub proof fn law_signals_are_ordered(request: RequestView)
    ensures
        signals_below(request.signals(), 19),
{
    let caps = request.caller_capabilities;
    let s0 = Seq::<RouteSignal>::empty();
    lemma_signal_pushed(
        s0,
        0,
        caps.has_state(CallerCapabilityState::Satisfied),
        RouteSignal::CallerCapabilitiesSatisfied,
        1,
    );
    let s1 = with_if(
        s0,
        caps.has_state(CallerCapabilityState::Satisfied),
        RouteSignal::CallerCapabilitiesSatisfied,
    );
    lemma_signal_pushed(
        s1,
        1,
        caps.has_state(CallerCapabilityState::Unsatisfied),
        RouteSignal::CallerCapabilitiesUnsatisfied,
        2,
    );
    let s2 = with_if(
        s1,
        caps.has_state(CallerCapabilityState::Unsatisfied),
        RouteSignal::CallerCapabilitiesUnsatisfied,
    );
    lemma_signal_pushed(
        s2,
        2,
        caps.has_state(CallerCapabilityState::Unknown),
        RouteSignal::CallerCapabilitiesUnknown,
        3,
    );
    let s3 = with_if(
        s2,
        caps.has_state(CallerCapabilityState::Unknown),
        RouteSignal::CallerCapabilitiesUnknown,
    );
    let intent = match request.atlas_intent {
        AtlasIntent::Never => RouteSignal::AtlasIntentNone,
        AtlasIntent::Allow => RouteSignal::AtlasIntentAllow,
        AtlasIntent::Require => RouteSignal::AtlasIntentRequire,
    };
    lemma_signal_pushed(s3, 3, true, intent, 6);
    let floor = match request.effective_floor() {
        Route::Direct => RouteSignal::RouteFloorDirect,
        Route::AtlasLight => RouteSignal::RouteFloorLight,
        Route::AtlasDeep => RouteSignal::RouteFloorDeep,
    };
    let s4 = s3.push(intent);
    lemma_signal_pushed(s4, 6, true, floor, 9);
    let ceiling = match request.effective_ceiling() {
        Route::Direct => RouteSignal::RouteCeilingDirect,
        Route::AtlasLight => RouteSignal::RouteCeilingLight,
        Route::AtlasDeep => RouteSignal::RouteCeilingDeep,
    };
    let s5 = s4.push(floor);
    lemma_signal_pushed(s5, 9, true, ceiling, 12);
    let s6 = s5.push(ceiling);
    let seeds = request.explicit_seeds.path_count > 0 || request.explicit_seeds.symbol_count > 0;
    lemma_signal_pushed(s6, 12, seeds, RouteSignal::ExplicitSeedsPresent, 13);
    let s7 = with_if(s6, seeds, RouteSignal::ExplicitSeedsPresent);
    let identity = request.requests(RequiredCapability::IdentityLookup) || request.requests(
        RequiredCapability::ExactSource,
    );
    lemma_signal_pushed(s7, 13, identity, RouteSignal::IdentityOrSourceRequested, 14);
    let s8 = with_if(s7, identity, RouteSignal::IdentityOrSourceRequested);
    let relations = request.requests(RequiredCapability::BoundedRelationships) || request.requests(
        RequiredCapability::ImpactFrontier,
    );
    lemma_signal_pushed(s8, 14, relations, RouteSignal::RelationshipsOrImpactRequested, 15);
    let s9 = with_if(s8, relations, RouteSignal::RelationshipsOrImpactRequested);
    let coverage = request.requests(RequiredCapability::BasicCoverageConflicts);
    lemma_signal_pushed(s9, 15, coverage, RouteSignal::BasicCoverageConflictsRequested, 16);
    let s10 = with_if(s9, coverage, RouteSignal::BasicCoverageConflictsRequested);
    let deep = request.requests(RequiredCapability::TemporalHistory) || request.requests(
        RequiredCapability::RequiredRoleClosure,
    ) || request.requests(RequiredCapability::ValidationPlan);
    lemma_signal_pushed(s10, 16, deep, RouteSignal::DeepSynthesisRequested, 17);
    let s11 = with_if(s10, deep, RouteSignal::DeepSynthesisRequested);
    let generation = match request.starting_generation {
        GenerationView::Observed { .. } => RouteSignal::StartingGenerationObserved,
        GenerationView::Unavailable { .. } => RouteSignal::StartingGenerationUnavailable,
    };
    lemma_signal_pushed(s11, 17, true, generation, 19);
}

} // verus!
