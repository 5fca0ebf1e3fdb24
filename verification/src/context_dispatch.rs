//! Progressive execution of a frozen decision: DIRECT, then LIGHT, then DEEP.
//!
//! The decisions between two outside calls are the step functions `begin_route`,
//! `observe_step`, `next_action` and `outcome_step`; `execute_context_route` runs them
//! against a dispatcher. Its contract speaks of the calls that it makes, each with the
//! dispatcher before and after it.
use vstd::prelude::*;

use crate::catalogue::whole_nanos;
use crate::context_execution;
use crate::context_execution::{
    any_route_deficit, any_terminal_deficit, can_deficit_escalate, checked_counter_sum,
    is_materialization_allowed, AttemptState, AttemptView, CapabilityDeficitReason,
    ContextDiagnosticCode, ContextExecution, ContextPayload, ExecutionAttempt, ExecutionView,
    ExplicitMaterialization, InterruptionReason, MaterializationView, PayloadView, RouteDeficit,
    RouteFailureReason, TerminalReason,
};
use crate::context_metrics;
use crate::context_metrics::ContextExecutionCounters;
use crate::context_route;
use crate::context_route::{
    CallerCapabilityState, CapabilityMap, ContextRouteDecision, ContextRouteError, DecisionView,
    DeepContractVersions, DeepSemanticBudget, GenerationObservation, GenerationUnavailableReason,
    GenerationView, RequiredCapability, Route, RouteErrorView, VersionedOperation,
    MAX_EXECUTION_DIAGNOSTICS,
};
use crate::text;

verus! {

/// One bounded Atlas route result returned to the progressive application
/// dispatcher. Route selection and terminal-state policy remain owned by this
/// crate; adapters only execute the version-pinned operation contract.
#[derive(Debug, Clone, PartialEq, Eq)]
pub enum RouteAttemptOutcome {
    Completed {
        payload: ContextPayload,
        counters: ContextExecutionCounters,
        diagnostics: Vec<ContextDiagnosticCode>,
        materialization: Option<ExplicitMaterialization>,
    },
    Deficient {
        payload: Option<ContextPayload>,
        satisfied_capabilities: Vec<RequiredCapability>,
        deficits: Vec<RouteDeficit>,
        counters: ContextExecutionCounters,
        diagnostics: Vec<ContextDiagnosticCode>,
        materialization: Option<ExplicitMaterialization>,
    },
    Interrupted {
        diagnostics: Vec<ContextDiagnosticCode>,
        interruption_reason: InterruptionReason,
    },
}

pub enum OutcomeView {
    Completed {
        payload: PayloadView,
        counters: ContextExecutionCounters,
        diagnostics: Seq<ContextDiagnosticCode>,
        materialization: Option<MaterializationView>,
    },
    Deficient {
        payload: Option<PayloadView>,
        satisfied: Seq<RequiredCapability>,
        deficits: Seq<RouteDeficit>,
        counters: ContextExecutionCounters,
        diagnostics: Seq<ContextDiagnosticCode>,
        materialization: Option<MaterializationView>,
    },
    Interrupted { diagnostics: Seq<ContextDiagnosticCode>, reason: InterruptionReason },
}

impl View for RouteAttemptOutcome {
    type V = OutcomeView;

    open spec fn view(&self) -> OutcomeView {
        match self {
            RouteAttemptOutcome::Completed { payload, counters, diagnostics, materialization } => {
                OutcomeView::Completed {
                    payload: payload@,
                    counters: *counters,
                    diagnostics: diagnostics@,
                    materialization: context_execution::opt_materialization(*materialization),
                }
            },
            RouteAttemptOutcome::Deficient {
                payload,
                satisfied_capabilities,
                deficits,
                counters,
                diagnostics,
                materialization,
            } => OutcomeView::Deficient {
                payload: context_execution::opt_payload(*payload),
                satisfied: satisfied_capabilities@,
                deficits: deficits@,
                counters: *counters,
                diagnostics: diagnostics@,
                materialization: context_execution::opt_materialization(*materialization),
            },
            RouteAttemptOutcome::Interrupted { diagnostics, interruption_reason } => {
                OutcomeView::Interrupted {
                    diagnostics: diagnostics@,
                    reason: *interruption_reason,
                }
            },
        }
    }
}

/// Transport-neutral execution seam for application-owned LIGHT and DEEP
/// operations. Implementations receive only the frozen decision and pinned
/// contracts; routing policy never enters CLI, MCP, provider, or skill code.
pub trait ContextRouteDispatcher {
    type Error: From<ContextRouteError>;

    fn observe_generation(&mut self) -> GenerationObservation;

    fn dispatch_light(
        &mut self,
        decision: &ContextRouteDecision,
        operations: &Vec<VersionedOperation>,
    ) -> Result<RouteAttemptOutcome, Self::Error>;

    fn dispatch_deep(
        &mut self,
        decision: &ContextRouteDecision,
        contracts: &DeepContractVersions,
        budget: &DeepSemanticBudget,
    ) -> Result<RouteAttemptOutcome, Self::Error>;
}

/// The capabilities that the caller has, among the first `n` listed.
pub open spec fn held_upto(map: CapabilityMap, n: nat) -> Seq<RequiredCapability>
    decreases n,
{
    if n == 0 {
        Seq::empty()
    } else {
        let c = context_route::spec_capability_at(n - 1);
        context_route::with_if(
            held_upto(map, (n - 1) as nat),
            map.state(c) == Some(CallerCapabilityState::Satisfied),
            c,
        )
    }
}

/// The deficits of what the caller lacks, among the first `n` listed.
pub open spec fn missing_upto(map: CapabilityMap, n: nat) -> Seq<RouteDeficit>
    decreases n,
{
    if n == 0 {
        Seq::empty()
    } else {
        let c = context_route::spec_capability_at(n - 1);
        context_route::with_if(
            missing_upto(map, (n - 1) as nat),
            map.state(c) is Some && map.state(c) != Some(CallerCapabilityState::Satisfied),
            RouteDeficit::Capability {
                capability: c,
                reason: CapabilityDeficitReason::Unavailable,
            },
        )
    }
}

/// What the caller has of the requested capabilities.
pub open spec fn caller_held(map: CapabilityMap) -> Seq<RequiredCapability> {
    held_upto(map, 8)
}

/// What the caller lacks of the requested capabilities.
pub open spec fn caller_missing(map: CapabilityMap) -> Seq<RouteDeficit> {
    missing_upto(map, 8)
}

/// Splits the requested capabilities into those the caller has and deficits for
/// the others.
pub fn caller_satisfaction(decision: &ContextRouteDecision) -> (r: (
    Vec<RequiredCapability>,
    Vec<RouteDeficit>,
))
    ensures
        r.0@ == caller_held(decision.requested_capabilities),
        r.1@ == caller_missing(decision.requested_capabilities),
{
    let map = decision.requested_capabilities;
    let mut satisfied: Vec<RequiredCapability> = Vec::new();
    let mut deficits: Vec<RouteDeficit> = Vec::new();
    for i in 0usize..8
        invariant
            satisfied@ == held_upto(map, i as nat),
            deficits@ == missing_upto(map, i as nat),
    {
        let capability = context_route::capability_at(i);
        match map.get(capability) {
            Some(CallerCapabilityState::Satisfied) => satisfied.push(capability),
            Some(_) => deficits.push(
                RouteDeficit::Capability {
                    capability,
                    reason: CapabilityDeficitReason::Unavailable,
                },
            ),
            None => {},
        }
    }
    (satisfied, deficits)
}

/// `Duration::as_micros`: the whole microseconds of the duration, that is its
/// nanoseconds with the last three digits cut off.
pub assume_specification[ std::time::Duration::as_micros ](duration: &std::time::Duration) -> (r: u128)
    ensures
        r == whole_nanos(*duration) / 1_000,
;

/// A moment of the monotonic clock.
#[verifier::external_type_specification]
#[verifier::external_body]
pub struct ExInstant(std::time::Instant);

/// `Instant::now`: the present moment. Nothing is promised of it.
pub assume_specification[ std::time::Instant::now ]() -> (r: std::time::Instant);

/// `Instant::elapsed`: the time since a moment. Nothing is promised of it.
pub assume_specification[ std::time::Instant::elapsed ](started: &std::time::Instant) -> (r:
    std::time::Duration);

/// The duration in microseconds, saturated at the largest wire value.
pub fn duration_micros(duration: std::time::Duration) -> (r: u64)
    ensures
        r == saturated((whole_nanos(duration) / 1_000) as u128),
{
    saturate_micros(duration.as_micros())
}

/// `micros`, or the largest wire value where it is larger.
pub open spec fn saturated(micros: u128) -> u64 {
    if micros > u64::MAX {
        u64::MAX
    } else {
        micros as u64
    }
}

/// `micros`, or the largest wire value where it is larger.
pub fn saturate_micros(micros: u128) -> (r: u64)
    ensures
        r == saturated(micros),
{
    if micros > u64::MAX as u128 {
        u64::MAX
    } else {
        micros as u64
    }
}

/// The time since a moment in microseconds: never zero for a timed attempt.
pub fn elapsed_micros(started: std::time::Instant) -> (r: u64)
    ensures
        r >= 1,
{
    let micros: u64 = duration_micros(started.elapsed());
    if micros == 0 {
        1
    } else {
        micros
    }
}

/// An attempt with its ordinal in its identifier.
pub open spec fn attempt_numbered(
    ordinal: nat,
    route: Route,
    state: AttemptState,
    deficits: Seq<RouteDeficit>,
    counters: ContextExecutionCounters,
    elapsed_micros: u64,
) -> AttemptView {
    AttemptView {
        attempt_id: "context-attempt-"@ + text::decimal(ordinal),
        route,
        state,
        deficits,
        counters,
        elapsed_micros,
    }
}

fn route_attempt(
    ordinal: usize,
    route: Route,
    state: AttemptState,
    deficits: Vec<RouteDeficit>,
    counters: ContextExecutionCounters,
    elapsed_micros: u64,
) -> (r: ExecutionAttempt)
    ensures
        r@ == attempt_numbered(
            ordinal as nat,
            route,
            state,
            deficits@,
            counters,
            elapsed_micros,
        ),
{
    let mut attempt_id = "context-attempt-".to_string();
    text::append_decimal(&mut attempt_id, ordinal as u64);
    ExecutionAttempt { attempt_id, route, state, deficits, counters, elapsed_micros }
}

/// Why the generation observed now does not serve the decision, if it does not.
pub open spec fn generation_fault(expected: GenerationView, observed: GenerationView) -> Option<
    (RouteFailureReason, TerminalReason),
> {
    match (expected, observed) {
        (
            GenerationView::Observed { generation_id: a },
            GenerationView::Observed { generation_id: b },
        ) => if a == b {
            None
        } else {
            Some((RouteFailureReason::GenerationChanged, TerminalReason::GenerationChanged))
        },
        (GenerationView::Observed { .. }, GenerationView::Unavailable { reason }) => if reason
            == GenerationUnavailableReason::NoActiveGeneration {
            Some((RouteFailureReason::NoActiveGeneration, TerminalReason::GenerationUnavailable))
        } else {
            Some(
                (
                    RouteFailureReason::StartingGenerationUnavailable,
                    TerminalReason::GenerationUnavailable,
                ),
            )
        },
        (GenerationView::Unavailable { .. }, _) => Some(
            (
                RouteFailureReason::StartingGenerationUnavailable,
                TerminalReason::GenerationUnavailable,
            ),
        ),
    }
}

/// Why the generation observed now does not serve the decision, if it does not.
pub fn generation_failure(expected: &GenerationObservation, observed: &GenerationObservation) -> (r:
    Option<(RouteFailureReason, TerminalReason)>)
    ensures
        r == generation_fault(expected@, observed@),
{
    match (expected, observed) {
        (
            GenerationObservation::Observed { generation_id: a },
            GenerationObservation::Observed { generation_id: b },
        ) => if text::text_eq(a.as_str(), b.as_str()) {
            None
        } else {
            Some((RouteFailureReason::GenerationChanged, TerminalReason::GenerationChanged))
        },
        (GenerationObservation::Observed { .. }, GenerationObservation::Unavailable { reason }) => {
            if *reason == GenerationUnavailableReason::NoActiveGeneration {
                Some((RouteFailureReason::NoActiveGeneration, TerminalReason::GenerationUnavailable))
            } else {
                Some(
                    (
                        RouteFailureReason::StartingGenerationUnavailable,
                        TerminalReason::GenerationUnavailable,
                    ),
                )
            }
        },
        (GenerationObservation::Unavailable { .. }, _) => Some(
            (
                RouteFailureReason::StartingGenerationUnavailable,
                TerminalReason::GenerationUnavailable,
            ),
        ),
    }
}

/// Every LIGHT deficit can be made good on the DEEP route.
pub open spec fn deficits_can_escalate(deficits: Seq<RouteDeficit>) -> bool {
    &&& deficits.len() > 0
    &&& forall|i: int|
        0 <= i < deficits.len() ==> context_execution::deficit_can_escalate(
            #[trigger] deficits[i],
        )
}

/// Whether every LIGHT deficit can be made good on the DEEP route.
pub fn light_deficits_can_escalate(deficits: &Vec<RouteDeficit>) -> (r: bool)
    ensures
        r == deficits_can_escalate(deficits@),
{
    if deficits.len() == 0 {
        return false;
    }
    for i in 0..deficits.len()
        invariant
            forall|j: int|
                0 <= j < i ==> context_execution::deficit_can_escalate(#[trigger] deficits@[j]),
    {
        if !can_deficit_escalate(deficits[i]) {
            assert(!context_execution::deficit_can_escalate(deficits@[i as int]));
            return false;
        }
    }
    true
}

/// Why a deficient attempt ends the execution.
pub open spec fn terminal_reason_of(
    route: Route,
    ceiling: Route,
    deficits: Seq<RouteDeficit>,
) -> TerminalReason {
    if route != ceiling && context_execution::has_terminal_deficit(deficits) {
        TerminalReason::CapabilityUnavailable
    } else {
        TerminalReason::RouteCeilingReached
    }
}

/// Why a deficient attempt ends the execution.
pub fn terminal_reason_for(route: Route, ceiling: Route, deficits: &Vec<RouteDeficit>) -> (r:
    TerminalReason)
    ensures
        r == terminal_reason_of(route, ceiling, deficits@),
{
    if route == ceiling {
        TerminalReason::RouteCeilingReached
    } else if any_terminal_deficit(deficits) {
        TerminalReason::CapabilityUnavailable
    } else {
        TerminalReason::RouteCeilingReached
    }
}

/// The parts of a deficient outcome fit together and fit the request.
#[verifier::opaque]
pub open spec fn deficient_acceptable(
    map: CapabilityMap,
    route: Route,
    payload: Option<PayloadView>,
    satisfied: Seq<RequiredCapability>,
    deficits: Seq<RouteDeficit>,
    materialization: Option<MaterializationView>,
) -> bool {
    &&& payload is Some ==> payload->0.valid() && payload->0.route() == route
    &&& deficits.len() > 0
    &&& context_execution::deficits_ordered(deficits)
    &&& !context_execution::has_route_deficit(deficits)
    &&& context_execution::materialization_allowed(materialization, payload)
    &&& context_execution::accounts_for(map, satisfied, deficits, Some(route), false, true)
}

/// The outcome is one that the route may give under the decision.
pub open spec fn outcome_acceptable(
    decision: DecisionView,
    route: Route,
    outcome: OutcomeView,
) -> bool {
    match outcome {
        OutcomeView::Completed { payload, counters, diagnostics, materialization } => {
            &&& diagnostics.len() <= MAX_EXECUTION_DIAGNOSTICS
            &&& counters.within_bounds()
            &&& payload.valid()
            &&& payload.route() == route
            &&& context_execution::materialization_allowed(materialization, Some(payload))
        },
        OutcomeView::Deficient {
            payload,
            satisfied,
            deficits,
            counters,
            diagnostics,
            materialization,
        } => {
            &&& diagnostics.len() <= MAX_EXECUTION_DIAGNOSTICS
            &&& counters.within_bounds()
            &&& deficient_acceptable(
                decision.requested_capabilities,
                route,
                payload,
                satisfied,
                deficits,
                materialization,
            )
        },
        OutcomeView::Interrupted { diagnostics, .. } => {
            diagnostics.len() <= MAX_EXECUTION_DIAGNOSTICS
        },
    }
}

fn is_deficient_acceptable(
    map: &CapabilityMap,
    route: Route,
    payload: &Option<ContextPayload>,
    satisfied: &Vec<RequiredCapability>,
    deficits: &Vec<RouteDeficit>,
    materialization: &Option<ExplicitMaterialization>,
) -> (r: bool)
    ensures
        r == deficient_acceptable(
            *map,
            route,
            context_execution::opt_payload(*payload),
            satisfied@,
            deficits@,
            context_execution::opt_materialization(*materialization),
        ),
{
    reveal(deficient_acceptable);
    let payload_fits = match payload {
        Some(payload) => payload.validate().is_ok() && payload.route() == route
            && is_materialization_allowed(materialization, Some(payload)),
        None => is_materialization_allowed(materialization, None),
    };
    payload_fits && deficits.len() > 0 && context_execution::are_deficits_ordered(deficits)
        && !any_route_deficit(deficits) && context_execution::accounts(
        map,
        satisfied,
        deficits,
        Some(route),
        false,
        true,
    )
}

/// Refuses an outcome that the route may not give under the decision.
pub fn dispatch_outcome_valid(
    decision: &ContextRouteDecision,
    route: Route,
    outcome: &RouteAttemptOutcome,
) -> (r: Result<(), ContextRouteError>)
    ensures
        r is Ok <==> outcome_acceptable(decision@, route, outcome@),
        r is Err ==> r->Err_0@ == RouteErrorView::InvalidExecution,
{
    let acceptable = match outcome {
        RouteAttemptOutcome::Completed { payload, counters, diagnostics, materialization } => {
            diagnostics.len() <= MAX_EXECUTION_DIAGNOSTICS && counters.validate().is_ok()
                && payload.validate().is_ok() && payload.route() == route
                && is_materialization_allowed(materialization, Some(payload))
        },
        RouteAttemptOutcome::Deficient {
            payload,
            satisfied_capabilities,
            deficits,
            counters,
            diagnostics,
            materialization,
        } => {
            diagnostics.len() <= MAX_EXECUTION_DIAGNOSTICS && counters.validate().is_ok()
                && is_deficient_acceptable(
                &decision.requested_capabilities,
                route,
                payload,
                satisfied_capabilities,
                deficits,
                materialization,
            )
        },
        RouteAttemptOutcome::Interrupted { diagnostics, .. } => {
            diagnostics.len() <= MAX_EXECUTION_DIAGNOSTICS
        },
    };
    if acceptable {
        Ok(())
    } else {
        Err(ContextRouteError::InvalidExecution)
    }
}

/// An execution under way: what has been attempted, and the route to try next.
#[derive(Debug, PartialEq, Eq)]
pub struct RouteRun {
    pub decision: ContextRouteDecision,
    pub attempts: Vec<ExecutionAttempt>,
    pub diagnostics: Vec<ContextDiagnosticCode>,
    pub route: Route,
    pub prior_payload: Option<ContextPayload>,
    pub prior_satisfied: Vec<RequiredCapability>,
    pub prior_materialization: Option<ExplicitMaterialization>,
}

pub struct RunView {
    pub decision: DecisionView,
    pub attempts: Seq<AttemptView>,
    pub diagnostics: Seq<ContextDiagnosticCode>,
    pub route: Route,
    pub prior_payload: Option<PayloadView>,
    pub prior_satisfied: Seq<RequiredCapability>,
    pub prior_materialization: Option<MaterializationView>,
}

impl View for RouteRun {
    type V = RunView;

    open spec fn view(&self) -> RunView {
        RunView {
            decision: self.decision@,
            attempts: context_execution::attempt_views(self.attempts@),
            diagnostics: self.diagnostics@,
            route: self.route,
            prior_payload: context_execution::opt_payload(self.prior_payload),
            prior_satisfied: self.prior_satisfied@,
            prior_materialization: context_execution::opt_materialization(
                self.prior_materialization,
            ),
        }
    }
}

impl RunView {
    /// The run is on an Atlas route that its decision allows, and few attempts
    /// lie behind it.
    pub open spec fn wf(self) -> bool {
        &&& self.decision.fault() is None
        &&& self.route != Route::Direct
        &&& self.route.spec_rank() <= self.decision.effective_ceiling.spec_rank()
        &&& self.attempts.len() <= self.route.spec_rank()
    }
}

/// What follows from one event of a run.
#[derive(Debug, PartialEq, Eq)]
pub enum RouteStep {
    Finished { execution: ContextExecution },
    Continue { run: RouteRun },
}

pub enum StepView {
    /// The run ends in an error.
    Refused { error: RouteErrorView },
    /// The run ends in this envelope, unless the envelope is at fault.
    Finish { execution: ExecutionView },
    /// The run goes on.
    Continue { run: RunView },
}

/// The result of a step function is the step.
pub open spec fn takes_step(r: Result<RouteStep, ContextRouteError>, step: StepView) -> bool {
    match step {
        StepView::Refused { error } => context_route::fault_of(r) == Some(error),
        StepView::Finish { execution } => {
            &&& context_route::fault_of(r) == execution.fault()
            &&& r is Ok ==> r->Ok_0 is Finished && r->Ok_0->execution@ == execution
        },
        StepView::Continue { run } => r is Ok && r->Ok_0 is Continue && r->Ok_0->run@ == run,
    }
}

/// The first step of a decision: what it settles without the Atlas.
#[verifier::opaque]
pub open spec fn begin_step(decision: DecisionView, elapsed: u64) -> StepView {
    let map = decision.requested_capabilities;
    let zero = context_metrics::zero_counters();
    let none = Seq::<ContextDiagnosticCode>::empty();
    if decision.fault() is Some {
        StepView::Refused { error: decision.fault()->0 }
    } else if decision.starting_generation is Unavailable && !(decision.initial_route
        == Route::Direct && caller_missing(map).len() == 0) {
        StepView::Finish {
            execution: context_execution::blocked_view(
                decision,
                Seq::empty(),
                None,
                None,
                caller_held(map),
                seq![
                    RouteDeficit::Route {
                        reason: RouteFailureReason::StartingGenerationUnavailable,
                    },
                ],
                zero,
                none,
                None,
                TerminalReason::GenerationUnavailable,
            ),
        }
    } else if decision.initial_route == Route::Direct && caller_missing(map).len() == 0 {
        StepView::Finish {
            execution: context_execution::completed_view(
                decision,
                seq![
                    attempt_numbered(
                        1,
                        Route::Direct,
                        AttemptState::Completed,
                        Seq::empty(),
                        zero,
                        elapsed,
                    ),
                ],
                PayloadView::DirectNone,
                zero,
                none,
                None,
            ),
        }
    } else if decision.initial_route == Route::Direct && decision.effective_ceiling
        == Route::Direct {
        StepView::Finish {
            execution: context_execution::blocked_view(
                decision,
                seq![
                    attempt_numbered(
                        1,
                        Route::Direct,
                        AttemptState::Blocked,
                        caller_missing(map),
                        zero,
                        elapsed,
                    ),
                ],
                Some(Route::Direct),
                None,
                caller_held(map),
                caller_missing(map),
                zero,
                none,
                None,
                TerminalReason::RouteCeilingReached,
            ),
        }
    } else {
        StepView::Continue {
            run: RunView {
                decision,
                attempts: if decision.initial_route == Route::Direct {
                    seq![
                        attempt_numbered(
                            1,
                            Route::Direct,
                            AttemptState::Partial,
                            caller_missing(map),
                            zero,
                            elapsed,
                        ),
                    ]
                } else {
                    Seq::empty()
                },
                diagnostics: none,
                route: if decision.initial_route == Route::Direct {
                    Route::AtlasLight
                } else {
                    decision.initial_route
                },
                prior_payload: None,
                prior_satisfied: caller_held(map),
                prior_materialization: None,
            },
        }
    }
}

/// Takes the first step of a decision.
pub fn begin_route(decision: ContextRouteDecision, elapsed: u64) -> (r: Result<
    RouteStep,
    ContextRouteError,
>)
    ensures
        takes_step(r, begin_step(decision@, elapsed)),
        r is Ok && r->Ok_0 is Continue ==> r->Ok_0->run@.wf(),
{
    reveal(begin_step);
    reveal(DecisionView::fault);
    match decision.validate() {
        Ok(()) => {},
        Err(e) => return Err(e),
    }
    let (caller_satisfied, caller_deficits) = caller_satisfaction(&decision);
    let sufficient = caller_deficits.len() == 0;
    let unavailable = match &decision.starting_generation {
        GenerationObservation::Observed { .. } => false,
        GenerationObservation::Unavailable { .. } => true,
    };
    let mut attempts: Vec<ExecutionAttempt> = Vec::new();
    let diagnostics: Vec<ContextDiagnosticCode> = Vec::new();
    if unavailable && !(decision.initial_route == Route::Direct && sufficient) {
        let mut deficits: Vec<RouteDeficit> = Vec::new();
        deficits.push(
            RouteDeficit::Route { reason: RouteFailureReason::StartingGenerationUnavailable },
        );
        proof {
            assert(deficits@ =~= seq![
                RouteDeficit::Route {
                    reason: RouteFailureReason::StartingGenerationUnavailable,
                },
            ]);
            assert(context_execution::attempt_views(attempts@) =~= Seq::empty());
        }
        return match ContextExecution::blocked(
            decision,
            attempts,
            None,
            None,
            caller_satisfied,
            deficits,
            ContextExecutionCounters::default(),
            diagnostics,
            None,
            TerminalReason::GenerationUnavailable,
        ) {
            Ok(execution) => Ok(RouteStep::Finished { execution }),
            Err(e) => Err(e),
        };
    }
    if decision.initial_route == Route::Direct {
        let zero = ContextExecutionCounters::default();
        if sufficient {
            let nothing: Vec<RouteDeficit> = Vec::new();
            attempts.push(
                route_attempt(1, Route::Direct, AttemptState::Completed, nothing, zero, elapsed),
            );
            proof {
                assert(context_execution::attempt_views(attempts@) =~= seq![
                    attempt_numbered(
                        1,
                        Route::Direct,
                        AttemptState::Completed,
                        Seq::empty(),
                        zero,
                        elapsed,
                    ),
                ]);
            }
            return match ContextExecution::completed(
                decision,
                attempts,
                ContextPayload::DirectNone {  },
                zero,
                diagnostics,
                None,
            ) {
                Ok(execution) => Ok(RouteStep::Finished { execution }),
                Err(e) => Err(e),
            };
        }
        if decision.effective_ceiling == Route::Direct {
            attempts.push(
                route_attempt(
                    1,
                    Route::Direct,
                    AttemptState::Blocked,
                    copy_deficits(&caller_deficits),
                    zero,
                    elapsed,
                ),
            );
            proof {
                assert(context_execution::attempt_views(attempts@) =~= seq![
                    attempt_numbered(
                        1,
                        Route::Direct,
                        AttemptState::Blocked,
                        caller_missing(decision.requested_capabilities),
                        zero,
                        elapsed,
                    ),
                ]);
            }
            return match ContextExecution::blocked(
                decision,
                attempts,
                Some(Route::Direct),
                None,
                caller_satisfied,
                caller_deficits,
                zero,
                diagnostics,
                None,
                TerminalReason::RouteCeilingReached,
            ) {
                Ok(execution) => Ok(RouteStep::Finished { execution }),
                Err(e) => Err(e),
            };
        }
        attempts.push(
            route_attempt(1, Route::Direct, AttemptState::Partial, caller_deficits, zero, elapsed),
        );
        proof {
            assert(context_execution::attempt_views(attempts@) =~= seq![
                attempt_numbered(
                    1,
                    Route::Direct,
                    AttemptState::Partial,
                    caller_missing(decision.requested_capabilities),
                    zero,
                    elapsed,
                ),
            ]);
        }
        return Ok(
            RouteStep::Continue {
                run: RouteRun {
                    decision,
                    attempts,
                    diagnostics,
                    route: Route::AtlasLight,
                    prior_payload: None,
                    prior_satisfied: caller_satisfied,
                    prior_materialization: None,
                },
            },
        );
    }
    assert(context_execution::attempt_views(attempts@) =~= Seq::empty());
    let route = decision.initial_route;
    Ok(
        RouteStep::Continue {
            run: RouteRun {
                decision,
                attempts,
                diagnostics,
                route,
                prior_payload: None,
                prior_satisfied: caller_satisfied,
                prior_materialization: None,
            },
        },
    )
}

fn copy_deficits(items: &Vec<RouteDeficit>) -> (r: Vec<RouteDeficit>)
    ensures
        r@ == items@,
{
    let mut out: Vec<RouteDeficit> = Vec::new();
    for i in 0..items.len()
        invariant
            out@ == items@.take(i as int),
    {
        out.push(items[i]);
        assert(out@ =~= items@.take(i + 1));
    }
    assert(out@ =~= items@);
    out
}

fn extend_diagnostics(out: &mut Vec<ContextDiagnosticCode>, more: &Vec<ContextDiagnosticCode>)
    ensures
        final(out)@ == old(out)@ + more@,
{
    for i in 0..more.len()
        invariant
            out@ == old(out)@ + more@.take(i as int),
    {
        out.push(more[i]);
        assert(out@ =~= old(out)@ + more@.take(i + 1));
    }
    assert(more@.take(more@.len() as int) =~= more@);
}

/// The counters of all attempts, added up.
pub open spec fn summed(attempts: Seq<AttemptView>) -> ContextExecutionCounters {
    let sum = context_execution::counter_sum(attempts);
    ContextExecutionCounters {
        atlas_calls: sum.atlas_calls as u64,
        records: sum.records as u64,
        source_bytes: sum.source_bytes as u64,
        estimated_tokens: sum.estimated_tokens as u64,
        work_units: sum.work_units as u64,
    }
}

/// The envelope, unless the counters of its attempts overflow.
pub open spec fn finish_counted(attempts: Seq<AttemptView>, execution: ExecutionView) -> StepView {
    if context_execution::counter_sum(attempts).fits() {
        StepView::Finish { execution }
    } else {
        StepView::Refused { error: RouteErrorView::InvalidExecution }
    }
}

/// What follows from the generation observed before an Atlas operation.
#[verifier::opaque]
pub open spec fn observe_outcome(run: RunView, observed: GenerationView, elapsed: u64) -> StepView {
    match generation_fault(run.decision.starting_generation, observed) {
        None => StepView::Continue { run },
        Some((failure, terminal_reason)) => {
            let deficits = seq![RouteDeficit::Route { reason: failure }];
            let attempts = run.attempts.push(
                attempt_numbered(
                    run.attempts.len() + 1,
                    run.route,
                    AttemptState::Blocked,
                    deficits,
                    context_metrics::zero_counters(),
                    elapsed,
                ),
            );
            finish_counted(
                attempts,
                context_execution::blocked_view(
                    run.decision,
                    attempts,
                    Some(run.route),
                    None,
                    caller_held(run.decision.requested_capabilities),
                    deficits,
                    summed(attempts),
                    run.diagnostics,
                    None,
                    terminal_reason,
                ),
            )
        },
    }
}

proof fn lemma_attempt_views_push(items: Seq<ExecutionAttempt>, item: ExecutionAttempt)
    ensures
        context_execution::attempt_views(items.push(item)) == context_execution::attempt_views(
            items,
        ).push(item@),
{
    assert(context_execution::attempt_views(items.push(item)) =~= context_execution::attempt_views(
        items,
    ).push(item@));
}

/// Decides whether a run may go on under the generation observed now.
pub fn observe_step(run: RouteRun, observed: &GenerationObservation, elapsed: u64) -> (r: Result<
    RouteStep,
    ContextRouteError,
>)
    requires
        run@.wf(),
    ensures
        takes_step(r, observe_outcome(run@, observed@, elapsed)),
{
    reveal(observe_outcome);
    match generation_failure(&run.decision.starting_generation, observed) {
        None => Ok(RouteStep::Continue { run }),
        Some((failure, terminal_reason)) => {
            let (caller_satisfied, _) = caller_satisfaction(&run.decision);
            let mut deficits: Vec<RouteDeficit> = Vec::new();
            deficits.push(RouteDeficit::Route { reason: failure });
            assert(deficits@ =~= seq![RouteDeficit::Route { reason: failure }]);
            let mut attempts = run.attempts;
            let ordinal: usize = attempts.len() + 1;
            let attempt = route_attempt(
                ordinal,
                run.route,
                AttemptState::Blocked,
                copy_deficits(&deficits),
                ContextExecutionCounters::default(),
                elapsed,
            );
            proof {
                lemma_attempt_views_push(attempts@, attempt);
            }
            attempts.push(attempt);
            let counters = match checked_counter_sum(&attempts) {
                Ok(counters) => counters,
                Err(e) => return Err(e),
            };
            assert(counters == summed(context_execution::attempt_views(attempts@)));
            match ContextExecution::blocked(
                run.decision,
                attempts,
                Some(run.route),
                None,
                caller_satisfied,
                deficits,
                counters,
                run.diagnostics,
                None,
                terminal_reason,
            ) {
                Ok(execution) => Ok(RouteStep::Finished { execution }),
                Err(e) => Err(e),
            }
        },
    }
}

/// The run goes on to the DEEP route after a deficient LIGHT attempt.
pub open spec fn escalates(run: RunView, deficits: Seq<RouteDeficit>) -> bool {
    &&& run.route == Route::AtlasLight
    &&& run.decision.effective_ceiling == Route::AtlasDeep
    &&& deficits_can_escalate(deficits)
}

/// What follows from the outcome of an Atlas operation.
#[verifier::opaque]
pub open spec fn outcome_effect(run: RunView, outcome: OutcomeView, elapsed: u64) -> StepView {
    let ordinal = run.attempts.len() + 1;
    if !outcome_acceptable(run.decision, run.route, outcome) {
        StepView::Refused { error: RouteErrorView::InvalidExecution }
    } else {
        match outcome {
            OutcomeView::Completed { payload, counters, diagnostics, materialization } => {
                let attempts = run.attempts.push(
                    attempt_numbered(
                        ordinal,
                        run.route,
                        AttemptState::Completed,
                        Seq::empty(),
                        counters,
                        elapsed,
                    ),
                );
                finish_counted(
                    attempts,
                    context_execution::completed_view(
                        run.decision,
                        attempts,
                        payload,
                        summed(attempts),
                        run.diagnostics + diagnostics,
                        materialization,
                    ),
                )
            },
            OutcomeView::Interrupted { diagnostics, reason } => finish_counted(
                run.attempts,
                context_execution::interrupted_view(
                    run.decision,
                    run.attempts,
                    run.prior_payload,
                    run.prior_satisfied,
                    summed(run.attempts),
                    run.diagnostics + diagnostics,
                    run.prior_materialization,
                    reason,
                ),
            ),
            OutcomeView::Deficient {
                payload,
                satisfied,
                deficits,
                counters,
                diagnostics,
                materialization,
            } => {
                let useful = payload is Some && payload->0.useful() && satisfied.len() > 0;
                let escalate = escalates(run, deficits);
                let attempts = run.attempts.push(
                    attempt_numbered(
                        ordinal,
                        run.route,
                        if escalate || useful {
                            AttemptState::Partial
                        } else {
                            AttemptState::Blocked
                        },
                        deficits,
                        counters,
                        elapsed,
                    ),
                );
                let terminal_reason = terminal_reason_of(
                    run.route,
                    run.decision.effective_ceiling,
                    deficits,
                );
                if escalate {
                    let keep = payload is Some && satisfied.len() > 0;
                    StepView::Continue {
                        run: RunView {
                            decision: run.decision,
                            attempts,
                            diagnostics: run.diagnostics + diagnostics,
                            route: Route::AtlasDeep,
                            prior_payload: if keep {
                                payload
                            } else {
                                run.prior_payload
                            },
                            prior_satisfied: if keep {
                                satisfied
                            } else {
                                run.prior_satisfied
                            },
                            prior_materialization: if keep {
                                materialization
                            } else {
                                run.prior_materialization
                            },
                        },
                    }
                } else if useful {
                    finish_counted(
                        attempts,
                        context_execution::partial_view(
                            run.decision,
                            attempts,
                            run.route,
                            payload->0,
                            satisfied,
                            deficits,
                            summed(attempts),
                            run.diagnostics + diagnostics,
                            materialization,
                            terminal_reason,
                        ),
                    )
                } else {
                    finish_counted(
                        attempts,
                        context_execution::blocked_view(
                            run.decision,
                            attempts,
                            Some(run.route),
                            None,
                            satisfied,
                            deficits,
                            summed(attempts),
                            run.diagnostics + diagnostics,
                            None,
                            terminal_reason,
                        ),
                    )
                }
            },
        }
    }
}

fn deficient_step(
    run: RouteRun,
    payload: Option<ContextPayload>,
    satisfied_capabilities: Vec<RequiredCapability>,
    deficits: Vec<RouteDeficit>,
    counters: ContextExecutionCounters,
    more: &Vec<ContextDiagnosticCode>,
    materialization: Option<ExplicitMaterialization>,
    elapsed: u64,
) -> (r: Result<RouteStep, ContextRouteError>)
    requires
        run@.wf(),
        outcome_acceptable(
            run@.decision,
            run.route,
            OutcomeView::Deficient {
                payload: context_execution::opt_payload(payload),
                satisfied: satisfied_capabilities@,
                deficits: deficits@,
                counters,
                diagnostics: more@,
                materialization: context_execution::opt_materialization(materialization),
            },
        ),
    ensures
        takes_step(
            r,
            outcome_effect(
                run@,
                OutcomeView::Deficient {
                    payload: context_execution::opt_payload(payload),
                    satisfied: satisfied_capabilities@,
                    deficits: deficits@,
                    counters,
                    diagnostics: more@,
                    materialization: context_execution::opt_materialization(materialization),
                },
                elapsed,
            ),
        ),
{
    reveal(outcome_effect);
    let mut diagnostics = run.diagnostics;
    extend_diagnostics(&mut diagnostics, more);
    let mut attempts = run.attempts;
    let ordinal: usize = attempts.len() + 1;
    let useful = match &payload {
        Some(payload) => payload.useful() && satisfied_capabilities.len() != 0,
        None => false,
    };
    let escalate = run.route == Route::AtlasLight && run.decision.effective_ceiling
        == Route::AtlasDeep && light_deficits_can_escalate(&deficits);
    let attempt = route_attempt(
        ordinal,
        run.route,
        if escalate || useful {
            AttemptState::Partial
        } else {
            AttemptState::Blocked
        },
        copy_deficits(&deficits),
        counters,
        elapsed,
    );
    proof {
        lemma_attempt_views_push(attempts@, attempt);
    }
    attempts.push(attempt);
    if escalate {
        let keep = payload.is_some() && satisfied_capabilities.len() != 0;
        let (prior_payload, prior_satisfied, prior_materialization) = if keep {
            (payload, satisfied_capabilities, materialization)
        } else {
            (run.prior_payload, run.prior_satisfied, run.prior_materialization)
        };
        return Ok(
            RouteStep::Continue {
                run: RouteRun {
                    decision: run.decision,
                    attempts,
                    diagnostics,
                    route: Route::AtlasDeep,
                    prior_payload,
                    prior_satisfied,
                    prior_materialization,
                },
            },
        );
    }
    let counters = match checked_counter_sum(&attempts) {
        Ok(counters) => counters,
        Err(e) => return Err(e),
    };
    assert(counters == summed(context_execution::attempt_views(attempts@)));
    let terminal_reason = terminal_reason_for(
        run.route,
        run.decision.effective_ceiling,
        &deficits,
    );
    let finished = match payload {
        Some(payload) if useful => ContextExecution::partial(
            run.decision,
            attempts,
            run.route,
            payload,
            satisfied_capabilities,
            deficits,
            counters,
            diagnostics,
            materialization,
            terminal_reason,
        ),
        _ => ContextExecution::blocked(
            run.decision,
            attempts,
            Some(run.route),
            None,
            satisfied_capabilities,
            deficits,
            counters,
            diagnostics,
            None,
            terminal_reason,
        ),
    };
    match finished {
        Ok(execution) => Ok(RouteStep::Finished { execution }),
        Err(e) => Err(e),
    }
}

/// Decides what follows from the outcome of an Atlas operation.
pub fn outcome_step(run: RouteRun, outcome: RouteAttemptOutcome, elapsed: u64) -> (r: Result<
    RouteStep,
    ContextRouteError,
>)
    requires
        run@.wf(),
    ensures
        takes_step(r, outcome_effect(run@, outcome@, elapsed)),
{
    reveal(outcome_effect);
    match dispatch_outcome_valid(&run.decision, run.route, &outcome) {
        Ok(()) => {},
        Err(e) => return Err(e),
    }
    match outcome {
        RouteAttemptOutcome::Completed { payload, counters, diagnostics: more, materialization } => {
            let mut diagnostics = run.diagnostics;
            extend_diagnostics(&mut diagnostics, &more);
            let mut attempts = run.attempts;
            let ordinal: usize = attempts.len() + 1;
            let nothing: Vec<RouteDeficit> = Vec::new();
            let attempt = route_attempt(
                ordinal,
                run.route,
                AttemptState::Completed,
                nothing,
                counters,
                elapsed,
            );
            proof {
                lemma_attempt_views_push(attempts@, attempt);
            }
            attempts.push(attempt);
            let counters = match checked_counter_sum(&attempts) {
                Ok(counters) => counters,
                Err(e) => return Err(e),
            };
            assert(counters == summed(context_execution::attempt_views(attempts@)));
            match ContextExecution::completed(
                run.decision,
                attempts,
                payload,
                counters,
                diagnostics,
                materialization,
            ) {
                Ok(execution) => Ok(RouteStep::Finished { execution }),
                Err(e) => Err(e),
            }
        },
        RouteAttemptOutcome::Interrupted { diagnostics: more, interruption_reason } => {
            let mut diagnostics = run.diagnostics;
            extend_diagnostics(&mut diagnostics, &more);
            let counters = match checked_counter_sum(&run.attempts) {
                Ok(counters) => counters,
                Err(e) => return Err(e),
            };
            assert(counters == summed(context_execution::attempt_views(run.attempts@)));
            match ContextExecution::interrupted(
                run.decision,
                run.attempts,
                run.prior_payload,
                run.prior_satisfied,
                counters,
                diagnostics,
                run.prior_materialization,
                interruption_reason,
            ) {
                Ok(execution) => Ok(RouteStep::Finished { execution }),
                Err(e) => Err(e),
            }
        },
        RouteAttemptOutcome::Deficient {
            payload,
            satisfied_capabilities,
            deficits,
            counters,
            diagnostics,
            materialization,
        } => deficient_step(
            run,
            payload,
            satisfied_capabilities,
            deficits,
            counters,
            &diagnostics,
            materialization,
            elapsed,
        ),
    }
}

/// The decision settles without the Atlas, or is refused.
pub open spec fn settles_alone(decision: DecisionView) -> bool {
    begin_step(decision, 1) !is Continue
}

/// `error` is what the dispatcher's error type makes of a route error with this
/// view.
pub open spec fn converted<E: From<ContextRouteError>>(view: RouteErrorView, error: E) -> bool {
    exists|e: ContextRouteError| e@ == view && #[trigger] call_ensures(E::from, (e,), error)
}

/// What a run asks of the dispatcher once its generation is confirmed.
pub enum RouteAction<'a> {
    DispatchLight { operations: &'a Vec<VersionedOperation> },
    DispatchDeep { contracts: &'a DeepContractVersions, budget: &'a DeepSemanticBudget },
}

/// The operation that a run asks for: LIGHT with the operations of its request, or
/// DEEP with the contracts and the budget of its request.
pub fn next_action<'a>(run: &'a RouteRun) -> (r: RouteAction<'a>)
    requires
        run@.wf(),
    ensures
        match r {
            RouteAction::DispatchLight { operations } => {
                &&& run.route == Route::AtlasLight
                &&& operations == &run.decision.request.light_operations
            },
            RouteAction::DispatchDeep { contracts, budget } => {
                &&& run.route == Route::AtlasDeep
                &&& contracts == &run.decision.request.deep_contracts
                &&& run.decision.request.deep_budget == Some(*budget)
            },
        },
{
    proof {
        reveal(DecisionView::fault);
    }
    let request = &run.decision.request;
    if run.route == Route::AtlasDeep {
        let budget = request.deep_budget.as_ref().unwrap();
        RouteAction::DispatchDeep { contracts: &request.deep_contracts, budget }
    } else {
        RouteAction::DispatchLight { operations: &request.light_operations }
    }
}

/// One call of a dispatcher: what it was given and what it answered.
pub enum DispatcherCall<E> {
    ObserveGeneration { observed: GenerationObservation },
    DispatchLight {
        decision: ContextRouteDecision,
        operations: Vec<VersionedOperation>,
        answer: Result<RouteAttemptOutcome, E>,
    },
    DispatchDeep {
        decision: ContextRouteDecision,
        contracts: DeepContractVersions,
        budget: DeepSemanticBudget,
        answer: Result<RouteAttemptOutcome, E>,
    },
}

impl<E> DispatcherCall<E> {
    /// What a dispatch answered.
    pub open spec fn answer(self) -> Result<RouteAttemptOutcome, E> {
        match self {
            DispatcherCall::DispatchDeep { answer, .. } => answer,
            _ => self->DispatchLight_answer,
        }
    }

    /// The call is the operation that the run asks for, under the decision of the
    /// run and with what its request holds.
    #[verifier::opaque]
    pub open spec fn serves(self, run: RunView) -> bool {
        match self {
            DispatcherCall::ObserveGeneration { .. } => false,
            DispatcherCall::DispatchLight { decision, operations, .. } => {
                &&& run.route == Route::AtlasLight
                &&& decision@ == run.decision
                &&& context_route::operation_views(operations@)
                    == run.decision.request.light_operations
            },
            DispatcherCall::DispatchDeep { decision, contracts, budget, .. } => {
                &&& run.route == Route::AtlasDeep
                &&& decision@ == run.decision
                &&& contracts@ == run.decision.request.deep_contracts
                &&& run.decision.request.deep_budget == Some(budget@)
            },
        }
    }
}

/// A call with the dispatcher before and after it.
pub struct Exchange<D, E> {
    pub before: D,
    pub call: DispatcherCall<E>,
    pub after: D,
}

/// The dispatcher behind `dispatcher` was called as the exchange says. What it is
/// after the call is `final(dispatcher)`.
#[verifier::opaque]
pub open spec fn answered<D: ContextRouteDispatcher>(
    dispatcher: &mut D,
    exchange: Exchange<D, D::Error>,
) -> bool {
    &&& *dispatcher == exchange.before
    &&& match exchange.call {
        DispatcherCall::ObserveGeneration { observed } => call_ensures(
            D::observe_generation,
            (dispatcher,),
            observed,
        ),
        DispatcherCall::DispatchLight { decision, operations, answer } => call_ensures(
            D::dispatch_light,
            (dispatcher, &decision, &operations),
            answer,
        ),
        DispatcherCall::DispatchDeep { decision, contracts, budget, answer } => call_ensures(
            D::dispatch_deep,
            (dispatcher, &decision, &contracts, &budget),
            answer,
        ),
    }
}

/// The calls follow each other on one dispatcher, which nothing else changes.
pub open spec fn unbroken<D, E>(calls: Seq<Exchange<D, E>>, first: D, last: D) -> bool {
    if calls.len() == 0 {
        first == last
    } else {
        &&& calls[0].before == first
        &&& calls.last().after == last
        &&& forall|i: int| 0 < i < calls.len() ==> (#[trigger] calls[i]).before == calls[i - 1].after
    }
}

/// The run ends in the step: in its envelope, or in the error of an envelope or a
/// step at fault.
pub open spec fn ends_in<E: From<ContextRouteError>>(
    step: StepView,
    r: Result<ContextExecution, E>,
) -> bool {
    match step {
        StepView::Refused { error } => r is Err && converted::<E>(error, r->Err_0),
        StepView::Finish { execution } => if execution.fault() is None {
            r is Ok && r->Ok_0@ == execution
        } else {
            r is Err && converted::<E>(execution.fault()->0, r->Err_0)
        },
        StepView::Continue { .. } => false,
    }
}

/// A run that makes these calls, in this order, and ends in `r`: each round observes
/// the generation, and only where that is the starting one makes the operation that
/// the run asks for.
#[verifier::opaque]
pub open spec fn pursues<D, E: From<ContextRouteError>>(
    run: RunView,
    calls: Seq<Exchange<D, E>>,
    r: Result<ContextExecution, E>,
) -> bool
    decreases calls.len(),
{
    &&& calls.len() >= 1
    &&& calls[0].call is ObserveGeneration
    &&& exists|waited: u64|
        waited >= 1 && {
            let step = #[trigger] observe_outcome(
                run,
                calls[0].call->observed@,
                waited,
            );
            if step is Continue {
                &&& calls.len() >= 2
                &&& calls[1].call.serves(step->run)
                &&& match calls[1].call.answer() {
                    Err(error) => calls.len() == 2 && r == Err::<ContextExecution, E>(error),
                    Ok(outcome) => exists|spent: u64|
                        spent >= 1 && {
                            let next = #[trigger] outcome_effect(step->run, outcome@, spent);
                            if next is Continue {
                                pursues(next->run, calls.skip(2), r)
                            } else {
                                calls.len() == 2 && ends_in(next, r)
                            }
                        },
                }
            } else {
                calls.len() == 1 && ends_in(step, r)
            }
        }
}

/// An execution of the decision that makes these calls, in this order, and ends in
/// `r`. A decision that is refused or settles without the Atlas makes none.
pub open spec fn executes<D, E: From<ContextRouteError>>(
    decision: DecisionView,
    calls: Seq<Exchange<D, E>>,
    r: Result<ContextExecution, E>,
) -> bool {
    exists|elapsed: u64|
        elapsed >= 1 && {
            let step = #[trigger] begin_step(decision, elapsed);
            if step is Continue {
                pursues(step->run, calls, r)
            } else {
                calls.len() == 0 && ends_in(step, r)
            }
        }
}

fn convert<E: From<ContextRouteError>>(problem: ContextRouteError) -> (r: E)
    ensures
        converted::<E>(problem@, r),
{
    let ghost seen = problem;
    let error = <E as From<ContextRouteError>>::from(problem);
    assert(call_ensures(<E as From<ContextRouteError>>::from, (seen,), error));
    error
}

/// Asks the dispatcher for the generation that is active now.
fn observe<D: ContextRouteDispatcher>(dispatcher: &mut D) -> (r: GenerationObservation)
    ensures
        exists|d: &mut D| #[trigger]
            answered(
                d,
                Exchange {
                    before: *old(dispatcher),
                    call: DispatcherCall::ObserveGeneration { observed: r },
                    after: *final(dispatcher),
                },
            ) && *final(d) == *final(dispatcher),
{
    let ghost before = *dispatcher;
    let observed = dispatcher.observe_generation();
    proof {
        reveal(answered);
        let x = Exchange {
            before,
            call: DispatcherCall::ObserveGeneration { observed },
            after: *dispatcher,
        };
        assert forall|d: &mut D| #[trigger]
            call_ensures(D::observe_generation, (d,), observed) && *d == before implies answered(
            d,
            x,
        ) by {}
    }
    observed
}

/// The call by which a run is dispatched.
pub open spec fn dispatch_of<E>(
    run: RouteRun,
    answer: Result<RouteAttemptOutcome, E>,
) -> DispatcherCall<E> {
    let request = run.decision.request;
    if run.route == Route::AtlasDeep {
        DispatcherCall::DispatchDeep {
            decision: run.decision,
            contracts: request.deep_contracts,
            budget: request.deep_budget->0,
            answer,
        }
    } else {
        DispatcherCall::DispatchLight {
            decision: run.decision,
            operations: request.light_operations,
            answer,
        }
    }
}

/// Dispatches the operation that a run asks for.
fn dispatch<D: ContextRouteDispatcher>(run: &RouteRun, dispatcher: &mut D) -> (r: Result<
    RouteAttemptOutcome,
    D::Error,
>)
    requires
        run@.wf(),
    ensures
        dispatch_of(*run, r).serves(run@),
        exists|d: &mut D| #[trigger]
            answered(
                d,
                Exchange {
                    before: *old(dispatcher),
                    call: dispatch_of(*run, r),
                    after: *final(dispatcher),
                },
            ) && *final(d) == *final(dispatcher),
{
    let ghost before = *dispatcher;
    proof {
        reveal(answered);
        reveal(DispatcherCall::serves);
    }
    match next_action(run) {
        RouteAction::DispatchDeep { contracts, budget } => {
            let answer = dispatcher.dispatch_deep(&run.decision, contracts, budget);
            proof {
                let x = Exchange { before, call: dispatch_of(*run, answer), after: *dispatcher };
                assert forall|d: &mut D| #[trigger]
                    call_ensures(
                        D::dispatch_deep,
                        (d, &run.decision, contracts, budget),
                        answer,
                    ) && *d == before implies answered(d, x) by {}
            }
            answer
        },
        RouteAction::DispatchLight { operations } => {
            let answer = dispatcher.dispatch_light(&run.decision, operations);
            proof {
                let x = Exchange { before, call: dispatch_of(*run, answer), after: *dispatcher };
                assert forall|d: &mut D| #[trigger]
                    call_ensures(D::dispatch_light, (d, &run.decision, operations), answer) && *d
                        == before implies answered(d, x) by {}
            }
            answer
        },
    }
}

/// A round that ends at its observation.
proof fn lemma_round_stops<D, E: From<ContextRouteError>>(
    run: RunView,
    x: Exchange<D, E>,
    waited: u64,
    r: Result<ContextExecution, E>,
)
    requires
        waited >= 1,
        x.call is ObserveGeneration,
        ends_in(observe_outcome(run, x.call->observed@, waited), r),
    ensures
        pursues(run, seq![x], r),
{
    reveal(pursues);
}

/// A round whose dispatch fails.
proof fn lemma_round_fails<D, E: From<ContextRouteError>>(
    run: RunView,
    x: Exchange<D, E>,
    y: Exchange<D, E>,
    waited: u64,
    error: E,
)
    requires
        waited >= 1,
        x.call is ObserveGeneration,
        observe_outcome(run, x.call->observed@, waited) == (StepView::Continue { run }),
        y.call.serves(run),
        y.call.answer() == Err::<RouteAttemptOutcome, E>(error),
    ensures
        pursues(run, seq![x, y], Err(error)),
{
    reveal(pursues);
}

/// A round that ends with the outcome of its dispatch.
proof fn lemma_round_ends<D, E: From<ContextRouteError>>(
    run: RunView,
    x: Exchange<D, E>,
    y: Exchange<D, E>,
    waited: u64,
    spent: u64,
    r: Result<ContextExecution, E>,
)
    requires
        waited >= 1,
        spent >= 1,
        x.call is ObserveGeneration,
        observe_outcome(run, x.call->observed@, waited) == (StepView::Continue { run }),
        y.call.serves(run),
        y.call.answer() is Ok,
        ends_in(outcome_effect(run, y.call.answer()->Ok_0@, spent), r),
    ensures
        pursues(run, seq![x, y], r),
{
    reveal(pursues);
}

/// A round after which the run goes on.
proof fn lemma_round_goes_on<D, E: From<ContextRouteError>>(
    run: RunView,
    x: Exchange<D, E>,
    y: Exchange<D, E>,
    waited: u64,
    spent: u64,
    next: RunView,
    rest: Seq<Exchange<D, E>>,
    r: Result<ContextExecution, E>,
)
    requires
        waited >= 1,
        spent >= 1,
        x.call is ObserveGeneration,
        observe_outcome(run, x.call->observed@, waited) == (StepView::Continue { run }),
        y.call.serves(run),
        y.call.answer() is Ok,
        outcome_effect(run, y.call.answer()->Ok_0@, spent) == (StepView::Continue { run: next }),
        pursues(next, rest, r),
    ensures
        pursues(run, seq![x, y] + rest, r),
{
    reveal(pursues);
    let all = seq![x, y] + rest;
    assert(all.skip(2) =~= rest);
    assert(all[0] == x && all[1] == y);
}

/// Execute one immutable route decision through bounded DIRECT → LIGHT → DEEP
/// progression. Generation changes stop before the next Atlas operation; the
/// caller must submit a new request to obtain a new immutable decision.
///
/// What the dispatcher answers is not known here: the calls that are made, their
/// order and what they are given follow from the decision and the answers, and so
/// does the result.
pub fn execute_context_route<D: ContextRouteDispatcher>(
    decision: ContextRouteDecision,
    dispatcher: &mut D,
) -> (r: Result<ContextExecution, D::Error>)
    ensures
        exists|calls: Seq<Exchange<D, D::Error>>|
            {
                &&& #[trigger] executes(decision@, calls, r)
                &&& unbroken(calls, *old(dispatcher), *final(dispatcher))
                &&& forall|i: int|
                    0 <= i < calls.len() ==> {
                        let call = #[trigger] calls[i];
                        exists|d: &mut D| #[trigger] answered(d, call) && *final(d) == call.after
                    }
            },
        decision@.fault() is Some ==> r is Err && converted::<D::Error>(
            decision@.fault()->0,
            r->Err_0,
        ),
        decision@.fault() is Some || settles_alone(decision@) ==> *final(dispatcher) == *old(
            dispatcher,
        ),
        r is Ok ==> r->Ok_0@.fault() is None,
        r is Ok ==> r->Ok_0@.decision == decision@,
        decision@.fault() is None && settles_alone(decision@) ==> {
            &&& r is Ok
            &&& exists|elapsed: u64|
                elapsed >= 1 && #[trigger] begin_step(decision@, elapsed) == (StepView::Finish {
                    execution: r->Ok_0@,
                })
        },
{
    let ghost given = decision@;
    let started = std::time::Instant::now();
    let elapsed: u64 = elapsed_micros(started);
    proof {
        if given.fault() is None {
            lemma_begin_is_valid(given, elapsed);
        }
        lemma_begin_shape(given, elapsed, 1);
        lemma_settled_decision(given, elapsed);
    }
    let ghost first = *dispatcher;
    let ghost mut calls: Seq<Exchange<D, D::Error>> = Seq::empty();
    let mut run: RouteRun = match begin_route(decision, elapsed) {
        Ok(RouteStep::Finished { execution }) => {
            assert(begin_step(given, elapsed) == (StepView::Finish { execution: execution@ }));
            let r: Result<ContextExecution, D::Error> = Ok(execution);
            assert(executes(given, calls, r));
            return r;
        },
        Ok(RouteStep::Continue { run }) => run,
        Err(e) => {
            let r: Result<ContextExecution, D::Error> = Err(convert(e));
            assert(executes(given, calls, r));
            return r;
        },
    };
    proof {
        assert forall|rest: Seq<Exchange<D, D::Error>>, r: Result<ContextExecution, D::Error>| #[trigger]
            pursues(run@, rest, r) implies executes(given, calls + rest, r) by {
            assert(calls + rest =~= rest);
        }
    }
    loop
        invariant
            run@.wf(),
            run@.decision == given,
            given == decision@,
            given.fault() is None,
            !settles_alone(given),
            first == *old(dispatcher),
            unbroken(calls, first, *dispatcher),
            forall|i: int|
                0 <= i < calls.len() ==> {
                    let call = #[trigger] calls[i];
                    exists|d: &mut D| #[trigger] answered(d, call) && *final(d) == call.after
                },
            forall|rest: Seq<Exchange<D, D::Error>>, r: Result<ContextExecution, D::Error>| #[trigger]
                pursues(run@, rest, r) ==> executes(given, calls + rest, r),
        decreases 2 - run.route.spec_rank(),
    {
        let attempt_started = std::time::Instant::now();
        let ghost before = *dispatcher;
        let observed = observe(dispatcher);
        let ghost x = Exchange {
            before,
            call: DispatcherCall::ObserveGeneration { observed },
            after: *dispatcher,
        };
        let ghost earlier = calls;
        proof {
            calls = calls.push(x);
        }
        let ghost start = run@;
        let waited: u64 = elapsed_micros(attempt_started);
        proof {
            lemma_observe_keeps_decision(start, observed@, waited);
        }
        run =
        match observe_step(run, &observed, waited) {
            Ok(RouteStep::Finished { execution }) => {
                let r: Result<ContextExecution, D::Error> = Ok(execution);
                proof {
                    lemma_round_stops(start, x, waited, r);
                    assert(earlier + seq![x] =~= calls);
                }
                return r;
            },
            Ok(RouteStep::Continue { run }) => run,
            Err(e) => {
                let r: Result<ContextExecution, D::Error> = Err(convert(e));
                proof {
                    lemma_round_stops(start, x, waited, r);
                    assert(earlier + seq![x] =~= calls);
                }
                return r;
            },
        };
        let ghost before = *dispatcher;
        let ghost asked = run;
        let answer = dispatch(&run, dispatcher);
        let ghost y = Exchange { before, call: dispatch_of(asked, answer), after: *dispatcher };
        let ghost round = seq![x, y];
        proof {
            assert(y.call.serves(start));
            assert(y.call.answer() == answer);
            calls = calls.push(y);
            assert(earlier + round =~= calls);
        }
        let outcome = match answer {
            Ok(outcome) => outcome,
            Err(e) => {
                proof {
                    lemma_round_fails(start, x, y, waited, e);
                }
                return Err(e);
            },
        };
        let ghost outcome_view = outcome@;
        let spent: u64 = elapsed_micros(attempt_started);
        proof {
            lemma_outcome_keeps_decision(start, outcome_view, spent);
        }
        run =
        match outcome_step(run, outcome, spent) {
            Ok(RouteStep::Finished { execution }) => {
                let r: Result<ContextExecution, D::Error> = Ok(execution);
                proof {
                    lemma_round_ends(start, x, y, waited, spent, r);
                }
                return r;
            },
            Ok(RouteStep::Continue { run }) => run,
            Err(e) => {
                let r: Result<ContextExecution, D::Error> = Err(convert(e));
                proof {
                    lemma_round_ends(start, x, y, waited, spent, r);
                }
                return r;
            },
        };
        proof {
            assert forall|
                rest: Seq<Exchange<D, D::Error>>,
                r: Result<ContextExecution, D::Error>,
            | #[trigger] pursues(run@, rest, r) implies executes(given, calls + rest, r) by {
                lemma_round_goes_on(start, x, y, waited, spent, run@, rest, r);
                assert(earlier + (round + rest) =~= calls + rest);
            }
        }
    }
}

/// Which step comes first does not depend on the time taken.
pub proof fn lemma_begin_shape(decision: DecisionView, a: u64, b: u64)
    ensures
        begin_step(decision, a) is Continue <==> begin_step(decision, b) is Continue,
        begin_step(decision, a) is Finish <==> begin_step(decision, b) is Finish,
        begin_step(decision, a) is Refused <==> decision.fault() is Some,
        decision.fault() is Some ==> begin_step(decision, a)->error == decision.fault()->0,
{
    reveal(begin_step);
}

proof fn lemma_settled_decision(decision: DecisionView, elapsed: u64)
    ensures
        begin_step(decision, elapsed) is Finish ==> begin_step(
            decision,
            elapsed,
        )->execution.decision == decision,
        begin_step(decision, elapsed) is Continue ==> begin_step(decision, elapsed)->run.decision
            == decision,
{
    reveal(begin_step);
}

proof fn lemma_observe_keeps_decision(run: RunView, observed: GenerationView, elapsed: u64)
    ensures
        observe_outcome(run, observed, elapsed) matches StepView::Finish { execution }
            ==> execution.decision == run.decision,
        observe_outcome(run, observed, elapsed) matches StepView::Continue { run: next } ==> next
            == run,
{
    reveal(observe_outcome);
}

/// Only a LIGHT run goes on, and it goes on to DEEP under the same decision.
pub proof fn lemma_outcome_keeps_decision(run: RunView, outcome: OutcomeView, elapsed: u64)
    requires
        run.wf(),
    ensures
        outcome_effect(run, outcome, elapsed) matches StepView::Finish { execution }
            ==> execution.decision == run.decision,
        outcome_effect(run, outcome, elapsed) matches StepView::Continue { run: next } ==> {
            &&& next.decision == run.decision
            &&& run.route == Route::AtlasLight
            &&& next.route == Route::AtlasDeep
            &&& next.wf()
        },
{
    reveal(outcome_effect);
}

/// The caller's part of a request: what it has and what it lacks make up all that
/// is requested.
pub proof fn lemma_caller_split(map: CapabilityMap, n: nat)
    requires
        n <= 8,
    ensures
        held_upto(map, n).len() + missing_upto(map, n).len() == map.listed_upto(n).len(),
        context_execution::capability_deficit_count(missing_upto(map, n)) == missing_upto(
            map,
            n,
        ).len(),
        forall|i: int|
            0 <= i < held_upto(map, n).len() ==> {
                &&& map.state(#[trigger] held_upto(map, n)[i]) == Some(
                    CallerCapabilityState::Satisfied,
                )
                &&& held_upto(map, n)[i].spec_rank() < n
            },
        forall|i: int, j: int|
            0 <= i < j < held_upto(map, n).len() ==> (#[trigger] held_upto(map, n)[i]).spec_rank()
                < (#[trigger] held_upto(map, n)[j]).spec_rank(),
        forall|i: int|
            0 <= i < missing_upto(map, n).len() ==> {
                &&& #[trigger] missing_upto(map, n)[i] is Capability
                &&& missing_upto(map, n)[i]->capability.spec_rank() < n
                &&& missing_upto(map, n)[i] == (RouteDeficit::Capability {
                    capability: missing_upto(map, n)[i]->capability,
                    reason: CapabilityDeficitReason::Unavailable,
                })
                &&& map.state(missing_upto(map, n)[i]->capability) is Some
                &&& map.state(missing_upto(map, n)[i]->capability) != Some(
                    CallerCapabilityState::Satisfied,
                )
            },
        forall|i: int, j: int|
            0 <= i < j < missing_upto(map, n).len() ==> (#[trigger] missing_upto(
                map,
                n,
            )[i]).spec_order() < (#[trigger] missing_upto(map, n)[j]).spec_order(),
        missing_upto(map, n).len() == 0 ==> forall|c: RequiredCapability|
            c.spec_rank() < n && #[trigger] map.state(c) is Some ==> map.state(c) == Some(
                CallerCapabilityState::Satisfied,
            ),
    decreases n,
{
    if n > 0 {
        let m = (n - 1) as nat;
        lemma_caller_split(map, m);
        let c = context_route::spec_capability_at(n - 1);
        assert(c.spec_rank() == n - 1);
        let lacks = missing_upto(map, n);
        let lacked = missing_upto(map, m);
        if lacks.len() > lacked.len() {
            assert(lacks.drop_last() =~= lacked);
        }
        assert forall|d: RequiredCapability|
            lacks.len() == 0 && d.spec_rank() < n && #[trigger] map.state(d) is Some implies map.state(
            d,
        ) == Some(CallerCapabilityState::Satisfied) by {
            if d.spec_rank() == n - 1 {
                assert(d == c);
            }
        }
    }
}

proof fn lemma_caller_accounts(map: CapabilityMap, route: Option<Route>)
    ensures
        context_execution::accounts_for(
            map,
            caller_held(map),
            caller_missing(map),
            route,
            false,
            true,
        ),
        context_execution::deficits_ordered(caller_missing(map)),
        !context_execution::has_route_deficit(caller_missing(map)),
        caller_missing(map).len() == 0 ==> map.all_satisfied(),
{
    reveal(context_execution::accounts_for);
    lemma_caller_split(map, 8);
    let held = caller_held(map);
    let missing = caller_missing(map);
    assert forall|i: int| 0 <= i < missing.len() && #[trigger] missing[i] is Capability implies {
        &&& map.state(missing[i]->capability) is Some
        &&& !held.contains(missing[i]->capability)
    } by {
        if held.contains(missing[i]->capability) {
            let k = choose|k: int| 0 <= k < held.len() && held[k] == missing[i]->capability;
            assert(map.state(held[k]) == Some(CallerCapabilityState::Satisfied));
        }
    }
    assert forall|i: int, j: int|
        0 <= i < j < missing.len() && #[trigger] missing[i] is Capability
            && #[trigger] missing[j] is Capability implies missing[i]->capability
        != missing[j]->capability by {
        assert(missing[i].spec_order() < missing[j].spec_order());
    }
    assert forall|i: int| 0 <= i < held.len() implies context_execution::satisfiable(
        map,
        #[trigger] held[i],
        route,
    ) by {
        assert(map.state(held[i]) == Some(CallerCapabilityState::Satisfied));
    }
    assert forall|i: int, j: int| 0 <= i < j < held.len() implies #[trigger] held[i]
        != #[trigger] held[j] by {
        assert(held[i].spec_rank() < held[j].spec_rank());
    }
    if missing.len() == 0 {
        assert forall|c: RequiredCapability| map.state(c) is Some implies #[trigger] map.state(c)
            == Some(CallerCapabilityState::Satisfied) by {
            assert(c.spec_rank() < 8);
        }
    }
}

proof fn lemma_blocked_start_is_valid(decision: DecisionView, e: ExecutionView)
    requires
        decision.fault() is None,
        e == context_execution::blocked_view(
            decision,
            Seq::empty(),
            None,
            None,
            caller_held(decision.requested_capabilities),
            seq![
                RouteDeficit::Route { reason: RouteFailureReason::StartingGenerationUnavailable },
            ],
            context_metrics::zero_counters(),
            Seq::empty(),
            None,
            TerminalReason::GenerationUnavailable,
        ),
    ensures
        e.fault() is None,
{
    reveal(ExecutionView::fault);
    let map = decision.requested_capabilities;
    lemma_caller_accounts(map, None);
    reveal(context_execution::accounts_for);
    assert(e.deficits[0] is Route);
    assert(context_execution::has_failure(
        e.deficits,
        RouteFailureReason::StartingGenerationUnavailable,
        RouteFailureReason::NoActiveGeneration,
    ));
    assert(context_execution::has_route_deficit(e.deficits));
    assert(context_execution::accounts_for(map, e.satisfied, e.deficits, None, false, false));
    assert(e.common_valid());
    assert(e.blocked_valid());
}

proof fn lemma_direct_attempt(decision: DecisionView, attempt: AttemptView)
    requires
        decision.fault() is None,
        decision.initial_route == Route::Direct,
        attempt.valid(),
        attempt.route == Route::Direct,
        attempt.counters == context_metrics::zero_counters(),
    ensures
        context_execution::progression_valid(seq![attempt], decision),
        context_execution::counter_sum(seq![attempt]).held_by(context_metrics::zero_counters()),
{
    reveal(DecisionView::fault);
    let all = seq![attempt];
    assert(all.drop_last() =~= Seq::empty());
    assert(context_execution::counter_sum(all.drop_last()).fits());
    assert(all.last() == attempt);
    assert(context_execution::attempt_within(attempt, decision));
}

proof fn lemma_direct_completion_is_valid(decision: DecisionView, elapsed: u64, e: ExecutionView)
    requires
        decision.fault() is None,
        decision.initial_route == Route::Direct,
        caller_missing(decision.requested_capabilities).len() == 0,
        e == context_execution::completed_view(
            decision,
            seq![
                attempt_numbered(
                    1,
                    Route::Direct,
                    AttemptState::Completed,
                    Seq::empty(),
                    context_metrics::zero_counters(),
                    elapsed,
                ),
            ],
            PayloadView::DirectNone,
            context_metrics::zero_counters(),
            Seq::empty(),
            None,
        ),
    ensures
        e.fault() is None,
{
    reveal(ExecutionView::fault);
    let map = decision.requested_capabilities;
    lemma_caller_accounts(map, None);
    lemma_attempt_id(1);
    lemma_direct_attempt(decision, e.attempts[0]);
    assert(e.attempts =~= seq![e.attempts[0]]);
    assert(e.common_valid());
    assert(context_execution::route_supplies(map, Route::Direct));
    assert(e.completed_valid());
}

proof fn lemma_direct_block_is_valid(decision: DecisionView, elapsed: u64, e: ExecutionView)
    requires
        decision.fault() is None,
        decision.initial_route == Route::Direct,
        decision.effective_ceiling == Route::Direct,
        caller_missing(decision.requested_capabilities).len() > 0,
        e == context_execution::blocked_view(
            decision,
            seq![
                attempt_numbered(
                    1,
                    Route::Direct,
                    AttemptState::Blocked,
                    caller_missing(decision.requested_capabilities),
                    context_metrics::zero_counters(),
                    elapsed,
                ),
            ],
            Some(Route::Direct),
            None,
            caller_held(decision.requested_capabilities),
            caller_missing(decision.requested_capabilities),
            context_metrics::zero_counters(),
            Seq::empty(),
            None,
            TerminalReason::RouteCeilingReached,
        ),
    ensures
        e.fault() is None,
{
    reveal(ExecutionView::fault);
    let map = decision.requested_capabilities;
    lemma_caller_accounts(map, Some(Route::Direct));
    lemma_attempt_id(1);
    lemma_direct_attempt(decision, e.attempts[0]);
    assert(e.attempts =~= seq![e.attempts[0]]);
    assert(e.common_valid());
    assert(e.blocked_valid());
}

/// What a valid decision settles without the Atlas is always a valid execution.
pub proof fn lemma_begin_is_valid(decision: DecisionView, elapsed: u64)
    requires
        decision.fault() is None,
    ensures
        begin_step(decision, elapsed) matches StepView::Finish { execution } ==> execution.fault()
            is None,
{
    reveal(begin_step);
    match begin_step(decision, elapsed) {
        StepView::Finish { execution } => {
            if decision.starting_generation is Unavailable && !(decision.initial_route
                == Route::Direct && caller_missing(decision.requested_capabilities).len() == 0) {
                lemma_blocked_start_is_valid(decision, execution);
            } else if caller_missing(decision.requested_capabilities).len() == 0 {
                lemma_direct_completion_is_valid(decision, elapsed, execution);
            } else {
                lemma_direct_block_is_valid(decision, elapsed, execution);
            }
        },
        _ => {},
    }
}

/// A dispatch that comes right after an observation of the starting generation, on a
/// route that the decision allows, with what its request holds.
pub open spec fn confirmed<D, E>(
    decision: DecisionView,
    observation: Exchange<D, E>,
    dispatch: Exchange<D, E>,
) -> bool {
    &&& observation.call is ObserveGeneration
    &&& observation.call->observed@ == decision.starting_generation
    &&& decision.starting_generation is Observed
    &&& match dispatch.call {
        DispatcherCall::ObserveGeneration { .. } => false,
        DispatcherCall::DispatchLight { decision: given, operations, .. } => {
            &&& given@ == decision
            &&& context_route::operation_views(operations@) == decision.request.light_operations
            &&& decision.effective_ceiling != Route::Direct
        },
        DispatcherCall::DispatchDeep { decision: given, contracts, budget, .. } => {
            &&& given@ == decision
            &&& contracts@ == decision.request.deep_contracts
            &&& decision.request.deep_budget == Some(budget@)
            &&& decision.effective_ceiling == Route::AtlasDeep
        },
    }
}

/// What one round of a run consists of.
pub proof fn lemma_round<D, E: From<ContextRouteError>>(
    run: RunView,
    calls: Seq<Exchange<D, E>>,
    r: Result<ContextExecution, E>,
) -> (waited: u64)
    requires
        run.wf(),
        pursues(run, calls, r),
    ensures
        waited >= 1,
        calls.len() >= 1,
        calls[0].call is ObserveGeneration,
        generation_fault(run.decision.starting_generation, calls[0].call->observed@) is Some ==> {
            &&& calls.len() == 1
            &&& ends_in(observe_outcome(run, calls[0].call->observed@, waited), r)
        },
        generation_fault(run.decision.starting_generation, calls[0].call->observed@) is None ==> {
            &&& calls.len() >= 2
            &&& confirmed(run.decision, calls[0], calls[1])
            &&& calls[1].call.serves(run)
        },
        calls.len() > 2 ==> calls[1].call.answer() is Ok && run.route == Route::AtlasLight
            && exists|spent: u64|
            spent >= 1 && {
                let next = #[trigger] outcome_effect(run, calls[1].call.answer()->Ok_0@, spent);
                &&& next is Continue
                &&& next->run.wf()
                &&& next->run.decision == run.decision
                &&& next->run.route == Route::AtlasDeep
                &&& pursues(next->run, calls.skip(2), r)
            },
{
    reveal(DispatcherCall::serves);
    reveal(pursues);
    reveal(observe_outcome);
    let observed = calls[0].call->observed@;
    let waited = choose|waited: u64|
        waited >= 1 && {
            let step = #[trigger] observe_outcome(run, observed, waited);
            if step is Continue {
                &&& calls.len() >= 2
                &&& calls[1].call.serves(step->run)
                &&& match calls[1].call.answer() {
                    Err(error) => calls.len() == 2 && r == Err::<ContextExecution, E>(error),
                    Ok(outcome) => exists|spent: u64|
                        spent >= 1 && {
                            let next = #[trigger] outcome_effect(step->run, outcome@, spent);
                            if next is Continue {
                                pursues(next->run, calls.skip(2), r)
                            } else {
                                calls.len() == 2 && ends_in(next, r)
                            }
                        },
                }
            } else {
                calls.len() == 1 && ends_in(step, r)
            }
        };
    if calls.len() > 2 {
        let outcome = calls[1].call.answer()->Ok_0@;
        let spent = choose|spent: u64|
            spent >= 1 && {
                let next = #[trigger] outcome_effect(run, outcome, spent);
                if next is Continue {
                    pursues(next->run, calls.skip(2), r)
                } else {
                    calls.len() == 2 && ends_in(next, r)
                }
            };
        lemma_outcome_keeps_decision(run, outcome, spent);
    }
    waited
}

/// The dispatcher is called only for a valid decision that does not settle without
/// the Atlas. It is dispatched to at most once on LIGHT and then at most once on
/// DEEP, each time right after an observation of the starting generation, on a route
/// within the ceiling and with the contracts of the request.
pub proof fn law_calls_are_confirmed_and_bounded<D, E: From<ContextRouteError>>(
    decision: DecisionView,
    calls: Seq<Exchange<D, E>>,
    r: Result<ContextExecution, E>,
)
    requires
        executes(decision, calls, r),
    ensures
        calls.len() == 0 <==> decision.fault() is Some || settles_alone(decision),
        calls.len() <= 4,
        calls.len() >= 1 ==> calls[0].call is ObserveGeneration,
        calls.len() >= 2 ==> confirmed(decision, calls[0], calls[1]),
        calls.len() >= 3 ==> calls[1].call is DispatchLight && calls[2].call is ObserveGeneration,
        calls.len() == 4 ==> calls[3].call is DispatchDeep && confirmed(
            decision,
            calls[2],
            calls[3],
        ),
{
    reveal(DispatcherCall::serves);
    let elapsed = choose|elapsed: u64|
        elapsed >= 1 && {
            let step = #[trigger] begin_step(decision, elapsed);
            if step is Continue {
                pursues(step->run, calls, r)
            } else {
                calls.len() == 0 && ends_in(step, r)
            }
        };
    lemma_begin_shape(decision, elapsed, 1);
    if begin_step(decision, elapsed) is Continue {
        let run = begin_step(decision, elapsed)->run;
        lemma_begin_is_ready(decision, elapsed);
        let waited = lemma_round(run, calls, r);
        if calls.len() > 2 {
            let outcome = calls[1].call.answer()->Ok_0@;
            let spent = choose|spent: u64|
                spent >= 1 && {
                    let next = #[trigger] outcome_effect(run, outcome, spent);
                    &&& next is Continue
                    &&& next->run.wf()
                    &&& next->run.decision == run.decision
                    &&& next->run.route == Route::AtlasDeep
                    &&& pursues(next->run, calls.skip(2), r)
                };
            let next = outcome_effect(run, outcome, spent)->run;
            let waited = lemma_round(next, calls.skip(2), r);
            assert(calls.skip(2)[0] == calls[2]);
            if calls.len() > 3 {
                assert(calls.skip(2)[1] == calls[3]);
            }
        }
    }
}

/// A run that a valid decision begins is on an Atlas route that the decision allows.
pub proof fn lemma_begin_is_ready(decision: DecisionView, elapsed: u64)
    ensures
        begin_step(decision, elapsed) is Continue ==> {
            &&& begin_step(decision, elapsed)->run.wf()
            &&& begin_step(decision, elapsed)->run.decision == decision
        },
{
    reveal(begin_step);
    reveal(DecisionView::fault);
}

/// What lies behind a run lets it stop in a valid envelope.
pub open spec fn may_stop(run: RunView) -> bool {
    &&& run.wf()
    &&& run.decision.starting_generation is Observed
    &&& !(run.decision.requested_capabilities.all_satisfied() && run.decision.initial_route
        == Route::Direct)
    &&& run.diagnostics.len() <= MAX_EXECUTION_DIAGNOSTICS
    &&& context_execution::progression_valid(run.attempts, run.decision)
    &&& summed(run.attempts).within_bounds()
    &&& run.decision.effective_floor.spec_rank() <= run.route.spec_rank()
    &&& run.attempts.len() == 0 ==> run.route == run.decision.initial_route
    &&& run.attempts.len() > 0 ==> forall|next: AttemptView|
        next.route == run.route ==> #[trigger] context_execution::transition_allowed(
            run.attempts.last(),
            next,
            run.decision.requested_capabilities,
        )
}

pub proof fn lemma_attempt_id(n: nat)
    requires
        n < 10,
    ensures
        context_route::opaque_id("context-attempt-"@ + text::decimal(n)),
{
    reveal_strlit("context-attempt-");
    let id = "context-attempt-"@ + text::decimal(n);
    assert(text::decimal(n) =~= seq![text::digit_char(n as int)]);
    assert(id.len() == 17);
    assert forall|i: int| 0 <= i < id.len() implies ' ' <= #[trigger] id[i] && id[i] <= '~' by {
        if i < 16 {
            assert(id[i] == "context-attempt-"@[i]);
        }
    }
}

/// A run that may stop ends in a valid envelope where the generation has changed.
proof fn lemma_stop_is_valid(run: RunView, observed: GenerationView, elapsed: u64)
    requires
        may_stop(run),
        generation_fault(run.decision.starting_generation, observed) is Some,
    ensures
        observe_outcome(run, observed, elapsed) is Finish,
        observe_outcome(run, observed, elapsed)->execution.fault() is None,
{
    reveal(observe_outcome);
    reveal(ExecutionView::fault);
    reveal(context_execution::accounts_for);
    let (failure, reason) = generation_fault(run.decision.starting_generation, observed)->0;
    let deficits = seq![RouteDeficit::Route { reason: failure }];
    let attempt = attempt_numbered(
        run.attempts.len() + 1,
        run.route,
        AttemptState::Blocked,
        deficits,
        context_metrics::zero_counters(),
        elapsed,
    );
    let attempts = run.attempts.push(attempt);
    assert(attempts.drop_last() =~= run.attempts);
    assert(attempts.last() == attempt);
    assert(context_execution::counter_sum(attempts) == context_execution::counter_sum(
        run.attempts,
    ));
    assert(summed(attempts) == summed(run.attempts));
    lemma_attempt_id(run.attempts.len() + 1);
    assert(attempt.valid());
    assert(context_execution::attempt_within(attempt, run.decision));
    assert forall|i: int, j: int|
        0 <= i && j == i + 1 && j < attempts.len() implies context_execution::transition_allowed(
        #[trigger] attempts[i],
        #[trigger] attempts[j],
        run.decision.requested_capabilities,
    ) by {
        if j < run.attempts.len() {
            assert(attempts[i] == run.attempts[i] && attempts[j] == run.attempts[j]);
        } else {
            assert(attempts[i] == run.attempts.last());
        }
    }
    assert(context_execution::progression_valid(attempts, run.decision));
    lemma_caller_accounts(run.decision.requested_capabilities, Some(run.route));
    let e = observe_outcome(run, observed, elapsed)->execution;
    assert(e.deficits[0] is Route);
    assert(context_execution::has_route_deficit(e.deficits));
    assert(e.common_valid());
    assert(e.blocked_valid());
}

/// A run that begins may stop.
pub proof fn lemma_begin_may_stop(decision: DecisionView, elapsed: u64)
    ensures
        begin_step(decision, elapsed) is Continue ==> may_stop(begin_step(decision, elapsed)->run),
{
    reveal(begin_step);
    lemma_begin_is_ready(decision, elapsed);
    if begin_step(decision, elapsed) is Continue {
        let run = begin_step(decision, elapsed)->run;
        let map = decision.requested_capabilities;
        assert(decision.fault() is None);
        assert(decision.effective_floor == decision.initial_route) by {
            reveal(DecisionView::fault);
        }
        lemma_caller_split(map, 8);
        if decision.initial_route == Route::Direct {
            let attempt = run.attempts[0];
            lemma_caller_accounts(map, Some(Route::Direct));
            lemma_attempt_id(1);
            lemma_direct_attempt(decision, attempt);
            assert(run.attempts =~= seq![attempt]);
            assert(!map.all_satisfied()) by {
                let lacked = caller_missing(map)[0];
                assert(map.state(lacked->capability) is Some);
            }
            assert(run.attempts.last() == attempt);
            assert forall|i: int| 0 <= i < attempt.deficits.len() implies
                context_execution::deficit_is_open(map, #[trigger] attempt.deficits[i]) by {
                let lacked = missing_upto(map, 8)[i];
                assert(attempt.deficits[i] == lacked);
                let state = map.state(lacked->capability);
                assert(state is Some && state != Some(CallerCapabilityState::Satisfied));
                assert(state->0 is Unsatisfied || state->0 is Unknown);
            }
        }
    }
}

/// A LIGHT run that goes on to DEEP with open deficits may stop there.
pub proof fn lemma_outcome_may_stop(run: RunView, outcome: OutcomeView, elapsed: u64)
    requires
        may_stop(run),
        outcome_effect(run, outcome, elapsed) is Continue,
        run.attempts.len() == 0 || run.attempts.len() == 1 && run.attempts[0].counters
            == context_metrics::zero_counters(),
        run.diagnostics.len() == 0,
        forall|i: int|
            0 <= i < outcome->Deficient_deficits.len() ==> context_execution::deficit_is_open(
                run.decision.requested_capabilities,
                #[trigger] outcome->Deficient_deficits[i],
            ),
    ensures
        may_stop(outcome_effect(run, outcome, elapsed)->run),
{
    reveal(outcome_effect);
    reveal(deficient_acceptable);
    lemma_outcome_keeps_decision(run, outcome, elapsed);
    let next = outcome_effect(run, outcome, elapsed)->run;
    let attempt = next.attempts.last();
    let map = run.decision.requested_capabilities;
    assert(next.attempts.drop_last() =~= run.attempts);
    lemma_attempt_id(run.attempts.len() + 1);
    assert(attempt.valid());
    assert(context_execution::attempt_within(attempt, run.decision));
    if run.attempts.len() == 1 {
        assert(run.attempts.drop_last() =~= Seq::empty());
        assert(run.attempts.last() == run.attempts[0]);
    }
    assert forall|i: int, j: int|
        0 <= i && j == i + 1 && j < next.attempts.len() implies context_execution::transition_allowed(
        #[trigger] next.attempts[i],
        #[trigger] next.attempts[j],
        map,
    ) by {
        assert(next.attempts[i] == run.attempts.last());
    }
    assert forall|after: AttemptView| after.route == next.route implies #[trigger]
        context_execution::transition_allowed(attempt, after, map) by {
        assert forall|i: int| 0 <= i < attempt.deficits.len() implies {
            &&& context_execution::deficit_is_open(map, #[trigger] attempt.deficits[i])
            &&& context_execution::deficit_can_escalate(attempt.deficits[i])
        } by {}
    }
    assert(context_execution::counter_sum(next.attempts).held_by(attempt.counters)) by {
        reveal_with_fuel(context_execution::counter_sum, 4);
    }
    assert(summed(next.attempts) == attempt.counters);
    assert(next.diagnostics.len() <= MAX_EXECUTION_DIAGNOSTICS);
    assert(context_execution::progression_valid(next.attempts, next.decision));
}

/// The envelope of a run that a changed generation stopped before `route`: blocked
/// there, with nothing handed on and nothing counted for the attempt.
pub open spec fn stopped_before(
    decision: DecisionView,
    route: Route,
    observed: GenerationView,
    e: ExecutionView,
) -> bool {
    let (failure, reason) = generation_fault(decision.starting_generation, observed)->0;
    let deficits = seq![RouteDeficit::Route { reason: failure }];
    &&& e.state == context_execution::ExecutionState::Blocked
    &&& e.decision == decision
    &&& e.final_route == Some(route)
    &&& e.payload is None
    &&& e.materialization is None
    &&& e.satisfied == caller_held(decision.requested_capabilities)
    &&& e.deficits == deficits
    &&& e.terminal_reason == Some(reason)
    &&& e.attempts.len() > 0
    &&& e.attempts.last().route == route
    &&& e.attempts.last().state == AttemptState::Blocked
    &&& e.attempts.last().deficits == deficits
    &&& e.attempts.last().counters == context_metrics::zero_counters()
}

/// A generation that is no longer the starting one stops the execution: no dispatch
/// follows, and what is returned is the blocked envelope of that stop. Before the
/// first Atlas operation that envelope is always valid; before DEEP it is where the
/// caller lacks whatever LIGHT reported as missing.
pub proof fn law_a_changed_generation_stops<D, E: From<ContextRouteError>>(
    decision: DecisionView,
    calls: Seq<Exchange<D, E>>,
    r: Result<ContextExecution, E>,
    i: int,
)
    requires
        executes(decision, calls, r),
        0 <= i < calls.len(),
        calls[i].call is ObserveGeneration,
        calls[i].call->observed@ != decision.starting_generation,
    ensures
        i == calls.len() - 1,
        i == 0 || i == 2,
        r is Ok ==> stopped_before(
            decision,
            if i == 2 {
                Route::AtlasDeep
            } else if decision.initial_route == Route::Direct {
                Route::AtlasLight
            } else {
                decision.initial_route
            },
            calls[i].call->observed@,
            r->Ok_0@,
        ),
        i == 0 ==> r is Ok,
        i == 2 ==> calls[1].call.answer() is Ok && calls[1].call.answer()->Ok_0@ is Deficient,
        i == 2 && (forall|k: int|
            0 <= k < calls[1].call.answer()->Ok_0@->Deficient_deficits.len()
                ==> context_execution::deficit_is_open(
                decision.requested_capabilities,
                #[trigger] calls[1].call.answer()->Ok_0@->Deficient_deficits[k],
            )) ==> r is Ok,
{
    law_calls_are_confirmed_and_bounded(decision, calls, r);
    let elapsed = choose|elapsed: u64|
        elapsed >= 1 && {
            let step = #[trigger] begin_step(decision, elapsed);
            if step is Continue {
                pursues(step->run, calls, r)
            } else {
                calls.len() == 0 && ends_in(step, r)
            }
        };
    let run = begin_step(decision, elapsed)->run;
    lemma_begin_is_ready(decision, elapsed);
    lemma_begin_may_stop(decision, elapsed);
    assert({
        &&& run.attempts.len() == 0 || run.attempts.len() == 1 && run.attempts[0].counters
            == context_metrics::zero_counters()
        &&& run.diagnostics.len() == 0
        &&& run.route == if decision.initial_route == Route::Direct {
            Route::AtlasLight
        } else {
            decision.initial_route
        }
    }) by {
        reveal(begin_step);
    }
    let waited = lemma_round(run, calls, r);
    if calls.len() == 1 {
        lemma_stop_is_valid(run, calls[0].call->observed@, waited);
        reveal(observe_outcome);
    } else {
        assert(i == 2);
        let outcome = calls[1].call.answer()->Ok_0@;
        let spent = choose|spent: u64|
            spent >= 1 && {
                let next = #[trigger] outcome_effect(run, outcome, spent);
                &&& next is Continue
                &&& next->run.wf()
                &&& next->run.decision == run.decision
                &&& next->run.route == Route::AtlasDeep
                &&& pursues(next->run, calls.skip(2), r)
            };
        let next = outcome_effect(run, outcome, spent)->run;
        assert(outcome is Deficient) by {
            reveal(outcome_effect);
        }
        assert(calls.skip(2)[0] == calls[2]);
        let waited = lemma_round(next, calls.skip(2), r);
        if forall|k: int|
            0 <= k < outcome->Deficient_deficits.len() ==> context_execution::deficit_is_open(
                decision.requested_capabilities,
                #[trigger] outcome->Deficient_deficits[k],
            ) {
            lemma_outcome_may_stop(run, outcome, spent);
            lemma_stop_is_valid(next, calls[2].call->observed@, waited);
        }
        reveal(observe_outcome);
    }
}

} // verus!
