//! What a route decision owes its request, case by case.
use vstd::prelude::*;

use crate::context_route;
use crate::context_route::{
    AtlasIntent, CallerCapabilityState, CapabilityMap, GenerationView, RequestView,
    RequiredCapability, Route, RouteErrorView, RouteReason, RouteSignal,
};
use crate::text;

verus! {

/// `low` comes no later than `high` in the progression DIRECT, LIGHT, DEEP.
pub open spec fn no_later(low: Route, high: Route) -> bool {
    match high {
        Route::Direct => low == Route::Direct,
        Route::AtlasLight => low != Route::AtlasDeep,
        Route::AtlasDeep => true,
    }
}

/// The caller asked for the capability and does not have it.
pub open spec fn lacks(map: CapabilityMap, capability: RequiredCapability) -> bool {
    map.state(capability) == Some(CallerCapabilityState::Unsatisfied) || map.state(capability)
        == Some(CallerCapabilityState::Unknown)
}

/// The capability is one that only the DEEP route can deliver.
pub open spec fn deep_only(capability: RequiredCapability) -> bool {
    capability == RequiredCapability::TemporalHistory || capability
        == RequiredCapability::RequiredRoleClosure || capability
        == RequiredCapability::ValidationPlan
}

/// Three capabilities need DEEP; the other five can be had on LIGHT; none needs no
/// more than DIRECT.
pub proof fn law_capabilities_have_their_least_route(capability: RequiredCapability)
    ensures
        deep_only(capability) ==> capability.spec_minimum_route() == Route::AtlasDeep,
        !deep_only(capability) ==> capability.spec_minimum_route() == Route::AtlasLight,
{
}

/// The routes are ordered DIRECT, LIGHT, DEEP.
pub proof fn law_routes_are_ordered(a: Route, b: Route)
    ensures
        a.spec_rank() <= b.spec_rank() <==> no_later(a, b),
{
}

/// A run starts on the least route that is no earlier than the floor of its request
/// and, where the Atlas is required, no earlier than LIGHT. It goes no further than the
/// ceiling of its request, and without Atlas intent it stays on DIRECT.
pub proof fn law_a_run_starts_at_the_least_route(request: RequestView, other: Route)
    requires
        request.fault() is None,
    ensures
        ({
            let decision = request.decided();
            let start = decision.initial_route;
            &&& decision.effective_floor == start
            &&& no_later(request.route_floor, start)
            &&& no_later(start, request.route_ceiling)
            &&& request.atlas_intent == AtlasIntent::Require ==> start != Route::Direct
            &&& no_later(request.route_floor, other) && (request.atlas_intent
                == AtlasIntent::Require ==> other != Route::Direct) ==> no_later(start, other)
            &&& request.atlas_intent == AtlasIntent::Require && request.route_floor
                == Route::Direct ==> start == Route::AtlasLight
            &&& request.atlas_intent == AtlasIntent::Allow ==> start == request.route_floor
            &&& request.atlas_intent == AtlasIntent::Never ==> start == Route::Direct
                && decision.effective_ceiling == Route::Direct
            &&& request.atlas_intent != AtlasIntent::Never ==> decision.effective_ceiling
                == request.route_ceiling
        }),
{
}

/// A decision takes over what its request says, and names its policy.
pub proof fn law_decisions_keep_their_request(request: RequestView)
    ensures
        request.decided().request == request,
        request.decided().requested_capabilities == request.caller_capabilities,
        request.decided().starting_generation == request.starting_generation,
        request.deep_budget is None ==> request.decided().deep_budget_digest is None,
        request.deep_budget matches Some(budget) ==> request.decided().deep_budget_digest == Some(
            budget.budget_digest,
        ),
{
}

/// What an accepted request must be: the floor no later than the ceiling, no Atlas
/// route as the floor where the Atlas is not wanted and one as the ceiling where it is
/// required, a budget of positive limits where DEEP is allowed, and no profile.
pub proof fn law_accepted_requests_are_consistent(request: RequestView)
    requires
        request.fault() is None,
    ensures
        no_later(request.route_floor, request.route_ceiling),
        request.atlas_intent == AtlasIntent::Never ==> request.route_floor == Route::Direct,
        request.atlas_intent == AtlasIntent::Require ==> request.route_ceiling != Route::Direct,
        request.route_ceiling == Route::AtlasDeep ==> request.deep_budget is Some,
        request.deep_budget matches Some(budget) ==> {
            &&& budget.max_records > 0 && budget.max_source_bytes > 0
            &&& budget.max_estimated_tokens > 0 && budget.max_depth > 0
            &&& budget.max_work_units > 0 && 0 < budget.uncertainty_reserve_percent <= 100
            &&& budget.budget_digest == budget.digest()
        },
        request.capability_profile is None && request.cost_profile is None
            && request.profile_registry_digest is None,
        text::hex64(request.normalized_task_hash) && text::hex64(request.explicit_seeds.digest),
        request.deep_contracts == context_route::pinned_deep_contracts(),
        request.light_operations == context_route::pinned_operations(),
{
}

/// A request whose identities and contracts are in order is refused for its routes, its
/// intent or its budget exactly where these do not fit together, and is otherwise
/// accepted.
pub proof fn law_consistent_requests_are_accepted(request: RequestView)
    requires
        request.schema_version == "context-route-v2.0.0"@,
        request.classifier_version == "task-classifier-v1.0.0"@,
        text::hex64(request.normalized_task_hash),
        text::hex64(request.explicit_seeds.digest),
        request.starting_generation matches GenerationView::Observed { generation_id }
            ==> context_route::opaque_id(generation_id),
        request.capability_profile is None && request.cost_profile is None
            && request.profile_registry_digest is None,
        request.deep_contracts == context_route::pinned_deep_contracts(),
        request.light_operations == context_route::pinned_operations(),
    ensures
        request.fault() == Some(RouteErrorView::FloorAboveCeiling) <==> !no_later(
            request.route_floor,
            request.route_ceiling,
        ),
        no_later(request.route_floor, request.route_ceiling) ==> {
            &&& request.fault() == Some(RouteErrorView::IntentFloorConflict)
                <==> request.atlas_intent == AtlasIntent::Never && request.route_floor
                != Route::Direct
            &&& request.fault() == Some(RouteErrorView::IntentCeilingConflict)
                <==> request.atlas_intent == AtlasIntent::Require && request.route_ceiling
                == Route::Direct
            &&& (request.atlas_intent == AtlasIntent::Allow || (request.atlas_intent
                == AtlasIntent::Never && request.route_floor == Route::Direct) || (
            request.atlas_intent == AtlasIntent::Require && request.route_ceiling
                != Route::Direct)) ==> {
                &&& request.fault() == Some(RouteErrorView::DeepBudgetRequired)
                    <==> request.route_ceiling == Route::AtlasDeep && request.deep_budget is None
                &&& request.route_ceiling != Route::AtlasDeep && request.deep_budget is None
                    ==> request.fault() is None
                &&& request.deep_budget matches Some(budget) ==> {
                    &&& budget.fault() is None ==> request.fault() is None
                    &&& budget.fault() is Some ==> request.fault() == budget.fault()
                }
            }
        },
{
}

/// The list holds `y`.
#[verifier::opaque]
spec fn holds<T>(list: Seq<T>, y: T) -> bool {
    list.contains(y)
}

proof fn lemma_with_if_contains<T>(acc: Seq<T>, keep: bool, x: T, y: T)
    ensures
        holds(context_route::with_if(acc, keep, x), y) <==> holds(acc, y) || (keep && x == y),
{
    lemma_push_contains(acc, x, y);
}

proof fn lemma_push_contains<T>(acc: Seq<T>, x: T, y: T)
    ensures
        holds(acc.push(x), y) <==> holds(acc, y) || x == y,
{
    reveal(holds);
    let all = acc.push(x);
    assert(all[acc.len() as int] == x);
    if acc.contains(y) {
        let i = choose|i: int| 0 <= i < acc.len() && acc[i] == y;
        assert(all[i] == y);
    }
    if all.contains(y) {
        let i = choose|i: int| 0 <= i < all.len() && all[i] == y;
        if i < acc.len() {
            assert(acc[i] == y);
        }
    }
}

/// The capabilities that the caller asked for, in words of the map's own fields.
pub open spec fn some_field(map: CapabilityMap, state: CallerCapabilityState) -> bool {
    map.identity_lookup == Some(state) || map.exact_source == Some(state)
        || map.bounded_relationships == Some(state) || map.impact_frontier == Some(state)
        || map.basic_coverage_conflicts == Some(state) || map.temporal_history == Some(state)
        || map.required_role_closure == Some(state) || map.validation_plan == Some(state)
}

/// What a signal claims of a request.
pub open spec fn claimed(request: RequestView, signal: RouteSignal) -> bool {
    let map = request.caller_capabilities;
    let start = request.decided().initial_route;
    let ceiling = request.decided().effective_ceiling;
    match signal {
        RouteSignal::CallerCapabilitiesSatisfied => some_field(
            map,
            CallerCapabilityState::Satisfied,
        ),
        RouteSignal::CallerCapabilitiesUnsatisfied => some_field(
            map,
            CallerCapabilityState::Unsatisfied,
        ),
        RouteSignal::CallerCapabilitiesUnknown => some_field(map, CallerCapabilityState::Unknown),
        RouteSignal::AtlasIntentNone => request.atlas_intent == AtlasIntent::Never,
        RouteSignal::AtlasIntentAllow => request.atlas_intent == AtlasIntent::Allow,
        RouteSignal::AtlasIntentRequire => request.atlas_intent == AtlasIntent::Require,
        RouteSignal::RouteFloorDirect => start == Route::Direct,
        RouteSignal::RouteFloorLight => start == Route::AtlasLight,
        RouteSignal::RouteFloorDeep => start == Route::AtlasDeep,
        RouteSignal::RouteCeilingDirect => ceiling == Route::Direct,
        RouteSignal::RouteCeilingLight => ceiling == Route::AtlasLight,
        RouteSignal::RouteCeilingDeep => ceiling == Route::AtlasDeep,
        RouteSignal::ExplicitSeedsPresent => request.explicit_seeds.path_count > 0
            || request.explicit_seeds.symbol_count > 0,
        RouteSignal::IdentityOrSourceRequested => map.identity_lookup is Some
            || map.exact_source is Some,
        RouteSignal::RelationshipsOrImpactRequested => map.bounded_relationships is Some
            || map.impact_frontier is Some,
        RouteSignal::BasicCoverageConflictsRequested => map.basic_coverage_conflicts is Some,
        RouteSignal::DeepSynthesisRequested => map.temporal_history is Some
            || map.required_role_closure is Some || map.validation_plan is Some,
        RouteSignal::StartingGenerationObserved => request.starting_generation is Observed,
        RouteSignal::StartingGenerationUnavailable => request.starting_generation is Unavailable,
        RouteSignal::CapabilityProfileApplied => false,
        RouteSignal::CostProfileApplied => false,
    }
}

proof fn lemma_has_state(map: CapabilityMap, state: CallerCapabilityState)
    ensures
        map.has_state(state) <==> some_field(map, state),
{
    if some_field(map, state) {
        assert(map.state(RequiredCapability::IdentityLookup) == map.identity_lookup);
        assert(map.state(RequiredCapability::ExactSource) == map.exact_source);
        assert(map.state(RequiredCapability::BoundedRelationships) == map.bounded_relationships);
        assert(map.state(RequiredCapability::ImpactFrontier) == map.impact_frontier);
        assert(map.state(RequiredCapability::BasicCoverageConflicts)
            == map.basic_coverage_conflicts);
        assert(map.state(RequiredCapability::TemporalHistory) == map.temporal_history);
        assert(map.state(RequiredCapability::RequiredRoleClosure) == map.required_role_closure);
        assert(map.state(RequiredCapability::ValidationPlan) == map.validation_plan);
    }
}

/// What the first three signals and the intent add up to.
proof fn lemma_caller_signals(request: RequestView, signal: RouteSignal) -> (s: Seq<RouteSignal>)
    ensures
        s == caller_signals(request),
        holds(s, signal) <==> {
            let map = request.caller_capabilities;
            ||| some_field(map, CallerCapabilityState::Satisfied) && signal
                == RouteSignal::CallerCapabilitiesSatisfied
            ||| some_field(map, CallerCapabilityState::Unsatisfied) && signal
                == RouteSignal::CallerCapabilitiesUnsatisfied
            ||| some_field(map, CallerCapabilityState::Unknown) && signal
                == RouteSignal::CallerCapabilitiesUnknown
        },
{
    let map = request.caller_capabilities;
    lemma_has_state(map, CallerCapabilityState::Satisfied);
    lemma_has_state(map, CallerCapabilityState::Unsatisfied);
    lemma_has_state(map, CallerCapabilityState::Unknown);
    let s = Seq::<RouteSignal>::empty();
    assert(!holds(s, signal)) by {
        reveal(holds);
    }
    let a = map.has_state(CallerCapabilityState::Satisfied);
    lemma_with_if_contains(s, a, RouteSignal::CallerCapabilitiesSatisfied, signal);
    let s = context_route::with_if(s, a, RouteSignal::CallerCapabilitiesSatisfied);
    let a = map.has_state(CallerCapabilityState::Unsatisfied);
    lemma_with_if_contains(s, a, RouteSignal::CallerCapabilitiesUnsatisfied, signal);
    let s = context_route::with_if(s, a, RouteSignal::CallerCapabilitiesUnsatisfied);
    let a = map.has_state(CallerCapabilityState::Unknown);
    lemma_with_if_contains(s, a, RouteSignal::CallerCapabilitiesUnknown, signal);
    reveal(caller_signals);
    context_route::with_if(s, a, RouteSignal::CallerCapabilitiesUnknown)
}

/// The signals of what the caller has.
#[verifier::opaque]
spec fn caller_signals(request: RequestView) -> Seq<RouteSignal> {
    let map = request.caller_capabilities;
    context_route::with_if(
        context_route::with_if(
            context_route::with_if(
                Seq::empty(),
                map.has_state(CallerCapabilityState::Satisfied),
                RouteSignal::CallerCapabilitiesSatisfied,
            ),
            map.has_state(CallerCapabilityState::Unsatisfied),
            RouteSignal::CallerCapabilitiesUnsatisfied,
        ),
        map.has_state(CallerCapabilityState::Unknown),
        RouteSignal::CallerCapabilitiesUnknown,
    )
}

/// Those, with the signals of the intent and the bounds.
#[verifier::opaque]
spec fn bound_signals(request: RequestView, s: Seq<RouteSignal>) -> Seq<RouteSignal> {
    s.push(
        match request.atlas_intent {
            AtlasIntent::Never => RouteSignal::AtlasIntentNone,
            AtlasIntent::Allow => RouteSignal::AtlasIntentAllow,
            AtlasIntent::Require => RouteSignal::AtlasIntentRequire,
        },
    ).push(
        match request.effective_floor() {
            Route::Direct => RouteSignal::RouteFloorDirect,
            Route::AtlasLight => RouteSignal::RouteFloorLight,
            Route::AtlasDeep => RouteSignal::RouteFloorDeep,
        },
    ).push(
        match request.effective_ceiling() {
            Route::Direct => RouteSignal::RouteCeilingDirect,
            Route::AtlasLight => RouteSignal::RouteCeilingLight,
            Route::AtlasDeep => RouteSignal::RouteCeilingDeep,
        },
    )
}

proof fn lemma_bound_signals(request: RequestView, s: Seq<RouteSignal>, signal: RouteSignal)
    ensures
        holds(bound_signals(request, s), signal) <==> {
            ||| holds(s, signal)
            ||| signal == RouteSignal::AtlasIntentNone && request.atlas_intent
                == AtlasIntent::Never
            ||| signal == RouteSignal::AtlasIntentAllow && request.atlas_intent
                == AtlasIntent::Allow
            ||| signal == RouteSignal::AtlasIntentRequire && request.atlas_intent
                == AtlasIntent::Require
            ||| signal == RouteSignal::RouteFloorDirect && request.effective_floor()
                == Route::Direct
            ||| signal == RouteSignal::RouteFloorLight && request.effective_floor()
                == Route::AtlasLight
            ||| signal == RouteSignal::RouteFloorDeep && request.effective_floor()
                == Route::AtlasDeep
            ||| signal == RouteSignal::RouteCeilingDirect && request.effective_ceiling()
                == Route::Direct
            ||| signal == RouteSignal::RouteCeilingLight && request.effective_ceiling()
                == Route::AtlasLight
            ||| signal == RouteSignal::RouteCeilingDeep && request.effective_ceiling()
                == Route::AtlasDeep
        },
{
    reveal(bound_signals);
    let x = match request.atlas_intent {
        AtlasIntent::Never => RouteSignal::AtlasIntentNone,
        AtlasIntent::Allow => RouteSignal::AtlasIntentAllow,
        AtlasIntent::Require => RouteSignal::AtlasIntentRequire,
    };
    lemma_push_contains(s, x, signal);
    let s = s.push(x);
    let x = match request.effective_floor() {
        Route::Direct => RouteSignal::RouteFloorDirect,
        Route::AtlasLight => RouteSignal::RouteFloorLight,
        Route::AtlasDeep => RouteSignal::RouteFloorDeep,
    };
    lemma_push_contains(s, x, signal);
    let s = s.push(x);
    let x = match request.effective_ceiling() {
        Route::Direct => RouteSignal::RouteCeilingDirect,
        Route::AtlasLight => RouteSignal::RouteCeilingLight,
        Route::AtlasDeep => RouteSignal::RouteCeilingDeep,
    };
    lemma_push_contains(s, x, signal);
}

/// Those, with the signals of what was asked for.
#[verifier::opaque]
spec fn asked_signals(request: RequestView, s: Seq<RouteSignal>) -> Seq<RouteSignal> {
    let s = context_route::with_if(
        s,
        request.explicit_seeds.path_count > 0 || request.explicit_seeds.symbol_count > 0,
        RouteSignal::ExplicitSeedsPresent,
    );
    let s = context_route::with_if(
        s,
        request.requests(RequiredCapability::IdentityLookup) || request.requests(
            RequiredCapability::ExactSource,
        ),
        RouteSignal::IdentityOrSourceRequested,
    );
    let s = context_route::with_if(
        s,
        request.requests(RequiredCapability::BoundedRelationships) || request.requests(
            RequiredCapability::ImpactFrontier,
        ),
        RouteSignal::RelationshipsOrImpactRequested,
    );
    let s = context_route::with_if(
        s,
        request.requests(RequiredCapability::BasicCoverageConflicts),
        RouteSignal::BasicCoverageConflictsRequested,
    );
    context_route::with_if(
        s,
        request.requests(RequiredCapability::TemporalHistory) || request.requests(
            RequiredCapability::RequiredRoleClosure,
        ) || request.requests(RequiredCapability::ValidationPlan),
        RouteSignal::DeepSynthesisRequested,
    )
}

proof fn lemma_asked_signals(request: RequestView, s: Seq<RouteSignal>, signal: RouteSignal)
    ensures
        holds(asked_signals(request, s), signal) <==> {
            let map = request.caller_capabilities;
            ||| holds(s, signal)
            ||| signal == RouteSignal::ExplicitSeedsPresent && (request.explicit_seeds.path_count
                > 0 || request.explicit_seeds.symbol_count > 0)
            ||| signal == RouteSignal::IdentityOrSourceRequested && (map.identity_lookup is Some
                || map.exact_source is Some)
            ||| signal == RouteSignal::RelationshipsOrImpactRequested && (
            map.bounded_relationships is Some || map.impact_frontier is Some)
            ||| signal == RouteSignal::BasicCoverageConflictsRequested
                && map.basic_coverage_conflicts is Some
            ||| signal == RouteSignal::DeepSynthesisRequested && (map.temporal_history is Some
                || map.required_role_closure is Some || map.validation_plan is Some)
        },
{
    reveal(asked_signals);
    let a = request.explicit_seeds.path_count > 0 || request.explicit_seeds.symbol_count > 0;
    lemma_with_if_contains(s, a, RouteSignal::ExplicitSeedsPresent, signal);
    let s = context_route::with_if(s, a, RouteSignal::ExplicitSeedsPresent);
    let a = request.requests(RequiredCapability::IdentityLookup) || request.requests(
        RequiredCapability::ExactSource,
    );
    lemma_with_if_contains(s, a, RouteSignal::IdentityOrSourceRequested, signal);
    let s = context_route::with_if(s, a, RouteSignal::IdentityOrSourceRequested);
    let a = request.requests(RequiredCapability::BoundedRelationships) || request.requests(
        RequiredCapability::ImpactFrontier,
    );
    lemma_with_if_contains(s, a, RouteSignal::RelationshipsOrImpactRequested, signal);
    let s = context_route::with_if(s, a, RouteSignal::RelationshipsOrImpactRequested);
    let a = request.requests(RequiredCapability::BasicCoverageConflicts);
    lemma_with_if_contains(s, a, RouteSignal::BasicCoverageConflictsRequested, signal);
    let s = context_route::with_if(s, a, RouteSignal::BasicCoverageConflictsRequested);
    let a = request.requests(RequiredCapability::TemporalHistory) || request.requests(
        RequiredCapability::RequiredRoleClosure,
    ) || request.requests(RequiredCapability::ValidationPlan);
    lemma_with_if_contains(s, a, RouteSignal::DeepSynthesisRequested, signal);
}

proof fn lemma_signals_in_parts(request: RequestView)
    ensures
        request.signals() == asked_signals(
            request,
            bound_signals(request, caller_signals(request)),
        ).push(
            match request.starting_generation {
                GenerationView::Observed { .. } => RouteSignal::StartingGenerationObserved,
                GenerationView::Unavailable { .. } => RouteSignal::StartingGenerationUnavailable,
            },
        ),
{
    reveal(caller_signals);
    reveal(bound_signals);
    reveal(asked_signals);
}

/// A decision carries a signal exactly where what the signal claims holds of its
/// request.
pub proof fn law_signals_say_what_was_asked(request: RequestView, signal: RouteSignal)
    ensures
        request.decided().signals.contains(signal) <==> claimed(request, signal),
{
    let s = lemma_caller_signals(request, signal);
    lemma_bound_signals(request, s, signal);
    let s = bound_signals(request, s);
    lemma_asked_signals(request, s, signal);
    let s = asked_signals(request, s);
    let x = match request.starting_generation {
        GenerationView::Observed { .. } => RouteSignal::StartingGenerationObserved,
        GenerationView::Unavailable { .. } => RouteSignal::StartingGenerationUnavailable,
    };
    lemma_push_contains(s, x, signal);
    lemma_signals_in_parts(request);
    assert(holds(request.signals(), signal) <==> request.signals().contains(signal)) by {
        reveal(holds);
    }
}

/// What a reason claims of a request.
pub open spec fn justified(request: RequestView, reason: RouteReason) -> bool {
    let map = request.caller_capabilities;
    match reason {
        RouteReason::CallerContextSufficient => forall|c: RequiredCapability|
            !#[trigger] lacks(map, c),
        RouteReason::CallerContextIncomplete => exists|c: RequiredCapability| #[trigger]
            lacks(map, c),
        RouteReason::AtlasNotRequested => request.atlas_intent == AtlasIntent::Never,
        RouteReason::ExplicitAtlasRequest => request.atlas_intent == AtlasIntent::Require,
        RouteReason::LightCapabilityRequired => exists|c: RequiredCapability|
            !deep_only(c) && #[trigger] lacks(map, c),
        RouteReason::DeepCapabilityRequired => exists|c: RequiredCapability|
            deep_only(c) && #[trigger] lacks(map, c),
        RouteReason::RouteFloorApplied => request.decided().initial_route != Route::Direct,
        RouteReason::StartingGenerationUnavailable => request.starting_generation is Unavailable,
    }
}

proof fn lemma_lacks(map: CapabilityMap)
    ensures
        map.all_satisfied() <==> forall|c: RequiredCapability| !#[trigger] lacks(map, c),
        map.lacks_at(Route::AtlasLight) <==> exists|c: RequiredCapability|
            !deep_only(c) && #[trigger] lacks(map, c),
        map.lacks_at(Route::AtlasDeep) <==> exists|c: RequiredCapability|
            deep_only(c) && #[trigger] lacks(map, c),
{
    assert forall|c: RequiredCapability| #[trigger] lacks(map, c) <==> map.state(c) is Some
        && map.state(c) != Some(CallerCapabilityState::Satisfied) by {
        if let Some(state) = map.state(c) {
            assert(state == CallerCapabilityState::Satisfied || state
                == CallerCapabilityState::Unsatisfied || state == CallerCapabilityState::Unknown);
        }
    }
    if forall|c: RequiredCapability| !#[trigger] lacks(map, c) {
        assert forall|c: RequiredCapability| map.state(c) is Some implies #[trigger] map.state(c)
            == Some(CallerCapabilityState::Satisfied) by {
            assert(!lacks(map, c));
        }
    }
    if map.lacks_at(Route::AtlasLight) {
        let c = choose|c: RequiredCapability|
            {
                &&& #[trigger] map.state(c) is Some
                &&& map.state(c) != Some(CallerCapabilityState::Satisfied)
                &&& c.spec_minimum_route() == Route::AtlasLight
            };
        law_capabilities_have_their_least_route(c);
        assert(lacks(map, c));
    }
    if map.lacks_at(Route::AtlasDeep) {
        let c = choose|c: RequiredCapability|
            {
                &&& #[trigger] map.state(c) is Some
                &&& map.state(c) != Some(CallerCapabilityState::Satisfied)
                &&& c.spec_minimum_route() == Route::AtlasDeep
            };
        law_capabilities_have_their_least_route(c);
        assert(lacks(map, c));
    }
    if exists|c: RequiredCapability| !deep_only(c) && #[trigger] lacks(map, c) {
        let c = choose|c: RequiredCapability| !deep_only(c) && #[trigger] lacks(map, c);
        assert(map.state(c) is Some && c.spec_minimum_route() == Route::AtlasLight);
    }
    if exists|c: RequiredCapability| deep_only(c) && #[trigger] lacks(map, c) {
        let c = choose|c: RequiredCapability| deep_only(c) && #[trigger] lacks(map, c);
        assert(map.state(c) is Some && c.spec_minimum_route() == Route::AtlasDeep);
    }
}

/// A decision carries a reason exactly where what the reason claims holds of its
/// request.
pub proof fn law_reasons_hold(request: RequestView, reason: RouteReason)
    ensures
        request.decided().reasons.contains(reason) <==> justified(request, reason),
{
    let map = request.caller_capabilities;
    lemma_lacks(map);
    let x = if map.all_satisfied() {
        RouteReason::CallerContextSufficient
    } else {
        RouteReason::CallerContextIncomplete
    };
    let s = seq![x];
    assert(s =~= Seq::<RouteReason>::empty().push(x));
    assert(!holds(Seq::<RouteReason>::empty(), reason)) by {
        reveal(holds);
    }
    lemma_push_contains(Seq::empty(), x, reason);
    let a = request.atlas_intent == AtlasIntent::Never;
    lemma_with_if_contains(s, a, RouteReason::AtlasNotRequested, reason);
    let s = context_route::with_if(s, a, RouteReason::AtlasNotRequested);
    let a = request.atlas_intent == AtlasIntent::Require;
    lemma_with_if_contains(s, a, RouteReason::ExplicitAtlasRequest, reason);
    let s = context_route::with_if(s, a, RouteReason::ExplicitAtlasRequest);
    let a = map.lacks_at(Route::AtlasLight);
    lemma_with_if_contains(s, a, RouteReason::LightCapabilityRequired, reason);
    let s = context_route::with_if(s, a, RouteReason::LightCapabilityRequired);
    let a = map.lacks_at(Route::AtlasDeep);
    lemma_with_if_contains(s, a, RouteReason::DeepCapabilityRequired, reason);
    let s = context_route::with_if(s, a, RouteReason::DeepCapabilityRequired);
    let a = request.decided().initial_route != Route::Direct;
    lemma_with_if_contains(s, a, RouteReason::RouteFloorApplied, reason);
    let s = context_route::with_if(s, a, RouteReason::RouteFloorApplied);
    let a = request.starting_generation is Unavailable;
    lemma_with_if_contains(s, a, RouteReason::StartingGenerationUnavailable, reason);
    assert(holds(request.decided().reasons, reason) <==> request.decided().reasons.contains(reason))
        by {
        reveal(holds);
    }
}

} // verus!
