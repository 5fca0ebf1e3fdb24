//! How an execution goes on from what its routes answer.
use vstd::prelude::*;

use crate::context_dispatch;
use crate::context_dispatch::{
    DispatcherCall, Exchange, OutcomeView, RunView, StepView,
};
use crate::context_execution;
use crate::context_execution::{
    AttemptState, CapabilityDeficitReason, ContextExecution, ExecutionState,
    ExecutionView, PayloadView, RouteDeficit, TerminalReason,
};
use crate::context_metrics;
use crate::context_route;
use crate::context_route::{
    CallerCapabilityState, CapabilityMap, ContextRouteError, DecisionView, LightOperation,
    RequiredCapability, Route, MAX_EXECUTION_DIAGNOSTICS,
};
use crate::deep_outcome;
use crate::deep_outcome::CapabilityJudge;
use crate::deep_outcome_laws::lemma_sorted_capability;
use crate::light_outcome;
use crate::light_outcome::LightLookups;
use crate::light_outcome_json;
use crate::routing_laws::{deep_only, lacks, law_capabilities_have_their_least_route};
use crate::text;

verus! {

// ---------------------------------------------------------------------------
// After LIGHT
// ---------------------------------------------------------------------------

/// DEEP may make good what LIGHT reports as missing: anything that only DEEP can
/// deliver, unless it is not supported; anything left out for a budget; an identity
/// that is ambiguous; and relationships, impact or coverage in conflict.
pub open spec fn mendable(deficit: RouteDeficit) -> bool {
    match deficit {
        RouteDeficit::Route { .. } => false,
        RouteDeficit::Capability { capability, reason } => match capability {
            RequiredCapability::TemporalHistory => reason != CapabilityDeficitReason::Unsupported,
            RequiredCapability::RequiredRoleClosure => reason
                != CapabilityDeficitReason::Unsupported,
            RequiredCapability::ValidationPlan => reason != CapabilityDeficitReason::Unsupported,
            RequiredCapability::IdentityLookup => reason
                == CapabilityDeficitReason::SemanticBudgetOmitted || reason
                == CapabilityDeficitReason::Ambiguous,
            RequiredCapability::ExactSource => reason
                == CapabilityDeficitReason::SemanticBudgetOmitted,
            RequiredCapability::BoundedRelationships => reason
                == CapabilityDeficitReason::SemanticBudgetOmitted || reason
                == CapabilityDeficitReason::Conflicting,
            RequiredCapability::ImpactFrontier => reason
                == CapabilityDeficitReason::SemanticBudgetOmitted || reason
                == CapabilityDeficitReason::Conflicting,
            RequiredCapability::BasicCoverageConflicts => reason
                == CapabilityDeficitReason::SemanticBudgetOmitted || reason
                == CapabilityDeficitReason::Conflicting,
        },
    }
}

/// Every deficit of the list may be made good.
pub open spec fn all_mendable(deficits: Seq<RouteDeficit>) -> bool {
    deficits.len() > 0 && forall|i: int|
        0 <= i < deficits.len() ==> mendable(#[trigger] deficits[i])
}

proof fn lemma_mendable(deficits: Seq<RouteDeficit>)
    ensures
        context_dispatch::deficits_can_escalate(deficits) <==> all_mendable(deficits),
{
    assert forall|d: RouteDeficit| #[trigger] context_execution::deficit_can_escalate(d)
        <==> mendable(d) by {}
    if all_mendable(deficits) {
        assert forall|i: int| 0 <= i < deficits.len() implies
            context_execution::deficit_can_escalate(#[trigger] deficits[i]) by {
            assert(mendable(deficits[i]));
        }
    }
    if context_dispatch::deficits_can_escalate(deficits) {
        assert forall|i: int| 0 <= i < deficits.len() implies mendable(#[trigger] deficits[i]) by {
            assert(context_execution::deficit_can_escalate(deficits[i]));
        }
    }
}

/// The run that an execution with calls begins with.
proof fn lemma_begins<D, E: From<ContextRouteError>>(
    decision: DecisionView,
    calls: Seq<Exchange<D, E>>,
    r: Result<ContextExecution, E>,
) -> (elapsed: u64)
    requires
        context_dispatch::executes(decision, calls, r),
        calls.len() > 0,
    ensures
        ({
            let step = context_dispatch::begin_step(decision, elapsed);
            &&& elapsed >= 1
            &&& step is Continue
            &&& step->run.wf()
            &&& context_dispatch::may_stop(step->run)
            &&& step->run.decision == decision
            &&& decision.fault() is None
            &&& step->run.diagnostics.len() == 0
            &&& step->run.attempts.len() == 0 || (step->run.attempts.len() == 1
                && step->run.attempts[0].counters == context_metrics::zero_counters())
            &&& step->run.route == if decision.initial_route == Route::Direct {
                Route::AtlasLight
            } else {
                decision.initial_route
            }
            &&& context_dispatch::pursues(step->run, calls, r)
        }),
{
    let elapsed = choose|elapsed: u64|
        elapsed >= 1 && {
            let step = #[trigger] context_dispatch::begin_step(decision, elapsed);
            if step is Continue {
                context_dispatch::pursues(step->run, calls, r)
            } else {
                calls.len() == 0 && context_dispatch::ends_in(step, r)
            }
        };
    context_dispatch::lemma_begin_is_ready(decision, elapsed);
    context_dispatch::lemma_begin_may_stop(decision, elapsed);
    reveal(context_dispatch::begin_step);
    elapsed
}

/// What follows from a dispatch that was answered.
proof fn lemma_answered<D, E: From<ContextRouteError>>(
    run: RunView,
    calls: Seq<Exchange<D, E>>,
    r: Result<ContextExecution, E>,
) -> (spent: u64)
    requires
        run.wf(),
        context_dispatch::pursues(run, calls, r),
        calls.len() >= 2,
        calls[1].call.answer() is Ok,
    ensures
        ({
            let next = context_dispatch::outcome_effect(
                run,
                calls[1].call.answer()->Ok_0@,
                spent,
            );
            &&& spent >= 1
            &&& calls[1].call.serves(run)
            &&& next is Continue ==> context_dispatch::pursues(next->run, calls.skip(2), r)
            &&& next !is Continue ==> calls.len() == 2 && context_dispatch::ends_in(next, r)
        }),
{
    reveal(context_dispatch::pursues);
    reveal(context_dispatch::observe_outcome);
    let observed = calls[0].call->observed@;
    let waited = choose|waited: u64|
        waited >= 1 && {
            let step = #[trigger] context_dispatch::observe_outcome(run, observed, waited);
            if step is Continue {
                &&& calls.len() >= 2
                &&& calls[1].call.serves(step->run)
                &&& match calls[1].call.answer() {
                    Err(error) => calls.len() == 2 && r == Err::<ContextExecution, E>(error),
                    Ok(outcome) => exists|spent: u64|
                        spent >= 1 && {
                            let next = #[trigger] context_dispatch::outcome_effect(
                                step->run,
                                outcome@,
                                spent,
                            );
                            if next is Continue {
                                context_dispatch::pursues(next->run, calls.skip(2), r)
                            } else {
                                calls.len() == 2 && context_dispatch::ends_in(next, r)
                            }
                        },
                }
            } else {
                calls.len() == 1 && context_dispatch::ends_in(step, r)
            }
        };
    let outcome = calls[1].call.answer()->Ok_0@;
    choose|spent: u64|
        spent >= 1 && {
            let next = #[trigger] context_dispatch::outcome_effect(run, outcome, spent);
            if next is Continue {
                context_dispatch::pursues(next->run, calls.skip(2), r)
            } else {
                calls.len() == 2 && context_dispatch::ends_in(next, r)
            }
        }
}

/// A LIGHT answer that lacks something is followed by another observation exactly where
/// DEEP is allowed and can make good all that is missing; and where that observation
/// finds the generation unchanged, DEEP is dispatched.
pub proof fn law_what_deep_can_mend_goes_deep<D, E: From<ContextRouteError>>(
    decision: DecisionView,
    calls: Seq<Exchange<D, E>>,
    r: Result<ContextExecution, E>,
    deficits: Seq<RouteDeficit>,
)
    requires
        context_dispatch::executes(decision, calls, r),
        calls.len() >= 2,
        calls[1].call is DispatchLight,
        calls[1].call.answer() is Ok,
        calls[1].call.answer()->Ok_0@ is Deficient,
        calls[1].call.answer()->Ok_0@->Deficient_deficits == deficits,
        context_dispatch::outcome_acceptable(
            decision,
            Route::AtlasLight,
            calls[1].call.answer()->Ok_0@,
        ),
    ensures
        calls.len() > 2 <==> decision.effective_ceiling == Route::AtlasDeep && all_mendable(
            deficits,
        ),
        calls.len() > 2 ==> calls[2].call is ObserveGeneration,
        calls.len() > 2 && calls[2].call->observed@ == decision.starting_generation ==> calls.len()
            == 4 && calls[3].call is DispatchDeep,
{
    let elapsed = lemma_begins(decision, calls, r);
    let run = context_dispatch::begin_step(decision, elapsed)->run;
    let spent = lemma_answered(run, calls, r);
    let outcome = calls[1].call.answer()->Ok_0@;
    lemma_mendable(deficits);
    assert(run.route == Route::AtlasLight) by {
        reveal(DispatcherCall::serves);
    }
    let next = context_dispatch::outcome_effect(run, outcome, spent);
    assert(next is Continue <==> decision.effective_ceiling == Route::AtlasDeep && all_mendable(
        deficits,
    )) by {
        reveal(context_dispatch::outcome_effect);
    }
    context_dispatch::law_calls_are_confirmed_and_bounded(decision, calls, r);
    if next is Continue {
        context_dispatch::lemma_outcome_keeps_decision(run, outcome, spent);
        let waited = context_dispatch::lemma_round(next->run, calls.skip(2), r);
        assert(calls.skip(2)[0] == calls[2]);
        assert(decision.starting_generation is Observed) by {
            assert(context_dispatch::confirmed(decision, calls[0], calls[1]));
        }
    }
}

/// An execution whose LIGHT route lacks only history, role closure or a validation plan,
/// none of it for want of support, goes on to DEEP wherever DEEP is allowed and the
/// generation stands.
pub proof fn law_deep_only_deficits_go_deep<D, E: From<ContextRouteError>>(
    decision: DecisionView,
    calls: Seq<Exchange<D, E>>,
    r: Result<ContextExecution, E>,
    deficits: Seq<RouteDeficit>,
)
    requires
        context_dispatch::executes(decision, calls, r),
        decision.effective_ceiling == Route::AtlasDeep,
        calls.len() >= 2,
        calls[1].call is DispatchLight,
        calls[1].call.answer() is Ok,
        calls[1].call.answer()->Ok_0@ is Deficient,
        calls[1].call.answer()->Ok_0@->Deficient_deficits == deficits,
        context_dispatch::outcome_acceptable(
            decision,
            Route::AtlasLight,
            calls[1].call.answer()->Ok_0@,
        ),
        deficits.len() > 0,
        forall|i: int|
            0 <= i < deficits.len() ==> ((#[trigger] deficits[i]) matches RouteDeficit::Capability {
                capability,
                reason,
            } && (capability == RequiredCapability::TemporalHistory || capability
                == RequiredCapability::RequiredRoleClosure || capability
                == RequiredCapability::ValidationPlan) && reason
                != CapabilityDeficitReason::Unsupported),
    ensures
        calls.len() >= 3,
        calls[2].call is ObserveGeneration,
        calls[2].call->observed@ == decision.starting_generation ==> calls.len() == 4
            && calls[3].call is DispatchDeep,
{
    assert forall|i: int| 0 <= i < deficits.len() implies mendable(#[trigger] deficits[i]) by {}
    law_what_deep_can_mend_goes_deep(decision, calls, r, deficits);
}

/// A route that answers with everything ends the execution: it is completed on that
/// route with that payload, its own diagnostics behind the earlier ones, and no further
/// call is made.
pub proof fn law_complete_answers_end_the_execution<D, E: From<ContextRouteError>>(
    decision: DecisionView,
    calls: Seq<Exchange<D, E>>,
    r: Result<ContextExecution, E>,
    i: int,
)
    requires
        context_dispatch::executes(decision, calls, r),
        i == 1 || i == 3,
        i < calls.len(),
        calls[i].call.answer() is Ok,
        calls[i].call.answer()->Ok_0@ is Completed,
    ensures
        i == calls.len() - 1,
        r is Ok ==> {
            let e = r->Ok_0@;
            let o = calls[i].call.answer()->Ok_0@;
            &&& e.state == ExecutionState::Completed
            &&& e.final_route == Some(
                if calls[i].call is DispatchDeep {
                    Route::AtlasDeep
                } else {
                    Route::AtlasLight
                },
            )
            &&& e.payload == Some(o->Completed_payload)
            &&& e.materialization == o->Completed_materialization
            &&& e.deficits.len() == 0
            &&& e.attempts.len() > 0
            &&& e.attempts.last().state == AttemptState::Completed
            &&& e.attempts.last().counters == o->Completed_counters
        },
{
    context_dispatch::law_calls_are_confirmed_and_bounded(decision, calls, r);
    reveal(context_dispatch::outcome_effect);
    reveal(DispatcherCall::serves);
    let elapsed = lemma_begins(decision, calls, r);
    let run = context_dispatch::begin_step(decision, elapsed)->run;
    if i == 1 {
        let spent = lemma_answered(run, calls, r);
        let attempts = run.attempts.push(
            context_dispatch::attempt_numbered(
                run.attempts.len() + 1,
                run.route,
                AttemptState::Completed,
                Seq::empty(),
                calls[1].call.answer()->Ok_0@->Completed_counters,
                spent,
            ),
        );
        assert(attempts.last().route == run.route);
    } else {
        let waited = context_dispatch::lemma_round(run, calls, r);
        let first = calls[1].call.answer()->Ok_0@;
        let spent = choose|spent: u64|
            spent >= 1 && {
                let next = #[trigger] context_dispatch::outcome_effect(run, first, spent);
                &&& next is Continue
                &&& next->run.wf()
                &&& next->run.decision == run.decision
                &&& next->run.route == Route::AtlasDeep
                &&& context_dispatch::pursues(next->run, calls.skip(2), r)
            };
        let next = context_dispatch::outcome_effect(run, first, spent)->run;
        assert(calls.skip(2)[1] == calls[3]);
        let later = lemma_answered(next, calls.skip(2), r);
        let attempts = next.attempts.push(
            context_dispatch::attempt_numbered(
                next.attempts.len() + 1,
                next.route,
                AttemptState::Completed,
                Seq::empty(),
                calls[3].call.answer()->Ok_0@->Completed_counters,
                later,
            ),
        );
        assert(attempts.last().route == next.route);
    }
}

/// A LIGHT answer that lacks something and does not go DEEP ends the execution there:
/// partial where it hands on a payload and satisfies something, blocked otherwise, with
/// the deficits that LIGHT reported, and because the ceiling is reached or else because
/// a capability is stale, unavailable or not supported.
pub proof fn law_deficient_answers_are_reported<D, E: From<ContextRouteError>>(
    decision: DecisionView,
    calls: Seq<Exchange<D, E>>,
    r: Result<ContextExecution, E>,
)
    requires
        context_dispatch::executes(decision, calls, r),
        calls.len() == 2,
        calls[1].call is DispatchLight,
        calls[1].call.answer() is Ok,
        calls[1].call.answer()->Ok_0@ is Deficient,
        r is Ok,
    ensures
        ({
            let e = r->Ok_0@;
            let o = calls[1].call.answer()->Ok_0@;
            let payload = o->Deficient_payload;
            let satisfied = o->Deficient_satisfied;
            let deficits = o->Deficient_deficits;
            let useful = payload is Some && payload->0 != PayloadView::DirectNone
                && satisfied.len() > 0;
            &&& e.state == (if useful {
                ExecutionState::Partial
            } else {
                ExecutionState::Blocked
            })
            &&& e.final_route == Some(Route::AtlasLight)
            &&& e.deficits == deficits
            &&& e.satisfied == satisfied
            &&& useful ==> e.payload == payload && e.materialization
                == o->Deficient_materialization
            &&& !useful ==> e.payload is None && e.materialization is None
            &&& decision.effective_ceiling == Route::AtlasLight ==> e.terminal_reason == Some(
                TerminalReason::RouteCeilingReached,
            )
            &&& decision.effective_ceiling != Route::AtlasLight && (exists|k: int|
                0 <= k < deficits.len() && ((#[trigger] deficits[k]) matches
                    RouteDeficit::Capability { reason, .. } && (reason
                    == CapabilityDeficitReason::Unavailable || reason
                    == CapabilityDeficitReason::Stale || reason
                    == CapabilityDeficitReason::Unsupported))) ==> e.terminal_reason == Some(
                TerminalReason::CapabilityUnavailable,
            )
        }),
{
    reveal(context_dispatch::outcome_effect);
    reveal(DispatcherCall::serves);
    let elapsed = lemma_begins(decision, calls, r);
    let run = context_dispatch::begin_step(decision, elapsed)->run;
    let spent = lemma_answered(run, calls, r);
    let next = context_dispatch::outcome_effect(run, calls[1].call.answer()->Ok_0@, spent);
    assert(run.route == Route::AtlasLight);
    if next is Continue {
        context_dispatch::lemma_outcome_keeps_decision(
            run,
            calls[1].call.answer()->Ok_0@,
            spent,
        );
        let waited = context_dispatch::lemma_round(next->run, calls.skip(2), r);
        assert(false);
    }
    let deficits = calls[1].call.answer()->Ok_0@->Deficient_deficits;
    if exists|k: int|
        0 <= k < deficits.len() && ((#[trigger] deficits[k]) matches RouteDeficit::Capability {
            reason,
            ..
        } && (reason == CapabilityDeficitReason::Unavailable || reason
            == CapabilityDeficitReason::Stale || reason == CapabilityDeficitReason::Unsupported)) {
        let k = choose|k: int|
            0 <= k < deficits.len() && ((#[trigger] deficits[k]) matches RouteDeficit::Capability {
                reason,
                ..
            } && (reason == CapabilityDeficitReason::Unavailable || reason
                == CapabilityDeficitReason::Stale || reason
                == CapabilityDeficitReason::Unsupported));
        assert(context_execution::has_terminal_deficit(deficits));
    }
}

// ---------------------------------------------------------------------------
// What the routes answer is accepted
// ---------------------------------------------------------------------------

proof fn lemma_lists_in_order<J: CapabilityJudge>(map: CapabilityMap, judge: &J, n: nat)
    requires
        n <= 8,
    ensures
        ({
            let listed = map.listed_upto(n);
            let met = deep_outcome::met(listed, judge);
            let unmet = deep_outcome::unmet(listed, judge);
            &&& forall|i: int| 0 <= i < met.len() ==> (#[trigger] met[i]).spec_rank() < n
            &&& forall|i: int, j: int|
                0 <= i < j < met.len() ==> (#[trigger] met[i]).spec_rank() < (
                #[trigger] met[j]).spec_rank()
            &&& forall|i: int|
                0 <= i < unmet.len() ==> (#[trigger] unmet[i]) is Capability
                    && unmet[i]->capability.spec_rank() < n
            &&& forall|i: int, j: int|
                0 <= i < j < unmet.len() ==> (#[trigger] unmet[i])->capability.spec_rank() < (
                #[trigger] unmet[j])->capability.spec_rank()
            &&& context_execution::capability_deficit_count(unmet) == unmet.len()
            &&& met.len() + unmet.len() == listed.len()
        }),
    decreases n,
{
    if n > 0 {
        let m = (n - 1) as nat;
        lemma_lists_in_order(map, judge, m);
        let listed = map.listed_upto(n);
        let before = map.listed_upto(m);
        let c = context_route::spec_capability_at(n - 1);
        assert(c.spec_rank() == n - 1);
        if map.state(c) is Some {
            assert(listed.drop_last() =~= before);
            let unmet = deep_outcome::unmet(listed, judge);
            let earlier = deep_outcome::unmet(before, judge);
            if unmet.len() > earlier.len() {
                assert(unmet.drop_last() =~= earlier);
            }
        }
    }
}

/// Capabilities sorted by what a route has of them account for the request, where the
/// route has only what it can have.
proof fn lemma_accounts<J: CapabilityJudge>(map: CapabilityMap, judge: &J, route: Route)
    requires
        route != Route::Direct,
        route == Route::AtlasLight ==> forall|c: RequiredCapability| #[trigger]
            lacks(map, c) && deep_only(c) ==> judge.verdict(c) is Some,
    ensures
        context_execution::accounts_for(
            map,
            deep_outcome::met(map.listed(), judge),
            deep_outcome::unmet(map.listed(), judge),
            Some(route),
            false,
            true,
        ),
        context_execution::deficits_ordered(deep_outcome::unmet(map.listed(), judge)),
        !context_execution::has_route_deficit(deep_outcome::unmet(map.listed(), judge)),
{
    reveal(context_execution::accounts_for);
    let met = deep_outcome::met(map.listed(), judge);
    let unmet = deep_outcome::unmet(map.listed(), judge);
    lemma_lists_in_order(map, judge, 8);
    assert forall|i: int, j: int| 0 <= i < j < met.len() implies #[trigger] met[i]
        != #[trigger] met[j] by {
        assert(met[i].spec_rank() < met[j].spec_rank());
    }
    assert forall|i: int| 0 <= i < met.len() implies context_execution::satisfiable(
        map,
        #[trigger] met[i],
        Some(route),
    ) by {
        let c = met[i];
        assert(met.contains(c));
        lemma_sorted_capability(map, judge, c, CapabilityDeficitReason::Conflicting);
        law_capabilities_have_their_least_route(c);
        if map.state(c) != Some(CallerCapabilityState::Satisfied) {
            match map.state(c)->0 {
                CallerCapabilityState::Satisfied => {},
                CallerCapabilityState::Unsatisfied => {
                    assert(lacks(map, c));
                },
                CallerCapabilityState::Unknown => {
                    assert(lacks(map, c));
                },
            }
        }
    }
    assert forall|i: int| 0 <= i < unmet.len() && #[trigger] unmet[i] is Capability implies {
        &&& map.state(unmet[i]->capability) is Some
        &&& !met.contains(unmet[i]->capability)
    } by {
        let c = unmet[i]->capability;
        let reason = unmet[i]->Capability_reason;
        assert(unmet[i] == (RouteDeficit::Capability { capability: c, reason }));
        assert(unmet.contains(unmet[i]));
        lemma_sorted_capability(map, judge, c, reason);
    }
    assert forall|i: int, j: int|
        0 <= i < j < unmet.len() && #[trigger] unmet[i] is Capability
            && #[trigger] unmet[j] is Capability implies unmet[i]->capability
        != unmet[j]->capability by {
        assert(unmet[i]->capability.spec_rank() < unmet[j]->capability.spec_rank());
    }
    assert forall|i: int, j: int| 0 <= i < j < unmet.len() implies (#[trigger] unmet[i]).spec_order()
        < (#[trigger] unmet[j]).spec_order() by {
        assert(unmet[i] is Capability && unmet[j] is Capability);
        assert(unmet[i]->capability.spec_rank() < unmet[j]->capability.spec_rank());
        assert(unmet[i]->Capability_reason.spec_rank() < 8);
    }
}

/// What a light attempt hands on is a valid bundle.
proof fn lemma_light_payload(e: light_outcome::LightEvidence)
    requires
        e.query_version == light_outcome::pinned_version(
            context_route::pinned_operations(),
            LightOperation::Query,
            0,
        ),
        e.source_version == light_outcome::pinned_version(
            context_route::pinned_operations(),
            LightOperation::SourceReference,
            0,
        ),
        text::hex64(
            light_outcome_json::query_digest(
                light_outcome_json::projected_results(e.projections),
            ),
        ),
        text::hex64(light_outcome_json::source_digest(e.references)),
        light_outcome::light_payload(e.results()) is Some,
    ensures
        light_outcome::light_payload(e.results())->0.valid(),
        light_outcome::light_payload(e.results())->0.route() == Route::AtlasLight,
{
    let pinned = context_route::pinned_operations();
    assert(light_outcome::pinned_version(pinned, LightOperation::Query, 0) == Some(
        LightOperation::Query.spec_version(),
    ));
    assert(light_outcome::pinned_version(pinned, LightOperation::SourceReference, 1) == Some(
        LightOperation::SourceReference.spec_version(),
    ));
    assert(light_outcome::pinned_version(pinned, LightOperation::SourceReference, 0) == Some(
        LightOperation::SourceReference.spec_version(),
    ));
    let results = e.results();
    assert forall|i: int| 0 <= i < results.len() implies (#[trigger] results[i]).valid() by {}
}

/// What LIGHT answers is accepted: whatever was looked up, an attempt that stays within
/// the counters of an execution fits the request and its route.
pub proof fn law_light_answers_are_accepted(
    decision: DecisionView,
    path_targets: int,
    symbol_targets: int,
    lookups: LightLookups,
)
    requires
        decision.fault() is None,
        ({
            let e = light_outcome::light_evidence(
                decision.requested_capabilities,
                decision.request.light_operations,
                path_targets,
                symbol_targets,
                lookups,
            );
            let o = light_outcome::light_route_view(
                decision.requested_capabilities,
                decision.request.light_operations,
                path_targets,
                symbol_targets,
                lookups,
            );
            &&& e.counters().within_bounds()
            &&& text::hex64(
                light_outcome_json::query_digest(
                    light_outcome_json::projected_results(e.projections),
                ),
            )
            &&& text::hex64(light_outcome_json::source_digest(e.references))
            &&& o is Completed ==> light_outcome::light_payload(e.results()) is Some
        }),
    ensures
        context_dispatch::outcome_acceptable(
            decision,
            Route::AtlasLight,
            light_outcome::light_route_view(
                decision.requested_capabilities,
                decision.request.light_operations,
                path_targets,
                symbol_targets,
                lookups,
            ),
        ),
{
    let map = decision.requested_capabilities;
    let e = light_outcome::light_evidence(
        map,
        decision.request.light_operations,
        path_targets,
        symbol_targets,
        lookups,
    );
    assert(decision.request.light_operations == context_route::pinned_operations()) by {
        reveal(DecisionView::fault);
    }
    let found = e.findings();
    assert forall|c: RequiredCapability| #[trigger] lacks(map, c) && deep_only(c) implies
        found.verdict(c) is Some by {}
    lemma_accounts(map, &found, Route::AtlasLight);
    if light_outcome::light_payload(e.results()) is Some {
        lemma_light_payload(e);
    }
    reveal(context_dispatch::deficient_acceptable);
}

/// Where LIGHT delivers everything but history, role closure or a validation plan, and
/// DEEP is allowed, the execution goes on to DEEP as long as the generation stands.
pub proof fn law_light_hands_over_to_deep<D, E: From<ContextRouteError>>(
    decision: DecisionView,
    calls: Seq<Exchange<D, E>>,
    r: Result<ContextExecution, E>,
    path_targets: int,
    symbol_targets: int,
    lookups: LightLookups,
)
    requires
        context_dispatch::executes(decision, calls, r),
        decision.effective_ceiling == Route::AtlasDeep,
        calls.len() >= 2,
        calls[1].call is DispatchLight,
        calls[1].call.answer() is Ok,
        ({
            let e = light_outcome::light_evidence(
                decision.requested_capabilities,
                decision.request.light_operations,
                path_targets,
                symbol_targets,
                lookups,
            );
            let o = light_outcome::light_route_view(
                decision.requested_capabilities,
                decision.request.light_operations,
                path_targets,
                symbol_targets,
                lookups,
            );
            &&& calls[1].call.answer()->Ok_0@ == o
            &&& e.counters().within_bounds()
            &&& text::hex64(
                light_outcome_json::query_digest(
                    light_outcome_json::projected_results(e.projections),
                ),
            )
            &&& text::hex64(light_outcome_json::source_digest(e.references))
            &&& exists|c: RequiredCapability| #[trigger]
                lacks(decision.requested_capabilities, c) && deep_only(c)
            &&& forall|c: RequiredCapability| #[trigger]
                lacks(decision.requested_capabilities, c) && !deep_only(c)
                    ==> crate::deep_outcome_laws::delivers(o, c)
        }),
    ensures
        calls.len() >= 3,
        calls[2].call is ObserveGeneration,
        calls[2].call->observed@ == decision.starting_generation ==> calls.len() == 4
            && calls[3].call is DispatchDeep,
{
    let map = decision.requested_capabilities;
    let e = light_outcome::light_evidence(
        map,
        decision.request.light_operations,
        path_targets,
        symbol_targets,
        lookups,
    );
    let o = light_outcome::light_route_view(
        map,
        decision.request.light_operations,
        path_targets,
        symbol_targets,
        lookups,
    );
    let found = e.findings();
    let elapsed = lemma_begins(decision, calls, r);
    let c = choose|c: RequiredCapability| #[trigger] lacks(map, c) && deep_only(c);
    lemma_sorted_capability(map, &found, c, CapabilityDeficitReason::Unavailable);
    assert(found.verdict(c) == Some(CapabilityDeficitReason::Unavailable));
    let deficits = deep_outcome::unmet(map.listed(), &found);
    assert(deficits.len() > 0);
    assert(o is Deficient);
    law_light_answers_are_accepted(decision, path_targets, symbol_targets, lookups);
    lemma_lists_in_order(map, &found, 8);
    assert forall|i: int| 0 <= i < deficits.len() implies mendable(#[trigger] deficits[i]) by {
        let d = deficits[i]->capability;
        let reason = deficits[i]->Capability_reason;
        assert(deficits[i] == (RouteDeficit::Capability { capability: d, reason }));
        assert(deficits.contains(deficits[i]));
        lemma_sorted_capability(map, &found, d, reason);
        if !deep_only(d) {
            assert(crate::deep_outcome_laws::delivers(o, d));
        }
    }
    law_what_deep_can_mend_goes_deep(decision, calls, r, deficits);
}

/// A deep answer about a document fits the request and its route wherever it is within
/// the counters of an execution and what it hands on is valid.
pub proof fn law_deep_answers_are_accepted(
    decision: DecisionView,
    document: crate::deep_context_ir::DeepContextIrV2,
    payload: PayloadView,
    materialization: Option<context_execution::MaterializationView>,
)
    requires
        payload.valid(),
        payload.route() == Route::AtlasDeep,
        deep_outcome::deep_counters(document).within_bounds(),
        context_execution::materialization_allowed(materialization, Some(payload)),
    ensures
        context_dispatch::outcome_acceptable(
            decision,
            Route::AtlasDeep,
            deep_outcome::deep_route_view(
                decision.requested_capabilities,
                document,
                payload,
                materialization,
            ),
        ),
{
    lemma_accounts(decision.requested_capabilities, &document, Route::AtlasDeep);
    reveal(context_dispatch::deficient_acceptable);
}

// ---------------------------------------------------------------------------
// What an execution comes to
// ---------------------------------------------------------------------------

/// An execution that DEEP completes after LIGHT left open what the caller lacks is
/// completed, on DEEP, with the payload of DEEP, as long as what both counted and noted
/// stays within the bounds of an execution.
pub proof fn law_deep_completes_what_light_left_open<D, E: From<ContextRouteError>>(
    decision: DecisionView,
    calls: Seq<Exchange<D, E>>,
    r: Result<ContextExecution, E>,
)
    requires
        context_dispatch::executes(decision, calls, r),
        calls.len() == 4,
        calls[1].call.answer() is Ok,
        calls[1].call.answer()->Ok_0@ is Deficient,
        forall|k: int|
            0 <= k < calls[1].call.answer()->Ok_0@->Deficient_deficits.len()
                ==> context_execution::deficit_is_open(
                decision.requested_capabilities,
                #[trigger] calls[1].call.answer()->Ok_0@->Deficient_deficits[k],
            ),
        calls[3].call.answer() is Ok,
        calls[3].call.answer()->Ok_0@ is Completed,
        context_dispatch::outcome_acceptable(
            decision,
            Route::AtlasDeep,
            calls[3].call.answer()->Ok_0@,
        ),
        ({
            let a = calls[1].call.answer()->Ok_0@->Deficient_counters;
            let b = calls[3].call.answer()->Ok_0@->Completed_counters;
            &&& a.atlas_calls + b.atlas_calls <= context_metrics::MAX_CONTEXT_EXECUTION_ATLAS_CALLS
            &&& a.records + b.records <= context_metrics::MAX_CONTEXT_EXECUTION_RECORDS
            &&& a.source_bytes + b.source_bytes
                <= context_metrics::MAX_CONTEXT_EXECUTION_SOURCE_BYTES
            &&& a.estimated_tokens + b.estimated_tokens
                <= context_metrics::MAX_CONTEXT_EXECUTION_ESTIMATED_TOKENS
            &&& a.work_units + b.work_units <= context_metrics::MAX_CONTEXT_EXECUTION_WORK_UNITS
        }),
        calls[1].call.answer()->Ok_0@->Deficient_diagnostics.len()
            + calls[3].call.answer()->Ok_0@->Completed_diagnostics.len()
            <= MAX_EXECUTION_DIAGNOSTICS,
    ensures
        r is Ok,
        r->Ok_0@.state == ExecutionState::Completed,
        r->Ok_0@.final_route == Some(Route::AtlasDeep),
        r->Ok_0@.payload == Some(calls[3].call.answer()->Ok_0@->Completed_payload),
{
    context_dispatch::law_calls_are_confirmed_and_bounded(decision, calls, r);
    law_complete_answers_end_the_execution(decision, calls, r, 3);
    let elapsed = lemma_begins(decision, calls, r);
    let run = context_dispatch::begin_step(decision, elapsed)->run;
    let first = calls[1].call.answer()->Ok_0@;
    let second = calls[3].call.answer()->Ok_0@;
    let waited = context_dispatch::lemma_round(run, calls, r);
    let spent = choose|spent: u64|
        spent >= 1 && {
            let next = #[trigger] context_dispatch::outcome_effect(run, first, spent);
            &&& next is Continue
            &&& next->run.wf()
            &&& next->run.decision == run.decision
            &&& next->run.route == Route::AtlasDeep
            &&& context_dispatch::pursues(next->run, calls.skip(2), r)
        };
    let next = context_dispatch::outcome_effect(run, first, spent)->run;
    context_dispatch::lemma_outcome_may_stop(run, first, spent);
    assert(calls.skip(2)[1] == calls[3]);
    let later = lemma_answered(next, calls.skip(2), r);
    lemma_completion_is_valid(run, first, spent, next, second, later);
}

proof fn lemma_completion_is_valid(
    run: RunView,
    first: OutcomeView,
    spent: u64,
    next: RunView,
    second: OutcomeView,
    later: u64,
)
    requires
        context_dispatch::outcome_effect(run, first, spent) == (StepView::Continue { run: next }),
        first is Deficient,
        second is Completed,
        context_dispatch::may_stop(next),
        next.route == Route::AtlasDeep,
        run.diagnostics.len() == 0,
        run.attempts.len() == 0 || (run.attempts.len() == 1 && run.attempts[0].counters
            == context_metrics::zero_counters()),
        context_dispatch::outcome_acceptable(next.decision, Route::AtlasDeep, second),
        ({
            let a = first->Deficient_counters;
            let b = second->Completed_counters;
            &&& a.atlas_calls + b.atlas_calls <= context_metrics::MAX_CONTEXT_EXECUTION_ATLAS_CALLS
            &&& a.records + b.records <= context_metrics::MAX_CONTEXT_EXECUTION_RECORDS
            &&& a.source_bytes + b.source_bytes
                <= context_metrics::MAX_CONTEXT_EXECUTION_SOURCE_BYTES
            &&& a.estimated_tokens + b.estimated_tokens
                <= context_metrics::MAX_CONTEXT_EXECUTION_ESTIMATED_TOKENS
            &&& a.work_units + b.work_units <= context_metrics::MAX_CONTEXT_EXECUTION_WORK_UNITS
        }),
        first->Deficient_diagnostics.len() + second->Completed_diagnostics.len()
            <= MAX_EXECUTION_DIAGNOSTICS,
    ensures
        ({
            let step = context_dispatch::outcome_effect(next, second, later);
            step is Finish && step->execution.fault() is None
        }),
{
    reveal(context_dispatch::outcome_effect);
    reveal(ExecutionView::fault);
    let decision = next.decision;
    let attempt = context_dispatch::attempt_numbered(
        next.attempts.len() + 1,
        next.route,
        AttemptState::Completed,
        Seq::empty(),
        second->Completed_counters,
        later,
    );
    let attempts = next.attempts.push(attempt);
    let light = next.attempts.last();
    assert(next.attempts.drop_last() =~= run.attempts);
    assert(light.counters == first->Deficient_counters);
    assert(attempts.drop_last() =~= next.attempts);
    assert(attempts.last() == attempt);
    if run.attempts.len() == 1 {
        assert(run.attempts.drop_last() =~= Seq::empty());
        assert(run.attempts.last() == run.attempts[0]);
    }
    assert(({
        let sum = context_execution::counter_sum(attempts);
        let a = first->Deficient_counters;
        let b = second->Completed_counters;
        &&& sum.atlas_calls == a.atlas_calls + b.atlas_calls
        &&& sum.records == a.records + b.records
        &&& sum.source_bytes == a.source_bytes + b.source_bytes
        &&& sum.estimated_tokens == a.estimated_tokens + b.estimated_tokens
        &&& sum.work_units == a.work_units + b.work_units
    })) by {
        reveal_with_fuel(context_execution::counter_sum, 4);
    }
    context_dispatch::lemma_attempt_id(next.attempts.len() + 1);
    assert(attempt.valid());
    assert(context_execution::attempt_within(attempt, decision));
    assert forall|i: int, j: int|
        0 <= i && j == i + 1 && j < attempts.len() implies context_execution::transition_allowed(
        #[trigger] attempts[i],
        #[trigger] attempts[j],
        decision.requested_capabilities,
    ) by {
        if j < next.attempts.len() {
            assert(attempts[i] == next.attempts[i] && attempts[j] == next.attempts[j]);
        } else {
            assert(attempts[i] == next.attempts.last());
        }
    }
    assert(context_execution::progression_valid(attempts, decision));
    let e = context_dispatch::outcome_effect(next, second, later)->execution;
    assert(e.common_valid());
    assert(context_execution::route_supplies(decision.requested_capabilities, Route::AtlasDeep));
    assert(e.completed_valid());
}

/// A route that is interrupted ends the execution: interrupted for that reason, with the
/// attempts before it and nothing counted for it.
pub proof fn law_interruptions_keep_what_was_done<D, E: From<ContextRouteError>>(
    decision: DecisionView,
    calls: Seq<Exchange<D, E>>,
    r: Result<ContextExecution, E>,
)
    requires
        context_dispatch::executes(decision, calls, r),
        calls.len() >= 2,
        calls[1].call.answer() is Ok,
        calls[1].call.answer()->Ok_0@ is Interrupted,
    ensures
        calls.len() == 2,
        r is Ok ==> {
            let e = r->Ok_0@;
            &&& e.state == ExecutionState::Interrupted
            &&& e.interruption_reason == Some(calls[1].call.answer()->Ok_0@->Interrupted_reason)
            &&& e.payload is None
            &&& e.satisfied == context_dispatch::caller_held(decision.requested_capabilities)
            &&& e.attempts.len() == (if decision.initial_route == Route::Direct {
                1int
            } else {
                0
            })
        },
{
    reveal(context_dispatch::outcome_effect);
    let elapsed = lemma_begins(decision, calls, r);
    let run = context_dispatch::begin_step(decision, elapsed)->run;
    let spent = lemma_answered(run, calls, r);
    reveal(context_dispatch::begin_step);
}

/// What a caller has of a request is exactly what it marked as satisfied, and what it
/// lacks is reported as unavailable.
pub proof fn law_callers_are_taken_at_their_word(map: CapabilityMap, c: RequiredCapability)
    ensures
        context_dispatch::caller_held(map).contains(c) <==> map.state(c) == Some(
            CallerCapabilityState::Satisfied,
        ),
        context_dispatch::caller_missing(map).contains(
            RouteDeficit::Capability {
                capability: c,
                reason: CapabilityDeficitReason::Unavailable,
            },
        ) <==> lacks(map, c),
        context_dispatch::caller_missing(map).len() == 0 <==> forall|d: RequiredCapability|
            !#[trigger] lacks(map, d),
{
    lemma_held(map, 8, c);
    assert(c.spec_rank() < 8);
    let missing = context_dispatch::caller_missing(map);
    context_dispatch::lemma_caller_split(map, 8);
    if missing.len() > 0 {
        let d = missing[0]->capability;
        let state = map.state(d);
        assert(state is Some && state != Some(CallerCapabilityState::Satisfied));
        match state->0 {
            CallerCapabilityState::Satisfied => {},
            CallerCapabilityState::Unsatisfied => {},
            CallerCapabilityState::Unknown => {},
        }
        assert(lacks(map, d));
    } else {
        assert forall|d: RequiredCapability| !#[trigger] lacks(map, d) by {
            assert(d.spec_rank() < 8);
            assert(map.state(d) is Some ==> map.state(d) == Some(
                CallerCapabilityState::Satisfied,
            ));
        }
    }
}

proof fn lemma_held(map: CapabilityMap, n: nat, c: RequiredCapability)
    requires
        n <= 8,
    ensures
        context_dispatch::held_upto(map, n).contains(c) <==> c.spec_rank() < n && map.state(c)
            == Some(CallerCapabilityState::Satisfied),
        context_dispatch::missing_upto(map, n).contains(
            RouteDeficit::Capability {
                capability: c,
                reason: CapabilityDeficitReason::Unavailable,
            },
        ) <==> c.spec_rank() < n && lacks(map, c),
    decreases n,
{
    if n > 0 {
        let m = (n - 1) as nat;
        lemma_held(map, m, c);
        let d = context_route::spec_capability_at(n - 1);
        assert(d.spec_rank() == n - 1);
        if c.spec_rank() == n - 1 {
            assert(c == d);
        }
        let deficit = RouteDeficit::Capability {
            capability: d,
            reason: CapabilityDeficitReason::Unavailable,
        };
        let mine = RouteDeficit::Capability {
            capability: c,
            reason: CapabilityDeficitReason::Unavailable,
        };
        let h = context_dispatch::held_upto(map, m);
        let u = context_dispatch::missing_upto(map, m);
        lemma_pushed(h, d, c);
        lemma_pushed(u, deficit, mine);
        if let Some(state) = map.state(d) {
            match state {
                CallerCapabilityState::Satisfied => {},
                CallerCapabilityState::Unsatisfied => {},
                CallerCapabilityState::Unknown => {},
            }
        }
    }
}

proof fn lemma_pushed<T>(acc: Seq<T>, x: T, y: T)
    ensures
        acc.push(x).contains(y) <==> acc.contains(y) || x == y,
{
    let all = acc.push(x);
    assert(all[acc.len() as int] == x);
    if acc.contains(y) {
        let i = choose|i: int| 0 <= i < acc.len() && acc[i] == y;
        assert(all[i] == y);
    }
    if all.contains(y) {
        let i = choose|i: int| 0 <= i < all.len() && all[i] == y;
        if i < acc.len() {
            assert(acc[i] == y);
        }
    }
}

/// A decision settles without the Atlas exactly where the caller has all that DIRECT
/// asks for, where the starting generation cannot be had, or where DIRECT is the
/// ceiling.
pub proof fn law_when_the_atlas_is_not_asked(decision: DecisionView)
    requires
        decision.fault() is None,
    ensures
        ({
            let sufficient = forall|c: RequiredCapability|
                !#[trigger] lacks(decision.requested_capabilities, c);
            context_dispatch::settles_alone(decision) <==> {
                ||| decision.initial_route == Route::Direct && sufficient
                ||| decision.starting_generation is Unavailable
                ||| decision.initial_route == Route::Direct && decision.effective_ceiling
                    == Route::Direct
            }
        }),
{
    reveal(context_dispatch::begin_step);
    law_callers_are_taken_at_their_word(
        decision.requested_capabilities,
        RequiredCapability::IdentityLookup,
    );
}

} // verus!
