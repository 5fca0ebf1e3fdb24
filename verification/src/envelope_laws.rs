//! What an accepted execution says of the run that it reports.
use vstd::prelude::*;

use crate::context_dispatch;
use crate::context_execution;
use crate::context_execution::{
    AttemptState, AttemptView, CapabilityDeficitReason, ExecutionState, ExecutionView, PayloadView,
    RouteDeficit, RouteFailureReason, SourceView, TerminalReason,
};
use crate::context_route::{
    CallerCapabilityState, CapabilityMap, GenerationUnavailableReason, GenerationView,
    RequiredCapability, Route,
};
use crate::text;

verus! {

/// The caller asked for the capability and does not have it.
pub open spec fn asked_for(map: CapabilityMap, c: RequiredCapability) -> bool {
    map.state(c) == Some(CallerCapabilityState::Unsatisfied) || map.state(c) == Some(
        CallerCapabilityState::Unknown,
    )
}

/// A completed execution hands over the payload of its final route, its last attempt
/// completed there, and that route offers whatever the caller asked for.
pub proof fn law_completed_executions_deliver(e: ExecutionView, c: RequiredCapability)
    requires
        e.fault() is None,
        e.state == ExecutionState::Completed,
    ensures
        e.attempts.len() > 0,
        e.attempts.last().state == AttemptState::Completed,
        e.attempts.last().deficits.len() == 0,
        e.final_route == Some(e.attempts.last().route),
        e.payload is Some,
        e.payload is Some && e.payload->0 is DirectNone <==> e.final_route == Some(Route::Direct),
        e.payload is Some && e.payload->0 is LightBundle <==> e.final_route == Some(
            Route::AtlasLight,
        ),
        e.payload is Some && e.payload->0 is DeepContextIr <==> e.final_route == Some(
            Route::AtlasDeep,
        ),
        asked_for(e.decision.requested_capabilities, c) ==> e.final_route != Some(Route::Direct),
        asked_for(e.decision.requested_capabilities, c) && c.spec_minimum_route()
            == Route::AtlasDeep ==> e.final_route == Some(Route::AtlasDeep),
{
    reveal(ExecutionView::fault);
    let map = e.decision.requested_capabilities;
    assert(e.attempts[e.attempts.len() - 1].valid());
    if asked_for(map, c) {
        assert(map.state(c) is Some);
        assert(context_execution::route_supplies(map, e.final_route->0));
    }
}

/// A partial execution hands over evidence from the Atlas, reports the deficits of its
/// last attempt, and names for each requested capability whether it was delivered.
pub proof fn law_partial_executions_account_for_the_request(e: ExecutionView, i: int)
    requires
        e.fault() is None,
        e.state == ExecutionState::Partial,
    ensures
        e.attempts.len() > 0,
        e.attempts.last().state == AttemptState::Partial,
        e.final_route == Some(e.attempts.last().route),
        e.payload is Some && !(e.payload->0 is DirectNone),
        e.final_route == Some(Route::AtlasLight) || e.final_route == Some(Route::AtlasDeep),
        e.deficits == e.attempts.last().deficits,
        e.deficits.len() > 0,
        e.satisfied.len() > 0,
        e.terminal_reason is Some,
        0 <= i < e.deficits.len() ==> e.deficits[i] is Capability
            && e.decision.requested_capabilities.state(e.deficits[i]->capability) is Some
            && !e.satisfied.contains(e.deficits[i]->capability),
        0 <= i < e.satisfied.len() ==> e.decision.requested_capabilities.state(
            e.satisfied[i],
        ) is Some,
        e.satisfied.len() + e.deficits.len()
            == e.decision.requested_capabilities.listed().len(),
{
    reveal(ExecutionView::fault);
    reveal(context_execution::accounts_for);
    assert(e.attempts[e.attempts.len() - 1].valid());
    lemma_all_capability(e.deficits);
    if 0 <= i < e.satisfied.len() {
        assert(context_execution::satisfiable(
            e.decision.requested_capabilities,
            e.satisfied[i],
            e.final_route,
        ));
    }
    if 0 <= i < e.deficits.len() {
        assert(!(e.deficits[i] is Route));
    }
}

proof fn lemma_all_capability(s: Seq<RouteDeficit>)
    requires
        !context_execution::has_route_deficit(s),
    ensures
        context_execution::capability_deficit_count(s) == s.len(),
        forall|i: int| 0 <= i < s.len() ==> !(#[trigger] s[i] is Route),
    decreases s.len(),
{
    if s.len() > 0 {
        let rest = s.drop_last();
        assert forall|i: int| 0 <= i < rest.len() implies !(#[trigger] rest[i] is Route) by {
            assert(rest[i] == s[i]);
        }
        assert(!(s[s.len() - 1] is Route));
        lemma_all_capability(rest);
    }
}

/// A blocked execution shows a deficit and a reason; it names a final route exactly if
/// something was tried, and then reports the deficits of the attempt that was blocked.
pub proof fn law_blocked_executions_show_why(e: ExecutionView)
    requires
        e.fault() is None,
        e.state == ExecutionState::Blocked,
    ensures
        e.deficits.len() > 0,
        e.terminal_reason is Some,
        e.final_route is None <==> e.attempts.len() == 0,
        e.attempts.len() > 0 ==> {
            &&& e.attempts.last().state == AttemptState::Blocked
            &&& e.final_route == Some(e.attempts.last().route)
            &&& e.deficits == e.attempts.last().deficits
        },
        e.payload matches Some(payload) ==> !(payload is DirectNone) && e.satisfied.len() > 0,
{
    reveal(ExecutionView::fault);
    reveal(context_execution::accounts_for);
}

/// An interrupted execution lists finished attempts only, none of them blocked.
pub proof fn law_interrupted_executions_list_what_finished(e: ExecutionView, i: int)
    requires
        e.fault() is None,
        e.state == ExecutionState::Interrupted,
        0 <= i < e.attempts.len(),
    ensures
        e.attempts[i].state == AttemptState::Completed || e.attempts[i].state
            == AttemptState::Partial,
        e.payload is Some && e.payload->0 is LightBundle ==> e.attempts.last().route
            == Route::AtlasLight,
        e.payload is Some && e.payload->0 is DeepContextIr ==> e.attempts.last().route
            == Route::AtlasDeep,
{
    reveal(ExecutionView::fault);
}

/// The reason for which an execution ended is borne out by it: the ceiling was reached,
/// something cannot be had, no generation was there, or the generation changed.
pub proof fn law_terminal_reasons_are_borne_out(e: ExecutionView)
    requires
        e.fault() is None,
        e.state == ExecutionState::Partial || e.state == ExecutionState::Blocked,
    ensures
        e.terminal_reason == Some(TerminalReason::RouteCeilingReached) ==> e.final_route == Some(
            e.decision.effective_ceiling,
        ),
        e.terminal_reason == Some(TerminalReason::CapabilityUnavailable) ==> exists|i: int|
            0 <= i < e.deficits.len() && (#[trigger] e.deficits[i] matches RouteDeficit::Capability {
                reason,
                ..
            } && (reason == CapabilityDeficitReason::Unavailable || reason
                == CapabilityDeficitReason::Stale || reason
                == CapabilityDeficitReason::Unsupported)),
        e.terminal_reason == Some(TerminalReason::GenerationUnavailable) ==> exists|i: int|
            0 <= i < e.deficits.len() && (#[trigger] e.deficits[i] matches RouteDeficit::Route {
                reason,
            } && (reason == RouteFailureReason::StartingGenerationUnavailable || reason
                == RouteFailureReason::NoActiveGeneration)),
        e.terminal_reason == Some(TerminalReason::GenerationChanged) ==> exists|i: int|
            0 <= i < e.deficits.len() && (#[trigger] e.deficits[i] matches RouteDeficit::Route {
                reason,
            } && reason == RouteFailureReason::GenerationChanged),
{
    reveal(ExecutionView::fault);
}

/// An attempt follows only a partial one, on the same route or on the next one up; it
/// moves up only on deficits in what the caller asked for, none of them unsupported.
pub proof fn law_attempts_move_up_one_route_at_a_time(e: ExecutionView, i: int, d: int)
    requires
        e.fault() is None,
        0 <= i,
        i + 1 < e.attempts.len(),
    ensures
        ({
            let previous = e.attempts[i];
            let next = e.attempts[i + 1];
            &&& previous.state == AttemptState::Partial
            &&& (previous.route == next.route || previous.route == Route::Direct && next.route
                == Route::AtlasLight || previous.route == Route::AtlasLight && next.route
                == Route::AtlasDeep)
            &&& (previous.route != next.route && 0 <= d < previous.deficits.len() ==> {
                &&& previous.deficits[d] is Capability
                &&& asked_for(
                    e.decision.requested_capabilities,
                    previous.deficits[d]->capability,
                )
                &&& previous.deficits[d]->Capability_reason != CapabilityDeficitReason::Unsupported
            })
        }),
{
    reveal(ExecutionView::fault);
    let j = i + 1;
    assert(context_execution::transition_allowed(
        e.attempts[i],
        e.attempts[j],
        e.decision.requested_capabilities,
    ));
    if 0 <= d < e.attempts[i].deficits.len() && e.attempts[i].route != e.attempts[j].route {
        assert(context_execution::deficit_is_open(
            e.decision.requested_capabilities,
            e.attempts[i].deficits[d],
        ));
    }
}

/// An attempt more adds its own counters to the totals, wherever it stands.
pub proof fn law_counters_are_those_of_the_attempts(
    before: Seq<AttemptView>,
    attempt: AttemptView,
    behind: Seq<AttemptView>,
)
    ensures
        ({
            let with = context_execution::counter_sum(before + seq![attempt] + behind);
            let without = context_execution::counter_sum(before + behind);
            &&& with.atlas_calls == without.atlas_calls + attempt.counters.atlas_calls
            &&& with.records == without.records + attempt.counters.records
            &&& with.source_bytes == without.source_bytes + attempt.counters.source_bytes
            &&& with.estimated_tokens == without.estimated_tokens
                + attempt.counters.estimated_tokens
            &&& with.work_units == without.work_units + attempt.counters.work_units
        }),
        ({
            let nothing = context_execution::counter_sum(Seq::empty());
            &&& nothing.atlas_calls == 0
            &&& nothing.records == 0
            &&& nothing.source_bytes == 0
            &&& nothing.estimated_tokens == 0
            &&& nothing.work_units == 0
        }),
    decreases behind.len(),
{
    let with = before + seq![attempt] + behind;
    let without = before + behind;
    if behind.len() == 0 {
        assert(with.drop_last() =~= before);
        assert(without =~= before);
    } else {
        law_counters_are_those_of_the_attempts(before, attempt, behind.drop_last());
        assert(with.drop_last() =~= before + seq![attempt] + behind.drop_last());
        assert(without.drop_last() =~= before + behind.drop_last());
    }
}

/// The totals of an accepted execution are those of its attempts.
pub proof fn law_totals_are_those_of_the_attempts(e: ExecutionView)
    requires
        e.fault() is None,
    ensures
        ({
            let sum = context_execution::counter_sum(e.attempts);
            &&& e.counters.atlas_calls == sum.atlas_calls
            &&& e.counters.records == sum.records
            &&& e.counters.source_bytes == sum.source_bytes
            &&& e.counters.estimated_tokens == sum.estimated_tokens
            &&& e.counters.work_units == sum.work_units
        }),
{
    reveal(ExecutionView::fault);
}

/// Source is handed over only where that was authorized and with a payload from the
/// Atlas; each piece is exactly its range, and together they keep the authorized bytes.
pub proof fn law_handed_over_source_is_exact(e: ExecutionView, i: int)
    requires
        e.fault() is None,
        e.materialization is Some,
    ensures
        e.materialization->0.authorized,
        e.materialization->0.max_bytes > 0,
        e.payload is Some && !(e.payload->0 is DirectNone),
        0 <= i < e.materialization->0.sources.len() ==> {
            let s = e.materialization->0.sources[i];
            &&& s.start_byte + s.bytes.len() == s.end_byte
            &&& s.bytes.len() > 0
            &&& text::hex64(s.source_digest)
        },
        context_execution::source_bytes(e.materialization->0.sources)
            <= e.materialization->0.max_bytes,
{
    reveal(ExecutionView::fault);
    if 0 <= i < e.materialization->0.sources.len() {
        assert(e.materialization->0.sources[i].valid());
    }
}

/// A piece of source more adds its own bytes.
pub proof fn law_source_bytes_add_up(sources: Seq<SourceView>, more: SourceView)
    ensures
        context_execution::source_bytes(sources.push(more)) == context_execution::source_bytes(
            sources,
        ) + more.bytes.len(),
        context_execution::source_bytes(Seq::empty()) == 0,
{
    assert(sources.push(more).drop_last() =~= sources);
}

/// The payload of a route that is accepted is whole: a LIGHT bundle has a result, and at
/// most one of each operation, and every result and document carries its digest.
pub proof fn law_payloads_are_whole(e: ExecutionView)
    requires
        e.fault() is None,
        e.payload is Some,
    ensures
        e.payload->0 matches PayloadView::LightBundle { operations } ==> {
            &&& 1 <= operations.len() <= 2
            &&& forall|i: int|
                0 <= i < operations.len() ==> text::hex64((#[trigger] operations[i]).result_digest)
            &&& operations.len() == 2 ==> operations[0].operation != operations[1].operation
        },
        e.payload->0 matches PayloadView::DeepContextIr { context_ir_version, context_hash }
            ==> context_ir_version == "2.0.0"@ && text::hex64(context_hash),
{
    reveal(ExecutionView::fault);
}

/// A run goes on exactly in the generation it started in. A generation that was replaced
/// is reported as changed; one that is gone, or was never there, as unavailable.
pub proof fn law_runs_stay_in_their_generation(expected: GenerationView, observed: GenerationView)
    ensures
        context_dispatch::generation_fault(expected, observed) is None <==> expected is Observed
            && observed == expected,
        expected is Observed && observed is Observed && expected != observed
            ==> context_dispatch::generation_fault(expected, observed) == Some(
            (RouteFailureReason::GenerationChanged, TerminalReason::GenerationChanged),
        ),
        expected is Unavailable || observed is Unavailable ==> (context_dispatch::generation_fault(
            expected,
            observed,
        ) matches Some((_, reason)) && reason == TerminalReason::GenerationUnavailable),
        expected is Observed && observed == (GenerationView::Unavailable {
            reason: GenerationUnavailableReason::NoActiveGeneration,
        }) ==> (context_dispatch::generation_fault(expected, observed) matches Some((failure, _))
            && failure == RouteFailureReason::NoActiveGeneration),
{
}

/// An execution ends for want of a capability only below its ceiling, and only where one
/// cannot be had; in every other case it has gone as far as it may.
pub proof fn law_executions_end_where_they_must(
    route: Route,
    ceiling: Route,
    deficits: Seq<RouteDeficit>,
    i: int,
)
    ensures
        route == ceiling ==> context_dispatch::terminal_reason_of(route, ceiling, deficits)
            == TerminalReason::RouteCeilingReached,
        route != ceiling && 0 <= i < deficits.len() && (deficits[i] matches RouteDeficit::Capability {
            reason,
            ..
        } && (reason == CapabilityDeficitReason::Unavailable || reason
            == CapabilityDeficitReason::Stale || reason == CapabilityDeficitReason::Unsupported))
            ==> context_dispatch::terminal_reason_of(route, ceiling, deficits)
            == TerminalReason::CapabilityUnavailable,
        (forall|j: int|
            0 <= j < deficits.len() ==> (#[trigger] deficits[j] matches RouteDeficit::Capability {
                reason,
                ..
            } ==> reason != CapabilityDeficitReason::Unavailable && reason
                != CapabilityDeficitReason::Stale && reason
                != CapabilityDeficitReason::Unsupported))
            ==> context_dispatch::terminal_reason_of(route, ceiling, deficits)
            == TerminalReason::RouteCeilingReached,
{
    if 0 <= i < deficits.len() {
        let d = deficits[i];
        assert(d == deficits[i]);
    }
}

} // verus!
