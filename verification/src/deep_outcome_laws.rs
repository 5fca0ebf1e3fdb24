//! What a DEEP document delivers, said of what stands in it.
use vstd::prelude::*;

use crate::context_dispatch::OutcomeView;
use crate::context_execution::{
    CapabilityDeficitReason, MaterializationView, PayloadView, RouteDeficit,
};
use crate::context_ir::{
    ClaimStrength, EvidenceQuality, IrRelationship, ItemRole, ResolutionStatus,
};
use crate::context_route;
use crate::context_route::{CallerCapabilityState, CapabilityMap, RequiredCapability};
use crate::deep_context_ir;
use crate::deep_context_ir::{
    DeepContextIrV2, IrOmissionReasonV2, IrPathConfinementV2, IrRequirementStateV2,
    IrRoleSufficiencyV2, IrSourceRefV2, IrSourceVerificationV2, IrWorkingSetItemV2,
};
use crate::deep_outcome;
use crate::deep_outcome::CapabilityJudge;
use crate::routing_laws::lacks;

verus! {

/// The attempt delivers the capability.
pub open spec fn delivers(outcome: OutcomeView, capability: RequiredCapability) -> bool {
    match outcome {
        OutcomeView::Completed { .. } => true,
        OutcomeView::Deficient { satisfied, .. } => satisfied.contains(capability),
        OutcomeView::Interrupted { .. } => false,
    }
}

/// The attempt reports the capability as missing for the reason.
pub open spec fn misses(
    outcome: OutcomeView,
    capability: RequiredCapability,
    reason: CapabilityDeficitReason,
) -> bool {
    outcome matches OutcomeView::Deficient { deficits, .. } && deficits.contains(
        RouteDeficit::Capability { capability, reason },
    )
}

proof fn lemma_listed_upto(
    map: CapabilityMap,
    n: nat,
    capability: RequiredCapability,
    state: CallerCapabilityState,
)
    requires
        n <= 8,
    ensures
        map.listed_upto(n).contains((capability, state)) <==> capability.spec_rank() < n
            && map.state(capability) == Some(state),
    decreases n,
{
    if n > 0 {
        let m = (n - 1) as nat;
        let rest = map.listed_upto(m);
        lemma_listed_upto(map, m, capability, state);
        let c = context_route::spec_capability_at(n - 1);
        assert(c.spec_rank() == n - 1);
        let all = map.listed_upto(n);
        if capability.spec_rank() == n - 1 {
            assert(capability == c);
        }
        if rest.contains((capability, state)) {
            let i = choose|i: int| 0 <= i < rest.len() && rest[i] == (capability, state);
            assert(all[i] == (capability, state));
        }
        if map.state(c) is Some {
            assert(all[rest.len() as int] == (c, map.state(c)->0));
        }
        if all.contains((capability, state)) {
            let i = choose|i: int| 0 <= i < all.len() && all[i] == (capability, state);
            if i < rest.len() {
                assert(rest[i] == (capability, state));
            }
        }
    }
}

/// The list of a map holds a capability exactly once, with its state.
pub proof fn lemma_listed(
    map: CapabilityMap,
    capability: RequiredCapability,
    state: CallerCapabilityState,
)
    ensures
        map.listed().contains((capability, state)) <==> map.state(capability) == Some(state),
{
    lemma_listed_upto(map, 8, capability, state);
    assert(capability.spec_rank() < 8);
}

proof fn lemma_met<J: CapabilityJudge>(
    listed: Seq<(RequiredCapability, CallerCapabilityState)>,
    judge: &J,
    capability: RequiredCapability,
)
    ensures
        deep_outcome::met(listed, judge).contains(capability) <==> exists|i: int|
            0 <= i < listed.len() && (#[trigger] listed[i]).0 == capability && (listed[i].1
                == CallerCapabilityState::Satisfied || judge.verdict(capability) is None),
    decreases listed.len(),
{
    if listed.len() > 0 {
        let init = listed.drop_last();
        lemma_met(init, judge, capability);
        let before = deep_outcome::met(init, judge);
        let all = deep_outcome::met(listed, judge);
        let last = listed.last();
        let kept = last.1 == CallerCapabilityState::Satisfied || judge.verdict(last.0) is None;
        if kept {
            assert(all[before.len() as int] == last.0);
        }
        if before.contains(capability) {
            let k = choose|k: int| 0 <= k < before.len() && before[k] == capability;
            assert(all[k] == capability);
            let i = choose|i: int|
                0 <= i < init.len() && (#[trigger] init[i]).0 == capability && (init[i].1
                    == CallerCapabilityState::Satisfied || judge.verdict(capability) is None);
            assert(listed[i] == init[i]);
        }
        if all.contains(capability) && !before.contains(capability) {
            let k = choose|k: int| 0 <= k < all.len() && all[k] == capability;
            assert(k == before.len());
            assert(listed[listed.len() - 1] == last);
        }
        if exists|i: int|
            0 <= i < listed.len() && (#[trigger] listed[i]).0 == capability && (listed[i].1
                == CallerCapabilityState::Satisfied || judge.verdict(capability) is None) {
            let i = choose|i: int|
                0 <= i < listed.len() && (#[trigger] listed[i]).0 == capability && (listed[i].1
                    == CallerCapabilityState::Satisfied || judge.verdict(capability) is None);
            if i < init.len() {
                assert(init[i] == listed[i]);
            }
        }
    }
}

proof fn lemma_unmet<J: CapabilityJudge>(
    listed: Seq<(RequiredCapability, CallerCapabilityState)>,
    judge: &J,
    capability: RequiredCapability,
    reason: CapabilityDeficitReason,
)
    ensures
        deep_outcome::unmet(listed, judge).contains(
            RouteDeficit::Capability { capability, reason },
        ) <==> exists|i: int|
            0 <= i < listed.len() && (#[trigger] listed[i]).0 == capability && listed[i].1
                != CallerCapabilityState::Satisfied && judge.verdict(capability) == Some(reason),
    decreases listed.len(),
{
    let d = RouteDeficit::Capability { capability, reason };
    if listed.len() > 0 {
        let init = listed.drop_last();
        lemma_unmet(init, judge, capability, reason);
        let before = deep_outcome::unmet(init, judge);
        let all = deep_outcome::unmet(listed, judge);
        let last = listed.last();
        let kept = last.1 == CallerCapabilityState::Satisfied || judge.verdict(last.0) is None;
        if !kept {
            assert(all[before.len() as int] == (RouteDeficit::Capability {
                capability: last.0,
                reason: judge.verdict(last.0)->0,
            }));
        }
        if before.contains(d) {
            let k = choose|k: int| 0 <= k < before.len() && before[k] == d;
            assert(all[k] == d);
            let i = choose|i: int|
                0 <= i < init.len() && (#[trigger] init[i]).0 == capability && init[i].1
                    != CallerCapabilityState::Satisfied && judge.verdict(capability) == Some(reason);
            assert(listed[i] == init[i]);
        }
        if all.contains(d) && !before.contains(d) {
            let k = choose|k: int| 0 <= k < all.len() && all[k] == d;
            assert(k == before.len());
            assert(listed[listed.len() - 1] == last);
        }
        if exists|i: int|
            0 <= i < listed.len() && (#[trigger] listed[i]).0 == capability && listed[i].1
                != CallerCapabilityState::Satisfied && judge.verdict(capability) == Some(reason) {
            let i = choose|i: int|
                0 <= i < listed.len() && (#[trigger] listed[i]).0 == capability && listed[i].1
                    != CallerCapabilityState::Satisfied && judge.verdict(capability) == Some(
                    reason,
                );
            if i < init.len() {
                assert(init[i] == listed[i]);
            }
        }
    }
}

proof fn lemma_unmet_is_empty<J: CapabilityJudge>(
    listed: Seq<(RequiredCapability, CallerCapabilityState)>,
    judge: &J,
)
    ensures
        deep_outcome::unmet(listed, judge).len() == 0 <==> forall|i: int|
            0 <= i < listed.len() ==> (#[trigger] listed[i]).1 == CallerCapabilityState::Satisfied
                || judge.verdict(listed[i].0) is None,
    decreases listed.len(),
{
    if listed.len() > 0 {
        let init = listed.drop_last();
        lemma_unmet_is_empty(init, judge);
        let last = listed.last();
        assert(listed[listed.len() - 1] == last);
        assert forall|i: int| 0 <= i < init.len() implies #[trigger] init[i] == listed[i] by {}
        if deep_outcome::unmet(listed, judge).len() == 0 {
            assert forall|i: int| 0 <= i < listed.len() implies (#[trigger] listed[i]).1
                == CallerCapabilityState::Satisfied || judge.verdict(listed[i].0) is None by {
                if i < init.len() {
                    assert(init[i] == listed[i]);
                }
            }
        }
    }
}

/// What the sorting of requested capabilities comes to for one of them.
pub proof fn lemma_sorted_capability<J: CapabilityJudge>(
    map: CapabilityMap,
    judge: &J,
    capability: RequiredCapability,
    reason: CapabilityDeficitReason,
)
    ensures
        deep_outcome::met(map.listed(), judge).contains(capability) <==> map.state(
            capability,
        ) is Some && (map.state(capability) == Some(CallerCapabilityState::Satisfied)
            || judge.verdict(capability) is None),
        deep_outcome::unmet(map.listed(), judge).contains(
            RouteDeficit::Capability { capability, reason },
        ) <==> lacks(map, capability) && judge.verdict(capability) == Some(reason),
        deep_outcome::unmet(map.listed(), judge).len() == 0 <==> forall|c: RequiredCapability| #[trigger]
            lacks(map, c) ==> judge.verdict(c) is None,
{
    let listed = map.listed();
    lemma_met(listed, judge, capability);
    lemma_unmet(listed, judge, capability, reason);
    lemma_unmet_is_empty(listed, judge);
    assert forall|i: int| 0 <= i < listed.len() implies map.state((#[trigger] listed[i]).0) == Some(
        listed[i].1,
    ) by {
        lemma_listed(map, listed[i].0, listed[i].1);
        assert(listed.contains(listed[i]));
    }
    assert forall|c: RequiredCapability, s: CallerCapabilityState|
        map.state(c) == Some(s) implies exists|i: int|
        0 <= i < listed.len() && #[trigger] listed[i] == (c, s) by {
        lemma_listed(map, c, s);
    }
    if map.state(capability) is Some {
        let s = map.state(capability)->0;
        let i = choose|i: int| 0 <= i < listed.len() && #[trigger] listed[i] == (capability, s);
        assert(listed[i].0 == capability);
    }
    if deep_outcome::unmet(listed, judge).len() == 0 {
        assert forall|c: RequiredCapability| #[trigger] lacks(map, c) implies judge.verdict(
            c,
        ) is None by {
            let s = map.state(c)->0;
            let i = choose|i: int| 0 <= i < listed.len() && #[trigger] listed[i] == (c, s);
            assert(listed[i].1 != CallerCapabilityState::Satisfied);
        }
    }
    if forall|c: RequiredCapability| #[trigger] lacks(map, c) ==> judge.verdict(c) is None {
        assert forall|i: int| 0 <= i < listed.len() implies (#[trigger] listed[i]).1
            == CallerCapabilityState::Satisfied || judge.verdict(listed[i].0) is None by {
            let c = listed[i].0;
            if listed[i].1 != CallerCapabilityState::Satisfied {
                assert(lacks(map, c));
            }
        }
    }
}

/// What a deep attempt says of a capability that the caller lacks is what the document
/// is found to have of it; one that the caller has counts as delivered.
proof fn lemma_deep_capability(
    requested: CapabilityMap,
    document: DeepContextIrV2,
    payload: PayloadView,
    materialization: Option<MaterializationView>,
    capability: RequiredCapability,
)
    requires
        requested.state(capability) is Some,
    ensures
        ({
            let o = deep_outcome::deep_route_view(requested, document, payload, materialization);
            &&& delivers(o, capability) <==> requested.state(capability) == Some(
                CallerCapabilityState::Satisfied,
            ) || document.verdict(capability) is None
            &&& forall|reason: CapabilityDeficitReason| #[trigger]
                misses(o, capability, reason) <==> lacks(requested, capability)
                    && document.verdict(capability) == Some(reason)
        }),
{
    let o = deep_outcome::deep_route_view(requested, document, payload, materialization);
    lemma_sorted_capability(
        requested,
        &document,
        capability,
        CapabilityDeficitReason::Conflicting,
    );
    assert forall|reason: CapabilityDeficitReason| #[trigger] misses(o, capability, reason)
        <==> lacks(requested, capability) && document.verdict(capability) == Some(reason) by {
        lemma_sorted_capability(requested, &document, capability, reason);
    }
    match requested.state(capability)->0 {
        CallerCapabilityState::Satisfied => {},
        CallerCapabilityState::Unsatisfied => {
            assert(lacks(requested, capability));
        },
        CallerCapabilityState::Unknown => {
            assert(lacks(requested, capability));
        },
    }
}

/// Some cause of the list is the reason.
spec fn among(
    causes: Seq<Option<CapabilityDeficitReason>>,
    reason: CapabilityDeficitReason,
) -> bool {
    exists|i: int| 0 <= i < causes.len() && #[trigger] causes[i] == Some(reason)
}

/// The gravest cause of a list: a conflict before anything stale, then what is
/// ambiguous, unsupported, left out for a budget, unavailable.
proof fn lemma_gravest_order(causes: Seq<Option<CapabilityDeficitReason>>)
    ensures
        ({
            let g = deep_outcome::gravest(causes);
            let conflicting = among(causes, CapabilityDeficitReason::Conflicting);
            let stale = among(causes, CapabilityDeficitReason::Stale);
            let ambiguous = among(causes, CapabilityDeficitReason::Ambiguous);
            let unsupported = among(causes, CapabilityDeficitReason::Unsupported);
            let omitted = among(causes, CapabilityDeficitReason::SemanticBudgetOmitted);
            let unavailable = among(causes, CapabilityDeficitReason::Unavailable);
            g == if conflicting {
                Some(CapabilityDeficitReason::Conflicting)
            } else if stale {
                Some(CapabilityDeficitReason::Stale)
            } else if ambiguous {
                Some(CapabilityDeficitReason::Ambiguous)
            } else if unsupported {
                Some(CapabilityDeficitReason::Unsupported)
            } else if omitted {
                Some(CapabilityDeficitReason::SemanticBudgetOmitted)
            } else if unavailable {
                Some(CapabilityDeficitReason::Unavailable)
            } else {
                None
            }
        }),
{
    deep_outcome::law_gravest_cause(causes);
    let g = deep_outcome::gravest(causes);
    if let Some(reason) = g {
        let k = choose|k: int| 0 <= k < causes.len() && causes[k] == Some(reason);
        assert(causes[k] == Some(reason));
        assert(among(causes, reason));
    }
    assert forall|reason: CapabilityDeficitReason| #[trigger] among(causes, reason) implies g
        is Some && deep_outcome::gravity(g->0) <= deep_outcome::gravity(reason) by {
        let i = choose|i: int| 0 <= i < causes.len() && #[trigger] causes[i] == Some(reason);
        assert(causes[i] is Some);
    }
}

/// Which of two reasons is reported: a conflict hides everything else, and so on down
/// to what is merely unavailable.
pub proof fn law_reasons_have_an_order(a: CapabilityDeficitReason, b: CapabilityDeficitReason)
    ensures
        deep_outcome::graver(Some(a), Some(b)) == Some(a) || deep_outcome::graver(Some(a), Some(b))
            == Some(b),
        deep_outcome::graver(Some(a), None) == Some(a),
        deep_outcome::graver(None, Some(a)) == Some(a),
        deep_outcome::graver(None, None) is None,
        a == CapabilityDeficitReason::Conflicting || b == CapabilityDeficitReason::Conflicting
            ==> deep_outcome::graver(Some(a), Some(b)) == Some(
            CapabilityDeficitReason::Conflicting,
        ),
        deep_outcome::graver(
            Some(CapabilityDeficitReason::Stale),
            Some(CapabilityDeficitReason::Ambiguous),
        ) == Some(CapabilityDeficitReason::Stale),
        deep_outcome::graver(
            Some(CapabilityDeficitReason::Ambiguous),
            Some(CapabilityDeficitReason::Unsupported),
        ) == Some(CapabilityDeficitReason::Ambiguous),
        deep_outcome::graver(
            Some(CapabilityDeficitReason::Unsupported),
            Some(CapabilityDeficitReason::SemanticBudgetOmitted),
        ) == Some(CapabilityDeficitReason::Unsupported),
        deep_outcome::graver(
            Some(CapabilityDeficitReason::SemanticBudgetOmitted),
            Some(CapabilityDeficitReason::Unavailable),
        ) == Some(CapabilityDeficitReason::SemanticBudgetOmitted),
        a != b ==> (b == CapabilityDeficitReason::Unavailable ==> deep_outcome::graver(
            Some(a),
            Some(b),
        ) == Some(a)),
        deep_outcome::graver(Some(a), Some(b)) == deep_outcome::graver(Some(b), Some(a)),
{
}

/// The evidence is good enough to rely on.
pub open spec fn reliable(quality: EvidenceQuality) -> bool {
    quality == EvidenceQuality::Verified || quality == EvidenceQuality::Supported || quality
        == EvidenceQuality::Resolved
}

/// The evidence leaves open what it is about.
pub open spec fn doubtful(quality: EvidenceQuality) -> bool {
    quality == EvidenceQuality::Ambiguous || quality == EvidenceQuality::Unresolved || quality
        == EvidenceQuality::Inferred || quality == EvidenceQuality::Partial || quality
        == EvidenceQuality::External
}

/// The relationship leads to a symbol or a file.
pub open spec fn resolved(relationship: IrRelationship) -> bool {
    relationship.resolution_state == ResolutionStatus::ResolvedSymbol
        || relationship.resolution_state == ResolutionStatus::ResolvedFile
}

/// Some relationship rests on conflicting evidence.
pub open spec fn any_conflicting(all: Seq<IrRelationship>) -> bool {
    exists|i: int|
        0 <= i < all.len() && (#[trigger] all[i]).evidence.state == EvidenceQuality::Conflicting
}

/// Some relationship is stale, or rests on stale evidence.
pub open spec fn any_stale(all: Seq<IrRelationship>) -> bool {
    exists|i: int|
        0 <= i < all.len() && ((#[trigger] all[i]).evidence.state == EvidenceQuality::Stale
            || all[i].resolution_state == ResolutionStatus::Stale)
}

/// Some relationship is not resolved, or rests on doubtful evidence.
pub open spec fn any_open(all: Seq<IrRelationship>) -> bool {
    exists|i: int|
        0 <= i < all.len() && (doubtful((#[trigger] all[i]).evidence.state) || (!resolved(all[i])
            && all[i].resolution_state != ResolutionStatus::Stale))
}

/// Some relationship rests on evidence that is not supported.
pub open spec fn any_unsupported(all: Seq<IrRelationship>) -> bool {
    exists|i: int|
        0 <= i < all.len() && ((#[trigger] all[i]).evidence.state == EvidenceQuality::Unsupported
            || all[i].evidence.state == EvidenceQuality::Excluded)
}

proof fn lemma_relationship_cause(r: IrRelationship)
    ensures
        ({
            let cause = deep_outcome::relationship_cause(r);
            let q = r.evidence.state;
            &&& cause == Some(CapabilityDeficitReason::Conflicting) <==> q
                == EvidenceQuality::Conflicting
            &&& cause == Some(CapabilityDeficitReason::Stale) <==> q
                != EvidenceQuality::Conflicting && (q == EvidenceQuality::Stale
                || r.resolution_state == ResolutionStatus::Stale)
            &&& cause == Some(CapabilityDeficitReason::Ambiguous) ==> doubtful(q) || (!resolved(r)
                && r.resolution_state != ResolutionStatus::Stale)
            &&& (doubtful(q) || (!resolved(r) && r.resolution_state != ResolutionStatus::Stale))
                ==> cause == Some(CapabilityDeficitReason::Ambiguous) || cause == Some(
                CapabilityDeficitReason::Conflicting,
            ) || cause == Some(CapabilityDeficitReason::Stale)
            &&& cause == Some(CapabilityDeficitReason::Unsupported) ==> q
                == EvidenceQuality::Unsupported || q == EvidenceQuality::Excluded
            &&& (q == EvidenceQuality::Unsupported || q == EvidenceQuality::Excluded) ==> cause
                is Some
            &&& cause is None <==> resolved(r) && reliable(q)
            &&& cause != Some(CapabilityDeficitReason::SemanticBudgetOmitted)
            &&& cause != Some(CapabilityDeficitReason::Unavailable)
        }),
{
}

#[verifier::spinoff_prover]
#[verifier::rlimit(40)]
proof fn lemma_relationship_verdict(all: Seq<IrRelationship>)
    ensures
        deep_outcome::gravest(deep_outcome::relationship_causes(all)) == if any_conflicting(all) {
            Some(CapabilityDeficitReason::Conflicting)
        } else if any_stale(all) {
            Some(CapabilityDeficitReason::Stale)
        } else if any_open(all) {
            Some(CapabilityDeficitReason::Ambiguous)
        } else if any_unsupported(all) {
            Some(CapabilityDeficitReason::Unsupported)
        } else {
            None
        },
        deep_outcome::gravest(deep_outcome::relationship_causes(all)) is None <==> forall|i: int|
            0 <= i < all.len() ==> resolved(#[trigger] all[i]) && reliable(all[i].evidence.state),
{
    let causes = deep_outcome::relationship_causes(all);
    let g = deep_outcome::gravest(causes);
    deep_outcome::law_gravest_cause(causes);
    assert forall|i: int| 0 <= i < all.len() implies #[trigger] causes[i]
        == deep_outcome::relationship_cause(all[i]) by {}
    match g {
        Some(reason) => {
            let k = choose|k: int| 0 <= k < causes.len() && causes[k] == Some(reason);
            lemma_relationship_cause(all[k]);
            assert(causes[k] == deep_outcome::relationship_cause(all[k]));
            assert(!(resolved(all[k]) && reliable(all[k].evidence.state)));
            if any_conflicting(all) {
                let i = choose|i: int|
                    0 <= i < all.len() && (#[trigger] all[i]).evidence.state
                        == EvidenceQuality::Conflicting;
                lemma_relationship_cause(all[i]);
                assert(causes[i] == Some(CapabilityDeficitReason::Conflicting));
            } else if any_stale(all) {
                let i = choose|i: int|
                    0 <= i < all.len() && ((#[trigger] all[i]).evidence.state
                        == EvidenceQuality::Stale || all[i].resolution_state
                        == ResolutionStatus::Stale);
                lemma_relationship_cause(all[i]);
                assert(all[i].evidence.state != EvidenceQuality::Conflicting);
                assert(causes[i] == Some(CapabilityDeficitReason::Stale));
                assert(all[k].evidence.state != EvidenceQuality::Conflicting);
            } else if any_open(all) {
                let i = choose|i: int|
                    0 <= i < all.len() && (doubtful((#[trigger] all[i]).evidence.state) || (
                    !resolved(all[i]) && all[i].resolution_state != ResolutionStatus::Stale));
                lemma_relationship_cause(all[i]);
                assert(all[i].evidence.state != EvidenceQuality::Conflicting);
                assert(all[i].evidence.state != EvidenceQuality::Stale && all[i].resolution_state
                    != ResolutionStatus::Stale);
                assert(causes[i] == Some(CapabilityDeficitReason::Ambiguous));
                assert(all[k].evidence.state != EvidenceQuality::Conflicting);
                assert(all[k].evidence.state != EvidenceQuality::Stale && all[k].resolution_state
                    != ResolutionStatus::Stale);
            } else {
                assert(all[k].evidence.state != EvidenceQuality::Conflicting);
                assert(all[k].evidence.state != EvidenceQuality::Stale && all[k].resolution_state
                    != ResolutionStatus::Stale);
                assert(!doubtful(all[k].evidence.state) && resolved(all[k]));
                assert(reason == CapabilityDeficitReason::Unsupported);
            }
        },
        None => {
            assert forall|i: int| 0 <= i < all.len() implies resolved(#[trigger] all[i])
                && reliable(all[i].evidence.state) by {
                lemma_relationship_cause(all[i]);
                assert(causes[i] is None);
            }
        },
    }
}

/// Bounded relationships are delivered exactly where there is one and every one is
/// resolved on reliable evidence. Otherwise the reason is the gravest that any of them
/// gives: a conflict, then something stale, then something open, then something
/// unsupported; without any relationship they are unavailable.
pub proof fn law_relationships_are_delivered_resolved(
    requested: CapabilityMap,
    document: DeepContextIrV2,
    payload: PayloadView,
    materialization: Option<MaterializationView>,
)
    requires
        lacks(requested, RequiredCapability::BoundedRelationships),
    ensures
        ({
            let o = deep_outcome::deep_route_view(requested, document, payload, materialization);
            let c = RequiredCapability::BoundedRelationships;
            let all = document.relationships@;
            let conflicting = any_conflicting(all);
            let stale = any_stale(all);
            let open = any_open(all);
            &&& delivers(o, c) <==> all.len() > 0 && forall|i: int|
                0 <= i < all.len() ==> resolved(#[trigger] all[i]) && reliable(
                    all[i].evidence.state,
                )
            &&& misses(o, c, CapabilityDeficitReason::Conflicting) <==> conflicting
            &&& misses(o, c, CapabilityDeficitReason::Stale) <==> !conflicting && stale
            &&& misses(o, c, CapabilityDeficitReason::Ambiguous) <==> !conflicting && !stale
                && open
            &&& misses(o, c, CapabilityDeficitReason::Unsupported) <==> !conflicting && !stale
                && !open && any_unsupported(all)
            &&& misses(o, c, CapabilityDeficitReason::Unavailable) <==> all.len() == 0
            &&& !misses(o, c, CapabilityDeficitReason::SemanticBudgetOmitted)
        }),
{
    let c = RequiredCapability::BoundedRelationships;
    lemma_deep_capability(requested, document, payload, materialization, c);
    lemma_relationship_verdict(document.relationships@);
    assert(document.verdict(c) == document.relationship_verdict());
}

/// The impact frontier is delivered exactly where there is an effect and every one
/// rests on reliable evidence. Otherwise the reason is the gravest that any of them
/// gives; without any effect it is unavailable.
pub proof fn law_effects_are_delivered_on_reliable_evidence(
    requested: CapabilityMap,
    document: DeepContextIrV2,
    payload: PayloadView,
    materialization: Option<MaterializationView>,
)
    requires
        lacks(requested, RequiredCapability::ImpactFrontier),
    ensures
        ({
            let o = deep_outcome::deep_route_view(requested, document, payload, materialization);
            let c = RequiredCapability::ImpactFrontier;
            let all = document.effects@;
            let conflicting = exists|i: int|
                0 <= i < all.len() && (#[trigger] all[i]).evidence.state
                    == EvidenceQuality::Conflicting;
            let stale = exists|i: int|
                0 <= i < all.len() && (#[trigger] all[i]).evidence.state == EvidenceQuality::Stale;
            let open = exists|i: int|
                0 <= i < all.len() && doubtful((#[trigger] all[i]).evidence.state);
            let unsupported = exists|i: int|
                0 <= i < all.len() && ((#[trigger] all[i]).evidence.state
                    == EvidenceQuality::Unsupported || all[i].evidence.state
                    == EvidenceQuality::Excluded);
            &&& delivers(o, c) <==> all.len() > 0 && forall|i: int|
                0 <= i < all.len() ==> reliable((#[trigger] all[i]).evidence.state)
            &&& misses(o, c, CapabilityDeficitReason::Conflicting) <==> conflicting
            &&& misses(o, c, CapabilityDeficitReason::Stale) <==> !conflicting && stale
            &&& misses(o, c, CapabilityDeficitReason::Ambiguous) <==> !conflicting && !stale
                && open
            &&& misses(o, c, CapabilityDeficitReason::Unsupported) <==> !conflicting && !stale
                && !open && unsupported
            &&& misses(o, c, CapabilityDeficitReason::Unavailable) <==> all.len() == 0
            &&& !misses(o, c, CapabilityDeficitReason::SemanticBudgetOmitted)
        }),
{
    let c = RequiredCapability::ImpactFrontier;
    let all = document.effects@;
    lemma_deep_capability(requested, document, payload, materialization, c);
    let causes = deep_outcome::effect_causes(all);
    lemma_gravest_order(causes);
    assert forall|i: int| 0 <= i < all.len() implies deep_outcome::quality_cause(
        (#[trigger] all[i]).evidence.state,
    ) == causes[i] by {}
    if among(causes, CapabilityDeficitReason::Conflicting) {
        let i = choose|i: int|
            0 <= i < causes.len() && #[trigger] causes[i] == Some(
                CapabilityDeficitReason::Conflicting,
            );
        assert(all[i].evidence.state == EvidenceQuality::Conflicting);
    }
    if among(causes, CapabilityDeficitReason::Stale) {
        let i = choose|i: int|
            0 <= i < causes.len() && #[trigger] causes[i] == Some(CapabilityDeficitReason::Stale);
        assert(all[i].evidence.state == EvidenceQuality::Stale);
    }
    if among(causes, CapabilityDeficitReason::Ambiguous) {
        let i = choose|i: int|
            0 <= i < causes.len() && #[trigger] causes[i] == Some(
                CapabilityDeficitReason::Ambiguous,
            );
        assert(doubtful(all[i].evidence.state));
    }
    if among(causes, CapabilityDeficitReason::Unsupported) {
        let i = choose|i: int|
            0 <= i < causes.len() && #[trigger] causes[i] == Some(
                CapabilityDeficitReason::Unsupported,
            );
        assert(all[i].evidence.state == EvidenceQuality::Unsupported || all[i].evidence.state
            == EvidenceQuality::Excluded);
    }
}

/// The source was read again before the document was sealed and is the indexed file,
/// inside the workspace.
pub open spec fn current_source(source: IrSourceRefV2) -> bool {
    &&& source.verification_status == IrSourceVerificationV2::Verified
    &&& source.revalidated_before_seal
    &&& source.observed_sha256 is Some && source.observed_sha256->0@ == source.whole_file_sha256@
    &&& source.canonical_root_confinement == IrPathConfinementV2::Confined
}

/// The source is stale, or was found to be another file than the indexed one, or was
/// not read again.
pub open spec fn outdated_source(source: IrSourceRefV2) -> bool {
    source.verification_status == IrSourceVerificationV2::Stale || (source.verification_status
        == IrSourceVerificationV2::Verified && !(source.revalidated_before_seal
        && source.observed_sha256 is Some && source.observed_sha256->0@
        == source.whole_file_sha256@))
}

proof fn lemma_source_cause(source: IrSourceRefV2)
    ensures
        ({
            let cause = deep_outcome::source_cause(source);
            &&& cause is None <==> current_source(source)
            &&& cause == Some(CapabilityDeficitReason::Stale) <==> outdated_source(source)
            &&& cause != Some(CapabilityDeficitReason::Conflicting)
            &&& cause != Some(CapabilityDeficitReason::Ambiguous)
            &&& cause != Some(CapabilityDeficitReason::SemanticBudgetOmitted)
        }),
{
}

proof fn lemma_source_causes(items: Seq<IrWorkingSetItemV2>)
    ensures
        ({
            let g = deep_outcome::gravest(deep_outcome::source_causes(items));
            &&& g is None <==> forall|i: int|
                0 <= i < items.len() && (#[trigger] items[i]).source is Some ==> current_source(
                    items[i].source->0,
                )
            &&& g == Some(CapabilityDeficitReason::Stale) <==> exists|i: int|
                0 <= i < items.len() && (#[trigger] items[i]).source is Some && outdated_source(
                    items[i].source->0,
                )
            &&& g != Some(CapabilityDeficitReason::Conflicting)
            &&& g != Some(CapabilityDeficitReason::Ambiguous)
            &&& g != Some(CapabilityDeficitReason::SemanticBudgetOmitted)
        }),
{
    let causes = deep_outcome::source_causes(items);
    let g = deep_outcome::gravest(causes);
    deep_outcome::law_gravest_cause(causes);
    assert forall|i: int| 0 <= i < items.len() implies #[trigger] causes[i]
        == deep_outcome::item_source_cause(items[i]) by {}
    match g {
        Some(reason) => {
            let k = choose|k: int| 0 <= k < causes.len() && causes[k] == Some(reason);
            assert(causes[k] == deep_outcome::item_source_cause(items[k]));
            assert(items[k].source is Some);
            lemma_source_cause(items[k].source->0);
            if exists|i: int|
                0 <= i < items.len() && (#[trigger] items[i]).source is Some && outdated_source(
                    items[i].source->0,
                ) {
                let i = choose|i: int|
                    0 <= i < items.len() && (#[trigger] items[i]).source is Some
                        && outdated_source(items[i].source->0);
                lemma_source_cause(items[i].source->0);
                assert(causes[i] == Some(CapabilityDeficitReason::Stale));
            }
        },
        None => {
            assert forall|i: int|
                0 <= i < items.len() && (#[trigger] items[i]).source is Some implies current_source(
                items[i].source->0,
            ) by {
                assert(causes[i] is None);
                lemma_source_cause(items[i].source->0);
            }
        },
    }
}

/// Exact source is delivered exactly where the document says so, carries a source, and
/// every source that it carries is current. A stale or changed source makes it stale
/// unless the document itself reports a conflict; a document that claims to have it but
/// carries none lacks it for its budget where a budget left records, bytes, tokens or
/// work out, and for want of it otherwise.
pub proof fn law_exact_source_is_delivered_current(
    requested: CapabilityMap,
    document: DeepContextIrV2,
    payload: PayloadView,
    materialization: Option<MaterializationView>,
)
    requires
        lacks(requested, RequiredCapability::ExactSource),
    ensures
        ({
            let o = deep_outcome::deep_route_view(requested, document, payload, materialization);
            let c = RequiredCapability::ExactSource;
            let items = document.working_set@;
            let status = document.status.exact_source;
            let carried = exists|i: int|
                0 <= i < items.len() && (#[trigger] items[i]).source is Some;
            let outdated = exists|i: int|
                0 <= i < items.len() && (#[trigger] items[i]).source is Some && outdated_source(
                    items[i].source->0,
                );
            let counts = document.omissions.by_reason;
            let budgeted = counts.count(IrOmissionReasonV2::RecordBudget) is Some || counts.count(
                IrOmissionReasonV2::SourceByteBudget,
            ) is Some || counts.count(IrOmissionReasonV2::EstimatedTokenBudget) is Some
                || counts.count(IrOmissionReasonV2::WorkUnitBudget) is Some;
            &&& delivers(o, c) <==> status == IrRequirementStateV2::Satisfied && carried
                && forall|i: int|
                0 <= i < items.len() && (#[trigger] items[i]).source is Some ==> current_source(
                    items[i].source->0,
                )
            &&& misses(o, c, CapabilityDeficitReason::Conflicting) <==> status
                == IrRequirementStateV2::Conflicting
            &&& misses(o, c, CapabilityDeficitReason::Stale) <==> status
                != IrRequirementStateV2::Conflicting && (status == IrRequirementStateV2::Stale
                || outdated)
            &&& status == IrRequirementStateV2::Satisfied && !carried && budgeted ==> misses(
                o,
                c,
                CapabilityDeficitReason::SemanticBudgetOmitted,
            )
            &&& status == IrRequirementStateV2::Satisfied && !carried && !budgeted ==> misses(
                o,
                c,
                CapabilityDeficitReason::Unavailable,
            )
        }),
{
    let c = RequiredCapability::ExactSource;
    let items = document.working_set@;
    lemma_deep_capability(requested, document, payload, materialization, c);
    lemma_source_causes(items);
    assert(document.verdict(c) == document.exact_source_verdict());
    let g = deep_outcome::gravest(deep_outcome::source_causes(items));
    if !deep_outcome::any_source(items) {
        assert forall|i: int|
            0 <= i < items.len() && (#[trigger] items[i]).source is Some implies current_source(
            items[i].source->0,
        ) by {}
        assert(g is None);
    }
}

/// The first entry for a role says that it is met and gives evidence for it, and every
/// piece of evidence that it names is in the working set, in that role, and reliable.
pub open spec fn role_met(document: DeepContextIrV2, role: ItemRole) -> bool {
    let entries = document.status.role_sufficiency@;
    exists|e: int|
        {
            &&& 0 <= e < entries.len()
            &&& (#[trigger] entries[e]).role == role
            &&& forall|d: int| 0 <= d < e ==> (#[trigger] entries[d]).role != role
            &&& entry_met(entries[e], document.working_set@)
        }
}

/// The entry is met on reliable evidence of the working set.
pub open spec fn entry_met(entry: IrRoleSufficiencyV2, items: Seq<IrWorkingSetItemV2>) -> bool {
    let ids = entry.evidence_item_ids@;
    &&& entry.state == IrRequirementStateV2::Satisfied
    &&& entry.reason is None
    &&& ids.len() > 0
    &&& forall|i: int| 0 <= i < ids.len() ==> witnessed(items, (#[trigger] ids[i])@, entry.role)
}

/// The first item of that identity in that role rests on reliable evidence.
pub open spec fn witnessed(items: Seq<IrWorkingSetItemV2>, id: Seq<char>, role: ItemRole) -> bool {
    exists|k: int|
        {
            &&& 0 <= k < items.len()
            &&& in_role(#[trigger] items[k], id, role)
            &&& forall|j: int| 0 <= j < k ==> !in_role(#[trigger] items[j], id, role)
            &&& reliable(items[k].evidence.state)
        }
}

/// The item has that identity and that role.
pub open spec fn in_role(item: IrWorkingSetItemV2, id: Seq<char>, role: ItemRole) -> bool {
    item.item_id@ == id && item.role == role
}

proof fn lemma_first_item(
    items: Seq<IrWorkingSetItemV2>,
    id: Seq<char>,
    role: ItemRole,
    from: int,
) -> (k: int)
    requires
        0 <= from <= items.len(),
    ensures
        from <= k <= items.len(),
        k < items.len() ==> in_role(items[k], id, role),
        forall|j: int| from <= j < k ==> !in_role(#[trigger] items[j], id, role),
        deep_outcome::item_from(items, id, role, from) is Some <==> k < items.len(),
        k < items.len() ==> deep_outcome::item_from(items, id, role, from)->0.evidence.state
            == items[k].evidence.state,
    decreases items.len() - from,
{
    if from >= items.len() || in_role(items[from], id, role) {
        from
    } else {
        lemma_first_item(items, id, role, from + 1)
    }
}

proof fn lemma_witnessed(items: Seq<IrWorkingSetItemV2>, id: Seq<char>, role: ItemRole)
    ensures
        deep_outcome::item_cause(items, id, role) is None <==> witnessed(items, id, role),
{
    let k = lemma_first_item(items, id, role, 0);
    if witnessed(items, id, role) {
        let w = choose|w: int|
            {
                &&& 0 <= w < items.len()
                &&& in_role(#[trigger] items[w], id, role)
                &&& forall|j: int| 0 <= j < w ==> !in_role(#[trigger] items[j], id, role)
                &&& reliable(items[w].evidence.state)
            };
        if k < w {
            assert(!in_role(items[k], id, role));
        }
        if w < k {
            assert(!in_role(items[w], id, role));
        }
        assert(w == k);
    } else if k < items.len() {
        assert(in_role(items[k], id, role));
        assert(!reliable(items[k].evidence.state));
    }
}

proof fn lemma_entry_met(entry: IrRoleSufficiencyV2, items: Seq<IrWorkingSetItemV2>)
    ensures
        deep_outcome::gravest(deep_outcome::entry_causes(entry, items)) is None <==> entry_met(
            entry,
            items,
        ),
{
    let causes = deep_outcome::entry_causes(entry, items);
    let ids = entry.evidence_item_ids@;
    deep_outcome::law_gravest_cause(causes);
    assert(causes[0] == deep_outcome::graver(
        deep_outcome::state_cause(entry.state),
        deep_outcome::opt_omission_cause(entry.reason),
    ));
    assert(causes[1] == deep_outcome::cause_if(
        ids.len() == 0,
        CapabilityDeficitReason::Unavailable,
    ));
    assert forall|k: int| 2 <= k < causes.len() implies #[trigger] causes[k]
        == deep_outcome::item_cause(items, ids[k - 2]@, entry.role) by {}
    if deep_outcome::gravest(causes) is None {
        assert(causes[0] is None && causes[1] is None);
        assert forall|i: int| 0 <= i < ids.len() implies witnessed(
            items,
            (#[trigger] ids[i])@,
            entry.role,
        ) by {
            assert(causes[2 + i] is None);
            lemma_witnessed(items, ids[i]@, entry.role);
        }
    }
    if entry_met(entry, items) {
        assert forall|i: int| 0 <= i < causes.len() implies (#[trigger] causes[i]) is None by {
            if i >= 2 {
                let id = ids[i - 2];
                assert(witnessed(items, id@, entry.role));
                lemma_witnessed(items, id@, entry.role);
            }
        }
        if let Some(reason) = deep_outcome::gravest(causes) {
            let k = choose|k: int| 0 <= k < causes.len() && causes[k] == Some(reason);
            assert(causes[k] is None);
        }
    }
}

proof fn lemma_first_entry(
    entries: Seq<IrRoleSufficiencyV2>,
    role: ItemRole,
    from: int,
    items: Seq<IrWorkingSetItemV2>,
) -> (e: int)
    requires
        0 <= from <= entries.len(),
    ensures
        from <= e <= entries.len(),
        e < entries.len() ==> entries[e].role == role,
        forall|d: int| from <= d < e ==> (#[trigger] entries[d]).role != role,
        deep_context_ir::entry_from(entries, role, from) is Some <==> e < entries.len(),
        e < entries.len() ==> deep_outcome::entry_causes(
            deep_context_ir::entry_from(entries, role, from)->0,
            items,
        ) == deep_outcome::entry_causes(entries[e], items),
    decreases entries.len() - from,
{
    if from >= entries.len() || entries[from].role == role {
        from
    } else {
        lemma_first_entry(entries, role, from + 1, items)
    }
}

proof fn lemma_role_met(document: DeepContextIrV2, role: ItemRole)
    ensures
        document.role_verdict(role) is None <==> role_met(document, role),
{
    let entries = document.status.role_sufficiency@;
    let items = document.working_set@;
    let e = lemma_first_entry(entries, role, 0, items);
    if e < entries.len() {
        lemma_entry_met(entries[e], items);
    }
    if role_met(document, role) {
        let f = choose|f: int|
            {
                &&& 0 <= f < entries.len()
                &&& (#[trigger] entries[f]).role == role
                &&& forall|d: int| 0 <= d < f ==> (#[trigger] entries[d]).role != role
                &&& entry_met(entries[f], items)
            };
        if e < f {
            assert(entries[e].role != role);
        }
        if f < e {
            assert(entries[f].role != role);
        }
        assert(e == f);
    } else if e < entries.len() {
        assert(entries[e].role == role);
        assert(!entry_met(entries[e], items));
    }
}

/// Identity is delivered exactly where the role of the primary implementation is met.
pub proof fn law_identity_is_the_primary_implementation(
    requested: CapabilityMap,
    document: DeepContextIrV2,
    payload: PayloadView,
    materialization: Option<MaterializationView>,
)
    requires
        lacks(requested, RequiredCapability::IdentityLookup),
    ensures
        delivers(
            deep_outcome::deep_route_view(requested, document, payload, materialization),
            RequiredCapability::IdentityLookup,
        ) <==> role_met(document, ItemRole::PrimaryImplementation),
{
    let c = RequiredCapability::IdentityLookup;
    lemma_deep_capability(requested, document, payload, materialization, c);
    assert(document.verdict(c) == document.role_verdict(ItemRole::PrimaryImplementation));
    lemma_role_met(document, ItemRole::PrimaryImplementation);
}

/// History is delivered exactly where the role of a historical constraint is met.
pub proof fn law_history_is_the_historical_constraint(
    requested: CapabilityMap,
    document: DeepContextIrV2,
    payload: PayloadView,
    materialization: Option<MaterializationView>,
)
    requires
        lacks(requested, RequiredCapability::TemporalHistory),
    ensures
        delivers(
            deep_outcome::deep_route_view(requested, document, payload, materialization),
            RequiredCapability::TemporalHistory,
        ) <==> role_met(document, ItemRole::HistoricalConstraint),
{
    let c = RequiredCapability::TemporalHistory;
    lemma_deep_capability(requested, document, payload, materialization, c);
    assert(document.verdict(c) == document.role_verdict(ItemRole::HistoricalConstraint));
    lemma_role_met(document, ItemRole::HistoricalConstraint);
}

/// A role without an entry, or whose first entry gives no evidence, is unavailable or
/// worse; a role whose entry is in conflict is in conflict.
pub proof fn law_roles_without_evidence_are_missing(
    document: DeepContextIrV2,
    role: ItemRole,
    e: int,
)
    ensures
        ({
            let entries = document.status.role_sufficiency@;
            let first = 0 <= e < entries.len() && entries[e].role == role && forall|d: int|
                0 <= d < e ==> (#[trigger] entries[d]).role != role;
            &&& (forall|d: int| 0 <= d < entries.len() ==> (#[trigger] entries[d]).role != role)
                ==> document.role_verdict(role) == Some(CapabilityDeficitReason::Unavailable)
            &&& first && entries[e].evidence_item_ids@.len() == 0 ==> document.role_verdict(
                role,
            ) is Some
            &&& first && entries[e].state == IrRequirementStateV2::Conflicting
                ==> document.role_verdict(role) == Some(CapabilityDeficitReason::Conflicting)
            &&& first && entries[e].state == IrRequirementStateV2::Stale ==> document.role_verdict(
                role,
            ) == Some(CapabilityDeficitReason::Stale) || document.role_verdict(role) == Some(
                CapabilityDeficitReason::Conflicting,
            )
        }),
{
    let entries = document.status.role_sufficiency@;
    let items = document.working_set@;
    lemma_role_met(document, role);
    let f = lemma_first_entry(entries, role, 0, items);
    let first = 0 <= e < entries.len() && entries[e].role == role && forall|d: int|
        0 <= d < e ==> (#[trigger] entries[d]).role != role;
    if f < entries.len() {
        assert(entries[f].role == role);
    }
    if first {
        if e < f {
            assert(entries[e].role != role);
        }
        if f < e {
            assert(entries[f].role != role);
        }
        assert(f == e);
        let entry = entries[e];
        let causes = deep_outcome::entry_causes(entry, items);
        deep_outcome::law_gravest_cause(causes);
        lemma_entry_met(entry, items);
        assert(causes[0] == deep_outcome::graver(
            deep_outcome::state_cause(entry.state),
            deep_outcome::opt_omission_cause(entry.reason),
        ));
    }
}

/// Basic coverage is delivered exactly where no deficit is listed, nothing is partial,
/// failed or unsupported, and there is a complete claim on something eligible. Without
/// a listed deficit the reason is unsupported where something is, and unavailable
/// otherwise.
pub proof fn law_coverage_is_delivered_complete(
    requested: CapabilityMap,
    document: DeepContextIrV2,
    payload: PayloadView,
    materialization: Option<MaterializationView>,
)
    requires
        lacks(requested, RequiredCapability::BasicCoverageConflicts),
    ensures
        ({
            let o = deep_outcome::deep_route_view(requested, document, payload, materialization);
            let c = RequiredCapability::BasicCoverageConflicts;
            let coverage = document.coverage;
            let whole = coverage.partial == 0 && coverage.failed == 0 && coverage.unsupported == 0
                && coverage.eligible != 0 && coverage.complete != 0 && coverage.claim_strength
                != ClaimStrength::NoClaim;
            let deficits = coverage.deficits@;
            &&& coverage.partial >= 0 && coverage.failed >= 0 && coverage.unsupported >= 0 ==> (
            delivers(o, c) <==> deficits.len() == 0 && whole)
            &&& deficits.len() == 0 && coverage.unsupported > 0 ==> misses(
                o,
                c,
                CapabilityDeficitReason::Unsupported,
            )
            &&& deficits.len() == 0 && coverage.unsupported == 0 && (coverage.partial > 0
                || coverage.failed > 0 || coverage.eligible == 0 || coverage.complete == 0
                || coverage.claim_strength == ClaimStrength::NoClaim) ==> misses(
                o,
                c,
                CapabilityDeficitReason::Unavailable,
            )
            &&& deficits.contains(IrOmissionReasonV2::ConflictingEvidence) ==> misses(
                o,
                c,
                CapabilityDeficitReason::Conflicting,
            )
            &&& !deficits.contains(IrOmissionReasonV2::ConflictingEvidence) && (deficits.contains(
                IrOmissionReasonV2::StaleEvidence,
            ) || deficits.contains(IrOmissionReasonV2::SourceVerificationFailed)) ==> misses(
                o,
                c,
                CapabilityDeficitReason::Stale,
            )
        }),
{
    let c = RequiredCapability::BasicCoverageConflicts;
    lemma_deep_capability(requested, document, payload, materialization, c);
    let deficits = document.coverage.deficits@;
    let causes = deep_outcome::omission_causes(deficits);
    deep_outcome::law_gravest_cause(causes);
    assert forall|i: int| 0 <= i < deficits.len() implies #[trigger] causes[i] == Some(
        deep_outcome::omission_cause(deficits[i]),
    ) by {}
    let g = deep_outcome::gravest(causes);
    if deficits.len() > 0 {
        assert(causes[0] is Some);
    }
    if let Some(reason) = g {
        let k = choose|k: int| 0 <= k < causes.len() && causes[k] == Some(reason);
        assert(causes[k] == Some(deep_outcome::omission_cause(deficits[k])));
        assert(deficits.contains(deficits[k]));
    }
    if deficits.contains(IrOmissionReasonV2::ConflictingEvidence) {
        let i = choose|i: int|
            0 <= i < deficits.len() && deficits[i] == IrOmissionReasonV2::ConflictingEvidence;
        assert(causes[i] == Some(CapabilityDeficitReason::Conflicting));
    } else if deficits.contains(IrOmissionReasonV2::StaleEvidence) {
        let i = choose|i: int|
            0 <= i < deficits.len() && deficits[i] == IrOmissionReasonV2::StaleEvidence;
        assert(causes[i] == Some(CapabilityDeficitReason::Stale));
    } else if deficits.contains(IrOmissionReasonV2::SourceVerificationFailed) {
        let i = choose|i: int|
            0 <= i < deficits.len() && deficits[i] == IrOmissionReasonV2::SourceVerificationFailed;
        assert(causes[i] == Some(CapabilityDeficitReason::Stale));
    }
    assert(document.verdict(c) == document.coverage_verdict());
}

/// A validation plan is delivered exactly where the document says so, the plan names
/// something, and the role of a validation target is met. An empty plan is never
/// delivered.
pub proof fn law_validation_plans_are_delivered_whole(
    requested: CapabilityMap,
    document: DeepContextIrV2,
    payload: PayloadView,
    materialization: Option<MaterializationView>,
)
    requires
        lacks(requested, RequiredCapability::ValidationPlan),
    ensures
        delivers(
            deep_outcome::deep_route_view(requested, document, payload, materialization),
            RequiredCapability::ValidationPlan,
        ) <==> plan_ready(document),
        document.status.validation == IrRequirementStateV2::Conflicting ==> misses(
            deep_outcome::deep_route_view(requested, document, payload, materialization),
            RequiredCapability::ValidationPlan,
            CapabilityDeficitReason::Conflicting,
        ),
{
    let c = RequiredCapability::ValidationPlan;
    lemma_deep_capability(requested, document, payload, materialization, c);
    lemma_role_met(document, ItemRole::ValidationTarget);
    assert(document.verdict(c) == document.validation_verdict());
}

/// The document has a plan for validation, and someone to carry it out.
pub open spec fn plan_ready(document: DeepContextIrV2) -> bool {
    document.status.validation == IrRequirementStateV2::Satisfied
        && document.validation_plan@.len() > 0 && role_met(document, ItemRole::ValidationTarget)
}

/// The document has exact source, all of it current.
pub open spec fn source_ready(document: DeepContextIrV2) -> bool {
    let items = document.working_set@;
    &&& document.status.exact_source == IrRequirementStateV2::Satisfied
    &&& exists|i: int| 0 <= i < items.len() && (#[trigger] items[i]).source is Some
    &&& forall|i: int|
        0 <= i < items.len() && (#[trigger] items[i]).source is Some ==> current_source(
            items[i].source->0,
        )
}

proof fn lemma_source_ready(document: DeepContextIrV2)
    ensures
        document.exact_source_verdict() is None <==> source_ready(document),
{
    lemma_source_causes(document.working_set@);
}

proof fn lemma_plan_ready(document: DeepContextIrV2)
    ensures
        document.validation_verdict() is None <==> plan_ready(document),
{
    lemma_role_met(document, ItemRole::ValidationTarget);
}

/// Every required role is met.
pub open spec fn required_roles_met(document: DeepContextIrV2) -> bool {
    let entries = document.status.role_sufficiency@;
    forall|e: int|
        0 <= e < entries.len() && (#[trigger] entries[e]).required ==> role_met(
            document,
            entries[e].role,
        )
}

proof fn lemma_required_roles(document: DeepContextIrV2)
    ensures
        deep_outcome::gravest(document.required_role_causes()) is None <==> required_roles_met(
            document,
        ),
{
    let entries = document.status.role_sufficiency@;
    let causes = document.required_role_causes();
    deep_outcome::law_gravest_cause(causes);
    if deep_outcome::gravest(causes) is None {
        assert forall|e: int| 0 <= e < entries.len() && (#[trigger] entries[e]).required implies
            role_met(document, entries[e].role) by {
            assert(causes[e] is None);
            lemma_role_met(document, entries[e].role);
        }
    } else {
        let reason = deep_outcome::gravest(causes)->0;
        let k = choose|k: int| 0 <= k < causes.len() && causes[k] == Some(reason);
        assert(causes[k] is Some);
        assert(entries[k].required);
        lemma_role_met(document, entries[k].role);
    }
}

proof fn lemma_closure(document: DeepContextIrV2)
    ensures
        document.role_closure_verdict() is None <==> {
            &&& document.any_required_role()
            &&& required_roles_met(document)
            &&& source_ready(document)
            &&& plan_ready(document)
        },
{
    lemma_source_ready(document);
    lemma_plan_ready(document);
    lemma_required_roles(document);
}

/// The required roles are closed exactly where there is a required role, every required
/// role is met, and exact source and a validation plan are there.
pub proof fn law_role_closure_needs_every_required_role(
    requested: CapabilityMap,
    document: DeepContextIrV2,
    payload: PayloadView,
    materialization: Option<MaterializationView>,
)
    requires
        lacks(requested, RequiredCapability::RequiredRoleClosure),
    ensures
        ({
            let entries = document.status.role_sufficiency@;
            delivers(
                deep_outcome::deep_route_view(requested, document, payload, materialization),
                RequiredCapability::RequiredRoleClosure,
            ) <==> {
                &&& exists|e: int| 0 <= e < entries.len() && (#[trigger] entries[e]).required
                &&& forall|e: int|
                    0 <= e < entries.len() && (#[trigger] entries[e]).required ==> role_met(
                        document,
                        entries[e].role,
                    )
                &&& source_ready(document)
                &&& plan_ready(document)
            }
        }),
{
    let c = RequiredCapability::RequiredRoleClosure;
    lemma_deep_capability(requested, document, payload, materialization, c);
    assert(document.verdict(c) == document.role_closure_verdict());
    lemma_closure(document);
}

/// A deep attempt is complete exactly where it delivers every capability that was
/// asked for; what the caller has counts. It accounts for the work of its document as
/// one call, says where evidence was left out, and hands source on only with something
/// delivered.
pub proof fn law_deep_attempts_say_what_they_are(
    requested: CapabilityMap,
    document: DeepContextIrV2,
    payload: PayloadView,
    materialization: Option<MaterializationView>,
)
    ensures
        ({
            let o = deep_outcome::deep_route_view(requested, document, payload, materialization);
            let truncated = document.omissions.truncated;
            &&& o is Completed <==> forall|c: RequiredCapability|
                requested.state(c) is Some ==> #[trigger] delivers(o, c)
            &&& o is Completed || o is Deficient
            &&& o matches OutcomeView::Completed {
                payload: p,
                counters,
                diagnostics,
                materialization: m,
            } ==> {
                &&& p == payload && m == materialization
                &&& counters.atlas_calls == 1
                &&& counters.records == document.cost.selected_records
                &&& counters.source_bytes == document.cost.selected_source_bytes
                &&& counters.estimated_tokens == document.cost.selected_estimated_tokens
                &&& counters.work_units == document.cost.work_units_consumed
                &&& diagnostics.len() == (if truncated {
                    1int
                } else {
                    0
                })
            }
            &&& o matches OutcomeView::Deficient {
                payload: p,
                satisfied,
                counters,
                diagnostics,
                materialization: m,
                ..
            } ==> {
                &&& p == Some(payload)
                &&& m is Some ==> satisfied.len() > 0 && m == materialization
                &&& satisfied.len() > 0 ==> m == materialization
                &&& counters.atlas_calls == 1
                &&& counters.records == document.cost.selected_records
                &&& counters.source_bytes == document.cost.selected_source_bytes
                &&& counters.estimated_tokens == document.cost.selected_estimated_tokens
                &&& counters.work_units == document.cost.work_units_consumed
                &&& diagnostics.len() == (if truncated {
                    1int
                } else {
                    0
                })
            }
        }),
{
    let o = deep_outcome::deep_route_view(requested, document, payload, materialization);
    lemma_sorted_capability(
        requested,
        &document,
        RequiredCapability::IdentityLookup,
        CapabilityDeficitReason::Conflicting,
    );
    if o is Deficient {
        let c = choose|c: RequiredCapability| #[trigger]
            lacks(requested, c) && document.verdict(c) is Some;
        lemma_deep_capability(requested, document, payload, materialization, c);
        assert(!delivers(o, c));
    }
}

/// What a reason for leaving something out comes to as a deficit.
pub proof fn law_omissions_have_their_deficit(reason: IrOmissionReasonV2)
    ensures
        deep_outcome::omission_cause(reason) == CapabilityDeficitReason::Conflicting <==> reason
            == IrOmissionReasonV2::ConflictingEvidence,
        deep_outcome::omission_cause(reason) == CapabilityDeficitReason::Stale <==> reason
            == IrOmissionReasonV2::StaleEvidence || reason
            == IrOmissionReasonV2::SourceVerificationFailed,
        deep_outcome::omission_cause(reason) == CapabilityDeficitReason::Ambiguous <==> reason
            == IrOmissionReasonV2::UnresolvedEvidence || reason == IrOmissionReasonV2::AmbiguousSeed
            || reason == IrOmissionReasonV2::FtsCandidateLimit,
        deep_outcome::omission_cause(reason) == CapabilityDeficitReason::Unsupported <==> reason
            == IrOmissionReasonV2::UnsupportedEvidence,
        deep_outcome::omission_cause(reason) == CapabilityDeficitReason::Unavailable <==> reason
            == IrOmissionReasonV2::MissingRequiredRole || reason
            == IrOmissionReasonV2::UnavailableEvidence || reason
            == IrOmissionReasonV2::TemporalEvidenceUnavailable || reason
            == IrOmissionReasonV2::ValidationTargetUnavailable,
{
}

/// What the state of a requirement comes to as a deficit: none where it is met.
pub proof fn law_requirement_states_have_their_deficit(state: IrRequirementStateV2)
    ensures
        deep_outcome::state_cause(state) is None <==> state == IrRequirementStateV2::Satisfied,
        deep_outcome::state_cause(state) == Some(CapabilityDeficitReason::Conflicting) <==> state
            == IrRequirementStateV2::Conflicting,
        deep_outcome::state_cause(state) == Some(CapabilityDeficitReason::Stale) <==> state
            == IrRequirementStateV2::Stale,
        deep_outcome::state_cause(state) == Some(CapabilityDeficitReason::Ambiguous) <==> state
            == IrRequirementStateV2::Unresolved,
        deep_outcome::state_cause(state) == Some(CapabilityDeficitReason::Unsupported) <==> state
            == IrRequirementStateV2::Unsupported,
        deep_outcome::state_cause(state) == Some(CapabilityDeficitReason::SemanticBudgetOmitted)
            <==> state == IrRequirementStateV2::BudgetOmitted,
{
}

} // verus!
