//! What a LIGHT attempt delivers, said of what was looked up.
use vstd::prelude::*;

use crate::context_execution::CapabilityDeficitReason;
use crate::context_route::{
    CallerCapabilityState, CapabilityMap, OperationView, RequiredCapability,
};
use crate::deep_outcome::CapabilityJudge;
use crate::deep_outcome_laws::{delivers, lemma_sorted_capability, misses};
use crate::light_outcome;
use crate::light_outcome::{
    CatalogueLightSourceReference, LightAspects, LightLookups, LightQueryProjection, LightRows,
    SourceDecision,
};
use crate::routing_laws::lacks;

verus! {

/// What a light attempt says of a capability is what was found of it; one that the
/// caller has counts as delivered.
proof fn lemma_light_capability(
    requested: CapabilityMap,
    operations: Seq<OperationView>,
    path_targets: int,
    symbol_targets: int,
    lookups: LightLookups,
    capability: RequiredCapability,
)
    requires
        requested.state(capability) is Some,
    ensures
        ({
            let o = light_outcome::light_route_view(
                requested,
                operations,
                path_targets,
                symbol_targets,
                lookups,
            );
            let found = light_outcome::light_evidence(
                requested,
                operations,
                path_targets,
                symbol_targets,
                lookups,
            ).findings();
            &&& delivers(o, capability) <==> requested.state(capability) == Some(
                CallerCapabilityState::Satisfied,
            ) || found.verdict(capability) is None
            &&& forall|reason: CapabilityDeficitReason| #[trigger]
                misses(o, capability, reason) <==> lacks(requested, capability) && found.verdict(
                    capability,
                ) == Some(reason)
        }),
{
    let o = light_outcome::light_route_view(
        requested,
        operations,
        path_targets,
        symbol_targets,
        lookups,
    );
    let found = light_outcome::light_evidence(
        requested,
        operations,
        path_targets,
        symbol_targets,
        lookups,
    ).findings();
    lemma_sorted_capability(
        requested,
        &found,
        capability,
        CapabilityDeficitReason::Conflicting,
    );
    assert forall|reason: CapabilityDeficitReason| #[trigger] misses(o, capability, reason)
        <==> lacks(requested, capability) && found.verdict(capability) == Some(reason) by {
        lemma_sorted_capability(requested, &found, capability, reason);
    }
    match requested.state(capability)->0 {
        CallerCapabilityState::Satisfied => {},
        CallerCapabilityState::Unsatisfied => {
            assert(lacks(requested, capability));
        },
        CallerCapabilityState::Unknown => {
            assert(lacks(requested, capability));
        },
    }
}

/// The file is on disk as it was indexed.
pub open spec fn unchanged(reference: CatalogueLightSourceReference) -> bool {
    &&& reference.status@ == "verified"@
    &&& reference.indexed_hash is Some && reference.observed_hash is Some
    &&& reference.indexed_hash->0@ == reference.observed_hash->0@
}

/// LIGHT delivers exact source exactly where there is a path, each path has its
/// reference, and every reference shows the file on disk as it was indexed. A missing
/// file makes it unsupported; else a changed one makes it stale; else one that could
/// not be read makes it unavailable.
pub proof fn law_light_delivers_only_unchanged_source(
    requested: CapabilityMap,
    operations: Seq<OperationView>,
    path_targets: int,
    symbol_targets: int,
    lookups: LightLookups,
)
    requires
        lacks(requested, RequiredCapability::ExactSource),
        path_targets >= 0,
    ensures
        ({
            let o = light_outcome::light_route_view(
                requested,
                operations,
                path_targets,
                symbol_targets,
                lookups,
            );
            let c = RequiredCapability::ExactSource;
            let all = lookups.references@;
            let missing = exists|i: int|
                0 <= i < all.len() && (#[trigger] all[i]).status@ == "not_found"@;
            let changed = exists|i: int|
                0 <= i < all.len() && (#[trigger] all[i]).status@ == "hash_mismatch"@;
            let unread = exists|i: int|
                0 <= i < all.len() && (#[trigger] all[i]).status@ != "verified"@ && all[i].status@
                    != "not_found"@ && all[i].status@ != "hash_mismatch"@;
            &&& delivers(o, c) <==> path_targets > 0 && all.len() == path_targets && forall|i: int|
                0 <= i < all.len() ==> unchanged(#[trigger] all[i])
            &&& path_targets > 0 && missing ==> misses(o, c, CapabilityDeficitReason::Unsupported)
            &&& path_targets > 0 && !missing && changed ==> misses(
                o,
                c,
                CapabilityDeficitReason::Stale,
            )
            &&& path_targets > 0 && !missing && !changed && unread ==> misses(
                o,
                c,
                CapabilityDeficitReason::Unavailable,
            )
            &&& path_targets == 0 ==> misses(o, c, CapabilityDeficitReason::Unsupported)
        }),
{
    let c = RequiredCapability::ExactSource;
    lemma_light_capability(requested, operations, path_targets, symbol_targets, lookups, c);
    let e = light_outcome::light_evidence(
        requested,
        operations,
        path_targets,
        symbol_targets,
        lookups,
    );
    let all = lookups.references@;
    reveal_strlit("verified");
    reveal_strlit("not_found");
    reveal_strlit("hash_mismatch");
    assert("verified"@.len() == 8 && "not_found"@.len() == 9 && "hash_mismatch"@.len() == 13);
    assert(light_outcome::needs_atlas(requested, c));
    if path_targets > 0 {
        assert(e.references == all);
    } else {
        assert(e.references.len() == 0);
    }
    let s = e.findings().sources;
    assert(s == light_outcome::source_summary(e.references, path_targets));
    assert forall|i: int| 0 <= i < all.len() implies (light_outcome::reference_verified(
        #[trigger] all[i],
    ) <==> unchanged(all[i])) by {}
    if path_targets > 0 && all.len() == path_targets && forall|i: int|
        0 <= i < all.len() ==> unchanged(#[trigger] all[i]) {
        assert(s.all_verified);
        assert(!s.any_missing && !s.any_stale && !s.any_unavailable);
    }
    if s.all_verified {
        assert forall|i: int| 0 <= i < all.len() implies unchanged(#[trigger] all[i]) by {
            assert(light_outcome::reference_verified(all[i]));
        }
    }
}

/// Every target was looked up, and each has exactly one identity.
pub open spec fn all_identified(
    projections: Seq<LightQueryProjection>,
    path_targets: int,
    symbol_targets: int,
) -> bool {
    &&& projections.len() > 0
    &&& projections.len() >= path_targets + symbol_targets
    &&& forall|i: int|
        0 <= i < projections.len() ==> (#[trigger] projections[i]).result.identity_matches@.len()
            == 1
}

/// LIGHT delivers identity exactly where every target was looked up and each has
/// exactly one match. It is left to the budget where a target was not looked up, else
/// unsupported where one has no match, else ambiguous.
pub proof fn law_light_identity_is_one_match_each(
    requested: CapabilityMap,
    operations: Seq<OperationView>,
    path_targets: int,
    symbol_targets: int,
    lookups: LightLookups,
)
    requires
        lacks(requested, RequiredCapability::IdentityLookup),
        path_targets >= 0,
        symbol_targets >= 0,
        path_targets + symbol_targets > 0,
    ensures
        ({
            let o = light_outcome::light_route_view(
                requested,
                operations,
                path_targets,
                symbol_targets,
                lookups,
            );
            let c = RequiredCapability::IdentityLookup;
            let all = lookups.projections@;
            let nothing = exists|i: int|
                0 <= i < all.len() && (#[trigger] all[i]).result.identity_matches@.len() == 0;
            &&& delivers(o, c) <==> all_identified(all, path_targets, symbol_targets)
            &&& misses(o, c, CapabilityDeficitReason::SemanticBudgetOmitted) <==> all.len()
                < path_targets + symbol_targets
            &&& misses(o, c, CapabilityDeficitReason::Unsupported) <==> all.len() >= path_targets
                + symbol_targets && nothing
            &&& misses(o, c, CapabilityDeficitReason::Ambiguous) <==> all.len() >= path_targets
                + symbol_targets && !nothing && exists|i: int|
                0 <= i < all.len() && (#[trigger] all[i]).result.identity_matches@.len() > 1
        }),
{
    let c = RequiredCapability::IdentityLookup;
    lemma_light_capability(requested, operations, path_targets, symbol_targets, lookups, c);
    assert(light_outcome::needs_atlas(requested, c));
    lemma_identity(lookups.projections@, lookups.projections@.len() < path_targets + symbol_targets);
}

proof fn lemma_identity(all: Seq<LightQueryProjection>, omitted: bool)
    ensures
        ({
            let q = light_outcome::query_summary(all, omitted);
            let nothing = exists|i: int|
                0 <= i < all.len() && (#[trigger] all[i]).result.identity_matches@.len() == 0;
            let many = exists|i: int|
                0 <= i < all.len() && (#[trigger] all[i]).result.identity_matches@.len() > 1;
            &&& q.omitted == omitted
            &&& q.identity == if all.len() == 0 || nothing {
                Some(CapabilityDeficitReason::Unsupported)
            } else if many {
                Some(CapabilityDeficitReason::Ambiguous)
            } else {
                None
            }
        }),
{
    let f = |p: LightQueryProjection| p.result.identity_matches@.len() == 0;
    let g = |p: LightQueryProjection| p.result.identity_matches@.len() > 1;
    assert(light_outcome::some_projection(all, f) <==> exists|i: int|
        0 <= i < all.len() && (#[trigger] all[i]).result.identity_matches@.len() == 0) by {
        if light_outcome::some_projection(all, f) {
            let i = choose|i: int| 0 <= i < all.len() && f(#[trigger] all[i]);
            assert(all[i].result.identity_matches@.len() == 0);
        }
        if exists|i: int|
            0 <= i < all.len() && (#[trigger] all[i]).result.identity_matches@.len() == 0 {
            let i = choose|i: int|
                0 <= i < all.len() && (#[trigger] all[i]).result.identity_matches@.len() == 0;
            assert(f(all[i]));
        }
    }
    assert(light_outcome::some_projection(all, g) <==> exists|i: int|
        0 <= i < all.len() && (#[trigger] all[i]).result.identity_matches@.len() > 1) by {
        if light_outcome::some_projection(all, g) {
            let i = choose|i: int| 0 <= i < all.len() && g(#[trigger] all[i]);
            assert(all[i].result.identity_matches@.len() > 1);
        }
        if exists|i: int|
            0 <= i < all.len() && (#[trigger] all[i]).result.identity_matches@.len() > 1 {
            let i = choose|i: int|
                0 <= i < all.len() && (#[trigger] all[i]).result.identity_matches@.len() > 1;
            assert(g(all[i]));
        }
    }
}

proof fn lemma_some(
    all: Seq<LightQueryProjection>,
    property: spec_fn(LightQueryProjection) -> bool,
)
    ensures
        light_outcome::some_projection(all, property) <==> exists|i: int|
            0 <= i < all.len() && property(#[trigger] all[i]),
        light_outcome::every_projection(all, property) <==> forall|i: int|
            0 <= i < all.len() ==> property(#[trigger] all[i]),
{
}

/// LIGHT delivers relationships exactly where every target is identified, nothing of
/// them was left out, none is in conflict, and every target has evidence of them.
/// Something left out comes before a missing identity, that before a conflict, and that
/// before a lack of evidence.
pub proof fn law_light_relationships_are_whole(
    requested: CapabilityMap,
    operations: Seq<OperationView>,
    path_targets: int,
    symbol_targets: int,
    lookups: LightLookups,
)
    requires
        lacks(requested, RequiredCapability::BoundedRelationships),
        path_targets >= 0,
        symbol_targets >= 0,
        path_targets + symbol_targets > 0,
    ensures
        ({
            let o = light_outcome::light_route_view(
                requested,
                operations,
                path_targets,
                symbol_targets,
                lookups,
            );
            let c = RequiredCapability::BoundedRelationships;
            let all = lookups.projections@;
            let omitted = all.len() < path_targets + symbol_targets || exists|i: int|
                0 <= i < all.len() && (#[trigger] all[i]).relationship_omitted;
            let conflicting = exists|i: int|
                0 <= i < all.len() && (#[trigger] all[i]).relationship_conflicting;
            let identified = all_identified(all, path_targets, symbol_targets);
            &&& delivers(o, c) <==> identified && forall|i: int|
                0 <= i < all.len() ==> (#[trigger] all[i]).relationship_evidence
                    && !all[i].relationship_omitted && !all[i].relationship_conflicting
            &&& misses(o, c, CapabilityDeficitReason::SemanticBudgetOmitted) <==> omitted
            &&& misses(o, c, CapabilityDeficitReason::Conflicting) <==> !omitted && identified
                && conflicting
            &&& misses(o, c, CapabilityDeficitReason::Unavailable) <==> !omitted && identified
                && !conflicting && exists|i: int|
                0 <= i < all.len() && !(#[trigger] all[i]).relationship_evidence
        }),
{
    let c = RequiredCapability::BoundedRelationships;
    lemma_light_capability(requested, operations, path_targets, symbol_targets, lookups, c);
    let all = lookups.projections@;
    assert(light_outcome::needs_atlas(requested, c));
    lemma_identity(all, all.len() < path_targets + symbol_targets);
    lemma_some(all, |p: LightQueryProjection| p.relationship_omitted);
    lemma_some(all, |p: LightQueryProjection| p.relationship_conflicting);
    lemma_some(all, |p: LightQueryProjection| p.relationship_evidence);
}

/// LIGHT delivers the impact frontier exactly where every target is identified, nothing
/// of it was left out, neither it nor a relationship is in conflict, and every target
/// has evidence of it.
pub proof fn law_light_impact_is_whole(
    requested: CapabilityMap,
    operations: Seq<OperationView>,
    path_targets: int,
    symbol_targets: int,
    lookups: LightLookups,
)
    requires
        lacks(requested, RequiredCapability::ImpactFrontier),
        path_targets >= 0,
        symbol_targets >= 0,
        path_targets + symbol_targets > 0,
    ensures
        ({
            let o = light_outcome::light_route_view(
                requested,
                operations,
                path_targets,
                symbol_targets,
                lookups,
            );
            let c = RequiredCapability::ImpactFrontier;
            let all = lookups.projections@;
            let omitted = all.len() < path_targets + symbol_targets || exists|i: int|
                0 <= i < all.len() && (#[trigger] all[i]).impact_omitted;
            let conflicting = exists|i: int|
                0 <= i < all.len() && ((#[trigger] all[i]).relationship_conflicting
                    || all[i].impact_conflicting);
            let identified = all_identified(all, path_targets, symbol_targets);
            &&& delivers(o, c) <==> identified && forall|i: int|
                0 <= i < all.len() ==> (#[trigger] all[i]).impact_evidence && !all[i].impact_omitted
                    && !all[i].impact_conflicting && !all[i].relationship_conflicting
            &&& misses(o, c, CapabilityDeficitReason::SemanticBudgetOmitted) <==> omitted
            &&& misses(o, c, CapabilityDeficitReason::Conflicting) <==> !omitted && identified
                && conflicting
            &&& misses(o, c, CapabilityDeficitReason::Unavailable) <==> !omitted && identified
                && !conflicting && exists|i: int|
                0 <= i < all.len() && !(#[trigger] all[i]).impact_evidence
        }),
{
    let c = RequiredCapability::ImpactFrontier;
    lemma_light_capability(requested, operations, path_targets, symbol_targets, lookups, c);
    let all = lookups.projections@;
    assert(light_outcome::needs_atlas(requested, c));
    lemma_identity(all, all.len() < path_targets + symbol_targets);
    lemma_some(all, |p: LightQueryProjection| p.impact_omitted);
    lemma_some(
        all,
        |p: LightQueryProjection| p.relationship_conflicting || p.impact_conflicting,
    );
    lemma_some(all, |p: LightQueryProjection| p.impact_evidence);
}

/// LIGHT delivers coverage exactly where every target is identified, nothing of it was
/// left out, it is not in conflict, and it is complete and unlimited for every target.
pub proof fn law_light_coverage_is_whole(
    requested: CapabilityMap,
    operations: Seq<OperationView>,
    path_targets: int,
    symbol_targets: int,
    lookups: LightLookups,
)
    requires
        lacks(requested, RequiredCapability::BasicCoverageConflicts),
        path_targets >= 0,
        symbol_targets >= 0,
        path_targets + symbol_targets > 0,
    ensures
        ({
            let o = light_outcome::light_route_view(
                requested,
                operations,
                path_targets,
                symbol_targets,
                lookups,
            );
            let c = RequiredCapability::BasicCoverageConflicts;
            let all = lookups.projections@;
            let omitted = all.len() < path_targets + symbol_targets || exists|i: int|
                0 <= i < all.len() && (#[trigger] all[i]).coverage_omitted;
            let conflicting = exists|i: int|
                0 <= i < all.len() && ((#[trigger] all[i]).coverage_conflicting || (
                all[i].coverage_complete && all[i].coverage_limited));
            let identified = all_identified(all, path_targets, symbol_targets);
            &&& delivers(o, c) <==> identified && forall|i: int|
                0 <= i < all.len() ==> (#[trigger] all[i]).coverage_complete
                    && !all[i].coverage_limited && !all[i].coverage_omitted
                    && !all[i].coverage_conflicting
            &&& misses(o, c, CapabilityDeficitReason::SemanticBudgetOmitted) <==> omitted
            &&& misses(o, c, CapabilityDeficitReason::Conflicting) <==> !omitted && identified
                && conflicting
            &&& misses(o, c, CapabilityDeficitReason::Unavailable) <==> !omitted && identified
                && !conflicting && exists|i: int|
                0 <= i < all.len() && !((#[trigger] all[i]).coverage_complete
                    && !all[i].coverage_limited)
        }),
{
    let c = RequiredCapability::BasicCoverageConflicts;
    lemma_light_capability(requested, operations, path_targets, symbol_targets, lookups, c);
    let all = lookups.projections@;
    assert(light_outcome::needs_atlas(requested, c));
    lemma_identity(all, all.len() < path_targets + symbol_targets);
    lemma_some(all, |p: LightQueryProjection| p.coverage_omitted);
    lemma_some(
        all,
        |p: LightQueryProjection|
            p.coverage_conflicting || (p.coverage_complete && p.coverage_limited),
    );
    lemma_some(all, |p: LightQueryProjection| p.coverage_complete && !p.coverage_limited);
}

/// What only DEEP can deliver, LIGHT reports as unavailable; what the caller has, every
/// light attempt counts as delivered.
pub proof fn law_light_leaves_the_rest_to_deep(
    requested: CapabilityMap,
    operations: Seq<OperationView>,
    path_targets: int,
    symbol_targets: int,
    lookups: LightLookups,
    capability: RequiredCapability,
)
    ensures
        ({
            let o = light_outcome::light_route_view(
                requested,
                operations,
                path_targets,
                symbol_targets,
                lookups,
            );
            &&& lacks(requested, capability) && (capability == RequiredCapability::TemporalHistory
                || capability == RequiredCapability::RequiredRoleClosure || capability
                == RequiredCapability::ValidationPlan) ==> !delivers(o, capability) && misses(
                o,
                capability,
                CapabilityDeficitReason::Unavailable,
            )
            &&& requested.state(capability) == Some(CallerCapabilityState::Satisfied) ==> delivers(
                o,
                capability,
            )
        }),
{
    if requested.state(capability) is Some {
        lemma_light_capability(
            requested,
            operations,
            path_targets,
            symbol_targets,
            lookups,
            capability,
        );
    }
}

/// What a projection proves of a target, said of its rows: relationships and impact are
/// evidence where there are some and none was cut off, impact only where every row names
/// what it leads to; coverage is complete where there is some, none was cut off and all
/// of it is; a conflict over a relationship or an effect, or over coverage, is one.
pub proof fn law_projections_prove_what_their_rows_show(
    p: LightQueryProjection,
    target: Seq<char>,
    symbol: bool,
    rows: LightRows,
    asked: LightAspects,
)
    requires
        light_outcome::projects(p, target, symbol, rows, asked),
    ensures
        p.result.target@ == target,
        p.result.identity_matches@ == rows.identity_matches@,
        p.relationship_evidence <==> asked.relationships && 1 <= rows.relationships@.len() <= 2,
        asked.relationships && rows.relationships@.len() > 2 ==> p.relationship_omitted
            && p.result.relationships_truncated,
        asked.impact && rows.impact_targets@.len() > 2 ==> p.impact_omitted
            && p.result.impact_truncated,
        asked.coverage && rows.coverage is Some && rows.coverage->0@.len() > 2
            ==> p.coverage_omitted && p.coverage_limited && !p.coverage_complete,
        (asked.relationships || asked.impact || asked.coverage) && rows.conflicts@.len() > 2
            ==> p.relationship_omitted && p.impact_omitted && p.coverage_omitted,
        asked.impact && rows.impact_targets@.len() <= 2 ==> (p.impact_evidence
            <==> rows.impact_targets@.len() > 0 && forall|i: int|
            0 <= i < rows.impact_targets@.len() ==> light_outcome::impact_qualified(
                #[trigger] rows.impact_targets@[i],
            )),
        asked.impact && rows.impact_targets@.len() <= 2 && (exists|i: int|
            0 <= i < rows.impact_targets@.len() && !light_outcome::impact_qualified(
                #[trigger] rows.impact_targets@[i],
            )) ==> p.impact_conflicting,
        asked.coverage && rows.coverage is Some && rows.coverage->0@.len() <= 2 ==> (
        p.coverage_complete && !p.coverage_limited <==> rows.coverage->0@.len() > 0 && forall|i: int|
            0 <= i < rows.coverage->0@.len() ==> (#[trigger] rows.coverage->0@[i]).status@
                == "complete"@),
        asked.coverage && rows.coverage is None ==> !p.coverage_complete,
        !asked.relationships && !asked.impact && !asked.coverage ==> !p.relationship_conflicting
            && !p.coverage_conflicting && p.result.conflicts is None,
        (asked.relationships || asked.impact || asked.coverage) && rows.conflicts@.len() <= 2 ==> {
            &&& p.relationship_conflicting <==> exists|i: int|
                0 <= i < rows.conflicts@.len() && ((#[trigger] rows.conflicts@[i]).subject_kind@
                    == "relationship"@ || rows.conflicts@[i].subject_kind@ == "effect"@)
            &&& p.coverage_conflicting <==> exists|i: int|
                0 <= i < rows.conflicts@.len() && (#[trigger] rows.conflicts@[i]).subject_kind@
                    == "coverage"@
        },
{
}

/// An impact row leads somewhere exactly where it names a symbol that was resolved or a
/// file that was.
pub proof fn law_impact_names_its_target(row: light_outcome::CatalogueLightImpactTarget)
    ensures
        light_outcome::impact_qualified(row) ==> row.resolved_ref_value is Some
            && row.resolved_ref_value->0@.len() > 0 && row.resolved_ref_kind is Some && ((
        row.resolution_status@ == "resolved_symbol"@ && row.resolved_ref_kind->0@ == "symbol"@) || (
        row.resolution_status@ == "resolved_file"@ && row.resolved_ref_kind->0@ == "path"@)),
        row.resolved_ref_value is Some && row.resolved_ref_value->0@.len() > 0
            && row.resolved_ref_kind is Some && row.resolved_ref_kind->0@ == "symbol"@
            && row.resolution_status@ == "resolved_symbol"@ ==> light_outcome::impact_qualified(
            row,
        ),
        row.resolved_ref_value is Some && row.resolved_ref_value->0@.len() > 0
            && row.resolved_ref_kind is Some && row.resolved_ref_kind->0@ == "path"@
            && row.resolution_status@ == "resolved_file"@ ==> light_outcome::impact_qualified(row),
{
}

/// The source of a path is read only where its size is known, and then exactly where
/// what has been scheduled and it together stay within the limit.
pub proof fn law_source_is_read_within_the_budget(
    scheduled: int,
    byte_size: Option<i64>,
    max_source_bytes: int,
)
    requires
        scheduled >= 0,
    ensures
        ({
            let d = light_outcome::source_decision(scheduled, byte_size, max_source_bytes);
            &&& d == SourceDecision::Verify ==> byte_size is Some && byte_size->0 >= 0 && scheduled
                + byte_size->0 <= max_source_bytes
            &&& d == SourceDecision::OverBudget ==> byte_size is Some && scheduled + byte_size->0
                > max_source_bytes
            &&& d == SourceDecision::NotFound ==> byte_size is None || byte_size->0 < 0
        }),
{
}

/// What LIGHT looks up: a query where something that a query answers is lacking, or
/// nothing at all is, and there is a target; references where exact source is lacking
/// and there is a path. A query asks for each aspect that is lacking.
pub proof fn law_light_looks_up_what_is_lacking(
    requested: CapabilityMap,
    path_targets: int,
    symbol_targets: int,
)
    requires
        path_targets >= 0,
        symbol_targets >= 0,
    ensures
        ({
            let plan = light_outcome::light_plan_of(requested, path_targets, symbol_targets);
            let answered = lacks(requested, RequiredCapability::IdentityLookup) || lacks(
                requested,
                RequiredCapability::BoundedRelationships,
            ) || lacks(requested, RequiredCapability::ImpactFrontier) || lacks(
                requested,
                RequiredCapability::BasicCoverageConflicts,
            );
            &&& answered && path_targets + symbol_targets > 0 ==> plan.query
            &&& plan.query ==> path_targets + symbol_targets > 0 && (answered || forall|
                c: RequiredCapability,
            | !#[trigger] lacks(requested, c))
            &&& plan.sources <==> lacks(requested, RequiredCapability::ExactSource) && path_targets
                > 0
            &&& plan.aspects.relationships <==> lacks(
                requested,
                RequiredCapability::BoundedRelationships,
            )
            &&& plan.aspects.impact <==> lacks(requested, RequiredCapability::ImpactFrontier)
            &&& plan.aspects.coverage <==> lacks(
                requested,
                RequiredCapability::BasicCoverageConflicts,
            )
        }),
{
    assert forall|c: RequiredCapability| #[trigger] light_outcome::needs_atlas(requested, c)
        <==> lacks(requested, c) by {
        if let Some(state) = requested.state(c) {
            match state {
                CallerCapabilityState::Satisfied => {},
                CallerCapabilityState::Unsatisfied => {},
                CallerCapabilityState::Unknown => {},
            }
        }
    }
    if requested.all_satisfied() {
        assert forall|c: RequiredCapability| !#[trigger] lacks(requested, c) by {
            assert(requested.state(c) is Some ==> requested.state(c) == Some(
                CallerCapabilityState::Satisfied,
            ));
        }
    }
}

} // verus!
