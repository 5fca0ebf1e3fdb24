use workspace_atlas::context_execution::{CapabilityDeficitReason, RouteDeficit};
use workspace_atlas::context_route::{
    CallerCapabilityState, CapabilityMap, ContextPayload, DeepContractVersions,
    DeepSemanticBudget, LightOperation, RequiredCapability, RouteAttemptOutcome,
    VersionedOperation,
};
use workspace_atlas::context_execution::LightOperationResult;
use workspace_atlas::digest::hash_of_text;
use workspace_atlas::deep_outcome::{
    check_deep_contracts, check_deep_targets, deficit_priority, preferred_deficit,
};
use workspace_atlas::light_outcome::{
    bounded_query_projection, light_plan, light_query_targets, light_route_outcome,
    schedule_source, unread_source,
    CatalogueLightIdentityMatch, CatalogueLightRelationship, LightAspects, LightLookups,
    LightRows, SourceDecision,
};

fn needing(capabilities: &[RequiredCapability]) -> CapabilityMap {
    let mut map = CapabilityMap::new();
    for capability in capabilities {
        map.insert(*capability, CallerCapabilityState::Unsatisfied);
    }
    map
}

fn identity(path: &str) -> CatalogueLightIdentityMatch {
    CatalogueLightIdentityMatch {
        canonical_path: path.into(),
        canonical_symbol_key: None,
        content_hash: "h".into(),
    }
}

fn relationship(i: usize) -> CatalogueLightRelationship {
    CatalogueLightRelationship {
        relationship_type: "imports".into(),
        source_ref_kind: "path".into(),
        source_ref_value: "src/a.ts".into(),
        target_ref_kind: "path".into(),
        target_ref_value: format!("src/{i}.ts"),
        evidence_method: "structural".into(),
        confidence_millionths: 1_000_000,
    }
}

fn rows(matches: Vec<CatalogueLightIdentityMatch>, relationships: usize) -> LightRows {
    LightRows {
        identity_matches: matches,
        relationships: (0..relationships).map(relationship).collect(),
        impact_targets: vec![],
        coverage: None,
        conflicts: vec![],
    }
}

const NOTHING: LightAspects = LightAspects { relationships: false, impact: false, coverage: false };

#[test]
fn the_plan_asks_for_what_is_needed() {
    let plan = light_plan(&needing(&[RequiredCapability::ExactSource]), 1, 0);
    assert!(plan.sources && !plan.query);
    let plan = light_plan(&needing(&[RequiredCapability::BoundedRelationships]), 0, 1);
    assert!(plan.query && plan.aspects.relationships && !plan.sources);
    let plan = light_plan(&needing(&[RequiredCapability::IdentityLookup]), 0, 0);
    assert!(!plan.query);
}

#[test]
fn projections_are_bounded_and_say_so() {
    let asked = LightAspects { relationships: true, ..NOTHING };
    let few = bounded_query_projection("src/a.ts", false, rows(vec![identity("src/a.ts")], 2), asked);
    assert!(few.relationship_evidence && !few.relationship_omitted);
    assert_eq!(few.result.relationships.as_ref().unwrap().len(), 2);
    let many =
        bounded_query_projection("src/a.ts", false, rows(vec![identity("src/a.ts")], 3), asked);
    assert!(many.result.relationships_truncated);
    assert_eq!(many.result.relationships.as_ref().unwrap().len(), 2);
    assert!(!many.relationship_evidence && many.relationship_omitted);
    let none = bounded_query_projection("src/a.ts", true, rows(vec![], 3), NOTHING);
    assert!(none.result.relationships.is_none());
}

#[test]
fn sources_are_read_within_the_byte_budget() {
    let mut scheduled = 0i64;
    assert_eq!(schedule_source(&mut scheduled, Some(60), 100), SourceDecision::Verify);
    assert_eq!(schedule_source(&mut scheduled, Some(41), 100), SourceDecision::OverBudget);
    assert_eq!(schedule_source(&mut scheduled, Some(40), 100), SourceDecision::Verify);
    assert_eq!(scheduled, 100);
    assert_eq!(schedule_source(&mut scheduled, None, 100), SourceDecision::NotFound);
    assert_eq!(schedule_source(&mut scheduled, Some(-1), 100), SourceDecision::NotFound);
    assert_eq!(schedule_source(&mut scheduled, Some(i64::MAX), i64::MAX), SourceDecision::OverBudget);
    let missing = unread_source("src/a.ts", SourceDecision::NotFound);
    let over = unread_source("src/a.ts", SourceDecision::OverBudget);
    assert_ne!(missing.status, over.status);
}

fn lookups(matches: Vec<CatalogueLightIdentityMatch>) -> LightLookups {
    LightLookups {
        projections: vec![bounded_query_projection("alpha", true, rows(matches, 0), NOTHING)],
        references: vec![],
    }
}

#[test]
fn one_match_answers_an_identity_lookup() {
    let requested = needing(&[RequiredCapability::IdentityLookup]);
    let operations = vec![VersionedOperation::new(LightOperation::Query)];
    let outcome =
        light_route_outcome(&requested, &operations, 0, 1, &lookups(vec![identity("src/a.ts")]))
            .unwrap();
    let query_digest = hash_of_text(
        &[
            "[{\"target_kind\":\"symbol\",\"target\":\"alpha\",\"identity_matches\":[",
            "{\"canonical_path\":\"src/a.ts\",\"canonical_symbol_key\":null,\"content_hash\":\"h\"}],",
            "\"relationships\":null,\"relationships_truncated\":false,",
            "\"impact_targets\":null,\"impact_truncated\":false,",
            "\"coverage\":null,\"coverage_truncated\":false,",
            "\"conflicts\":null,\"conflicts_truncated\":false}]",
        ]
        .concat(),
    );
    match outcome {
        RouteAttemptOutcome::Completed { payload: ContextPayload::LightBundle { operations }, .. } => {
            assert_eq!(operations.len(), 1);
            match &operations[0] {
                LightOperationResult::Query { result_digest, record_count, .. } => {
                    assert_eq!(*record_count, 1);
                    assert_eq!(*result_digest, query_digest);
                }
                other => panic!("unexpected {other:?}"),
            }
        }
        other => panic!("unexpected {other:?}"),
    }
    for (matches, reason) in [
        (vec![], CapabilityDeficitReason::Unsupported),
        (
            vec![identity("src/a.ts"), identity("src/b.ts")],
            CapabilityDeficitReason::Ambiguous,
        ),
    ] {
        match light_route_outcome(&requested, &operations, 0, 1, &lookups(matches)).unwrap() {
            RouteAttemptOutcome::Deficient { deficits, .. } => assert_eq!(
                deficits,
                vec![RouteDeficit::Capability {
                    capability: RequiredCapability::IdentityLookup,
                    reason,
                }]
            ),
            other => panic!("unexpected {other:?}"),
        }
    }
}

#[test]
fn the_gravest_deficit_wins() {
    let all = [
        CapabilityDeficitReason::Unavailable,
        CapabilityDeficitReason::Ambiguous,
        CapabilityDeficitReason::Conflicting,
        CapabilityDeficitReason::Stale,
        CapabilityDeficitReason::Unsupported,
        CapabilityDeficitReason::SemanticBudgetOmitted,
    ];
    for a in all {
        for b in all {
            let chosen = preferred_deficit(Some(a), Some(b)).unwrap();
            assert!(chosen == a || chosen == b);
            assert_eq!(
                deficit_priority(chosen),
                deficit_priority(a).min(deficit_priority(b))
            );
        }
        assert_eq!(preferred_deficit(Some(a), None), Some(a));
        assert_eq!(preferred_deficit(None, Some(a)), Some(a));
    }
}

#[test]
fn deep_targets_and_contracts_are_checked() {
    let budget = DeepSemanticBudget::new(2, 1000, 250, 2, 20, 10).unwrap();
    check_deep_targets(1, 1, &budget).unwrap();
    assert!(check_deep_targets(2, 1, &budget).is_err());
    assert!(check_deep_targets(usize::MAX, 1, &budget).is_err());
    check_deep_contracts(&DeepContractVersions::fixed()).unwrap();
    let mut other = DeepContractVersions::fixed();
    other.planner_version = "planner-v9".into();
    assert!(check_deep_contracts(&other).is_err());
}

#[test]
fn paths_are_queried_before_symbols_and_no_more_than_the_bound() {
    let texts = |names: &[&str]| names.iter().map(|name| name.to_string()).collect::<Vec<_>>();
    let targets = light_query_targets(&texts(&["src/b.ts", "src/a.ts"]), &texts(&["alpha"]));
    let listed: Vec<(&str, bool)> =
        targets.iter().map(|found| (found.target.as_str(), found.symbol)).collect();
    assert_eq!(listed, vec![("src/b.ts", false), ("src/a.ts", false), ("alpha", true)]);
    assert!(light_query_targets(&vec![], &vec![]).is_empty());
    let many: Vec<String> = (0..9_999).map(|i| format!("p{i}")).collect();
    let cut = light_query_targets(&many, &texts(&["alpha", "beta"]));
    assert_eq!(cut.len(), 10_000);
    assert_eq!(cut[9_999].target, "alpha");
    let more: Vec<String> = (0..10_001).map(|i| format!("p{i}")).collect();
    let cut = light_query_targets(&more, &texts(&["alpha"]));
    assert_eq!(cut.len(), 10_000);
    assert!(cut.iter().all(|found| !found.symbol));
}
