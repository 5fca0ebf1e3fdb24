use workspace_atlas::context_execution::CapabilityDeficitReason;
use workspace_atlas::context_ir::{
    ClaimStrength, ItemRole, TaskKind, TaskKindSource, WorkingSetStatus,
};
use workspace_atlas::deep_context_ir::{
    context_ir_version, read_context_ir_v1, read_context_ir_v2_compatible, read_deep_context_ir_v2,
    uncertainty_reserve_records, write_deep_context_ir_v2, ContextIrDocument, ContextIrVersion,
    DeepContextIrV2, IrCostV2, IrCoverageV2, IrEvidenceLeaseV2, IrOmissionReasonV2, IrOmissionsV2,
    IrPolicyV2, IrRequirementStateV2, IrRoleSufficiencyV2, IrSemanticBudgetV2, IrStatusV2, IrTaskV2,
    IrTemporalConstraintsV2, IrTemporalStateV2, IrWorkspaceV2, OmissionCounts, RoleRecipe,
};
use workspace_atlas::context_route::{
    CallerCapabilityState, CapabilityMap, ContextPayload, DeepSemanticBudget, RequiredCapability,
    RouteAttemptOutcome,
};
use workspace_atlas::deep_context_ir::deep_context_payload;
use workspace_atlas::digest::CanonicalEncoder;
use workspace_atlas::deep_outcome::{
    coverage_outcome, deep_document_outcome, deep_route_outcome, effect_outcome,
    exact_source_outcome, relationship_outcome, required_role_closure_outcome,
    role_capability_outcome, validation_outcome,
};
use workspace_atlas::error::AtlasError;

fn h(c: char) -> String {
    c.to_string().repeat(64)
}

fn recipe() -> RoleRecipe {
    RoleRecipe {
        role_matrix: vec![(ItemRole::PrimaryImplementation, true)],
        required_roles: vec![ItemRole::PrimaryImplementation],
        requires_exact_source: false,
        requires_validation: false,
    }
}

fn blocked() -> DeepContextIrV2 {
    DeepContextIrV2 {
        schema_version: "2.0.0".into(),
        context_id: "ctx_1".into(),
        workspace: IrWorkspaceV2 {
            workspace_id: "ws_1".into(),
            generation_id: "gen_1".into(),
            generation_sequence: 1,
            source_tree_hash: None,
            configuration_hash: h('a'),
            provider_set_hash: h('b'),
        },
        task: IrTaskV2 {
            task_session_id: "task_1".into(),
            task_hash: h('c'),
            normalized_goal_hash: h('d'),
            task_kind: TaskKind::BugFix,
            kind_source: TaskKindSource::Declared,
            kind_rule_id: None,
            seed_paths: vec!["src/a.ts".into(), "src/b.ts".into()],
            seed_symbols: vec![],
        },
        policy: IrPolicyV2 {
            planner_policy_version: "planner-v2.0.0".into(),
            projection_policy_version: "projection-v2.0.0".into(),
            estimator_version: "context-estimator-v1.0.0".into(),
            deterministic: true,
            semantic_budget: IrSemanticBudgetV2 {
                max_records: 10,
                max_source_bytes: 1000,
                max_estimated_tokens: 250,
                max_relationship_depth: 2,
                max_work_units: 20,
                uncertainty_reserve_percent: 10,
                budget_digest: String::new(),
            },
        },
        status: IrStatusV2 {
            working_set_status: WorkingSetStatus::Blocked,
            role_sufficiency: vec![IrRoleSufficiencyV2 {
                role: ItemRole::PrimaryImplementation,
                required: true,
                state: IrRequirementStateV2::Missing,
                evidence_item_ids: vec![],
                reason: Some(IrOmissionReasonV2::MissingRequiredRole),
            }],
            exact_source: IrRequirementStateV2::Missing,
            validation: IrRequirementStateV2::Missing,
            reasons: vec![IrOmissionReasonV2::MissingRequiredRole],
        },
        working_set: vec![],
        relationships: vec![],
        effects: vec![],
        temporal_constraints: IrTemporalConstraintsV2 {
            current_generation_id: "gen_1".into(),
            baseline_generation_id: None,
            state: IrTemporalStateV2::NotRequired,
            evidence_item_ids: vec![],
            omission_reason: None,
        },
        uncertainty: vec![],
        coverage: IrCoverageV2 {
            eligible: 1,
            complete: 0,
            partial: 1,
            unsupported: 0,
            excluded: 0,
            failed: 0,
            claim_strength: ClaimStrength::NoClaim,
            deficits: vec![],
        },
        omissions: IrOmissionsV2 {
            candidates_considered: 0,
            selected: 0,
            omitted: 0,
            truncated: false,
            by_reason: OmissionCounts::new(),
        },
        validation_plan: vec![],
        evidence_lease: IrEvidenceLeaseV2 { generation_id: "gen_1".into(), dependencies: vec![] },
        cost: IrCostV2 {
            selected_records: 0,
            selected_source_bytes: 0,
            selected_estimated_tokens: 0,
            relationship_depth_reached: 0,
            work_units_consumed: 0,
            uncertainty_records_reserved: 1,
            uncertainty_records_selected: 0,
        },
        context_hash: String::new(),
    }
}

fn refusal(change: &dyn Fn(&mut DeepContextIrV2)) -> String {
    let mut document = blocked();
    change(&mut document);
    match document.seal(&recipe()) {
        Err(AtlasError::InvalidConfig(message)) => message,
        other => panic!("unexpected {other:?}"),
    }
}

#[test]
fn a_blocked_document_is_sealed_and_read_back() {
    let sealed = blocked().seal(&recipe()).unwrap();
    assert_eq!(sealed.context_hash.len(), 64);
    sealed.validate(&recipe()).unwrap();
    let again = blocked().seal(&recipe()).unwrap();
    assert_eq!(sealed.context_hash, again.context_hash);
    let mut forged = blocked().seal(&recipe()).unwrap();
    forged.context_hash = "0".repeat(64);
    assert!(matches!(
        forged.validate(&recipe()),
        Err(AtlasError::InvalidConfig(m)) if m == "deep Context IR canonical hash mismatch"
    ));
    assert!(matches!(
        write_deep_context_ir_v2(&forged, &recipe()),
        Err(AtlasError::InvalidConfig(m)) if m == "deep Context IR canonical hash mismatch"
    ));
    let mut elsewhere = blocked();
    elsewhere.context_id = "ctx_2".into();
    elsewhere.task.task_session_id = "other".into();
    assert_eq!(elsewhere.seal(&recipe()).unwrap().context_hash, sealed.context_hash);
    let raw = "{\"schema_version\":\"2.0.0\"}";
    let read = read_deep_context_ir_v2(raw, Ok(sealed), &recipe()).unwrap();
    assert_eq!(read.context_id, "ctx_1");
}

#[test]
fn the_hash_is_that_of_the_framed_canonical_identity() {
    let sealed = blocked().seal(&recipe()).unwrap();
    let written = write_deep_context_ir_v2(&sealed, &recipe()).unwrap();
    let mut identity: serde_json::Value = serde_json::from_str(&written).unwrap();
    let fields = identity.as_object_mut().unwrap();
    fields.remove("context_id");
    fields.remove("context_hash");
    fields["task"].as_object_mut().unwrap().remove("task_session_id");
    let mut encoder = CanonicalEncoder::new("workspace-atlas/context-ir-v2");
    encoder.text("2.0.0");
    encoder.text(&sealed.policy.planner_policy_version);
    encoder.text(&serde_json::to_string(&identity).unwrap());
    assert_eq!(encoder.finish(), sealed.context_hash);
}

#[test]
fn documents_are_refused_by_the_first_section_at_fault() {
    assert_eq!(
        refusal(&|d| d.schema_version = "1.0.0".into()),
        "unsupported deep Context IR version 1.0.0; supported: 2.0.0"
    );
    assert_eq!(
        refusal(&|d| d.policy.deterministic = false),
        "deep Context IR 2.0.0 requires its fixed planner, projection, and estimator"
    );
    assert_eq!(
        refusal(&|d| d.context_id = String::new()),
        "deep Context IR contains an empty semantic identity"
    );
    assert_eq!(
        refusal(&|d| d.policy.semantic_budget.max_records = 0),
        "invalid deep Context IR semantic budget identity"
    );
    assert_eq!(
        refusal(&|d| d.task.task_hash = "ABC".into()),
        "deep Context IR contains an invalid workspace digest"
    );
    assert_eq!(
        refusal(&|d| d.evidence_lease.generation_id = "gen_2".into()),
        "deep Context IR generation-bound sections disagree"
    );
    assert_eq!(
        refusal(&|d| d.task.seed_paths.reverse()),
        "deep Context IR seeds are not sorted and deduplicated"
    );
    assert_eq!(
        refusal(&|d| d.cost.uncertainty_records_reserved = 2),
        "deep Context IR semantic cost ledger does not reconcile"
    );
    assert_eq!(
        refusal(&|d| d.coverage.complete = 1),
        "deep Context IR coverage ledger does not reconcile"
    );
    assert_eq!(
        refusal(&|d| d.omissions.truncated = true),
        "deep Context IR omission ledger does not reconcile"
    );
    assert_eq!(
        refusal(&|d| d.status.role_sufficiency[0].required = false),
        "deep Context IR role matrix does not match planner-v2.0.0"
    );
    assert_eq!(
        refusal(&|d| {
            d.status.role_sufficiency[0].state = IrRequirementStateV2::Satisfied;
            d.status.role_sufficiency[0].reason = None;
        }),
        "deep Context IR sufficiency is not backed by qualified evidence"
    );
    assert_eq!(
        refusal(&|d| d.status.working_set_status = WorkingSetStatus::Complete),
        "deep Context IR status contradicts required-role sufficiency"
    );
    assert_eq!(
        refusal(&|d| d.status.reasons.clear()),
        "deep Context IR status contradicts required-role sufficiency"
    );
}

#[test]
fn readers_keep_to_their_version() {
    let version = |raw: &str| context_ir_version(raw).unwrap();
    assert_eq!(version("{\"schema_version\":\"1.0.0\"}"), Some(ContextIrVersion::LegacyV1));
    assert_eq!(version("{\"schema_version\":\"2.0.0\"}"), Some(ContextIrVersion::DeepV2));
    assert_eq!(version("{\"schema_version\":\"3.0.0\"}"), None);
    assert_eq!(version("{\"other\":1}"), None);
    assert!(matches!(context_ir_version("{"), Err(AtlasError::Serde(_))));
    assert!(matches!(
        read_context_ir_v1("{\"schema_version\":\"2.0.0\"}", Err("unused".into())),
        Err(AtlasError::InvalidConfig(m))
            if m == "unsupported legacy Context IR version; supported: 1.0.0"
    ));
    assert!(matches!(
        read_context_ir_v2_compatible(
            "{\"schema_version\":\"3.0.0\"}",
            Err("a".into()),
            Err("b".into()),
            &recipe()
        ),
        Err(AtlasError::InvalidConfig(m))
            if m == "unsupported Context IR version; supported: 1.0.0, 2.0.0"
    ));
    let sealed = blocked().seal(&recipe()).unwrap();
    assert!(matches!(
        read_context_ir_v2_compatible(
            "{\"schema_version\":\"2.0.0\"}",
            Err("a".into()),
            Ok(sealed),
            &recipe()
        ),
        Ok(ContextIrDocument::DeepV2(_))
    ));
}

#[test]
fn the_reserve_is_rounded_up() {
    assert_eq!(uncertainty_reserve_records(10, 10).unwrap(), 1);
    assert_eq!(uncertainty_reserve_records(11, 10).unwrap(), 2);
    assert_eq!(uncertainty_reserve_records(1, 1).unwrap(), 1);
    assert_eq!(uncertainty_reserve_records(0, 50).unwrap(), 0);
    assert!(uncertainty_reserve_records(u64::MAX, 101).is_err());
}

#[test]
fn a_blocked_document_answers_no_capability() {
    let document = blocked().seal(&recipe()).unwrap();
    assert!(role_capability_outcome(&document, ItemRole::PrimaryImplementation).is_some());
    assert!(exact_source_outcome(&document).is_some());
    assert!(relationship_outcome(&document).is_some());
    assert!(effect_outcome(&document).is_some());
    assert!(validation_outcome(&document).is_some());
    assert!(required_role_closure_outcome(&document).is_some());
    assert_ne!(coverage_outcome(&document), Some(CapabilityDeficitReason::Stale));
}

#[test]
fn explicit_budgets_are_taken_over_with_a_digest() {
    let supplied = DeepSemanticBudget::new(10, 1000, 250, 2, 20, 10).unwrap();
    let budget = IrSemanticBudgetV2::from_explicit_budget(&supplied).unwrap();
    assert_eq!(budget.max_records, 10);
    assert_eq!(budget.max_relationship_depth, 2);
    assert_eq!(budget.uncertainty_reserve_percent, 10);
    let mut encoder = CanonicalEncoder::new("workspace-atlas/context-ir-v2-semantic-budget");
    for value in [10, 1000, 250, 2, 20, 10] {
        encoder.u64(value);
    }
    assert_eq!(budget.budget_digest, encoder.finish());
    let mut changed = DeepSemanticBudget::new(10, 1000, 250, 2, 20, 10).unwrap();
    changed.max_records = 0;
    assert!(matches!(
        IrSemanticBudgetV2::from_explicit_budget(&changed),
        Err(AtlasError::InvalidConfig(m))
            if m == "invalid explicit V2 semantic budget: deep semantic budgets must be positive and within advertised bounds"
    ));
}

#[test]
fn a_blocked_document_leaves_what_it_was_asked_for_open() {
    let document = blocked().seal(&recipe()).unwrap();
    let payload = deep_context_payload(&document, &recipe()).unwrap();
    let mut requested = CapabilityMap::new();
    requested.insert(RequiredCapability::ExactSource, CallerCapabilityState::Unsatisfied);
    requested.insert(RequiredCapability::IdentityLookup, CallerCapabilityState::Satisfied);
    match deep_route_outcome(&requested, &document, payload, None) {
        RouteAttemptOutcome::Deficient { satisfied_capabilities, deficits, counters, .. } => {
            assert_eq!(satisfied_capabilities, vec![RequiredCapability::IdentityLookup]);
            assert_eq!(deficits.len(), 1);
            assert_eq!(counters.atlas_calls, 1);
        }
        other => panic!("unexpected {other:?}"),
    }
}

#[test]
fn a_deep_attempt_refers_to_the_document_it_was_judged_by() {
    let document = blocked().seal(&recipe()).unwrap();
    let mut requested = CapabilityMap::new();
    requested.insert(RequiredCapability::IdentityLookup, CallerCapabilityState::Satisfied);
    match deep_document_outcome(&requested, &document, &recipe(), None).unwrap() {
        RouteAttemptOutcome::Completed {
            payload: ContextPayload::DeepContextIr { result }, ..
        } => {
            assert_eq!(result.context_ir_version, "2.0.0");
            assert_eq!(result.context_hash, document.context_hash);
        }
        other => panic!("unexpected {other:?}"),
    }
    let mut forged = blocked().seal(&recipe()).unwrap();
    forged.context_hash = "0".repeat(64);
    assert!(matches!(
        deep_document_outcome(&requested, &forged, &recipe(), None),
        Err(AtlasError::InvalidConfig(_))
    ));
}
