use workspace_atlas::context_application::{
    acquired_context, application_output, bound_start_generation, build_governor_run_request, canonical_targets, check_public_request,
    dispatch_context_application, expected_generation, generation_observation, governor_output,
    settle_decision,
    validate_catalogue_application_input, CatalogueContextApplicationError, GovernorDeepLimits,
    CatalogueLightIdentityMatch, CatalogueLightResults, GovernorRunRequest,
    GovernorRunSemanticInput, TaskClassification,
};
use workspace_atlas::context_ir::{TaskKind, TaskKindSource};
use workspace_atlas::context_metrics::ContextExecutionCounters;
use workspace_atlas::context_route::{
    decide_context_route, discover_context_capabilities, execute_context_route,
    negotiate_context_versions, AtlasIntent, CallerCapabilityState, CapabilityDeficitReason,
    CapabilityMap, ContextExecution, ContextPayload, ContextRouteDecision, ContextRouteDispatcher,
    ContextRouteError, ContextRouteRequest, DeepContractVersions, DeepResultReference,
    DeepSemanticBudget, ExecutionState, GenerationObservation, GenerationUnavailableReason,
    InterruptionReason, LightOperation, LightOperationResult, NegotiationRequest,
    RequiredCapability, Route, RouteAttemptOutcome, RouteDeficit, SeedSummary, TerminalReason,
    VersionedOperation,
};
use workspace_atlas::digest::hash_of_text;
use workspace_atlas::error::AtlasError;
use workspace_atlas::light_outcome::{
    bounded_query_projection, light_route_outcome, LightAspects, LightLookups, LightRows,
};

fn versions() -> NegotiationRequest {
    NegotiationRequest {
        capability_versions: vec!["context-capabilities-v2.0.0".into()],
        route_versions: vec!["context-route-v2.0.0".into()],
        decision_versions: vec!["context-route-v2.0.0".into()],
        execution_versions: vec!["context-execution-v2.0.0".into()],
        ir_versions: vec!["2.0.0".into()],
        operation_versions: vec!["query-v1.0.0".into(), "source-reference-v1.0.0".into()],
    }
}

fn capabilities(entries: &[(RequiredCapability, CallerCapabilityState)]) -> CapabilityMap {
    let mut map = CapabilityMap::new();
    for (capability, state) in entries {
        map.insert(*capability, *state);
    }
    map
}

fn governor(
    caller: CapabilityMap,
    intent: AtlasIntent,
    floor: Route,
    ceiling: Route,
) -> GovernorRunRequest {
    GovernorRunRequest {
        supported_versions: versions(),
        semantic: GovernorRunSemanticInput {
            task: "fix alpha".into(),
            declared_kind: None,
            path_targets: vec!["src/b.ts".into(), "src/a.ts".into(), "src/a.ts".into()],
            symbol_targets: vec![],
            caller_capabilities: caller,
            atlas_intent: intent,
            route_floor: floor,
            route_ceiling: ceiling,
            legacy_task_session_id: None,
            deep_limits: if ceiling == Route::AtlasDeep {
                Some(GovernorDeepLimits {
                    max_records: 10,
                    max_source_bytes: 1000,
                    max_estimated_tokens: 250,
                    max_relationship_depth: 2,
                    max_work_units: 20,
                    uncertainty_reserve_percent: 10,
                })
            } else {
                None
            },
            materialize_source: false,
            max_materialized_bytes: None,
        },
    }
}

fn observed(id: &str) -> GenerationObservation {
    GenerationObservation::Observed { generation_id: id.into() }
}

fn missing() -> CapabilityMap {
    capabilities(&[(RequiredCapability::IdentityLookup, CallerCapabilityState::Unsatisfied)])
}

fn route_request(caller: CapabilityMap, ceiling: Route) -> ContextRouteRequest {
    build_governor_run_request(
        governor(caller, AtlasIntent::Allow, Route::Direct, ceiling),
        hash_of_text("fix alpha"),
        TaskKind::BugFix,
        observed("gen_1"),
    )
    .unwrap()
    .route_request
}

/// A dispatcher that answers from a script and counts what it was asked.
struct Script {
    generations: Vec<GenerationObservation>,
    light: Option<RouteAttemptOutcome>,
    deep: Option<RouteAttemptOutcome>,
    asked: Vec<&'static str>,
}

impl Script {
    fn new(generations: &[&str]) -> Self {
        Script {
            generations: generations.iter().map(|id| observed(id)).collect(),
            light: None,
            deep: None,
            asked: Vec::new(),
        }
    }
}

impl ContextRouteDispatcher for Script {
    type Error = ContextRouteError;

    fn observe_generation(&mut self) -> GenerationObservation {
        self.asked.push("observe");
        if self.generations.len() > 1 {
            self.generations.remove(0)
        } else {
            self.generations[0].clone()
        }
    }

    fn dispatch_light(
        &mut self,
        _decision: &ContextRouteDecision,
        operations: &Vec<VersionedOperation>,
    ) -> Result<RouteAttemptOutcome, ContextRouteError> {
        assert!(!operations.is_empty());
        self.asked.push("light");
        self.light.take().ok_or(ContextRouteError::InvalidExecution)
    }

    fn dispatch_deep(
        &mut self,
        _decision: &ContextRouteDecision,
        contracts: &DeepContractVersions,
        budget: &DeepSemanticBudget,
    ) -> Result<RouteAttemptOutcome, ContextRouteError> {
        contracts.validate().unwrap();
        budget.validate().unwrap();
        self.asked.push("deep");
        self.deep.take().ok_or(ContextRouteError::InvalidExecution)
    }
}

fn counters(records: u64) -> ContextExecutionCounters {
    ContextExecutionCounters {
        atlas_calls: 1,
        records,
        source_bytes: 0,
        estimated_tokens: 0,
        work_units: 1,
    }
}

fn light_payload() -> ContextPayload {
    ContextPayload::LightBundle {
        operations: vec![LightOperationResult::Query {
            operation_version: "query-v1.0.0".into(),
            result_digest: hash_of_text("rows"),
            record_count: 1,
        }],
    }
}

fn light_completed() -> RouteAttemptOutcome {
    RouteAttemptOutcome::Completed {
        payload: light_payload(),
        counters: counters(1),
        diagnostics: vec![],
        materialization: None,
    }
}

fn light_deficient(reason: CapabilityDeficitReason) -> RouteAttemptOutcome {
    RouteAttemptOutcome::Deficient {
        payload: Some(light_payload()),
        satisfied_capabilities: vec![],
        deficits: vec![RouteDeficit::Capability {
            capability: RequiredCapability::IdentityLookup,
            reason,
        }],
        counters: counters(1),
        diagnostics: vec![],
        materialization: None,
    }
}

fn deep_completed() -> RouteAttemptOutcome {
    RouteAttemptOutcome::Completed {
        payload: ContextPayload::DeepContextIr {
            result: DeepResultReference {
                context_ir_version: "2.0.0".into(),
                context_hash: hash_of_text("document"),
            },
        },
        counters: counters(2),
        diagnostics: vec![],
        materialization: None,
    }
}

#[test]
fn a_satisfied_caller_goes_direct() {
    let satisfied = capabilities(&[(
        RequiredCapability::IdentityLookup,
        CallerCapabilityState::Satisfied,
    )]);
    let decision = decide_context_route(route_request(satisfied, Route::AtlasDeep)).unwrap();
    assert_eq!(decision.initial_route, Route::Direct);
    decision.validate().unwrap();
    let mut script = Script::new(&["gen_1"]);
    let execution = execute_context_route(decision, &mut script).unwrap();
    execution.validate().unwrap();
    assert_eq!(execution.state(), ExecutionState::Completed);
    assert!(script.asked.is_empty());
}

#[test]
fn a_light_result_completes_the_run() {
    let decision = decide_context_route(route_request(missing(), Route::AtlasDeep)).unwrap();
    let mut script = Script::new(&["gen_1"]);
    script.light = Some(light_completed());
    let execution = execute_context_route(decision, &mut script).unwrap();
    execution.validate().unwrap();
    assert_eq!(execution.state(), ExecutionState::Completed);
    assert!(matches!(execution.payload(), Some(ContextPayload::LightBundle { .. })));
    assert!(!script.asked.contains(&"deep"));
}

#[test]
fn what_light_lacks_is_asked_of_deep_under_the_ceiling() {
    let decision = decide_context_route(route_request(missing(), Route::AtlasDeep)).unwrap();
    let mut script = Script::new(&["gen_1"]);
    script.light = Some(light_deficient(CapabilityDeficitReason::Ambiguous));
    script.deep = Some(deep_completed());
    let execution = execute_context_route(decision, &mut script).unwrap();
    execution.validate().unwrap();
    assert_eq!(execution.state(), ExecutionState::Completed);
    assert_eq!(script.asked, vec!["observe", "light", "observe", "deep"]);
    match execution {
        ContextExecution::Completed { final_route, attempts, counters, .. } => {
            assert_eq!(final_route, Route::AtlasDeep);
            assert_eq!(counters.records, 3);
            assert_eq!(attempts.last().unwrap().route, Route::AtlasDeep);
        }
        other => panic!("unexpected {other:?}"),
    }

    let decision = decide_context_route(route_request(missing(), Route::AtlasLight)).unwrap();
    let mut script = Script::new(&["gen_1"]);
    script.light = Some(light_deficient(CapabilityDeficitReason::Unavailable));
    let execution = execute_context_route(decision, &mut script).unwrap();
    execution.validate().unwrap();
    assert!(!script.asked.contains(&"deep"));
    match execution {
        ContextExecution::Partial { terminal_reason, .. }
        | ContextExecution::Blocked { terminal_reason, .. } => {
            assert_eq!(terminal_reason, TerminalReason::RouteCeilingReached);
        }
        other => panic!("unexpected {other:?}"),
    }
}

#[test]
fn a_deficit_that_deep_cannot_mend_ends_the_run() {
    let decision = decide_context_route(route_request(missing(), Route::AtlasDeep)).unwrap();
    let mut script = Script::new(&["gen_1"]);
    script.light = Some(light_deficient(CapabilityDeficitReason::Unsupported));
    let execution = execute_context_route(decision, &mut script).unwrap();
    execution.validate().unwrap();
    assert!(!script.asked.contains(&"deep"));
    assert_ne!(execution.state(), ExecutionState::Completed);
}

#[test]
fn a_changed_generation_stops_before_the_next_operation() {
    let decision = decide_context_route(route_request(missing(), Route::AtlasDeep)).unwrap();
    let mut script = Script::new(&["gen_2"]);
    script.light = Some(light_completed());
    let execution = execute_context_route(decision, &mut script).unwrap();
    execution.validate().unwrap();
    assert_eq!(execution.state(), ExecutionState::Blocked);
    assert_eq!(script.asked, vec!["observe"]);
    match execution {
        ContextExecution::Blocked { terminal_reason, .. } => {
            assert_eq!(terminal_reason, TerminalReason::GenerationChanged)
        }
        other => panic!("unexpected {other:?}"),
    }
}

#[test]
fn a_generation_that_changes_after_light_stops_before_deep() {
    let decision = decide_context_route(route_request(missing(), Route::AtlasDeep)).unwrap();
    let mut script = Script::new(&["gen_1", "gen_2"]);
    script.light = Some(light_deficient(CapabilityDeficitReason::Ambiguous));
    script.deep = Some(deep_completed());
    let execution = execute_context_route(decision, &mut script).unwrap();
    execution.validate().unwrap();
    assert_eq!(script.asked, vec!["observe", "light", "observe"]);
    match execution {
        ContextExecution::Blocked { attempts, final_route, payload, terminal_reason, .. } => {
            assert_eq!(terminal_reason, TerminalReason::GenerationChanged);
            assert_eq!(final_route, Some(Route::AtlasDeep));
            assert!(payload.is_none());
            assert_eq!(attempts.len(), 3);
            assert_eq!(attempts[1].route, Route::AtlasLight);
            assert_eq!(attempts[1].counters.records, 1);
            assert_eq!(attempts[2].counters, ContextExecutionCounters::default());
        }
        other => panic!("unexpected {other:?}"),
    }
}

#[test]
fn what_settles_without_the_atlas_calls_nothing() {
    let mut request = route_request(missing(), Route::Direct);
    let mut script = Script::new(&["gen_1"]);
    let execution = dispatch_context_application(request.clone(), &mut script).unwrap();
    assert!(script.asked.is_empty());
    match execution {
        ContextExecution::Blocked { attempts, final_route, terminal_reason, .. } => {
            assert_eq!(terminal_reason, TerminalReason::RouteCeilingReached);
            assert_eq!(final_route, Some(Route::Direct));
            assert_eq!(attempts[0].attempt_id, "context-attempt-1");
        }
        other => panic!("unexpected {other:?}"),
    }
    request.route_ceiling = Route::AtlasLight;
    request.starting_generation = GenerationObservation::Unavailable {
        reason: GenerationUnavailableReason::NoActiveGeneration,
    };
    let execution = dispatch_context_application(request, &mut script).unwrap();
    assert!(script.asked.is_empty());
    match execution {
        ContextExecution::Blocked { attempts, final_route, terminal_reason, .. } => {
            assert_eq!(terminal_reason, TerminalReason::GenerationUnavailable);
            assert_eq!(final_route, None);
            assert!(attempts.is_empty());
        }
        other => panic!("unexpected {other:?}"),
    }
}

#[test]
fn an_interruption_keeps_what_was_had() {
    let decision = decide_context_route(route_request(missing(), Route::AtlasDeep)).unwrap();
    let mut script = Script::new(&["gen_1"]);
    script.light = Some(RouteAttemptOutcome::Interrupted {
        diagnostics: vec![],
        interruption_reason: InterruptionReason::DeadlineExceeded,
    });
    let execution = execute_context_route(decision, &mut script).unwrap();
    execution.validate().unwrap();
    assert_eq!(execution.state(), ExecutionState::Interrupted);
}

#[test]
fn a_dispatcher_error_is_handed_back() {
    let mut script = Script::new(&["gen_1"]);
    assert!(matches!(
        dispatch_context_application(route_request(missing(), Route::AtlasDeep), &mut script),
        Err(ContextRouteError::InvalidExecution)
    ));
    let mut bad = route_request(missing(), Route::AtlasLight);
    bad.route_floor = Route::AtlasDeep;
    let mut script = Script::new(&["gen_1"]);
    assert!(matches!(
        dispatch_context_application(bad, &mut script),
        Err(ContextRouteError::FloorAboveCeiling)
    ));
    assert!(script.asked.is_empty());
}

#[test]
fn intents_bound_the_route() {
    let decide = |intent, floor, ceiling| {
        build_governor_run_request(
            governor(missing(), intent, floor, ceiling),
            hash_of_text("fix alpha"),
            TaskKind::BugFix,
            observed("gen_1"),
        )
        .map(|built| decide_context_route(built.route_request).unwrap().initial_route)
    };
    assert_eq!(
        decide(AtlasIntent::Never, Route::Direct, Route::Direct).unwrap(),
        Route::Direct
    );
    assert!(decide(AtlasIntent::Require, Route::Direct, Route::AtlasDeep).unwrap() != Route::Direct);
    for (intent, floor, ceiling) in [
        (AtlasIntent::Never, Route::AtlasLight, Route::AtlasDeep),
        (AtlasIntent::Require, Route::Direct, Route::Direct),
        (AtlasIntent::Allow, Route::AtlasDeep, Route::AtlasLight),
    ] {
        assert!(matches!(
            decide(intent, floor, ceiling),
            Err(CatalogueContextApplicationError::Route(_))
        ));
    }
}

#[test]
fn requests_are_built_from_semantics() {
    let built = build_governor_run_request(
        governor(missing(), AtlasIntent::Allow, Route::Direct, Route::AtlasDeep),
        hash_of_text("fix alpha"),
        TaskKind::BugFix,
        observed("gen_1"),
    )
    .unwrap();
    assert_eq!(built.negotiated_versions.route_version, "context-route-v2.0.0");
    assert_eq!(built.route_request.explicit_seeds.path_count, 2);
    assert_eq!(
        built.route_request.explicit_seeds,
        SeedSummary::from_targets(
            &["src/a.ts".to_string(), "src/b.ts".to_string()],
            &[]
        )
        .unwrap()
    );
    assert_eq!(built.catalogue_input.task, "fix alpha");
    let classified = || TaskClassification {
        normalized_goal_hash: hash_of_text("fix alpha"),
        task_kind: TaskKind::BugFix,
        kind_source: TaskKindSource::DeterministicRule,
        kind_rule_id: Some("rule".into()),
    };
    let valid = validate_catalogue_application_input(
        &built.route_request,
        &built.catalogue_input,
        classified(),
    )
    .unwrap();
    assert_eq!(valid.task_hash, hash_of_text("fix alpha"));
    assert_eq!(valid.seed_paths, vec!["src/a.ts", "src/b.ts"]);
    let mut other = built.catalogue_input;
    other.seed_paths.push("src/c.ts".into());
    assert!(validate_catalogue_application_input(&built.route_request, &other, classified()).is_err());
    let mut empty = other;
    empty.task = "  ".into();
    assert!(matches!(
        validate_catalogue_application_input(&built.route_request, &empty, classified()),
        Err(CatalogueContextApplicationError::Atlas(AtlasError::InvalidConfig(m)))
            if m == "context task must not be empty"
    ));
}

#[test]
fn a_request_without_a_common_version_is_refused_first() {
    let mut request = governor(missing(), AtlasIntent::Allow, Route::AtlasDeep, Route::Direct);
    request.supported_versions.route_versions = vec!["context-route-v9".into()];
    request.semantic.task = String::new();
    assert!(matches!(
        build_governor_run_request(request, String::new(), TaskKind::BugFix, observed("g")),
        Err(CatalogueContextApplicationError::Route(ContextRouteError::NoCommonVersion { .. }))
    ));
    assert!(matches!(
        negotiate_context_versions(&versions()),
        Ok(agreed) if agreed.ir_version == "2.0.0"
    ));
    discover_context_capabilities().validate().unwrap();
}

#[test]
fn documents_cannot_grant_materialization() {
    let mut request = governor(missing(), AtlasIntent::Allow, Route::Direct, Route::AtlasDeep);
    check_public_request(&request).unwrap();
    request.semantic.materialize_source = true;
    assert!(check_public_request(&request).is_err());
    request.semantic.materialize_source = false;
    request.semantic.max_materialized_bytes = Some(1);
    assert!(check_public_request(&request).is_err());
}

#[test]
fn targets_are_canonical() {
    assert_eq!(
        canonical_targets(&vec!["b".into(), "a".into(), "b".into()]),
        vec!["a", "b"]
    );
}

#[test]
fn seeds_do_not_depend_on_their_order() {
    let a = SeedSummary::from_targets(&["x".into(), "y".into()], &["s".into()]).unwrap();
    let b = SeedSummary::from_targets(&["y".into(), "x".into(), "x".into()], &["s".into()]).unwrap();
    assert_eq!(a, b);
    let c = SeedSummary::from_targets(&["x".into()], &["s".into()]).unwrap();
    assert_ne!(a.digest, c.digest);
}

#[test]
fn decisions_are_bound_to_their_request() {
    let mut decision = decide_context_route(route_request(missing(), Route::AtlasDeep)).unwrap();
    assert_eq!(
        decision.decision_hash,
        decide_context_route(route_request(missing(), Route::AtlasDeep)).unwrap().decision_hash
    );
    decision.initial_route = Route::AtlasDeep;
    assert!(decision.validate().is_err());
}

#[test]
fn budgets_are_bound_to_their_digest() {
    let mut budget = DeepSemanticBudget::new(10, 1000, 250, 2, 20, 10).unwrap();
    budget.validate().unwrap();
    budget.max_records = 11;
    assert!(matches!(
        budget.validate(),
        Err(ContextRouteError::InvalidDeepBudgetDigest)
    ));
    assert!(matches!(
        DeepSemanticBudget::new(0, 1000, 250, 2, 20, 10),
        Err(ContextRouteError::InvalidDeepBudget)
    ));
    assert!(DeepSemanticBudget::new(10, 1000, 250, 2, 20, 101).is_err());
}

#[test]
fn generations_are_observed_or_not() {
    assert_eq!(generation_observation(Ok(Some("g".into()))), observed("g"));
    assert_eq!(
        generation_observation(Ok(None)),
        GenerationObservation::Unavailable { reason: GenerationUnavailableReason::NoActiveGeneration }
    );
    assert_eq!(
        generation_observation(Err(())),
        GenerationObservation::Unavailable { reason: GenerationUnavailableReason::ObservationFailed }
    );
}

#[test]
fn a_direct_decision_is_settled_on_what_is_observed() {
    let satisfied = capabilities(&[(
        RequiredCapability::IdentityLookup,
        CallerCapabilityState::Satisfied,
    )]);
    let settled =
        settle_decision(route_request(satisfied, Route::AtlasDeep), observed("gen_2")).unwrap();
    assert_eq!(settled.starting_generation, observed("gen_2"));
    let kept =
        settle_decision(route_request(missing(), Route::AtlasDeep), observed("gen_2")).unwrap();
    assert_eq!(kept.starting_generation, observed("gen_1"));
}

#[test]
fn light_operations_have_one_version_each() {
    assert_eq!(VersionedOperation::new(LightOperation::Query).version, "query-v1.0.0");
    assert_eq!(
        VersionedOperation::new(LightOperation::SourceReference).version,
        "source-reference-v1.0.0"
    );
}

fn lookups() -> LightLookups {
    let rows = LightRows {
        identity_matches: vec![CatalogueLightIdentityMatch {
            canonical_path: "src/a.ts".into(),
            canonical_symbol_key: None,
            content_hash: "h".into(),
        }],
        relationships: vec![],
        impact_targets: vec![],
        coverage: None,
        conflicts: vec![],
    };
    let nothing = LightAspects { relationships: false, impact: false, coverage: false };
    LightLookups {
        projections: vec![bounded_query_projection("alpha", true, rows, nothing)],
        references: vec![],
    }
}

fn looked_up() -> CatalogueLightResults {
    CatalogueLightResults {
        query: Some(lookups().projections.into_iter().map(|found| found.result).collect()),
        source_references: None,
    }
}

#[test]
fn a_run_returns_the_lookups_that_its_execution_hands_on() {
    let run = || {
        let decision = decide_context_route(route_request(missing(), Route::AtlasDeep)).unwrap();
        let mut script = Script::new(&["gen_1"]);
        script.light = Some(
            light_route_outcome(
                &missing(),
                &vec![VersionedOperation::new(LightOperation::Query)],
                0,
                1,
                &lookups(),
            )
            .unwrap(),
        );
        execute_context_route(decision, &mut script).unwrap()
    };
    assert!(acquired_context(&run()));
    let output = application_output(run(), looked_up(), None);
    assert_eq!(output.light_results, Some(looked_up()));
    assert!(output.deep_context_ir.is_none());

    let mut changed = looked_up();
    changed.query.as_mut().unwrap()[0].target = "beta".into();
    assert!(application_output(run(), changed, None).light_results.is_none());
    let mut more = looked_up();
    more.source_references = Some(vec![]);
    assert!(application_output(run(), more, None).light_results.is_none());
    let none = CatalogueLightResults { query: None, source_references: None };
    assert!(application_output(run(), none, None).light_results.is_none());
}

#[test]
fn dispatches_and_bound_sessions_need_an_observed_generation() {
    let request = route_request(missing(), Route::AtlasDeep);
    let session = Some("session".to_string());
    assert_eq!(
        bound_start_generation(&request, &session).unwrap().as_deref(),
        Some("gen_1")
    );
    let decision = decide_context_route(request).unwrap();
    assert_eq!(expected_generation(&decision).unwrap(), "gen_1");

    let mut blind = route_request(missing(), Route::AtlasDeep);
    blind.starting_generation = GenerationObservation::Unavailable {
        reason: GenerationUnavailableReason::NoActiveGeneration,
    };
    assert!(bound_start_generation(&blind, &None).unwrap().is_none());
    assert!(matches!(
        bound_start_generation(&blind, &session),
        Err(CatalogueContextApplicationError::Atlas(AtlasError::InvalidConfig(m)))
            if m == "bound legacy task session requires an observed starting generation"
    ));
}

#[test]
fn a_governor_run_names_the_versions_that_it_was_negotiated_for() {
    let negotiated = negotiate_context_versions(&versions()).unwrap();
    let decision = decide_context_route(route_request(missing(), Route::AtlasDeep)).unwrap();
    let mut script = Script::new(&["gen_1"]);
    script.deep = Some(deep_completed());
    script.light = Some(light_deficient(CapabilityDeficitReason::Ambiguous));
    let execution = execute_context_route(decision, &mut script).unwrap();
    let none = CatalogueLightResults { query: None, source_references: None };
    let output = governor_output(negotiated, application_output(execution, none, None));
    assert_eq!(output.negotiated_versions.ir_version, "2.0.0");
    assert_eq!(output.execution.state(), ExecutionState::Completed);
    assert!(output.light_results.is_none() && output.deep_context_ir.is_none());
}
