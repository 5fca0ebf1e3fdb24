use workspace_atlas::context_application::show_context_yield;
use workspace_atlas::context_ir::{
    ClaimStrength, ContextIr, IrCost, IrCoverage, IrOmissions, IrPolicy, IrStatus, IrTask,
    IrWorkspace, RawTaskRetention, TaskKind, TaskKindSource, TaskSession, TaskSessionState,
    WorkingSetStatus, CONTEXT_SCHEMA_VERSION,
};
use workspace_atlas::context_metrics::{
    CanonicalEvidenceId, ContextMetricInvalidity, ContextMetrics, EvidenceClass, MetricFraction,
    MetricUnit,
};
use workspace_atlas::context_yield::{
    accepted_outcome, accepted_report, context_yield_metric, project_context_yield_report_v15,
    report_identity, StoredContext,
    ContextYieldEvidenceClass, ContextYieldLimitation, ContextYieldMetricInvalidity,
    ContextYieldMetricName, ContextYieldMetricUnit, ContextYieldSnapshot, ReportNames,
};
use workspace_atlas::digest::hash_of_text;
use workspace_atlas::error::AtlasError;
use workspace_atlas::naming::NameRequest;
use workspace_atlas::sorted::OrderedSet;

fn session() -> TaskSession {
    TaskSession {
        schema_version: CONTEXT_SCHEMA_VERSION.to_string(),
        task_session_id: "t1".into(),
        workspace_id: "ws1".into(),
        start_generation_id: "gen1".into(),
        end_generation_id: Some("gen2".into()),
        task_hash: "th".into(),
        normalized_goal_hash: "gh".into(),
        raw_task_retention: RawTaskRetention::NotRetained,
        raw_task: None,
        task_kind: TaskKind::BugFix,
        state: TaskSessionState::Completed,
        created_at: "2026-01-01T00:00:00Z".into(),
        completed_at: Some("2026-01-02T00:00:00Z".into()),
        planner_policy_version: "p1".into(),
        context_ir_version: "1.0.0".into(),
        accepted: Some(true),
        tests_passed: Some(true),
        outcome_code: Some("done".into()),
        start_tree_hash: None,
        end_tree_hash: Some("tree".into()),
    }
}

fn context(serving_fallback: bool, truncated: bool) -> ContextIr {
    ContextIr::seal(
        "c1".into(),
        IrWorkspace {
            workspace_id: "ws1".into(),
            generation_id: "gen1".into(),
            generation_sequence: 1,
            source_tree_hash: None,
            configuration_hash: "c".into(),
            provider_set_hash: "p".into(),
            serving_generation_id: None,
        },
        IrTask {
            task_session_id: "t1".into(),
            task_hash: "th".into(),
            normalized_goal_hash: "gh".into(),
            task_kind: TaskKind::BugFix,
            kind_source: TaskKindSource::Declared,
            kind_rule_id: None,
            seed_paths: vec![],
            seed_symbols: vec![],
        },
        IrPolicy::new("planner-v1".into(), "projection-v1".into(), "standard".into()),
        IrStatus {
            working_set_status: WorkingSetStatus::Complete,
            reasons: vec![],
            serving_fallback,
        },
        vec![],
        vec![],
        vec![],
        vec![],
        IrCoverage {
            eligible: 1,
            complete: 1,
            partial: 0,
            unsupported: 0,
            excluded: 0,
            failed: 0,
            claim_strength: ClaimStrength::Bounded,
            details: vec![],
        },
        IrOmissions {
            candidates_considered: 1,
            selected: 1,
            omitted: 0,
            truncated,
            by_reason: Default::default(),
        },
        vec![],
        IrCost {
            max_records: 10,
            selected_records: 0,
            max_source_bytes: 1000,
            selected_source_bytes: 77,
            max_estimated_tokens: 100,
            selected_estimated_tokens: 19,
            soft_latency_ms: 50,
            hard_latency_ms: 200,
            elapsed_ms: 1,
        },
    )
}

fn fraction(numerator: u64, denominator: u64) -> MetricFraction {
    MetricFraction {
        numerator,
        denominator,
        unit: MetricUnit::Items,
        evidence_class: EvidenceClass::AtlasObserved,
        invalidity: if denominator == 0 {
            Some(ContextMetricInvalidity::ZeroDenominator)
        } else {
            None
        },
    }
}

fn metrics(observed: MetricFraction) -> ContextMetrics {
    let none = || OrderedSet::<CanonicalEvidenceId>::new();
    ContextMetrics {
        supplied: none(),
        observed: none(),
        reported: none(),
        changed: none(),
        expanded: none(),
        rediscovered: none(),
        context_precision_observed: observed,
        context_precision_reported: fraction(1, 2),
        context_expansion_count: fraction(1, 1),
        rediscovery_rate: fraction(0, 3),
        source_efficiency_observed: fraction(2, 4),
    }
}

fn named(request: NameRequest) -> String {
    format!("{}:{}", request.tag, request.parts.join("/"))
}

fn names() -> ReportNames {
    ReportNames {
        schema_version: "1.5.0".into(),
        report_id: "yield_1".into(),
        run_id: "run_1".into(),
    }
}

#[test]
fn only_accepted_sessions_have_an_outcome() {
    let outcome = accepted_outcome(&session()).unwrap().unwrap();
    assert_eq!(outcome.completed_at, "2026-01-02T00:00:00Z");
    assert_eq!(
        outcome.outcome_hash,
        hash_of_text(
            "[\"context-yield-accepted-outcome-v1\",\"t1\",\"gen2\",\"tree\",true,\"done\"]"
        )
    );
    let mut untested = session();
    untested.tests_passed = None;
    assert_eq!(
        accepted_outcome(&untested).unwrap().unwrap().outcome_hash,
        hash_of_text(
            "[\"context-yield-accepted-outcome-v1\",\"t1\",\"gen2\",\"tree\",null,\"done\"]"
        )
    );
    let mut active = session();
    active.state = TaskSessionState::Active;
    assert!(accepted_outcome(&active).unwrap().is_none());
    for accepted in [None, Some(false)] {
        let mut refused = session();
        refused.accepted = accepted;
        assert!(accepted_outcome(&refused).unwrap().is_none());
    }
}

#[test]
fn an_accepted_session_without_its_outcome_is_refused() {
    let gap = |change: &dyn Fn(&mut TaskSession)| {
        let mut lacking = session();
        change(&mut lacking);
        match accepted_outcome(&lacking) {
            Err(AtlasError::InvalidConfig(message)) => message,
            other => panic!("unexpected {other:?}"),
        }
    };
    assert_eq!(
        gap(&|s| {
            s.completed_at = None;
            s.outcome_code = None;
        }),
        "accepted completed task has no completion time"
    );
    assert_eq!(
        gap(&|s| s.end_generation_id = None),
        "accepted completed task has no end generation"
    );
    assert_eq!(
        gap(&|s| s.end_tree_hash = None),
        "accepted completed task has no end tree hash"
    );
    assert_eq!(
        gap(&|s| s.outcome_code = None),
        "accepted completed task has no outcome code"
    );
}

#[test]
fn a_report_names_its_limits() {
    let outcome = accepted_outcome(&session()).unwrap().unwrap();
    let report = accepted_report(
        names(),
        "ws1",
        &session(),
        &outcome,
        &context(false, false),
        &metrics(fraction(2, 2)),
    )
    .unwrap();
    assert!(report.content.validity.is_valid);
    assert!(report.content.validity.observation_coverage.complete);
    assert_eq!(
        report.content.validity.limitations,
        vec![
            ContextYieldLimitation::SmallSampleSize,
            ContextYieldLimitation::SingleEnvironment
        ]
    );
    assert_eq!(report.content.sample_size, 1);
    assert_eq!(report.content.raw_measures.samples[0].selected_source_bytes, 77);
    assert_eq!(report.content.raw_measures.metrics.len(), 5);
    assert_eq!(report.content.estimator_policy_version, "estimator-v1");
    assert_eq!(report.content.metric_policy_version, "context-yield-v1.5");
    assert_eq!(report.execution.generated_at, "2026-01-02T00:00:00Z");
    assert_eq!(report.execution.run_id, "run_1");

    let report = accepted_report(
        names(),
        "ws1",
        &session(),
        &outcome,
        &context(true, true),
        &metrics(fraction(1, 2)),
    )
    .unwrap();
    assert_eq!(
        report.content.validity.limitations,
        vec![
            ContextYieldLimitation::PartialObservationCoverage,
            ContextYieldLimitation::SmallSampleSize,
            ContextYieldLimitation::ServingFallback,
            ContextYieldLimitation::TruncatedContext,
            ContextYieldLimitation::SingleEnvironment
        ]
    );
}

#[test]
fn one_invalid_metric_makes_a_report_invalid() {
    let outcome = accepted_outcome(&session()).unwrap().unwrap();
    let report = accepted_report(
        names(),
        "ws1",
        &session(),
        &outcome,
        &context(false, false),
        &metrics(fraction(0, 0)),
    )
    .unwrap();
    assert!(!report.content.validity.is_valid);
    assert!(report.content.validity.observation_coverage.complete);
    assert_eq!(
        report.content.raw_measures.metrics[0].invalidity,
        Some(ContextYieldMetricInvalidity::ZeroDenominator)
    );
}

#[test]
fn metrics_keep_their_numbers_and_lose_their_particulars() {
    let mut metric = fraction(3, 4);
    metric.unit = MetricUnit::Bytes;
    metric.evidence_class = EvidenceClass::ObservedAndReported;
    metric.invalidity = Some(ContextMetricInvalidity::CapacityExceeded { limit: 1, actual: 2 });
    let shown = context_yield_metric(ContextYieldMetricName::RediscoveryRate, &metric);
    assert_eq!((shown.numerator, shown.denominator), (3, 4));
    assert_eq!(shown.unit, ContextYieldMetricUnit::Bytes);
    assert_eq!(shown.evidence_class, ContextYieldEvidenceClass::ObservedAndReported);
    assert_eq!(shown.invalidity, Some(ContextYieldMetricInvalidity::CapacityExceeded));
    assert_eq!(shown.name, ContextYieldMetricName::RediscoveryRate);
}

#[test]
fn a_report_is_identified_by_what_it_is_about() {
    let outcome = accepted_outcome(&session()).unwrap().unwrap();
    let context = context(false, false);
    assert_eq!(
        report_identity("ws1", &session(), &outcome, &context),
        vec![
            "ws1".to_string(),
            "gen1".into(),
            "t1".into(),
            "th".into(),
            outcome.outcome_hash.clone(),
            context.context_hash.clone()
        ]
    );
}

#[test]
fn a_page_shows_what_was_captured() {
    let snapshot = |metrics| ContextYieldSnapshot {
        task_session: session(),
        events: vec![],
        metrics,
        next_cursor: Some("next".into()),
    };
    let page =
        show_context_yield(snapshot(Some(metrics(fraction(1, 2)))), "1.5.0", &named, "ws1", None).unwrap();
    assert_eq!(page.metrics.supplied_count, 0);
    assert_eq!(page.metrics.context_precision_observed.numerator, 1);
    assert_eq!(page.metrics.source_efficiency_observed.denominator, 4);
    assert_eq!(page.next_cursor.as_deref(), Some("next"));
    assert!(page.report.is_none());
    let page = show_context_yield(
        snapshot(Some(metrics(fraction(1, 2)))),
        "1.5.0",
        &named,
        "ws1",
        Some(stored(&context(false, false))),
    )
    .unwrap();
    let report = page.report.unwrap();
    let outcome = accepted_outcome(&session()).unwrap().unwrap();
    let report_id = format!(
        "yield:ws1/gen1/t1/th/{}/{}",
        outcome.outcome_hash,
        context(false, false).context_hash
    );
    assert_eq!(report.schema_version, "1.5.0");
    assert_eq!(report.execution.run_id, format!("run:{report_id}"));
    assert_eq!(report.content.report_id, report_id);
    assert!(matches!(
        show_context_yield(snapshot(None), "1.5.0", &named, "ws1", None),
        Err(AtlasError::Other(m)) if m == "context-yield metrics snapshot was not captured"
    ));
    assert!(matches!(
        show_context_yield(
            snapshot(Some(metrics(fraction(1, 2)))),
            "1.5.0",
            &named,
            "ws2",
            Some(stored(&context(false, false))),
        ),
        Err(AtlasError::InvalidConfig(m)) if m == "stored Context IR canonical contract is invalid"
    ));
}

fn stored(context: &ContextIr) -> StoredContext {
    let document = context.json_text();
    StoredContext {
        length: document.len() as i64,
        document,
        context_hash: context.context_hash.clone(),
        context_id: context.context_id.clone(),
        parsed: Ok(context.clone()),
    }
}

#[test]
fn only_an_accepted_session_with_a_stored_context_has_a_report() {
    let observed = metrics(fraction(2, 2));
    let project = |session: &TaskSession, stored| {
        project_context_yield_report_v15("1.5.0", &named, "ws1", session, stored, &observed)
    };
    let given = context(false, false);
    let report = project(&session(), Some(stored(&given))).unwrap().unwrap();
    assert_eq!(report.content.raw_measures.samples[0].context_hash, given.context_hash);
    assert_eq!(
        report.content.accepted_outcome.outcome_hash,
        accepted_outcome(&session()).unwrap().unwrap().outcome_hash
    );
    assert!(project(&session(), None).unwrap().is_none());
    let mut refused = session();
    refused.accepted = Some(false);
    assert!(project(&refused, Some(stored(&given))).unwrap().is_none());
    let mut open = session();
    open.state = TaskSessionState::Active;
    assert!(project(&open, Some(stored(&given))).unwrap().is_none());
    let mut untimed = session();
    untimed.completed_at = None;
    assert!(matches!(
        project(&untimed, None),
        Err(AtlasError::InvalidConfig(m)) if m == "accepted completed task has no completion time"
    ));
    let mut foreign = session();
    foreign.task_session_id = "t2".into();
    assert!(matches!(
        project(&foreign, Some(stored(&given))),
        Err(AtlasError::InvalidConfig(m)) if m == "stored Context IR canonical contract is invalid"
    ));
    let mut long = stored(&given);
    long.length = 1_048_577;
    assert!(matches!(
        project(&session(), Some(long)),
        Err(AtlasError::InvalidConfig(m))
            if m == "stored Context IR exceeds the serialized document bound"
    ));
}
