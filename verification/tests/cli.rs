use workspace_atlas::application_cursor::ApplicationCursorError;
use workspace_atlas::broker::{GenerationFacts, PacketScope};
use workspace_atlas::cli::{
    build_context_ir_output, build_context_output, check_context_ir_budgets,
    check_request_length, cli_error_kind, name_detached_session, next_context_ir_action,
    declared_task_kind, error_detail, error_kind, initialization_failure, materialization_grant,
    name_config, parse_task_kind, plan_inspect, plan_removal, query_access,
    session_needs_transition, settle_leased_operation, summarize_reconcile, validate_page_limit,
    CliError, CompiledContextRun, ContextArguments, ContextIrAction, ContextIrArguments,
    ContextIrCliOutput, ContextIrStage, InspectTarget, QueryAccess, ReconcileReport, RemovalPlan,
};
use workspace_atlas::config::{
    Config, DatabaseConfig, EvidenceConfig, PolicyConfig, ProviderRuntimeConfig, ReconcileConfig,
    WorkspaceConfig,
};
use workspace_atlas::context_application::{
    ApplicationBoundaryError, CatalogueContextApplicationError,
};
use workspace_atlas::context_ir::{TaskKind, TaskSessionState};
use workspace_atlas::context_route::ContextRouteError;
use workspace_atlas::error::AtlasError;
use workspace_atlas::naming::NameRequest;

fn refusal<T: std::fmt::Debug>(r: Result<T, AtlasError>) -> String {
    match r {
        Err(AtlasError::InvalidConfig(message)) => message,
        other => panic!("expected a refusal, got {other:?}"),
    }
}

#[test]
fn additive_boundary_errors_map_to_exact_cli_kinds() {
    for (boundary, expected) in [
        (
            ApplicationBoundaryError::LiteralConfirmation {
                operation: "privacy deletion",
                required: "--confirm-privacy-deletion",
            },
            "confirmation_required",
        ),
        (
            ApplicationBoundaryError::ManifestMismatch {
                operation: "privacy compaction",
                expected: "expected".into(),
                found: "found".into(),
            },
            "manifest_mismatch",
        ),
        (
            ApplicationBoundaryError::UnregisterUnavailable {
                reason: "atomic removal unavailable".into(),
            },
            "unregister_unavailable",
        ),
    ] {
        let error = CliError::Application(CatalogueContextApplicationError::Boundary(boundary));
        assert_eq!(cli_error_kind(&error), expected);
    }
}

#[test]
fn every_error_has_its_code() {
    for (error, code) in [
        (AtlasError::Sqlite("x".into()), "sqlite"),
        (AtlasError::Migration("x".into()), "migration"),
        (
            AtlasError::WorkspaceNotFound { workspace_id: "w".into() },
            "workspace_not_found",
        ),
        (AtlasError::WriterLeaseHeld { holder: "h".into() }, "writer_lease_held"),
        (AtlasError::WriterLeaseExpired { stale_secs: 0 }, "writer_lease_expired"),
        (AtlasError::InvalidConfig("x".into()), "invalid_config"),
        (AtlasError::Io("x".into()), "io"),
        (AtlasError::Serde("x".into()), "serde"),
        (AtlasError::Toml("x".into()), "toml"),
        (AtlasError::Other("x".into()), "other"),
    ] {
        assert_eq!(error_kind(&error), code);
        assert_eq!(cli_error_kind(&CliError::Atlas(error)), code);
    }
    for (error, code) in [
        (
            CatalogueContextApplicationError::Route(ContextRouteError::FloorAboveCeiling),
            "floor_above_ceiling",
        ),
        (
            CatalogueContextApplicationError::Cursor(ApplicationCursorError::Invalid),
            "cursor_invalid",
        ),
        (
            CatalogueContextApplicationError::Cursor(ApplicationCursorError::Stale),
            "cursor_stale",
        ),
        (CatalogueContextApplicationError::Sqlite("x".into()), "sqlite"),
        (CatalogueContextApplicationError::Serde("x".into()), "serde"),
    ] {
        assert_eq!(cli_error_kind(&CliError::Application(error)), code);
    }
}

#[test]
fn additive_details_are_cut_at_a_character() {
    let application = CliError::Application(CatalogueContextApplicationError::Serde("x".into()));
    let atlas = CliError::Atlas(AtlasError::Other("x".into()));
    assert_eq!(error_detail(&application, "short".into()), "short");
    let exact = "a".repeat(1024);
    assert_eq!(error_detail(&application, exact.clone()), exact);
    assert_eq!(error_detail(&application, "a".repeat(1025)), exact);
    let wide = format!("{}\u{e9}rest", "a".repeat(1023));
    assert_eq!(error_detail(&application, wide.clone()), "a".repeat(1023));
    assert_eq!(error_detail(&atlas, wide.clone()), wide);
}

#[test]
fn requests_and_pages_are_bounded() {
    check_request_length(1_048_576).unwrap();
    assert_eq!(
        refusal(check_request_length(1_048_577)),
        "request document exceeds 1048576 bytes"
    );
    validate_page_limit(1).unwrap();
    validate_page_limit(200).unwrap();
    for limit in [0, 201] {
        assert_eq!(refusal(validate_page_limit(limit)), "limit must be within 1..=200");
    }
}

#[test]
fn only_both_flags_grant_materialization() {
    assert_eq!(materialization_grant(false, None, false, None).unwrap(), None);
    assert_eq!(materialization_grant(false, None, true, Some(9)).unwrap(), Some(9));
    for (flag, bytes) in [(true, None), (false, Some(9))] {
        assert_eq!(
            refusal(materialization_grant(false, None, flag, bytes)),
            "CLI materialization requires both authorization flags"
        );
    }
    for (flag, bytes) in [(true, None), (false, Some(9))] {
        assert_eq!(
            refusal(materialization_grant(flag, bytes, true, Some(9))),
            "governor request document cannot grant CLI materialization authority"
        );
    }
}

#[test]
fn removal_is_previewed_or_applied() {
    match plan_removal("compact", true, None, None, Some("c".into())).unwrap() {
        RemovalPlan::Preview { limit, cursor } => {
            assert_eq!(limit, 50);
            assert_eq!(cursor.as_deref(), Some("c"));
        }
        other => panic!("unexpected {other:?}"),
    }
    assert_eq!(
        refusal(plan_removal("compact", true, None, Some(0), None)),
        "limit must be within 1..=200"
    );
    match plan_removal("unregister", false, Some("m".into()), None, None).unwrap() {
        RemovalPlan::Apply { manifest } => assert_eq!(manifest, "m"),
        other => panic!("unexpected {other:?}"),
    }
    for (limit, cursor) in [(Some(1), None), (None, Some("c".to_string()))] {
        assert_eq!(
            refusal(plan_removal("unregister", false, Some("m".into()), limit, cursor)),
            "unregister apply does not accept limit or cursor"
        );
    }
}

#[test]
fn a_symbol_is_inspected_before_a_path() {
    assert!(matches!(
        plan_inspect(Some("p".into()), Some("s".into())),
        Ok(InspectTarget::Symbol(s)) if s == "s"
    ));
    assert!(matches!(
        plan_inspect(Some("p".into()), None),
        Ok(InspectTarget::Path(p)) if p == "p"
    ));
    assert_eq!(
        refusal(plan_inspect(None, None)),
        "inspect requires either a path or --symbol <canonical_symbol_key>"
    );
}

#[test]
fn task_kinds_are_read_by_name() {
    for (name, kind) in [
        ("explore", TaskKind::Explore),
        ("bug_fix", TaskKind::BugFix),
        ("behavior_change", TaskKind::BehaviorChange),
        ("api_change", TaskKind::ApiChange),
        ("refactor", TaskKind::Refactor),
        ("configuration_change", TaskKind::ConfigurationChange),
        ("test_change", TaskKind::TestChange),
        ("review", TaskKind::Review),
        ("audit", TaskKind::Audit),
        ("unknown", TaskKind::Unknown),
    ] {
        assert_eq!(parse_task_kind(name).unwrap(), kind);
        assert_eq!(declared_task_kind(true, Some(name)).unwrap(), Some(kind));
    }
    assert_eq!(
        refusal(parse_task_kind("Audit")),
        "unknown task_kind \"Audit\"; expected explore|bug_fix|behavior_change|api_change|refactor|configuration_change|test_change|review|audit|unknown"
    );
    assert_eq!(declared_task_kind(true, None).unwrap(), None);
    assert!(matches!(
        declared_task_kind(false, Some("nonsense")),
        Err(AtlasError::WorkspaceNotFound { .. })
    ));
}

#[test]
fn context_ir_budgets_must_be_positive() {
    check_context_ir_budgets(1, 1, 1).unwrap();
    assert_eq!(refusal(check_context_ir_budgets(0, 0, 0)), "max_records must be > 0, got 0");
    assert_eq!(
        refusal(check_context_ir_budgets(1, -7, 0)),
        "max_source_bytes must be > 0, got -7"
    );
    assert_eq!(
        refusal(check_context_ir_budgets(1, 1, 0)),
        "max_estimated_tokens must be > 0, got 0"
    );
    assert!(session_needs_transition(TaskSessionState::Created));
    assert!(!session_needs_transition(TaskSessionState::ContextCompiled));
}

fn arguments(mode: &str) -> ContextArguments {
    ContextArguments {
        task: "look".into(),
        mode: mode.into(),
        paths: vec!["src/a.ts".into()],
        symbols: vec![],
        max_records: 40,
        max_source_bytes: 32_768,
        max_token_estimate: 8_000,
    }
}

fn no_facts() -> GenerationFacts {
    GenerationFacts {
        resolved: vec![],
        symbols: vec![],
        relationships: vec![],
        test_paths: vec![],
        observations: vec![],
        conflicts: vec![],
        coverage: vec![],
    }
}

#[test]
fn context_output_needs_a_workspace_and_a_mode() {
    let scope = || PacketScope {
        workspace_id: "ws_1".into(),
        active_generation_id: Some("gen_1".into()),
        created_at: "now".into(),
    };
    let packet = build_context_output(Some(scope()), arguments("map"), no_facts()).unwrap();
    assert_eq!(packet.mode, "map");
    assert_eq!(packet.primary_targets[0].canonical_path, "src/a.ts");
    assert_eq!(
        refusal(build_context_output(Some(scope()), arguments("all"), no_facts())),
        "unknown mode \"all\"; expected map|change|audit"
    );
    assert!(matches!(
        build_context_output(None, arguments("all"), no_facts()),
        Err(AtlasError::WorkspaceNotFound { .. })
    ));
}

#[test]
fn queries_are_attributed_only_to_a_given_session() {
    assert!(matches!(query_access(true, None), Ok(QueryAccess::ReadOnly)));
    assert!(matches!(
        query_access(true, Some("t".into())),
        Ok(QueryAccess::Attributed { task_session_id }) if task_session_id == "t"
    ));
    assert!(query_access(false, None).is_err());
}

#[test]
fn configurations_get_their_name() {
    let config = || Config {
        schema_version: "1.0.0".into(),
        workspace: WorkspaceConfig {
            display_name: "_internal".into(),
            workspace_id: None,
            canonical_root_label: None,
        },
        database: DatabaseConfig::default(),
        policy: PolicyConfig::default(),
        reconcile: ReconcileConfig::default(),
        provider_runtime: ProviderRuntimeConfig::default(),
        providers: vec![],
        evidence: EvidenceConfig::default(),
    };
    let named = |loaded, given| name_config(config(), loaded, given, "/p/example").workspace.display_name;
    assert_eq!(named(false, Some("given")), "given");
    assert_eq!(named(true, Some("given")), "given");
    assert_eq!(named(true, None), "_internal");
    assert_eq!(named(false, None), "example");
}

#[test]
fn a_failed_initialization_can_be_resumed() {
    match initialization_failure("/root", "/c/ws.sqlite", "disk full") {
        AtlasError::Other(message) => assert_eq!(
            message,
            "default catalogue route for workspace /root was reserved at /c/ws.sqlite, but initialization did not complete: disk full. Retry `atlas init` with the same workspace root and display name to resume safely"
        ),
        other => panic!("unexpected {other:?}"),
    }
}

#[test]
fn reconcile_counts_secrets_apart() {
    let report = |activation: &str| ReconcileReport {
        activation: activation.into(),
        excluded_file_count: 7,
        secret_excluded_file_count: 3,
    };
    let summary = summarize_reconcile(&report("committed"));
    assert!(summary.ok);
    assert_eq!(summary.excluded_file_count, 4);
    assert_eq!(summary.secret_excluded_file_count, 3);
    assert!(!summarize_reconcile(&report("failed")).ok);
}

#[test]
fn the_operation_fails_before_the_release() {
    let problem = |text: &str| AtlasError::Other(text.into());
    assert_eq!(settle_leased_operation(Ok(1), Ok(())).unwrap(), 1);
    assert_eq!(
        settle_leased_operation::<i32>(Err(problem("work")), Err(problem("release"))),
        Err(problem("work"))
    );
    assert_eq!(
        settle_leased_operation(Ok(1), Err(problem("release"))),
        Err(problem("release"))
    );
}

fn context_ir_actions(active: Option<&str>, found: TaskSessionState) -> Vec<ContextIrAction> {
    let active = active.map(String::from);
    let id = || "task_1".to_string();
    let mut out = Vec::new();
    let mut stage = ContextIrStage::Ready;
    loop {
        let action = next_context_ir_action(&active, stage);
        stage = match &action {
            ContextIrAction::AcquireLease => ContextIrStage::Leased,
            ContextIrAction::CreateSession { .. } => {
                ContextIrStage::SessionFound { task_session_id: id(), state: found }
            }
            ContextIrAction::NameSession | ContextIrAction::AdvanceSession { .. } => {
                ContextIrStage::SessionSettled { task_session_id: id() }
            }
            ContextIrAction::Compile { .. } => ContextIrStage::Compiled { task_session_id: id() },
            ContextIrAction::RecordUse { .. } => ContextIrStage::Recorded { task_session_id: id() },
            ContextIrAction::Finish { .. } => {
                out.push(action);
                return out;
            }
        };
        out.push(action);
    }
}

#[test]
fn only_an_active_generation_is_written() {
    let id = || "task_1".to_string();
    assert_eq!(
        context_ir_actions(Some("gen_1"), TaskSessionState::Created),
        vec![
            ContextIrAction::AcquireLease,
            ContextIrAction::CreateSession { generation_id: "gen_1".into() },
            ContextIrAction::AdvanceSession { task_session_id: id() },
            ContextIrAction::Compile { task_session_id: id() },
            ContextIrAction::RecordUse { task_session_id: id() },
            ContextIrAction::Finish { task_session_id: id(), release_lease: true },
        ]
    );
    assert_eq!(context_ir_actions(Some("gen_1"), TaskSessionState::Active).len(), 5);
    assert_eq!(
        context_ir_actions(None, TaskSessionState::Created),
        vec![
            ContextIrAction::NameSession,
            ContextIrAction::Compile { task_session_id: id() },
            ContextIrAction::Finish { task_session_id: id(), release_lease: false },
        ]
    );
}

#[test]
fn a_context_ir_command_fails_in_order() {
    let arguments = |kind: Option<&str>, max_records| ContextIrArguments {
        declared_task_kind: kind.map(String::from),
        max_records,
        max_source_bytes: 1,
        max_estimated_tokens: 1,
    };
    let failed = || -> Result<CompiledContextRun, AtlasError> {
        Err(AtlasError::Other("work".into()))
    };
    let build = |arguments: &ContextIrArguments, registered| -> Result<ContextIrCliOutput, _> {
        build_context_ir_output(arguments, registered, failed(), Ok(()))
    };
    assert_eq!(
        refusal(build(&arguments(Some("odd"), 0), false)),
        "max_records must be > 0, got 0"
    );
    assert!(matches!(
        build(&arguments(Some("odd"), 1), false),
        Err(AtlasError::WorkspaceNotFound { workspace_id }) if workspace_id == "<by root>"
    ));
    assert!(refusal(build(&arguments(Some("odd"), 1), true)).starts_with("unknown task_kind"));
    assert!(matches!(
        build(&arguments(Some("audit"), 1), true),
        Err(AtlasError::Other(m)) if m == "work"
    ));
}

#[test]
fn a_session_without_a_generation_is_named_after_its_task() {
    let named = |request: NameRequest| format!("{}:{}", request.tag, request.parts.join("/"));
    assert_eq!(
        name_detached_session(&named, "ws1", "th", "bug_fix", "rule", Some("r1"), "p1"),
        "task:ws1/no_generation/th/bug_fix/rule/r1/p1"
    );
    assert_eq!(
        name_detached_session(&named, "ws1", "th", "unknown", "none", None, "p1"),
        "task:ws1/no_generation/th/unknown/none//p1"
    );
}
