use workspace_atlas::context_ir::{
    is_hex64, ClaimStrength, Confidence, ContextIr, CoverageState, DeltaChangeSet, GenerationDelta,
    IrCost, IrCoverage, IrOmissions, IrPolicy, IrStatus, IrTask, IrWorkspace,
    PreferredEvidenceSummary, RawTaskRetention, SymbolCard, SymbolCost, SymbolCounts, SymbolRange,
    TaskKind, TaskKindSource, TaskSession, TaskSessionState, WorkingSetStatus,
    CONTEXT_SCHEMA_VERSION,
};
use workspace_atlas::digest::hash_of_text;

fn h(n: u8) -> String {
    // 64 lowercase hex chars, e.g. h(0) = "000...0", h(1) = "111...1".
    std::iter::repeat(char::from_digit(n as u32, 16).unwrap())
        .take(64)
        .collect()
}

fn session(retention: RawTaskRetention, raw_task: Option<String>) -> TaskSession {
    TaskSession {
        schema_version: CONTEXT_SCHEMA_VERSION.to_string(),
        task_session_id: "t1".into(),
        workspace_id: "ws1".into(),
        start_generation_id: "gen1".into(),
        end_generation_id: None,
        task_hash: h(0),
        normalized_goal_hash: h(1),
        raw_task_retention: retention,
        raw_task,
        task_kind: TaskKind::BugFix,
        state: TaskSessionState::Created,
        created_at: "2026-01-01T00:00:00Z".into(),
        completed_at: None,
        planner_policy_version: "p1".into(),
        context_ir_version: "1.0.0".into(),
        accepted: None,
        tests_passed: None,
        outcome_code: None,
        start_tree_hash: None,
        end_tree_hash: None,
    }
}

#[test]
fn task_session_rejects_raw_task_without_local_opt_in() {
    let ts = session(RawTaskRetention::HashOnly, Some("do the thing".into()));
    assert!(
        ts.validate().is_err(),
        "raw_task must be rejected without local_opt_in retention"
    );
}

#[test]
fn task_session_accepts_raw_task_with_local_opt_in() {
    let ts = session(RawTaskRetention::LocalOptIn, Some("do the thing".into()));
    assert!(ts.validate().is_ok());
}

#[test]
fn task_session_names_the_malformed_digest() {
    let mut ts = session(RawTaskRetention::NotRetained, None);
    ts.normalized_goal_hash = "AB\"".into();
    assert_eq!(
        format!("{:?}", ts.validate()),
        "Err(InvalidConfig(\"normalized_goal_hash must be 64 lowercase hex characters, got \\\"AB\\\\\\\"\\\"\"))"
    );
}

#[test]
fn task_session_default_retention_is_privacy_preserving() {
    assert_eq!(RawTaskRetention::default(), RawTaskRetention::NotRetained);
}

#[test]
fn symbol_card_seal_is_deterministic() {
    let build = || {
        SymbolCard::seal(
            "serve_gen_1".into(),
            "ws1".into(),
            "gen1".into(),
            "symbol:Foo.bar".into(),
            "src/foo.ts".into(),
            SymbolRange {
                start_byte: 0,
                end_byte: 10,
                start_line: 1,
                end_line: 2,
            },
            "method".into(),
            Some("typescript".into()),
            None,
            PreferredEvidenceSummary {
                fact_id: "f1".into(),
                provider_tier: "semantic_index".into(),
                confidence: Confidence {
                    bits: 1.0f64.to_bits(),
                    numeral: "1.0".into(),
                },
                state: "resolved".into(),
            },
            SymbolCounts {
                callers: 0,
                callees: 0,
                references: 0,
                tests: 0,
                configs: 0,
                effects: 0,
                conflicts: 0,
                unresolved: 0,
            },
            CoverageState::Complete,
            SymbolCost {
                source_bytes: 10,
                estimated_tokens: 5,
                metadata_bytes: 20,
            },
        )
    };
    let a = build();
    let b = build();
    assert_eq!(
        a.card_hash, b.card_hash,
        "identical inputs must produce a byte-identical card_hash"
    );
    assert!(is_hex64(&a.card_hash));
    let identity = [
        "{\"canonical_symbol_key\":\"symbol:Foo.bar\",",
        "\"cost\":{\"estimated_tokens\":5,\"metadata_bytes\":20,\"source_bytes\":10},",
        "\"counts\":{\"callees\":0,\"callers\":0,\"configs\":0,\"conflicts\":0,\"effects\":0,",
        "\"references\":0,\"tests\":0,\"unresolved\":0},\"coverage_state\":\"complete\",",
        "\"generation_id\":\"gen1\",\"kind\":\"method\",\"language\":\"typescript\",\"path\":\"src/foo.ts\",",
        "\"preferred_evidence\":{\"confidence\":1.0,\"fact_id\":\"f1\",\"provider_tier\":\"semantic_index\",",
        "\"state\":\"resolved\"},\"range\":{\"end_byte\":10,\"end_line\":2,\"start_byte\":0,\"start_line\":1},",
        "\"schema_version\":\"1.0.0\",\"serving_generation_id\":\"serve_gen_1\",\"signature\":null,",
        "\"workspace_id\":\"ws1\"}",
    ]
    .concat();
    assert_eq!(a.card_hash, hash_of_text(&identity));
}

fn delta(from: &str, to: &str) -> Result<GenerationDelta, String> {
    GenerationDelta::seal(
        "delta1".into(),
        "ws1".into(),
        from.into(),
        to.into(),
        "policy1".into(),
        DeltaChangeSet::empty(),
        DeltaChangeSet::empty(),
        DeltaChangeSet::empty(),
        DeltaChangeSet::empty(),
        DeltaChangeSet::empty(),
        DeltaChangeSet::empty(),
        Vec::new(),
        Vec::new(),
    )
    .map_err(|error| format!("{error:?}"))
}

#[test]
fn generation_delta_rejects_identical_from_and_to_generation() {
    let err = delta("gen1", "gen1");
    assert!(
        err.is_err(),
        "from_generation_id == to_generation_id must be rejected"
    );
}

#[test]
fn generation_delta_hash_is_the_content_hash_of_its_identity() {
    let sealed = delta("gen1", "gen2").unwrap();
    let empty = "{\"changes\":[],\"omitted_count\":0}";
    let identity = format!(
        "{{\"conflicts\":{empty},\"coverage\":{empty},\"delta_id\":\"delta1\",\"delta_policy_version\":\"policy1\",\"effects\":{empty},\"files\":{empty},\"from_generation_id\":\"gen1\",\"relationships\":{empty},\"schema_version\":\"1.0.0\",\"symbols\":{empty},\"to_generation_id\":\"gen2\",\"uncertainty\":[],\"unchanged_verified_contracts\":[],\"workspace_id\":\"ws1\"}}"
    );
    assert_eq!(sealed.delta_hash, hash_of_text(&identity));
}

#[test]
fn context_ir_seal_is_deterministic_across_repeated_compilation() {
    let build = || {
        ContextIr::seal(
            "ctx1".into(),
            IrWorkspace {
                workspace_id: "ws1".into(),
                generation_id: "gen1".into(),
                generation_sequence: 1,
                source_tree_hash: Some(h(0)),
                configuration_hash: h(1),
                provider_set_hash: h(2),
                serving_generation_id: None,
            },
            IrTask {
                task_session_id: "t1".into(),
                task_hash: h(0),
                normalized_goal_hash: h(1),
                task_kind: TaskKind::BugFix,
                kind_source: TaskKindSource::Declared,
                kind_rule_id: None,
                seed_paths: vec!["src/foo.ts".into()],
                seed_symbols: vec![],
            },
            IrPolicy::new(
                "planner-v1".into(),
                "projection-v1".into(),
                "standard".into(),
            ),
            IrStatus {
                working_set_status: WorkingSetStatus::Complete,
                reasons: vec![],
                serving_fallback: false,
            },
            vec![],
            vec![],
            vec![],
            vec![],
            IrCoverage {
                eligible: 1,
                complete: 1,
                partial: 0,
                unsupported: 0,
                excluded: 0,
                failed: 0,
                claim_strength: ClaimStrength::Bounded,
                details: vec![],
            },
            IrOmissions {
                candidates_considered: 1,
                selected: 1,
                omitted: 0,
                truncated: false,
                by_reason: Default::default(),
            },
            vec![],
            IrCost {
                max_records: 10,
                selected_records: 0,
                max_source_bytes: 1000,
                selected_source_bytes: 0,
                max_estimated_tokens: 100,
                selected_estimated_tokens: 0,
                soft_latency_ms: 50,
                hard_latency_ms: 200,
                elapsed_ms: 1,
            },
        )
    };
    let a = build();
    let b = build();
    assert_eq!(
        a.context_hash, b.context_hash,
        "identical compilation inputs must produce a byte-identical context_hash"
    );
    assert!(is_hex64(&a.context_hash));
    let mut document: serde_json::Value = serde_json::from_str(&a.json_text()).unwrap();
    let stored = document.as_object_mut().unwrap().remove("context_hash").unwrap();
    assert_eq!(stored.as_str(), Some(a.context_hash.as_str()));
    // The parsed value keeps its keys in order.
    assert_eq!(hash_of_text(&serde_json::to_string(&document).unwrap()), a.context_hash);
}
