use workspace_atlas::application_cursor::{
    decode_application_cursor_snapshot, ApplicationCursorError, CursorScope,
};
use workspace_atlas::application_error::CatalogueContextApplicationError;
use workspace_atlas::compiled_context::{
    check_stored_length, compiled_context_binding, compiled_context_snapshot_digest,
    finish_session_page, plan_compiled_context, plan_session_page, validate_json_bounds,
    validated_legacy_context_ir, CompiledContextOrderingKey, CompiledContextRow,
    CompiledContextShowPlan, CompiledContextShowRequest, CompiledContextWatermark,
    ExpectedContext, JsonValue, SessionPagePlan, SessionStart,
};
use workspace_atlas::context_ir::{
    ClaimStrength, ContextIr, IrCost, IrCoverage, IrOmissions, IrPolicy, IrStatus, IrTask,
    IrWorkspace, TaskKind, TaskKindSource, WorkingSetStatus,
};
use workspace_atlas::error::AtlasError;

const SCOPE: CursorScope<'static> = CursorScope {
    workspace_id: "ws1",
    catalogue_identity: "/c/ws1.sqlite",
};

fn context(id: &str) -> ContextIr {
    ContextIr::seal(
        id.into(),
        IrWorkspace {
            workspace_id: "ws1".into(),
            generation_id: "gen1".into(),
            generation_sequence: 1,
            source_tree_hash: None,
            configuration_hash: "c".into(),
            provider_set_hash: "p".into(),
            serving_generation_id: None,
        },
        IrTask {
            task_session_id: "t1".into(),
            task_hash: "th".into(),
            normalized_goal_hash: "gh".into(),
            task_kind: TaskKind::BugFix,
            kind_source: TaskKindSource::Declared,
            kind_rule_id: None,
            seed_paths: vec![],
            seed_symbols: vec![],
        },
        IrPolicy::new("planner-v1".into(), "projection-v1".into(), "standard".into()),
        IrStatus {
            working_set_status: WorkingSetStatus::Complete,
            reasons: vec![],
            serving_fallback: false,
        },
        vec![],
        vec![],
        vec![],
        vec![],
        IrCoverage {
            eligible: 1,
            complete: 1,
            partial: 0,
            unsupported: 0,
            excluded: 0,
            failed: 0,
            claim_strength: ClaimStrength::Bounded,
            details: vec![],
        },
        IrOmissions {
            candidates_considered: 1,
            selected: 1,
            omitted: 0,
            truncated: false,
            by_reason: Default::default(),
        },
        vec![],
        IrCost {
            max_records: 10,
            selected_records: 0,
            max_source_bytes: 1000,
            selected_source_bytes: 0,
            max_estimated_tokens: 100,
            selected_estimated_tokens: 0,
            soft_latency_ms: 50,
            hard_latency_ms: 200,
            elapsed_ms: 1,
        },
    )
}

fn parsed(id: &str) -> Result<ContextIr, String> {
    Ok(context(id))
}

fn refused<T: std::fmt::Debug>(r: Result<T, AtlasError>) -> String {
    match r {
        Err(AtlasError::InvalidConfig(message)) => message,
        other => panic!("expected a refusal, got {other:?}"),
    }
}

fn request() -> CompiledContextShowRequest {
    CompiledContextShowRequest {
        context_id: None,
        task_session_id: None,
        limit: None,
        cursor: None,
    }
}

#[test]
fn requests_name_one_document_or_one_session() {
    let both = CompiledContextShowRequest {
        context_id: Some("c".into()),
        task_session_id: Some("t".into()),
        ..request()
    };
    for bad in [request(), both] {
        assert!(matches!(
            plan_compiled_context(bad),
            Err(CatalogueContextApplicationError::Atlas(AtlasError::InvalidConfig(m)))
                if m == "exactly one context_id or task_session_id is required"
        ));
    }
    assert!(matches!(
        plan_compiled_context(CompiledContextShowRequest {
            context_id: Some("c".into()),
            cursor: Some("x".into()),
            ..request()
        }),
        Err(CatalogueContextApplicationError::Cursor(ApplicationCursorError::Invalid))
    ));
    for limit in [0, 201] {
        assert!(matches!(
            plan_compiled_context(CompiledContextShowRequest {
                task_session_id: Some("t".into()),
                limit: Some(limit),
                ..request()
            }),
            Err(CatalogueContextApplicationError::Atlas(AtlasError::InvalidConfig(m)))
                if m == "limit must be within 1..=200"
        ));
    }
    assert!(matches!(
        plan_compiled_context(CompiledContextShowRequest {
            task_session_id: Some("t".into()),
            ..request()
        }),
        Ok(CompiledContextShowPlan::Session { limit: 50, .. })
    ));
    assert!(matches!(
        plan_compiled_context(CompiledContextShowRequest {
            context_id: Some("c".into()),
            ..request()
        }),
        Ok(CompiledContextShowPlan::Context { .. })
    ));
}

#[test]
fn stored_values_are_bounded() {
    let text = |n: usize| JsonValue::Text("x".repeat(n));
    validate_json_bounds(&text(65_536), 1).unwrap();
    assert_eq!(
        refused(validate_json_bounds(&text(65_537), 1)),
        "stored Context IR exceeds the string bound"
    );
    let list = |n: usize| JsonValue::Array((0..n).map(|_| JsonValue::Bool(true)).collect());
    validate_json_bounds(&list(10_000), 1).unwrap();
    assert_eq!(
        refused(validate_json_bounds(&list(10_001), 1)),
        "stored Context IR exceeds the nested vector bound"
    );
    let fields = |n: usize| {
        JsonValue::Object((0..n).map(|i| (format!("k{i}"), JsonValue::Null)).collect())
    };
    assert_eq!(
        refused(validate_json_bounds(&fields(10_001), 1)),
        "stored Context IR exceeds the nested object bound"
    );
    assert_eq!(
        refused(validate_json_bounds(
            &JsonValue::Object(vec![("k".repeat(65_537), JsonValue::Null)]),
            1
        )),
        "stored Context IR exceeds the string bound"
    );
    let nested = |depth: usize| {
        (1..depth).fold(JsonValue::Number("1".into()), |inner, _| JsonValue::Array(vec![inner]))
    };
    validate_json_bounds(&nested(64), 1).unwrap();
    assert_eq!(
        refused(validate_json_bounds(&nested(65), 1)),
        "stored Context IR exceeds the nested depth bound"
    );
}

#[test]
fn stored_lengths_are_bounded() {
    check_stored_length(0).unwrap();
    check_stored_length(1_048_576).unwrap();
    for length in [-1, 1_048_577] {
        assert_eq!(
            refused(check_stored_length(length)),
            "stored Context IR exceeds the serialized document bound"
        );
    }
}

#[test]
fn stored_documents_are_checked_before_they_are_shown() {
    let document = context("c1").json_text();
    let hash = context("c1").context_hash;
    let expected = ExpectedContext {
        stored_hash: &hash,
        workspace_id: "ws1",
        context_id: "c1",
        task_session_id: Some("t1"),
    };
    let shown = validated_legacy_context_ir(&document, expected, parsed("c1")).unwrap();
    assert_eq!(shown.context_id, "c1");
    let contract = "stored Context IR canonical contract is invalid";
    for wrong in [
        ExpectedContext { context_id: "c2", ..expected },
        ExpectedContext { workspace_id: "ws2", ..expected },
        ExpectedContext { task_session_id: Some("t2"), ..expected },
        ExpectedContext { stored_hash: "h", ..expected },
    ] {
        assert_eq!(
            refused(validated_legacy_context_ir(&document, wrong, parsed("c1"))),
            contract
        );
    }
    let spaced = document.replace("{", "{ ");
    assert_eq!(refused(validated_legacy_context_ir(&spaced, expected, parsed("c1"))), contract);
    let mut tampered = context("c1");
    tampered.cost.elapsed_ms = 2;
    let written = tampered.json_text();
    assert_eq!(
        refused(validated_legacy_context_ir(&written, expected, Ok(tampered))),
        "stored Context IR hash integrity is invalid"
    );
    let cut = &document[..document.len() - 1];
    let reason = serde_json::from_str::<serde_json::Value>(cut).unwrap_err().to_string();
    assert!(matches!(
        validated_legacy_context_ir(cut, expected, parsed("c1")),
        Err(AtlasError::Serde(m)) if m == reason
    ));
    assert!(matches!(
        validated_legacy_context_ir(&document, expected, Err("missing field".into())),
        Err(AtlasError::Serde(m)) if m == "missing field"
    ));
    let long = "x".repeat(1_048_577);
    assert_eq!(
        refused(validated_legacy_context_ir(&long, expected, parsed("c1"))),
        "stored Context IR exceeds the serialized document bound"
    );
}

#[test]
fn the_bounds_are_those_of_the_document_itself() {
    let hash = context("c1").context_hash;
    let expected = ExpectedContext {
        stored_hash: &hash,
        workspace_id: "ws1",
        context_id: "c1",
        task_session_id: Some("t1"),
    };
    let check = |document: String| {
        refused(validated_legacy_context_ir(&document, expected, parsed("c1")))
    };
    let deep = |depth: usize| format!("{}{}", "[".repeat(depth), "]".repeat(depth));
    let contract = "stored Context IR canonical contract is invalid";
    assert_eq!(check(deep(64)), contract);
    assert_eq!(check(deep(65)), "stored Context IR exceeds the nested depth bound");
    let text = |length: usize| format!("\"{}\"", "x".repeat(length));
    assert_eq!(check(text(65_536)), contract);
    assert_eq!(check(text(65_537)), "stored Context IR exceeds the string bound");
    let named = |length: usize| format!("{{{}:1}}", text(length));
    assert_eq!(check(named(65_536)), contract);
    assert_eq!(check(named(65_537)), "stored Context IR exceeds the string bound");
    let list = |items: usize| format!("[{}]", vec!["0"; items].join(","));
    assert_eq!(check(list(10_000)), contract);
    assert_eq!(check(list(10_001)), "stored Context IR exceeds the nested vector bound");
    let record = |fields: usize| {
        let fields: Vec<String> = (0..fields).map(|i| format!("\"{i}\":0")).collect();
        format!("{{{}}}", fields.join(","))
    };
    assert_eq!(check(record(10_000)), contract);
    assert_eq!(check(record(10_001)), "stored Context IR exceeds the nested object bound");
}

fn row(rowid: i64, created_at: &str, id: &str) -> CompiledContextRow {
    CompiledContextRow {
        rowid,
        canonical_json: "{}".into(),
        context_hash: "h".into(),
        context_id: id.into(),
        created_at: created_at.into(),
    }
}

fn rows(n: usize) -> Vec<CompiledContextRow> {
    (0..n).map(|i| row(i as i64 + 1, &format!("2026-01-0{}", i + 1), &format!("c{i}"))).collect()
}

fn resumed(token: &str) -> SessionStart {
    let held =
        decode_application_cursor_snapshot(&SCOPE, &compiled_context_binding("ws1", "t1", ""), token)
            .unwrap();
    let state: serde_json::Value = serde_json::from_str(&held.captured_state).unwrap();
    let key: serde_json::Value = serde_json::from_str(&held.ordering_key).unwrap();
    let text = |value: &serde_json::Value| value.as_str().unwrap().to_string();
    SessionStart::Resumed {
        watermark: Some(CompiledContextWatermark {
            max_rowid: state["max_rowid"].as_i64().unwrap(),
            row_count: state["row_count"].as_i64().unwrap(),
            snapshot_digest: text(&state["snapshot_digest"]),
            prefix_digest: text(&state["prefix_digest"]),
        }),
        ordering: Some(CompiledContextOrderingKey {
            created_at: text(&key["created_at"]),
            context_id: text(&key["context_id"]),
        }),
    }
}

fn read(plan: &SessionPagePlan, rows: &[CompiledContextRow]) -> Vec<ContextIr> {
    plan.places.iter().map(|place| context(&rows[*place].context_id)).collect()
}

#[test]
fn pages_of_a_session_follow_each_other() {
    let all = rows(5);
    let mut start = SessionStart::First { max_rowid: 5, row_count: 5 };
    let mut seen = Vec::new();
    loop {
        let plan = plan_session_page(&all, 2, start).unwrap();
        let page = finish_session_page(&SCOPE, "t1", 2, &plan, &all, read(&plan, &all)).unwrap();
        seen.extend(page.contexts.into_iter().map(|context| context.context_id));
        match page.next_cursor {
            Some(token) => start = resumed(&token),
            None => break,
        }
    }
    assert_eq!(seen, vec!["c0", "c1", "c2", "c3", "c4"]);
}

#[test]
fn later_rows_do_not_disturb_a_cursor_and_changed_ones_make_it_stale() {
    let all = rows(3);
    let plan =
        plan_session_page(&all, 1, SessionStart::First { max_rowid: 3, row_count: 3 }).unwrap();
    let token = finish_session_page(&SCOPE, "t1", 1, &plan, &all, read(&plan, &all))
        .unwrap()
        .next_cursor
        .unwrap();

    let mut later = rows(3);
    later.insert(1, row(9, "2026-01-015", "late"));
    let plan = plan_session_page(&later, 5, resumed(&token)).unwrap();
    let shown: Vec<&str> = plan.places.iter().map(|p| later[*p].context_id.as_str()).collect();
    assert_eq!(shown, vec!["c1", "c2"]);

    let mut changed = rows(3);
    changed[2].canonical_json = "{\"a\":1}".into();
    let mut fewer = rows(3);
    fewer.remove(2);
    for now in [changed, fewer] {
        assert!(matches!(
            plan_session_page(&now, 5, resumed(&token)),
            Err(ApplicationCursorError::Stale)
        ));
    }
    assert!(matches!(
        plan_session_page(&all, 5, SessionStart::First { max_rowid: 3, row_count: 4 }),
        Err(ApplicationCursorError::Stale)
    ));
    assert!(matches!(
        plan_session_page(&all, 5, SessionStart::Resumed { watermark: None, ordering: None }),
        Err(ApplicationCursorError::Invalid)
    ));
}

#[test]
fn a_position_that_no_cursor_can_carry_is_refused() {
    let all = vec![row(1, "2026\u{e9}", "c0"), row(2, "2027", "c1")];
    let mut ordered = all;
    ordered.sort_by(|a, b| a.created_at.cmp(&b.created_at));
    let plan =
        plan_session_page(&ordered, 1, SessionStart::First { max_rowid: 2, row_count: 2 }).unwrap();
    assert!(matches!(
        finish_session_page(&SCOPE, "t1", 1, &plan, &ordered, read(&plan, &ordered)),
        Err(CatalogueContextApplicationError::Cursor(ApplicationCursorError::Invalid))
    ));
}

#[test]
fn summaries_count_what_they_select() {
    let all = rows(3);
    let whole = compiled_context_snapshot_digest(&all, 3, None);
    assert_eq!(whole.count, 3);
    assert_eq!(whole.last.unwrap().context_id, "c2");
    let key = CompiledContextOrderingKey {
        created_at: "2026-01-02".into(),
        context_id: "c1".into(),
    };
    let part = compiled_context_snapshot_digest(&all, 3, Some(&key));
    assert_eq!(part.count, 2);
    assert_eq!(part.digest, compiled_context_snapshot_digest(&rows(2), 3, None).digest);
    assert_ne!(part.digest, whole.digest);
    assert_eq!(compiled_context_snapshot_digest(&all, 0, None).count, 0);
}
