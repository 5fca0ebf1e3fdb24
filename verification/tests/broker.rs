use workspace_atlas::broker::{
    add_or_bump, build_packet, key_for_path, rank_candidates, test_patterns, usable_records,
    BrokerMode, ConflictSummary, ContextPacket, CoverageRow, GenerationFacts, PacketScope,
    RelationshipRow, ResolvedSymbol, ScoredCandidate, SourceObservation, SymbolRow, TaskRequest,
    MAX_ALTERNATIVES,
};
use workspace_atlas::digest::hash_of_text;

const ALPHA_SOURCE: &str = "import { b } from './b';\nexport function alpha() { return 1; }\n";
const BETA_SOURCE: &str = "export function beta() { return 2; }\n";
const TEST_SOURCE: &str =
    "import { alpha } from './a';\ntest('alpha works', () => { alpha(); });\n";

fn scope() -> PacketScope {
    PacketScope {
        workspace_id: "ws_1".to_string(),
        active_generation_id: Some("gen_1".to_string()),
        created_at: "2026-01-01T00:00:00.000Z".to_string(),
    }
}

fn symbol(path: &str, name: &str, method: &str) -> SymbolRow {
    SymbolRow {
        canonical_path: path.to_string(),
        canonical_symbol_key: format!("{path}#{name}"),
        display_name: name.to_string(),
        symbol_kind: "function".to_string(),
        evidence_method: method.to_string(),
    }
}

fn req(task: &str, mode: BrokerMode) -> TaskRequest {
    TaskRequest {
        task: task.to_string(),
        mode,
        known_paths: Vec::new(),
        known_symbols: Vec::new(),
        max_records: 20,
        max_source_bytes: 32_768,
        max_token_estimate: 8_000,
    }
}

fn source_of(path: &str) -> Option<String> {
    match path {
        "src/a.ts" => Some(ALPHA_SOURCE.to_string()),
        "src/b.ts" => Some(BETA_SOURCE.to_string()),
        "src/a.test.ts" => Some(TEST_SOURCE.to_string()),
        _ if path.starts_with("docs/large-") => Some("x".repeat(20_000)),
        _ => None,
    }
}

/// The facts of a small workspace, with each ranked candidate observed on disk.
fn facts(request: &TaskRequest) -> GenerationFacts {
    let mut facts = GenerationFacts {
        resolved: request.known_symbols.iter().map(|_| None).collect(),
        symbols: vec![
            symbol("src/a.ts", "alpha", "structural"),
            symbol("src/b.ts", "beta", "structural"),
        ],
        relationships: vec![vec![RelationshipRow {
            relationship_type: "imports".to_string(),
            target_ref_kind: "module_specifier".to_string(),
            target_ref_value: "./b".to_string(),
        }]],
        test_paths: vec![vec!["src/a.test.ts".to_string()]],
        observations: Vec::new(),
        conflicts: Vec::new(),
        coverage: Vec::new(),
    };
    observe(&mut facts, request, &|path| source_of(path));
    facts
}

fn observe(
    facts: &mut GenerationFacts,
    request: &TaskRequest,
    read: &dyn Fn(&str) -> Option<String>,
) {
    facts.observations = rank_candidates(facts, request)
        .iter()
        .map(|candidate| {
            let indexed = source_of(&candidate.canonical_path);
            let found = read(&candidate.canonical_path);
            SourceObservation {
                indexed_hash: indexed.as_deref().map(hash_of_text),
                observed_hash: found.as_deref().map(hash_of_text),
                text: found,
            }
        })
        .collect();
}

fn packet_for(request: &TaskRequest) -> ContextPacket {
    build_packet(&scope(), facts(request), request)
}

fn assert_returned_source_respects_hard_limits(packet: &ContextPacket, request: &TaskRequest) {
    let returned_source_bytes: i64 = packet
        .exact_excerpts
        .iter()
        .filter_map(|excerpt| excerpt.text.as_ref())
        .map(|text| i64::try_from(text.len()).unwrap())
        .sum();
    let returned_estimated_tokens = returned_source_bytes / 4;
    assert!(returned_source_bytes <= request.max_source_bytes);
    assert!(returned_estimated_tokens <= request.max_token_estimate);
    assert_eq!(packet.budget.used_source_bytes, returned_source_bytes);
    assert_eq!(packet.budget.estimated_tokens, returned_estimated_tokens);
}

#[test]
fn audit_mode_is_materially_richer_than_map_and_change() {
    let map_packet = packet_for(&req("alpha", BrokerMode::MapOnly));
    let audit_packet = packet_for(&req("alpha", BrokerMode::Audit));
    assert!(!audit_packet.exact_excerpts.is_empty());
    assert!(map_packet.alternatives.is_empty());
    assert!(map_packet.conflicts.is_empty());
    assert!(map_packet.coverage.is_empty());
    assert_eq!(
        audit_packet.conflicts.len(),
        0,
        "no evidence_conflict rows exist in this structural-only fixture"
    );
    assert_eq!(
        audit_packet.coverage.len(),
        0,
        "no coverage_record rows exist in this structural-only fixture"
    );
}

#[test]
fn audit_mode_surfaces_persisted_conflicts_and_coverage() {
    let with_rows = |request: &TaskRequest| {
        let mut found = facts(request);
        found.conflicts.push(ConflictSummary {
            subject_kind: "relationship".to_string(),
            subject_key: "subject_1".to_string(),
            conflict_type: "incompatible_target".to_string(),
            status: "preferred_with_conflict".to_string(),
            explanation: "disagreement".to_string(),
        });
        found.coverage.push(CoverageRow {
            scope_kind: "provider".to_string(),
            scope_key: "scip-typescript@0.4.0".to_string(),
            status: "complete".to_string(),
        });
        build_packet(&scope(), found, request)
    };
    let audit_packet = with_rows(&req("alpha", BrokerMode::Audit));
    assert_eq!(audit_packet.conflicts.len(), 1);
    assert_eq!(audit_packet.conflicts[0].subject_key, "subject_1");
    assert_eq!(audit_packet.coverage.len(), 1);
    assert_eq!(audit_packet.coverage[0].scope_key, "scip-typescript@0.4.0");

    let map_packet = with_rows(&req("alpha", BrokerMode::MapOnly));
    assert!(map_packet.conflicts.is_empty());
    assert!(map_packet.coverage.is_empty());
}

#[test]
fn preferred_semantic_evidence_outranks_structural_at_equal_relevance() {
    let packet = packet_for(&req("alpha", BrokerMode::MapOnly));
    let target = packet
        .primary_targets
        .iter()
        .find(|t| t.display_name.as_deref() == Some("alpha"))
        .unwrap();
    assert!(
        !target.preferred_semantic,
        "this fixture never runs a semantic provider"
    );
}

#[test]
fn semantic_evidence_comes_first_among_equals() {
    let request = req("alpha", BrokerMode::MapOnly);
    let mut found = facts(&request);
    found.symbols = vec![
        symbol("src/a.ts", "alpha", "structural"),
        symbol("src/z.ts", "alpha", "semantic"),
    ];
    let ranked = rank_candidates(&found, &request);
    let symbols: Vec<&ScoredCandidate> = ranked
        .iter()
        .filter(|candidate| candidate.display_name.is_some())
        .collect();
    assert_eq!(symbols[0].canonical_path, "src/z.ts");
    assert!(symbols[0].preferred_semantic);
    assert!(!symbols[1].preferred_semantic);
}

#[test]
fn legacy_packet_omits_verified_source_exceeding_either_hard_limit() {
    let source_bytes = i64::try_from(ALPHA_SOURCE.len()).unwrap();
    let source_tokens = source_bytes / 4;

    for (max_source_bytes, max_token_estimate) in [
        (source_bytes - 1, source_tokens),
        (source_bytes, source_tokens - 1),
    ] {
        let mut r = req("inspect a.ts", BrokerMode::Audit);
        r.known_paths.push("src/a.ts".into());
        r.max_records = 5;
        r.max_source_bytes = max_source_bytes;
        r.max_token_estimate = max_token_estimate;

        let packet = packet_for(&r);

        assert!(packet.primary_targets.is_empty());
        assert!(packet.exact_excerpts.is_empty());
        assert_eq!(packet.omissions.selected_count, 0);
        assert_eq!(packet.omissions.omitted_by_budget, 1);
        assert_eq!(packet.alternatives.len(), 1);
        assert_eq!(packet.alternatives[0].canonical_path, "src/a.ts");
        assert_returned_source_respects_hard_limits(&packet, &r);
    }
}

#[test]
fn legacy_packet_accepts_verified_source_at_exact_hard_boundaries() {
    let source_bytes = i64::try_from(ALPHA_SOURCE.len()).unwrap();
    let mut r = req("inspect a.ts", BrokerMode::Audit);
    r.known_paths.push("src/a.ts".into());
    r.max_records = 5;
    r.max_source_bytes = source_bytes;
    r.max_token_estimate = source_bytes / 4;

    let packet = packet_for(&r);

    assert_eq!(packet.primary_targets.len(), 1);
    assert_eq!(packet.exact_excerpts.len(), 1);
    assert_eq!(packet.exact_excerpts[0].text.as_deref(), Some(ALPHA_SOURCE));
    assert_eq!(packet.omissions.omitted_by_budget, 0);
    assert_returned_source_respects_hard_limits(&packet, &r);
}

#[test]
fn legacy_packet_budget_selection_is_deterministic_and_skips_oversize_candidates() {
    let beta_bytes = i64::try_from(BETA_SOURCE.len()).unwrap();
    let mut r = req("alpha beta", BrokerMode::Audit);
    r.max_records = 5;
    r.max_source_bytes = beta_bytes;
    r.max_token_estimate = beta_bytes / 4;

    let first = packet_for(&r);
    let second = packet_for(&r);

    assert_eq!(first.packet_hash, second.packet_hash);
    let shown = |packet: &ContextPacket| {
        packet
            .primary_targets
            .iter()
            .map(|target| {
                (
                    target.canonical_path.clone(),
                    target.canonical_symbol_key.clone(),
                )
            })
            .collect::<Vec<_>>()
    };
    assert_eq!(shown(&first), shown(&second));
    assert_eq!(first.exact_excerpts.len(), 1);
    assert_eq!(first.exact_excerpts[0].canonical_path, "src/b.ts");
    assert_eq!(first.exact_excerpts[0].text.as_deref(), Some(BETA_SOURCE));
    assert!(first.omissions.omitted_by_budget >= 1);
    assert_returned_source_respects_hard_limits(&first, &r);
}

#[test]
fn legacy_packet_multi_explicit_paths_stay_bounded_and_report_partial() {
    let mut r = req("inspect the requested documents", BrokerMode::Audit);
    r.known_paths = (0..4)
        .map(|index| format!("docs/large-{index}.md"))
        .collect::<Vec<_>>();
    r.max_records = 12;
    r.max_source_bytes = 48_000;
    r.max_token_estimate = 10_000;

    let first = packet_for(&r);
    let second = packet_for(&r);

    assert_eq!(first.packet_hash, second.packet_hash);
    assert_eq!(first.budget.used_records, 2);
    assert_eq!(first.budget.used_source_bytes, 40_000);
    assert_eq!(first.budget.estimated_tokens, 10_000);
    assert_eq!(first.omissions.omitted_by_budget, 2);
    assert_eq!(first.omissions.excluded_in_scope, 0);
    assert_eq!(first.status, "partial");
    assert_returned_source_respects_hard_limits(&first, &r);
}

#[test]
fn legacy_packet_map_selection_ignores_source_body_limits() {
    let mut r = req("alpha", BrokerMode::MapOnly);
    r.max_source_bytes = 1;
    r.max_token_estimate = 1;

    let packet = packet_for(&r);

    assert!(packet
        .primary_targets
        .iter()
        .any(|target| target.display_name.as_deref() == Some("alpha")));
    assert!(packet.exact_excerpts.is_empty());
    assert_returned_source_respects_hard_limits(&packet, &r);
}

#[test]
fn budget_hard_caps_selection_below_the_uncertainty_reserve() {
    let mut r = req("alpha beta", BrokerMode::MapOnly);
    r.max_records = 10;
    let packet = packet_for(&r);
    assert!(
        packet.budget.used_records <= 9,
        "used_records={} must respect the 10% uncertainty reserve, not just max_records",
        packet.budget.used_records
    );
}

#[test]
fn map_mode_finds_symbol_mentioned_in_task() {
    let packet = packet_for(&req("investigate alpha behavior", BrokerMode::MapOnly));
    assert!(packet
        .primary_targets
        .iter()
        .any(|t| t.display_name.as_deref() == Some("alpha")));
    assert!(
        packet.exact_excerpts.is_empty(),
        "map mode must not read exact source"
    );
}

#[test]
fn change_mode_includes_verified_excerpts() {
    let packet = packet_for(&req("fix alpha", BrokerMode::Change));
    assert!(!packet.exact_excerpts.is_empty());
    assert!(packet.exact_excerpts.iter().all(|e| e.status == "verified"));
    assert_eq!(packet.status, "complete");
}

#[test]
fn change_mode_blocks_on_stale_excerpt() {
    let request = req("fix alpha", BrokerMode::Change);
    let mut found = facts(&request);
    observe(&mut found, &request, &|path| {
        if path == "src/a.ts" {
            Some("// mutated after indexing\n".to_string())
        } else {
            source_of(path)
        }
    });
    let packet = build_packet(&scope(), found, &request);
    assert!(packet
        .exact_excerpts
        .iter()
        .any(|e| e.status == "hash_mismatch"));
    assert_eq!(packet.status, "partial");
}

#[test]
fn packet_is_deterministic_on_identical_inputs() {
    let r = req("investigate alpha behavior", BrokerMode::MapOnly);
    let p1 = packet_for(&r);
    let p2 = packet_for(&r);
    assert_eq!(p1.packet_hash, p2.packet_hash);
}

#[test]
fn finds_test_for_seed_symbol() {
    let packet = packet_for(&req("alpha", BrokerMode::MapOnly));
    assert!(packet.tests.iter().any(|t| t.contains("test")));
}

#[test]
fn budget_reserves_uncertainty_and_reports_omissions() {
    let mut r = req("alpha beta", BrokerMode::MapOnly);
    r.max_records = 1;
    let packet = packet_for(&r);
    assert_eq!(packet.budget.uncertainty_reserve_pct, 10);
    assert!(packet.budget.used_records <= r.max_records);
}

#[test]
fn a_workspace_without_a_generation_gets_a_blocked_packet() {
    let request = req("alpha", BrokerMode::Audit);
    let mut place = scope();
    place.active_generation_id = None;
    let packet = build_packet(&place, facts(&request), &request);
    assert_eq!(packet.status, "blocked");
    assert!(packet.primary_targets.is_empty());
    assert!(packet.exact_excerpts.is_empty());
    assert!(packet.active_generation_id.is_none());
}

#[test]
fn unreadable_source_is_reported_and_makes_a_packet_partial() {
    let request = req("fix alpha", BrokerMode::Change);
    let mut found = facts(&request);
    observe(&mut found, &request, &|_| None);
    let packet = build_packet(&scope(), found, &request);
    assert!(packet.exact_excerpts.iter().all(|e| e.status == "read_failed"));
    assert!(packet.exact_excerpts.iter().all(|e| e.text.is_none()));
    assert_eq!(packet.status, "partial");
}

#[test]
fn request_hash_ignores_the_order_of_paths_and_symbols() {
    let mut one = req("fix alpha", BrokerMode::Change);
    one.known_paths = vec!["src/a.ts".into(), "src/b.ts".into()];
    one.known_symbols = vec!["s1".into(), "s2".into()];
    let mut other = req("fix alpha", BrokerMode::Change);
    other.known_paths = vec!["src/b.ts".into(), "src/a.ts".into()];
    other.known_symbols = vec!["s2".into(), "s1".into()];
    assert_eq!(one.normalized_request_hash(), other.normalized_request_hash());
    assert_eq!(one.normalized_request_hash().len(), 64);
    other.max_records = 21;
    assert_ne!(one.normalized_request_hash(), other.normalized_request_hash());
}

#[test]
fn mode_names_round_trip() {
    for mode in [BrokerMode::MapOnly, BrokerMode::Change, BrokerMode::Audit] {
        assert_eq!(BrokerMode::parse(mode.as_str()), Some(mode));
    }
    assert_eq!(BrokerMode::MapOnly.as_str(), "map");
    assert_eq!(BrokerMode::parse("MAP"), None);
}

#[test]
fn nine_tenths_of_the_records_are_usable() {
    assert_eq!(usable_records(10), 9);
    assert_eq!(usable_records(20), 18);
    assert_eq!(usable_records(15), 13);
    assert_eq!(usable_records(1), 0);
    assert_eq!(usable_records(-5), 0);
}

#[test]
fn bumping_a_known_candidate_adds_to_its_score() {
    let candidate = || ScoredCandidate {
        key: key_for_path("src/a.ts"),
        canonical_path: "src/a.ts".into(),
        canonical_symbol_key: None,
        display_name: None,
        symbol_kind: None,
        score: 0,
        distance: 0,
        preferred_semantic: false,
    };
    let mut items = Vec::new();
    add_or_bump(&mut items, candidate(), 100);
    add_or_bump(&mut items, candidate(), 40);
    assert_eq!(items.len(), 1);
    assert_eq!(items[0].score, 140);
}

#[test]
fn relationships_to_paths_bring_neighbours_at_distance_one() {
    let request = req("alpha", BrokerMode::MapOnly);
    let mut found = facts(&request);
    found.relationships = vec![vec![RelationshipRow {
        relationship_type: "imports".into(),
        target_ref_kind: "path".into(),
        target_ref_value: "src/c.ts".into(),
    }]];
    let ranked = rank_candidates(&found, &request);
    let neighbour = ranked
        .iter()
        .find(|candidate| candidate.canonical_path == "src/c.ts")
        .unwrap();
    assert_eq!(neighbour.distance, 1);
}

#[test]
fn named_symbols_are_resolved_one_for_one() {
    let mut request = req("look", BrokerMode::MapOnly);
    request.known_symbols = vec!["missing".into(), "src/b.ts#beta".into()];
    let mut found = facts(&request);
    found.symbols.clear();
    found.resolved = vec![
        None,
        Some(ResolvedSymbol {
            canonical_path: "src/b.ts".into(),
            symbol_kind: "function".into(),
            display_name: "beta".into(),
            evidence_method: "structural".into(),
        }),
    ];
    let ranked = rank_candidates(&found, &request);
    assert_eq!(ranked.len(), 1);
    assert_eq!(ranked[0].display_name.as_deref(), Some("beta"));
    assert_eq!(ranked[0].canonical_symbol_key.as_deref(), Some("src/b.ts#beta"));
}

#[test]
fn alternatives_of_an_audit_are_bounded() {
    let mut request = req("look", BrokerMode::Audit);
    request.known_paths = (0..80).map(|i| format!("docs/large-{i}.md")).collect();
    request.max_records = 100;
    request.max_source_bytes = 1;
    let packet = packet_for(&request);
    assert_eq!(packet.alternatives.len(), MAX_ALTERNATIVES);
    assert_eq!(packet.omissions.omitted_by_budget, 80);
}

#[test]
fn test_patterns_name_the_stem() {
    let (first, second) = test_patterns("src/a.ts");
    assert!(first.contains("a"));
    assert!(second.contains("a"));
    assert_ne!(first, second);
}
