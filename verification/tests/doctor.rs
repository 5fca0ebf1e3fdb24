use workspace_atlas::catalogue_route::WorkspaceRecord;
use workspace_atlas::cli::{
    build_doctor_output, build_status_output, status_by_workspace_id, DoctorOutput,
};
use workspace_atlas::doctor::{
    generation_counts, recover_candidates, ActiveGeneration, ConfigurationFinding, DoctorFacts,
    GenerationRow, LeaseSummary, StatusFacts, WorkspaceHealth,
};
use workspace_atlas::error::AtlasError;

fn generation(id: &str, state: &str) -> GenerationRow {
    GenerationRow { generation_id: id.into(), state: state.into() }
}

fn health() -> WorkspaceHealth {
    WorkspaceHealth {
        workspace_id: "ws_1".into(),
        configuration_hash: "h".into(),
        configuration: ConfigurationFinding::Found { hash: "h".into() },
        lease_holder: None,
        active_generation_id: Some("gen_1".into()),
        generations: vec![generation("gen_1", "committed")],
        unresolved_relationship_count: 0,
        open_conflict_count: 0,
    }
}

fn facts(workspace: Option<WorkspaceHealth>) -> DoctorFacts {
    DoctorFacts {
        workspace,
        catalogue_path: "/c/ws_1.sqlite".into(),
        schema_version: "1.3.0".into(),
        migration_version: Some(4),
        integrity_ok: true,
        foreign_keys: 1,
        migration_checksum_mismatches: vec![],
        stale_provider_executions: 0,
        stale_serving_generations: 0,
    }
}

fn has(out: &DoctorOutput, issue: &str) -> bool {
    assert_eq!(out.issues.len(), out.recommendations.len());
    out.issues.contains(&issue.to_string())
}

#[test]
fn a_healthy_catalogue_has_no_issue() {
    let out = build_doctor_output(facts(Some(health())));
    assert!(out.ok);
    assert!(out.issues.is_empty());
    assert!(out.foreign_keys_on);
    assert_eq!(out.migration_version, 4);
    assert_eq!(out.workspace_id.as_deref(), Some("ws_1"));
    assert_eq!(out.registered_config_hash, out.effective_config_hash);
}

#[test]
fn recovered_candidates_are_reported_and_stop_nothing() {
    let mut ws = health();
    ws.generations.push(generation("gen_2", "candidate"));
    let out = build_doctor_output(facts(Some(ws)));
    assert_eq!(out.stuck_candidate_ids, vec!["gen_2"]);
    assert_eq!(out.recovered_candidate_ids, vec!["gen_2"]);
    assert!(has(&out, "abandoned_candidate_recovered"));
    assert_eq!(
        out.recommendations[0],
        "1 stuck candidate generation(s) from a prior crash/kill were marked abandoned; the active generation was never affected (INV-005) -- run `atlas reconcile` normally"
    );
    assert!(out.ok);
}

#[test]
fn a_crashed_candidate_is_abandoned_and_the_next_report_is_clear() {
    let mut rows = vec![
        generation("gen_1", "committed"),
        generation("gen_2", "candidate"),
        generation("gen_3", "failed"),
        generation("gen_4", "candidate"),
    ];
    assert_eq!(recover_candidates(&mut rows), vec!["gen_2", "gen_4"]);
    assert_eq!(
        rows,
        vec![
            generation("gen_1", "committed"),
            generation("gen_2", "abandoned"),
            generation("gen_3", "failed"),
            generation("gen_4", "abandoned"),
        ]
    );
    assert!(recover_candidates(&mut rows).is_empty());
    let mut ws = health();
    ws.generations = rows;
    let out = build_doctor_output(facts(Some(ws)));
    assert!(out.stuck_candidate_ids.is_empty());
    assert!(out.recovered_candidate_ids.is_empty());
    assert!(out.ok && out.issues.is_empty());
}

#[test]
fn doctor_flags_stale_provider_executions_still_running() {
    let mut found = facts(Some(health()));
    found.stale_provider_executions = 1;
    let out = build_doctor_output(found);
    assert_eq!(out.stale_provider_executions, 1);
    assert!(has(&out, "stale_provider_executions"));
    assert!(out.ok);
}

#[test]
fn doctor_detects_stale_serving_generations() {
    let mut found = facts(Some(health()));
    found.stale_serving_generations = 1;
    let out = build_doctor_output(found);
    assert_eq!(out.stale_serving_generations, 1);
    assert!(has(&out, "stale_serving_generations"));
    assert!(out.recommendations[0].starts_with("1 Serving Plane build(s)"));
}

#[test]
fn doctor_reports_unresolved_and_conflict_health_for_active_generation() {
    let mut ws = health();
    ws.open_conflict_count = 1;
    let out = build_doctor_output(facts(Some(ws)));
    assert_eq!(out.open_conflict_count, 1);
    assert_eq!(out.unresolved_relationship_count, 0);
    assert!(out.ok);
    let mut ws = health();
    ws.open_conflict_count = 1;
    ws.unresolved_relationship_count = 2;
    ws.active_generation_id = None;
    let out = build_doctor_output(facts(Some(ws)));
    assert_eq!((out.open_conflict_count, out.unresolved_relationship_count), (0, 0));
    assert!(has(&out, "no_active_generation"));
    assert!(!out.ok);
}

#[test]
fn doctor_detects_a_tampered_migration_checksum() {
    let mut found = facts(Some(health()));
    found.migration_checksum_mismatches = vec!["0001".into(), "0002".into()];
    let out = build_doctor_output(found);
    assert!(!out.migration_checksum_mismatches.is_empty());
    assert!(has(&out, "migration_checksum_mismatch"));
    assert_eq!(
        out.recommendations[0],
        "2 migration(s) have a checksum mismatch (0001, 0002); the catalogue's applied SQL diverges from the embedded migration -- restore from backup, do not continue writing"
    );
    assert!(!out.ok, "a tampered migration checksum must flip doctor ok=false");
}

#[test]
fn configuration_and_integrity_stop_the_catalogue() {
    let mut ws = health();
    ws.configuration = ConfigurationFinding::Missing;
    let out = build_doctor_output(facts(Some(ws)));
    assert!(has(&out, "configuration_required") && !out.ok);
    let mut ws = health();
    ws.configuration = ConfigurationFinding::Unreadable;
    let out = build_doctor_output(facts(Some(ws)));
    assert!(has(&out, "configuration_mismatch") && !out.ok);
    let mut ws = health();
    ws.configuration = ConfigurationFinding::Found { hash: "other".into() };
    assert!(!build_doctor_output(facts(Some(ws))).ok);
    let mut found = facts(Some(health()));
    found.integrity_ok = false;
    let out = build_doctor_output(found);
    assert!(has(&out, "integrity_check_failed") && !out.ok);
}

#[test]
fn an_unregistered_root_is_reported() {
    let out = build_doctor_output(facts(None));
    assert_eq!(out.issues, vec!["workspace_not_registered", "no_active_generation"]);
    assert!(!out.ok && !out.workspace_registered && !out.writer_lease_present);
    assert!(out.workspace_id.is_none() && out.registered_config_hash.is_none());
}

#[test]
fn generations_are_counted_by_state() {
    let counts = generation_counts(&vec![
        ("committed".into(), 3),
        ("odd".into(), 9),
        ("candidate".into(), 1),
        ("failed".into(), 2),
        ("abandoned".into(), 4),
    ]);
    assert_eq!(
        (counts.candidate, counts.committed, counts.failed, counts.abandoned),
        (1, 3, 2, 4)
    );
    let none = generation_counts(&vec![]);
    assert_eq!((none.candidate, none.committed), (0, 0));
}

fn record() -> WorkspaceRecord {
    WorkspaceRecord {
        workspace_id: "ws_1".into(),
        display_name: "t".into(),
        canonical_root: "/root".into(),
        catalogue_path: "/c/ws_1.sqlite".into(),
        configuration_hash: "h".into(),
        active_generation_id: Some("gen_1".into()),
        created_at: "now".into(),
    }
}

fn status_facts() -> StatusFacts {
    StatusFacts {
        active: Some(ActiveGeneration {
            generation_id: "gen_1".into(),
            sequence_no: 3,
            state: "committed".into(),
        }),
        migration_version: None,
        generation_rows: vec![("committed".into(), 3)],
        integrity_ok: true,
        lease: Some(LeaseSummary { holder_id: "host-1-f".into(), expires_at: "later".into() }),
        schema_version: "1.3.0".into(),
        effective_config_hash: Some("h".into()),
    }
}

#[test]
fn status_shows_the_workspace_as_it_is() {
    let out = build_status_output(Some(record()), status_facts()).unwrap();
    assert!(out.ok);
    assert_eq!(out.config_hash, "h");
    assert_eq!(out.registered_config_hash, "h");
    assert_eq!(out.migration_version, 0);
    assert_eq!(out.active_generation_id.as_deref(), Some("gen_1"));
    assert_eq!(out.active_generation_sequence, Some(3));
    assert_eq!(out.committed_generation_count, 3);
    assert_eq!(out.failed_generation_count, 0);
    assert_eq!(out.writer_lease_holder.as_deref(), Some("host-1-f"));
    assert!(matches!(
        build_status_output(None, status_facts()),
        Err(AtlasError::WorkspaceNotFound { workspace_id }) if workspace_id == "<by root>"
    ));
    assert!(matches!(
        status_by_workspace_id("ws_9", None, status_facts()),
        Err(AtlasError::WorkspaceNotFound { workspace_id }) if workspace_id == "ws_9"
    ));
    assert!(status_by_workspace_id("ws_1", Some(record()), status_facts()).is_ok());
}
