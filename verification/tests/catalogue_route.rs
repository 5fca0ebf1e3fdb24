use workspace_atlas::catalogue_route::{
    check_catalogue_locator, check_catalogue_override, check_legacy_growth, check_legacy_sidecar,
    check_legacy_unchanged, check_locator_directory, check_locator_target,
    check_resolved_workspace, check_sidecar_opened, is_legacy_catalogue_name, legacy_candidate,
    legacy_inspection_failure, legacy_snapshot_rest, migrate_legacy_catalogue, normalize_snapshot,
    prepare_default_catalogue_registration, required_workspace, settle_existing_locator,
    validate_legacy_header, validate_resolved_file, validate_workspace_identity,
    verify_sidecars_unchanged, workspace_default_display_name, CatalogueLocator, KnownRoute,
    LegacyFileState, LegacyFinding, Registration, SamePlaces, SidecarFinding, SidecarWatch,
    WorkspaceRecord, LEGACY_DISCOVERY_MAX_BYTES,
};
use workspace_atlas::error::AtlasError;
use workspace_atlas::paths::{components_of, last_name_of, path_below};

fn message<T: std::fmt::Debug>(r: Result<T, AtlasError>) -> String {
    match r {
        Err(AtlasError::Other(message)) => message,
        other => panic!("expected a failure, got {other:?}"),
    }
}

const SAME: SamePlaces = SamePlaces { roots: true, catalogues: true };

#[test]
fn resolved_catalogue_path_validation_rejects_injected_escape_and_symlink() {
    let expected = "/configured/catalogues/ws_test.sqlite";
    let canonical_parent = "/physical/catalogues";
    let expected_canonical = path_below(canonical_parent, "ws_test.sqlite");
    validate_resolved_file(
        expected,
        canonical_parent,
        &expected_canonical,
        true,
        "catalogue target",
    )
    .unwrap();

    let escape = validate_resolved_file(
        expected,
        canonical_parent,
        "/outside/ws_test.sqlite",
        true,
        "catalogue target",
    );
    assert!(message(escape).contains("physically escapes"));

    let symlink = validate_resolved_file(
        expected,
        canonical_parent,
        &expected_canonical,
        false,
        "catalogue target",
    );
    assert!(message(symlink).contains("physically escapes"));
}

#[test]
fn an_escaping_file_is_reported_with_both_places() {
    assert_eq!(
        message(validate_resolved_file("/c/ws.sqlite", "/p", "/o/ws.sqlite", true, "catalogue target")),
        "catalogue target /c/ws.sqlite physically escapes the canonical Atlas catalogue directory; resolved to /o/ws.sqlite instead of /p/ws.sqlite"
    );
    assert_eq!(
        message(validate_resolved_file("/c/..", "/p", "/o", true, "catalogue locator")),
        "catalogue locator /c/.. has no file name"
    );
    check_locator_directory("/c/locators", "/p", "/p/locators").unwrap();
    assert_eq!(
        message(check_locator_directory("/c/locators", "/p", "/o/locators")),
        "catalogue locator directory /c/locators physically escapes the canonical Atlas catalogue directory; resolved to /o/locators instead of /p/locators"
    );
}

#[test]
fn paths_fall_into_components() {
    assert_eq!(components_of("/a//b/./c/"), vec!["a", "b", "c"]);
    assert!(components_of("/").is_empty());
    assert!(components_of("").is_empty());
    assert_eq!(last_name_of("/a/b/"), Some("b".to_string()));
    assert_eq!(last_name_of("/a/b/."), Some("b".to_string()));
    assert_eq!(last_name_of("/a/.."), None);
    assert_eq!(last_name_of("."), None);
    assert_eq!(path_below("/a/", "b"), "/a/b");
    assert_eq!(path_below("/a", "b"), "/a/b");
    assert_eq!(path_below("", "b"), "b");
}

#[test]
fn a_workspace_is_named_after_its_directory() {
    assert_eq!(workspace_default_display_name("/projects/example"), "example");
    assert_eq!(workspace_default_display_name("/"), "workspace");
    assert_eq!(workspace_default_display_name("/a/.."), "workspace");
}

fn header() -> Vec<u8> {
    let mut header = vec![0u8; 100];
    header[..16].copy_from_slice(b"SQLite format 3\0");
    header[16] = 0x10;
    header[18] = 1;
    header[19] = 1;
    header[21] = 64;
    header[22] = 32;
    header[23] = 32;
    header[47] = 4;
    header[59] = 1;
    header
}

#[test]
fn headers_of_databases_are_accepted() {
    assert!(!validate_legacy_header(&header(), 8192, "c").unwrap());
    let mut wal = header();
    wal[18] = 2;
    wal[19] = 2;
    assert!(validate_legacy_header(&wal, 4096, "c").unwrap());
    let mut large = header();
    large[16] = 0;
    large[17] = 1;
    assert!(!validate_legacy_header(&large, 65_536, "c").unwrap());
}

#[test]
fn headers_of_other_files_are_refused_by_what_is_wrong_first() {
    let refused = |header: Vec<u8>, len: u64| message(validate_legacy_header(&header, len, "c"));
    assert_eq!(
        refused(vec![0u8; 3], 8192),
        "legacy catalogue c has a short SQLite header (3 bytes; need 100)"
    );
    assert_eq!(
        refused(vec![0u8; 50], 8192),
        "legacy catalogue c has invalid SQLite header magic"
    );
    assert_eq!(
        refused(header()[..50].to_vec(), 8192),
        "legacy catalogue c has a short SQLite header (50 bytes; need 100)"
    );
    let mut bad = header();
    bad[16] = 0x03;
    assert_eq!(
        refused(bad, 8192),
        "legacy catalogue c has invalid SQLite page size 768"
    );
    let mut bad = header();
    bad[19] = 2;
    assert_eq!(
        refused(bad, 8192),
        "legacy catalogue c has unsupported or mismatched SQLite format versions 1/2"
    );
    let mut bad = header();
    bad[21] = 63;
    assert_eq!(
        refused(bad, 8192),
        "legacy catalogue c has invalid SQLite page-reserve or payload header fields"
    );
    let mut bad = header();
    bad[16] = 2;
    bad[20] = 33;
    assert_eq!(
        refused(bad, 8192),
        "legacy catalogue c has invalid SQLite page-reserve or payload header fields"
    );
    for (place, value) in [(47usize, 5u8), (59, 0), (44, 1), (72, 1), (91, 1)] {
        let mut bad = header();
        bad[place] = value;
        assert_eq!(
            refused(bad, 8192),
            "legacy catalogue c has unsupported SQLite schema, encoding, or reserved header fields"
        );
    }
    assert_eq!(
        refused(header(), 8193),
        "legacy catalogue c size 8193 is not a complete SQLite page image"
    );
    assert_eq!(
        refused(header(), 0),
        "legacy catalogue c size 0 is not a complete SQLite page image"
    );
}

#[test]
fn snapshots_are_bounded_and_normalized() {
    assert_eq!(legacy_snapshot_rest(8192, 100, "c").unwrap(), 8092);
    assert_eq!(
        legacy_snapshot_rest(LEGACY_DISCOVERY_MAX_BYTES, 0, "c").unwrap() as u64,
        LEGACY_DISCOVERY_MAX_BYTES
    );
    assert_eq!(
        message(legacy_snapshot_rest(LEGACY_DISCOVERY_MAX_BYTES + 1, 100, "c")),
        "legacy catalogue c is 268435457 bytes, exceeding the legacy discovery ceiling of 268435456 bytes"
    );
    let mut wal = header();
    wal[18] = 2;
    wal[19] = 2;
    normalize_snapshot(&mut wal, true);
    assert_eq!(wal, header());
    let mut plain = header();
    normalize_snapshot(&mut plain, false);
    assert_eq!(plain, header());
}

fn state(len: u64) -> LegacyFileState {
    LegacyFileState { device: 1, file: 2, len, modified_secs: 3, modified_nanos: 4 }
}

#[test]
fn catalogues_that_change_are_not_read() {
    check_legacy_unchanged("c", state(5), state(5), state(5)).unwrap();
    for (open, at_path) in [(state(6), state(5)), (state(5), state(6))] {
        assert_eq!(
            message(check_legacy_unchanged("c", state(5), open, at_path)),
            "legacy catalogue c changed during inspection"
        );
    }
    check_legacy_growth("c", state(5), false).unwrap();
    assert_eq!(
        message(check_legacy_growth("c", state(5), true)),
        "legacy catalogue c grew beyond its recorded 5-byte length during inspection"
    );
}

#[test]
fn only_an_empty_write_ahead_log_may_be_there() {
    assert!(!check_legacy_sidecar("c-wal", true, SidecarFinding::Absent).unwrap());
    assert!(check_legacy_sidecar("c-wal", true, SidecarFinding::Regular { len: 0 }).unwrap());
    assert_eq!(
        message(check_legacy_sidecar("c-wal", true, SidecarFinding::Regular { len: 1 })),
        "legacy catalogue has a non-empty WAL c-wal; pass --catalogue explicitly after resolving active writes"
    );
    assert_eq!(
        message(check_legacy_sidecar("c-shm", false, SidecarFinding::Regular { len: 0 })),
        "legacy catalogue has active sidecar c-shm; pass --catalogue explicitly after resolving active writes"
    );
    assert_eq!(
        message(check_legacy_sidecar("c-wal", true, SidecarFinding::Irregular)),
        "legacy catalogue sidecar c-wal is non-regular; refusing inspection"
    );
    check_sidecar_opened("c-wal", state(0), state(0)).unwrap();
    assert!(check_sidecar_opened("c-wal", state(1), state(1)).is_err());
    assert!(check_sidecar_opened("c-wal", state(0), state(1)).is_err());
    let watch = |after| SidecarWatch { path: "c-wal".into(), before: Some(state(0)), after };
    verify_sidecars_unchanged(&vec![watch(Some(state(0)))]).unwrap();
    assert_eq!(
        message(verify_sidecars_unchanged(&vec![watch(Some(state(0))), watch(None)])),
        "legacy catalogue sidecar state changed during inspection: c-wal"
    );
}

#[test]
fn names_of_catalogues_without_a_locator() {
    assert!(is_legacy_catalogue_name("ws_1.sqlite"));
    assert!(!is_legacy_catalogue_name("ws_1.sqlite-wal"));
    assert!(!is_legacy_catalogue_name("xws_1.sqlite"));
    assert!(!is_legacy_catalogue_name("ws"));
}

fn finding(in_place: bool) -> LegacyFinding {
    LegacyFinding {
        workspace_id: "ws_1".into(),
        derived_id: "ws_1".into(),
        expected_path: "/c/ws_1.sqlite".into(),
        in_place,
    }
}

#[test]
fn candidates_are_checked_against_their_workspace() {
    assert!(legacy_candidate("/root", "/c/x.sqlite", &None).unwrap().is_none());
    let locator = legacy_candidate("/root", "/c/ws_1.sqlite", &Some(finding(true)))
        .unwrap()
        .unwrap();
    assert_eq!(locator.canonical_root, "/root");
    assert_eq!(locator.workspace_id, "ws_1");
    assert_eq!(locator.catalogue_path, "/c/ws_1.sqlite");
    assert_eq!(locator.schema_version, 1);
    assert_eq!(
        message(legacy_candidate("/root", "/c/ws_2.sqlite", &Some(finding(false)))),
        "legacy catalogue /c/ws_2.sqlite for workspace ws_1 is outside its ADR-015 path /c/ws_1.sqlite"
    );
    let mut wrong = finding(true);
    wrong.derived_id = "ws_9".into();
    assert_eq!(
        message(legacy_candidate("/root", "/c/ws_1.sqlite", &Some(wrong))),
        "catalogue workspace identity mismatch: stored ws_1, derived ws_9"
    );
    validate_workspace_identity("ws_1", "ws_1").unwrap();
    match legacy_inspection_failure("/c/x.sqlite", "broken") {
        AtlasError::Other(text) => assert_eq!(
            text,
            "cannot inspect legacy catalogue /c/x.sqlite: broken. Re-run `atlas init <absolute-root>` or pass `--catalogue <path>` explicitly for recovery"
        ),
        other => panic!("unexpected {other:?}"),
    }
}

fn locator(workspace: &str) -> CatalogueLocator {
    CatalogueLocator::new("/root", workspace, "/c/ws.sqlite")
}

#[test]
fn a_root_migrates_to_the_only_catalogue_that_holds_it() {
    assert_eq!(
        message(migrate_legacy_catalogue("/root", &vec![])),
        "no default catalogue registered for workspace root /root"
    );
    let one = migrate_legacy_catalogue("/root", &vec![locator("ws_1")]).unwrap();
    assert_eq!(one.workspace_id, "ws_1");
    assert_eq!(
        message(migrate_legacy_catalogue("/root", &vec![locator("ws_1"), locator("ws_2")])),
        "multiple legacy catalogues match workspace root /root; pass --catalogue explicitly"
    );
}

#[test]
fn registration_never_leads_a_root_elsewhere() {
    let located = |workspace: &str, places| KnownRoute::Located {
        existing: locator(workspace),
        places,
    };
    assert!(matches!(
        prepare_default_catalogue_registration(locator("ws_1"), &located("ws_1", SAME)),
        Ok(Registration::Keep)
    ));
    let moved = SamePlaces { roots: true, catalogues: false };
    for known in [located("ws_2", SAME), located("ws_1", moved)] {
        assert!(
            message(prepare_default_catalogue_registration(locator("ws_1"), &known))
                .starts_with("workspace root /root is already routed to workspace ws_")
        );
    }
    let found = |ids: &[&str], places| KnownRoute::Discovered {
        matches: ids.iter().map(|id| locator(id)).collect(),
        places: ids.iter().map(|_| places).collect(),
    };
    for ids in [&[][..], &["ws_1"][..]] {
        match prepare_default_catalogue_registration(locator("ws_1"), &found(ids, SAME)) {
            Ok(Registration::Write(written)) => assert_eq!(written.workspace_id, "ws_1"),
            other => panic!("unexpected {other:?}"),
        }
    }
    assert_eq!(
        message(prepare_default_catalogue_registration(locator("ws_1"), &found(&["ws_2"], SAME))),
        "workspace root /root is already registered as workspace ws_2; pass its original display name or use --catalogue explicitly"
    );
    assert_eq!(
        message(prepare_default_catalogue_registration(
            locator("ws_1"),
            &found(&["ws_1", "ws_1"], SAME)
        )),
        "multiple legacy catalogues match workspace root /root; pass --catalogue explicitly"
    );
}

#[test]
fn locators_are_checked_when_they_are_read_and_written() {
    check_catalogue_locator("l", &locator("ws_1"), "/root", true).unwrap();
    let mut newer = locator("ws_1");
    newer.schema_version = 2;
    assert_eq!(
        message(check_catalogue_locator("l", &newer, "/root", true)),
        "catalogue locator l has unsupported schema version 2"
    );
    assert_eq!(
        message(check_catalogue_locator("l", &locator("ws_1"), "/other", false)),
        "catalogue locator l canonical root mismatch: expected /other, found /root"
    );
    settle_existing_locator(&locator("ws_1"), &locator("ws_1"), SAME, false).unwrap();
    assert_eq!(
        message(settle_existing_locator(&locator("ws_2"), &locator("ws_1"), SAME, false)),
        "catalogue locator for /root already points to workspace ws_2"
    );
    assert_eq!(
        message(settle_existing_locator(&locator("ws_2"), &locator("ws_1"), SAME, true)),
        "catalogue locator for /root concurrently changed to workspace ws_2"
    );
    check_locator_target(&locator("ws_1"), "/c/ws.sqlite", true).unwrap();
    assert_eq!(
        message(check_locator_target(&locator("ws_1"), "/c/other.sqlite", false)),
        "catalogue locator target /c/ws.sqlite escapes or mismatches the Atlas catalogue directory; expected /c/other.sqlite"
    );
    check_catalogue_override("c", true).unwrap();
    assert_eq!(
        message(check_catalogue_override("c", false)),
        "catalogue override c does not exist or is not a file"
    );
}

fn workspace(id: &str) -> WorkspaceRecord {
    WorkspaceRecord {
        workspace_id: id.into(),
        display_name: "t".into(),
        canonical_root: "/root".into(),
        catalogue_path: "/c/ws.sqlite".into(),
        configuration_hash: "h".into(),
        active_generation_id: None,
        created_at: "now".into(),
    }
}

#[test]
fn resolved_catalogues_hold_the_workspace_of_their_locator() {
    let ws = Some(workspace("ws_1"));
    check_resolved_workspace("/root", &Some(locator("ws_1")), &ws, "ws_1").unwrap();
    assert_eq!(
        message(check_resolved_workspace("/root", &None, &ws, "ws_1")),
        "catalogue locator for /root disappeared during resolution"
    );
    assert_eq!(
        message(check_resolved_workspace("/root", &Some(locator("ws_1")), &None, "ws_1")),
        "catalogue locator for /root points to a catalogue without that workspace"
    );
    assert_eq!(
        message(check_resolved_workspace("/root", &Some(locator("ws_1")), &ws, "ws_2")),
        "catalogue workspace identity mismatch: stored ws_1, derived ws_2"
    );
    assert_eq!(
        message(check_resolved_workspace("/root", &Some(locator("ws_2")), &ws, "ws_1")),
        "catalogue locator workspace mismatch: expected ws_2, found ws_1"
    );
    assert_eq!(required_workspace(ws).unwrap().workspace_id, "ws_1");
    assert!(matches!(
        required_workspace(None),
        Err(AtlasError::WorkspaceNotFound { workspace_id }) if workspace_id == "<by root>"
    ));
}
