use workspace_atlas::application_cursor::{
    application_cursor_checksum, application_cursor_filter_hash, catalogue_identity,
    decode_application_cursor, decode_application_cursor_snapshot, encode_application_cursor,
    is_plain_key, ApplicationCursorBinding, ApplicationCursorError, ApplicationCursorFilter,
    ApplicationCursorOperation, ApplicationSnapshotHasher, CursorScope,
};
use workspace_atlas::digest::{content_hash_of_bytes, hash_of_text};

const SCOPE: CursorScope<'static> = CursorScope {
    workspace_id: "ws_1",
    catalogue_identity: "/c/ws_1.sqlite",
};

fn binding(state: &str) -> ApplicationCursorBinding<'_> {
    ApplicationCursorBinding {
        workspace_id: "ws_1",
        operation: ApplicationCursorOperation::TaskShow,
        contract_version: "1.0.0",
        filter: ApplicationCursorFilter::TaskSession { task_session_id: "task_1" },
        captured_state: state,
    }
}

#[test]
fn a_cursor_gives_back_what_it_was_made_with() {
    let state = "line\n\"quoted\" \u{1} \u{e9}";
    let token = encode_application_cursor(&SCOPE, &binding(state), "key 1").unwrap();
    let held = decode_application_cursor_snapshot(&SCOPE, &binding(""), &token).unwrap();
    assert_eq!(held.captured_state, state);
    assert_eq!(held.ordering_key, "key 1");
    assert_eq!(decode_application_cursor(&SCOPE, &binding(state), &token).unwrap(), "key 1");
    assert!(matches!(
        decode_application_cursor(&SCOPE, &binding("other"), &token),
        Err(ApplicationCursorError::Stale)
    ));
}

#[test]
fn a_token_is_the_record_in_hexadecimal_and_its_checksum() {
    let token = encode_application_cursor(&SCOPE, &binding("s"), "k").unwrap();
    let (hexed, checksum) = token.split_once('.').unwrap();
    let bytes = hex::decode(hexed).unwrap();
    assert_eq!(application_cursor_checksum(&bytes), checksum);
    let value: serde_json::Value = serde_json::from_slice(&bytes).unwrap();
    assert_eq!(value["captured_state"], "s");
    assert_eq!(value["ordering_key"], "k");
    assert_eq!(value["operation"], "task_show");
    assert_eq!(value["version"], "application-cursor-v1.0.0");
    assert_eq!(value["workspace_hash"], hash_of_text("ws_1").as_str());
    assert_eq!(value["catalogue_hash"], hash_of_text("/c/ws_1.sqlite").as_str());
}

#[test]
fn a_cursor_is_refused_for_anything_else() {
    let token = encode_application_cursor(&SCOPE, &binding("s"), "k").unwrap();
    let other_scope = CursorScope { workspace_id: "ws_2", ..SCOPE };
    let other_catalogue = CursorScope { catalogue_identity: "/c/ws_2.sqlite", ..SCOPE };
    let mut other_workspace = binding("s");
    other_workspace.workspace_id = "ws_2";
    let mut other_operation = binding("s");
    other_operation.operation = ApplicationCursorOperation::ServingStatus;
    let mut other_contract = binding("s");
    other_contract.contract_version = "2.0.0";
    let mut other_filter = binding("s");
    other_filter.filter = ApplicationCursorFilter::TaskSession { task_session_id: "task_2" };
    for (scope, bound) in [
        (other_scope, binding("s")),
        (other_scope, other_workspace),
        (other_catalogue, binding("s")),
        (SCOPE, other_operation),
        (SCOPE, other_contract),
        (SCOPE, other_filter),
    ] {
        assert!(matches!(
            decode_application_cursor_snapshot(&scope, &bound, &token),
            Err(ApplicationCursorError::Invalid)
        ));
    }
    let mut damaged = token.clone();
    damaged.replace_range(0..1, if token.starts_with('7') { "6" } else { "7" });
    let mut without_dot = token.replace('.', "");
    without_dot.push('0');
    for bad in ["", ".", "zz.00", damaged.as_str(), without_dot.as_str()] {
        assert!(matches!(
            decode_application_cursor_snapshot(&SCOPE, &binding("s"), bad),
            Err(ApplicationCursorError::Invalid)
        ));
    }
}

#[test]
fn positions_are_printable_and_bounded() {
    assert!(is_plain_key("a b~"));
    assert!(!is_plain_key(""));
    assert!(!is_plain_key("a\n"));
    assert!(!is_plain_key("\u{e9}"));
    assert!(encode_application_cursor(&SCOPE, &binding("s"), "").is_err());
    assert!(encode_application_cursor(&SCOPE, &binding("s"), "a\u{7f}").is_err());
    let long = "k".repeat(1 << 20);
    assert!(encode_application_cursor(&SCOPE, &binding("s"), &long).is_err());
}

#[test]
fn filters_are_hashed_as_canonical_json() {
    assert_eq!(
        application_cursor_filter_hash(&ApplicationCursorFilter::Retention {}),
        hash_of_text("{\"kind\":\"retention\"}")
    );
    assert_eq!(
        application_cursor_filter_hash(&ApplicationCursorFilter::Unregister {}),
        hash_of_text("{\"kind\":\"unregister\"}")
    );
    assert_eq!(
        application_cursor_filter_hash(&ApplicationCursorFilter::ServingPolicy {
            serving_schema_version: "1",
            projection_policy_version: "p",
        }),
        hash_of_text(
            "{\"kind\":\"serving_policy\",\"projection_policy_version\":\"p\",\"serving_schema_version\":\"1\"}"
        )
    );
}

#[test]
fn a_catalogue_is_known_by_its_open_file() {
    assert_eq!(catalogue_identity(Some("/open"), "/registered"), "/open");
    assert_eq!(catalogue_identity(Some(""), "/registered"), "/registered");
    assert_eq!(catalogue_identity(None, "/registered"), "/registered");
}

#[test]
fn snapshots_depend_on_the_domain_and_on_each_record() {
    let digest = |domain: &str, records: &[&str]| {
        let mut hasher = ApplicationSnapshotHasher::new(domain);
        for record in records {
            hasher.record(&record.as_bytes().to_vec());
        }
        hasher.finish()
    };
    assert_eq!(digest("d", &["a", "b"]), digest("d", &["a", "b"]));
    assert_ne!(digest("d", &["a", "b"]), digest("d", &["ab"]));
    assert_ne!(digest("d", &["a", "b"]), digest("d", &["b", "a"]));
    assert_ne!(digest("d", &["a"]), digest("e", &["a"]));
    assert_eq!(digest("d", &[]).len(), 64);
}

#[test]
fn content_hashes_are_those_of_sha_256() {
    assert_eq!(
        content_hash_of_bytes(&b"abc".to_vec()),
        "ba7816bf8f01cfea414140de5dae2223b00361a396177a9cb410ff61f20015ad"
    );
    assert_eq!(
        hash_of_text(""),
        "e3b0c44298fc1c149afbf4c8996fb92427ae41e4649b934ca495991b7852b855"
    );
}
