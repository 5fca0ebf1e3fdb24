use workspace_atlas::application_cursor::{
    decode_application_cursor_snapshot, ApplicationCursorBinding, ApplicationCursorError,
    ApplicationCursorFilter, ApplicationCursorOperation, CursorScope,
};
use workspace_atlas::application_error::{
    ApplicationBoundaryError, CatalogueContextApplicationError,
};
use workspace_atlas::catalogue::{
    application_unregister_preview, unregister_preview, UnregisterFault, UnregisterManifestEntry,
    UnregisterPathKind, UnregisterTarget,
};
use workspace_atlas::error::AtlasError;
use workspace_atlas::unregister::{
    check_page_limit, directory_fingerprint, manifest_digest, manifest_entries, next_apply_step,
    next_unregister_step, resume_unregister, sqlite_sidecar, unregister_candidates,
    unregister_entry_key, unregister_prefix_digest, ApplyFacts, ApplyStep, Fingerprint,
    LocatorFacts, LockOutcome, ResolvedRoot, RootFacts, TempFile, UnregisterApplyError,
    UnregisterCursorState, UnregisterFacts, UnregisterStep, WorkspaceState,
    IRREVERSIBLE_CONFIRMATION, UNREGISTER_DISCLOSURE,
};

const SCOPE: CursorScope<'static> = CursorScope {
    workspace_id: "ws_1",
    catalogue_identity: "/c/ws_1.sqlite",
};

fn target() -> UnregisterTarget {
    UnregisterTarget::new(
        "/work",
        Ok(ResolvedRoot { canonical: "/work".into(), is_dir: true }),
        "/c/ws_1.sqlite".into(),
        Ok("/c/locators/l.json".into()),
        "/tmp/atlas".into(),
    )
    .unwrap()
}

fn found(kind: UnregisterPathKind, path: &str) -> Fingerprint {
    Fingerprint {
        kind,
        canonical: path.into(),
        byte_len: 3,
        content_digest: "d".into(),
    }
}

fn entries() -> Vec<UnregisterManifestEntry> {
    manifest_entries(
        "/work",
        &vec![
            found(UnregisterPathKind::RootLocator, "/c/locators/l.json"),
            found(UnregisterPathKind::ProviderTemp, "/tmp/atlas/b"),
            found(UnregisterPathKind::ProviderTemp, "/tmp/atlas/a"),
            found(UnregisterPathKind::Catalogue, "/c/ws_1.sqlite"),
        ],
    )
    .unwrap()
}

#[test]
fn targets_need_a_directory_and_a_locator() {
    assert_eq!(target().workspace_root, "/work");
    let made = |resolved, locator| {
        UnregisterTarget::new("/asked", resolved, "c".into(), locator, "t".into())
    };
    assert!(matches!(
        made(Err("gone".into()), Ok("l".into())),
        Err(AtlasError::Other(m))
            if m == "unregister workspace root /asked cannot be resolved: gone"
    ));
    assert!(matches!(
        made(Ok(ResolvedRoot { canonical: "/f".into(), is_dir: false }), Ok("l".into())),
        Err(AtlasError::Other(m)) if m == "unregister workspace root /f is not a directory"
    ));
    assert!(matches!(
        made(
            Ok(ResolvedRoot { canonical: "/d".into(), is_dir: true }),
            Err(AtlasError::Other("no home".into()))
        ),
        Err(AtlasError::Other(m)) if m == "no home"
    ));
}

fn recorded() -> WorkspaceState {
    WorkspaceState {
        canonical_root: "/work".into(),
        configuration_hash: "h".into(),
        active_generation_id: Some("gen_1".into()),
    }
}

fn known() -> UnregisterFacts {
    UnregisterFacts {
        root: Some(RootFacts { is_dir: true, same_as_registered: true }),
        catalogue_resolved: true,
        opened_same_catalogue: Some(true),
        current: Some(Some(recorded())),
        locator: Some(LocatorFacts {
            schema_version: 1,
            workspace_id: "ws_1".into(),
            same_root: true,
            same_catalogue: true,
        }),
    }
}

#[test]
fn facts_are_found_out_in_order() {
    let step = |facts: &UnregisterFacts| next_unregister_step(facts, "ws_1", &recorded());
    let mut facts = UnregisterFacts {
        root: None,
        catalogue_resolved: false,
        opened_same_catalogue: None,
        current: None,
        locator: None,
    };
    assert!(matches!(step(&facts), UnregisterStep::ResolveRoot));
    facts.root = known().root;
    assert!(matches!(step(&facts), UnregisterStep::ResolveCatalogue));
    facts.catalogue_resolved = true;
    assert!(matches!(step(&facts), UnregisterStep::ResolveOpened));
    facts.opened_same_catalogue = Some(true);
    assert!(matches!(step(&facts), UnregisterStep::LoadWorkspace));
    facts.current = known().current;
    assert!(matches!(step(&facts), UnregisterStep::ReadLocator));
    facts.locator = known().locator;
    assert!(matches!(step(&facts), UnregisterStep::Fingerprint));
}

#[test]
fn a_changed_fact_stops_the_manifest() {
    let refusal = |change: &dyn Fn(&mut UnregisterFacts)| {
        let mut facts = known();
        change(&mut facts);
        match next_unregister_step(&facts, "ws_1", &recorded()) {
            UnregisterStep::Refused(AtlasError::Other(message)) => message,
            other => panic!("unexpected {other:?}"),
        }
    };
    assert_eq!(
        refusal(&|f| f.root = Some(RootFacts { is_dir: true, same_as_registered: false })),
        "unregister workspace identity changed"
    );
    assert_eq!(
        refusal(&|f| f.opened_same_catalogue = Some(false)),
        "unregister catalogue identity changed"
    );
    assert_eq!(
        refusal(&|f| {
            let mut other = recorded();
            other.active_generation_id = None;
            f.current = Some(Some(other));
        }),
        "unregister catalogue workspace state changed"
    );
    assert_eq!(
        refusal(&|f| f.locator.as_mut().unwrap().workspace_id = "ws_2".into()),
        "unregister locator route changed"
    );
    let mut gone = known();
    gone.current = Some(None);
    assert!(matches!(
        next_unregister_step(&gone, "ws_1", &recorded()),
        UnregisterStep::Refused(AtlasError::WorkspaceNotFound { .. })
    ));
}

#[test]
fn candidates_and_entries_come_in_order() {
    assert_eq!(sqlite_sidecar("/c/a.sqlite", "-wal"), "/c/a.sqlite-wal");
    let candidates = unregister_candidates(
        "/c/ws_1.sqlite",
        &target(),
        "/c/ws_1.toml",
        "/c/locators/l.json",
        &vec!["/tmp/atlas/b".into(), "/tmp/atlas/a".into()],
    );
    let kinds: Vec<u8> = candidates.iter().map(|c| c.kind.index()).collect();
    assert_eq!(kinds, vec![0, 1, 2, 3, 4, 5, 5]);
    assert!(candidates.iter().all(|c| {
        c.allow_directory == (c.kind == UnregisterPathKind::ProviderTemp)
    }));
    let paths: Vec<String> = entries().into_iter().map(|e| e.path).collect();
    assert_eq!(
        paths,
        vec!["/c/ws_1.sqlite", "/c/locators/l.json", "/tmp/atlas/a", "/tmp/atlas/b"]
    );
}

#[test]
fn a_manifest_never_holds_workspace_source() {
    for inside in ["/work", "/work/src/a.ts"] {
        match manifest_entries("/work", &vec![found(UnregisterPathKind::ProviderTemp, inside)]) {
            Err(AtlasError::Other(message)) => assert_eq!(
                message,
                format!("unregister manifest cannot include workspace source {inside}")
            ),
            other => panic!("unexpected {other:?}"),
        }
    }
    assert!(manifest_entries("/work", &vec![found(UnregisterPathKind::Catalogue, "/workspace")]).is_ok());
}

#[test]
fn manifests_are_identified_by_what_they_hold() {
    let one = manifest_digest("ws_1", "/work", "/c/ws_1.sqlite", &entries());
    assert_eq!(one, manifest_digest("ws_1", "/work", "/c/ws_1.sqlite", &entries()));
    assert_eq!(one.len(), 64);
    let mut changed = entries();
    changed[0].byte_len = 4;
    assert_ne!(one, manifest_digest("ws_1", "/work", "/c/ws_1.sqlite", &changed));
    assert_ne!(one, manifest_digest("ws_2", "/work", "/c/ws_1.sqlite", &entries()));
}

#[test]
fn previews_are_paged() {
    let page = unregister_preview("ws_1", "/c/ws_1.sqlite", "m", &entries(), 3, None).unwrap();
    assert_eq!(page.entries.len(), 3);
    assert_eq!(page.total_entries, 4);
    assert_eq!(page.next_cursor, Some(3));
    assert_eq!(page.disclosure, UNREGISTER_DISCLOSURE);
    let rest =
        unregister_preview("ws_1", "/c/ws_1.sqlite", "m", &entries(), 3, page.next_cursor).unwrap();
    assert_eq!(rest.entries.len(), 1);
    assert_eq!(rest.next_cursor, None);
    assert!(unregister_preview("ws_1", "c", "m", &entries(), 0, None).is_err());
    assert!(unregister_preview("ws_1", "c", "m", &entries(), 201, None).is_err());
    assert!(unregister_preview("ws_1", "c", "m", &entries(), 3, Some(5)).is_err());
    check_page_limit(200).unwrap();
    assert!(check_page_limit(0).is_err());
}

#[test]
fn application_previews_resume_behind_the_last_entry() {
    let all = entries();
    let page =
        application_unregister_preview(&SCOPE, "/c/ws_1.sqlite", "m", &all, 2, 0).unwrap();
    assert_eq!(page.entries.len(), 2);
    let token = page.next_cursor.unwrap();
    let held = decode_application_cursor_snapshot(
        &SCOPE,
        &ApplicationCursorBinding {
            workspace_id: "ws_1",
            operation: ApplicationCursorOperation::UnregisterPreview,
            contract_version: "unregister-manifest-v1",
            filter: ApplicationCursorFilter::Unregister {},
            captured_state: "",
        },
        &token,
    )
    .unwrap();
    assert!(held.captured_state.contains("\"manifest_digest\":\"m\""));
    let key = unregister_entry_key(&all[1]);
    let state = |manifest: &str| {
        Some(UnregisterCursorState {
            manifest_digest: manifest.into(),
            prefix_digest: unregister_prefix_digest(&all, &unregister_entry_key(&all[1])).unwrap(),
        })
    };
    assert_eq!(resume_unregister(&all, "m", &state("m"), &Some(key)).unwrap(), 2);
    assert!(matches!(
        resume_unregister(&all, "n", &state("m"), &Some(unregister_entry_key(&all[1]))),
        Err(ApplicationCursorError::Stale)
    ));
    assert!(matches!(
        resume_unregister(&all, "m", &state("m"), &Some(unregister_entry_key(&all[2]))),
        Err(ApplicationCursorError::Stale)
    ));
    assert!(matches!(
        resume_unregister(&all, "m", &None, &None),
        Err(ApplicationCursorError::Invalid)
    ));
    let last = application_unregister_preview(&SCOPE, "/c/ws_1.sqlite", "m", &all, 2, 2).unwrap();
    assert!(last.next_cursor.is_none());
    assert_eq!(last.entries.len(), 2);
}

fn cleared() -> ApplyFacts {
    ApplyFacts {
        lock: Some(LockOutcome::Acquired),
        manifest_digest: Some("m".into()),
        active_writer: Some(false),
        closed: true,
    }
}

#[test]
fn nothing_is_ever_removed() {
    let step = |facts: &ApplyFacts, confirmation: &str, fault| {
        next_apply_step(facts, "m", confirmation, fault)
    };
    assert!(matches!(
        step(&cleared(), "yes", UnregisterFault::NoFault),
        ApplyStep::Refused(UnregisterApplyError::LiteralConfirmation)
    ));
    let sure = IRREVERSIBLE_CONFIRMATION;
    let mut facts = ApplyFacts {
        lock: None,
        manifest_digest: None,
        active_writer: None,
        closed: false,
    };
    assert!(matches!(step(&facts, sure, UnregisterFault::NoFault), ApplyStep::AcquireLock));
    facts.lock = Some(LockOutcome::Acquired);
    assert!(matches!(step(&facts, sure, UnregisterFault::NoFault), ApplyStep::ValidateManifest));
    facts.manifest_digest = Some("m".into());
    assert!(matches!(step(&facts, sure, UnregisterFault::NoFault), ApplyStep::CheckWriter));
    facts.active_writer = Some(false);
    for fault in [
        UnregisterFault::NoFault,
        UnregisterFault::BeforeQuarantine,
        UnregisterFault::DuringQuarantine,
        UnregisterFault::DuringRemoval,
    ] {
        assert!(matches!(step(&cleared(), sure, fault), ApplyStep::Refused(_)));
    }
    let mut busy = cleared();
    busy.active_writer = Some(true);
    assert!(matches!(
        step(&busy, sure, UnregisterFault::NoFault),
        ApplyStep::Refused(UnregisterApplyError::ActiveWriter)
    ));
    let mut other = cleared();
    other.manifest_digest = Some("n".into());
    assert!(matches!(
        step(&other, sure, UnregisterFault::NoFault),
        ApplyStep::Refused(UnregisterApplyError::ManifestMismatch { .. })
    ));
    let mut locked = cleared();
    locked.lock = Some(LockOutcome::Unavailable("held".into()));
    assert!(matches!(
        step(&locked, sure, UnregisterFault::NoFault),
        ApplyStep::Refused(UnregisterApplyError::LockUnavailable(_))
    ));
}

#[test]
fn refusals_become_boundary_errors() {
    assert!(matches!(
        UnregisterApplyError::LiteralConfirmation.into_application_error(),
        CatalogueContextApplicationError::Boundary(
            ApplicationBoundaryError::LiteralConfirmation { .. }
        )
    ));
    assert!(matches!(
        UnregisterApplyError::ManifestMismatch { expected: "a".into(), found: "b".into() }
            .into_application_error(),
        CatalogueContextApplicationError::Boundary(ApplicationBoundaryError::ManifestMismatch {
            expected,
            found,
            ..
        }) if expected == "a" && found == "b"
    ));
    assert!(matches!(
        UnregisterApplyError::Atlas(AtlasError::Other("x".into())).into_atlas_error(),
        AtlasError::Other(m) if m == "x"
    ));
}

#[test]
fn temporary_directories_are_fingerprinted_in_order() {
    let file = |relative: &str, byte_len| TempFile {
        relative: relative.into(),
        byte_len,
        content_hash: "h".into(),
    };
    let (bytes, hash) = directory_fingerprint(vec![file("b", 2), file("a", 1)]).unwrap();
    assert_eq!(bytes, 3);
    assert_eq!(
        directory_fingerprint(vec![file("a", 1), file("b", 2)]).unwrap(),
        (3, hash)
    );
    assert!(matches!(
        directory_fingerprint(vec![file("a", u64::MAX), file("b", 1)]),
        Err(AtlasError::Other(m)) if m == "unregister provider temporary byte count overflow"
    ));
    let many = (0..10_001).map(|i| file(&format!("f{i:05}"), 1)).collect();
    assert!(matches!(
        directory_fingerprint(many),
        Err(AtlasError::Other(m))
            if m == "unregister provider temporary state exceeds 10000 files"
    ));
}
