use workspace_atlas::config::{
    Config, DatabaseConfig, EvidenceConfig, ExcludeConfig, NetworkIsolationPolicy, PolicyConfig,
    ProviderConfigEntry, ProviderRuntimeConfig, ReconcileConfig, SymlinkPolicy, WorkspaceConfig,
};
use workspace_atlas::digest::hash_of_text;
use workspace_atlas::error::AtlasError;
use workspace_atlas::json_tree::JsonValue;

fn config(schema_version: &str, display_name: &str) -> Config {
    Config {
        schema_version: schema_version.to_string(),
        workspace: WorkspaceConfig {
            display_name: display_name.to_string(),
            workspace_id: None,
            canonical_root_label: None,
        },
        database: DatabaseConfig::default(),
        policy: PolicyConfig::default(),
        reconcile: ReconcileConfig::default(),
        provider_runtime: ProviderRuntimeConfig::default(),
        providers: Vec::new(),
        evidence: EvidenceConfig::default(),
    }
}

fn provider(name: &str, kind: &str, tier: &str, scope: &str) -> ProviderConfigEntry {
    ProviderConfigEntry {
        name: name.to_string(),
        kind: kind.to_string(),
        tier: tier.to_string(),
        scope: scope.to_string(),
        enabled: true,
        required: false,
        priority: 0,
        languages: Vec::new(),
        project_markers: Vec::new(),
        version: None,
        command: None,
        arguments: Vec::new(),
        output_format: None,
        probe_arguments: Vec::new(),
        timeout_ms: None,
        max_output_bytes: None,
        configuration: JsonValue::Object(Vec::new()),
    }
}

fn refusal(config: &Config) -> String {
    match config.validate() {
        Err(AtlasError::InvalidConfig(message)) => message,
        other => panic!("expected a refusal, got {other:?}"),
    }
}

#[test]
fn rejects_wrong_schema_version() {
    let err = config("0.9.0", "Test").validate().unwrap_err();
    assert!(matches!(err, AtlasError::InvalidConfig(_)));
}

#[test]
fn rejects_unknown_newline() {
    let mut bad = config("1.0.0", "Test");
    bad.policy.newlines = vec!["lf".to_string(), "mixed".to_string()];
    assert!(bad.validate().is_err());
    assert_eq!(
        refusal(&bad),
        "policy.newlines contains unknown value \"mixed\"; allowed: lf, crlf, cr"
    );
}

#[test]
fn configuration_hash_is_deterministic() {
    let mut valid = config("1.0.0", "Test");
    valid.policy.max_file_size_bytes = 1024;
    let a = valid.configuration_hash();
    let b = valid.clone().configuration_hash();
    assert_eq!(a, b);
    assert_eq!(a.len(), 64);
}

#[test]
fn rejects_allow_shell_true() {
    let mut bad = config("1.1.0", "Test");
    bad.provider_runtime.allow_shell = true;
    let err = bad.validate().unwrap_err();
    assert!(matches!(err, AtlasError::InvalidConfig(_)));
}

#[test]
fn rejects_external_provider_without_command() {
    let mut bad = config("1.1.0", "Test");
    bad.providers.push(provider(
        "scip-typescript",
        "external_scip",
        "semantic_index",
        "project",
    ));
    let err = bad.validate().unwrap_err();
    assert!(matches!(err, AtlasError::InvalidConfig(_)));
}

#[test]
fn rejects_duplicate_provider_name() {
    let mut bad = config("1.1.0", "Test");
    bad.providers.push(provider("dup", "builtin", "structural", "file"));
    bad.providers.push(provider("dup", "builtin", "structural", "file"));
    let err = bad.validate().unwrap_err();
    assert!(matches!(err, AtlasError::InvalidConfig(_)));
    assert_eq!(
        refusal(&bad),
        "duplicate [[providers]] entry for name \"dup\""
    );
}

#[test]
fn rust_external_scip_requires_a_pinned_version() {
    let mut entry = provider("rust-analyzer", "external_scip", "semantic_index", "project");
    entry.languages = vec!["rust".to_string()];
    entry.project_markers = vec!["Cargo.toml".to_string()];
    entry.command = Some("rust-analyzer".to_string());
    entry.arguments = ["scip", ".", "--output", "{output_file}"]
        .iter()
        .map(|part| part.to_string())
        .collect();
    let mut missing = config("1.1.0", "Rust fixture");
    missing.providers.push(entry.clone());
    assert!(missing.validate().is_err());
    entry.version = Some("1.94.1".to_string());
    let mut pinned = config("1.1.0", "Rust fixture");
    pinned.providers.push(entry);
    pinned.validate().unwrap();
    assert_eq!(
        pinned.providers[0].resolved_version().as_deref(),
        Some("1.94.1")
    );
}

#[test]
fn external_scip_provider_requires_declared_languages() {
    let mut entry = provider("rust-analyzer", "external_scip", "semantic_index", "project");
    entry.version = Some("1.94.1".to_string());
    entry.project_markers = vec!["Cargo.toml".to_string()];
    entry.command = Some("rust-analyzer".to_string());
    let mut bad = config("1.1.0", "No language fixture");
    bad.providers.push(entry);
    assert!(bad.validate().is_err());
    assert!(refusal(&bad).contains("must declare at least one `languages` entry"));
}

#[test]
fn provider_configuration_hash_is_deterministic() {
    let scip = provider("scip-typescript", "external_scip", "semantic_index", "project");
    let a = scip.configuration_hash();
    let b = scip.configuration_hash();
    assert_eq!(a, b);
    assert_eq!(a.len(), 64);
    assert_eq!(
        a,
        "44136fa355b3678a1146ad16f7e8649e94fb4fc21fe77e8310c060f61caaff8a"
    );
}

#[test]
fn the_typescript_provider_has_a_historical_pin() {
    let scip = provider("scip-typescript", "external_scip", "semantic_index", "project");
    assert_eq!(scip.resolved_version().as_deref(), Some("0.4.0"));
    let other = provider("other", "builtin", "structural", "file");
    assert_eq!(other.resolved_version(), None);
}

#[test]
fn defaults_fail_closed() {
    let cfg = config("1.0.0", "Test");
    cfg.validate().unwrap();
    assert!(cfg.providers.is_empty());
    assert!(!cfg.provider_runtime.allow_shell);
    assert_eq!(
        cfg.provider_runtime.network_isolation_policy,
        NetworkIsolationPolicy::BestEffortAllowed
    );
    assert_eq!(cfg.evidence.default_priority.compiler, 900);
    assert_eq!(cfg.evidence.default_priority.semantic_index, 800);
    assert_eq!(cfg.policy.symlink_policy, SymlinkPolicy::Reject);
    assert_eq!(cfg.policy.max_file_size_bytes, 4 * 1024 * 1024);
}

#[test]
fn unknown_provider_kinds_and_scopes_are_refused() {
    let mut bad = config("1.1.0", "Test");
    bad.providers.push(provider("x", "shell", "structural", "file"));
    assert_eq!(
        refusal(&bad),
        "providers[\"x\"].kind \"shell\" is not a supported provider kind"
    );
    let mut bad = config("1.1.0", "Test");
    bad.providers.push(provider("x", "builtin", "structural", "planet"));
    assert_eq!(
        refusal(&bad),
        "providers[\"x\"].scope \"planet\" is not a supported execution scope"
    );
}

#[test]
fn exclusion_patterns_are_matched_by_the_first_that_applies() {
    let mut exclude = ExcludeConfig::default();
    exclude.patterns = vec!["^secret/".to_string(), "\\.key$".to_string()];
    exclude.vendor_paths = vec!["^vendor/".to_string()];
    exclude.build_paths = vec!["^target/".to_string()];
    exclude.generated_paths = vec!["\\.gen\\.ts$".to_string()];
    exclude.binary_paths = vec!["\\.png$".to_string()];
    exclude.archive_paths = vec!["\\.zip$".to_string()];
    let policy = exclude.compiled().unwrap();
    assert_eq!(policy.pattern_match("secret/a.key"), Some("^secret/"));
    assert_eq!(policy.pattern_match("src/a.key"), Some("\\.key$"));
    assert_eq!(policy.pattern_match("src/a.ts"), None);
    assert_eq!(policy.vendor_match("vendor/a.ts"), Some("^vendor/"));
    assert_eq!(policy.build_match("target/a"), Some("^target/"));
    assert_eq!(policy.generated_match("src/a.gen.ts"), Some("\\.gen\\.ts$"));
    assert_eq!(policy.binary_match("img/a.png"), Some("\\.png$"));
    assert_eq!(policy.archive_match("a.zip"), Some("\\.zip$"));
    assert_eq!(policy.archive_match("a.zip.txt"), None);
}

#[test]
fn a_pattern_that_is_no_expression_is_refused() {
    let mut bad = config("1.1.0", "Test");
    bad.policy.exclude.patterns = vec!["(".to_string()];
    assert!(matches!(
        bad.validate(),
        Err(AtlasError::InvalidConfig(_))
    ));
    assert!(bad.validate_historical_registered_globs().is_err() || bad.validated_policy().is_err());
}

#[test]
fn the_configuration_hash_is_that_of_the_complete_json() {
    let mut valid = config("1.0.0", "Test \"one\"");
    valid.database.busy_timeout_ms = Some(5000);
    let mut entry = provider("scip", "external_scip", "semantic_index", "project");
    entry.priority = -3;
    entry.languages = vec!["rust".to_string(), "c\n".to_string()];
    entry.version = Some("1.0".to_string());
    entry.timeout_ms = Some(10);
    entry.configuration = JsonValue::Object(vec![
        ("deep".to_string(), JsonValue::Array(vec![JsonValue::Bool(true), JsonValue::Null])),
        ("ratio".to_string(), JsonValue::Number("0.5".to_string())),
    ]);
    valid.providers.push(entry.clone());
    let text = concat_lines(&[
        "{\"schema_version\":\"1.0.0\",",
        "\"workspace\":{\"display_name\":\"Test \\\"one\\\"\",\"workspace_id\":null,\"canonical_root_label\":null},",
        "\"database\":{\"path\":null,\"busy_timeout_ms\":5000,\"journal_mode\":null,\"synchronous\":null},",
        "\"policy\":{\"symlink_policy\":\"reject\",\"max_file_size_bytes\":4194304,\"default_encoding\":\"utf-8\",",
        "\"newlines\":[\"lf\",\"crlf\",\"cr\"],\"exclude\":{\"patterns\":[],\"vendor_paths\":[],\"build_paths\":[],",
        "\"generated_paths\":[],\"binary_paths\":[],\"archive_paths\":[]}},",
        "\"reconcile\":{\"debounce_ms\":250,\"interval_seconds\":300,\"hash_suspect_on_metadata_change\":true},",
        "\"provider_runtime\":{\"allow_shell\":false,\"inherit_environment\":false,",
        "\"allowed_environment\":[\"PATH\",\"PATHEXT\",\"SYSTEMROOT\",\"TEMP\",\"TMP\",\"HOME\",\"USERPROFILE\"],",
        "\"default_timeout_ms\":120000,\"graceful_cancel_ms\":1500,\"max_stdout_bytes\":1048576,",
        "\"max_stderr_bytes\":1048576,\"max_output_bytes\":536870912,",
        "\"temporary_root_policy\":\"application_private\",\"network_isolation_policy\":\"best_effort_allowed\",",
        "\"retain_raw_output\":false},",
        "\"providers\":[{\"name\":\"scip\",\"kind\":\"external_scip\",\"tier\":\"semantic_index\",\"scope\":\"project\",",
        "\"enabled\":true,\"required\":false,\"priority\":-3,\"languages\":[\"rust\",\"c\\n\"],\"project_markers\":[],",
        "\"version\":\"1.0\",\"command\":null,\"arguments\":[],\"output_format\":null,\"probe_arguments\":[],",
        "\"timeout_ms\":10,\"max_output_bytes\":null,\"configuration\":{\"deep\":[true,null],\"ratio\":0.5}}],",
        "\"evidence\":{\"projection_policy_version\":\"preferred-evidence-1.0.0\",",
        "\"resolution_policy_version\":\"semantic-resolution-1.0.0\",",
        "\"default_priority\":{\"compiler\":900,\"runtime_observation\":850,\"semantic_index\":800,",
        "\"language_server\":700,\"structural\":500,\"document_config\":300,\"textual\":100,\"heuristic\":50}}}",
    ]);
    assert_eq!(valid.configuration_hash(), hash_of_text(&text));
    assert_eq!(entry.configuration_hash(), hash_of_text("{\"deep\":[true,null],\"ratio\":0.5}"));
}

fn concat_lines(lines: &[&str]) -> String {
    lines.concat()
}

#[test]
fn every_setting_changes_the_configuration_hash() {
    let base = config("1.1.0", "Test").configuration_hash();
    let mut renamed = config("1.1.0", "Test");
    renamed.workspace.display_name = "Other".to_string();
    let mut patterned = config("1.1.0", "Test");
    patterned.policy.exclude.patterns = vec!["x".to_string()];
    let mut moved = config("1.1.0", "Test");
    moved.policy.exclude.vendor_paths = vec!["x".to_string()];
    let mut weighted = config("1.1.0", "Test");
    weighted.evidence.default_priority.textual = 101;
    let hashes = [
        base,
        renamed.configuration_hash(),
        patterned.configuration_hash(),
        moved.configuration_hash(),
        weighted.configuration_hash(),
    ];
    for (i, left) in hashes.iter().enumerate() {
        for right in &hashes[i + 1..] {
            assert_ne!(left, right);
        }
    }
}
