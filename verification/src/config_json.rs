//! The configuration as JSON, and the law that every setting takes part in it.
use vstd::prelude::*;

use crate::config::{
    Config, DatabaseConfig, EvidenceConfig, EvidencePriorityConfig, ExcludeConfig,
    NetworkIsolationPolicy, PolicyConfig, ProviderConfigEntry, ProviderRuntimeConfig,
    ReconcileConfig, SymlinkPolicy, WorkspaceConfig,
};
use crate::json_tree;
use crate::json_tree::{JsonTree, JsonValue, ListBuilder, RecordBuilder};
use crate::text;

verus! {

/// A number that may be absent.
pub open spec fn as_int32(n: Option<u32>) -> Option<int> {
    match n {
        Some(n) => Some(n as int),
        None => None,
    }
}

impl SymlinkPolicy {
    /// The policy's name.
    pub open spec fn word(self) -> Seq<char> {
        match self {
            SymlinkPolicy::Reject => "reject"@,
            SymlinkPolicy::Allow => "allow"@,
            SymlinkPolicy::LogOnly => "log_only"@,
        }
    }

    /// The policy's name.
    pub fn as_str(&self) -> (r: &'static str)
        ensures
            r@ == self.word(),
    {
        match self {
            SymlinkPolicy::Reject => "reject",
            SymlinkPolicy::Allow => "allow",
            SymlinkPolicy::LogOnly => "log_only",
        }
    }
}

impl NetworkIsolationPolicy {
    /// The policy's name.
    pub open spec fn word(self) -> Seq<char> {
        match self {
            NetworkIsolationPolicy::NotRequired => "not_required"@,
            NetworkIsolationPolicy::RequireEnforced => "require_enforced"@,
            NetworkIsolationPolicy::BestEffortAllowed => "best_effort_allowed"@,
        }
    }

    /// The policy's name.
    pub fn as_str(&self) -> (r: &'static str)
        ensures
            r@ == self.word(),
    {
        match self {
            NetworkIsolationPolicy::NotRequired => "not_required",
            NetworkIsolationPolicy::RequireEnforced => "require_enforced",
            NetworkIsolationPolicy::BestEffortAllowed => "best_effort_allowed",
        }
    }
}

impl WorkspaceConfig {
    /// The workspace section as a JSON document.
    pub open spec fn tree(self) -> JsonTree {
        JsonTree::Record(
            seq![
                ("display_name"@, JsonTree::Text(self.display_name@)),
                ("workspace_id"@, json_tree::opt_text_tree(text::opt_text(self.workspace_id))),
                ("canonical_root_label"@, json_tree::opt_text_tree(text::opt_text(self.canonical_root_label))),
            ],
        )
    }

    /// Every setting is the same in both.
    pub open spec fn same_settings(self, other: Self) -> bool {
        &&& self.display_name@ == other.display_name@
        &&& text::opt_text(self.workspace_id) == text::opt_text(other.workspace_id)
        &&& text::opt_text(self.canonical_root_label) == text::opt_text(other.canonical_root_label)
    }

    /// The workspace section as JSON.
    fn to_json(&self) -> (r: JsonValue)
        ensures
            r.tree() == self.tree(),
    {
        let record = RecordBuilder::new();
        let record = record.text("display_name", self.display_name.as_str());
        let record = record.opt_text("workspace_id", &self.workspace_id);
        let record = record.opt_text("canonical_root_label", &self.canonical_root_label);
        assert(record.fields() =~= self.tree()->Record_0);
        record.finish()
    }
}

impl DatabaseConfig {
    /// The database section as a JSON document.
    pub open spec fn tree(self) -> JsonTree {
        JsonTree::Record(
            seq![
                ("path"@, json_tree::opt_text_tree(text::opt_text(self.path))),
                ("busy_timeout_ms"@, json_tree::opt_number_tree(as_int32(self.busy_timeout_ms))),
                ("journal_mode"@, json_tree::opt_text_tree(text::opt_text(self.journal_mode))),
                ("synchronous"@, json_tree::opt_text_tree(text::opt_text(self.synchronous))),
            ],
        )
    }

    /// Every setting is the same in both.
    pub open spec fn same_settings(self, other: Self) -> bool {
        &&& text::opt_text(self.path) == text::opt_text(other.path)
        &&& self.busy_timeout_ms == other.busy_timeout_ms
        &&& text::opt_text(self.journal_mode) == text::opt_text(other.journal_mode)
        &&& text::opt_text(self.synchronous) == text::opt_text(other.synchronous)
    }

    /// The database section as JSON.
    fn to_json(&self) -> (r: JsonValue)
        ensures
            r.tree() == self.tree(),
    {
        let record = RecordBuilder::new();
        let record = record.opt_text("path", &self.path);
        let busy_timeout_ms: Option<u64> = match self.busy_timeout_ms {
            Some(n) => Some(n as u64),
            None => None,
        };
        let record = record.opt_count("busy_timeout_ms", busy_timeout_ms);
        let record = record.opt_text("journal_mode", &self.journal_mode);
        let record = record.opt_text("synchronous", &self.synchronous);
        assert(record.fields() =~= self.tree()->Record_0);
        record.finish()
    }
}

impl ExcludeConfig {
    /// The exclusions as a JSON document.
    pub open spec fn tree(self) -> JsonTree {
        JsonTree::Record(
            seq![
                ("patterns"@, json_tree::texts_tree(text::texts(self.patterns@))),
                ("vendor_paths"@, json_tree::texts_tree(text::texts(self.vendor_paths@))),
                ("build_paths"@, json_tree::texts_tree(text::texts(self.build_paths@))),
                ("generated_paths"@, json_tree::texts_tree(text::texts(self.generated_paths@))),
                ("binary_paths"@, json_tree::texts_tree(text::texts(self.binary_paths@))),
                ("archive_paths"@, json_tree::texts_tree(text::texts(self.archive_paths@))),
            ],
        )
    }

    /// Every setting is the same in both.
    pub open spec fn same_settings(self, other: Self) -> bool {
        &&& text::texts(self.patterns@) == text::texts(other.patterns@)
        &&& text::texts(self.vendor_paths@) == text::texts(other.vendor_paths@)
        &&& text::texts(self.build_paths@) == text::texts(other.build_paths@)
        &&& text::texts(self.generated_paths@) == text::texts(other.generated_paths@)
        &&& text::texts(self.binary_paths@) == text::texts(other.binary_paths@)
        &&& text::texts(self.archive_paths@) == text::texts(other.archive_paths@)
    }

    /// The exclusions as JSON.
    fn to_json(&self) -> (r: JsonValue)
        ensures
            r.tree() == self.tree(),
    {
        let record = RecordBuilder::new();
        let record = record.texts("patterns", &self.patterns);
        let record = record.texts("vendor_paths", &self.vendor_paths);
        let record = record.texts("build_paths", &self.build_paths);
        let record = record.texts("generated_paths", &self.generated_paths);
        let record = record.texts("binary_paths", &self.binary_paths);
        let record = record.texts("archive_paths", &self.archive_paths);
        assert(record.fields() =~= self.tree()->Record_0);
        record.finish()
    }
}

impl PolicyConfig {
    /// The policy section as a JSON document.
    pub open spec fn tree(self) -> JsonTree {
        JsonTree::Record(
            seq![
                ("symlink_policy"@, JsonTree::Text(self.symlink_policy.word())),
                ("max_file_size_bytes"@, json_tree::number_tree(self.max_file_size_bytes as int)),
                ("default_encoding"@, JsonTree::Text(self.default_encoding@)),
                ("newlines"@, json_tree::texts_tree(text::texts(self.newlines@))),
                ("exclude"@, self.exclude.tree()),
            ],
        )
    }

    /// Every setting is the same in both.
    pub open spec fn same_settings(self, other: Self) -> bool {
        &&& self.symlink_policy == other.symlink_policy
        &&& self.max_file_size_bytes == other.max_file_size_bytes
        &&& self.default_encoding@ == other.default_encoding@
        &&& text::texts(self.newlines@) == text::texts(other.newlines@)
        &&& self.exclude.same_settings(other.exclude)
    }

    /// The policy section as JSON.
    fn to_json(&self) -> (r: JsonValue)
        ensures
            r.tree() == self.tree(),
    {
        let record = RecordBuilder::new();
        let record = record.text("symlink_policy", self.symlink_policy.as_str());
        let record = record.count("max_file_size_bytes", self.max_file_size_bytes);
        let record = record.text("default_encoding", self.default_encoding.as_str());
        let record = record.texts("newlines", &self.newlines);
        let record = record.field("exclude", self.exclude.to_json());
        assert(record.fields() =~= self.tree()->Record_0);
        record.finish()
    }
}

impl ReconcileConfig {
    /// The reconcile section as a JSON document.
    pub open spec fn tree(self) -> JsonTree {
        JsonTree::Record(
            seq![
                ("debounce_ms"@, json_tree::number_tree(self.debounce_ms as int)),
                ("interval_seconds"@, json_tree::number_tree(self.interval_seconds as int)),
                ("hash_suspect_on_metadata_change"@, JsonTree::Bool(self.hash_suspect_on_metadata_change)),
            ],
        )
    }

    /// Every setting is the same in both.
    pub open spec fn same_settings(self, other: Self) -> bool {
        &&& self.debounce_ms == other.debounce_ms
        &&& self.interval_seconds == other.interval_seconds
        &&& self.hash_suspect_on_metadata_change == other.hash_suspect_on_metadata_change
    }

    /// The reconcile section as JSON.
    fn to_json(&self) -> (r: JsonValue)
        ensures
            r.tree() == self.tree(),
    {
        let record = RecordBuilder::new();
        let record = record.count("debounce_ms", self.debounce_ms);
        let record = record.count("interval_seconds", self.interval_seconds);
        let record = record.flag("hash_suspect_on_metadata_change", self.hash_suspect_on_metadata_change);
        assert(record.fields() =~= self.tree()->Record_0);
        record.finish()
    }
}

impl ProviderRuntimeConfig {
    /// The provider runtime section as a JSON document.
    pub open spec fn tree(self) -> JsonTree {
        JsonTree::Record(
            seq![
                ("allow_shell"@, JsonTree::Bool(self.allow_shell)),
                ("inherit_environment"@, JsonTree::Bool(self.inherit_environment)),
                ("allowed_environment"@, json_tree::texts_tree(text::texts(self.allowed_environment@))),
                ("default_timeout_ms"@, json_tree::number_tree(self.default_timeout_ms as int)),
                ("graceful_cancel_ms"@, json_tree::number_tree(self.graceful_cancel_ms as int)),
                ("max_stdout_bytes"@, json_tree::number_tree(self.max_stdout_bytes as int)),
                ("max_stderr_bytes"@, json_tree::number_tree(self.max_stderr_bytes as int)),
                ("max_output_bytes"@, json_tree::number_tree(self.max_output_bytes as int)),
                ("temporary_root_policy"@, JsonTree::Text(self.temporary_root_policy@)),
                ("network_isolation_policy"@, JsonTree::Text(self.network_isolation_policy.word())),
                ("retain_raw_output"@, JsonTree::Bool(self.retain_raw_output)),
            ],
        )
    }

    /// Every setting is the same in both.
    pub open spec fn same_settings(self, other: Self) -> bool {
        &&& self.allow_shell == other.allow_shell
        &&& self.inherit_environment == other.inherit_environment
        &&& text::texts(self.allowed_environment@) == text::texts(other.allowed_environment@)
        &&& self.default_timeout_ms == other.default_timeout_ms
        &&& self.graceful_cancel_ms == other.graceful_cancel_ms
        &&& self.max_stdout_bytes == other.max_stdout_bytes
        &&& self.max_stderr_bytes == other.max_stderr_bytes
        &&& self.max_output_bytes == other.max_output_bytes
        &&& self.temporary_root_policy@ == other.temporary_root_policy@
        &&& self.network_isolation_policy == other.network_isolation_policy
        &&& self.retain_raw_output == other.retain_raw_output
    }

    /// The provider runtime section as JSON.
    fn to_json(&self) -> (r: JsonValue)
        ensures
            r.tree() == self.tree(),
    {
        let record = RecordBuilder::new();
        let record = record.flag("allow_shell", self.allow_shell);
        let record = record.flag("inherit_environment", self.inherit_environment);
        let record = record.texts("allowed_environment", &self.allowed_environment);
        let record = record.count("default_timeout_ms", self.default_timeout_ms);
        let record = record.count("graceful_cancel_ms", self.graceful_cancel_ms);
        let record = record.count("max_stdout_bytes", self.max_stdout_bytes);
        let record = record.count("max_stderr_bytes", self.max_stderr_bytes);
        let record = record.count("max_output_bytes", self.max_output_bytes);
        let record = record.text("temporary_root_policy", self.temporary_root_policy.as_str());
        let record = record.text("network_isolation_policy", self.network_isolation_policy.as_str());
        let record = record.flag("retain_raw_output", self.retain_raw_output);
        assert(record.fields() =~= self.tree()->Record_0);
        record.finish()
    }
}

impl ProviderConfigEntry {
    /// The provider as a JSON document.
    pub open spec fn tree(self) -> JsonTree {
        JsonTree::Record(
            seq![
                ("name"@, JsonTree::Text(self.name@)),
                ("kind"@, JsonTree::Text(self.kind@)),
                ("tier"@, JsonTree::Text(self.tier@)),
                ("scope"@, JsonTree::Text(self.scope@)),
                ("enabled"@, JsonTree::Bool(self.enabled)),
                ("required"@, JsonTree::Bool(self.required)),
                ("priority"@, json_tree::number_tree(self.priority as int)),
                ("languages"@, json_tree::texts_tree(text::texts(self.languages@))),
                ("project_markers"@, json_tree::texts_tree(text::texts(self.project_markers@))),
                ("version"@, json_tree::opt_text_tree(text::opt_text(self.version))),
                ("command"@, json_tree::opt_text_tree(text::opt_text(self.command))),
                ("arguments"@, json_tree::texts_tree(text::texts(self.arguments@))),
                ("output_format"@, json_tree::opt_text_tree(text::opt_text(self.output_format))),
                ("probe_arguments"@, json_tree::texts_tree(text::texts(self.probe_arguments@))),
                ("timeout_ms"@, json_tree::opt_number_tree(json_tree::as_int(self.timeout_ms))),
                ("max_output_bytes"@, json_tree::opt_number_tree(json_tree::as_int(self.max_output_bytes))),
                ("configuration"@, self.configuration.tree()),
            ],
        )
    }

    /// Every setting is the same in both.
    pub open spec fn same_settings(self, other: Self) -> bool {
        &&& self.name@ == other.name@
        &&& self.kind@ == other.kind@
        &&& self.tier@ == other.tier@
        &&& self.scope@ == other.scope@
        &&& self.enabled == other.enabled
        &&& self.required == other.required
        &&& self.priority == other.priority
        &&& text::texts(self.languages@) == text::texts(other.languages@)
        &&& text::texts(self.project_markers@) == text::texts(other.project_markers@)
        &&& text::opt_text(self.version) == text::opt_text(other.version)
        &&& text::opt_text(self.command) == text::opt_text(other.command)
        &&& text::texts(self.arguments@) == text::texts(other.arguments@)
        &&& text::opt_text(self.output_format) == text::opt_text(other.output_format)
        &&& text::texts(self.probe_arguments@) == text::texts(other.probe_arguments@)
        &&& self.timeout_ms == other.timeout_ms
        &&& self.max_output_bytes == other.max_output_bytes
        &&& self.configuration.tree() == other.configuration.tree()
    }

    /// The provider as JSON.
    fn to_json(&self) -> (r: JsonValue)
        ensures
            r.tree() == self.tree(),
    {
        let record = RecordBuilder::new();
        let record = record.text("name", self.name.as_str());
        let record = record.text("kind", self.kind.as_str());
        let record = record.text("tier", self.tier.as_str());
        let record = record.text("scope", self.scope.as_str());
        let record = record.flag("enabled", self.enabled);
        let record = record.flag("required", self.required);
        let record = record.signed("priority", self.priority);
        let record = record.texts("languages", &self.languages);
        let record = record.texts("project_markers", &self.project_markers);
        let record = record.opt_text("version", &self.version);
        let record = record.opt_text("command", &self.command);
        let record = record.texts("arguments", &self.arguments);
        let record = record.opt_text("output_format", &self.output_format);
        let record = record.texts("probe_arguments", &self.probe_arguments);
        let record = record.opt_count("timeout_ms", self.timeout_ms);
        let record = record.opt_count("max_output_bytes", self.max_output_bytes);
        let record = record.field("configuration", self.configuration.clone());
        assert(record.fields() =~= self.tree()->Record_0);
        record.finish()
    }
}

impl EvidencePriorityConfig {
    /// The evidence priorities as a JSON document.
    pub open spec fn tree(self) -> JsonTree {
        JsonTree::Record(
            seq![
                ("compiler"@, json_tree::number_tree(self.compiler as int)),
                ("runtime_observation"@, json_tree::number_tree(self.runtime_observation as int)),
                ("semantic_index"@, json_tree::number_tree(self.semantic_index as int)),
                ("language_server"@, json_tree::number_tree(self.language_server as int)),
                ("structural"@, json_tree::number_tree(self.structural as int)),
                ("document_config"@, json_tree::number_tree(self.document_config as int)),
                ("textual"@, json_tree::number_tree(self.textual as int)),
                ("heuristic"@, json_tree::number_tree(self.heuristic as int)),
            ],
        )
    }

    /// Every setting is the same in both.
    pub open spec fn same_settings(self, other: Self) -> bool {
        &&& self.compiler == other.compiler
        &&& self.runtime_observation == other.runtime_observation
        &&& self.semantic_index == other.semantic_index
        &&& self.language_server == other.language_server
        &&& self.structural == other.structural
        &&& self.document_config == other.document_config
        &&& self.textual == other.textual
        &&& self.heuristic == other.heuristic
    }

    /// The evidence priorities as JSON.
    fn to_json(&self) -> (r: JsonValue)
        ensures
            r.tree() == self.tree(),
    {
        let record = RecordBuilder::new();
        let record = record.signed("compiler", self.compiler);
        let record = record.signed("runtime_observation", self.runtime_observation);
        let record = record.signed("semantic_index", self.semantic_index);
        let record = record.signed("language_server", self.language_server);
        let record = record.signed("structural", self.structural);
        let record = record.signed("document_config", self.document_config);
        let record = record.signed("textual", self.textual);
        let record = record.signed("heuristic", self.heuristic);
        assert(record.fields() =~= self.tree()->Record_0);
        record.finish()
    }
}

impl EvidenceConfig {
    /// The evidence section as a JSON document.
    pub open spec fn tree(self) -> JsonTree {
        JsonTree::Record(
            seq![
                ("projection_policy_version"@, JsonTree::Text(self.projection_policy_version@)),
                ("resolution_policy_version"@, JsonTree::Text(self.resolution_policy_version@)),
                ("default_priority"@, self.default_priority.tree()),
            ],
        )
    }

    /// Every setting is the same in both.
    pub open spec fn same_settings(self, other: Self) -> bool {
        &&& self.projection_policy_version@ == other.projection_policy_version@
        &&& self.resolution_policy_version@ == other.resolution_policy_version@
        &&& self.default_priority.same_settings(other.default_priority)
    }

    /// The evidence section as JSON.
    fn to_json(&self) -> (r: JsonValue)
        ensures
            r.tree() == self.tree(),
    {
        let record = RecordBuilder::new();
        let record = record.text("projection_policy_version", self.projection_policy_version.as_str());
        let record = record.text("resolution_policy_version", self.resolution_policy_version.as_str());
        let record = record.field("default_priority", self.default_priority.to_json());
        assert(record.fields() =~= self.tree()->Record_0);
        record.finish()
    }
}

/// The providers as trees.
pub open spec fn provider_trees(providers: Seq<ProviderConfigEntry>) -> Seq<JsonTree> {
    providers.map_values(|provider: ProviderConfigEntry| provider.tree())
}

fn providers_json(providers: &Vec<ProviderConfigEntry>) -> (r: JsonValue)
    ensures
        r.tree() == JsonTree::List(provider_trees(providers@)),
{
    let mut list = ListBuilder::new();
    let ghost all = provider_trees(providers@);
    for i in 0..providers.len()
        invariant
            all == provider_trees(providers@),
            list.items() == all.take(i as int),
    {
        list = list.item(providers[i].to_json());
        assert(all.take(i + 1) =~= all.take(i as int).push(all[i as int]));
    }
    assert(all.take(providers@.len() as int) =~= all);
    list.finish()
}

/// The two lists hold the same providers in the same order.
pub open spec fn same_providers(
    a: Seq<ProviderConfigEntry>,
    b: Seq<ProviderConfigEntry>,
) -> bool {
    a.len() == b.len() && forall|i: int|
        0 <= i < a.len() ==> (#[trigger] a[i]).same_settings(b[i])
}

impl Config {
    /// The configuration as a JSON document.
    pub open spec fn tree(self) -> JsonTree {
        JsonTree::Record(
            seq![
                ("schema_version"@, JsonTree::Text(self.schema_version@)),
                ("workspace"@, self.workspace.tree()),
                ("database"@, self.database.tree()),
                ("policy"@, self.policy.tree()),
                ("reconcile"@, self.reconcile.tree()),
                ("provider_runtime"@, self.provider_runtime.tree()),
                ("providers"@, JsonTree::List(provider_trees(self.providers@))),
                ("evidence"@, self.evidence.tree()),
            ],
        )
    }

    /// Every setting is the same in both.
    pub open spec fn same_settings(self, other: Self) -> bool {
        &&& self.schema_version@ == other.schema_version@
        &&& self.workspace.same_settings(other.workspace)
        &&& self.database.same_settings(other.database)
        &&& self.policy.same_settings(other.policy)
        &&& self.reconcile.same_settings(other.reconcile)
        &&& self.provider_runtime.same_settings(other.provider_runtime)
        &&& same_providers(self.providers@, other.providers@)
        &&& self.evidence.same_settings(other.evidence)
    }

    /// The configuration as JSON.
    pub(crate) fn to_json(&self) -> (r: JsonValue)
        ensures
            r.tree() == self.tree(),
    {
        let record = RecordBuilder::new();
        let record = record.text("schema_version", self.schema_version.as_str());
        let record = record.field("workspace", self.workspace.to_json());
        let record = record.field("database", self.database.to_json());
        let record = record.field("policy", self.policy.to_json());
        let record = record.field("reconcile", self.reconcile.to_json());
        let record = record.field("provider_runtime", self.provider_runtime.to_json());
        let record = record.field("providers", providers_json(&self.providers));
        let record = record.field("evidence", self.evidence.to_json());
        assert(record.fields() =~= self.tree()->Record_0);
        record.finish()
    }
}


proof fn lemma_policy_words(a: SymlinkPolicy, b: SymlinkPolicy)
    ensures
        a.word() == b.word() ==> a == b,
{
    reveal_strlit("reject");
    reveal_strlit("allow");
    reveal_strlit("log_only");
    if a.word() == b.word() {
        assert(a.word().len() == b.word().len());
    }
}

proof fn lemma_isolation_words(a: NetworkIsolationPolicy, b: NetworkIsolationPolicy)
    ensures
        a.word() == b.word() ==> a == b,
{
    reveal_strlit("not_required");
    reveal_strlit("require_enforced");
    reveal_strlit("best_effort_allowed");
    if a.word() == b.word() {
        assert(a.word().len() == b.word().len());
    }
}

proof fn lemma_workspace_settings(a: WorkspaceConfig, b: WorkspaceConfig)
    ensures
        json_tree::well_formed(a.tree()),
        a.tree() == b.tree() ==> a.same_settings(b),
{
    let x = a.tree()->Record_0;
    let y = b.tree()->Record_0;
    assert forall|i: int| 0 <= i < x.len() implies json_tree::well_formed((#[trigger] x[i]).1) by {
        if i == 0 {
            assert(json_tree::well_formed(x[0].1));
        } else if i == 1 {
            assert(json_tree::well_formed(x[1].1));
        } else if i == 2 {
            assert(json_tree::well_formed(x[2].1));
        }
    }
    json_tree::lemma_fields_well_formed(x);
    if a.tree() == b.tree() {
        assert(x[0] == y[0]);
        assert(x[1] == y[1]);
        assert(x[2] == y[2]);
    }
}

proof fn lemma_database_settings(a: DatabaseConfig, b: DatabaseConfig)
    ensures
        json_tree::well_formed(a.tree()),
        a.tree() == b.tree() ==> a.same_settings(b),
{
    json_tree::lemma_optional(as_int32(a.busy_timeout_ms), as_int32(b.busy_timeout_ms));
    let x = a.tree()->Record_0;
    let y = b.tree()->Record_0;
    assert forall|i: int| 0 <= i < x.len() implies json_tree::well_formed((#[trigger] x[i]).1) by {
        if i == 0 {
            assert(json_tree::well_formed(x[0].1));
        } else if i == 1 {
            assert(json_tree::well_formed(x[1].1));
        } else if i == 2 {
            assert(json_tree::well_formed(x[2].1));
        } else if i == 3 {
            assert(json_tree::well_formed(x[3].1));
        }
    }
    json_tree::lemma_fields_well_formed(x);
    if a.tree() == b.tree() {
        assert(x[0] == y[0]);
        assert(x[1] == y[1]);
        assert(x[2] == y[2]);
        assert(x[3] == y[3]);
    }
}

proof fn lemma_exclude_settings(a: ExcludeConfig, b: ExcludeConfig)
    ensures
        json_tree::well_formed(a.tree()),
        a.tree() == b.tree() ==> a.same_settings(b),
{
    json_tree::lemma_texts(text::texts(a.patterns@), text::texts(b.patterns@));
    json_tree::lemma_texts(text::texts(a.vendor_paths@), text::texts(b.vendor_paths@));
    json_tree::lemma_texts(text::texts(a.build_paths@), text::texts(b.build_paths@));
    json_tree::lemma_texts(text::texts(a.generated_paths@), text::texts(b.generated_paths@));
    json_tree::lemma_texts(text::texts(a.binary_paths@), text::texts(b.binary_paths@));
    json_tree::lemma_texts(text::texts(a.archive_paths@), text::texts(b.archive_paths@));
    let x = a.tree()->Record_0;
    let y = b.tree()->Record_0;
    assert forall|i: int| 0 <= i < x.len() implies json_tree::well_formed((#[trigger] x[i]).1) by {
        if i == 0 {
            assert(json_tree::well_formed(x[0].1));
        } else if i == 1 {
            assert(json_tree::well_formed(x[1].1));
        } else if i == 2 {
            assert(json_tree::well_formed(x[2].1));
        } else if i == 3 {
            assert(json_tree::well_formed(x[3].1));
        } else if i == 4 {
            assert(json_tree::well_formed(x[4].1));
        } else if i == 5 {
            assert(json_tree::well_formed(x[5].1));
        }
    }
    json_tree::lemma_fields_well_formed(x);
    if a.tree() == b.tree() {
        assert(x[0] == y[0]);
        assert(x[1] == y[1]);
        assert(x[2] == y[2]);
        assert(x[3] == y[3]);
        assert(x[4] == y[4]);
        assert(x[5] == y[5]);
    }
}

proof fn lemma_policy_settings(a: PolicyConfig, b: PolicyConfig)
    ensures
        json_tree::well_formed(a.tree()),
        a.tree() == b.tree() ==> a.same_settings(b),
{
    lemma_policy_words(a.symlink_policy, b.symlink_policy);
    json_tree::lemma_numbers(a.max_file_size_bytes as int, b.max_file_size_bytes as int);
    json_tree::lemma_texts(text::texts(a.newlines@), text::texts(b.newlines@));
    lemma_exclude_settings(a.exclude, b.exclude);
    let x = a.tree()->Record_0;
    let y = b.tree()->Record_0;
    assert forall|i: int| 0 <= i < x.len() implies json_tree::well_formed((#[trigger] x[i]).1) by {
        if i == 0 {
            assert(json_tree::well_formed(x[0].1));
        } else if i == 1 {
            assert(json_tree::well_formed(x[1].1));
        } else if i == 2 {
            assert(json_tree::well_formed(x[2].1));
        } else if i == 3 {
            assert(json_tree::well_formed(x[3].1));
        } else if i == 4 {
            assert(json_tree::well_formed(x[4].1));
        }
    }
    json_tree::lemma_fields_well_formed(x);
    if a.tree() == b.tree() {
        assert(x[0] == y[0]);
        assert(x[1] == y[1]);
        assert(x[2] == y[2]);
        assert(x[3] == y[3]);
        assert(x[4] == y[4]);
    }
}

proof fn lemma_reconcile_settings(a: ReconcileConfig, b: ReconcileConfig)
    ensures
        json_tree::well_formed(a.tree()),
        a.tree() == b.tree() ==> a.same_settings(b),
{
    json_tree::lemma_numbers(a.debounce_ms as int, b.debounce_ms as int);
    json_tree::lemma_numbers(a.interval_seconds as int, b.interval_seconds as int);
    let x = a.tree()->Record_0;
    let y = b.tree()->Record_0;
    assert forall|i: int| 0 <= i < x.len() implies json_tree::well_formed((#[trigger] x[i]).1) by {
        if i == 0 {
            assert(json_tree::well_formed(x[0].1));
        } else if i == 1 {
            assert(json_tree::well_formed(x[1].1));
        } else if i == 2 {
            assert(json_tree::well_formed(x[2].1));
        }
    }
    json_tree::lemma_fields_well_formed(x);
    if a.tree() == b.tree() {
        assert(x[0] == y[0]);
        assert(x[1] == y[1]);
        assert(x[2] == y[2]);
    }
}

proof fn lemma_provider_runtime_settings(a: ProviderRuntimeConfig, b: ProviderRuntimeConfig)
    ensures
        json_tree::well_formed(a.tree()),
        a.tree() == b.tree() ==> a.same_settings(b),
{
    json_tree::lemma_texts(text::texts(a.allowed_environment@), text::texts(b.allowed_environment@));
    json_tree::lemma_numbers(a.default_timeout_ms as int, b.default_timeout_ms as int);
    json_tree::lemma_numbers(a.graceful_cancel_ms as int, b.graceful_cancel_ms as int);
    json_tree::lemma_numbers(a.max_stdout_bytes as int, b.max_stdout_bytes as int);
    json_tree::lemma_numbers(a.max_stderr_bytes as int, b.max_stderr_bytes as int);
    json_tree::lemma_numbers(a.max_output_bytes as int, b.max_output_bytes as int);
    lemma_isolation_words(a.network_isolation_policy, b.network_isolation_policy);
    let x = a.tree()->Record_0;
    let y = b.tree()->Record_0;
    assert forall|i: int| 0 <= i < x.len() implies json_tree::well_formed((#[trigger] x[i]).1) by {
        if i == 0 {
            assert(json_tree::well_formed(x[0].1));
        } else if i == 1 {
            assert(json_tree::well_formed(x[1].1));
        } else if i == 2 {
            assert(json_tree::well_formed(x[2].1));
        } else if i == 3 {
            assert(json_tree::well_formed(x[3].1));
        } else if i == 4 {
            assert(json_tree::well_formed(x[4].1));
        } else if i == 5 {
            assert(json_tree::well_formed(x[5].1));
        } else if i == 6 {
            assert(json_tree::well_formed(x[6].1));
        } else if i == 7 {
            assert(json_tree::well_formed(x[7].1));
        } else if i == 8 {
            assert(json_tree::well_formed(x[8].1));
        } else if i == 9 {
            assert(json_tree::well_formed(x[9].1));
        } else if i == 10 {
            assert(json_tree::well_formed(x[10].1));
        }
    }
    json_tree::lemma_fields_well_formed(x);
    if a.tree() == b.tree() {
        assert(x[0] == y[0]);
        assert(x[1] == y[1]);
        assert(x[2] == y[2]);
        assert(x[3] == y[3]);
        assert(x[4] == y[4]);
        assert(x[5] == y[5]);
        assert(x[6] == y[6]);
        assert(x[7] == y[7]);
        assert(x[8] == y[8]);
        assert(x[9] == y[9]);
        assert(x[10] == y[10]);
    }
}

proof fn lemma_provider_settings(a: ProviderConfigEntry, b: ProviderConfigEntry)
    requires
        json_tree::well_formed(a.configuration.tree()),
    ensures
        json_tree::well_formed(a.tree()),
        a.tree() == b.tree() ==> a.same_settings(b),
{
    json_tree::lemma_numbers(a.priority as int, b.priority as int);
    json_tree::lemma_texts(text::texts(a.languages@), text::texts(b.languages@));
    json_tree::lemma_texts(text::texts(a.project_markers@), text::texts(b.project_markers@));
    json_tree::lemma_texts(text::texts(a.arguments@), text::texts(b.arguments@));
    json_tree::lemma_texts(text::texts(a.probe_arguments@), text::texts(b.probe_arguments@));
    json_tree::lemma_optional(json_tree::as_int(a.timeout_ms), json_tree::as_int(b.timeout_ms));
    json_tree::lemma_optional(json_tree::as_int(a.max_output_bytes), json_tree::as_int(b.max_output_bytes));
    let x = a.tree()->Record_0;
    let y = b.tree()->Record_0;
    assert forall|i: int| 0 <= i < x.len() implies json_tree::well_formed((#[trigger] x[i]).1) by {
        if i == 0 {
            assert(json_tree::well_formed(x[0].1));
        } else if i == 1 {
            assert(json_tree::well_formed(x[1].1));
        } else if i == 2 {
            assert(json_tree::well_formed(x[2].1));
        } else if i == 3 {
            assert(json_tree::well_formed(x[3].1));
        } else if i == 4 {
            assert(json_tree::well_formed(x[4].1));
        } else if i == 5 {
            assert(json_tree::well_formed(x[5].1));
        } else if i == 6 {
            assert(json_tree::well_formed(x[6].1));
        } else if i == 7 {
            assert(json_tree::well_formed(x[7].1));
        } else if i == 8 {
            assert(json_tree::well_formed(x[8].1));
        } else if i == 9 {
            assert(json_tree::well_formed(x[9].1));
        } else if i == 10 {
            assert(json_tree::well_formed(x[10].1));
        } else if i == 11 {
            assert(json_tree::well_formed(x[11].1));
        } else if i == 12 {
            assert(json_tree::well_formed(x[12].1));
        } else if i == 13 {
            assert(json_tree::well_formed(x[13].1));
        } else if i == 14 {
            assert(json_tree::well_formed(x[14].1));
        } else if i == 15 {
            assert(json_tree::well_formed(x[15].1));
        } else if i == 16 {
            assert(json_tree::well_formed(x[16].1));
        }
    }
    json_tree::lemma_fields_well_formed(x);
    if a.tree() == b.tree() {
        assert(x[0] == y[0]);
        assert(x[1] == y[1]);
        assert(x[2] == y[2]);
        assert(x[3] == y[3]);
        assert(x[4] == y[4]);
        assert(x[5] == y[5]);
        assert(x[6] == y[6]);
        assert(x[7] == y[7]);
        assert(x[8] == y[8]);
        assert(x[9] == y[9]);
        assert(x[10] == y[10]);
        assert(x[11] == y[11]);
        assert(x[12] == y[12]);
        assert(x[13] == y[13]);
        assert(x[14] == y[14]);
        assert(x[15] == y[15]);
        assert(x[16] == y[16]);
    }
}

proof fn lemma_evidence_priority_settings(a: EvidencePriorityConfig, b: EvidencePriorityConfig)
    ensures
        json_tree::well_formed(a.tree()),
        a.tree() == b.tree() ==> a.same_settings(b),
{
    json_tree::lemma_numbers(a.compiler as int, b.compiler as int);
    json_tree::lemma_numbers(a.runtime_observation as int, b.runtime_observation as int);
    json_tree::lemma_numbers(a.semantic_index as int, b.semantic_index as int);
    json_tree::lemma_numbers(a.language_server as int, b.language_server as int);
    json_tree::lemma_numbers(a.structural as int, b.structural as int);
    json_tree::lemma_numbers(a.document_config as int, b.document_config as int);
    json_tree::lemma_numbers(a.textual as int, b.textual as int);
    json_tree::lemma_numbers(a.heuristic as int, b.heuristic as int);
    let x = a.tree()->Record_0;
    let y = b.tree()->Record_0;
    assert forall|i: int| 0 <= i < x.len() implies json_tree::well_formed((#[trigger] x[i]).1) by {
        if i == 0 {
            assert(json_tree::well_formed(x[0].1));
        } else if i == 1 {
            assert(json_tree::well_formed(x[1].1));
        } else if i == 2 {
            assert(json_tree::well_formed(x[2].1));
        } else if i == 3 {
            assert(json_tree::well_formed(x[3].1));
        } else if i == 4 {
            assert(json_tree::well_formed(x[4].1));
        } else if i == 5 {
            assert(json_tree::well_formed(x[5].1));
        } else if i == 6 {
            assert(json_tree::well_formed(x[6].1));
        } else if i == 7 {
            assert(json_tree::well_formed(x[7].1));
        }
    }
    json_tree::lemma_fields_well_formed(x);
    if a.tree() == b.tree() {
        assert(x[0] == y[0]);
        assert(x[1] == y[1]);
        assert(x[2] == y[2]);
        assert(x[3] == y[3]);
        assert(x[4] == y[4]);
        assert(x[5] == y[5]);
        assert(x[6] == y[6]);
        assert(x[7] == y[7]);
    }
}

proof fn lemma_evidence_settings(a: EvidenceConfig, b: EvidenceConfig)
    ensures
        json_tree::well_formed(a.tree()),
        a.tree() == b.tree() ==> a.same_settings(b),
{
    lemma_evidence_priority_settings(a.default_priority, b.default_priority);
    let x = a.tree()->Record_0;
    let y = b.tree()->Record_0;
    assert forall|i: int| 0 <= i < x.len() implies json_tree::well_formed((#[trigger] x[i]).1) by {
        if i == 0 {
            assert(json_tree::well_formed(x[0].1));
        } else if i == 1 {
            assert(json_tree::well_formed(x[1].1));
        } else if i == 2 {
            assert(json_tree::well_formed(x[2].1));
        }
    }
    json_tree::lemma_fields_well_formed(x);
    if a.tree() == b.tree() {
        assert(x[0] == y[0]);
        assert(x[1] == y[1]);
        assert(x[2] == y[2]);
    }
}

impl Config {
    /// The providers' own tables hold numerals where they hold numbers.
    pub open spec fn has_plain_tables(self) -> bool {
        forall|i: int|
            0 <= i < self.providers@.len() ==> json_tree::well_formed(
                (#[trigger] self.providers@[i]).configuration.tree(),
            )
    }
}

proof fn lemma_provider_list(a: Config, b: Config)
    requires
        a.has_plain_tables(),
    ensures
        json_tree::well_formed(JsonTree::List(provider_trees(a.providers@))),
        provider_trees(a.providers@) == provider_trees(b.providers@) ==> same_providers(
            a.providers@,
            b.providers@,
        ),
{
    let x = provider_trees(a.providers@);
    let y = provider_trees(b.providers@);
    assert forall|i: int| 0 <= i < x.len() implies json_tree::well_formed(#[trigger] x[i]) by {
        assert(x[i] == a.providers@[i].tree());
        lemma_provider_settings(a.providers@[i], a.providers@[i]);
    }
    json_tree::lemma_items_well_formed(x);
    if x == y {
        assert(a.providers@.len() == x.len() && b.providers@.len() == y.len());
        assert forall|i: int| 0 <= i < a.providers@.len() implies (
        #[trigger] a.providers@[i]).same_settings(b.providers@[i]) by {
            assert(x[i] == a.providers@[i].tree());
            assert(y[i] == b.providers@[i].tree());
            lemma_provider_settings(a.providers@[i], b.providers@[i]);
        }
    }
}

proof fn lemma_config_settings(a: Config, b: Config)
    requires
        a.has_plain_tables(),
    ensures
        json_tree::well_formed(a.tree()),
        a.tree() == b.tree() ==> a.same_settings(b),
{
    lemma_workspace_settings(a.workspace, b.workspace);
    lemma_database_settings(a.database, b.database);
    lemma_policy_settings(a.policy, b.policy);
    lemma_reconcile_settings(a.reconcile, b.reconcile);
    lemma_provider_runtime_settings(a.provider_runtime, b.provider_runtime);
    lemma_provider_list(a, b);
    lemma_evidence_settings(a.evidence, b.evidence);
    let x = a.tree()->Record_0;
    let y = b.tree()->Record_0;
    assert forall|i: int| 0 <= i < x.len() implies json_tree::well_formed((#[trigger] x[i]).1) by {
        if i == 0 {
            assert(json_tree::well_formed(x[0].1));
        } else if i == 1 {
            assert(json_tree::well_formed(x[1].1));
        } else if i == 2 {
            assert(json_tree::well_formed(x[2].1));
        } else if i == 3 {
            assert(json_tree::well_formed(x[3].1));
        } else if i == 4 {
            assert(json_tree::well_formed(x[4].1));
        } else if i == 5 {
            assert(json_tree::well_formed(x[5].1));
        } else if i == 6 {
            assert(json_tree::well_formed(x[6].1));
        } else if i == 7 {
            assert(json_tree::well_formed(x[7].1));
        }
    }
    json_tree::lemma_fields_well_formed(x);
    if a.tree() == b.tree() {
        assert(x[0] == y[0]);
        assert(x[1] == y[1]);
        assert(x[2] == y[2]);
        assert(x[3] == y[3]);
        assert(x[4] == y[4]);
        assert(x[5] == y[5]);
        assert(x[6] == y[6]);
        assert(x[7] == y[7]);
    }
}

/// Every setting takes part in the digest: configurations that are written the same
/// have the same settings, so a change of any setting changes what is digested.
pub proof fn law_every_setting_participates(a: Config, b: Config)
    requires
        a.has_plain_tables(),
        b.has_plain_tables(),
        json_tree::tree_text(a.tree()) == json_tree::tree_text(b.tree()),
    ensures
        a.same_settings(b),
{
    lemma_config_settings(a, b);
    lemma_config_settings(b, a);
    json_tree::law_text_determines_document(a.tree(), b.tree());
}

} // verus!
