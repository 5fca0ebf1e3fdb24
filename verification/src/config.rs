//! Application configuration: its sections, their defaults, and what makes a
//! configuration valid.
//!
//! A configuration comes in parsed. Validation fails closed with the first rule
//! that is broken, in a fixed order: schema version, workspace name, newline
//! names, exclusion patterns, direct spawning, and then the providers one by one.
use vstd::prelude::*;

use crate::context_ir;
use crate::context_ir::debug_text;
use crate::digest;
use crate::digest::hash_of_text;
use crate::error;
use crate::error::AtlasError;
use crate::json_tree;
use crate::json_tree::{value_text, JsonValue};
use crate::text;
use crate::text::{append_decimal, clone_opt_text, clone_texts, is_blank, join2, text_eq};

verus! {

/// The schema version that new configurations carry.
pub const SCHEMA_VERSION: &'static str = "1.1.0";

/// The first schema version. Its configurations stay valid: later sections are
/// additive and have defaults.
pub const FIRST_SCHEMA_VERSION: &'static str = "1.0.0";

/// A schema version that is accepted.
pub open spec fn supported_schema_version(version: Seq<char>) -> bool {
    version == FIRST_SCHEMA_VERSION@ || version == SCHEMA_VERSION@
}

#[derive(Debug, Clone)]
pub struct Config {
    pub schema_version: String,
    pub workspace: WorkspaceConfig,
    pub database: DatabaseConfig,
    pub policy: PolicyConfig,
    pub reconcile: ReconcileConfig,
    pub provider_runtime: ProviderRuntimeConfig,
    pub providers: Vec<ProviderConfigEntry>,
    pub evidence: EvidenceConfig,
}

#[derive(Debug, Clone)]
pub struct WorkspaceConfig {
    pub display_name: String,
    pub workspace_id: Option<String>,
    pub canonical_root_label: Option<String>,
}

#[derive(Debug, Clone)]
pub struct DatabaseConfig {
    pub path: Option<String>,
    pub busy_timeout_ms: Option<u32>,
    pub journal_mode: Option<String>,
    pub synchronous: Option<String>,
}

impl Default for DatabaseConfig {
    fn default() -> (r: Self)
        ensures
            r.path is None,
            r.busy_timeout_ms is None,
            r.journal_mode is None,
            r.synchronous is None,
    {
        DatabaseConfig { path: None, busy_timeout_ms: None, journal_mode: None, synchronous: None }
    }
}

#[derive(Debug, Clone)]
pub struct PolicyConfig {
    pub symlink_policy: SymlinkPolicy,
    pub max_file_size_bytes: u64,
    pub default_encoding: String,
    pub newlines: Vec<String>,
    pub exclude: ExcludeConfig,
}

#[derive(Debug, Clone, Copy, PartialEq, Eq, Structural)]
pub enum SymlinkPolicy {
    Reject,
    Allow,
    LogOnly,
}

impl Default for PolicyConfig {
    fn default() -> (r: Self)
        ensures
            r.symlink_policy == SymlinkPolicy::Reject,
            r.max_file_size_bytes == 4 * 1024 * 1024,
            r.default_encoding@ == "utf-8"@,
            text::texts(r.newlines@) == seq!["lf"@, "crlf"@, "cr"@],
            r.exclude.is_empty(),
    {
        let mut newlines: Vec<String> = Vec::new();
        newlines.push("lf".to_string());
        newlines.push("crlf".to_string());
        newlines.push("cr".to_string());
        assert(text::texts(newlines@) =~= seq!["lf"@, "crlf"@, "cr"@]);
        PolicyConfig {
            symlink_policy: SymlinkPolicy::Reject,
            max_file_size_bytes: 4_194_304,
            default_encoding: "utf-8".to_string(),
            newlines,
            exclude: ExcludeConfig::default(),
        }
    }
}

/// Regular expressions for paths that are left out, by the reason for it.
#[derive(Debug, Clone)]
pub struct ExcludeConfig {
    pub patterns: Vec<String>,
    pub vendor_paths: Vec<String>,
    pub build_paths: Vec<String>,
    pub generated_paths: Vec<String>,
    pub binary_paths: Vec<String>,
    pub archive_paths: Vec<String>,
}

impl ExcludeConfig {
    /// Nothing is left out.
    pub open spec fn is_empty(self) -> bool {
        &&& self.patterns@.len() == 0
        &&& self.vendor_paths@.len() == 0
        &&& self.build_paths@.len() == 0
        &&& self.generated_paths@.len() == 0
        &&& self.binary_paths@.len() == 0
        &&& self.archive_paths@.len() == 0
    }
}

impl Default for ExcludeConfig {
    fn default() -> (r: Self)
        ensures
            r.is_empty(),
    {
        ExcludeConfig {
            patterns: Vec::new(),
            vendor_paths: Vec::new(),
            build_paths: Vec::new(),
            generated_paths: Vec::new(),
            binary_paths: Vec::new(),
            archive_paths: Vec::new(),
        }
    }
}

#[derive(Debug, Clone)]
pub struct ReconcileConfig {
    pub debounce_ms: u64,
    pub interval_seconds: u64,
    pub hash_suspect_on_metadata_change: bool,
}

impl Default for ReconcileConfig {
    fn default() -> (r: Self)
        ensures
            r.debounce_ms == 250,
            r.interval_seconds == 300,
            r.hash_suspect_on_metadata_change,
    {
        ReconcileConfig {
            debounce_ms: 250,
            interval_seconds: 300,
            hash_suspect_on_metadata_change: true,
        }
    }
}

/// How providers are run: spawned directly, with a minimal environment, no
/// inherited credentials and bounded output.
#[derive(Debug, Clone)]
pub struct ProviderRuntimeConfig {
    pub allow_shell: bool,
    pub inherit_environment: bool,
    pub allowed_environment: Vec<String>,
    pub default_timeout_ms: u64,
    pub graceful_cancel_ms: u64,
    pub max_stdout_bytes: u64,
    pub max_stderr_bytes: u64,
    pub max_output_bytes: u64,
    pub temporary_root_policy: String,
    pub network_isolation_policy: NetworkIsolationPolicy,
    pub retain_raw_output: bool,
}

#[derive(Debug, Clone, Copy, PartialEq, Eq, Structural)]
pub enum NetworkIsolationPolicy {
    NotRequired,
    RequireEnforced,
    BestEffortAllowed,
}

impl Default for ProviderRuntimeConfig {
    fn default() -> (r: Self)
        ensures
            !r.allow_shell,
            !r.inherit_environment,
            text::texts(r.allowed_environment@) == seq![
                "PATH"@,
                "PATHEXT"@,
                "SYSTEMROOT"@,
                "TEMP"@,
                "TMP"@,
                "HOME"@,
                "USERPROFILE"@,
            ],
            r.default_timeout_ms == 120_000,
            r.graceful_cancel_ms == 1_500,
            r.max_stdout_bytes == 1_048_576,
            r.max_stderr_bytes == 1_048_576,
            r.max_output_bytes == 536_870_912,
            r.temporary_root_policy@ == "application_private"@,
            r.network_isolation_policy == NetworkIsolationPolicy::BestEffortAllowed,
            !r.retain_raw_output,
    {
        let mut allowed: Vec<String> = Vec::new();
        allowed.push("PATH".to_string());
        allowed.push("PATHEXT".to_string());
        allowed.push("SYSTEMROOT".to_string());
        allowed.push("TEMP".to_string());
        allowed.push("TMP".to_string());
        allowed.push("HOME".to_string());
        allowed.push("USERPROFILE".to_string());
        assert(text::texts(allowed@) =~= seq![
            "PATH"@,
            "PATHEXT"@,
            "SYSTEMROOT"@,
            "TEMP"@,
            "TMP"@,
            "HOME"@,
            "USERPROFILE"@,
        ]);
        ProviderRuntimeConfig {
            allow_shell: false,
            inherit_environment: false,
            allowed_environment: allowed,
            default_timeout_ms: 120_000,
            graceful_cancel_ms: 1_500,
            max_stdout_bytes: 1_048_576,
            max_stderr_bytes: 1_048_576,
            max_output_bytes: 536_870_912,
            temporary_root_policy: "application_private".to_string(),
            network_isolation_policy: NetworkIsolationPolicy::BestEffortAllowed,
            retain_raw_output: false,
        }
    }
}

/// One provider. A builtin one needs no command; an external one names its
/// command, never a shell line. `configuration` is the provider's own table, with
/// its keys in order.
#[derive(Debug, Clone)]
pub struct ProviderConfigEntry {
    pub name: String,
    pub kind: String,
    pub tier: String,
    pub scope: String,
    pub enabled: bool,
    pub required: bool,
    pub priority: i64,
    pub languages: Vec<String>,
    pub project_markers: Vec<String>,
    pub version: Option<String>,
    pub command: Option<String>,
    pub arguments: Vec<String>,
    pub output_format: Option<String>,
    pub probe_arguments: Vec<String>,
    pub timeout_ms: Option<u64>,
    pub max_output_bytes: Option<u64>,
    pub configuration: JsonValue,
}

impl ProviderConfigEntry {
    /// The pinned version, with the historical pin of the TypeScript provider.
    pub open spec fn pinned_version(self) -> Option<Seq<char>> {
        if self.version is Some {
            text::opt_text(self.version)
        } else if self.name@ == "scip-typescript"@ {
            Some("0.4.0"@)
        } else {
            None
        }
    }

    /// The digest of the provider's own table.
    pub fn configuration_hash(&self) -> (r: String)
        ensures
            r@ == digest::content_hash(
                digest::text_field(json_tree::tree_text(self.configuration.tree())),
            ),
            text::hex64(r@),
    {
        hash_of_text(value_text(&self.configuration).as_str())
    }

    /// The pinned version. Configurations of the TypeScript provider from before
    /// pins existed stand for version 0.4.0.
    pub fn resolved_version(&self) -> (r: Option<String>)
        ensures
            text::opt_text(r) == self.pinned_version(),
    {
        if self.version.is_some() {
            clone_opt_text(&self.version)
        } else if text_eq(self.name.as_str(), "scip-typescript") {
            Some("0.4.0".to_string())
        } else {
            None
        }
    }
}

#[derive(Debug, Clone)]
pub struct EvidenceConfig {
    pub projection_policy_version: String,
    pub resolution_policy_version: String,
    pub default_priority: EvidencePriorityConfig,
}

impl Default for EvidenceConfig {
    fn default() -> (r: Self)
        ensures
            r.projection_policy_version@ == "preferred-evidence-1.0.0"@,
            r.resolution_policy_version@ == "semantic-resolution-1.0.0"@,
            r.default_priority == EvidencePriorityConfig::standard(),
    {
        EvidenceConfig {
            projection_policy_version: "preferred-evidence-1.0.0".to_string(),
            resolution_policy_version: "semantic-resolution-1.0.0".to_string(),
            default_priority: EvidencePriorityConfig::default(),
        }
    }
}

#[derive(Debug, Clone, Copy, PartialEq, Eq, Structural)]
pub struct EvidencePriorityConfig {
    pub compiler: i64,
    pub runtime_observation: i64,
    pub semantic_index: i64,
    pub language_server: i64,
    pub structural: i64,
    pub document_config: i64,
    pub textual: i64,
    pub heuristic: i64,
}

impl EvidencePriorityConfig {
    /// The priorities that hold unless a configuration sets others.
    pub open spec fn standard() -> EvidencePriorityConfig {
        EvidencePriorityConfig {
            compiler: 900,
            runtime_observation: 850,
            semantic_index: 800,
            language_server: 700,
            structural: 500,
            document_config: 300,
            textual: 100,
            heuristic: 50,
        }
    }
}

impl Default for EvidencePriorityConfig {
    fn default() -> (r: Self)
        ensures
            r == EvidencePriorityConfig::standard(),
    {
        EvidencePriorityConfig {
            compiler: 900,
            runtime_observation: 850,
            semantic_index: 800,
            language_server: 700,
            structural: 500,
            document_config: 300,
            textual: 100,
            heuristic: 50,
        }
    }
}

/// A compiled set of regular expressions.
#[verifier::external_type_specification]
#[verifier::external_body]
pub struct ExRegexSet(regex::RegexSet);

/// Why `regex::Regex::new` refuses an expression, in its words; none where it
/// accepts it.
pub uninterp spec fn regex_fault(pattern: Seq<char>) -> Option<Seq<char>>;

/// Why `regex::RegexSet::new` refuses a list of expressions, in its words; none
/// where it accepts it.
pub uninterp spec fn regex_set_fault(patterns: Seq<Seq<char>>) -> Option<Seq<char>>;

/// The expressions of a compiled set, in their order.
pub uninterp spec fn regex_set_patterns(set: regex::RegexSet) -> Seq<Seq<char>>;

/// The expression matches somewhere in the text.
pub uninterp spec fn regex_matches(pattern: Seq<char>, haystack: Seq<char>) -> bool;

/// Calls `regex::Regex::new` for its verdict on an expression, which the
/// expression alone decides.
#[verifier::external_body]
fn regex_error(pattern: &str) -> (r: Option<String>)
    ensures
        text::opt_text(r) == regex_fault(pattern@),
{
    regex::Regex::new(pattern).err().map(|error| error.to_string())
}

/// Calls `regex::RegexSet::new`. A set that it builds holds the given expressions
/// in the given order; whether it builds one is decided by the expressions alone.
#[verifier::external_body]
fn compile_set(patterns: &Vec<String>) -> (r: Result<regex::RegexSet, String>)
    ensures
        match r {
            Ok(set) => regex_set_fault(text::texts(patterns@)) is None && regex_set_patterns(set)
                == text::texts(patterns@),
            Err(message) => regex_set_fault(text::texts(patterns@)) == Some(message@),
        },
{
    regex::RegexSet::new(patterns).map_err(|error| error.to_string())
}

/// Calls `regex::RegexSet::matches` and takes the first of the matching places,
/// which come in ascending order.
#[verifier::external_body]
fn first_match_of(set: &regex::RegexSet, haystack: &str) -> (r: Option<usize>)
    ensures
        r matches Some(at) ==> at < regex_set_patterns(*set).len() && regex_matches(
            regex_set_patterns(*set)[at as int],
            haystack@,
        ),
        forall|i: int|
            0 <= i < regex_set_patterns(*set).len() && (r matches Some(at) ==> i < at)
                ==> !regex_matches(#[trigger] regex_set_patterns(*set)[i], haystack@),
{
    set.matches(haystack).iter().next()
}

/// The first expression of a list, from `from` on, that is no regular expression.
pub open spec fn first_bad_regex(patterns: Seq<Seq<char>>, from: int) -> int
    decreases patterns.len() - from,
{
    if from >= patterns.len() || regex_fault(patterns[from]) is Some {
        from
    } else {
        first_bad_regex(patterns, from + 1)
    }
}

/// What is wrong with the expressions of one field, if anything is.
pub open spec fn field_fault(field: Seq<char>, patterns: Seq<Seq<char>>) -> Option<Seq<char>> {
    let at = first_bad_regex(patterns, 0);
    if at < patterns.len() {
        Some(
            "policy.exclude."@ + field + "["@ + text::decimal(at as nat)
                + "] is an invalid regular expression: "@ + regex_fault(patterns[at])->0,
        )
    } else if regex_set_fault(patterns) is Some {
        Some(
            "policy.exclude."@ + field + " contains an invalid regular expression: "@
                + regex_set_fault(patterns)->0,
        )
    } else {
        None
    }
}

/// One field's expressions, compiled, with the texts under which matches are
/// reported.
#[derive(Debug)]
pub struct CompiledField {
    listed: Vec<String>,
    set: regex::RegexSet,
}

impl CompiledField {
    #[verifier::type_invariant]
    spec fn inv(self) -> bool {
        regex_set_patterns(self.set).len() == self.listed@.len()
    }

    /// The expressions.
    pub closed spec fn expressions(self) -> Seq<Seq<char>> {
        regex_set_patterns(self.set)
    }

    /// The texts under which their matches are reported.
    pub closed spec fn reported(self) -> Seq<Seq<char>> {
        text::texts(self.listed@)
    }

    fn reported_as(self, listed: Vec<String>) -> (r: Self)
        requires
            listed@.len() == self.expressions().len(),
        ensures
            r.expressions() == self.expressions(),
            r.reported() == text::texts(listed@),
    {
        CompiledField { listed, set: self.set }
    }

    /// `found` is the reported text of the first expression that matches a path;
    /// none where no expression matches.
    pub open spec fn first_match_is(self, path: Seq<char>, found: Option<Seq<char>>) -> bool {
        match found {
            Some(reported) => exists|at: int|
                0 <= at < self.expressions().len() && self.reported()[at] == reported
                    && regex_matches(#[trigger] self.expressions()[at], path) && forall|i: int|
                    0 <= i < at ==> !regex_matches(#[trigger] self.expressions()[i], path),
            None => forall|i: int|
                0 <= i < self.expressions().len() ==> !regex_matches(
                    #[trigger] self.expressions()[i],
                    path,
                ),
        }
    }

    /// The text of the first expression that matches a path.
    pub fn first_match(&self, path: &str) -> (r: Option<&str>)
        ensures
            self.first_match_is(
                path@,
                match r {
                    Some(found) => Some(found@),
                    None => None,
                },
            ),
    {
        proof {
            use_type_invariant(self);
        }
        match first_match_of(&self.set, path) {
            Some(at) => {
                assert(self.reported()[at as int] == self.listed@[at as int]@);
                assert(regex_matches(self.expressions()[at as int], path@));
                Some(self.listed[at].as_str())
            },
            None => None,
        }
    }
}

/// The compiled exclusion policy.
#[derive(Debug)]
pub struct CompiledPatternPolicy {
    pub patterns: CompiledField,
    pub vendor_paths: CompiledField,
    pub build_paths: CompiledField,
    pub generated_paths: CompiledField,
    pub binary_paths: CompiledField,
    pub archive_paths: CompiledField,
}

fn compile_field(field: &str, patterns: &Vec<String>) -> (r: Result<CompiledField, AtlasError>)
    ensures
        match field_fault(field@, text::texts(patterns@)) {
            None => r matches Ok(c) && c.expressions() == text::texts(patterns@) && c.reported()
                == text::texts(patterns@),
            Some(message) => error::refused_as_invalid(r, message),
        },
{
    let ghost all = text::texts(patterns@);
    for i in 0..patterns.len()
        invariant
            all == text::texts(patterns@),
            first_bad_regex(all, 0) == first_bad_regex(all, i as int),
    {
        assert(all[i as int] == patterns@[i as int]@);
        if let Some(problem) = regex_error(patterns[i].as_str()) {
            let mut message = join2("policy.exclude.", field);
            message.append("[");
            append_decimal(&mut message, i as u64);
            message.append("] is an invalid regular expression: ");
            message.append(problem.as_str());
            return Err(AtlasError::InvalidConfig(message));
        }
    }
    match compile_set(patterns) {
        Ok(set) => Ok(CompiledField { listed: clone_texts(patterns), set }),
        Err(problem) => {
            let mut message = join2("policy.exclude.", field);
            message.append(" contains an invalid regular expression: ");
            message.append(problem.as_str());
            Err(AtlasError::InvalidConfig(message))
        },
    }
}

/// The first that is wrong of two.
pub open spec fn first_of(a: Option<Seq<char>>, b: Option<Seq<char>>) -> Option<Seq<char>> {
    if a is Some {
        a
    } else {
        b
    }
}

impl ExcludeConfig {
    /// What is wrong with the expressions other than the general ones.
    pub open spec fn path_fault(self) -> Option<Seq<char>> {
        first_of(
            field_fault("vendor_paths"@, text::texts(self.vendor_paths@)),
            first_of(
                field_fault("build_paths"@, text::texts(self.build_paths@)),
                first_of(
                    field_fault("generated_paths"@, text::texts(self.generated_paths@)),
                    first_of(
                        field_fault("binary_paths"@, text::texts(self.binary_paths@)),
                        field_fault("archive_paths"@, text::texts(self.archive_paths@)),
                    ),
                ),
            ),
        )
    }

    /// What is wrong with the expressions of the policy, if anything is.
    pub open spec fn fault(self) -> Option<Seq<char>> {
        first_of(field_fault("patterns"@, text::texts(self.patterns@)), self.path_fault())
    }

    /// A compiled policy holds the expressions of this configuration other than the
    /// general ones and reports matches under them.
    pub open spec fn paths_compile_to(self, policy: CompiledPatternPolicy) -> bool {
        &&& policy.vendor_paths.expressions() == text::texts(self.vendor_paths@)
        &&& policy.vendor_paths.reported() == text::texts(self.vendor_paths@)
        &&& policy.build_paths.expressions() == text::texts(self.build_paths@)
        &&& policy.build_paths.reported() == text::texts(self.build_paths@)
        &&& policy.generated_paths.expressions() == text::texts(self.generated_paths@)
        &&& policy.generated_paths.reported() == text::texts(self.generated_paths@)
        &&& policy.binary_paths.expressions() == text::texts(self.binary_paths@)
        &&& policy.binary_paths.reported() == text::texts(self.binary_paths@)
        &&& policy.archive_paths.expressions() == text::texts(self.archive_paths@)
        &&& policy.archive_paths.reported() == text::texts(self.archive_paths@)
    }

    /// A compiled policy holds the expressions of this configuration and reports
    /// matches under them.
    pub open spec fn compiles_to(self, policy: CompiledPatternPolicy) -> bool {
        &&& policy.patterns.expressions() == text::texts(self.patterns@)
        &&& policy.patterns.reported() == text::texts(self.patterns@)
        &&& self.paths_compile_to(policy)
    }

    /// Compiles the expressions of every field.
    pub fn compiled(&self) -> (r: Result<CompiledPatternPolicy, AtlasError>)
        ensures
            match self.fault() {
                None => r matches Ok(policy) && self.compiles_to(policy),
                Some(message) => error::refused_as_invalid(r, message),
            },
    {
        let patterns = match compile_field("patterns", &self.patterns) {
            Ok(field) => field,
            Err(problem) => return Err(problem),
        };
        let vendor_paths = match compile_field("vendor_paths", &self.vendor_paths) {
            Ok(field) => field,
            Err(problem) => return Err(problem),
        };
        let build_paths = match compile_field("build_paths", &self.build_paths) {
            Ok(field) => field,
            Err(problem) => return Err(problem),
        };
        let generated_paths = match compile_field("generated_paths", &self.generated_paths) {
            Ok(field) => field,
            Err(problem) => return Err(problem),
        };
        let binary_paths = match compile_field("binary_paths", &self.binary_paths) {
            Ok(field) => field,
            Err(problem) => return Err(problem),
        };
        let archive_paths = match compile_field("archive_paths", &self.archive_paths) {
            Ok(field) => field,
            Err(problem) => return Err(problem),
        };
        Ok(
            CompiledPatternPolicy {
                patterns,
                vendor_paths,
                build_paths,
                generated_paths,
                binary_paths,
                archive_paths,
            },
        )
    }
}

impl CompiledPatternPolicy {
    /// The general exclusion that a path falls under.
    pub fn pattern_match(&self, path: &str) -> (r: Option<&str>)
        ensures
            self.patterns.first_match_is(path@, str_view(r)),
    {
        self.patterns.first_match(path)
    }

    /// The vendored path that a path falls under.
    pub fn vendor_match(&self, path: &str) -> (r: Option<&str>)
        ensures
            self.vendor_paths.first_match_is(path@, str_view(r)),
    {
        self.vendor_paths.first_match(path)
    }

    /// The build output that a path falls under.
    pub fn build_match(&self, path: &str) -> (r: Option<&str>)
        ensures
            self.build_paths.first_match_is(path@, str_view(r)),
    {
        self.build_paths.first_match(path)
    }

    /// The generated path that a path falls under.
    pub fn generated_match(&self, path: &str) -> (r: Option<&str>)
        ensures
            self.generated_paths.first_match_is(path@, str_view(r)),
    {
        self.generated_paths.first_match(path)
    }

    /// The binary path that a path falls under.
    pub fn binary_match(&self, path: &str) -> (r: Option<&str>)
        ensures
            self.binary_paths.first_match_is(path@, str_view(r)),
    {
        self.binary_paths.first_match(path)
    }

    /// The archive path that a path falls under.
    pub fn archive_match(&self, path: &str) -> (r: Option<&str>)
        ensures
            self.archive_paths.first_match_is(path@, str_view(r)),
    {
        self.archive_paths.first_match(path)
    }
}

/// The text of an optional string slice.
pub open spec fn str_view(value: Option<&str>) -> Option<Seq<char>> {
    match value {
        Some(found) => Some(found@),
        None => None,
    }
}

/// A newline name that a policy may hold.
pub open spec fn known_newline(name: Seq<char>) -> bool {
    name == "lf"@ || name == "crlf"@ || name == "cr"@
}

/// What is wrong with the newline names from `from` on, if anything is.
pub open spec fn newline_fault(names: Seq<Seq<char>>, from: int) -> Option<Seq<char>>
    decreases names.len() - from,
{
    if from >= names.len() {
        None
    } else if !known_newline(names[from]) {
        Some(
            "policy.newlines contains unknown value "@ + context_ir::debug_quoted(names[from])
                + "; allowed: lf, crlf, cr"@,
        )
    } else {
        newline_fault(names, from + 1)
    }
}

/// The start of a message about a provider.
pub open spec fn provider_label(name: Seq<char>) -> Seq<char> {
    "providers["@ + context_ir::debug_quoted(name) + "]"@
}

impl ProviderConfigEntry {
    /// What is wrong with a provider taken by itself, if anything is.
    pub open spec fn fault(self) -> Option<Seq<char>> {
        let kind = self.kind@;
        let scope = self.scope@;
        if kind != "builtin"@ && kind != "external_process"@ && kind != "external_scip"@ {
            Some(
                provider_label(self.name@) + ".kind "@ + context_ir::debug_quoted(kind)
                    + " is not a supported provider kind"@,
            )
        } else if kind != "builtin"@ && self.command is None {
            Some(
                provider_label(self.name@) + " is an external provider (kind = "@
                    + context_ir::debug_quoted(kind)
                    + ") and must set an explicit `command` — Atlas never resolves a shell-expanded PATH lookup"@,
            )
        } else if scope != "file"@ && scope != "project"@ && scope != "package"@ && scope
            != "workspace"@ {
            Some(
                provider_label(self.name@) + ".scope "@ + context_ir::debug_quoted(scope)
                    + " is not a supported execution scope"@,
            )
        } else if kind == "external_scip"@ && self.pinned_version() is None {
            Some(
                provider_label(self.name@)
                    + " is an external SCIP provider and must set an explicit `version` pin"@,
            )
        } else if kind == "external_scip"@ && self.languages@.len() == 0 {
            Some(
                provider_label(self.name@)
                    + " is an external SCIP provider and must declare at least one `languages` entry"@,
            )
        } else {
            None
        }
    }
}

/// One of the first `count` providers has the name.
pub open spec fn name_taken(
    providers: Seq<ProviderConfigEntry>,
    count: int,
    name: Seq<char>,
) -> bool {
    exists|i: int| 0 <= i < count && (#[trigger] providers[i]).name@ == name
}

/// What is wrong with the providers from `from` on, if anything is: a name that an
/// earlier one has, or a provider at fault by itself.
pub open spec fn providers_fault(providers: Seq<ProviderConfigEntry>, from: int) -> Option<
    Seq<char>,
>
    decreases providers.len() - from,
{
    if from >= providers.len() {
        None
    } else if name_taken(providers, from, providers[from].name@) {
        Some(
            "duplicate [[providers]] entry for name "@ + context_ir::debug_quoted(
                providers[from].name@,
            ),
        )
    } else if providers[from].fault() is Some {
        providers[from].fault()
    } else {
        providers_fault(providers, from + 1)
    }
}

impl Config {
    /// What is wrong before the exclusion patterns are looked at.
    pub open spec fn head_fault(self) -> Option<Seq<char>> {
        if !supported_schema_version(self.schema_version@) {
            Some(
                "schema_version must be one of [\"1.0.0\", \"1.1.0\"], got "@
                    + context_ir::debug_quoted(self.schema_version@),
            )
        } else if text::blank(self.workspace.display_name@) {
            Some("workspace.display_name must not be empty"@)
        } else {
            newline_fault(text::texts(self.policy.newlines@), 0)
        }
    }

    /// What is wrong after the exclusion patterns have been looked at.
    pub open spec fn tail_fault(self) -> Option<Seq<char>> {
        if self.provider_runtime.allow_shell {
            Some(
                "provider_runtime.allow_shell must be false — Atlas invokes providers directly and never through a shell"@,
            )
        } else {
            providers_fault(self.providers@, 0)
        }
    }

    /// What is wrong with the configuration, if anything is.
    pub open spec fn fault(self) -> Option<Seq<char>> {
        first_of(self.head_fault(), first_of(self.policy.exclude.fault(), self.tail_fault()))
    }
}

fn refusal(message: &str) -> (r: AtlasError)
    ensures
        r matches AtlasError::InvalidConfig(m) && m@ == message@,
{
    AtlasError::InvalidConfig(message.to_string())
}

fn check_newlines(names: &Vec<String>) -> (r: Result<(), AtlasError>)
    ensures
        match newline_fault(text::texts(names@), 0) {
            None => r is Ok,
            Some(message) => error::refused_as_invalid(r, message),
        },
{
    let ghost all = text::texts(names@);
    for i in 0..names.len()
        invariant
            all == text::texts(names@),
            newline_fault(all, 0) == newline_fault(all, i as int),
    {
        let name = names[i].as_str();
        assert(all[i as int] == name@);
        if !text_eq(name, "lf") && !text_eq(name, "crlf") && !text_eq(name, "cr") {
            let mut message = join2(
                "policy.newlines contains unknown value ",
                debug_text(name).as_str(),
            );
            message.append("; allowed: lf, crlf, cr");
            return Err(AtlasError::InvalidConfig(message));
        }
    }
    Ok(())
}

fn label_text(name: &str) -> (r: String)
    ensures
        r@ == provider_label(name@),
{
    let mut out = join2("providers[", debug_text(name).as_str());
    out.append("]");
    out
}

impl ProviderConfigEntry {
    fn check(&self) -> (r: Result<(), AtlasError>)
        ensures
            match self.fault() {
                None => r is Ok,
                Some(message) => error::refused_as_invalid(r, message),
            },
    {
        let kind = self.kind.as_str();
        let scope = self.scope.as_str();
        let builtin = text_eq(kind, "builtin");
        let scip = text_eq(kind, "external_scip");
        let mut message = label_text(self.name.as_str());
        if !builtin && !text_eq(kind, "external_process") && !scip {
            message.append(".kind ");
            message.append(debug_text(kind).as_str());
            message.append(" is not a supported provider kind");
            return Err(AtlasError::InvalidConfig(message));
        }
        if !builtin && self.command.is_none() {
            message.append(" is an external provider (kind = ");
            message.append(debug_text(kind).as_str());
            message.append(
                ") and must set an explicit `command` — Atlas never resolves a shell-expanded PATH lookup",
            );
            return Err(AtlasError::InvalidConfig(message));
        }
        if !text_eq(scope, "file") && !text_eq(scope, "project") && !text_eq(scope, "package")
            && !text_eq(scope, "workspace") {
            message.append(".scope ");
            message.append(debug_text(scope).as_str());
            message.append(" is not a supported execution scope");
            return Err(AtlasError::InvalidConfig(message));
        }
        if scip && self.resolved_version().is_none() {
            message.append(
                " is an external SCIP provider and must set an explicit `version` pin",
            );
            return Err(AtlasError::InvalidConfig(message));
        }
        if scip && self.languages.len() == 0 {
            message.append(
                " is an external SCIP provider and must declare at least one `languages` entry",
            );
            return Err(AtlasError::InvalidConfig(message));
        }
        Ok(())
    }
}

fn check_providers(providers: &Vec<ProviderConfigEntry>) -> (r: Result<(), AtlasError>)
    ensures
        match providers_fault(providers@, 0) {
            None => r is Ok,
            Some(message) => error::refused_as_invalid(r, message),
        },
{
    for i in 0..providers.len()
        invariant
            providers_fault(providers@, 0) == providers_fault(providers@, i as int),
    {
        for j in 0..i
            invariant
                i < providers@.len(),
                providers_fault(providers@, 0) == providers_fault(providers@, i as int),
                forall|k: int|
                    0 <= k < j ==> (#[trigger] providers@[k]).name@ != providers@[i as int].name@,
        {
            if text_eq(providers[j].name.as_str(), providers[i].name.as_str()) {
                assert(name_taken(providers@, i as int, providers@[i as int].name@));
                return Err(
                    AtlasError::InvalidConfig(
                        join2(
                            "duplicate [[providers]] entry for name ",
                            debug_text(providers[i].name.as_str()).as_str(),
                        ),
                    ),
                );
            }
        }
        assert(!name_taken(providers@, i as int, providers@[i as int].name@));
        match providers[i].check() {
            Ok(()) => {},
            Err(problem) => return Err(problem),
        }
    }
    Ok(())
}

impl Config {
    fn check_head(&self) -> (r: Result<(), AtlasError>)
        ensures
            match self.head_fault() {
                None => r is Ok,
                Some(message) => error::refused_as_invalid(r, message),
            },
    {
        if !text_eq(self.schema_version.as_str(), FIRST_SCHEMA_VERSION) && !text_eq(
            self.schema_version.as_str(),
            SCHEMA_VERSION,
        ) {
            return Err(
                AtlasError::InvalidConfig(
                    join2(
                        "schema_version must be one of [\"1.0.0\", \"1.1.0\"], got ",
                        debug_text(self.schema_version.as_str()).as_str(),
                    ),
                ),
            );
        }
        if is_blank(self.workspace.display_name.as_str()) {
            return Err(refusal("workspace.display_name must not be empty"));
        }
        check_newlines(&self.policy.newlines)
    }

    fn check_tail(&self) -> (r: Result<(), AtlasError>)
        ensures
            match self.tail_fault() {
                None => r is Ok,
                Some(message) => error::refused_as_invalid(r, message),
            },
    {
        if self.provider_runtime.allow_shell {
            return Err(
                refusal(
                    "provider_runtime.allow_shell must be false — Atlas invokes providers directly and never through a shell",
                ),
            );
        }
        check_providers(&self.providers)
    }

    /// Checks the configuration and compiles its exclusion policy.
    pub fn validated_policy(&self) -> (r: Result<CompiledPatternPolicy, AtlasError>)
        ensures
            match self.fault() {
                None => r matches Ok(policy) && self.policy.exclude.compiles_to(policy),
                Some(message) => error::refused_as_invalid(r, message),
            },
    {
        match self.check_head() {
            Ok(()) => {},
            Err(problem) => return Err(problem),
        }
        let policy = match self.policy.exclude.compiled() {
            Ok(policy) => policy,
            Err(problem) => return Err(problem),
        };
        match self.check_tail() {
            Ok(()) => Ok(policy),
            Err(problem) => Err(problem),
        }
    }

    /// Checks the configuration.
    pub fn validate(&self) -> (r: Result<(), AtlasError>)
        ensures
            match self.fault() {
                None => r is Ok,
                Some(message) => error::refused_as_invalid(r, message),
            },
    {
        match self.validated_policy() {
            Ok(_) => Ok(()),
            Err(problem) => Err(problem),
        }
    }

    /// The digest of the complete configuration, written as JSON.
    pub fn configuration_hash(&self) -> (r: String)
        ensures
            r@ == digest::content_hash(digest::text_field(json_tree::tree_text(self.tree()))),
            text::hex64(r@),
    {
        hash_of_text(value_text(&self.to_json()).as_str())
    }
}

/// The basename globs that one registered policy held before exclusions were
/// regular expressions.
pub open spec fn historical_globs() -> Seq<Seq<char>> {
    seq![".env"@, "*.pem"@, "*.key"@]
}

/// The regular expressions that those globs stand for.
pub open spec fn historical_expressions() -> Seq<Seq<char>> {
    seq!["(^|/)\\.env$"@, "(^|/)[^/]*\\.pem$"@, "(^|/)[^/]*\\.key$"@]
}

impl Config {
    /// What is wrong with a configuration whose exclusions are the historical
    /// globs, each read as its regular expression.
    pub open spec fn historical_fault(self) -> Option<Seq<char>> {
        if text::texts(self.policy.exclude.patterns@) != historical_globs() {
            Some(
                "configuration_mismatch: registered configuration does not match the bounded pre-regex pattern contract"@,
            )
        } else {
            first_of(
                self.head_fault(),
                first_of(
                    first_of(
                        field_fault("patterns"@, historical_expressions()),
                        self.policy.exclude.path_fault(),
                    ),
                    self.tail_fault(),
                ),
            )
        }
    }

    /// Checks the one registered policy whose exclusions were basename globs. No
    /// other glob is accepted and the configuration itself stays as it is: the
    /// policy that comes back matches by the regular expressions and reports the
    /// globs.
    pub fn validate_historical_registered_globs(&self) -> (r: Result<
        CompiledPatternPolicy,
        AtlasError,
    >)
        ensures
            match self.historical_fault() {
                None => r matches Ok(policy) && policy.patterns.expressions()
                    == historical_expressions() && policy.patterns.reported() == historical_globs()
                    && self.policy.exclude.paths_compile_to(policy),
                Some(message) => error::refused_as_invalid(r, message),
            },
    {
        let exclude = &self.policy.exclude;
        let globs_match = exclude.patterns.len() == 3 && text_eq(
            exclude.patterns[0].as_str(),
            ".env",
        ) && text_eq(exclude.patterns[1].as_str(), "*.pem") && text_eq(
            exclude.patterns[2].as_str(),
            "*.key",
        );
        proof {
            let given = text::texts(exclude.patterns@);
            if globs_match {
                assert(given =~= historical_globs());
            } else if given == historical_globs() {
                assert(given.len() == 3);
                assert(given[0] == exclude.patterns@[0]@ && given[0] == ".env"@);
                assert(given[1] == exclude.patterns@[1]@ && given[1] == "*.pem"@);
                assert(given[2] == exclude.patterns@[2]@ && given[2] == "*.key"@);
            }
        }
        if !globs_match {
            return Err(
                refusal(
                    "configuration_mismatch: registered configuration does not match the bounded pre-regex pattern contract",
                ),
            );
        }
        match self.check_head() {
            Ok(()) => {},
            Err(problem) => return Err(problem),
        }
        let mut expressions: Vec<String> = Vec::new();
        expressions.push("(^|/)\\.env$".to_string());
        expressions.push("(^|/)[^/]*\\.pem$".to_string());
        expressions.push("(^|/)[^/]*\\.key$".to_string());
        assert(text::texts(expressions@) =~= historical_expressions());
        let read_as = ExcludeConfig {
            patterns: expressions,
            vendor_paths: clone_texts(&exclude.vendor_paths),
            build_paths: clone_texts(&exclude.build_paths),
            generated_paths: clone_texts(&exclude.generated_paths),
            binary_paths: clone_texts(&exclude.binary_paths),
            archive_paths: clone_texts(&exclude.archive_paths),
        };
        let policy = match read_as.compiled() {
            Ok(policy) => policy,
            Err(problem) => return Err(problem),
        };
        match self.check_tail() {
            Ok(()) => {},
            Err(problem) => return Err(problem),
        }
        let patterns = policy.patterns.reported_as(clone_texts(&exclude.patterns));
        Ok(
            CompiledPatternPolicy {
                patterns,
                vendor_paths: policy.vendor_paths,
                build_paths: policy.build_paths,
                generated_paths: policy.generated_paths,
                binary_paths: policy.binary_paths,
                archive_paths: policy.archive_paths,
            },
        )
    }
}

} // verus!
