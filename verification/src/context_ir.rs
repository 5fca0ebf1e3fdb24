//! Context Intelligence document contracts.
//!
//! These are pure document types: persistence and compilation remain in their
//! owning modules, and a migrated catalogue remains usable with zero rows in the
//! Context Intelligence tables. A document's hash is taken over the canonical JSON
//! of its identity.
use vstd::prelude::*;

use crate::error;
use crate::error::AtlasError;
use crate::json_tree;
use crate::json_tree::canonical_hash;
use crate::text;

pub use crate::deep_context_ir::{
    deep_context_payload, read_context_ir_v1, read_context_ir_v2_compatible,
    read_deep_context_ir_v2, uncertainty_reserve_records, write_deep_context_ir_v2,
    ContextIrDocument, ContextIrVersion, DeepContextIrV2, IrCostV2, IrCoverageV2, IrEvidenceLeaseV2,
    IrItemCostV2, IrLeaseDependencyKindV2, IrLeaseDependencyV2, IrNoticeV2, IrOmissionReasonV2,
    IrOmissionsV2, IrPathConfinementV2, IrPolicyV2, IrRequirementStateV2, IrRoleSufficiencyV2,
    IrSemanticBudgetV2, IrSourceRefV2, IrSourceVerificationV2, IrStatusV2, IrTaskV2,
    IrTemporalConstraintsV2, IrTemporalStateV2, IrValidationReasonV2, IrValidationV2,
    IrWorkingSetItemV2, IrWorkspaceV2, OmissionCounts, RoleRecipe,
};

verus! {

/// Contract schema version pinned by every Context Intelligence JSON document's
/// `schema_version` field.
pub const CONTEXT_SCHEMA_VERSION: &'static str = "1.0.0";

/// Internal deep-only Context IR successor. This is not the schema used by the
/// existing explicit CLI or MCP operations.
pub const CONTEXT_SCHEMA_V2_VERSION: &'static str = "2.0.0";

#[derive(Debug, Clone, Copy, PartialEq, Eq, PartialOrd, Ord, Hash, Structural)]
pub enum TaskKind {
    Explore,
    BugFix,
    BehaviorChange,
    ApiChange,
    Refactor,
    ConfigurationChange,
    TestChange,
    Review,
    Audit,
    Unknown,
}

impl TaskKind {
    pub open spec fn spec_ascii(self) -> Seq<char> {
        match self {
            TaskKind::Explore => "explore"@,
            TaskKind::BugFix => "bug_fix"@,
            TaskKind::BehaviorChange => "behavior_change"@,
            TaskKind::ApiChange => "api_change"@,
            TaskKind::Refactor => "refactor"@,
            TaskKind::ConfigurationChange => "configuration_change"@,
            TaskKind::TestChange => "test_change"@,
            TaskKind::Review => "review"@,
            TaskKind::Audit => "audit"@,
            TaskKind::Unknown => "unknown"@,
        }
    }
}

#[derive(Debug, Clone, Copy, PartialEq, Eq, Structural)]
pub enum TaskKindSource {
    Declared,
    DeterministicRule,
    Unknown,
}

/// Raw task text is never retained unless the operator explicitly opts in per
/// session.
#[derive(Debug, Clone, Copy, PartialEq, Eq, Structural)]
pub enum RawTaskRetention {
    NotRetained,
    HashOnly,
    LocalOptIn,
}

impl Default for RawTaskRetention {
    /// Privacy default: never retain raw task text unless explicitly opted in.
    fn default() -> (r: Self)
        ensures
            r == RawTaskRetention::NotRetained,
    {
        RawTaskRetention::NotRetained
    }
}

#[derive(Debug, Clone, Copy, PartialEq, Eq, Structural)]
pub enum TaskSessionState {
    Created,
    ContextCompiled,
    Active,
    Reconciled,
    Completed,
    Abandoned,
    Failed,
}

#[derive(Debug, Clone, Copy, PartialEq, Eq, Structural)]
pub enum WorkingSetStatus {
    Complete,
    Partial,
    Blocked,
}

#[derive(Debug, Clone, Copy, PartialEq, Eq, Structural)]
pub enum EntityKind {
    File,
    Symbol,
    Config,
    Test,
    Document,
    External,
}

#[derive(Debug, Clone, Copy, PartialEq, Eq, Structural)]
pub enum ItemRole {
    PrimaryImplementation,
    DirectDependency,
    DirectDependent,
    TypeContract,
    TestContract,
    ConfigurationInput,
    Effect,
    HistoricalConstraint,
    Uncertainty,
    ValidationTarget,
    Documentation,
}

#[derive(Debug, Clone, Copy, PartialEq, Eq, Structural)]
pub enum SelectionReason {
    ExplicitSeed,
    ExactSymbolMatch,
    ExactPathMatch,
    DirectCaller,
    DirectCallee,
    ImportNeighbor,
    ImplementationRelation,
    TestRelation,
    ConfigRelation,
    EffectRelation,
    ConflictRelevance,
    UnresolvedRelevance,
    GenerationDeltaRelevance,
    TaskRecipeRequirement,
}

/// Broader evidence-quality vocabulary than `ResolutionStatus`; one closed set
/// covers both symbol and relationship evidence from `verified` through
/// `excluded`.
#[derive(Debug, Clone, Copy, PartialEq, Eq, Structural)]
pub enum EvidenceQuality {
    Verified,
    Supported,
    Inferred,
    Resolved,
    Ambiguous,
    Unresolved,
    External,
    Stale,
    Conflicting,
    Partial,
    Unsupported,
    Excluded,
}

/// How far the resolver got with a relationship.
#[derive(Debug, Clone, Copy, PartialEq, Eq, Structural)]
pub enum ResolutionStatus {
    ResolvedSymbol,
    ResolvedFile,
    External,
    Ambiguous,
    Unresolved,
    Invalid,
    Stale,
}

#[derive(Debug, Clone, Copy, PartialEq, Eq, Structural)]
pub enum SourceVerificationStatus {
    NotRequested,
    Verified,
    HashMismatch,
    ReadFailed,
    Excluded,
}

#[derive(Debug, Clone, Copy, PartialEq, Eq, Structural)]
pub enum NoticeSeverity {
    Info,
    Warning,
    Error,
}

#[derive(Debug, Clone, Copy, PartialEq, Eq, Structural)]
pub enum ClaimStrength {
    NoClaim,
    Bounded,
    ExhaustiveWithinScope,
}

#[derive(Debug, Clone, Copy, PartialEq, Eq, Structural)]
pub enum ValidationKind {
    Test,
    Build,
    Lint,
    SourceVerify,
    ManualReview,
    Other,
}

#[derive(Debug, Clone, Copy, PartialEq, Eq, Structural)]
pub enum EffectPhase {
    Direct,
    Transitive,
    Declared,
    Observed,
}

/// Change kinds emitted as explicit `DeltaChange` rows. Database-only `unchanged`
/// and `uncertain` bulk-scan states are represented by
/// `GenerationDelta.unchanged_verified_contracts` and `.uncertainty` instead.
#[derive(Debug, Clone, Copy, PartialEq, Eq, Structural)]
pub enum ChangeKind {
    Added,
    Removed,
    Modified,
    Renamed,
    Retargeted,
    StateChanged,
}

#[derive(Debug, Clone, Copy, PartialEq, Eq, Structural)]
pub enum DeltaEvidenceState {
    Verified,
    Supported,
    Inferred,
    Uncertain,
}

#[derive(Debug, Clone, Copy, PartialEq, Eq, Structural)]
pub enum ContextUseEventType {
    ContextSupplied,
    ExactSourceRequested,
    EntityQueried,
    RelationshipTraversed,
    ContextRecompiled,
    ArtifactChanged,
    ValidationSelected,
    ReasoningUseReported,
    ModificationTargetReported,
    TestConsideredReported,
    OutcomeRecorded,
}

#[derive(Debug, Clone, Copy, PartialEq, Eq, Structural)]
pub enum ObservationSource {
    AtlasObserved,
    AgentReported,
    OperatorReported,
}

#[derive(Debug, Clone, Copy, PartialEq, Eq, Structural)]
pub enum CoverageState {
    Complete,
    Partial,
    Unsupported,
    Failed,
}

impl CoverageState {
    pub open spec fn spec_str(self) -> Seq<char> {
        match self {
            CoverageState::Complete => "complete"@,
            CoverageState::Partial => "partial"@,
            CoverageState::Unsupported => "unsupported"@,
            CoverageState::Failed => "failed"@,
        }
    }

    /// The wire name.
    pub fn as_str(&self) -> (r: &'static str)
        ensures
            r@ == self.spec_str(),
    {
        match self {
            CoverageState::Complete => "complete",
            CoverageState::Partial => "partial",
            CoverageState::Unsupported => "unsupported",
            CoverageState::Failed => "failed",
        }
    }
}

#[derive(Debug, Clone, PartialEq, Eq)]
pub struct TaskSession {
    pub schema_version: String,
    pub task_session_id: String,
    pub workspace_id: String,
    pub start_generation_id: String,
    pub end_generation_id: Option<String>,
    pub task_hash: String,
    pub normalized_goal_hash: String,
    pub raw_task_retention: RawTaskRetention,
    pub raw_task: Option<String>,
    pub task_kind: TaskKind,
    pub state: TaskSessionState,
    pub created_at: String,
    pub completed_at: Option<String>,
    pub planner_policy_version: String,
    pub context_ir_version: String,
    pub accepted: Option<bool>,
    pub tests_passed: Option<bool>,
    pub outcome_code: Option<String>,
    pub start_tree_hash: Option<String>,
    pub end_tree_hash: Option<String>,
}

/// A text in quotes with its special characters escaped, as `Debug` shows it.
pub uninterp spec fn debug_quoted(s: Seq<char>) -> Seq<char>;

/// Formats a string with `{:?}`. The result depends on the string alone.
#[verifier::external_body]
pub(crate) fn debug_text(s: &str) -> (r: String)
    ensures
        r@ == debug_quoted(s@),
{
    format!("{:?}", s)
}

/// The refusal of a field that is not a digest.
pub open spec fn digest_complaint(field: Seq<char>, value: Seq<char>) -> Seq<char> {
    field + " must be 64 lowercase hex characters, got "@ + debug_quoted(value)
}

fn refuse_digest(field: &str, value: &str) -> (r: AtlasError)
    ensures
        r matches AtlasError::InvalidConfig(m) && m@ == digest_complaint(field@, value@),
{
    let mut message = field.to_string();
    message.append(" must be 64 lowercase hex characters, got ");
    let quoted = debug_text(value);
    message.append(quoted.as_str());
    AtlasError::InvalidConfig(message)
}

impl TaskSession {
    /// Raw task text is present only where the operator opted in.
    pub open spec fn privacy_kept(self) -> bool {
        self.raw_task is Some ==> self.raw_task_retention == RawTaskRetention::LocalOptIn
    }

    /// What is wrong with the session, if anything.
    pub open spec fn fault(self) -> Option<Seq<char>> {
        if !self.privacy_kept() {
            Some("raw_task must be null unless raw_task_retention = local_opt_in"@)
        } else if !text::hex64(self.task_hash@) {
            Some(digest_complaint("task_hash"@, self.task_hash@))
        } else if !text::hex64(self.normalized_goal_hash@) {
            Some(digest_complaint("normalized_goal_hash"@, self.normalized_goal_hash@))
        } else {
            None
        }
    }

    /// Enforces the privacy invariant: raw task text may only be present when the
    /// operator explicitly opted in for this session. Also rejects a malformed
    /// `task_hash`/`normalized_goal_hash` (must be 64 lowercase hex chars, matching
    /// every other content hash in the catalogue).
    pub fn validate(&self) -> (r: Result<(), AtlasError>)
        ensures
            r is Ok <==> self.fault() is None,
            r is Err ==> error::refused_as_invalid(r, self.fault()->0),
    {
        if self.raw_task_retention != RawTaskRetention::LocalOptIn && self.raw_task.is_some() {
            return Err(
                AtlasError::InvalidConfig(
                    "raw_task must be null unless raw_task_retention = local_opt_in".to_string(),
                ),
            );
        }
        if !is_hex64(self.task_hash.as_str()) {
            return Err(refuse_digest("task_hash", self.task_hash.as_str()));
        }
        if !is_hex64(self.normalized_goal_hash.as_str()) {
            return Err(refuse_digest("normalized_goal_hash", self.normalized_goal_hash.as_str()));
        }
        Ok(())
    }
}

/// A validated session never carries raw task text without an explicit opt-in.
pub proof fn law_raw_task_needs_opt_in(session: TaskSession)
    requires
        session.fault() is None,
        session.raw_task is Some,
    ensures
        session.raw_task_retention == RawTaskRetention::LocalOptIn,
{
}

/// Whether the text is 64 lower-case hexadecimal digits.
pub fn is_hex64(s: &str) -> (r: bool)
    ensures
        r == text::hex64(s@),
{
    text::is_hex64_text(s)
}

#[derive(Debug, Clone, Copy, PartialEq, Eq, Structural)]
pub struct SymbolRange {
    pub start_byte: i64,
    pub end_byte: i64,
    pub start_line: i64,
    pub end_line: i64,
}

/// A confidence: the bits of its double-precision value, by which it is judged, and
/// the numeral that it is written with. Whoever parses a document makes both of the one
/// number in it.
#[derive(Debug, Clone, PartialEq, Eq)]
pub struct Confidence {
    pub bits: u64,
    pub numeral: String,
}

/// The evidence behind a symbol.
#[derive(Debug, Clone, PartialEq, Eq)]
pub struct PreferredEvidenceSummary {
    pub fact_id: String,
    pub provider_tier: String,
    pub confidence: Confidence,
    pub state: String,
}

#[derive(Debug, Clone, Copy, PartialEq, Eq, Structural)]
pub struct SymbolCounts {
    pub callers: i64,
    pub callees: i64,
    pub references: i64,
    pub tests: i64,
    pub configs: i64,
    pub effects: i64,
    pub conflicts: i64,
    pub unresolved: i64,
}

#[derive(Debug, Clone, Copy, PartialEq, Eq, Structural)]
pub struct SymbolCost {
    pub source_bytes: i64,
    pub estimated_tokens: i64,
    pub metadata_bytes: i64,
}

#[derive(Debug, Clone, PartialEq, Eq)]
pub struct SymbolCard {
    pub schema_version: String,
    pub serving_generation_id: String,
    pub workspace_id: String,
    pub generation_id: String,
    pub canonical_symbol_key: String,
    pub path: String,
    pub range: SymbolRange,
    pub kind: String,
    pub language: Option<String>,
    pub signature: Option<String>,
    pub preferred_evidence: PreferredEvidenceSummary,
    pub counts: SymbolCounts,
    pub coverage_state: CoverageState,
    pub cost: SymbolCost,
    /// The content hash of the canonical JSON of everything above.
    pub card_hash: String,
}

impl SymbolCard {
    /// Build a card and stamp its deterministic `card_hash`: the content hash of
    /// the canonical JSON of the other fields.
    pub fn seal(
        serving_generation_id: String,
        workspace_id: String,
        generation_id: String,
        canonical_symbol_key: String,
        path: String,
        range: SymbolRange,
        kind: String,
        language: Option<String>,
        signature: Option<String>,
        preferred_evidence: PreferredEvidenceSummary,
        counts: SymbolCounts,
        coverage_state: CoverageState,
        cost: SymbolCost,
    ) -> (r: Self)
        ensures
            r.schema_version@ == CONTEXT_SCHEMA_VERSION@,
            r.serving_generation_id == serving_generation_id,
            r.workspace_id == workspace_id,
            r.generation_id == generation_id,
            r.canonical_symbol_key == canonical_symbol_key,
            r.path == path,
            r.range == range,
            r.kind == kind,
            r.language == language,
            r.signature == signature,
            r.preferred_evidence == preferred_evidence,
            r.counts == counts,
            r.coverage_state == coverage_state,
            r.cost == cost,
            r.card_hash@ == json_tree::canonical_digest(r.identity_tree()),
            text::hex64(r.card_hash@),
    {
        let mut card = SymbolCard {
            schema_version: CONTEXT_SCHEMA_VERSION.to_string(),
            serving_generation_id,
            workspace_id,
            generation_id,
            canonical_symbol_key,
            path,
            range,
            kind,
            language,
            signature,
            preferred_evidence,
            counts,
            coverage_state,
            cost,
            card_hash: String::new(),
        };
        let hash = canonical_hash(&card.identity_json());
        card.card_hash = hash;
        card
    }
}

/// One observed or reported use of context. `details_json` is the canonical text
/// of a JSON value.
#[derive(Debug, Clone, PartialEq, Eq)]
pub struct ContextUseEvent {
    pub schema_version: String,
    pub event_id: String,
    pub task_session_id: String,
    pub context_id: Option<String>,
    pub item_id: Option<String>,
    pub entity_id: Option<String>,
    pub event_type: ContextUseEventType,
    pub observation_source: ObservationSource,
    pub occurred_at: String,
    pub bytes: Option<i64>,
    pub details_json: String,
}

#[derive(Debug, Clone, PartialEq, Eq)]
pub struct DeltaChange {
    pub entity_id: String,
    pub change_kind: ChangeKind,
    pub evidence_state: DeltaEvidenceState,
    pub before_id: Option<String>,
    pub after_id: Option<String>,
    pub reason_codes: Vec<String>,
}

#[derive(Debug, Clone, PartialEq, Eq)]
pub struct DeltaChangeSet {
    pub changes: Vec<DeltaChange>,
    pub omitted_count: i64,
}

impl DeltaChangeSet {
    /// No change, nothing omitted.
    pub fn empty() -> (r: Self)
        ensures
            r.changes@.len() == 0,
            r.omitted_count == 0,
    {
        DeltaChangeSet { changes: Vec::new(), omitted_count: 0 }
    }
}

/// A claim that a contract did not change, with its evidence.
#[derive(Debug, Clone, PartialEq, Eq)]
pub struct UnchangedContract {
    pub entity_id: String,
    pub claim_scope: String,
    pub evidence: Vec<String>,
}

#[derive(Debug, Clone, PartialEq, Eq)]
pub struct GenerationDelta {
    pub schema_version: String,
    pub delta_id: String,
    pub workspace_id: String,
    pub from_generation_id: String,
    pub to_generation_id: String,
    pub delta_policy_version: String,
    pub files: DeltaChangeSet,
    pub symbols: DeltaChangeSet,
    pub relationships: DeltaChangeSet,
    pub effects: DeltaChangeSet,
    pub coverage: DeltaChangeSet,
    pub conflicts: DeltaChangeSet,
    pub unchanged_verified_contracts: Vec<UnchangedContract>,
    pub uncertainty: Vec<String>,
    pub delta_hash: String,
}

impl GenerationDelta {
    /// `from_generation_id` and `to_generation_id` must differ: an invalid delta is
    /// never even constructed. The hash is that of the canonical JSON of the other
    /// fields.
    pub fn seal(
        delta_id: String,
        workspace_id: String,
        from_generation_id: String,
        to_generation_id: String,
        delta_policy_version: String,
        files: DeltaChangeSet,
        symbols: DeltaChangeSet,
        relationships: DeltaChangeSet,
        effects: DeltaChangeSet,
        coverage: DeltaChangeSet,
        conflicts: DeltaChangeSet,
        unchanged_verified_contracts: Vec<UnchangedContract>,
        uncertainty: Vec<String>,
    ) -> (r: Result<Self, AtlasError>)
        ensures
            r is Ok <==> from_generation_id@ != to_generation_id@,
            r is Err ==> error::refused_as_invalid(
                r,
                "GenerationDelta.from_generation_id must differ from to_generation_id"@,
            ),
            r matches Ok(delta) ==> {
                &&& delta.schema_version@ == CONTEXT_SCHEMA_VERSION@
                &&& delta.delta_id == delta_id
                &&& delta.workspace_id == workspace_id
                &&& delta.from_generation_id == from_generation_id
                &&& delta.to_generation_id == to_generation_id
                &&& delta.delta_policy_version == delta_policy_version
                &&& delta.files == files
                &&& delta.symbols == symbols
                &&& delta.relationships == relationships
                &&& delta.effects == effects
                &&& delta.coverage == coverage
                &&& delta.conflicts == conflicts
                &&& delta.unchanged_verified_contracts == unchanged_verified_contracts
                &&& delta.uncertainty == uncertainty
                &&& delta.delta_hash@ == json_tree::canonical_digest(delta.identity_tree())
                &&& text::hex64(delta.delta_hash@)
            },
    {
        if text::text_eq(from_generation_id.as_str(), to_generation_id.as_str()) {
            return Err(
                AtlasError::InvalidConfig(
                    "GenerationDelta.from_generation_id must differ from to_generation_id".to_string(),
                ),
            );
        }
        let mut delta = GenerationDelta {
            schema_version: CONTEXT_SCHEMA_VERSION.to_string(),
            delta_id,
            workspace_id,
            from_generation_id,
            to_generation_id,
            delta_policy_version,
            files,
            symbols,
            relationships,
            effects,
            coverage,
            conflicts,
            unchanged_verified_contracts,
            uncertainty,
            delta_hash: String::new(),
        };
        let hash = canonical_hash(&delta.identity_json());
        delta.delta_hash = hash;
        Ok(delta)
    }
}

#[derive(Debug, Clone, PartialEq, Eq)]
pub struct IrWorkspace {
    pub workspace_id: String,
    pub generation_id: String,
    pub generation_sequence: i64,
    pub source_tree_hash: Option<String>,
    pub configuration_hash: String,
    pub provider_set_hash: String,
    pub serving_generation_id: Option<String>,
}

#[derive(Debug, Clone, PartialEq, Eq)]
pub struct IrTask {
    pub task_session_id: String,
    pub task_hash: String,
    pub normalized_goal_hash: String,
    pub task_kind: TaskKind,
    pub kind_source: TaskKindSource,
    pub kind_rule_id: Option<String>,
    pub seed_paths: Vec<String>,
    pub seed_symbols: Vec<String>,
}

#[derive(Debug, Clone, PartialEq, Eq)]
pub struct IrPolicy {
    pub planner_policy_version: String,
    pub projection_policy_version: String,
    pub budget_profile: String,
    /// Context IR compilation is never non-deterministic; the field exists so a
    /// consumer can distinguish this from a future non-deterministic mode without
    /// guessing.
    pub deterministic: bool,
}

impl IrPolicy {
    /// A policy: always deterministic.
    pub fn new(
        planner_policy_version: String,
        projection_policy_version: String,
        budget_profile: String,
    ) -> (r: Self)
        ensures
            r.planner_policy_version == planner_policy_version,
            r.projection_policy_version == projection_policy_version,
            r.budget_profile == budget_profile,
            r.deterministic,
    {
        IrPolicy {
            planner_policy_version,
            projection_policy_version,
            budget_profile,
            deterministic: true,
        }
    }
}

#[derive(Debug, Clone, PartialEq, Eq)]
pub struct IrStatus {
    pub working_set_status: WorkingSetStatus,
    pub reasons: Vec<String>,
    pub serving_fallback: bool,
}

/// Evidence behind an item, a relationship or an effect.
#[derive(Debug, Clone, PartialEq, Eq)]
pub struct IrEvidence {
    pub state: EvidenceQuality,
    pub confidence: Confidence,
    pub provider_fingerprint: Option<String>,
    pub source_revision_hash: Option<String>,
    pub generation_id: String,
    pub preferred: Option<bool>,
    pub alternative_count: Option<i64>,
}

#[derive(Debug, Clone, Copy, PartialEq, Eq, Structural)]
pub struct IrItemCost {
    pub metadata_bytes: i64,
    pub source_bytes: i64,
    pub estimated_tokens: i64,
}

#[derive(Debug, Clone, PartialEq, Eq)]
pub struct IrSourceRef {
    pub path: String,
    pub start_byte: i64,
    pub end_byte: i64,
    pub indexed_hash: String,
    pub observed_hash: Option<String>,
    pub verification_status: SourceVerificationStatus,
}

#[derive(Debug, Clone, PartialEq, Eq)]
pub struct IrWorkingSetItem {
    pub item_id: String,
    pub entity_kind: EntityKind,
    pub entity_id: String,
    pub role: ItemRole,
    pub selection_reason: SelectionReason,
    pub origin_id: Option<String>,
    pub distance: i64,
    pub rank: i64,
    pub evidence: IrEvidence,
    pub cost: IrItemCost,
    pub source: Option<IrSourceRef>,
}

/// The resolution state is the resolver's own: one vocabulary, not two.
#[derive(Debug, Clone, PartialEq, Eq)]
pub struct IrRelationship {
    pub relationship_id: String,
    pub source_entity_id: String,
    pub target_entity_id: String,
    pub relationship_type: String,
    pub resolution_state: ResolutionStatus,
    pub evidence: IrEvidence,
}

#[derive(Debug, Clone, PartialEq, Eq)]
pub struct IrEffect {
    pub subject_entity_id: String,
    pub effect_type: String,
    pub phase: EffectPhase,
    pub evidence: IrEvidence,
}

#[derive(Debug, Clone, PartialEq, Eq)]
pub struct IrNotice {
    pub code: String,
    pub severity: NoticeSeverity,
    pub message: String,
    pub entity_ids: Vec<String>,
}

#[derive(Debug, Clone, PartialEq, Eq)]
pub struct IrCoverage {
    pub eligible: i64,
    pub complete: i64,
    pub partial: i64,
    pub unsupported: i64,
    pub excluded: i64,
    pub failed: i64,
    pub claim_strength: ClaimStrength,
    pub details: Vec<String>,
}

/// What was left out. `by_reason` lists each reason once, in increasing order.
#[derive(Debug, Clone, PartialEq, Eq)]
pub struct IrOmissions {
    pub candidates_considered: i64,
    pub selected: i64,
    pub omitted: i64,
    pub truncated: bool,
    pub by_reason: Vec<(String, i64)>,
}

#[derive(Debug, Clone, PartialEq, Eq)]
pub struct IrValidation {
    pub kind: ValidationKind,
    pub target: String,
    pub reason: String,
    pub required: bool,
}

#[derive(Debug, Clone, Copy, PartialEq, Eq, Structural)]
pub struct IrCost {
    pub max_records: i64,
    pub selected_records: i64,
    pub max_source_bytes: i64,
    pub selected_source_bytes: i64,
    pub max_estimated_tokens: i64,
    pub selected_estimated_tokens: i64,
    pub soft_latency_ms: i64,
    pub hard_latency_ms: i64,
    pub elapsed_ms: i64,
}

#[derive(Debug, Clone, PartialEq, Eq)]
pub struct ContextIr {
    pub schema_version: String,
    pub context_id: String,
    pub workspace: IrWorkspace,
    pub task: IrTask,
    pub policy: IrPolicy,
    pub status: IrStatus,
    pub working_set: Vec<IrWorkingSetItem>,
    pub relationships: Vec<IrRelationship>,
    pub effects: Vec<IrEffect>,
    pub uncertainty: Vec<IrNotice>,
    pub coverage: IrCoverage,
    pub omissions: IrOmissions,
    pub validation_plan: Vec<IrValidation>,
    pub cost: IrCost,
    /// The content hash of the canonical JSON of everything above.
    pub context_hash: String,
}

impl ContextIr {
    /// Build a Context IR document and stamp its deterministic `context_hash`: the
    /// content hash of the canonical JSON of the other fields. Two compilations
    /// against the same generation with the same request produce a byte-identical
    /// hash.
    pub fn seal(
        context_id: String,
        workspace: IrWorkspace,
        task: IrTask,
        policy: IrPolicy,
        status: IrStatus,
        working_set: Vec<IrWorkingSetItem>,
        relationships: Vec<IrRelationship>,
        effects: Vec<IrEffect>,
        uncertainty: Vec<IrNotice>,
        coverage: IrCoverage,
        omissions: IrOmissions,
        validation_plan: Vec<IrValidation>,
        cost: IrCost,
    ) -> (r: Self)
        ensures
            r.schema_version@ == CONTEXT_SCHEMA_VERSION@,
            r.context_id == context_id,
            r.workspace == workspace,
            r.task == task,
            r.policy == policy,
            r.status == status,
            r.working_set == working_set,
            r.relationships == relationships,
            r.effects == effects,
            r.uncertainty == uncertainty,
            r.coverage == coverage,
            r.omissions == omissions,
            r.validation_plan == validation_plan,
            r.cost == cost,
            r.context_hash@ == json_tree::canonical_digest(r.identity_tree()),
            text::hex64(r.context_hash@),
    {
        let mut context = ContextIr {
            schema_version: CONTEXT_SCHEMA_VERSION.to_string(),
            context_id,
            workspace,
            task,
            policy,
            status,
            working_set,
            relationships,
            effects,
            uncertainty,
            coverage,
            omissions,
            validation_plan,
            cost,
            context_hash: String::new(),
        };
        let hash = canonical_hash(&context.identity_json());
        context.context_hash = hash;
        context
    }
}

} // verus!
