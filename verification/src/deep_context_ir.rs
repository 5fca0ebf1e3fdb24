//! The deep-only Context IR 2.0.0 document and its invariants.
//!
//! A document is accepted only if every ledger in it reconciles, every claim of
//! sufficiency is backed by qualified evidence, and its hash is that of its
//! canonical identity.
use vstd::prelude::*;

use crate::context_execution::{ContextPayload, DeepResultReference, PayloadView};
use crate::context_ir::{
    is_hex64, ClaimStrength, ContextIr, EntityKind, EvidenceQuality, IrEffect, IrEvidence,
    IrRelationship, ItemRole, NoticeSeverity, SelectionReason, TaskKind, TaskKindSource,
    ValidationKind, WorkingSetStatus, CONTEXT_SCHEMA_V2_VERSION, CONTEXT_SCHEMA_VERSION,
};
use crate::context_metrics::{
    MAX_CONTEXT_EXECUTION_ESTIMATED_TOKENS, MAX_CONTEXT_EXECUTION_RECORDS,
    MAX_CONTEXT_EXECUTION_SOURCE_BYTES, MAX_CONTEXT_EXECUTION_WORK_UNITS,
};
use crate::context_route;
use crate::context_route::{
    DeepSemanticBudget, DEEP_ESTIMATOR_VERSION, DEEP_PLANNER_VERSION, DEEP_PROJECTION_VERSION,
    MAX_DEEP_DEPTH,
};
use crate::digest;
use crate::digest::CanonicalEncoder;
use crate::error;
use crate::error::AtlasError;
use crate::json_tree;
use crate::json_tree::{canonical_value, read_json, text_field, value_text};
use crate::sorted;
use crate::text;

verus! {

/// Closed semantic outcome for the required-role policy.
#[derive(Debug, Clone, Copy, PartialEq, Eq, Structural)]
pub enum IrRequirementStateV2 {
    Satisfied,
    Missing,
    Unresolved,
    Stale,
    Unavailable,
    Unsupported,
    Conflicting,
    BudgetOmitted,
}

/// Closed, countable reasons shared by sufficiency, uncertainty, coverage, and
/// omission ledgers.
#[derive(Debug, Clone, Copy, PartialEq, Eq, PartialOrd, Ord, Structural)]
pub enum IrOmissionReasonV2 {
    MissingRequiredRole,
    UnresolvedEvidence,
    StaleEvidence,
    UnavailableEvidence,
    UnsupportedEvidence,
    ConflictingEvidence,
    AmbiguousSeed,
    FtsCandidateLimit,
    RecordBudget,
    SourceByteBudget,
    EstimatedTokenBudget,
    RelationshipDepthBudget,
    WorkUnitBudget,
    UncertaintyReserve,
    TemporalEvidenceUnavailable,
    ValidationTargetUnavailable,
    SourceVerificationFailed,
}

impl IrOmissionReasonV2 {
    pub open spec fn spec_rank(self) -> int {
        match self {
            IrOmissionReasonV2::MissingRequiredRole => 0,
            IrOmissionReasonV2::UnresolvedEvidence => 1,
            IrOmissionReasonV2::StaleEvidence => 2,
            IrOmissionReasonV2::UnavailableEvidence => 3,
            IrOmissionReasonV2::UnsupportedEvidence => 4,
            IrOmissionReasonV2::ConflictingEvidence => 5,
            IrOmissionReasonV2::AmbiguousSeed => 6,
            IrOmissionReasonV2::FtsCandidateLimit => 7,
            IrOmissionReasonV2::RecordBudget => 8,
            IrOmissionReasonV2::SourceByteBudget => 9,
            IrOmissionReasonV2::EstimatedTokenBudget => 10,
            IrOmissionReasonV2::RelationshipDepthBudget => 11,
            IrOmissionReasonV2::WorkUnitBudget => 12,
            IrOmissionReasonV2::UncertaintyReserve => 13,
            IrOmissionReasonV2::TemporalEvidenceUnavailable => 14,
            IrOmissionReasonV2::ValidationTargetUnavailable => 15,
            IrOmissionReasonV2::SourceVerificationFailed => 16,
        }
    }

    /// The position of the reason in the order of reasons.
    pub fn rank(self) -> (r: usize)
        ensures
            r == self.spec_rank(),
            r < 17,
    {
        match self {
            IrOmissionReasonV2::MissingRequiredRole => 0,
            IrOmissionReasonV2::UnresolvedEvidence => 1,
            IrOmissionReasonV2::StaleEvidence => 2,
            IrOmissionReasonV2::UnavailableEvidence => 3,
            IrOmissionReasonV2::UnsupportedEvidence => 4,
            IrOmissionReasonV2::ConflictingEvidence => 5,
            IrOmissionReasonV2::AmbiguousSeed => 6,
            IrOmissionReasonV2::FtsCandidateLimit => 7,
            IrOmissionReasonV2::RecordBudget => 8,
            IrOmissionReasonV2::SourceByteBudget => 9,
            IrOmissionReasonV2::EstimatedTokenBudget => 10,
            IrOmissionReasonV2::RelationshipDepthBudget => 11,
            IrOmissionReasonV2::WorkUnitBudget => 12,
            IrOmissionReasonV2::UncertaintyReserve => 13,
            IrOmissionReasonV2::TemporalEvidenceUnavailable => 14,
            IrOmissionReasonV2::ValidationTargetUnavailable => 15,
            IrOmissionReasonV2::SourceVerificationFailed => 16,
        }
    }
}

#[derive(Debug, Clone, Copy, PartialEq, Eq, Structural)]
pub enum IrPathConfinementV2 {
    Confined,
    OutsideCanonicalRoot,
    SymlinkEscape,
    Unavailable,
}

#[derive(Debug, Clone, Copy, PartialEq, Eq, Structural)]
pub enum IrSourceVerificationV2 {
    Verified,
    Stale,
    Unavailable,
    Unsupported,
}

#[derive(Debug, Clone, Copy, PartialEq, Eq, Structural)]
pub enum IrTemporalStateV2 {
    NotRequired,
    VerifiedAncestor,
    Unavailable,
    InvalidBaseline,
}

#[derive(Debug, Clone, Copy, PartialEq, Eq, Structural)]
pub enum IrValidationReasonV2 {
    TaskRecipe,
    AffectedTest,
    AffectedConfiguration,
    AffectedBuildContract,
    RequiredRoleClosure,
}

#[derive(Debug, Clone, Copy, PartialEq, Eq, Structural)]
pub enum IrLeaseDependencyKindV2 {
    SourceDigest,
    Relationship,
    Effect,
    ProviderFingerprint,
    Coverage,
    Conflict,
    PlannerPolicy,
    ProjectionPolicy,
    Estimator,
}

impl IrLeaseDependencyKindV2 {
    pub open spec fn spec_str(self) -> Seq<char> {
        match self {
            IrLeaseDependencyKindV2::SourceDigest => "source_digest"@,
            IrLeaseDependencyKindV2::Relationship => "relationship"@,
            IrLeaseDependencyKindV2::Effect => "effect"@,
            IrLeaseDependencyKindV2::ProviderFingerprint => "provider_fingerprint"@,
            IrLeaseDependencyKindV2::Coverage => "coverage"@,
            IrLeaseDependencyKindV2::Conflict => "conflict"@,
            IrLeaseDependencyKindV2::PlannerPolicy => "planner_policy"@,
            IrLeaseDependencyKindV2::ProjectionPolicy => "projection_policy"@,
            IrLeaseDependencyKindV2::Estimator => "estimator"@,
        }
    }

    /// The wire name.
    pub fn as_str(self) -> (r: &'static str)
        ensures
            r@ == self.spec_str(),
    {
        match self {
            IrLeaseDependencyKindV2::SourceDigest => "source_digest",
            IrLeaseDependencyKindV2::Relationship => "relationship",
            IrLeaseDependencyKindV2::Effect => "effect",
            IrLeaseDependencyKindV2::ProviderFingerprint => "provider_fingerprint",
            IrLeaseDependencyKindV2::Coverage => "coverage",
            IrLeaseDependencyKindV2::Conflict => "conflict",
            IrLeaseDependencyKindV2::PlannerPolicy => "planner_policy",
            IrLeaseDependencyKindV2::ProjectionPolicy => "projection_policy",
            IrLeaseDependencyKindV2::Estimator => "estimator",
        }
    }
}

#[derive(Debug, Clone, PartialEq, Eq)]
pub struct IrWorkspaceV2 {
    pub workspace_id: String,
    pub generation_id: String,
    pub generation_sequence: i64,
    pub source_tree_hash: Option<String>,
    pub configuration_hash: String,
    pub provider_set_hash: String,
}

#[derive(Debug, Clone, PartialEq, Eq)]
pub struct IrTaskV2 {
    pub task_session_id: String,
    pub task_hash: String,
    pub normalized_goal_hash: String,
    pub task_kind: TaskKind,
    pub kind_source: TaskKindSource,
    pub kind_rule_id: Option<String>,
    pub seed_paths: Vec<String>,
    pub seed_symbols: Vec<String>,
}

/// Every semantic limit is explicit and independently represented.
#[derive(Debug, Clone, PartialEq, Eq)]
pub struct IrSemanticBudgetV2 {
    pub max_records: u64,
    pub max_source_bytes: u64,
    pub max_estimated_tokens: u64,
    pub max_relationship_depth: u32,
    pub max_work_units: u64,
    pub uncertainty_reserve_percent: u32,
    pub budget_digest: String,
}

impl IrSemanticBudgetV2 {
    /// Every limit is positive and within the advertised bounds.
    pub open spec fn values_valid(self) -> bool {
        &&& 0 < self.max_records <= MAX_CONTEXT_EXECUTION_RECORDS
        &&& 0 < self.max_source_bytes <= MAX_CONTEXT_EXECUTION_SOURCE_BYTES
        &&& 0 < self.max_estimated_tokens <= MAX_CONTEXT_EXECUTION_ESTIMATED_TOKENS
        &&& 0 < self.max_relationship_depth <= MAX_DEEP_DEPTH
        &&& 0 < self.max_work_units <= MAX_CONTEXT_EXECUTION_WORK_UNITS
        &&& 0 < self.uncertainty_reserve_percent <= 100
    }

    /// The digest that the limits must carry.
    pub open spec fn digest(self) -> Seq<char> {
        digest::fields_digest(
            seq![digest::text_field("workspace-atlas/context-ir-v2-semantic-budget"@)].push(
                digest::be64(self.max_records),
            ).push(digest::be64(self.max_source_bytes)).push(
                digest::be64(self.max_estimated_tokens),
            ).push(digest::be64(self.max_relationship_depth as u64)).push(
                digest::be64(self.max_work_units),
            ).push(digest::be64(self.uncertainty_reserve_percent as u64)),
        )
    }

    /// The budget that an explicitly supplied budget stands for.
    pub fn from_explicit_budget(supplied: &DeepSemanticBudget) -> (r: Result<Self, AtlasError>)
        ensures
            r is Ok <==> supplied@.fault() is None,
            r matches Ok(budget) ==> {
                &&& budget.max_records == supplied.max_records
                &&& budget.max_source_bytes == supplied.max_source_bytes
                &&& budget.max_estimated_tokens == supplied.max_estimated_tokens
                &&& budget.max_relationship_depth == supplied.max_depth
                &&& budget.max_work_units == supplied.max_work_units
                &&& budget.uncertainty_reserve_percent == supplied.uncertainty_reserve_percent
                &&& budget.budget_digest@ == budget.digest()
                &&& budget.values_valid()
            },
            r is Err ==> exists|e: context_route::ContextRouteError|
                {
                    &&& supplied@.fault() == Some(e@)
                    &&& error::refused_as_invalid(
                        r,
                        "invalid explicit V2 semantic budget: "@ + #[trigger] e.spec_message(),
                    )
                },
    {
        match supplied.validate() {
            Ok(()) => {},
            Err(e) => {
                let shown = e.message();
                return Err(
                    AtlasError::InvalidConfig(
                        text::join2("invalid explicit V2 semantic budget: ", shown.as_str()),
                    ),
                );
            },
        }
        let mut budget = IrSemanticBudgetV2 {
            max_records: supplied.max_records,
            max_source_bytes: supplied.max_source_bytes,
            max_estimated_tokens: supplied.max_estimated_tokens,
            max_relationship_depth: supplied.max_depth,
            max_work_units: supplied.max_work_units,
            uncertainty_reserve_percent: supplied.uncertainty_reserve_percent as u32,
            budget_digest: String::new(),
        };
        let stamped = budget.expected_digest();
        budget.budget_digest = stamped;
        Ok(budget)
    }

    /// The digest of the limits.
    pub fn expected_digest(&self) -> (r: String)
        ensures
            r@ == self.digest(),
            text::hex64(r@),
    {
        let mut encoder = CanonicalEncoder::new("workspace-atlas/context-ir-v2-semantic-budget");
        encoder.u64(self.max_records);
        encoder.u64(self.max_source_bytes);
        encoder.u64(self.max_estimated_tokens);
        encoder.u64(self.max_relationship_depth as u64);
        encoder.u64(self.max_work_units);
        encoder.u64(self.uncertainty_reserve_percent as u64);
        encoder.finish()
    }

    fn is_valid(&self) -> (r: bool)
        ensures
            r == (self.values_valid() && self.budget_digest@ == self.digest()),
    {
        if self.max_records == 0 || self.max_records > MAX_CONTEXT_EXECUTION_RECORDS
            || self.max_source_bytes == 0 || self.max_source_bytes
            > MAX_CONTEXT_EXECUTION_SOURCE_BYTES || self.max_estimated_tokens == 0
            || self.max_estimated_tokens > MAX_CONTEXT_EXECUTION_ESTIMATED_TOKENS
            || self.max_relationship_depth == 0 || self.max_relationship_depth > MAX_DEEP_DEPTH
            || self.max_work_units == 0 || self.max_work_units > MAX_CONTEXT_EXECUTION_WORK_UNITS
            || self.uncertainty_reserve_percent == 0 || self.uncertainty_reserve_percent > 100 {
            return false;
        }
        let expected = self.expected_digest();
        text::text_eq(self.budget_digest.as_str(), expected.as_str())
    }
}

/// The records set aside for uncertainty: a percentage, rounded up.
pub open spec fn reserve(max_records: u64, percent: u32) -> int {
    (max_records as int * percent as int + 99) / 100
}

/// The records set aside for uncertainty: a percentage of the record limit, rounded
/// up.
pub fn uncertainty_reserve_records(max_records: u64, uncertainty_reserve_percent: u32) -> (r: Result<
    u64,
    AtlasError,
>)
    ensures
        r is Ok <==> reserve(max_records, uncertainty_reserve_percent) <= u64::MAX,
        r is Ok ==> r->Ok_0 == reserve(max_records, uncertainty_reserve_percent),
        r is Err ==> error::refused_as_invalid(
            r,
            "deep Context IR uncertainty reserve exceeds record bound"@,
        ),
{
    assert(max_records as u128 * uncertainty_reserve_percent as u128
        <= 0xffff_ffff_ffff_ffffu128 * 0xffff_ffffu128) by (nonlinear_arith)
        requires
            max_records <= 0xffff_ffff_ffff_ffffu64,
            uncertainty_reserve_percent <= 0xffff_ffffu32,
    ;
    let scaled: u128 = (max_records as u128) * (uncertainty_reserve_percent as u128);
    let reserved: u128 = (scaled + 99) / 100;
    if reserved > u64::MAX as u128 {
        return Err(
            AtlasError::InvalidConfig(
                "deep Context IR uncertainty reserve exceeds record bound".to_string(),
            ),
        );
    }
    Ok(reserved as u64)
}

/// The reserve never exceeds the record limit.
pub proof fn lemma_reserve_within(max_records: u64, percent: u32)
    requires
        percent <= 100,
    ensures
        0 <= reserve(max_records, percent) <= max_records,
{
    assert(max_records as int * percent as int <= max_records as int * 100) by (nonlinear_arith)
        requires
            percent <= 100,
    ;
    assert(0 <= max_records as int * percent as int) by (nonlinear_arith);
}

#[derive(Debug, Clone, PartialEq, Eq)]
pub struct IrPolicyV2 {
    pub planner_policy_version: String,
    pub projection_policy_version: String,
    pub estimator_version: String,
    pub deterministic: bool,
    pub semantic_budget: IrSemanticBudgetV2,
}

#[derive(Debug, Clone, PartialEq, Eq)]
pub struct IrRoleSufficiencyV2 {
    pub role: ItemRole,
    pub required: bool,
    pub state: IrRequirementStateV2,
    pub evidence_item_ids: Vec<String>,
    pub reason: Option<IrOmissionReasonV2>,
}

#[derive(Debug, Clone, PartialEq, Eq)]
pub struct IrStatusV2 {
    pub working_set_status: WorkingSetStatus,
    pub role_sufficiency: Vec<IrRoleSufficiencyV2>,
    pub exact_source: IrRequirementStateV2,
    pub validation: IrRequirementStateV2,
    pub reasons: Vec<IrOmissionReasonV2>,
}

/// Verified source authority is a digest/range reference only. Source bytes,
/// authorization, and response-lifetime materialization remain in the separately
/// versioned execution envelope.
#[derive(Debug, Clone, PartialEq, Eq)]
pub struct IrSourceRefV2 {
    pub canonical_path: String,
    pub whole_file_sha256: String,
    pub start_byte: u64,
    pub end_byte: u64,
    pub observed_sha256: Option<String>,
    pub verification_status: IrSourceVerificationV2,
    pub canonical_root_confinement: IrPathConfinementV2,
    pub revalidated_before_seal: bool,
}

#[derive(Debug, Clone, Copy, PartialEq, Eq, Structural)]
pub struct IrItemCostV2 {
    pub metadata_bytes: u64,
    pub source_bytes: u64,
    pub estimated_tokens: u64,
}

#[derive(Debug, Clone, PartialEq, Eq)]
pub struct IrWorkingSetItemV2 {
    pub item_id: String,
    pub entity_kind: EntityKind,
    pub entity_id: String,
    pub role: ItemRole,
    pub selection_reason: SelectionReason,
    pub origin_id: Option<String>,
    pub distance: u32,
    pub rank: u64,
    pub evidence: IrEvidence,
    pub cost: IrItemCostV2,
    pub source: Option<IrSourceRefV2>,
}

#[derive(Debug, Clone, PartialEq, Eq)]
pub struct IrTemporalConstraintsV2 {
    pub current_generation_id: String,
    pub baseline_generation_id: Option<String>,
    pub state: IrTemporalStateV2,
    pub evidence_item_ids: Vec<String>,
    pub omission_reason: Option<IrOmissionReasonV2>,
}

#[derive(Debug, Clone, PartialEq, Eq)]
pub struct IrNoticeV2 {
    pub code: IrOmissionReasonV2,
    pub severity: NoticeSeverity,
    pub entity_ids: Vec<String>,
}

#[derive(Debug, Clone, PartialEq, Eq)]
pub struct IrCoverageV2 {
    pub eligible: u64,
    pub complete: u64,
    pub partial: u64,
    pub unsupported: u64,
    pub excluded: u64,
    pub failed: u64,
    pub claim_strength: ClaimStrength,
    pub deficits: Vec<IrOmissionReasonV2>,
}

/// How many candidates were left out for each reason; a reason that left none out
/// has no count.
#[derive(Debug, Clone, Copy, PartialEq, Eq)]
pub struct OmissionCounts {
    pub counts: [Option<u64>; 17],
}

impl OmissionCounts {
    /// The count of a reason.
    pub open spec fn count(self, reason: IrOmissionReasonV2) -> Option<u64> {
        self.counts@[reason.spec_rank()]
    }

    /// The counts of the first `n` reasons, added up.
    pub open spec fn total_upto(self, n: nat) -> int
        decreases n,
    {
        if n == 0 {
            0
        } else {
            self.total_upto((n - 1) as nat) + match self.counts@[n - 1] {
                Some(count) => count as int,
                None => 0,
            }
        }
    }

    /// All counts, added up.
    pub open spec fn total(self) -> int {
        self.total_upto(17)
    }

    /// No reason is counted.
    pub fn new() -> (r: Self)
        ensures
            forall|reason: IrOmissionReasonV2| #[trigger] r.count(reason) is None,
    {
        OmissionCounts { counts: [None; 17] }
    }

    /// The count of a reason.
    pub fn get(&self, reason: IrOmissionReasonV2) -> (r: Option<u64>)
        ensures
            r == self.count(reason),
    {
        self.counts[reason.rank()]
    }

    /// Sets the count of a reason.
    pub fn insert(&mut self, reason: IrOmissionReasonV2, count: u64)
        ensures
            forall|other: IrOmissionReasonV2| #[trigger]
                final(self).count(other) == if other == reason {
                    Some(count)
                } else {
                    old(self).count(other)
                },
    {
        let at: usize = reason.rank();
        self.counts[at] = Some(count);
        proof {
            assert forall|other: IrOmissionReasonV2| #[trigger] self.count(other) == if other
                == reason {
                Some(count)
            } else {
                old(self).count(other)
            } by {
                if other.spec_rank() == reason.spec_rank() {
                    assert(other == reason);
                }
            }
        }
    }

    fn sum(&self) -> (r: u128)
        ensures
            r == self.total(),
    {
        let mut total: u128 = 0;
        for i in 0usize..17
            invariant
                total == self.total_upto(i as nat),
                total <= i * 0xffff_ffff_ffff_ffff,
        {
            if let Some(count) = self.counts[i] {
                total = total + count as u128;
            }
        }
        total
    }
}

#[derive(Debug, Clone, PartialEq, Eq)]
pub struct IrOmissionsV2 {
    pub candidates_considered: u64,
    pub selected: u64,
    pub omitted: u64,
    pub truncated: bool,
    pub by_reason: OmissionCounts,
}

#[derive(Debug, Clone, PartialEq, Eq)]
pub struct IrValidationV2 {
    pub kind: ValidationKind,
    pub target_entity_id: String,
    pub reason: IrValidationReasonV2,
    pub required: bool,
}

#[derive(Debug, Clone, PartialEq, Eq)]
pub struct IrLeaseDependencyV2 {
    pub kind: IrLeaseDependencyKindV2,
    pub key: String,
    pub digest: String,
}

#[derive(Debug, Clone, PartialEq, Eq)]
pub struct IrEvidenceLeaseV2 {
    pub generation_id: String,
    pub dependencies: Vec<IrLeaseDependencyV2>,
}

/// Deterministic semantic work only. Wall time, deadlines, retries, attempts, cache
/// state, and cancellation are deliberately unrepresentable here.
#[derive(Debug, Clone, Copy, PartialEq, Eq, Structural)]
pub struct IrCostV2 {
    pub selected_records: u64,
    pub selected_source_bytes: u64,
    pub selected_estimated_tokens: u64,
    pub relationship_depth_reached: u32,
    pub work_units_consumed: u64,
    pub uncertainty_records_reserved: u64,
    pub uncertainty_records_selected: u64,
}

/// In-memory/application-only semantic result of the DEEP route.
#[derive(Debug, Clone, PartialEq, Eq)]
pub struct DeepContextIrV2 {
    pub schema_version: String,
    pub context_id: String,
    pub workspace: IrWorkspaceV2,
    pub task: IrTaskV2,
    pub policy: IrPolicyV2,
    pub status: IrStatusV2,
    pub working_set: Vec<IrWorkingSetItemV2>,
    pub relationships: Vec<IrRelationship>,
    pub effects: Vec<IrEffect>,
    pub temporal_constraints: IrTemporalConstraintsV2,
    pub uncertainty: Vec<IrNoticeV2>,
    pub coverage: IrCoverageV2,
    pub omissions: IrOmissionsV2,
    pub validation_plan: Vec<IrValidationV2>,
    pub evidence_lease: IrEvidenceLeaseV2,
    pub cost: IrCostV2,
    pub context_hash: String,
}

/// What the planner policy asks of a task kind: which roles there are and which are
/// required, and what must hold beyond them.
#[derive(Debug, Clone, PartialEq, Eq)]
pub struct RoleRecipe {
    pub role_matrix: Vec<(ItemRole, bool)>,
    pub required_roles: Vec<ItemRole>,
    pub requires_exact_source: bool,
    pub requires_validation: bool,
}

#[derive(Debug, Clone, PartialEq, Eq)]
pub enum ContextIrDocument {
    LegacyV1(ContextIr),
    DeepV2(DeepContextIrV2),
}

/// The bits of a double-precision number from 0 to 1, either zero among them.
pub open spec fn unit_interval_bits(bits: u64) -> bool {
    bits <= 0x3ff0_0000_0000_0000 || bits == 0x8000_0000_0000_0000
}

/// Absent, or 64 lower-case hexadecimal digits.
pub open spec fn opt_hex64(value: Option<String>) -> bool {
    value matches Some(digest) ==> text::hex64(digest@)
}

fn is_opt_hex64(value: &Option<String>) -> (r: bool)
    ensures
        r == opt_hex64(*value),
{
    match value {
        Some(digest) => is_hex64(digest.as_str()),
        None => true,
    }
}

/// The evidence belongs to the generation and is well-formed.
pub open spec fn evidence_valid(evidence: IrEvidence, generation_id: Seq<char>) -> bool {
    &&& evidence.generation_id@ == generation_id
    &&& unit_interval_bits(evidence.confidence.bits)
    &&& opt_hex64(evidence.provider_fingerprint)
    &&& opt_hex64(evidence.source_revision_hash)
}

fn is_evidence_valid(evidence: &IrEvidence, generation_id: &str) -> (r: bool)
    ensures
        r == evidence_valid(*evidence, generation_id@),
{
    text::text_eq(evidence.generation_id.as_str(), generation_id) && (evidence.confidence.bits
        <= 0x3ff0_0000_0000_0000 || evidence.confidence.bits == 0x8000_0000_0000_0000)
        && is_opt_hex64(&evidence.provider_fingerprint) && is_opt_hex64(
        &evidence.source_revision_hash,
    )
}

/// Evidence of this quality can back a claim of sufficiency.
pub open spec fn qualified(state: EvidenceQuality) -> bool {
    state == EvidenceQuality::Verified || state == EvidenceQuality::Supported || state
        == EvidenceQuality::Resolved
}

fn is_qualified(state: EvidenceQuality) -> (r: bool)
    ensures
        r == qualified(state),
{
    state == EvidenceQuality::Verified || state == EvidenceQuality::Supported || state
        == EvidenceQuality::Resolved
}

/// The reason goes with the state.
pub open spec fn reason_matches_state(
    state: IrRequirementStateV2,
    reason: Option<IrOmissionReasonV2>,
) -> bool {
    match state {
        IrRequirementStateV2::Satisfied => reason is None,
        IrRequirementStateV2::Missing => reason == Some(IrOmissionReasonV2::MissingRequiredRole),
        IrRequirementStateV2::Unresolved => reason == Some(IrOmissionReasonV2::UnresolvedEvidence),
        IrRequirementStateV2::Stale => reason == Some(IrOmissionReasonV2::StaleEvidence) || reason
            == Some(IrOmissionReasonV2::SourceVerificationFailed),
        IrRequirementStateV2::Unavailable => reason == Some(
            IrOmissionReasonV2::UnavailableEvidence,
        ) || reason == Some(IrOmissionReasonV2::TemporalEvidenceUnavailable) || reason == Some(
            IrOmissionReasonV2::ValidationTargetUnavailable,
        ),
        IrRequirementStateV2::Unsupported => reason == Some(
            IrOmissionReasonV2::UnsupportedEvidence,
        ),
        IrRequirementStateV2::Conflicting => reason == Some(
            IrOmissionReasonV2::ConflictingEvidence,
        ),
        IrRequirementStateV2::BudgetOmitted => reason is Some && 8 <= reason->0.spec_rank() <= 13,
    }
}

fn does_reason_match(state: IrRequirementStateV2, reason: Option<IrOmissionReasonV2>) -> (r: bool)
    ensures
        r == reason_matches_state(state, reason),
{
    match reason {
        None => state == IrRequirementStateV2::Satisfied,
        Some(reason) => match state {
            IrRequirementStateV2::Satisfied => false,
            IrRequirementStateV2::Missing => reason == IrOmissionReasonV2::MissingRequiredRole,
            IrRequirementStateV2::Unresolved => reason == IrOmissionReasonV2::UnresolvedEvidence,
            IrRequirementStateV2::Stale => reason == IrOmissionReasonV2::StaleEvidence || reason
                == IrOmissionReasonV2::SourceVerificationFailed,
            IrRequirementStateV2::Unavailable => reason == IrOmissionReasonV2::UnavailableEvidence
                || reason == IrOmissionReasonV2::TemporalEvidenceUnavailable || reason
                == IrOmissionReasonV2::ValidationTargetUnavailable,
            IrRequirementStateV2::Unsupported => reason == IrOmissionReasonV2::UnsupportedEvidence,
            IrRequirementStateV2::Conflicting => reason == IrOmissionReasonV2::ConflictingEvidence,
            IrRequirementStateV2::BudgetOmitted => 8 <= reason.rank() && reason.rank() <= 13,
        },
    }
}

/// The source reference is well-formed and covers exactly the bytes it costs.
pub open spec fn source_shape_valid(source: IrSourceRefV2, source_bytes: u64) -> bool {
    &&& source.canonical_path@.len() > 0
    &&& source.start_byte < source.end_byte
    &&& source.end_byte - source.start_byte == source_bytes
    &&& text::hex64(source.whole_file_sha256@)
    &&& opt_hex64(source.observed_sha256)
}

/// What was observed of the live file bears the verification status out.
pub open spec fn live_proof_valid(source: IrSourceRefV2) -> bool {
    match source.verification_status {
        IrSourceVerificationV2::Verified => {
            &&& source.observed_sha256 is Some && source.observed_sha256->0@
                == source.whole_file_sha256@
            &&& source.canonical_root_confinement == IrPathConfinementV2::Confined
            &&& source.revalidated_before_seal
        },
        IrSourceVerificationV2::Stale => {
            &&& source.observed_sha256 is Some && source.observed_sha256->0@
                != source.whole_file_sha256@
            &&& source.canonical_root_confinement == IrPathConfinementV2::Confined
            &&& source.revalidated_before_seal
        },
        IrSourceVerificationV2::Unavailable => source.revalidated_before_seal,
        IrSourceVerificationV2::Unsupported => !source.revalidated_before_seal,
    }
}

fn is_source_shape_valid(source: &IrSourceRefV2, source_bytes: u64) -> (r: bool)
    ensures
        r == source_shape_valid(*source, source_bytes),
{
    !source.canonical_path.as_str().is_empty() && source.start_byte < source.end_byte
        && source.end_byte - source.start_byte == source_bytes && is_hex64(
        source.whole_file_sha256.as_str(),
    ) && is_opt_hex64(&source.observed_sha256)
}

fn is_live_proof_valid(source: &IrSourceRefV2) -> (r: bool)
    ensures
        r == live_proof_valid(*source),
{
    match source.verification_status {
        IrSourceVerificationV2::Verified => (match &source.observed_sha256 {
            Some(observed) => text::text_eq(observed.as_str(), source.whole_file_sha256.as_str()),
            None => false,
        }) && source.canonical_root_confinement == IrPathConfinementV2::Confined
            && source.revalidated_before_seal,
        IrSourceVerificationV2::Stale => (match &source.observed_sha256 {
            Some(observed) => !text::text_eq(observed.as_str(), source.whole_file_sha256.as_str()),
            None => false,
        }) && source.canonical_root_confinement == IrPathConfinementV2::Confined
            && source.revalidated_before_seal,
        IrSourceVerificationV2::Unavailable => source.revalidated_before_seal,
        IrSourceVerificationV2::Unsupported => !source.revalidated_before_seal,
    }
}

/// The source is current: verified, confined, and checked again before sealing.
pub open spec fn source_current(source: IrSourceRefV2) -> bool {
    &&& source.verification_status == IrSourceVerificationV2::Verified
    &&& source.canonical_root_confinement == IrPathConfinementV2::Confined
    &&& source.revalidated_before_seal
}

fn is_source_current(source: &IrSourceRefV2) -> (r: bool)
    ensures
        r == source_current(*source),
{
    source.verification_status == IrSourceVerificationV2::Verified
        && source.canonical_root_confinement == IrPathConfinementV2::Confined
        && source.revalidated_before_seal
}

/// The items' source bytes, added up.
pub open spec fn source_byte_sum(items: Seq<IrWorkingSetItemV2>) -> int
    decreases items.len(),
{
    if items.len() == 0 {
        0
    } else {
        source_byte_sum(items.drop_last()) + items.last().cost.source_bytes
    }
}

/// The items' estimated tokens, added up.
pub open spec fn token_sum(items: Seq<IrWorkingSetItemV2>) -> int
    decreases items.len(),
{
    if items.len() == 0 {
        0
    } else {
        token_sum(items.drop_last()) + items.last().cost.estimated_tokens
    }
}

/// How many items are about uncertainty.
pub open spec fn uncertainty_count(items: Seq<IrWorkingSetItemV2>) -> int
    decreases items.len(),
{
    if items.len() == 0 {
        0
    } else {
        uncertainty_count(items.drop_last()) + if items.last().role == ItemRole::Uncertainty {
            1int
        } else {
            0int
        }
    }
}

/// The largest distance of an item; zero where there is none.
pub open spec fn max_distance(items: Seq<IrWorkingSetItemV2>) -> int
    decreases items.len(),
{
    if items.len() == 0 {
        0
    } else {
        let rest = max_distance(items.drop_last());
        if items.last().distance > rest {
            items.last().distance as int
        } else {
            rest
        }
    }
}

/// What the working set adds up to.
struct WorkingSetTotals {
    source_bytes: u128,
    tokens: u128,
    uncertainty: u64,
    distance: u32,
}

fn working_set_totals(items: &Vec<IrWorkingSetItemV2>) -> (r: WorkingSetTotals)
    ensures
        r.source_bytes == source_byte_sum(items@),
        r.tokens == token_sum(items@),
        r.uncertainty == uncertainty_count(items@),
        r.uncertainty <= items@.len(),
        r.distance == max_distance(items@),
{
    let mut source_bytes: u128 = 0;
    let mut tokens: u128 = 0;
    let mut uncertainty: u64 = 0;
    let mut distance: u32 = 0;
    assert(items@.take(0) =~= Seq::empty());
    for i in 0..items.len()
        invariant
            source_bytes == source_byte_sum(items@.take(i as int)),
            tokens == token_sum(items@.take(i as int)),
            uncertainty == uncertainty_count(items@.take(i as int)),
            distance == max_distance(items@.take(i as int)),
            source_bytes <= i * 0xffff_ffff_ffff_ffff,
            tokens <= i * 0xffff_ffff_ffff_ffff,
            uncertainty <= i,
    {
        proof {
            assert(items@.take(i + 1).drop_last() =~= items@.take(i as int));
        }
        source_bytes = source_bytes + items[i].cost.source_bytes as u128;
        tokens = tokens + items[i].cost.estimated_tokens as u128;
        if items[i].role == ItemRole::Uncertainty {
            uncertainty = uncertainty + 1;
        }
        if items[i].distance > distance {
            distance = items[i].distance;
        }
    }
    assert(items@.take(items@.len() as int) =~= items@);
    WorkingSetTotals { source_bytes, tokens, uncertainty, distance }
}

/// Reasons are listed in their order, each at most once.
pub open spec fn reasons_ascending(s: Seq<IrOmissionReasonV2>) -> bool {
    forall|i: int, j: int|
        0 <= i < j < s.len() ==> (#[trigger] s[i]).spec_rank() < (#[trigger] s[j]).spec_rank()
}

fn are_reasons_ascending(s: &Vec<IrOmissionReasonV2>) -> (r: bool)
    ensures
        r == reasons_ascending(s@),
{
    let mut i: usize = 1;
    while i < s.len()
        invariant
            1 <= i,
            forall|j: int, k: int|
                0 <= j < k < i && k < s@.len() ==> (#[trigger] s@[j]).spec_rank() < (
                #[trigger] s@[k]).spec_rank(),
        decreases s@.len() - i,
    {
        if s[i - 1].rank() >= s[i].rank() {
            return false;
        }
        assert forall|j: int, k: int| 0 <= j < k < i + 1 implies (#[trigger] s@[j]).spec_rank() < (
        #[trigger] s@[k]).spec_rank() by {
            if k == i && j < i - 1 {
                assert(s@[j].spec_rank() < s@[i - 1].spec_rank());
            }
        }
        i = i + 1;
    }
    true
}

fn has_reason(s: &Vec<IrOmissionReasonV2>, reason: IrOmissionReasonV2) -> (r: bool)
    ensures
        r == s@.contains(reason),
{
    for i in 0..s.len()
        invariant
            forall|j: int| 0 <= j < i ==> s@[j] != reason,
    {
        if s[i] == reason {
            assert(s@[i as int] == reason);
            return true;
        }
    }
    false
}

/// The codes of the notices, in order.
pub open spec fn notice_codes(s: Seq<IrNoticeV2>) -> Seq<IrOmissionReasonV2> {
    Seq::new(s.len(), |i: int| s[i].code)
}

fn collect_codes(s: &Vec<IrNoticeV2>) -> (r: Vec<IrOmissionReasonV2>)
    ensures
        r@ == notice_codes(s@),
{
    let mut out: Vec<IrOmissionReasonV2> = Vec::new();
    for i in 0..s.len()
        invariant
            out@.len() == i,
            forall|j: int| 0 <= j < i ==> out@[j] == s@[j].code,
    {
        out.push(s[i].code);
    }
    assert(out@ =~= notice_codes(s@));
    out
}

/// Strings in strictly increasing order.
pub open spec fn texts_ascending(s: Seq<String>) -> bool {
    sorted::strictly_sorted::<String>(sorted::views::<String>(s))
}

fn are_texts_ascending(s: &Vec<String>) -> (r: bool)
    ensures
        r == texts_ascending(s@),
{
    sorted::is_strictly_sorted(s.as_slice())
}

/// The identifiers of the relationships, in order.
pub open spec fn relationship_ids(s: Seq<IrRelationship>) -> Seq<Seq<char>> {
    Seq::new(s.len(), |i: int| s[i].relationship_id@)
}

/// The targets of the validations, in order.
pub open spec fn validation_targets(s: Seq<IrValidationV2>) -> Seq<Seq<char>> {
    Seq::new(s.len(), |i: int| s[i].target_entity_id@)
}

/// The keys of the dependencies, in order.
pub open spec fn dependency_keys(s: Seq<IrLeaseDependencyV2>) -> Seq<Seq<char>> {
    Seq::new(s.len(), |i: int| s[i].key@)
}

fn are_relationships_ascending(s: &Vec<IrRelationship>) -> (r: bool)
    ensures
        r == sorted::strictly_sorted::<String>(relationship_ids(s@)),
{
    let mut ids: Vec<String> = Vec::new();
    for i in 0..s.len()
        invariant
            ids@.len() == i,
            forall|j: int| 0 <= j < i ==> (#[trigger] ids@[j])@ == s@[j].relationship_id@,
    {
        ids.push(s[i].relationship_id.clone());
    }
    assert(sorted::views::<String>(ids@) =~= relationship_ids(s@));
    sorted::is_strictly_sorted(ids.as_slice())
}

fn are_validations_ascending(s: &Vec<IrValidationV2>) -> (r: bool)
    ensures
        r == sorted::strictly_sorted::<String>(validation_targets(s@)),
{
    let mut ids: Vec<String> = Vec::new();
    for i in 0..s.len()
        invariant
            ids@.len() == i,
            forall|j: int| 0 <= j < i ==> (#[trigger] ids@[j])@ == s@[j].target_entity_id@,
    {
        ids.push(s[i].target_entity_id.clone());
    }
    assert(sorted::views::<String>(ids@) =~= validation_targets(s@));
    sorted::is_strictly_sorted(ids.as_slice())
}

fn are_dependency_keys_ascending(s: &Vec<IrLeaseDependencyV2>) -> (r: bool)
    ensures
        r == sorted::strictly_sorted::<String>(dependency_keys(s@)),
{
    let mut ids: Vec<String> = Vec::new();
    for i in 0..s.len()
        invariant
            ids@.len() == i,
            forall|j: int| 0 <= j < i ==> (#[trigger] ids@[j])@ == s@[j].key@,
    {
        ids.push(s[i].key.clone());
    }
    assert(sorted::views::<String>(ids@) =~= dependency_keys(s@));
    sorted::is_strictly_sorted(ids.as_slice())
}

/// A pair of texts sorts before another: by the first, then by the second.
pub open spec fn pair_lt(a: (Seq<char>, Seq<char>), b: (Seq<char>, Seq<char>)) -> bool {
    text::text_lt(a.0, b.0) || (a.0 == b.0 && text::text_lt(a.1, b.1))
}

fn is_pair_less(a0: &str, a1: &str, b0: &str, b1: &str) -> (r: bool)
    ensures
        r == pair_lt((a0@, a1@), (b0@, b1@)),
{
    text::text_less(a0, b0) || (text::text_eq(a0, b0) && text::text_less(a1, b1))
}

/// The effects are listed by subject, then by type, no pair twice.
pub open spec fn effects_ascending(s: Seq<IrEffect>) -> bool {
    forall|i: int, j: int|
        0 <= i && j == i + 1 && j < s.len() ==> pair_lt(
            ((#[trigger] s[i]).subject_entity_id@, s[i].effect_type@),
            ((#[trigger] s[j]).subject_entity_id@, s[j].effect_type@),
        )
}

fn are_effects_ascending(s: &Vec<IrEffect>) -> (r: bool)
    ensures
        r == effects_ascending(s@),
{
    let mut k: usize = 1;
    while k < s.len()
        invariant
            1 <= k,
            forall|i: int, j: int|
                0 <= i && j == i + 1 && j < k && j < s@.len() ==> pair_lt(
                    ((#[trigger] s@[i]).subject_entity_id@, s@[i].effect_type@),
                    ((#[trigger] s@[j]).subject_entity_id@, s@[j].effect_type@),
                ),
        decreases s@.len() - k,
    {
        if !is_pair_less(
            s[k - 1].subject_entity_id.as_str(),
            s[k - 1].effect_type.as_str(),
            s[k].subject_entity_id.as_str(),
            s[k].effect_type.as_str(),
        ) {
            assert(!pair_lt(
                (s@[k - 1].subject_entity_id@, s@[k - 1].effect_type@),
                (s@[k as int].subject_entity_id@, s@[k as int].effect_type@),
            ));
            return false;
        }
        k = k + 1;
    }
    true
}

/// The dependencies are listed by kind, then by key, no pair twice.
pub open spec fn dependencies_ascending(s: Seq<IrLeaseDependencyV2>) -> bool {
    forall|i: int, j: int|
        0 <= i && j == i + 1 && j < s.len() ==> pair_lt(
            ((#[trigger] s[i]).kind.spec_str(), s[i].key@),
            ((#[trigger] s[j]).kind.spec_str(), s[j].key@),
        )
}

fn are_dependencies_ascending(s: &Vec<IrLeaseDependencyV2>) -> (r: bool)
    ensures
        r == dependencies_ascending(s@),
{
    let mut k: usize = 1;
    while k < s.len()
        invariant
            1 <= k,
            forall|i: int, j: int|
                0 <= i && j == i + 1 && j < k && j < s@.len() ==> pair_lt(
                    ((#[trigger] s@[i]).kind.spec_str(), s@[i].key@),
                    ((#[trigger] s@[j]).kind.spec_str(), s@[j].key@),
                ),
        decreases s@.len() - k,
    {
        if !is_pair_less(
            s[k - 1].kind.as_str(),
            s[k - 1].key.as_str(),
            s[k].kind.as_str(),
            s[k].key.as_str(),
        ) {
            assert(!pair_lt(
                (s@[k - 1].kind.spec_str(), s@[k - 1].key@),
                (s@[k as int].kind.spec_str(), s@[k as int].key@),
            ));
            return false;
        }
        k = k + 1;
    }
    true
}

/// An earlier item has the same identifier.
pub open spec fn repeats_earlier(items: Seq<IrWorkingSetItemV2>, index: int) -> bool {
    exists|j: int| 0 <= j < index && (#[trigger] items[j]).item_id@ == items[index].item_id@
}

/// What is wrong with one selected item, if anything.
pub open spec fn item_fault(
    items: Seq<IrWorkingSetItemV2>,
    index: int,
    generation_id: Seq<char>,
    max_depth: u32,
) -> Option<Seq<char>> {
    let item = items[index];
    if item.item_id@.len() == 0 || item.entity_id@.len() == 0 || item.rank != index || item.distance
        > max_depth || repeats_earlier(items, index) || !evidence_valid(
        item.evidence,
        generation_id,
    ) {
        Some("deep Context IR selected evidence identity is invalid"@)
    } else {
        match item.source {
            Some(source) => if !source_shape_valid(source, item.cost.source_bytes) {
                Some("deep Context IR contains an invalid source reference"@)
            } else if !live_proof_valid(source) {
                Some("V2 source reference contradicts its live verification proof"@)
            } else {
                None
            },
            None => if item.cost.source_bytes != 0 {
                Some("source-byte cost lacks a source reference"@)
            } else {
                None
            },
        }
    }
}

/// What is wrong with the first item at fault, from `index` on.
pub open spec fn items_fault(
    items: Seq<IrWorkingSetItemV2>,
    index: int,
    generation_id: Seq<char>,
    max_depth: u32,
) -> Option<Seq<char>>
    decreases items.len() - index,
{
    if index < 0 || index >= items.len() {
        None
    } else if item_fault(items, index, generation_id, max_depth) is Some {
        item_fault(items, index, generation_id, max_depth)
    } else {
        items_fault(items, index + 1, generation_id, max_depth)
    }
}

fn check_item(
    items: &Vec<IrWorkingSetItemV2>,
    index: usize,
    generation_id: &str,
    max_depth: u32,
) -> (r: Option<&'static str>)
    requires
        index < items@.len(),
    ensures
        (match r {
            Some(message) => Some(message@),
            None => None,
        }) == item_fault(items@, index as int, generation_id@, max_depth),
{
    let item = &items[index];
    let mut repeated = false;
    for j in 0..index
        invariant
            index < items@.len(),
            *item == items@[index as int],
            repeated == exists|k: int|
                0 <= k < j && (#[trigger] items@[k]).item_id@ == items@[index as int].item_id@,
    {
        if text::text_eq(items[j].item_id.as_str(), item.item_id.as_str()) {
            assert(items@[j as int].item_id@ == items@[index as int].item_id@);
            repeated = true;
        }
    }
    if item.item_id.as_str().is_empty() || item.entity_id.as_str().is_empty() || item.rank
        != index as u64 || item.distance > max_depth || repeated || !is_evidence_valid(
        &item.evidence,
        generation_id,
    ) {
        return Some("deep Context IR selected evidence identity is invalid");
    }
    match &item.source {
        Some(source) => {
            if !is_source_shape_valid(source, item.cost.source_bytes) {
                return Some("deep Context IR contains an invalid source reference");
            }
            if !is_live_proof_valid(source) {
                return Some("V2 source reference contradicts its live verification proof");
            }
            None
        },
        None => {
            if item.cost.source_bytes != 0 {
                return Some("source-byte cost lacks a source reference");
            }
            None
        },
    }
}

fn check_items(items: &Vec<IrWorkingSetItemV2>, generation_id: &str, max_depth: u32) -> (r: Option<
    &'static str,
>)
    ensures
        (match r {
            Some(message) => Some(message@),
            None => None,
        }) == items_fault(items@, 0, generation_id@, max_depth),
{
    for i in 0..items.len()
        invariant
            items_fault(items@, 0, generation_id@, max_depth) == items_fault(
                items@,
                i as int,
                generation_id@,
                max_depth,
            ),
    {
        match check_item(items, i, generation_id, max_depth) {
            Some(message) => return Some(message),
            None => {},
        }
    }
    None
}

impl DeepContextIrV2 {
    /// The generation that the document is bound to.
    pub open spec fn generation(self) -> Seq<char> {
        self.workspace.generation_id@
    }

    /// The fixed planner, projection and estimator, and nothing left to chance.
    pub open spec fn policy_fixed(self) -> bool {
        &&& self.policy.planner_policy_version@ == DEEP_PLANNER_VERSION@
        &&& self.policy.projection_policy_version@ == DEEP_PROJECTION_VERSION@
        &&& self.policy.estimator_version@ == DEEP_ESTIMATOR_VERSION@
        &&& self.policy.deterministic
    }

    /// No semantic identity is empty.
    pub open spec fn identities_present(self) -> bool {
        &&& self.context_id@.len() > 0
        &&& self.workspace.workspace_id@.len() > 0
        &&& self.workspace.generation_id@.len() > 0
        &&& self.task.task_session_id@.len() > 0
    }

    /// The budget is within bounds and carries its digest.
    pub open spec fn budget_valid(self) -> bool {
        self.policy.semantic_budget.values_valid() && self.policy.semantic_budget.budget_digest@
            == self.policy.semantic_budget.digest()
    }

    /// The digests of workspace and task have the form of digests.
    pub open spec fn digests_valid(self) -> bool {
        &&& text::hex64(self.workspace.configuration_hash@)
        &&& text::hex64(self.workspace.provider_set_hash@)
        &&& opt_hex64(self.workspace.source_tree_hash)
        &&& text::hex64(self.task.task_hash@)
        &&& text::hex64(self.task.normalized_goal_hash@)
    }

    /// All generation-bound sections name the same generation.
    pub open spec fn generations_agree(self) -> bool {
        &&& self.temporal_constraints.current_generation_id@ == self.generation()
        &&& self.evidence_lease.generation_id@ == self.generation()
    }

    /// The seeds are sorted and listed once.
    pub open spec fn seeds_canonical(self) -> bool {
        texts_ascending(self.task.seed_paths@) && texts_ascending(self.task.seed_symbols@)
    }

    /// Relationships, effects and lease dependencies are well-formed evidence.
    pub open spec fn evidence_sections_valid(self) -> bool {
        &&& forall|i: int|
            0 <= i < self.relationships@.len() ==> evidence_valid(
                (#[trigger] self.relationships@[i]).evidence,
                self.generation(),
            )
        &&& forall|i: int|
            0 <= i < self.effects@.len() ==> evidence_valid(
                (#[trigger] self.effects@[i]).evidence,
                self.generation(),
            )
        &&& forall|i: int|
            0 <= i < self.evidence_lease.dependencies@.len() ==> (
            #[trigger] self.evidence_lease.dependencies@[i]).key@.len() > 0 && text::hex64(
                self.evidence_lease.dependencies@[i].digest@,
            )
        &&& dependencies_ascending(self.evidence_lease.dependencies@)
    }

    /// The records set aside for uncertainty.
    pub open spec fn reserved(self) -> int {
        reserve(
            self.policy.semantic_budget.max_records,
            self.policy.semantic_budget.uncertainty_reserve_percent,
        )
    }

    /// The cost ledger is that of the working set and keeps every budget.
    pub open spec fn cost_reconciles(self) -> bool {
        let budget = self.policy.semantic_budget;
        let items = self.working_set@;
        &&& self.cost.selected_source_bytes == source_byte_sum(items)
        &&& self.cost.selected_estimated_tokens == token_sum(items)
        &&& self.cost.selected_records == items.len()
        &&& self.cost.selected_records <= budget.max_records
        &&& self.cost.selected_source_bytes <= budget.max_source_bytes
        &&& self.cost.selected_estimated_tokens <= budget.max_estimated_tokens
        &&& self.cost.relationship_depth_reached == max_distance(items)
        &&& self.cost.relationship_depth_reached <= budget.max_relationship_depth
        &&& self.cost.work_units_consumed <= budget.max_work_units
        &&& self.cost.uncertainty_records_selected == uncertainty_count(items)
        &&& self.cost.uncertainty_records_selected <= self.cost.uncertainty_records_reserved
        &&& self.cost.uncertainty_records_reserved == self.reserved()
        &&& self.cost.selected_records - self.cost.uncertainty_records_selected
            <= budget.max_records - self.reserved()
    }

    /// The coverage ledger adds up.
    pub open spec fn coverage_reconciles(self) -> bool {
        self.coverage.complete + self.coverage.partial + self.coverage.unsupported
            + self.coverage.excluded + self.coverage.failed == self.coverage.eligible
    }

    /// The omission ledger adds up, and an exhausted budget was really used up.
    pub open spec fn omissions_reconcile(self) -> bool {
        let o = self.omissions;
        let ordinary = self.cost.selected_records - self.cost.uncertainty_records_selected;
        let skipped = match o.by_reason.count(IrOmissionReasonV2::WorkUnitBudget) {
            Some(count) => count as int,
            None => 0,
        };
        &&& o.by_reason.total() == o.omitted
        &&& o.selected == self.working_set@.len()
        &&& o.candidates_considered <= MAX_CONTEXT_EXECUTION_RECORDS
        &&& o.candidates_considered == o.selected + o.omitted
        &&& o.truncated == (o.omitted != 0)
        &&& forall|i: int| 0 <= i < 17 ==> #[trigger] o.by_reason.counts@[i] != Some(0u64)
        &&& o.candidates_considered >= skipped
        &&& self.cost.work_units_consumed >= o.candidates_considered - skipped
        &&& o.by_reason.count(IrOmissionReasonV2::RecordBudget) is Some ==> ordinary
            == self.policy.semantic_budget.max_records - self.reserved()
        &&& o.by_reason.count(IrOmissionReasonV2::UncertaintyReserve) is Some
            ==> self.cost.uncertainty_records_selected == self.reserved()
    }

    /// Every collection is in its canonical order.
    pub open spec fn collections_canonical(self) -> bool {
        &&& reasons_ascending(self.status.reasons@)
        &&& reasons_ascending(self.coverage.deficits@)
        &&& forall|i: int|
            0 <= i < self.status.role_sufficiency@.len() ==> texts_ascending(
                (#[trigger] self.status.role_sufficiency@[i]).evidence_item_ids@,
            )
        &&& texts_ascending(self.temporal_constraints.evidence_item_ids@)
        &&& sorted::strictly_sorted::<String>(relationship_ids(self.relationships@))
        &&& effects_ascending(self.effects@)
        &&& reasons_ascending(notice_codes(self.uncertainty@))
        &&& forall|i: int|
            0 <= i < self.uncertainty@.len() ==> texts_ascending(
                (#[trigger] self.uncertainty@[i]).entity_ids@,
            )
        &&& sorted::strictly_sorted::<String>(validation_targets(self.validation_plan@))
        &&& sorted::strictly_sorted::<String>(dependency_keys(self.evidence_lease.dependencies@))
    }

    /// The role matrix is that of the recipe.
    pub open spec fn matrix_matches(self, recipe: RoleRecipe) -> bool {
        let roles = self.status.role_sufficiency@;
        &&& roles.len() == recipe.role_matrix@.len()
        &&& forall|i: int|
            0 <= i < roles.len() ==> (#[trigger] roles[i]).role == recipe.role_matrix@[i].0
                && roles[i].required == recipe.role_matrix@[i].1
    }
}

fn are_relationships_valid(s: &Vec<IrRelationship>, generation_id: &str) -> (r: bool)
    ensures
        r == forall|i: int|
            0 <= i < s@.len() ==> evidence_valid((#[trigger] s@[i]).evidence, generation_id@),
{
    for i in 0..s.len()
        invariant
            forall|j: int|
                0 <= j < i ==> evidence_valid((#[trigger] s@[j]).evidence, generation_id@),
    {
        if !is_evidence_valid(&s[i].evidence, generation_id) {
            assert(!evidence_valid(s@[i as int].evidence, generation_id@));
            return false;
        }
    }
    true
}

fn are_effects_valid(s: &Vec<IrEffect>, generation_id: &str) -> (r: bool)
    ensures
        r == forall|i: int|
            0 <= i < s@.len() ==> evidence_valid((#[trigger] s@[i]).evidence, generation_id@),
{
    for i in 0..s.len()
        invariant
            forall|j: int|
                0 <= j < i ==> evidence_valid((#[trigger] s@[j]).evidence, generation_id@),
    {
        if !is_evidence_valid(&s[i].evidence, generation_id) {
            assert(!evidence_valid(s@[i as int].evidence, generation_id@));
            return false;
        }
    }
    true
}

fn are_dependencies_valid(s: &Vec<IrLeaseDependencyV2>) -> (r: bool)
    ensures
        r == forall|i: int|
            0 <= i < s@.len() ==> (#[trigger] s@[i]).key@.len() > 0 && text::hex64(s@[i].digest@),
{
    for i in 0..s.len()
        invariant
            forall|j: int|
                0 <= j < i ==> (#[trigger] s@[j]).key@.len() > 0 && text::hex64(s@[j].digest@),
    {
        if s[i].key.as_str().is_empty() || !is_hex64(s[i].digest.as_str()) {
            assert(!(s@[i as int].key@.len() > 0 && text::hex64(s@[i as int].digest@)));
            return false;
        }
    }
    true
}

impl DeepContextIrV2 {
    fn is_policy_fixed(&self) -> (r: bool)
        ensures
            r == self.policy_fixed(),
    {
        text::text_eq(self.policy.planner_policy_version.as_str(), DEEP_PLANNER_VERSION)
            && text::text_eq(self.policy.projection_policy_version.as_str(), DEEP_PROJECTION_VERSION)
            && text::text_eq(self.policy.estimator_version.as_str(), DEEP_ESTIMATOR_VERSION)
            && self.policy.deterministic
    }

    fn are_identities_present(&self) -> (r: bool)
        ensures
            r == self.identities_present(),
    {
        !self.context_id.as_str().is_empty() && !self.workspace.workspace_id.as_str().is_empty()
            && !self.workspace.generation_id.as_str().is_empty()
            && !self.task.task_session_id.as_str().is_empty()
    }

    fn are_digests_valid(&self) -> (r: bool)
        ensures
            r == self.digests_valid(),
    {
        is_hex64(self.workspace.configuration_hash.as_str()) && is_hex64(
            self.workspace.provider_set_hash.as_str(),
        ) && is_opt_hex64(&self.workspace.source_tree_hash) && is_hex64(
            self.task.task_hash.as_str(),
        ) && is_hex64(self.task.normalized_goal_hash.as_str())
    }

    fn do_generations_agree(&self) -> (r: bool)
        ensures
            r == self.generations_agree(),
    {
        text::text_eq(
            self.temporal_constraints.current_generation_id.as_str(),
            self.workspace.generation_id.as_str(),
        ) && text::text_eq(
            self.evidence_lease.generation_id.as_str(),
            self.workspace.generation_id.as_str(),
        )
    }

    fn are_evidence_sections_valid(&self) -> (r: bool)
        ensures
            r == self.evidence_sections_valid(),
    {
        let generation_id = self.workspace.generation_id.as_str();
        are_relationships_valid(&self.relationships, generation_id) && are_effects_valid(
            &self.effects,
            generation_id,
        ) && are_dependencies_valid(&self.evidence_lease.dependencies)
            && are_dependencies_ascending(&self.evidence_lease.dependencies)
    }

    fn does_cost_reconcile(&self, reserved: u64) -> (r: bool)
        requires
            reserved == self.reserved(),
            reserved <= self.policy.semantic_budget.max_records,
        ensures
            r == self.cost_reconciles(),
    {
        let budget = &self.policy.semantic_budget;
        let totals = working_set_totals(&self.working_set);
        if totals.source_bytes != self.cost.selected_source_bytes as u128 || totals.tokens
            != self.cost.selected_estimated_tokens as u128 || self.cost.selected_records
            != self.working_set.len() as u64 || self.cost.selected_records > budget.max_records
            || self.cost.selected_source_bytes > budget.max_source_bytes
            || self.cost.selected_estimated_tokens > budget.max_estimated_tokens
            || self.cost.relationship_depth_reached != totals.distance
            || self.cost.relationship_depth_reached > budget.max_relationship_depth
            || self.cost.work_units_consumed > budget.max_work_units
            || self.cost.uncertainty_records_selected != totals.uncertainty
            || self.cost.uncertainty_records_selected > self.cost.uncertainty_records_reserved
            || self.cost.uncertainty_records_reserved != reserved {
            return false;
        }
        self.cost.selected_records - self.cost.uncertainty_records_selected <= budget.max_records
            - reserved
    }

    fn does_coverage_reconcile(&self) -> (r: bool)
        ensures
            r == self.coverage_reconciles(),
    {
        let total: u128 = self.coverage.complete as u128 + self.coverage.partial as u128
            + self.coverage.unsupported as u128 + self.coverage.excluded as u128
            + self.coverage.failed as u128;
        total == self.coverage.eligible as u128
    }

    fn do_omissions_reconcile(&self, reserved: u64) -> (r: bool)
        requires
            reserved == self.reserved(),
            reserved <= self.policy.semantic_budget.max_records,
            self.cost_reconciles(),
        ensures
            r == self.omissions_reconcile(),
    {
        let o = &self.omissions;
        for i in 0usize..17
            invariant
                *o == self.omissions,
                forall|j: int| 0 <= j < i ==> #[trigger] o.by_reason.counts@[j] != Some(0u64),
        {
            if let Some(count) = o.by_reason.counts[i] {
                if count == 0 {
                    assert(o.by_reason.counts@[i as int] == Some(0u64));
                    return false;
                }
            }
        }
        let skipped: u64 = match o.by_reason.get(IrOmissionReasonV2::WorkUnitBudget) {
            Some(count) => count,
            None => 0,
        };
        proof {
            lemma_uncertainty_count_bound(self.working_set@);
        }
        let ordinary: u64 = self.cost.selected_records - self.cost.uncertainty_records_selected;
        if o.by_reason.sum() != o.omitted as u128 || o.selected != self.working_set.len() as u64
            || o.candidates_considered > MAX_CONTEXT_EXECUTION_RECORDS
            || o.candidates_considered as u128 != o.selected as u128 + o.omitted as u128
            || o.truncated != (o.omitted != 0) || o.candidates_considered < skipped {
            return false;
        }
        if self.cost.work_units_consumed < o.candidates_considered - skipped {
            return false;
        }
        if o.by_reason.get(IrOmissionReasonV2::RecordBudget).is_some() && ordinary
            != self.policy.semantic_budget.max_records - reserved {
            return false;
        }
        if o.by_reason.get(IrOmissionReasonV2::UncertaintyReserve).is_some()
            && self.cost.uncertainty_records_selected != reserved {
            return false;
        }
        true
    }

    fn are_collections_canonical(&self) -> (r: bool)
        ensures
            r == self.collections_canonical(),
    {
        if !are_reasons_ascending(&self.status.reasons) || !are_reasons_ascending(
            &self.coverage.deficits,
        ) {
            return false;
        }
        for i in 0..self.status.role_sufficiency.len()
            invariant
                forall|j: int|
                    0 <= j < i ==> texts_ascending(
                        (#[trigger] self.status.role_sufficiency@[j]).evidence_item_ids@,
                    ),
        {
            if !are_texts_ascending(&self.status.role_sufficiency[i].evidence_item_ids) {
                assert(!texts_ascending(
                    self.status.role_sufficiency@[i as int].evidence_item_ids@,
                ));
                return false;
            }
        }
        let codes = collect_codes(&self.uncertainty);
        if !are_texts_ascending(&self.temporal_constraints.evidence_item_ids)
            || !are_relationships_ascending(&self.relationships) || !are_effects_ascending(
            &self.effects,
        ) || !are_reasons_ascending(&codes) {
            return false;
        }
        for i in 0..self.uncertainty.len()
            invariant
                forall|j: int|
                    0 <= j < i ==> texts_ascending((#[trigger] self.uncertainty@[j]).entity_ids@),
        {
            if !are_texts_ascending(&self.uncertainty[i].entity_ids) {
                assert(!texts_ascending(self.uncertainty@[i as int].entity_ids@));
                return false;
            }
        }
        are_validations_ascending(&self.validation_plan) && are_dependency_keys_ascending(
            &self.evidence_lease.dependencies,
        )
    }

    fn does_matrix_match(&self, recipe: &RoleRecipe) -> (r: bool)
        ensures
            r == self.matrix_matches(*recipe),
    {
        if self.status.role_sufficiency.len() != recipe.role_matrix.len() {
            return false;
        }
        for i in 0..self.status.role_sufficiency.len()
            invariant
                self.status.role_sufficiency@.len() == recipe.role_matrix@.len(),
                forall|j: int|
                    0 <= j < i ==> (#[trigger] self.status.role_sufficiency@[j]).role
                        == recipe.role_matrix@[j].0 && self.status.role_sufficiency@[j].required
                        == recipe.role_matrix@[j].1,
        {
            if self.status.role_sufficiency[i].role != recipe.role_matrix[i].0
                || self.status.role_sufficiency[i].required != recipe.role_matrix[i].1 {
                assert(!(self.status.role_sufficiency@[i as int].role
                    == recipe.role_matrix@[i as int].0
                    && self.status.role_sufficiency@[i as int].required
                    == recipe.role_matrix@[i as int].1));
                return false;
            }
        }
        true
    }
}

proof fn lemma_uncertainty_count_bound(items: Seq<IrWorkingSetItemV2>)
    ensures
        0 <= uncertainty_count(items) <= items.len(),
    decreases items.len(),
{
    if items.len() > 0 {
        lemma_uncertainty_count_bound(items.drop_last());
    }
}

/// Some item has the identifier.
pub open spec fn has_item(items: Seq<IrWorkingSetItemV2>, id: Seq<char>) -> bool {
    exists|i: int| 0 <= i < items.len() && (#[trigger] items[i]).item_id@ == id
}

/// Some item has the identifier and plays the role.
pub open spec fn has_item_in_role(
    items: Seq<IrWorkingSetItemV2>,
    id: Seq<char>,
    role: ItemRole,
) -> bool {
    exists|i: int|
        0 <= i < items.len() && (#[trigger] items[i]).item_id@ == id && items[i].role == role
}

/// Some item has the identifier and qualified evidence.
pub open spec fn has_qualified_item(items: Seq<IrWorkingSetItemV2>, id: Seq<char>) -> bool {
    exists|i: int|
        0 <= i < items.len() && (#[trigger] items[i]).item_id@ == id && qualified(
            items[i].evidence.state,
        )
}

/// Some item has the identifier and a current source.
pub open spec fn has_item_with_source(items: Seq<IrWorkingSetItemV2>, id: Seq<char>) -> bool {
    exists|i: int|
        0 <= i < items.len() && (#[trigger] items[i]).item_id@ == id && items[i].source is Some
            && source_current(items[i].source->0)
}

/// Some item has the identifier and stands for the entity.
pub open spec fn has_item_for(
    items: Seq<IrWorkingSetItemV2>,
    id: Seq<char>,
    entity: Seq<char>,
) -> bool {
    exists|i: int|
        0 <= i < items.len() && (#[trigger] items[i]).item_id@ == id && items[i].entity_id@
            == entity
}

/// Some item stands for the entity.
pub open spec fn has_entity(items: Seq<IrWorkingSetItemV2>, entity: Seq<char>) -> bool {
    exists|i: int| 0 <= i < items.len() && (#[trigger] items[i]).entity_id@ == entity
}

/// Some of the identifiers is that of an item for the entity.
pub open spec fn some_item_for(
    items: Seq<IrWorkingSetItemV2>,
    ids: Seq<String>,
    entity: Seq<char>,
) -> bool {
    exists|k: int| 0 <= k < ids.len() && has_item_for(items, (#[trigger] ids[k])@, entity)
}

fn find_item(items: &Vec<IrWorkingSetItemV2>, id: &str) -> (r: bool)
    ensures
        r == has_item(items@, id@),
{
    for i in 0..items.len()
        invariant
            forall|j: int| 0 <= j < i ==> (#[trigger] items@[j]).item_id@ != id@,
    {
        if text::text_eq(items[i].item_id.as_str(), id) {
            return true;
        }
    }
    false
}

fn find_item_in_role(items: &Vec<IrWorkingSetItemV2>, id: &str, role: ItemRole) -> (r: bool)
    ensures
        r == has_item_in_role(items@, id@, role),
{
    for i in 0..items.len()
        invariant
            forall|j: int|
                0 <= j < i ==> !((#[trigger] items@[j]).item_id@ == id@ && items@[j].role == role),
    {
        if items[i].role == role && text::text_eq(items[i].item_id.as_str(), id) {
            return true;
        }
    }
    false
}

fn find_qualified_item(items: &Vec<IrWorkingSetItemV2>, id: &str) -> (r: bool)
    ensures
        r == has_qualified_item(items@, id@),
{
    for i in 0..items.len()
        invariant
            forall|j: int|
                0 <= j < i ==> !((#[trigger] items@[j]).item_id@ == id@ && qualified(
                    items@[j].evidence.state,
                )),
    {
        if is_qualified(items[i].evidence.state) && text::text_eq(items[i].item_id.as_str(), id) {
            return true;
        }
    }
    false
}

fn find_item_with_source(items: &Vec<IrWorkingSetItemV2>, id: &str) -> (r: bool)
    ensures
        r == has_item_with_source(items@, id@),
{
    for i in 0..items.len()
        invariant
            forall|j: int|
                0 <= j < i ==> !((#[trigger] items@[j]).item_id@ == id@ && items@[j].source is Some
                    && source_current(items@[j].source->0)),
    {
        if let Some(source) = &items[i].source {
            if is_source_current(source) && text::text_eq(items[i].item_id.as_str(), id) {
                assert(items@[i as int].source is Some && source_current(
                    items@[i as int].source->0,
                ));
                return true;
            }
        }
    }
    false
}

fn find_item_for(items: &Vec<IrWorkingSetItemV2>, id: &str, entity: &str) -> (r: bool)
    ensures
        r == has_item_for(items@, id@, entity@),
{
    for i in 0..items.len()
        invariant
            forall|j: int|
                0 <= j < i ==> !((#[trigger] items@[j]).item_id@ == id@ && items@[j].entity_id@
                    == entity@),
    {
        if text::text_eq(items[i].item_id.as_str(), id) && text::text_eq(
            items[i].entity_id.as_str(),
            entity,
        ) {
            return true;
        }
    }
    false
}

fn find_entity(items: &Vec<IrWorkingSetItemV2>, entity: &str) -> (r: bool)
    ensures
        r == has_entity(items@, entity@),
{
    for i in 0..items.len()
        invariant
            forall|j: int| 0 <= j < i ==> (#[trigger] items@[j]).entity_id@ != entity@,
    {
        if text::text_eq(items[i].entity_id.as_str(), entity) {
            return true;
        }
    }
    false
}

fn find_some_item_for(items: &Vec<IrWorkingSetItemV2>, ids: &Vec<String>, entity: &str) -> (r: bool)
    ensures
        r == some_item_for(items@, ids@, entity@),
{
    for k in 0..ids.len()
        invariant
            forall|j: int| 0 <= j < k ==> !has_item_for(items@, (#[trigger] ids@[j])@, entity@),
    {
        if find_item_for(items, ids[k].as_str(), entity) {
            return true;
        }
    }
    false
}

/// The first entry for a role, from `index` on.
pub open spec fn entry_from(
    entries: Seq<IrRoleSufficiencyV2>,
    role: ItemRole,
    index: int,
) -> Option<IrRoleSufficiencyV2>
    decreases entries.len() - index,
{
    if index < 0 || index >= entries.len() {
        None
    } else if entries[index].role == role {
        Some(entries[index])
    } else {
        entry_from(entries, role, index + 1)
    }
}

fn find_entry(entries: &Vec<IrRoleSufficiencyV2>, role: ItemRole) -> (r: Option<
    &IrRoleSufficiencyV2,
>)
    ensures
        match r {
            Some(entry) => entry_from(entries@, role, 0) == Some(*entry),
            None => entry_from(entries@, role, 0) is None,
        },
{
    for i in 0..entries.len()
        invariant
            entry_from(entries@, role, 0) == entry_from(entries@, role, i as int),
    {
        if entries[i].role == role {
            return Some(&entries[i]);
        }
    }
    None
}

/// The entry refers only to items of its role, its reason goes with its state, and
/// a satisfied role rests on qualified evidence.
pub open spec fn entry_backed(
    entry: IrRoleSufficiencyV2,
    items: Seq<IrWorkingSetItemV2>,
) -> bool {
    let ids = entry.evidence_item_ids@;
    &&& reason_matches_state(entry.state, entry.reason)
    &&& forall|k: int|
        0 <= k < ids.len() ==> has_item_in_role(items, (#[trigger] ids[k])@, entry.role)
    &&& entry.state == IrRequirementStateV2::Satisfied ==> {
        &&& ids.len() > 0
        &&& forall|k: int| 0 <= k < ids.len() ==> has_qualified_item(items, (#[trigger] ids[k])@)
    }
}

fn is_entry_backed(entry: &IrRoleSufficiencyV2, items: &Vec<IrWorkingSetItemV2>) -> (r: bool)
    ensures
        r == entry_backed(*entry, items@),
{
    let satisfied = entry.state == IrRequirementStateV2::Satisfied;
    if !does_reason_match(entry.state, entry.reason) || (satisfied && entry.evidence_item_ids.len()
        == 0) {
        return false;
    }
    for k in 0..entry.evidence_item_ids.len()
        invariant
            satisfied == (entry.state == IrRequirementStateV2::Satisfied),
            forall|j: int|
                0 <= j < k ==> has_item_in_role(
                    items@,
                    (#[trigger] entry.evidence_item_ids@[j])@,
                    entry.role,
                ),
            satisfied ==> forall|j: int|
                0 <= j < k ==> has_qualified_item(
                    items@,
                    (#[trigger] entry.evidence_item_ids@[j])@,
                ),
    {
        let id = entry.evidence_item_ids[k].as_str();
        if !find_item_in_role(items, id, entry.role) {
            assert(!has_item_in_role(
                items@,
                entry.evidence_item_ids@[k as int]@,
                entry.role,
            ));
            return false;
        }
        if satisfied && !find_qualified_item(items, id) {
            assert(!has_qualified_item(items@, entry.evidence_item_ids@[k as int]@));
            return false;
        }
    }
    true
}

impl DeepContextIrV2 {
    /// The first entry of the role matrix for a role.
    pub open spec fn role_entry(self, role: ItemRole) -> Option<IrRoleSufficiencyV2> {
        entry_from(self.status.role_sufficiency@, role, 0)
    }

    /// The primary implementation has a current source in the working set.
    pub open spec fn exact_source_witnessed(self) -> bool {
        self.role_entry(ItemRole::PrimaryImplementation) matches Some(entry) && exists|k: int|
            0 <= k < entry.evidence_item_ids@.len() && has_item_with_source(
                self.working_set@,
                (#[trigger] entry.evidence_item_ids@[k])@,
            )
    }

    /// Every selected source is current.
    pub open spec fn sources_current(self) -> bool {
        forall|i: int|
            0 <= i < self.working_set@.len() && (#[trigger] self.working_set@[i]).source is Some
                ==> source_current(self.working_set@[i].source->0)
    }

    /// A required validation targets an entity of the validation role.
    pub open spec fn validation_witnessed(self) -> bool {
        self.role_entry(ItemRole::ValidationTarget) matches Some(entry) && exists|v: int|
            0 <= v < self.validation_plan@.len() && (#[trigger] self.validation_plan@[v]).required
                && self.validation_plan@[v].target_entity_id@.len() > 0 && some_item_for(
                self.working_set@,
                entry.evidence_item_ids@,
                self.validation_plan@[v].target_entity_id@,
            )
    }

    /// A qualified effect has an entity of the effect role for its subject.
    pub open spec fn effect_witnessed(self) -> bool {
        self.role_entry(ItemRole::Effect) matches Some(entry) && exists|e: int|
            0 <= e < self.effects@.len() && qualified(
                (#[trigger] self.effects@[e]).evidence.state,
            ) && some_item_for(
                self.working_set@,
                entry.evidence_item_ids@,
                self.effects@[e].subject_entity_id@,
            )
    }

    /// The temporal section names a verified ancestor, backed by items of the
    /// historical role.
    pub open spec fn history_witnessed(self) -> bool {
        let t = self.temporal_constraints;
        self.role_entry(ItemRole::HistoricalConstraint) matches Some(entry) && t.state
            == IrTemporalStateV2::VerifiedAncestor && t.baseline_generation_id is Some
            && t.omission_reason is None && t.evidence_item_ids@.len() > 0 && forall|k: int|
            0 <= k < t.evidence_item_ids@.len() ==> text::texts(entry.evidence_item_ids@).contains(
                (#[trigger] t.evidence_item_ids@[k])@,
            )
    }

    /// Every claim of the status is backed by the sections of the document.
    pub open spec fn claims_backed(self) -> bool {
        let entries = self.status.role_sufficiency@;
        let t = self.temporal_constraints.evidence_item_ids@;
        &&& forall|i: int|
            0 <= i < entries.len() ==> entry_backed(#[trigger] entries[i], self.working_set@)
        &&& (self.status.exact_source == IrRequirementStateV2::Satisfied)
            == self.exact_source_witnessed()
        &&& (self.status.validation == IrRequirementStateV2::Satisfied)
            == self.validation_witnessed()
        &&& self.status.working_set_status == WorkingSetStatus::Complete ==> self.sources_current()
        &&& self.role_entry(ItemRole::Effect) is Some && self.role_entry(ItemRole::Effect)->0.state
            == IrRequirementStateV2::Satisfied ==> self.effect_witnessed()
        &&& self.role_entry(ItemRole::HistoricalConstraint) is Some && self.role_entry(
            ItemRole::HistoricalConstraint,
        )->0.state == IrRequirementStateV2::Satisfied ==> self.history_witnessed()
        &&& forall|k: int| 0 <= k < t.len() ==> has_item(self.working_set@, (#[trigger] t[k])@)
    }

    fn is_exact_source_witnessed(&self) -> (r: bool)
        ensures
            r == self.exact_source_witnessed(),
    {
        match find_entry(&self.status.role_sufficiency, ItemRole::PrimaryImplementation) {
            None => false,
            Some(entry) => {
                for k in 0..entry.evidence_item_ids.len()
                    invariant
                        self.role_entry(ItemRole::PrimaryImplementation) == Some(*entry),
                        forall|j: int|
                            0 <= j < k ==> !has_item_with_source(
                                self.working_set@,
                                (#[trigger] entry.evidence_item_ids@[j])@,
                            ),
                {
                    if find_item_with_source(
                        &self.working_set,
                        entry.evidence_item_ids[k].as_str(),
                    ) {
                        return true;
                    }
                }
                false
            },
        }
    }

    fn are_sources_current(&self) -> (r: bool)
        ensures
            r == self.sources_current(),
    {
        for i in 0..self.working_set.len()
            invariant
                forall|j: int|
                    0 <= j < i && (#[trigger] self.working_set@[j]).source is Some
                        ==> source_current(self.working_set@[j].source->0),
        {
            if let Some(source) = &self.working_set[i].source {
                if !is_source_current(source) {
                    assert(self.working_set@[i as int].source is Some && !source_current(
                        self.working_set@[i as int].source->0,
                    ));
                    return false;
                }
            }
        }
        true
    }

    fn is_validation_witnessed(&self) -> (r: bool)
        ensures
            r == self.validation_witnessed(),
    {
        match find_entry(&self.status.role_sufficiency, ItemRole::ValidationTarget) {
            None => false,
            Some(entry) => {
                for v in 0..self.validation_plan.len()
                    invariant
                        self.role_entry(ItemRole::ValidationTarget) == Some(*entry),
                        forall|j: int|
                            0 <= j < v ==> !((#[trigger] self.validation_plan@[j]).required
                                && self.validation_plan@[j].target_entity_id@.len() > 0
                                && some_item_for(
                                self.working_set@,
                                entry.evidence_item_ids@,
                                self.validation_plan@[j].target_entity_id@,
                            )),
                {
                    let validation = &self.validation_plan[v];
                    if validation.required && !validation.target_entity_id.as_str().is_empty()
                        && find_some_item_for(
                        &self.working_set,
                        &entry.evidence_item_ids,
                        validation.target_entity_id.as_str(),
                    ) {
                        return true;
                    }
                }
                false
            },
        }
    }

    fn is_effect_witnessed(&self) -> (r: bool)
        ensures
            r == self.effect_witnessed(),
    {
        match find_entry(&self.status.role_sufficiency, ItemRole::Effect) {
            None => false,
            Some(entry) => {
                for e in 0..self.effects.len()
                    invariant
                        self.role_entry(ItemRole::Effect) == Some(*entry),
                        forall|j: int|
                            0 <= j < e ==> !(qualified((#[trigger] self.effects@[j]).evidence.state)
                                && some_item_for(
                                self.working_set@,
                                entry.evidence_item_ids@,
                                self.effects@[j].subject_entity_id@,
                            )),
                {
                    let effect = &self.effects[e];
                    if is_qualified(effect.evidence.state) && find_some_item_for(
                        &self.working_set,
                        &entry.evidence_item_ids,
                        effect.subject_entity_id.as_str(),
                    ) {
                        return true;
                    }
                }
                false
            },
        }
    }

    fn is_history_witnessed(&self) -> (r: bool)
        ensures
            r == self.history_witnessed(),
    {
        let t = &self.temporal_constraints;
        match find_entry(&self.status.role_sufficiency, ItemRole::HistoricalConstraint) {
            None => false,
            Some(entry) => {
                if t.state != IrTemporalStateV2::VerifiedAncestor
                    || t.baseline_generation_id.is_none() || t.omission_reason.is_some()
                    || t.evidence_item_ids.len() == 0 {
                    return false;
                }
                for k in 0..t.evidence_item_ids.len()
                    invariant
                        *t == self.temporal_constraints,
                        self.role_entry(ItemRole::HistoricalConstraint) == Some(*entry),
                        forall|j: int|
                            0 <= j < k ==> text::texts(entry.evidence_item_ids@).contains(
                                (#[trigger] t.evidence_item_ids@[j])@,
                            ),
                {
                    if !text::has_text(&entry.evidence_item_ids, t.evidence_item_ids[k].as_str()) {
                        assert(!text::texts(entry.evidence_item_ids@).contains(
                            t.evidence_item_ids@[k as int]@,
                        ));
                        return false;
                    }
                }
                true
            },
        }
    }

    fn are_entries_backed(&self) -> (r: bool)
        ensures
            r == forall|i: int|
                0 <= i < self.status.role_sufficiency@.len() ==> entry_backed(
                    #[trigger] self.status.role_sufficiency@[i],
                    self.working_set@,
                ),
    {
        for i in 0..self.status.role_sufficiency.len()
            invariant
                forall|j: int|
                    0 <= j < i ==> entry_backed(
                        #[trigger] self.status.role_sufficiency@[j],
                        self.working_set@,
                    ),
        {
            if !is_entry_backed(&self.status.role_sufficiency[i], &self.working_set) {
                assert(!entry_backed(
                    self.status.role_sufficiency@[i as int],
                    self.working_set@,
                ));
                return false;
            }
        }
        true
    }

    fn are_claims_backed(&self) -> (r: bool)
        ensures
            r == self.claims_backed(),
    {
        if !self.are_entries_backed() {
            return false;
        }
        let exact = self.is_exact_source_witnessed();
        let validation = self.is_validation_witnessed();
        if (self.status.exact_source == IrRequirementStateV2::Satisfied) != exact || (
        self.status.validation == IrRequirementStateV2::Satisfied) != validation {
            return false;
        }
        if self.status.working_set_status == WorkingSetStatus::Complete
            && !self.are_sources_current() {
            return false;
        }
        if let Some(entry) = find_entry(&self.status.role_sufficiency, ItemRole::Effect) {
            if entry.state == IrRequirementStateV2::Satisfied && !self.is_effect_witnessed() {
                return false;
            }
        }
        if let Some(entry) = find_entry(
            &self.status.role_sufficiency,
            ItemRole::HistoricalConstraint,
        ) {
            if entry.state == IrRequirementStateV2::Satisfied && !self.is_history_witnessed() {
                return false;
            }
        }
        let ids = &self.temporal_constraints.evidence_item_ids;
        for k in 0..ids.len()
            invariant
                *ids == self.temporal_constraints.evidence_item_ids,
                forall|j: int| 0 <= j < k ==> has_item(self.working_set@, (#[trigger] ids@[j])@),
        {
            if !find_item(&self.working_set, ids[k].as_str()) {
                assert(!has_item(self.working_set@, ids@[k as int]@));
                return false;
            }
        }
        true
    }
}

/// The reason is a deficit that a complete document cannot have.
pub open spec fn required_deficit(reason: IrOmissionReasonV2, recipe: RoleRecipe) -> bool {
    ||| reason == IrOmissionReasonV2::MissingRequiredRole
    ||| reason == IrOmissionReasonV2::SourceVerificationFailed
    ||| reason == IrOmissionReasonV2::ValidationTargetUnavailable
    ||| reason == IrOmissionReasonV2::TemporalEvidenceUnavailable
        && recipe.required_roles@.contains(ItemRole::HistoricalConstraint)
}

fn has_role(s: &Vec<ItemRole>, role: ItemRole) -> (r: bool)
    ensures
        r == s@.contains(role),
{
    for i in 0..s.len()
        invariant
            forall|j: int| 0 <= j < i ==> s@[j] != role,
    {
        if s[i] == role {
            assert(s@[i as int] == role);
            return true;
        }
    }
    false
}

fn is_required_deficit(reason: IrOmissionReasonV2, recipe: &RoleRecipe) -> (r: bool)
    ensures
        r == required_deficit(reason, *recipe),
{
    reason == IrOmissionReasonV2::MissingRequiredRole || reason
        == IrOmissionReasonV2::SourceVerificationFailed || reason
        == IrOmissionReasonV2::ValidationTargetUnavailable || (reason
        == IrOmissionReasonV2::TemporalEvidenceUnavailable && has_role(
        &recipe.required_roles,
        ItemRole::HistoricalConstraint,
    ))
}

/// Some reason of the list is a deficit that a complete document cannot have.
pub open spec fn any_required_deficit(s: Seq<IrOmissionReasonV2>, recipe: RoleRecipe) -> bool {
    exists|i: int| 0 <= i < s.len() && required_deficit(#[trigger] s[i], recipe)
}

fn has_required_deficit(s: &Vec<IrOmissionReasonV2>, recipe: &RoleRecipe) -> (r: bool)
    ensures
        r == any_required_deficit(s@, *recipe),
{
    for i in 0..s.len()
        invariant
            forall|j: int| 0 <= j < i ==> !required_deficit(#[trigger] s@[j], *recipe),
    {
        if is_required_deficit(s[i], recipe) {
            return true;
        }
    }
    false
}

impl DeepContextIrV2 {
    /// Every required role is satisfied, and so is what must hold beyond roles.
    pub open spec fn requirements_satisfied(self, recipe: RoleRecipe) -> bool {
        &&& forall|i: int|
            0 <= i < self.status.role_sufficiency@.len() && (
            #[trigger] self.status.role_sufficiency@[i]).required
                ==> self.status.role_sufficiency@[i].state == IrRequirementStateV2::Satisfied
        &&& recipe.requires_exact_source ==> self.status.exact_source
            == IrRequirementStateV2::Satisfied
        &&& recipe.requires_validation ==> self.status.validation
            == IrRequirementStateV2::Satisfied
    }

    /// No ledger lists a deficit that a complete document cannot have.
    pub open spec fn no_required_deficits(self, recipe: RoleRecipe) -> bool {
        &&& forall|reason: IrOmissionReasonV2|
            #[trigger] self.omissions.by_reason.count(reason) is Some ==> !required_deficit(
                reason,
                recipe,
            )
        &&& !any_required_deficit(self.coverage.deficits@, recipe)
        &&& !any_required_deficit(notice_codes(self.uncertainty@), recipe)
    }

    /// Each unsatisfied requirement is reported among the reasons.
    pub open spec fn reasons_reported(self, recipe: RoleRecipe) -> bool {
        let entries = self.status.role_sufficiency@;
        let reasons = self.status.reasons@;
        &&& forall|i: int|
            0 <= i < entries.len() && (#[trigger] entries[i]).required && entries[i].state
                != IrRequirementStateV2::Satisfied ==> entries[i].reason is Some
                && reasons.contains(entries[i].reason->0)
        &&& recipe.requires_exact_source ==> self.status.exact_source
            == IrRequirementStateV2::Satisfied || reasons.contains(
            IrOmissionReasonV2::SourceVerificationFailed,
        )
        &&& recipe.requires_validation ==> self.status.validation
            == IrRequirementStateV2::Satisfied || reasons.contains(
            IrOmissionReasonV2::ValidationTargetUnavailable,
        )
    }

    /// The primary implementation can be worked on.
    pub open spec fn primary_safe(self, recipe: RoleRecipe) -> bool {
        self.role_entry(ItemRole::PrimaryImplementation) matches Some(entry) && entry.state
            == IrRequirementStateV2::Satisfied && (recipe.requires_exact_source
            ==> self.status.exact_source == IrRequirementStateV2::Satisfied)
    }

    /// The notice of a kind, if there is one: the first.
    pub open spec fn notice_from(self, code: IrOmissionReasonV2, index: int) -> Option<IrNoticeV2>
        decreases self.uncertainty@.len() - index,
    {
        if index < 0 || index >= self.uncertainty@.len() {
            None
        } else if self.uncertainty@[index].code == code {
            Some(self.uncertainty@[index])
        } else {
            self.notice_from(code, index + 1)
        }
    }

    /// A selected source could not be verified, and the notice says which.
    pub open spec fn selected_source_deficit(self) -> bool {
        self.notice_from(IrOmissionReasonV2::SourceVerificationFailed, 0) matches Some(notice)
            && notice.entity_ids@.len() > 0 && forall|k: int|
            0 <= k < notice.entity_ids@.len() ==> has_entity(
                self.working_set@,
                (#[trigger] notice.entity_ids@[k])@,
            )
    }

    /// The status says what the requirements say: complete only with nothing
    /// missing, partial only with a safe primary, blocked only without one.
    pub open spec fn status_valid(self, recipe: RoleRecipe) -> bool {
        match self.status.working_set_status {
            WorkingSetStatus::Complete => {
                &&& self.requirements_satisfied(recipe)
                &&& self.status.reasons@.len() == 0
                &&& self.no_required_deficits(recipe)
            },
            WorkingSetStatus::Partial => {
                &&& self.primary_safe(recipe)
                &&& !self.requirements_satisfied(recipe) || self.selected_source_deficit()
                &&& self.status.reasons@.len() > 0
                &&& self.reasons_reported(recipe)
            },
            WorkingSetStatus::Blocked => {
                &&& !self.primary_safe(recipe)
                &&& self.status.reasons@.len() > 0
                &&& self.reasons_reported(recipe)
            },
        }
    }

    fn are_requirements_satisfied(&self, recipe: &RoleRecipe) -> (r: bool)
        ensures
            r == self.requirements_satisfied(*recipe),
    {
        if (recipe.requires_exact_source && self.status.exact_source
            != IrRequirementStateV2::Satisfied) || (recipe.requires_validation
            && self.status.validation != IrRequirementStateV2::Satisfied) {
            return false;
        }
        for i in 0..self.status.role_sufficiency.len()
            invariant
                forall|j: int|
                    0 <= j < i && (#[trigger] self.status.role_sufficiency@[j]).required
                        ==> self.status.role_sufficiency@[j].state
                        == IrRequirementStateV2::Satisfied,
        {
            let entry = &self.status.role_sufficiency[i];
            if entry.required && entry.state != IrRequirementStateV2::Satisfied {
                assert(self.status.role_sufficiency@[i as int].required);
                return false;
            }
        }
        true
    }

    fn has_no_required_deficits(&self, recipe: &RoleRecipe) -> (r: bool)
        ensures
            r == self.no_required_deficits(*recipe),
    {
        let counts = &self.omissions.by_reason;
        let listed = counts.get(IrOmissionReasonV2::MissingRequiredRole).is_some() || counts.get(
            IrOmissionReasonV2::SourceVerificationFailed,
        ).is_some() || counts.get(IrOmissionReasonV2::ValidationTargetUnavailable).is_some() || (
        counts.get(IrOmissionReasonV2::TemporalEvidenceUnavailable).is_some() && has_role(
            &recipe.required_roles,
            ItemRole::HistoricalConstraint,
        ));
        let codes = collect_codes(&self.uncertainty);
        proof {
            if !listed {
                assert forall|reason: IrOmissionReasonV2|
                    #[trigger] self.omissions.by_reason.count(
                        reason,
                    ) is Some implies !required_deficit(reason, *recipe) by {}
            } else {
                let c = self.omissions.by_reason;
                if c.count(IrOmissionReasonV2::MissingRequiredRole) is Some {
                    assert(required_deficit(IrOmissionReasonV2::MissingRequiredRole, *recipe));
                } else if c.count(IrOmissionReasonV2::SourceVerificationFailed) is Some {
                    assert(required_deficit(IrOmissionReasonV2::SourceVerificationFailed, *recipe));
                } else if c.count(IrOmissionReasonV2::ValidationTargetUnavailable) is Some {
                    assert(required_deficit(
                        IrOmissionReasonV2::ValidationTargetUnavailable,
                        *recipe,
                    ));
                } else {
                    assert(required_deficit(
                        IrOmissionReasonV2::TemporalEvidenceUnavailable,
                        *recipe,
                    ));
                }
            }
        }
        !listed && !has_required_deficit(&self.coverage.deficits, recipe) && !has_required_deficit(
            &codes,
            recipe,
        )
    }

    fn are_reasons_reported(&self, recipe: &RoleRecipe) -> (r: bool)
        ensures
            r == self.reasons_reported(*recipe),
    {
        let reasons = &self.status.reasons;
        if recipe.requires_exact_source && self.status.exact_source
            != IrRequirementStateV2::Satisfied && !has_reason(
            reasons,
            IrOmissionReasonV2::SourceVerificationFailed,
        ) {
            return false;
        }
        if recipe.requires_validation && self.status.validation != IrRequirementStateV2::Satisfied
            && !has_reason(reasons, IrOmissionReasonV2::ValidationTargetUnavailable) {
            return false;
        }
        let entries = &self.status.role_sufficiency;
        for i in 0..entries.len()
            invariant
                *entries == self.status.role_sufficiency,
                *reasons == self.status.reasons,
                forall|j: int|
                    0 <= j < i && (#[trigger] entries@[j]).required && entries@[j].state
                        != IrRequirementStateV2::Satisfied ==> entries@[j].reason is Some
                        && reasons@.contains(entries@[j].reason->0),
        {
            if entries[i].required && entries[i].state != IrRequirementStateV2::Satisfied {
                let reported = match entries[i].reason {
                    Some(reason) => has_reason(reasons, reason),
                    None => false,
                };
                if !reported {
                    assert(entries@[i as int].required);
                    return false;
                }
            }
        }
        true
    }

    fn is_primary_safe(&self, recipe: &RoleRecipe) -> (r: bool)
        ensures
            r == self.primary_safe(*recipe),
    {
        match find_entry(&self.status.role_sufficiency, ItemRole::PrimaryImplementation) {
            Some(entry) => entry.state == IrRequirementStateV2::Satisfied && (
            !recipe.requires_exact_source || self.status.exact_source
                == IrRequirementStateV2::Satisfied),
            None => false,
        }
    }

    fn has_selected_source_deficit(&self) -> (r: bool)
        ensures
            r == self.selected_source_deficit(),
    {
        let code = IrOmissionReasonV2::SourceVerificationFailed;
        for i in 0..self.uncertainty.len()
            invariant
                code == IrOmissionReasonV2::SourceVerificationFailed,
                self.notice_from(code, 0) == self.notice_from(code, i as int),
        {
            let notice = &self.uncertainty[i];
            if notice.code == code {
                assert(self.notice_from(code, 0) == Some(*notice));
                if notice.entity_ids.len() == 0 {
                    return false;
                }
                for k in 0..notice.entity_ids.len()
                    invariant
                        code == IrOmissionReasonV2::SourceVerificationFailed,
                        self.notice_from(code, 0) == Some(*notice),
                        forall|j: int|
                            0 <= j < k ==> has_entity(
                                self.working_set@,
                                (#[trigger] notice.entity_ids@[j])@,
                            ),
                {
                    if !find_entity(&self.working_set, notice.entity_ids[k].as_str()) {
                        assert(!has_entity(self.working_set@, notice.entity_ids@[k as int]@));
                        return false;
                    }
                }
                return true;
            }
        }
        false
    }

    fn is_status_valid(&self, recipe: &RoleRecipe) -> (r: bool)
        ensures
            r == self.status_valid(*recipe),
    {
        match self.status.working_set_status {
            WorkingSetStatus::Complete => self.are_requirements_satisfied(recipe)
                && self.status.reasons.len() == 0 && self.has_no_required_deficits(recipe),
            WorkingSetStatus::Partial => self.is_primary_safe(recipe) && (
            !self.are_requirements_satisfied(recipe) || self.has_selected_source_deficit())
                && self.status.reasons.len() > 0 && self.are_reasons_reported(recipe),
            WorkingSetStatus::Blocked => !self.is_primary_safe(recipe)
                && self.status.reasons.len() > 0 && self.are_reasons_reported(recipe),
        }
    }
}

impl DeepContextIrV2 {
    /// The hash of the document's canonical identity. The contract and planner
    /// versions come first.
    pub open spec fn identity_hash(self) -> Seq<char> {
        digest::fields_digest(
            seq![digest::text_field("workspace-atlas/context-ir-v2"@)].push(
                digest::text_field(self.schema_version@),
            ).push(digest::text_field(self.policy.planner_policy_version@)).push(
                digest::text_field(json_tree::tree_text(json_tree::canonical(self.identity_tree()))),
            ),
        )
    }

    /// What is wrong with the document apart from its hash, if anything: the first
    /// section at fault, in the order in which they are checked.
    pub open spec fn content_fault(self, recipe: RoleRecipe) -> Option<Seq<char>> {
        let items = items_fault(
            self.working_set@,
            0,
            self.generation(),
            self.policy.semantic_budget.max_relationship_depth,
        );
        if self.schema_version@ != CONTEXT_SCHEMA_V2_VERSION@ {
            Some(
                "unsupported deep Context IR version "@ + self.schema_version@ + "; supported: "@
                    + CONTEXT_SCHEMA_V2_VERSION@,
            )
        } else if !self.policy_fixed() {
            Some("deep Context IR 2.0.0 requires its fixed planner, projection, and estimator"@)
        } else if !self.identities_present() {
            Some("deep Context IR contains an empty semantic identity"@)
        } else if !self.budget_valid() {
            Some("invalid deep Context IR semantic budget identity"@)
        } else if !self.digests_valid() {
            Some("deep Context IR contains an invalid workspace digest"@)
        } else if !self.generations_agree() {
            Some("deep Context IR generation-bound sections disagree"@)
        } else if !self.seeds_canonical() {
            Some("deep Context IR seeds are not sorted and deduplicated"@)
        } else if items is Some {
            items
        } else if !self.evidence_sections_valid() {
            Some("deep Context IR contains invalid qualified evidence"@)
        } else if !self.cost_reconciles() {
            Some("deep Context IR semantic cost ledger does not reconcile"@)
        } else if !self.coverage_reconciles() {
            Some("deep Context IR coverage ledger does not reconcile"@)
        } else if !self.omissions_reconcile() {
            Some("deep Context IR omission ledger does not reconcile"@)
        } else if !self.collections_canonical() {
            Some("deep Context IR collections are not canonically ordered"@)
        } else if !self.matrix_matches(recipe) {
            Some("deep Context IR role matrix does not match planner-v2.0.0"@)
        } else if !self.claims_backed() {
            Some("deep Context IR sufficiency is not backed by qualified evidence"@)
        } else if !self.status_valid(recipe) {
            Some("deep Context IR status contradicts required-role sufficiency"@)
        } else {
            None
        }
    }

    /// What is wrong with the document, if anything.
    pub open spec fn fault(self, recipe: RoleRecipe) -> Option<Seq<char>> {
        if self.content_fault(recipe) is Some {
            self.content_fault(recipe)
        } else if self.context_hash@ != self.identity_hash() {
            Some("deep Context IR canonical hash mismatch"@)
        } else {
            None
        }
    }

    fn check_head(&self) -> (r: Option<String>)
        ensures
            match r {
                Some(message) => forall|recipe: RoleRecipe| #[trigger]
                    self.content_fault(recipe) == Some(message@),
                None => {
                    &&& self.schema_version@ == CONTEXT_SCHEMA_V2_VERSION@
                    &&& self.policy_fixed()
                    &&& self.identities_present()
                    &&& self.budget_valid()
                    &&& self.digests_valid()
                    &&& self.generations_agree()
                    &&& self.seeds_canonical()
                },
            },
    {
        if !text::text_eq(self.schema_version.as_str(), CONTEXT_SCHEMA_V2_VERSION) {
            let mut message = "unsupported deep Context IR version ".to_string();
            message.append(self.schema_version.as_str());
            message.append("; supported: ");
            message.append(CONTEXT_SCHEMA_V2_VERSION);
            return Some(message);
        }
        if !self.is_policy_fixed() {
            return Some(
                "deep Context IR 2.0.0 requires its fixed planner, projection, and estimator".to_string(),
            );
        }
        if !self.are_identities_present() {
            return Some("deep Context IR contains an empty semantic identity".to_string());
        }
        if !self.policy.semantic_budget.is_valid() {
            return Some("invalid deep Context IR semantic budget identity".to_string());
        }
        if !self.are_digests_valid() {
            return Some("deep Context IR contains an invalid workspace digest".to_string());
        }
        if !self.do_generations_agree() {
            return Some("deep Context IR generation-bound sections disagree".to_string());
        }
        if !are_texts_ascending(&self.task.seed_paths) || !are_texts_ascending(
            &self.task.seed_symbols,
        ) {
            return Some("deep Context IR seeds are not sorted and deduplicated".to_string());
        }
        None
    }

    fn check_content(&self, recipe: &RoleRecipe) -> (r: Option<String>)
        ensures
            text::opt_text(r) == self.content_fault(*recipe),
    {
        match self.check_head() {
            Some(message) => {
                assert(self.content_fault(*recipe) == Some(message@));
                return Some(message);
            },
            None => {},
        }
        let budget = &self.policy.semantic_budget;
        proof {
            lemma_reserve_within(budget.max_records, budget.uncertainty_reserve_percent);
        }
        let reserved: u64 = match uncertainty_reserve_records(
            budget.max_records,
            budget.uncertainty_reserve_percent,
        ) {
            Ok(reserved) => reserved,
            Err(_) => 0,
        };
        match check_items(
            &self.working_set,
            self.workspace.generation_id.as_str(),
            budget.max_relationship_depth,
        ) {
            Some(message) => return Some(message.to_string()),
            None => {},
        }
        if !self.are_evidence_sections_valid() {
            return Some("deep Context IR contains invalid qualified evidence".to_string());
        }
        if !self.does_cost_reconcile(reserved) {
            return Some("deep Context IR semantic cost ledger does not reconcile".to_string());
        }
        if !self.does_coverage_reconcile() {
            return Some("deep Context IR coverage ledger does not reconcile".to_string());
        }
        if !self.do_omissions_reconcile(reserved) {
            return Some("deep Context IR omission ledger does not reconcile".to_string());
        }
        if !self.are_collections_canonical() {
            return Some("deep Context IR collections are not canonically ordered".to_string());
        }
        if !self.does_matrix_match(recipe) {
            return Some("deep Context IR role matrix does not match planner-v2.0.0".to_string());
        }
        if !self.are_claims_backed() {
            return Some(
                "deep Context IR sufficiency is not backed by qualified evidence".to_string(),
            );
        }
        if !self.is_status_valid(recipe) {
            return Some(
                "deep Context IR status contradicts required-role sufficiency".to_string(),
            );
        }
        None
    }

    /// The hash of the document's canonical identity.
    pub fn expected_hash(&self) -> (r: String)
        ensures
            r@ == self.identity_hash(),
            text::hex64(r@),
    {
        let mut encoder = CanonicalEncoder::new("workspace-atlas/context-ir-v2");
        encoder.text(self.schema_version.as_str());
        encoder.text(self.policy.planner_policy_version.as_str());
        let identity = value_text(&canonical_value(&self.identity_json()));
        encoder.text(identity.as_str());
        encoder.finish()
    }

    /// Checks every section of the document and its hash. `recipe` is what the
    /// planner policy asks of the task kind.
    pub fn validate(&self, recipe: &RoleRecipe) -> (r: Result<
        (),
        AtlasError,
    >)
        ensures
            r is Ok <==> self.fault(*recipe) is None,
            r is Err ==> error::refused_as_invalid(r, self.fault(*recipe)->0),
    {
        match self.check_content(recipe) {
            Some(message) => return Err(AtlasError::InvalidConfig(message)),
            None => {},
        }
        let expected = self.expected_hash();
        if !text::text_eq(self.context_hash.as_str(), expected.as_str()) {
            return Err(
                AtlasError::InvalidConfig("deep Context IR canonical hash mismatch".to_string()),
            );
        }
        Ok(())
    }

    /// The document with the digest of its budget filled in: what its canonical
    /// identity is taken of.
    fn stamp_budget(self) -> (r: Self)
        ensures
            r.policy.semantic_budget.budget_digest@ == self.policy.semantic_budget.digest(),
            r == stamped(self, r.policy.semantic_budget.budget_digest, self.context_hash),
    {
        let mut stamped = self;
        let digest = stamped.policy.semantic_budget.expected_digest();
        stamped.policy.semantic_budget.budget_digest = digest;
        stamped
    }

    /// Stamp the fixed budget and Context IR canonical identities.
    pub fn seal(self, recipe: &RoleRecipe) -> (r: Result<Self, AtlasError>)
        ensures
            exists|sealed: DeepContextIrV2|
                {
                    &&& #[trigger] seals(self, sealed)
                    &&& r is Ok <==> sealed.content_fault(*recipe) is None
                    &&& r is Ok ==> r->Ok_0 == sealed
                    &&& r is Err ==> error::refused_as_invalid(
                        r,
                        sealed.content_fault(*recipe)->0,
                    )
                },
            r is Ok ==> r->Ok_0.fault(*recipe) is None,
    {
        let mut value = self.stamp_budget();
        let ghost unhashed = value;
        let hash = value.expected_hash();
        value.context_hash = hash;
        assert(value.identity_tree() == unhashed.identity_tree());
        assert(seals(self, value));
        match value.validate(recipe) {
            Ok(()) => Ok(value),
            Err(e) => Err(e),
        }
    }
}

/// `document` with another budget digest and context hash.
pub open spec fn stamped(
    document: DeepContextIrV2,
    budget_digest: String,
    context_hash: String,
) -> DeepContextIrV2 {
    DeepContextIrV2 {
        policy: IrPolicyV2 {
            semantic_budget: IrSemanticBudgetV2 {
                budget_digest,
                ..document.policy.semantic_budget
            },
            ..document.policy
        },
        context_hash,
        ..document
    }
}

/// `sealed` is `document` with the digest of its budget and the hash of its
/// identity.
pub open spec fn seals(
    document: DeepContextIrV2,
    sealed: DeepContextIrV2,
) -> bool {
    &&& sealed == stamped(
        document,
        sealed.policy.semantic_budget.budget_digest,
        sealed.context_hash,
    )
    &&& sealed.policy.semantic_budget.budget_digest@ == document.policy.semantic_budget.digest()
    &&& sealed.context_hash@ == sealed.identity_hash()
}

/// The schema versions that a reader can meet.
#[derive(Debug, Clone, Copy, PartialEq, Eq, Structural)]
pub enum ContextIrVersion {
    LegacyV1,
    DeepV2,
}

/// The version that a schema version text stands for.
pub open spec fn version_named(field: Option<Seq<char>>) -> Option<ContextIrVersion> {
    if field == Some(CONTEXT_SCHEMA_VERSION@) {
        Some(ContextIrVersion::LegacyV1)
    } else if field == Some(CONTEXT_SCHEMA_V2_VERSION@) {
        Some(ContextIrVersion::DeepV2)
    } else {
        None
    }
}

/// The version that a schema version text stands for.
pub fn name_version(field: &Option<String>) -> (r: Option<ContextIrVersion>)
    ensures
        r == version_named(text::opt_text(*field)),
{
    proof {
        reveal_strlit("1.0.0");
        reveal_strlit("2.0.0");
        assert(CONTEXT_SCHEMA_VERSION@[0] != CONTEXT_SCHEMA_V2_VERSION@[0]);
    }
    match field {
        Some(version) => if text::text_eq(version.as_str(), CONTEXT_SCHEMA_VERSION) {
            Some(ContextIrVersion::LegacyV1)
        } else if text::text_eq(version.as_str(), CONTEXT_SCHEMA_V2_VERSION) {
            Some(ContextIrVersion::DeepV2)
        } else {
            None
        },
        None => None,
    }
}

/// The version of a document text: none where the version is not one of the two.
pub open spec fn raw_version(raw: Seq<char>) -> Result<Option<ContextIrVersion>, Seq<char>> {
    match json_tree::json_reading(raw) {
        Ok(tree) => Ok(version_named(json_tree::text_field_of(tree, "schema_version"@))),
        Err(message) => Err(message),
    }
}

/// The version of a document text.
pub fn context_ir_version(raw: &str) -> (r: Result<Option<ContextIrVersion>, AtlasError>)
    ensures
        match raw_version(raw@) {
            Ok(version) => r == Ok::<_, AtlasError>(version),
            Err(message) => r matches Err(AtlasError::Serde(m)) && m@ == message,
        },
{
    match read_json(raw) {
        Ok(value) => Ok(name_version(&text_field(&value, "schema_version"))),
        Err(message) => Err(AtlasError::Serde(message)),
    }
}

/// Explicit legacy reader. It never accepts or interprets V2 semantics. `parsed` is
/// what the parser made of the text.
pub fn read_context_ir_v1(raw: &str, parsed: Result<ContextIr, String>) -> (r: Result<
    ContextIr,
    AtlasError,
>)
    ensures
        match raw_version(raw@) {
            Err(message) => r matches Err(AtlasError::Serde(m)) && m@ == message,
            Ok(version) => if version != Some(ContextIrVersion::LegacyV1) {
                error::refused_as_invalid(
                    r,
                    "unsupported legacy Context IR version; supported: "@ + CONTEXT_SCHEMA_VERSION@,
                )
            } else {
                match parsed {
                    Ok(document) => r == Ok::<_, AtlasError>(document),
                    Err(message) => r == Err::<ContextIr, _>(AtlasError::Serde(message)),
                }
            },
        },
{
    match context_ir_version(raw) {
        Err(e) => Err(e),
        Ok(Some(ContextIrVersion::LegacyV1)) => match parsed {
            Ok(document) => Ok(document),
            Err(message) => Err(AtlasError::Serde(message)),
        },
        Ok(_) => Err(
            AtlasError::InvalidConfig(
                text::join2(
                    "unsupported legacy Context IR version; supported: ",
                    CONTEXT_SCHEMA_VERSION,
                ),
            ),
        ),
    }
}

/// Strict deep-only V2 reader. Canonical identity is checked before the document can
/// be consumed. `parsed` is what the parser made of the text; a document at fault is
/// one that the parser refuses.
pub fn read_deep_context_ir_v2(
    raw: &str,
    parsed: Result<DeepContextIrV2, String>,
    recipe: &RoleRecipe) -> (r: Result<DeepContextIrV2, AtlasError>)
    ensures
        match raw_version(raw@) {
            Err(message) => r matches Err(AtlasError::Serde(m)) && m@ == message,
            Ok(version) => if version != Some(ContextIrVersion::DeepV2) {
                error::refused_as_invalid(
                    r,
                    "unsupported deep Context IR version; supported: "@
                        + CONTEXT_SCHEMA_V2_VERSION@,
                )
            } else {
                match parsed {
                    Ok(document) => match document.fault(*recipe) {
                        None => r == Ok::<_, AtlasError>(document),
                        Some(message) => r matches Err(AtlasError::Serde(m)) && m@ == message,
                    },
                    Err(message) => r == Err::<DeepContextIrV2, _>(AtlasError::Serde(message)),
                }
            },
        },
{
    match context_ir_version(raw) {
        Err(e) => Err(e),
        Ok(Some(ContextIrVersion::DeepV2)) => match parsed {
            Ok(document) => match document.validate(recipe) {
                Ok(()) => Ok(document),
                Err(AtlasError::InvalidConfig(message)) => Err(AtlasError::Serde(message)),
                Err(other) => Err(other),
            },
            Err(message) => Err(AtlasError::Serde(message)),
        },
        Ok(_) => Err(
            AtlasError::InvalidConfig(
                text::join2(
                    "unsupported deep Context IR version; supported: ",
                    CONTEXT_SCHEMA_V2_VERSION,
                ),
            ),
        ),
    }
}

/// Compatibility entry point for an explicitly V2-aware internal caller. Legacy
/// input remains tagged as legacy and gains no V2 sufficiency claim.
pub fn read_context_ir_v2_compatible(
    raw: &str,
    legacy: Result<ContextIr, String>,
    deep: Result<DeepContextIrV2, String>,
    recipe: &RoleRecipe) -> (r: Result<ContextIrDocument, AtlasError>)
    ensures
        match raw_version(raw@) {
            Err(message) => r matches Err(AtlasError::Serde(m)) && m@ == message,
            Ok(None) => error::refused_as_invalid(
                r,
                "unsupported Context IR version; supported: "@ + CONTEXT_SCHEMA_VERSION@ + ", "@
                    + CONTEXT_SCHEMA_V2_VERSION@,
            ),
            Ok(Some(ContextIrVersion::LegacyV1)) => match legacy {
                Ok(document) => r == Ok::<_, AtlasError>(ContextIrDocument::LegacyV1(document)),
                Err(message) => r == Err::<ContextIrDocument, _>(AtlasError::Serde(message)),
            },
            Ok(Some(ContextIrVersion::DeepV2)) => match deep {
                Ok(document) => match document.fault(*recipe) {
                    None => r == Ok::<_, AtlasError>(ContextIrDocument::DeepV2(document)),
                    Some(message) => r matches Err(AtlasError::Serde(m)) && m@ == message,
                },
                Err(message) => r == Err::<ContextIrDocument, _>(AtlasError::Serde(message)),
            },
        },
{
    match context_ir_version(raw) {
        Err(e) => Err(e),
        Ok(Some(ContextIrVersion::LegacyV1)) => match read_context_ir_v1(raw, legacy) {
            Ok(document) => Ok(ContextIrDocument::LegacyV1(document)),
            Err(e) => Err(e),
        },
        Ok(Some(ContextIrVersion::DeepV2)) => match read_deep_context_ir_v2(
            raw,
            deep,
            recipe,
        ) {
            Ok(document) => Ok(ContextIrDocument::DeepV2(document)),
            Err(e) => Err(e),
        },
        Ok(None) => {
            let mut message = text::join2(
                "unsupported Context IR version; supported: ",
                CONTEXT_SCHEMA_VERSION,
            );
            message.append(", ");
            message.append(CONTEXT_SCHEMA_V2_VERSION);
            Err(AtlasError::InvalidConfig(message))
        },
    }
}

/// Strict V2 writer. It has no persistence side effect and rejects a stale or forged
/// canonical identity.
pub fn write_deep_context_ir_v2(document: &DeepContextIrV2, recipe: &RoleRecipe) -> (r: Result<
    String,
    AtlasError,
>)
    ensures
        match document.fault(*recipe) {
            Some(message) => error::refused_as_invalid(r, message),
            None => r matches Ok(written) && written@ == json_tree::tree_text(document.tree()),
        },
{
    match document.validate(recipe) {
        Ok(()) => Ok(value_text(&document.to_json())),
        Err(e) => Err(e),
    }
}

/// Convert a validated deep semantic document into the frozen execution payload
/// reference. Session/attempt identity is intentionally absent, so equivalent
/// documents from direct and escalated execution can share the canonical IR hash.
pub fn deep_context_payload(
    document: &DeepContextIrV2,
    recipe: &RoleRecipe) -> (r: Result<ContextPayload, AtlasError>)
    ensures
        match document.fault(*recipe) {
            Some(message) => error::refused_as_invalid(r, message),
            None => r is Ok && r->Ok_0@ == (PayloadView::DeepContextIr {
                context_ir_version: CONTEXT_SCHEMA_V2_VERSION@,
                context_hash: document.context_hash@,
            }),
        },
{
    match document.validate(recipe) {
        Ok(()) => Ok(
            ContextPayload::DeepContextIr {
                result: DeepResultReference {
                    context_ir_version: CONTEXT_SCHEMA_V2_VERSION.to_string(),
                    context_hash: document.context_hash.clone(),
                },
            },
        ),
        Err(e) => Err(e),
    }
}

/// A complete document misses nothing that its recipe requires, and every source in
/// it is current.
pub proof fn law_complete_documents_are_sufficient(
    document: DeepContextIrV2,
    recipe: RoleRecipe,
)
    requires
        document.fault(recipe) is None,
        document.status.working_set_status == WorkingSetStatus::Complete,
    ensures
        document.requirements_satisfied(recipe),
        document.sources_current(),
        document.status.reasons@.len() == 0,
        recipe.requires_exact_source ==> document.exact_source_witnessed(),
        recipe.requires_validation ==> document.validation_witnessed(),
{
}

/// A valid document stays within every limit of its budget, and keeps the
/// uncertainty reserve free of other records.
pub proof fn law_documents_keep_their_budget(
    document: DeepContextIrV2,
    recipe: RoleRecipe,
)
    requires
        document.fault(recipe) is None,
    ensures
        document.working_set@.len() <= document.policy.semantic_budget.max_records,
        source_byte_sum(document.working_set@) <= document.policy.semantic_budget.max_source_bytes,
        token_sum(document.working_set@) <= document.policy.semantic_budget.max_estimated_tokens,
        document.working_set@.len() - uncertainty_count(document.working_set@)
            <= document.policy.semantic_budget.max_records - document.reserved(),
        document.omissions.candidates_considered == document.omissions.selected
            + document.omissions.omitted,
{
}

/// A blocked document has no primary implementation that can be worked on, and says
/// why.
pub proof fn law_blocked_documents_explain_themselves(
    document: DeepContextIrV2,
    recipe: RoleRecipe,
)
    requires
        document.fault(recipe) is None,
        document.status.working_set_status == WorkingSetStatus::Blocked,
    ensures
        !document.primary_safe(recipe),
        document.status.reasons@.len() > 0,
{
}


/// Neither the context's name nor the session takes part in the hash, so equivalent
/// documents from direct and escalated execution share it.
pub proof fn law_equivalent_documents_share_their_hash(
    document: DeepContextIrV2,
    context_id: String,
    task_session_id: String,
    context_hash: String,
)
    ensures
        (DeepContextIrV2 {
            context_id,
            task: IrTaskV2 { task_session_id, ..document.task },
            context_hash,
            ..document
        }).identity_hash() == document.identity_hash(),
{
}

} // verus!
