//! The documents of the context contract as JSON: symbol cards, generation deltas and
//! Context IR.
use vstd::prelude::*;

use crate::context_ir::{
    ChangeKind, ClaimStrength, Confidence, ContextIr, CoverageState, DeltaChange, DeltaChangeSet,
    DeltaEvidenceState, EffectPhase, EntityKind, EvidenceQuality, GenerationDelta, IrCost,
    IrCoverage, IrEffect, IrEvidence, IrItemCost, IrNotice, IrOmissions, IrPolicy, IrRelationship,
    IrSourceRef, IrStatus, IrTask, IrValidation, IrWorkingSetItem, IrWorkspace, ItemRole,
    NoticeSeverity, PreferredEvidenceSummary, ResolutionStatus, SelectionReason,
    SourceVerificationStatus, SymbolCard, SymbolCost, SymbolCounts, SymbolRange, TaskKind,
    TaskKindSource, UnchangedContract, ValidationKind, WorkingSetStatus,
};
use crate::json_tree;
use crate::json_tree::{value_text, JsonTree, JsonValue, ListBuilder, RecordBuilder};
use crate::text;

verus! {

impl Confidence {
    /// The confidence as a number.
    pub open spec fn tree(self) -> JsonTree {
        JsonTree::Number(self.numeral@)
    }

    pub(crate) fn to_json(&self) -> (r: JsonValue)
        ensures
            r.tree() == self.tree(),
    {
        JsonValue::Number(self.numeral.as_str().to_string())
    }
}

/// Counts by reason, as the fields of a record.
pub open spec fn count_fields(counts: Seq<(String, i64)>) -> Seq<(Seq<char>, JsonTree)> {
    counts.map_values(
        |count: (String, i64)| (count.0@, json_tree::number_tree(count.1 as int)),
    )
}

fn counts_json(counts: &Vec<(String, i64)>) -> (r: JsonValue)
    ensures
        r.tree() == JsonTree::Record(count_fields(counts@)),
{
    let mut record = RecordBuilder::new();
    let ghost all = count_fields(counts@);
    for i in 0..counts.len()
        invariant
            all == count_fields(counts@),
            record.fields() == all.take(i as int),
    {
        record = record.signed(counts[i].0.as_str(), counts[i].1);
        assert(all.take(i + 1) =~= all.take(i as int).push(all[i as int]));
    }
    assert(all.take(counts@.len() as int) =~= all);
    record.finish()
}

impl TaskKind {
    /// The name in documents.
    pub open spec fn wire_name(self) -> Seq<char> {
        match self {
            TaskKind::Explore => "explore"@,
            TaskKind::BugFix => "bug_fix"@,
            TaskKind::BehaviorChange => "behavior_change"@,
            TaskKind::ApiChange => "api_change"@,
            TaskKind::Refactor => "refactor"@,
            TaskKind::ConfigurationChange => "configuration_change"@,
            TaskKind::TestChange => "test_change"@,
            TaskKind::Review => "review"@,
            TaskKind::Audit => "audit"@,
            TaskKind::Unknown => "unknown"@,
        }
    }

    /// The name in documents.
    pub fn wire_text(&self) -> (r: &'static str)
        ensures
            r@ == self.wire_name(),
    {
        match self {
            TaskKind::Explore => "explore",
            TaskKind::BugFix => "bug_fix",
            TaskKind::BehaviorChange => "behavior_change",
            TaskKind::ApiChange => "api_change",
            TaskKind::Refactor => "refactor",
            TaskKind::ConfigurationChange => "configuration_change",
            TaskKind::TestChange => "test_change",
            TaskKind::Review => "review",
            TaskKind::Audit => "audit",
            TaskKind::Unknown => "unknown",
        }
    }
}

impl TaskKindSource {
    /// The name in documents.
    pub open spec fn wire_name(self) -> Seq<char> {
        match self {
            TaskKindSource::Declared => "declared"@,
            TaskKindSource::DeterministicRule => "deterministic_rule"@,
            TaskKindSource::Unknown => "unknown"@,
        }
    }

    /// The name in documents.
    pub fn wire_text(&self) -> (r: &'static str)
        ensures
            r@ == self.wire_name(),
    {
        match self {
            TaskKindSource::Declared => "declared",
            TaskKindSource::DeterministicRule => "deterministic_rule",
            TaskKindSource::Unknown => "unknown",
        }
    }
}

impl WorkingSetStatus {
    /// The name in documents.
    pub open spec fn wire_name(self) -> Seq<char> {
        match self {
            WorkingSetStatus::Complete => "complete"@,
            WorkingSetStatus::Partial => "partial"@,
            WorkingSetStatus::Blocked => "blocked"@,
        }
    }

    /// The name in documents.
    pub fn wire_text(&self) -> (r: &'static str)
        ensures
            r@ == self.wire_name(),
    {
        match self {
            WorkingSetStatus::Complete => "complete",
            WorkingSetStatus::Partial => "partial",
            WorkingSetStatus::Blocked => "blocked",
        }
    }
}

impl EntityKind {
    /// The name in documents.
    pub open spec fn wire_name(self) -> Seq<char> {
        match self {
            EntityKind::File => "file"@,
            EntityKind::Symbol => "symbol"@,
            EntityKind::Config => "config"@,
            EntityKind::Test => "test"@,
            EntityKind::Document => "document"@,
            EntityKind::External => "external"@,
        }
    }

    /// The name in documents.
    pub fn wire_text(&self) -> (r: &'static str)
        ensures
            r@ == self.wire_name(),
    {
        match self {
            EntityKind::File => "file",
            EntityKind::Symbol => "symbol",
            EntityKind::Config => "config",
            EntityKind::Test => "test",
            EntityKind::Document => "document",
            EntityKind::External => "external",
        }
    }
}

impl ItemRole {
    /// The name in documents.
    pub open spec fn wire_name(self) -> Seq<char> {
        match self {
            ItemRole::PrimaryImplementation => "PRIMARY_IMPLEMENTATION"@,
            ItemRole::DirectDependency => "DIRECT_DEPENDENCY"@,
            ItemRole::DirectDependent => "DIRECT_DEPENDENT"@,
            ItemRole::TypeContract => "TYPE_CONTRACT"@,
            ItemRole::TestContract => "TEST_CONTRACT"@,
            ItemRole::ConfigurationInput => "CONFIGURATION_INPUT"@,
            ItemRole::Effect => "EFFECT"@,
            ItemRole::HistoricalConstraint => "HISTORICAL_CONSTRAINT"@,
            ItemRole::Uncertainty => "UNCERTAINTY"@,
            ItemRole::ValidationTarget => "VALIDATION_TARGET"@,
            ItemRole::Documentation => "DOCUMENTATION"@,
        }
    }

    /// The name in documents.
    pub fn wire_text(&self) -> (r: &'static str)
        ensures
            r@ == self.wire_name(),
    {
        match self {
            ItemRole::PrimaryImplementation => "PRIMARY_IMPLEMENTATION",
            ItemRole::DirectDependency => "DIRECT_DEPENDENCY",
            ItemRole::DirectDependent => "DIRECT_DEPENDENT",
            ItemRole::TypeContract => "TYPE_CONTRACT",
            ItemRole::TestContract => "TEST_CONTRACT",
            ItemRole::ConfigurationInput => "CONFIGURATION_INPUT",
            ItemRole::Effect => "EFFECT",
            ItemRole::HistoricalConstraint => "HISTORICAL_CONSTRAINT",
            ItemRole::Uncertainty => "UNCERTAINTY",
            ItemRole::ValidationTarget => "VALIDATION_TARGET",
            ItemRole::Documentation => "DOCUMENTATION",
        }
    }
}

impl SelectionReason {
    /// The name in documents.
    pub open spec fn wire_name(self) -> Seq<char> {
        match self {
            SelectionReason::ExplicitSeed => "EXPLICIT_SEED"@,
            SelectionReason::ExactSymbolMatch => "EXACT_SYMBOL_MATCH"@,
            SelectionReason::ExactPathMatch => "EXACT_PATH_MATCH"@,
            SelectionReason::DirectCaller => "DIRECT_CALLER"@,
            SelectionReason::DirectCallee => "DIRECT_CALLEE"@,
            SelectionReason::ImportNeighbor => "IMPORT_NEIGHBOR"@,
            SelectionReason::ImplementationRelation => "IMPLEMENTATION_RELATION"@,
            SelectionReason::TestRelation => "TEST_RELATION"@,
            SelectionReason::ConfigRelation => "CONFIG_RELATION"@,
            SelectionReason::EffectRelation => "EFFECT_RELATION"@,
            SelectionReason::ConflictRelevance => "CONFLICT_RELEVANCE"@,
            SelectionReason::UnresolvedRelevance => "UNRESOLVED_RELEVANCE"@,
            SelectionReason::GenerationDeltaRelevance => "GENERATION_DELTA_RELEVANCE"@,
            SelectionReason::TaskRecipeRequirement => "TASK_RECIPE_REQUIREMENT"@,
        }
    }

    /// The name in documents.
    pub fn wire_text(&self) -> (r: &'static str)
        ensures
            r@ == self.wire_name(),
    {
        match self {
            SelectionReason::ExplicitSeed => "EXPLICIT_SEED",
            SelectionReason::ExactSymbolMatch => "EXACT_SYMBOL_MATCH",
            SelectionReason::ExactPathMatch => "EXACT_PATH_MATCH",
            SelectionReason::DirectCaller => "DIRECT_CALLER",
            SelectionReason::DirectCallee => "DIRECT_CALLEE",
            SelectionReason::ImportNeighbor => "IMPORT_NEIGHBOR",
            SelectionReason::ImplementationRelation => "IMPLEMENTATION_RELATION",
            SelectionReason::TestRelation => "TEST_RELATION",
            SelectionReason::ConfigRelation => "CONFIG_RELATION",
            SelectionReason::EffectRelation => "EFFECT_RELATION",
            SelectionReason::ConflictRelevance => "CONFLICT_RELEVANCE",
            SelectionReason::UnresolvedRelevance => "UNRESOLVED_RELEVANCE",
            SelectionReason::GenerationDeltaRelevance => "GENERATION_DELTA_RELEVANCE",
            SelectionReason::TaskRecipeRequirement => "TASK_RECIPE_REQUIREMENT",
        }
    }
}

impl EvidenceQuality {
    /// The name in documents.
    pub open spec fn wire_name(self) -> Seq<char> {
        match self {
            EvidenceQuality::Verified => "verified"@,
            EvidenceQuality::Supported => "supported"@,
            EvidenceQuality::Inferred => "inferred"@,
            EvidenceQuality::Resolved => "resolved"@,
            EvidenceQuality::Ambiguous => "ambiguous"@,
            EvidenceQuality::Unresolved => "unresolved"@,
            EvidenceQuality::External => "external"@,
            EvidenceQuality::Stale => "stale"@,
            EvidenceQuality::Conflicting => "conflicting"@,
            EvidenceQuality::Partial => "partial"@,
            EvidenceQuality::Unsupported => "unsupported"@,
            EvidenceQuality::Excluded => "excluded"@,
        }
    }

    /// The name in documents.
    pub fn wire_text(&self) -> (r: &'static str)
        ensures
            r@ == self.wire_name(),
    {
        match self {
            EvidenceQuality::Verified => "verified",
            EvidenceQuality::Supported => "supported",
            EvidenceQuality::Inferred => "inferred",
            EvidenceQuality::Resolved => "resolved",
            EvidenceQuality::Ambiguous => "ambiguous",
            EvidenceQuality::Unresolved => "unresolved",
            EvidenceQuality::External => "external",
            EvidenceQuality::Stale => "stale",
            EvidenceQuality::Conflicting => "conflicting",
            EvidenceQuality::Partial => "partial",
            EvidenceQuality::Unsupported => "unsupported",
            EvidenceQuality::Excluded => "excluded",
        }
    }
}

impl ResolutionStatus {
    /// The name in documents.
    pub open spec fn wire_name(self) -> Seq<char> {
        match self {
            ResolutionStatus::ResolvedSymbol => "resolved_symbol"@,
            ResolutionStatus::ResolvedFile => "resolved_file"@,
            ResolutionStatus::External => "external"@,
            ResolutionStatus::Ambiguous => "ambiguous"@,
            ResolutionStatus::Unresolved => "unresolved"@,
            ResolutionStatus::Invalid => "invalid"@,
            ResolutionStatus::Stale => "stale"@,
        }
    }

    /// The name in documents.
    pub fn wire_text(&self) -> (r: &'static str)
        ensures
            r@ == self.wire_name(),
    {
        match self {
            ResolutionStatus::ResolvedSymbol => "resolved_symbol",
            ResolutionStatus::ResolvedFile => "resolved_file",
            ResolutionStatus::External => "external",
            ResolutionStatus::Ambiguous => "ambiguous",
            ResolutionStatus::Unresolved => "unresolved",
            ResolutionStatus::Invalid => "invalid",
            ResolutionStatus::Stale => "stale",
        }
    }
}

impl SourceVerificationStatus {
    /// The name in documents.
    pub open spec fn wire_name(self) -> Seq<char> {
        match self {
            SourceVerificationStatus::NotRequested => "not_requested"@,
            SourceVerificationStatus::Verified => "verified"@,
            SourceVerificationStatus::HashMismatch => "hash_mismatch"@,
            SourceVerificationStatus::ReadFailed => "read_failed"@,
            SourceVerificationStatus::Excluded => "excluded"@,
        }
    }

    /// The name in documents.
    pub fn wire_text(&self) -> (r: &'static str)
        ensures
            r@ == self.wire_name(),
    {
        match self {
            SourceVerificationStatus::NotRequested => "not_requested",
            SourceVerificationStatus::Verified => "verified",
            SourceVerificationStatus::HashMismatch => "hash_mismatch",
            SourceVerificationStatus::ReadFailed => "read_failed",
            SourceVerificationStatus::Excluded => "excluded",
        }
    }
}

impl NoticeSeverity {
    /// The name in documents.
    pub open spec fn wire_name(self) -> Seq<char> {
        match self {
            NoticeSeverity::Info => "info"@,
            NoticeSeverity::Warning => "warning"@,
            NoticeSeverity::Error => "error"@,
        }
    }

    /// The name in documents.
    pub fn wire_text(&self) -> (r: &'static str)
        ensures
            r@ == self.wire_name(),
    {
        match self {
            NoticeSeverity::Info => "info",
            NoticeSeverity::Warning => "warning",
            NoticeSeverity::Error => "error",
        }
    }
}

impl ClaimStrength {
    /// The name in documents.
    pub open spec fn wire_name(self) -> Seq<char> {
        match self {
            ClaimStrength::NoClaim => "none"@,
            ClaimStrength::Bounded => "bounded"@,
            ClaimStrength::ExhaustiveWithinScope => "exhaustive_within_scope"@,
        }
    }

    /// The name in documents.
    pub fn wire_text(&self) -> (r: &'static str)
        ensures
            r@ == self.wire_name(),
    {
        match self {
            ClaimStrength::NoClaim => "none",
            ClaimStrength::Bounded => "bounded",
            ClaimStrength::ExhaustiveWithinScope => "exhaustive_within_scope",
        }
    }
}

impl ValidationKind {
    /// The name in documents.
    pub open spec fn wire_name(self) -> Seq<char> {
        match self {
            ValidationKind::Test => "test"@,
            ValidationKind::Build => "build"@,
            ValidationKind::Lint => "lint"@,
            ValidationKind::SourceVerify => "source_verify"@,
            ValidationKind::ManualReview => "manual_review"@,
            ValidationKind::Other => "other"@,
        }
    }

    /// The name in documents.
    pub fn wire_text(&self) -> (r: &'static str)
        ensures
            r@ == self.wire_name(),
    {
        match self {
            ValidationKind::Test => "test",
            ValidationKind::Build => "build",
            ValidationKind::Lint => "lint",
            ValidationKind::SourceVerify => "source_verify",
            ValidationKind::ManualReview => "manual_review",
            ValidationKind::Other => "other",
        }
    }
}

impl EffectPhase {
    /// The name in documents.
    pub open spec fn wire_name(self) -> Seq<char> {
        match self {
            EffectPhase::Direct => "direct"@,
            EffectPhase::Transitive => "transitive"@,
            EffectPhase::Declared => "declared"@,
            EffectPhase::Observed => "observed"@,
        }
    }

    /// The name in documents.
    pub fn wire_text(&self) -> (r: &'static str)
        ensures
            r@ == self.wire_name(),
    {
        match self {
            EffectPhase::Direct => "direct",
            EffectPhase::Transitive => "transitive",
            EffectPhase::Declared => "declared",
            EffectPhase::Observed => "observed",
        }
    }
}

impl ChangeKind {
    /// The name in documents.
    pub open spec fn wire_name(self) -> Seq<char> {
        match self {
            ChangeKind::Added => "added"@,
            ChangeKind::Removed => "removed"@,
            ChangeKind::Modified => "modified"@,
            ChangeKind::Renamed => "renamed"@,
            ChangeKind::Retargeted => "retargeted"@,
            ChangeKind::StateChanged => "state_changed"@,
        }
    }

    /// The name in documents.
    pub fn wire_text(&self) -> (r: &'static str)
        ensures
            r@ == self.wire_name(),
    {
        match self {
            ChangeKind::Added => "added",
            ChangeKind::Removed => "removed",
            ChangeKind::Modified => "modified",
            ChangeKind::Renamed => "renamed",
            ChangeKind::Retargeted => "retargeted",
            ChangeKind::StateChanged => "state_changed",
        }
    }
}

impl DeltaEvidenceState {
    /// The name in documents.
    pub open spec fn wire_name(self) -> Seq<char> {
        match self {
            DeltaEvidenceState::Verified => "verified"@,
            DeltaEvidenceState::Supported => "supported"@,
            DeltaEvidenceState::Inferred => "inferred"@,
            DeltaEvidenceState::Uncertain => "uncertain"@,
        }
    }

    /// The name in documents.
    pub fn wire_text(&self) -> (r: &'static str)
        ensures
            r@ == self.wire_name(),
    {
        match self {
            DeltaEvidenceState::Verified => "verified",
            DeltaEvidenceState::Supported => "supported",
            DeltaEvidenceState::Inferred => "inferred",
            DeltaEvidenceState::Uncertain => "uncertain",
        }
    }
}

impl CoverageState {
    /// The name in documents.
    pub open spec fn wire_name(self) -> Seq<char> {
        match self {
            CoverageState::Complete => "complete"@,
            CoverageState::Partial => "partial"@,
            CoverageState::Unsupported => "unsupported"@,
            CoverageState::Failed => "failed"@,
        }
    }

    /// The name in documents.
    pub fn wire_text(&self) -> (r: &'static str)
        ensures
            r@ == self.wire_name(),
    {
        match self {
            CoverageState::Complete => "complete",
            CoverageState::Partial => "partial",
            CoverageState::Unsupported => "unsupported",
            CoverageState::Failed => "failed",
        }
    }
}

/// The documents of a list.
pub open spec fn delta_change_trees(items: Seq<DeltaChange>) -> Seq<JsonTree> {
    items.map_values(|item: DeltaChange| item.tree())
}

pub(crate) fn delta_change_list(items: &Vec<DeltaChange>) -> (r: JsonValue)
    ensures
        r.tree() == JsonTree::List(delta_change_trees(items@)),
{
    let mut list = ListBuilder::new();
    let ghost all = delta_change_trees(items@);
    for i in 0..items.len()
        invariant
            all == delta_change_trees(items@),
            list.items() == all.take(i as int),
    {
        list = list.item(items[i].to_json());
        assert(all.take(i + 1) =~= all.take(i as int).push(all[i as int]));
    }
    assert(all.take(items@.len() as int) =~= all);
    list.finish()
}

/// The documents of a list.
pub open spec fn effect_trees(items: Seq<IrEffect>) -> Seq<JsonTree> {
    items.map_values(|item: IrEffect| item.tree())
}

pub(crate) fn effect_list(items: &Vec<IrEffect>) -> (r: JsonValue)
    ensures
        r.tree() == JsonTree::List(effect_trees(items@)),
{
    let mut list = ListBuilder::new();
    let ghost all = effect_trees(items@);
    for i in 0..items.len()
        invariant
            all == effect_trees(items@),
            list.items() == all.take(i as int),
    {
        list = list.item(items[i].to_json());
        assert(all.take(i + 1) =~= all.take(i as int).push(all[i as int]));
    }
    assert(all.take(items@.len() as int) =~= all);
    list.finish()
}

/// The documents of a list.
pub open spec fn notice_trees(items: Seq<IrNotice>) -> Seq<JsonTree> {
    items.map_values(|item: IrNotice| item.tree())
}

pub(crate) fn notice_list(items: &Vec<IrNotice>) -> (r: JsonValue)
    ensures
        r.tree() == JsonTree::List(notice_trees(items@)),
{
    let mut list = ListBuilder::new();
    let ghost all = notice_trees(items@);
    for i in 0..items.len()
        invariant
            all == notice_trees(items@),
            list.items() == all.take(i as int),
    {
        list = list.item(items[i].to_json());
        assert(all.take(i + 1) =~= all.take(i as int).push(all[i as int]));
    }
    assert(all.take(items@.len() as int) =~= all);
    list.finish()
}

/// The documents of a list.
pub open spec fn relationship_trees(items: Seq<IrRelationship>) -> Seq<JsonTree> {
    items.map_values(|item: IrRelationship| item.tree())
}

pub(crate) fn relationship_list(items: &Vec<IrRelationship>) -> (r: JsonValue)
    ensures
        r.tree() == JsonTree::List(relationship_trees(items@)),
{
    let mut list = ListBuilder::new();
    let ghost all = relationship_trees(items@);
    for i in 0..items.len()
        invariant
            all == relationship_trees(items@),
            list.items() == all.take(i as int),
    {
        list = list.item(items[i].to_json());
        assert(all.take(i + 1) =~= all.take(i as int).push(all[i as int]));
    }
    assert(all.take(items@.len() as int) =~= all);
    list.finish()
}

/// The documents of a list.
pub open spec fn validation_trees(items: Seq<IrValidation>) -> Seq<JsonTree> {
    items.map_values(|item: IrValidation| item.tree())
}

pub(crate) fn validation_list(items: &Vec<IrValidation>) -> (r: JsonValue)
    ensures
        r.tree() == JsonTree::List(validation_trees(items@)),
{
    let mut list = ListBuilder::new();
    let ghost all = validation_trees(items@);
    for i in 0..items.len()
        invariant
            all == validation_trees(items@),
            list.items() == all.take(i as int),
    {
        list = list.item(items[i].to_json());
        assert(all.take(i + 1) =~= all.take(i as int).push(all[i as int]));
    }
    assert(all.take(items@.len() as int) =~= all);
    list.finish()
}

/// The documents of a list.
pub open spec fn working_set_item_trees(items: Seq<IrWorkingSetItem>) -> Seq<JsonTree> {
    items.map_values(|item: IrWorkingSetItem| item.tree())
}

pub(crate) fn working_set_item_list(items: &Vec<IrWorkingSetItem>) -> (r: JsonValue)
    ensures
        r.tree() == JsonTree::List(working_set_item_trees(items@)),
{
    let mut list = ListBuilder::new();
    let ghost all = working_set_item_trees(items@);
    for i in 0..items.len()
        invariant
            all == working_set_item_trees(items@),
            list.items() == all.take(i as int),
    {
        list = list.item(items[i].to_json());
        assert(all.take(i + 1) =~= all.take(i as int).push(all[i as int]));
    }
    assert(all.take(items@.len() as int) =~= all);
    list.finish()
}

/// The documents of a list.
pub open spec fn unchanged_contract_trees(items: Seq<UnchangedContract>) -> Seq<JsonTree> {
    items.map_values(|item: UnchangedContract| item.tree())
}

pub(crate) fn unchanged_contract_list(items: &Vec<UnchangedContract>) -> (r: JsonValue)
    ensures
        r.tree() == JsonTree::List(unchanged_contract_trees(items@)),
{
    let mut list = ListBuilder::new();
    let ghost all = unchanged_contract_trees(items@);
    for i in 0..items.len()
        invariant
            all == unchanged_contract_trees(items@),
            list.items() == all.take(i as int),
    {
        list = list.item(items[i].to_json());
        assert(all.take(i + 1) =~= all.take(i as int).push(all[i as int]));
    }
    assert(all.take(items@.len() as int) =~= all);
    list.finish()
}

/// A part that may be absent.
pub open spec fn opt_source_ref_tree(value: Option<IrSourceRef>) -> JsonTree {
    match value {
        Some(value) => value.tree(),
        None => JsonTree::Null,
    }
}

fn opt_source_ref_json(value: &Option<IrSourceRef>) -> (r: JsonValue)
    ensures
        r.tree() == opt_source_ref_tree(*value),
{
    match value {
        Some(value) => value.to_json(),
        None => JsonValue::Null,
    }
}

impl SymbolRange {
    /// The part as a document.
    pub open spec fn tree(self) -> JsonTree {
        JsonTree::Record(
            seq![
                ("start_byte"@, json_tree::number_tree(self.start_byte as int)),
                ("end_byte"@, json_tree::number_tree(self.end_byte as int)),
                ("start_line"@, json_tree::number_tree(self.start_line as int)),
                ("end_line"@, json_tree::number_tree(self.end_line as int)),
            ],
        )
    }

    pub(crate) fn to_json(&self) -> (r: JsonValue)
        ensures
            r.tree() == self.tree(),
    {
        let record = RecordBuilder::new();
        let record = record.signed("start_byte", self.start_byte);
        let record = record.signed("end_byte", self.end_byte);
        let record = record.signed("start_line", self.start_line);
        let record = record.signed("end_line", self.end_line);
        assert(record.fields() =~= self.tree()->Record_0);
        record.finish()
    }
}

impl PreferredEvidenceSummary {
    /// The part as a document.
    pub open spec fn tree(self) -> JsonTree {
        JsonTree::Record(
            seq![
                ("fact_id"@, JsonTree::Text(self.fact_id@)),
                ("provider_tier"@, JsonTree::Text(self.provider_tier@)),
                ("confidence"@, self.confidence.tree()),
                ("state"@, JsonTree::Text(self.state@)),
            ],
        )
    }

    pub(crate) fn to_json(&self) -> (r: JsonValue)
        ensures
            r.tree() == self.tree(),
    {
        let record = RecordBuilder::new();
        let record = record.text("fact_id", self.fact_id.as_str());
        let record = record.text("provider_tier", self.provider_tier.as_str());
        let record = record.field("confidence", self.confidence.to_json());
        let record = record.text("state", self.state.as_str());
        assert(record.fields() =~= self.tree()->Record_0);
        record.finish()
    }
}

impl SymbolCounts {
    /// The part as a document.
    pub open spec fn tree(self) -> JsonTree {
        JsonTree::Record(
            seq![
                ("callers"@, json_tree::number_tree(self.callers as int)),
                ("callees"@, json_tree::number_tree(self.callees as int)),
                ("references"@, json_tree::number_tree(self.references as int)),
                ("tests"@, json_tree::number_tree(self.tests as int)),
                ("configs"@, json_tree::number_tree(self.configs as int)),
                ("effects"@, json_tree::number_tree(self.effects as int)),
                ("conflicts"@, json_tree::number_tree(self.conflicts as int)),
                ("unresolved"@, json_tree::number_tree(self.unresolved as int)),
            ],
        )
    }

    pub(crate) fn to_json(&self) -> (r: JsonValue)
        ensures
            r.tree() == self.tree(),
    {
        let record = RecordBuilder::new();
        let record = record.signed("callers", self.callers);
        let record = record.signed("callees", self.callees);
        let record = record.signed("references", self.references);
        let record = record.signed("tests", self.tests);
        let record = record.signed("configs", self.configs);
        let record = record.signed("effects", self.effects);
        let record = record.signed("conflicts", self.conflicts);
        let record = record.signed("unresolved", self.unresolved);
        assert(record.fields() =~= self.tree()->Record_0);
        record.finish()
    }
}

impl SymbolCost {
    /// The part as a document.
    pub open spec fn tree(self) -> JsonTree {
        JsonTree::Record(
            seq![
                ("source_bytes"@, json_tree::number_tree(self.source_bytes as int)),
                ("estimated_tokens"@, json_tree::number_tree(self.estimated_tokens as int)),
                ("metadata_bytes"@, json_tree::number_tree(self.metadata_bytes as int)),
            ],
        )
    }

    pub(crate) fn to_json(&self) -> (r: JsonValue)
        ensures
            r.tree() == self.tree(),
    {
        let record = RecordBuilder::new();
        let record = record.signed("source_bytes", self.source_bytes);
        let record = record.signed("estimated_tokens", self.estimated_tokens);
        let record = record.signed("metadata_bytes", self.metadata_bytes);
        assert(record.fields() =~= self.tree()->Record_0);
        record.finish()
    }
}

impl DeltaChange {
    /// The part as a document.
    pub open spec fn tree(self) -> JsonTree {
        JsonTree::Record(
            seq![
                ("entity_id"@, JsonTree::Text(self.entity_id@)),
                ("change_kind"@, JsonTree::Text(self.change_kind.wire_name())),
                ("evidence_state"@, JsonTree::Text(self.evidence_state.wire_name())),
                ("before_id"@, json_tree::opt_text_tree(text::opt_text(self.before_id))),
                ("after_id"@, json_tree::opt_text_tree(text::opt_text(self.after_id))),
                ("reason_codes"@, json_tree::texts_tree(text::texts(self.reason_codes@))),
            ],
        )
    }

    pub(crate) fn to_json(&self) -> (r: JsonValue)
        ensures
            r.tree() == self.tree(),
    {
        let record = RecordBuilder::new();
        let record = record.text("entity_id", self.entity_id.as_str());
        let record = record.text("change_kind", self.change_kind.wire_text());
        let record = record.text("evidence_state", self.evidence_state.wire_text());
        let record = record.opt_text("before_id", &self.before_id);
        let record = record.opt_text("after_id", &self.after_id);
        let record = record.texts("reason_codes", &self.reason_codes);
        assert(record.fields() =~= self.tree()->Record_0);
        record.finish()
    }
}

impl DeltaChangeSet {
    /// The part as a document.
    pub open spec fn tree(self) -> JsonTree {
        JsonTree::Record(
            seq![
                ("changes"@, JsonTree::List(delta_change_trees(self.changes@))),
                ("omitted_count"@, json_tree::number_tree(self.omitted_count as int)),
            ],
        )
    }

    pub(crate) fn to_json(&self) -> (r: JsonValue)
        ensures
            r.tree() == self.tree(),
    {
        let record = RecordBuilder::new();
        let record = record.field("changes", delta_change_list(&self.changes));
        let record = record.signed("omitted_count", self.omitted_count);
        assert(record.fields() =~= self.tree()->Record_0);
        record.finish()
    }
}

impl UnchangedContract {
    /// The part as a document.
    pub open spec fn tree(self) -> JsonTree {
        JsonTree::Record(
            seq![
                ("entity_id"@, JsonTree::Text(self.entity_id@)),
                ("claim_scope"@, JsonTree::Text(self.claim_scope@)),
                ("evidence"@, json_tree::texts_tree(text::texts(self.evidence@))),
            ],
        )
    }

    pub(crate) fn to_json(&self) -> (r: JsonValue)
        ensures
            r.tree() == self.tree(),
    {
        let record = RecordBuilder::new();
        let record = record.text("entity_id", self.entity_id.as_str());
        let record = record.text("claim_scope", self.claim_scope.as_str());
        let record = record.texts("evidence", &self.evidence);
        assert(record.fields() =~= self.tree()->Record_0);
        record.finish()
    }
}

impl IrWorkspace {
    /// The part as a document.
    pub open spec fn tree(self) -> JsonTree {
        JsonTree::Record(
            seq![
                ("workspace_id"@, JsonTree::Text(self.workspace_id@)),
                ("generation_id"@, JsonTree::Text(self.generation_id@)),
                ("generation_sequence"@, json_tree::number_tree(self.generation_sequence as int)),
                ("source_tree_hash"@, json_tree::opt_text_tree(text::opt_text(self.source_tree_hash))),
                ("configuration_hash"@, JsonTree::Text(self.configuration_hash@)),
                ("provider_set_hash"@, JsonTree::Text(self.provider_set_hash@)),
                ("serving_generation_id"@, json_tree::opt_text_tree(text::opt_text(self.serving_generation_id))),
            ],
        )
    }

    pub(crate) fn to_json(&self) -> (r: JsonValue)
        ensures
            r.tree() == self.tree(),
    {
        let record = RecordBuilder::new();
        let record = record.text("workspace_id", self.workspace_id.as_str());
        let record = record.text("generation_id", self.generation_id.as_str());
        let record = record.signed("generation_sequence", self.generation_sequence);
        let record = record.opt_text("source_tree_hash", &self.source_tree_hash);
        let record = record.text("configuration_hash", self.configuration_hash.as_str());
        let record = record.text("provider_set_hash", self.provider_set_hash.as_str());
        let record = record.opt_text("serving_generation_id", &self.serving_generation_id);
        assert(record.fields() =~= self.tree()->Record_0);
        record.finish()
    }
}

impl IrTask {
    /// The part as a document.
    pub open spec fn tree(self) -> JsonTree {
        JsonTree::Record(
            seq![
                ("task_session_id"@, JsonTree::Text(self.task_session_id@)),
                ("task_hash"@, JsonTree::Text(self.task_hash@)),
                ("normalized_goal_hash"@, JsonTree::Text(self.normalized_goal_hash@)),
                ("task_kind"@, JsonTree::Text(self.task_kind.wire_name())),
                ("kind_source"@, JsonTree::Text(self.kind_source.wire_name())),
                ("kind_rule_id"@, json_tree::opt_text_tree(text::opt_text(self.kind_rule_id))),
                ("seed_paths"@, json_tree::texts_tree(text::texts(self.seed_paths@))),
                ("seed_symbols"@, json_tree::texts_tree(text::texts(self.seed_symbols@))),
            ],
        )
    }

    pub(crate) fn to_json(&self) -> (r: JsonValue)
        ensures
            r.tree() == self.tree(),
    {
        let record = RecordBuilder::new();
        let record = record.text("task_session_id", self.task_session_id.as_str());
        let record = record.text("task_hash", self.task_hash.as_str());
        let record = record.text("normalized_goal_hash", self.normalized_goal_hash.as_str());
        let record = record.text("task_kind", self.task_kind.wire_text());
        let record = record.text("kind_source", self.kind_source.wire_text());
        let record = record.opt_text("kind_rule_id", &self.kind_rule_id);
        let record = record.texts("seed_paths", &self.seed_paths);
        let record = record.texts("seed_symbols", &self.seed_symbols);
        assert(record.fields() =~= self.tree()->Record_0);
        record.finish()
    }
}

impl IrPolicy {
    /// The part as a document.
    pub open spec fn tree(self) -> JsonTree {
        JsonTree::Record(
            seq![
                ("planner_policy_version"@, JsonTree::Text(self.planner_policy_version@)),
                ("projection_policy_version"@, JsonTree::Text(self.projection_policy_version@)),
                ("budget_profile"@, JsonTree::Text(self.budget_profile@)),
                ("deterministic"@, JsonTree::Bool(self.deterministic)),
            ],
        )
    }

    pub(crate) fn to_json(&self) -> (r: JsonValue)
        ensures
            r.tree() == self.tree(),
    {
        let record = RecordBuilder::new();
        let record = record.text("planner_policy_version", self.planner_policy_version.as_str());
        let record = record.text("projection_policy_version", self.projection_policy_version.as_str());
        let record = record.text("budget_profile", self.budget_profile.as_str());
        let record = record.flag("deterministic", self.deterministic);
        assert(record.fields() =~= self.tree()->Record_0);
        record.finish()
    }
}

impl IrStatus {
    /// The part as a document.
    pub open spec fn tree(self) -> JsonTree {
        JsonTree::Record(
            seq![
                ("working_set_status"@, JsonTree::Text(self.working_set_status.wire_name())),
                ("reasons"@, json_tree::texts_tree(text::texts(self.reasons@))),
                ("serving_fallback"@, JsonTree::Bool(self.serving_fallback)),
            ],
        )
    }

    pub(crate) fn to_json(&self) -> (r: JsonValue)
        ensures
            r.tree() == self.tree(),
    {
        let record = RecordBuilder::new();
        let record = record.text("working_set_status", self.working_set_status.wire_text());
        let record = record.texts("reasons", &self.reasons);
        let record = record.flag("serving_fallback", self.serving_fallback);
        assert(record.fields() =~= self.tree()->Record_0);
        record.finish()
    }
}

impl IrEvidence {
    /// The part as a document.
    pub open spec fn tree(self) -> JsonTree {
        JsonTree::Record(
            seq![
                ("state"@, JsonTree::Text(self.state.wire_name())),
                ("confidence"@, self.confidence.tree()),
                ("provider_fingerprint"@, json_tree::opt_text_tree(text::opt_text(self.provider_fingerprint))),
                ("source_revision_hash"@, json_tree::opt_text_tree(text::opt_text(self.source_revision_hash))),
                ("generation_id"@, JsonTree::Text(self.generation_id@)),
                ("preferred"@, json_tree::opt_flag_tree(self.preferred)),
                ("alternative_count"@, json_tree::opt_number_tree(json_tree::as_signed_int(self.alternative_count))),
            ],
        )
    }

    pub(crate) fn to_json(&self) -> (r: JsonValue)
        ensures
            r.tree() == self.tree(),
    {
        let record = RecordBuilder::new();
        let record = record.text("state", self.state.wire_text());
        let record = record.field("confidence", self.confidence.to_json());
        let record = record.opt_text("provider_fingerprint", &self.provider_fingerprint);
        let record = record.opt_text("source_revision_hash", &self.source_revision_hash);
        let record = record.text("generation_id", self.generation_id.as_str());
        let record = record.opt_flag("preferred", self.preferred);
        let record = record.opt_signed("alternative_count", self.alternative_count);
        assert(record.fields() =~= self.tree()->Record_0);
        record.finish()
    }
}

impl IrItemCost {
    /// The part as a document.
    pub open spec fn tree(self) -> JsonTree {
        JsonTree::Record(
            seq![
                ("metadata_bytes"@, json_tree::number_tree(self.metadata_bytes as int)),
                ("source_bytes"@, json_tree::number_tree(self.source_bytes as int)),
                ("estimated_tokens"@, json_tree::number_tree(self.estimated_tokens as int)),
            ],
        )
    }

    pub(crate) fn to_json(&self) -> (r: JsonValue)
        ensures
            r.tree() == self.tree(),
    {
        let record = RecordBuilder::new();
        let record = record.signed("metadata_bytes", self.metadata_bytes);
        let record = record.signed("source_bytes", self.source_bytes);
        let record = record.signed("estimated_tokens", self.estimated_tokens);
        assert(record.fields() =~= self.tree()->Record_0);
        record.finish()
    }
}

impl IrSourceRef {
    /// The part as a document.
    pub open spec fn tree(self) -> JsonTree {
        JsonTree::Record(
            seq![
                ("path"@, JsonTree::Text(self.path@)),
                ("start_byte"@, json_tree::number_tree(self.start_byte as int)),
                ("end_byte"@, json_tree::number_tree(self.end_byte as int)),
                ("indexed_hash"@, JsonTree::Text(self.indexed_hash@)),
                ("observed_hash"@, json_tree::opt_text_tree(text::opt_text(self.observed_hash))),
                ("verification_status"@, JsonTree::Text(self.verification_status.wire_name())),
            ],
        )
    }

    pub(crate) fn to_json(&self) -> (r: JsonValue)
        ensures
            r.tree() == self.tree(),
    {
        let record = RecordBuilder::new();
        let record = record.text("path", self.path.as_str());
        let record = record.signed("start_byte", self.start_byte);
        let record = record.signed("end_byte", self.end_byte);
        let record = record.text("indexed_hash", self.indexed_hash.as_str());
        let record = record.opt_text("observed_hash", &self.observed_hash);
        let record = record.text("verification_status", self.verification_status.wire_text());
        assert(record.fields() =~= self.tree()->Record_0);
        record.finish()
    }
}

impl IrWorkingSetItem {
    /// The part as a document.
    pub open spec fn tree(self) -> JsonTree {
        JsonTree::Record(
            seq![
                ("item_id"@, JsonTree::Text(self.item_id@)),
                ("entity_kind"@, JsonTree::Text(self.entity_kind.wire_name())),
                ("entity_id"@, JsonTree::Text(self.entity_id@)),
                ("role"@, JsonTree::Text(self.role.wire_name())),
                ("selection_reason"@, JsonTree::Text(self.selection_reason.wire_name())),
                ("origin_id"@, json_tree::opt_text_tree(text::opt_text(self.origin_id))),
                ("distance"@, json_tree::number_tree(self.distance as int)),
                ("rank"@, json_tree::number_tree(self.rank as int)),
                ("evidence"@, self.evidence.tree()),
                ("cost"@, self.cost.tree()),
                ("source"@, opt_source_ref_tree(self.source)),
            ],
        )
    }

    pub(crate) fn to_json(&self) -> (r: JsonValue)
        ensures
            r.tree() == self.tree(),
    {
        let record = RecordBuilder::new();
        let record = record.text("item_id", self.item_id.as_str());
        let record = record.text("entity_kind", self.entity_kind.wire_text());
        let record = record.text("entity_id", self.entity_id.as_str());
        let record = record.text("role", self.role.wire_text());
        let record = record.text("selection_reason", self.selection_reason.wire_text());
        let record = record.opt_text("origin_id", &self.origin_id);
        let record = record.signed("distance", self.distance);
        let record = record.signed("rank", self.rank);
        let record = record.field("evidence", self.evidence.to_json());
        let record = record.field("cost", self.cost.to_json());
        let record = record.field("source", opt_source_ref_json(&self.source));
        assert(record.fields() =~= self.tree()->Record_0);
        record.finish()
    }
}

impl IrRelationship {
    /// The part as a document.
    pub open spec fn tree(self) -> JsonTree {
        JsonTree::Record(
            seq![
                ("relationship_id"@, JsonTree::Text(self.relationship_id@)),
                ("source_entity_id"@, JsonTree::Text(self.source_entity_id@)),
                ("target_entity_id"@, JsonTree::Text(self.target_entity_id@)),
                ("relationship_type"@, JsonTree::Text(self.relationship_type@)),
                ("resolution_state"@, JsonTree::Text(self.resolution_state.wire_name())),
                ("evidence"@, self.evidence.tree()),
            ],
        )
    }

    pub(crate) fn to_json(&self) -> (r: JsonValue)
        ensures
            r.tree() == self.tree(),
    {
        let record = RecordBuilder::new();
        let record = record.text("relationship_id", self.relationship_id.as_str());
        let record = record.text("source_entity_id", self.source_entity_id.as_str());
        let record = record.text("target_entity_id", self.target_entity_id.as_str());
        let record = record.text("relationship_type", self.relationship_type.as_str());
        let record = record.text("resolution_state", self.resolution_state.wire_text());
        let record = record.field("evidence", self.evidence.to_json());
        assert(record.fields() =~= self.tree()->Record_0);
        record.finish()
    }
}

impl IrEffect {
    /// The part as a document.
    pub open spec fn tree(self) -> JsonTree {
        JsonTree::Record(
            seq![
                ("subject_entity_id"@, JsonTree::Text(self.subject_entity_id@)),
                ("effect_type"@, JsonTree::Text(self.effect_type@)),
                ("phase"@, JsonTree::Text(self.phase.wire_name())),
                ("evidence"@, self.evidence.tree()),
            ],
        )
    }

    pub(crate) fn to_json(&self) -> (r: JsonValue)
        ensures
            r.tree() == self.tree(),
    {
        let record = RecordBuilder::new();
        let record = record.text("subject_entity_id", self.subject_entity_id.as_str());
        let record = record.text("effect_type", self.effect_type.as_str());
        let record = record.text("phase", self.phase.wire_text());
        let record = record.field("evidence", self.evidence.to_json());
        assert(record.fields() =~= self.tree()->Record_0);
        record.finish()
    }
}

impl IrNotice {
    /// The part as a document.
    pub open spec fn tree(self) -> JsonTree {
        JsonTree::Record(
            seq![
                ("code"@, JsonTree::Text(self.code@)),
                ("severity"@, JsonTree::Text(self.severity.wire_name())),
                ("message"@, JsonTree::Text(self.message@)),
                ("entity_ids"@, json_tree::texts_tree(text::texts(self.entity_ids@))),
            ],
        )
    }

    pub(crate) fn to_json(&self) -> (r: JsonValue)
        ensures
            r.tree() == self.tree(),
    {
        let record = RecordBuilder::new();
        let record = record.text("code", self.code.as_str());
        let record = record.text("severity", self.severity.wire_text());
        let record = record.text("message", self.message.as_str());
        let record = record.texts("entity_ids", &self.entity_ids);
        assert(record.fields() =~= self.tree()->Record_0);
        record.finish()
    }
}

impl IrCoverage {
    /// The part as a document.
    pub open spec fn tree(self) -> JsonTree {
        JsonTree::Record(
            seq![
                ("eligible"@, json_tree::number_tree(self.eligible as int)),
                ("complete"@, json_tree::number_tree(self.complete as int)),
                ("partial"@, json_tree::number_tree(self.partial as int)),
                ("unsupported"@, json_tree::number_tree(self.unsupported as int)),
                ("excluded"@, json_tree::number_tree(self.excluded as int)),
                ("failed"@, json_tree::number_tree(self.failed as int)),
                ("claim_strength"@, JsonTree::Text(self.claim_strength.wire_name())),
                ("details"@, json_tree::texts_tree(text::texts(self.details@))),
            ],
        )
    }

    pub(crate) fn to_json(&self) -> (r: JsonValue)
        ensures
            r.tree() == self.tree(),
    {
        let record = RecordBuilder::new();
        let record = record.signed("eligible", self.eligible);
        let record = record.signed("complete", self.complete);
        let record = record.signed("partial", self.partial);
        let record = record.signed("unsupported", self.unsupported);
        let record = record.signed("excluded", self.excluded);
        let record = record.signed("failed", self.failed);
        let record = record.text("claim_strength", self.claim_strength.wire_text());
        let record = record.texts("details", &self.details);
        assert(record.fields() =~= self.tree()->Record_0);
        record.finish()
    }
}

impl IrOmissions {
    /// The part as a document.
    pub open spec fn tree(self) -> JsonTree {
        JsonTree::Record(
            seq![
                ("candidates_considered"@, json_tree::number_tree(self.candidates_considered as int)),
                ("selected"@, json_tree::number_tree(self.selected as int)),
                ("omitted"@, json_tree::number_tree(self.omitted as int)),
                ("truncated"@, JsonTree::Bool(self.truncated)),
                ("by_reason"@, JsonTree::Record(count_fields(self.by_reason@))),
            ],
        )
    }

    pub(crate) fn to_json(&self) -> (r: JsonValue)
        ensures
            r.tree() == self.tree(),
    {
        let record = RecordBuilder::new();
        let record = record.signed("candidates_considered", self.candidates_considered);
        let record = record.signed("selected", self.selected);
        let record = record.signed("omitted", self.omitted);
        let record = record.flag("truncated", self.truncated);
        let record = record.field("by_reason", counts_json(&self.by_reason));
        assert(record.fields() =~= self.tree()->Record_0);
        record.finish()
    }
}

impl IrValidation {
    /// The part as a document.
    pub open spec fn tree(self) -> JsonTree {
        JsonTree::Record(
            seq![
                ("kind"@, JsonTree::Text(self.kind.wire_name())),
                ("target"@, JsonTree::Text(self.target@)),
                ("reason"@, JsonTree::Text(self.reason@)),
                ("required"@, JsonTree::Bool(self.required)),
            ],
        )
    }

    pub(crate) fn to_json(&self) -> (r: JsonValue)
        ensures
            r.tree() == self.tree(),
    {
        let record = RecordBuilder::new();
        let record = record.text("kind", self.kind.wire_text());
        let record = record.text("target", self.target.as_str());
        let record = record.text("reason", self.reason.as_str());
        let record = record.flag("required", self.required);
        assert(record.fields() =~= self.tree()->Record_0);
        record.finish()
    }
}

impl IrCost {
    /// The part as a document.
    pub open spec fn tree(self) -> JsonTree {
        JsonTree::Record(
            seq![
                ("max_records"@, json_tree::number_tree(self.max_records as int)),
                ("selected_records"@, json_tree::number_tree(self.selected_records as int)),
                ("max_source_bytes"@, json_tree::number_tree(self.max_source_bytes as int)),
                ("selected_source_bytes"@, json_tree::number_tree(self.selected_source_bytes as int)),
                ("max_estimated_tokens"@, json_tree::number_tree(self.max_estimated_tokens as int)),
                ("selected_estimated_tokens"@, json_tree::number_tree(self.selected_estimated_tokens as int)),
                ("soft_latency_ms"@, json_tree::number_tree(self.soft_latency_ms as int)),
                ("hard_latency_ms"@, json_tree::number_tree(self.hard_latency_ms as int)),
                ("elapsed_ms"@, json_tree::number_tree(self.elapsed_ms as int)),
            ],
        )
    }

    pub(crate) fn to_json(&self) -> (r: JsonValue)
        ensures
            r.tree() == self.tree(),
    {
        let record = RecordBuilder::new();
        let record = record.signed("max_records", self.max_records);
        let record = record.signed("selected_records", self.selected_records);
        let record = record.signed("max_source_bytes", self.max_source_bytes);
        let record = record.signed("selected_source_bytes", self.selected_source_bytes);
        let record = record.signed("max_estimated_tokens", self.max_estimated_tokens);
        let record = record.signed("selected_estimated_tokens", self.selected_estimated_tokens);
        let record = record.signed("soft_latency_ms", self.soft_latency_ms);
        let record = record.signed("hard_latency_ms", self.hard_latency_ms);
        let record = record.signed("elapsed_ms", self.elapsed_ms);
        assert(record.fields() =~= self.tree()->Record_0);
        record.finish()
    }
}

impl SymbolCard {
    /// What the digest of the document covers.
    pub open spec fn identity_tree(self) -> JsonTree {
        JsonTree::Record(
            seq![
                ("schema_version"@, JsonTree::Text(self.schema_version@)),
                ("serving_generation_id"@, JsonTree::Text(self.serving_generation_id@)),
                ("workspace_id"@, JsonTree::Text(self.workspace_id@)),
                ("generation_id"@, JsonTree::Text(self.generation_id@)),
                ("canonical_symbol_key"@, JsonTree::Text(self.canonical_symbol_key@)),
                ("path"@, JsonTree::Text(self.path@)),
                ("range"@, self.range.tree()),
                ("kind"@, JsonTree::Text(self.kind@)),
                ("language"@, json_tree::opt_text_tree(text::opt_text(self.language))),
                ("signature"@, json_tree::opt_text_tree(text::opt_text(self.signature))),
                ("preferred_evidence"@, self.preferred_evidence.tree()),
                ("counts"@, self.counts.tree()),
                ("coverage_state"@, JsonTree::Text(self.coverage_state.wire_name())),
                ("cost"@, self.cost.tree()),
            ],
        )
    }

    pub(crate) fn identity_json(&self) -> (r: JsonValue)
        ensures
            r.tree() == self.identity_tree(),
    {
        let record = RecordBuilder::new();
        let record = record.text("schema_version", self.schema_version.as_str());
        let record = record.text("serving_generation_id", self.serving_generation_id.as_str());
        let record = record.text("workspace_id", self.workspace_id.as_str());
        let record = record.text("generation_id", self.generation_id.as_str());
        let record = record.text("canonical_symbol_key", self.canonical_symbol_key.as_str());
        let record = record.text("path", self.path.as_str());
        let record = record.field("range", self.range.to_json());
        let record = record.text("kind", self.kind.as_str());
        let record = record.opt_text("language", &self.language);
        let record = record.opt_text("signature", &self.signature);
        let record = record.field("preferred_evidence", self.preferred_evidence.to_json());
        let record = record.field("counts", self.counts.to_json());
        let record = record.text("coverage_state", self.coverage_state.wire_text());
        let record = record.field("cost", self.cost.to_json());
        assert(record.fields() =~= self.identity_tree()->Record_0);
        record.finish()
    }
}

impl GenerationDelta {
    /// What the digest of the document covers.
    pub open spec fn identity_tree(self) -> JsonTree {
        JsonTree::Record(
            seq![
                ("schema_version"@, JsonTree::Text(self.schema_version@)),
                ("delta_id"@, JsonTree::Text(self.delta_id@)),
                ("workspace_id"@, JsonTree::Text(self.workspace_id@)),
                ("from_generation_id"@, JsonTree::Text(self.from_generation_id@)),
                ("to_generation_id"@, JsonTree::Text(self.to_generation_id@)),
                ("delta_policy_version"@, JsonTree::Text(self.delta_policy_version@)),
                ("files"@, self.files.tree()),
                ("symbols"@, self.symbols.tree()),
                ("relationships"@, self.relationships.tree()),
                ("effects"@, self.effects.tree()),
                ("coverage"@, self.coverage.tree()),
                ("conflicts"@, self.conflicts.tree()),
                ("unchanged_verified_contracts"@, JsonTree::List(unchanged_contract_trees(self.unchanged_verified_contracts@))),
                ("uncertainty"@, json_tree::texts_tree(text::texts(self.uncertainty@))),
            ],
        )
    }

    pub(crate) fn identity_json(&self) -> (r: JsonValue)
        ensures
            r.tree() == self.identity_tree(),
    {
        let record = RecordBuilder::new();
        let record = record.text("schema_version", self.schema_version.as_str());
        let record = record.text("delta_id", self.delta_id.as_str());
        let record = record.text("workspace_id", self.workspace_id.as_str());
        let record = record.text("from_generation_id", self.from_generation_id.as_str());
        let record = record.text("to_generation_id", self.to_generation_id.as_str());
        let record = record.text("delta_policy_version", self.delta_policy_version.as_str());
        let record = record.field("files", self.files.to_json());
        let record = record.field("symbols", self.symbols.to_json());
        let record = record.field("relationships", self.relationships.to_json());
        let record = record.field("effects", self.effects.to_json());
        let record = record.field("coverage", self.coverage.to_json());
        let record = record.field("conflicts", self.conflicts.to_json());
        let record = record.field("unchanged_verified_contracts", unchanged_contract_list(&self.unchanged_verified_contracts));
        let record = record.texts("uncertainty", &self.uncertainty);
        assert(record.fields() =~= self.identity_tree()->Record_0);
        record.finish()
    }
}

impl ContextIr {
    /// What the digest of the document covers.
    pub open spec fn identity_tree(self) -> JsonTree {
        JsonTree::Record(
            seq![
                ("schema_version"@, JsonTree::Text(self.schema_version@)),
                ("context_id"@, JsonTree::Text(self.context_id@)),
                ("workspace"@, self.workspace.tree()),
                ("task"@, self.task.tree()),
                ("policy"@, self.policy.tree()),
                ("status"@, self.status.tree()),
                ("working_set"@, JsonTree::List(working_set_item_trees(self.working_set@))),
                ("relationships"@, JsonTree::List(relationship_trees(self.relationships@))),
                ("effects"@, JsonTree::List(effect_trees(self.effects@))),
                ("uncertainty"@, JsonTree::List(notice_trees(self.uncertainty@))),
                ("coverage"@, self.coverage.tree()),
                ("omissions"@, self.omissions.tree()),
                ("validation_plan"@, JsonTree::List(validation_trees(self.validation_plan@))),
                ("cost"@, self.cost.tree()),
            ],
        )
    }

    pub(crate) fn identity_json(&self) -> (r: JsonValue)
        ensures
            r.tree() == self.identity_tree(),
    {
        let record = RecordBuilder::new();
        let record = record.text("schema_version", self.schema_version.as_str());
        let record = record.text("context_id", self.context_id.as_str());
        let record = record.field("workspace", self.workspace.to_json());
        let record = record.field("task", self.task.to_json());
        let record = record.field("policy", self.policy.to_json());
        let record = record.field("status", self.status.to_json());
        let record = record.field("working_set", working_set_item_list(&self.working_set));
        let record = record.field("relationships", relationship_list(&self.relationships));
        let record = record.field("effects", effect_list(&self.effects));
        let record = record.field("uncertainty", notice_list(&self.uncertainty));
        let record = record.field("coverage", self.coverage.to_json());
        let record = record.field("omissions", self.omissions.to_json());
        let record = record.field("validation_plan", validation_list(&self.validation_plan));
        let record = record.field("cost", self.cost.to_json());
        assert(record.fields() =~= self.identity_tree()->Record_0);
        record.finish()
    }
}

impl ContextIr {
    /// The whole document.
    pub open spec fn tree(self) -> JsonTree {
        JsonTree::Record(
            seq![
                ("schema_version"@, JsonTree::Text(self.schema_version@)),
                ("context_id"@, JsonTree::Text(self.context_id@)),
                ("workspace"@, self.workspace.tree()),
                ("task"@, self.task.tree()),
                ("policy"@, self.policy.tree()),
                ("status"@, self.status.tree()),
                ("working_set"@, JsonTree::List(working_set_item_trees(self.working_set@))),
                ("relationships"@, JsonTree::List(relationship_trees(self.relationships@))),
                ("effects"@, JsonTree::List(effect_trees(self.effects@))),
                ("uncertainty"@, JsonTree::List(notice_trees(self.uncertainty@))),
                ("coverage"@, self.coverage.tree()),
                ("omissions"@, self.omissions.tree()),
                ("validation_plan"@, JsonTree::List(validation_trees(self.validation_plan@))),
                ("cost"@, self.cost.tree()),
                ("context_hash"@, JsonTree::Text(self.context_hash@)),
            ],
        )
    }

    pub(crate) fn to_json(&self) -> (r: JsonValue)
        ensures
            r.tree() == self.tree(),
    {
        let record = RecordBuilder::new();
        let record = record.text("schema_version", self.schema_version.as_str());
        let record = record.text("context_id", self.context_id.as_str());
        let record = record.field("workspace", self.workspace.to_json());
        let record = record.field("task", self.task.to_json());
        let record = record.field("policy", self.policy.to_json());
        let record = record.field("status", self.status.to_json());
        let record = record.field("working_set", working_set_item_list(&self.working_set));
        let record = record.field("relationships", relationship_list(&self.relationships));
        let record = record.field("effects", effect_list(&self.effects));
        let record = record.field("uncertainty", notice_list(&self.uncertainty));
        let record = record.field("coverage", self.coverage.to_json());
        let record = record.field("omissions", self.omissions.to_json());
        let record = record.field("validation_plan", validation_list(&self.validation_plan));
        let record = record.field("cost", self.cost.to_json());
        let record = record.text("context_hash", self.context_hash.as_str());
        assert(record.fields() =~= self.tree()->Record_0);
        record.finish()
    }
}


impl ContextIr {
    /// The document as it is stored.
    pub fn json_text(&self) -> (r: String)
        ensures
            r@ == json_tree::tree_text(self.tree()),
    {
        value_text(&self.to_json())
    }
}

} // verus!
