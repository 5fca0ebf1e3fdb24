//! Deep Context IR as JSON.
use vstd::prelude::*;

use crate::context_ir_json;
use crate::context_ir_json::{effect_list, relationship_list};
use crate::deep_context_ir::{
    DeepContextIrV2, IrCostV2, IrCoverageV2, IrEvidenceLeaseV2, IrItemCostV2,
    IrLeaseDependencyKindV2, IrLeaseDependencyV2, IrNoticeV2, IrOmissionReasonV2, IrOmissionsV2,
    IrPathConfinementV2, IrPolicyV2, IrRequirementStateV2, IrRoleSufficiencyV2, IrSemanticBudgetV2,
    IrSourceRefV2, IrSourceVerificationV2, IrStatusV2, IrTaskV2, IrTemporalConstraintsV2,
    IrTemporalStateV2, IrValidationReasonV2, IrValidationV2, IrWorkingSetItemV2, IrWorkspaceV2,
    OmissionCounts,
};
use crate::json_tree;
use crate::json_tree::{JsonTree, JsonValue, ListBuilder, RecordBuilder};
use crate::text;

verus! {

impl IrRequirementStateV2 {
    /// The name in documents.
    pub open spec fn wire_name(self) -> Seq<char> {
        match self {
            IrRequirementStateV2::Satisfied => "satisfied"@,
            IrRequirementStateV2::Missing => "missing"@,
            IrRequirementStateV2::Unresolved => "unresolved"@,
            IrRequirementStateV2::Stale => "stale"@,
            IrRequirementStateV2::Unavailable => "unavailable"@,
            IrRequirementStateV2::Unsupported => "unsupported"@,
            IrRequirementStateV2::Conflicting => "conflicting"@,
            IrRequirementStateV2::BudgetOmitted => "budget_omitted"@,
        }
    }

    /// The name in documents.
    pub fn wire_text(&self) -> (r: &'static str)
        ensures
            r@ == self.wire_name(),
    {
        match self {
            IrRequirementStateV2::Satisfied => "satisfied",
            IrRequirementStateV2::Missing => "missing",
            IrRequirementStateV2::Unresolved => "unresolved",
            IrRequirementStateV2::Stale => "stale",
            IrRequirementStateV2::Unavailable => "unavailable",
            IrRequirementStateV2::Unsupported => "unsupported",
            IrRequirementStateV2::Conflicting => "conflicting",
            IrRequirementStateV2::BudgetOmitted => "budget_omitted",
        }
    }
}

impl IrOmissionReasonV2 {
    /// The name in documents.
    pub open spec fn wire_name(self) -> Seq<char> {
        match self {
            IrOmissionReasonV2::MissingRequiredRole => "missing_required_role"@,
            IrOmissionReasonV2::UnresolvedEvidence => "unresolved_evidence"@,
            IrOmissionReasonV2::StaleEvidence => "stale_evidence"@,
            IrOmissionReasonV2::UnavailableEvidence => "unavailable_evidence"@,
            IrOmissionReasonV2::UnsupportedEvidence => "unsupported_evidence"@,
            IrOmissionReasonV2::ConflictingEvidence => "conflicting_evidence"@,
            IrOmissionReasonV2::AmbiguousSeed => "ambiguous_seed"@,
            IrOmissionReasonV2::FtsCandidateLimit => "fts_candidate_limit"@,
            IrOmissionReasonV2::RecordBudget => "record_budget"@,
            IrOmissionReasonV2::SourceByteBudget => "source_byte_budget"@,
            IrOmissionReasonV2::EstimatedTokenBudget => "estimated_token_budget"@,
            IrOmissionReasonV2::RelationshipDepthBudget => "relationship_depth_budget"@,
            IrOmissionReasonV2::WorkUnitBudget => "work_unit_budget"@,
            IrOmissionReasonV2::UncertaintyReserve => "uncertainty_reserve"@,
            IrOmissionReasonV2::TemporalEvidenceUnavailable => "temporal_evidence_unavailable"@,
            IrOmissionReasonV2::ValidationTargetUnavailable => "validation_target_unavailable"@,
            IrOmissionReasonV2::SourceVerificationFailed => "source_verification_failed"@,
        }
    }

    /// The name in documents.
    pub fn wire_text(&self) -> (r: &'static str)
        ensures
            r@ == self.wire_name(),
    {
        match self {
            IrOmissionReasonV2::MissingRequiredRole => "missing_required_role",
            IrOmissionReasonV2::UnresolvedEvidence => "unresolved_evidence",
            IrOmissionReasonV2::StaleEvidence => "stale_evidence",
            IrOmissionReasonV2::UnavailableEvidence => "unavailable_evidence",
            IrOmissionReasonV2::UnsupportedEvidence => "unsupported_evidence",
            IrOmissionReasonV2::ConflictingEvidence => "conflicting_evidence",
            IrOmissionReasonV2::AmbiguousSeed => "ambiguous_seed",
            IrOmissionReasonV2::FtsCandidateLimit => "fts_candidate_limit",
            IrOmissionReasonV2::RecordBudget => "record_budget",
            IrOmissionReasonV2::SourceByteBudget => "source_byte_budget",
            IrOmissionReasonV2::EstimatedTokenBudget => "estimated_token_budget",
            IrOmissionReasonV2::RelationshipDepthBudget => "relationship_depth_budget",
            IrOmissionReasonV2::WorkUnitBudget => "work_unit_budget",
            IrOmissionReasonV2::UncertaintyReserve => "uncertainty_reserve",
            IrOmissionReasonV2::TemporalEvidenceUnavailable => "temporal_evidence_unavailable",
            IrOmissionReasonV2::ValidationTargetUnavailable => "validation_target_unavailable",
            IrOmissionReasonV2::SourceVerificationFailed => "source_verification_failed",
        }
    }
}

impl IrPathConfinementV2 {
    /// The name in documents.
    pub open spec fn wire_name(self) -> Seq<char> {
        match self {
            IrPathConfinementV2::Confined => "confined"@,
            IrPathConfinementV2::OutsideCanonicalRoot => "outside_canonical_root"@,
            IrPathConfinementV2::SymlinkEscape => "symlink_escape"@,
            IrPathConfinementV2::Unavailable => "unavailable"@,
        }
    }

    /// The name in documents.
    pub fn wire_text(&self) -> (r: &'static str)
        ensures
            r@ == self.wire_name(),
    {
        match self {
            IrPathConfinementV2::Confined => "confined",
            IrPathConfinementV2::OutsideCanonicalRoot => "outside_canonical_root",
            IrPathConfinementV2::SymlinkEscape => "symlink_escape",
            IrPathConfinementV2::Unavailable => "unavailable",
        }
    }
}

impl IrSourceVerificationV2 {
    /// The name in documents.
    pub open spec fn wire_name(self) -> Seq<char> {
        match self {
            IrSourceVerificationV2::Verified => "verified"@,
            IrSourceVerificationV2::Stale => "stale"@,
            IrSourceVerificationV2::Unavailable => "unavailable"@,
            IrSourceVerificationV2::Unsupported => "unsupported"@,
        }
    }

    /// The name in documents.
    pub fn wire_text(&self) -> (r: &'static str)
        ensures
            r@ == self.wire_name(),
    {
        match self {
            IrSourceVerificationV2::Verified => "verified",
            IrSourceVerificationV2::Stale => "stale",
            IrSourceVerificationV2::Unavailable => "unavailable",
            IrSourceVerificationV2::Unsupported => "unsupported",
        }
    }
}

impl IrTemporalStateV2 {
    /// The name in documents.
    pub open spec fn wire_name(self) -> Seq<char> {
        match self {
            IrTemporalStateV2::NotRequired => "not_required"@,
            IrTemporalStateV2::VerifiedAncestor => "verified_ancestor"@,
            IrTemporalStateV2::Unavailable => "unavailable"@,
            IrTemporalStateV2::InvalidBaseline => "invalid_baseline"@,
        }
    }

    /// The name in documents.
    pub fn wire_text(&self) -> (r: &'static str)
        ensures
            r@ == self.wire_name(),
    {
        match self {
            IrTemporalStateV2::NotRequired => "not_required",
            IrTemporalStateV2::VerifiedAncestor => "verified_ancestor",
            IrTemporalStateV2::Unavailable => "unavailable",
            IrTemporalStateV2::InvalidBaseline => "invalid_baseline",
        }
    }
}

impl IrValidationReasonV2 {
    /// The name in documents.
    pub open spec fn wire_name(self) -> Seq<char> {
        match self {
            IrValidationReasonV2::TaskRecipe => "task_recipe"@,
            IrValidationReasonV2::AffectedTest => "affected_test"@,
            IrValidationReasonV2::AffectedConfiguration => "affected_configuration"@,
            IrValidationReasonV2::AffectedBuildContract => "affected_build_contract"@,
            IrValidationReasonV2::RequiredRoleClosure => "required_role_closure"@,
        }
    }

    /// The name in documents.
    pub fn wire_text(&self) -> (r: &'static str)
        ensures
            r@ == self.wire_name(),
    {
        match self {
            IrValidationReasonV2::TaskRecipe => "task_recipe",
            IrValidationReasonV2::AffectedTest => "affected_test",
            IrValidationReasonV2::AffectedConfiguration => "affected_configuration",
            IrValidationReasonV2::AffectedBuildContract => "affected_build_contract",
            IrValidationReasonV2::RequiredRoleClosure => "required_role_closure",
        }
    }
}

impl IrLeaseDependencyKindV2 {
    /// The name in documents.
    pub open spec fn wire_name(self) -> Seq<char> {
        match self {
            IrLeaseDependencyKindV2::SourceDigest => "source_digest"@,
            IrLeaseDependencyKindV2::Relationship => "relationship"@,
            IrLeaseDependencyKindV2::Effect => "effect"@,
            IrLeaseDependencyKindV2::ProviderFingerprint => "provider_fingerprint"@,
            IrLeaseDependencyKindV2::Coverage => "coverage"@,
            IrLeaseDependencyKindV2::Conflict => "conflict"@,
            IrLeaseDependencyKindV2::PlannerPolicy => "planner_policy"@,
            IrLeaseDependencyKindV2::ProjectionPolicy => "projection_policy"@,
            IrLeaseDependencyKindV2::Estimator => "estimator"@,
        }
    }

    /// The name in documents.
    pub fn wire_text(&self) -> (r: &'static str)
        ensures
            r@ == self.wire_name(),
    {
        match self {
            IrLeaseDependencyKindV2::SourceDigest => "source_digest",
            IrLeaseDependencyKindV2::Relationship => "relationship",
            IrLeaseDependencyKindV2::Effect => "effect",
            IrLeaseDependencyKindV2::ProviderFingerprint => "provider_fingerprint",
            IrLeaseDependencyKindV2::Coverage => "coverage",
            IrLeaseDependencyKindV2::Conflict => "conflict",
            IrLeaseDependencyKindV2::PlannerPolicy => "planner_policy",
            IrLeaseDependencyKindV2::ProjectionPolicy => "projection_policy",
            IrLeaseDependencyKindV2::Estimator => "estimator",
        }
    }
}

impl OmissionCounts {
    /// The counts of the first `n` reasons, as the fields of a record.
    pub open spec fn fields_upto(self, n: nat) -> Seq<(Seq<char>, JsonTree)>
        decreases n,
    {
        if n == 0 {
            Seq::empty()
        } else {
            match self.counts@[n - 1] {
                Some(count) => self.fields_upto((n - 1) as nat).push(
                    (
                        IrOmissionReasonV2::at(n - 1).wire_name(),
                        json_tree::number_tree(count as int),
                    ),
                ),
                None => self.fields_upto((n - 1) as nat),
            }
        }
    }

    /// The counts as a document.
    pub open spec fn tree(self) -> JsonTree {
        JsonTree::Record(self.fields_upto(17))
    }

    pub(crate) fn to_json(&self) -> (r: JsonValue)
        ensures
            r.tree() == self.tree(),
    {
        let mut record = RecordBuilder::new();
        for i in 0usize..17
            invariant
                record.fields() == self.fields_upto(i as nat),
        {
            match self.counts[i] {
                Some(count) => {
                    record = record.count(IrOmissionReasonV2::of_rank(i).wire_text(), count);
                },
                None => {},
            }
        }
        record.finish()
    }
}

impl IrOmissionReasonV2 {
    /// The reason at a position in the order of reasons.
    pub open spec fn at(rank: int) -> Self {
        if rank == 0 {
            IrOmissionReasonV2::MissingRequiredRole
        } else if rank == 1 {
            IrOmissionReasonV2::UnresolvedEvidence
        } else if rank == 2 {
            IrOmissionReasonV2::StaleEvidence
        } else if rank == 3 {
            IrOmissionReasonV2::UnavailableEvidence
        } else if rank == 4 {
            IrOmissionReasonV2::UnsupportedEvidence
        } else if rank == 5 {
            IrOmissionReasonV2::ConflictingEvidence
        } else if rank == 6 {
            IrOmissionReasonV2::AmbiguousSeed
        } else if rank == 7 {
            IrOmissionReasonV2::FtsCandidateLimit
        } else if rank == 8 {
            IrOmissionReasonV2::RecordBudget
        } else if rank == 9 {
            IrOmissionReasonV2::SourceByteBudget
        } else if rank == 10 {
            IrOmissionReasonV2::EstimatedTokenBudget
        } else if rank == 11 {
            IrOmissionReasonV2::RelationshipDepthBudget
        } else if rank == 12 {
            IrOmissionReasonV2::WorkUnitBudget
        } else if rank == 13 {
            IrOmissionReasonV2::UncertaintyReserve
        } else if rank == 14 {
            IrOmissionReasonV2::TemporalEvidenceUnavailable
        } else if rank == 15 {
            IrOmissionReasonV2::ValidationTargetUnavailable
        } else {
            IrOmissionReasonV2::SourceVerificationFailed
        }
    }

    fn of_rank(rank: usize) -> (r: Self)
        ensures
            r == Self::at(rank as int),
    {
        if rank == 0 {
            IrOmissionReasonV2::MissingRequiredRole
        } else if rank == 1 {
            IrOmissionReasonV2::UnresolvedEvidence
        } else if rank == 2 {
            IrOmissionReasonV2::StaleEvidence
        } else if rank == 3 {
            IrOmissionReasonV2::UnavailableEvidence
        } else if rank == 4 {
            IrOmissionReasonV2::UnsupportedEvidence
        } else if rank == 5 {
            IrOmissionReasonV2::ConflictingEvidence
        } else if rank == 6 {
            IrOmissionReasonV2::AmbiguousSeed
        } else if rank == 7 {
            IrOmissionReasonV2::FtsCandidateLimit
        } else if rank == 8 {
            IrOmissionReasonV2::RecordBudget
        } else if rank == 9 {
            IrOmissionReasonV2::SourceByteBudget
        } else if rank == 10 {
            IrOmissionReasonV2::EstimatedTokenBudget
        } else if rank == 11 {
            IrOmissionReasonV2::RelationshipDepthBudget
        } else if rank == 12 {
            IrOmissionReasonV2::WorkUnitBudget
        } else if rank == 13 {
            IrOmissionReasonV2::UncertaintyReserve
        } else if rank == 14 {
            IrOmissionReasonV2::TemporalEvidenceUnavailable
        } else if rank == 15 {
            IrOmissionReasonV2::ValidationTargetUnavailable
        } else {
            IrOmissionReasonV2::SourceVerificationFailed
        }
    }
}

/// The documents of a list.
pub open spec fn lease_dependency_v2_trees(items: Seq<IrLeaseDependencyV2>) -> Seq<JsonTree> {
    items.map_values(|item: IrLeaseDependencyV2| item.tree())
}

pub(crate) fn lease_dependency_v2_list(items: &Vec<IrLeaseDependencyV2>) -> (r: JsonValue)
    ensures
        r.tree() == JsonTree::List(lease_dependency_v2_trees(items@)),
{
    let mut list = ListBuilder::new();
    let ghost all = lease_dependency_v2_trees(items@);
    for i in 0..items.len()
        invariant
            all == lease_dependency_v2_trees(items@),
            list.items() == all.take(i as int),
    {
        list = list.item(items[i].to_json());
        assert(all.take(i + 1) =~= all.take(i as int).push(all[i as int]));
    }
    assert(all.take(items@.len() as int) =~= all);
    list.finish()
}

/// The documents of a list.
pub open spec fn notice_v2_trees(items: Seq<IrNoticeV2>) -> Seq<JsonTree> {
    items.map_values(|item: IrNoticeV2| item.tree())
}

pub(crate) fn notice_v2_list(items: &Vec<IrNoticeV2>) -> (r: JsonValue)
    ensures
        r.tree() == JsonTree::List(notice_v2_trees(items@)),
{
    let mut list = ListBuilder::new();
    let ghost all = notice_v2_trees(items@);
    for i in 0..items.len()
        invariant
            all == notice_v2_trees(items@),
            list.items() == all.take(i as int),
    {
        list = list.item(items[i].to_json());
        assert(all.take(i + 1) =~= all.take(i as int).push(all[i as int]));
    }
    assert(all.take(items@.len() as int) =~= all);
    list.finish()
}

/// The documents of a list.
pub open spec fn role_sufficiency_v2_trees(items: Seq<IrRoleSufficiencyV2>) -> Seq<JsonTree> {
    items.map_values(|item: IrRoleSufficiencyV2| item.tree())
}

pub(crate) fn role_sufficiency_v2_list(items: &Vec<IrRoleSufficiencyV2>) -> (r: JsonValue)
    ensures
        r.tree() == JsonTree::List(role_sufficiency_v2_trees(items@)),
{
    let mut list = ListBuilder::new();
    let ghost all = role_sufficiency_v2_trees(items@);
    for i in 0..items.len()
        invariant
            all == role_sufficiency_v2_trees(items@),
            list.items() == all.take(i as int),
    {
        list = list.item(items[i].to_json());
        assert(all.take(i + 1) =~= all.take(i as int).push(all[i as int]));
    }
    assert(all.take(items@.len() as int) =~= all);
    list.finish()
}

/// The documents of a list.
pub open spec fn validation_v2_trees(items: Seq<IrValidationV2>) -> Seq<JsonTree> {
    items.map_values(|item: IrValidationV2| item.tree())
}

pub(crate) fn validation_v2_list(items: &Vec<IrValidationV2>) -> (r: JsonValue)
    ensures
        r.tree() == JsonTree::List(validation_v2_trees(items@)),
{
    let mut list = ListBuilder::new();
    let ghost all = validation_v2_trees(items@);
    for i in 0..items.len()
        invariant
            all == validation_v2_trees(items@),
            list.items() == all.take(i as int),
    {
        list = list.item(items[i].to_json());
        assert(all.take(i + 1) =~= all.take(i as int).push(all[i as int]));
    }
    assert(all.take(items@.len() as int) =~= all);
    list.finish()
}

/// The documents of a list.
pub open spec fn working_set_item_v2_trees(items: Seq<IrWorkingSetItemV2>) -> Seq<JsonTree> {
    items.map_values(|item: IrWorkingSetItemV2| item.tree())
}

pub(crate) fn working_set_item_v2_list(items: &Vec<IrWorkingSetItemV2>) -> (r: JsonValue)
    ensures
        r.tree() == JsonTree::List(working_set_item_v2_trees(items@)),
{
    let mut list = ListBuilder::new();
    let ghost all = working_set_item_v2_trees(items@);
    for i in 0..items.len()
        invariant
            all == working_set_item_v2_trees(items@),
            list.items() == all.take(i as int),
    {
        list = list.item(items[i].to_json());
        assert(all.take(i + 1) =~= all.take(i as int).push(all[i as int]));
    }
    assert(all.take(items@.len() as int) =~= all);
    list.finish()
}

/// The names of a list.
pub open spec fn omission_reason_v2_words(items: Seq<IrOmissionReasonV2>) -> Seq<JsonTree> {
    items.map_values(|item: IrOmissionReasonV2| JsonTree::Text(item.wire_name()))
}

fn omission_reason_v2_word_list(items: &Vec<IrOmissionReasonV2>) -> (r: JsonValue)
    ensures
        r.tree() == JsonTree::List(omission_reason_v2_words(items@)),
{
    let mut list = ListBuilder::new();
    let ghost all = omission_reason_v2_words(items@);
    for i in 0..items.len()
        invariant
            all == omission_reason_v2_words(items@),
            list.items() == all.take(i as int),
    {
        list = list.item(JsonValue::Text(items[i].wire_text().to_string()));
        assert(all.take(i + 1) =~= all.take(i as int).push(all[i as int]));
    }
    assert(all.take(items@.len() as int) =~= all);
    list.finish()
}

/// A part that may be absent.
pub open spec fn opt_source_ref_v2_tree(value: Option<IrSourceRefV2>) -> JsonTree {
    match value {
        Some(value) => value.tree(),
        None => JsonTree::Null,
    }
}

fn opt_source_ref_v2_json(value: &Option<IrSourceRefV2>) -> (r: JsonValue)
    ensures
        r.tree() == opt_source_ref_v2_tree(*value),
{
    match value {
        Some(value) => value.to_json(),
        None => JsonValue::Null,
    }
}

/// A name that may be absent.
pub open spec fn opt_omission_reason_v2_word(value: Option<IrOmissionReasonV2>) -> JsonTree {
    match value {
        Some(value) => JsonTree::Text(value.wire_name()),
        None => JsonTree::Null,
    }
}

fn opt_omission_reason_v2_value(value: Option<IrOmissionReasonV2>) -> (r: JsonValue)
    ensures
        r.tree() == opt_omission_reason_v2_word(value),
{
    match value {
        Some(value) => JsonValue::Text(value.wire_text().to_string()),
        None => JsonValue::Null,
    }
}

impl IrWorkspaceV2 {
    /// The part as a document.
    pub open spec fn tree(self) -> JsonTree {
        JsonTree::Record(
            seq![
                ("workspace_id"@, JsonTree::Text(self.workspace_id@)),
                ("generation_id"@, JsonTree::Text(self.generation_id@)),
                ("generation_sequence"@, json_tree::number_tree(self.generation_sequence as int)),
                ("source_tree_hash"@, json_tree::opt_text_tree(text::opt_text(self.source_tree_hash))),
                ("configuration_hash"@, JsonTree::Text(self.configuration_hash@)),
                ("provider_set_hash"@, JsonTree::Text(self.provider_set_hash@)),
            ],
        )
    }

    pub(crate) fn to_json(&self) -> (r: JsonValue)
        ensures
            r.tree() == self.tree(),
    {
        let record = RecordBuilder::new();
        let record = record.text("workspace_id", self.workspace_id.as_str());
        let record = record.text("generation_id", self.generation_id.as_str());
        let record = record.signed("generation_sequence", self.generation_sequence);
        let record = record.opt_text("source_tree_hash", &self.source_tree_hash);
        let record = record.text("configuration_hash", self.configuration_hash.as_str());
        let record = record.text("provider_set_hash", self.provider_set_hash.as_str());
        assert(record.fields() =~= self.tree()->Record_0);
        record.finish()
    }
}

impl IrTaskV2 {
    /// The part as a document.
    pub open spec fn tree(self) -> JsonTree {
        JsonTree::Record(
            seq![
                ("task_session_id"@, JsonTree::Text(self.task_session_id@)),
                ("task_hash"@, JsonTree::Text(self.task_hash@)),
                ("normalized_goal_hash"@, JsonTree::Text(self.normalized_goal_hash@)),
                ("task_kind"@, JsonTree::Text(self.task_kind.wire_name())),
                ("kind_source"@, JsonTree::Text(self.kind_source.wire_name())),
                ("kind_rule_id"@, json_tree::opt_text_tree(text::opt_text(self.kind_rule_id))),
                ("seed_paths"@, json_tree::texts_tree(text::texts(self.seed_paths@))),
                ("seed_symbols"@, json_tree::texts_tree(text::texts(self.seed_symbols@))),
            ],
        )
    }

    pub(crate) fn to_json(&self) -> (r: JsonValue)
        ensures
            r.tree() == self.tree(),
    {
        let record = RecordBuilder::new();
        let record = record.text("task_session_id", self.task_session_id.as_str());
        let record = record.text("task_hash", self.task_hash.as_str());
        let record = record.text("normalized_goal_hash", self.normalized_goal_hash.as_str());
        let record = record.text("task_kind", self.task_kind.wire_text());
        let record = record.text("kind_source", self.kind_source.wire_text());
        let record = record.opt_text("kind_rule_id", &self.kind_rule_id);
        let record = record.texts("seed_paths", &self.seed_paths);
        let record = record.texts("seed_symbols", &self.seed_symbols);
        assert(record.fields() =~= self.tree()->Record_0);
        record.finish()
    }
}

impl IrSemanticBudgetV2 {
    /// The part as a document.
    pub open spec fn tree(self) -> JsonTree {
        JsonTree::Record(
            seq![
                ("max_records"@, json_tree::number_tree(self.max_records as int)),
                ("max_source_bytes"@, json_tree::number_tree(self.max_source_bytes as int)),
                ("max_estimated_tokens"@, json_tree::number_tree(self.max_estimated_tokens as int)),
                ("max_relationship_depth"@, json_tree::number_tree(self.max_relationship_depth as int)),
                ("max_work_units"@, json_tree::number_tree(self.max_work_units as int)),
                ("uncertainty_reserve_percent"@, json_tree::number_tree(self.uncertainty_reserve_percent as int)),
                ("budget_digest"@, JsonTree::Text(self.budget_digest@)),
            ],
        )
    }

    pub(crate) fn to_json(&self) -> (r: JsonValue)
        ensures
            r.tree() == self.tree(),
    {
        let record = RecordBuilder::new();
        let record = record.count("max_records", self.max_records);
        let record = record.count("max_source_bytes", self.max_source_bytes);
        let record = record.count("max_estimated_tokens", self.max_estimated_tokens);
        let record = record.count("max_relationship_depth", self.max_relationship_depth as u64);
        let record = record.count("max_work_units", self.max_work_units);
        let record = record.count("uncertainty_reserve_percent", self.uncertainty_reserve_percent as u64);
        let record = record.text("budget_digest", self.budget_digest.as_str());
        assert(record.fields() =~= self.tree()->Record_0);
        record.finish()
    }
}

impl IrPolicyV2 {
    /// The part as a document.
    pub open spec fn tree(self) -> JsonTree {
        JsonTree::Record(
            seq![
                ("planner_policy_version"@, JsonTree::Text(self.planner_policy_version@)),
                ("projection_policy_version"@, JsonTree::Text(self.projection_policy_version@)),
                ("estimator_version"@, JsonTree::Text(self.estimator_version@)),
                ("deterministic"@, JsonTree::Bool(self.deterministic)),
                ("semantic_budget"@, self.semantic_budget.tree()),
            ],
        )
    }

    pub(crate) fn to_json(&self) -> (r: JsonValue)
        ensures
            r.tree() == self.tree(),
    {
        let record = RecordBuilder::new();
        let record = record.text("planner_policy_version", self.planner_policy_version.as_str());
        let record = record.text("projection_policy_version", self.projection_policy_version.as_str());
        let record = record.text("estimator_version", self.estimator_version.as_str());
        let record = record.flag("deterministic", self.deterministic);
        let record = record.field("semantic_budget", self.semantic_budget.to_json());
        assert(record.fields() =~= self.tree()->Record_0);
        record.finish()
    }
}

impl IrRoleSufficiencyV2 {
    /// The part as a document.
    pub open spec fn tree(self) -> JsonTree {
        JsonTree::Record(
            seq![
                ("role"@, JsonTree::Text(self.role.wire_name())),
                ("required"@, JsonTree::Bool(self.required)),
                ("state"@, JsonTree::Text(self.state.wire_name())),
                ("evidence_item_ids"@, json_tree::texts_tree(text::texts(self.evidence_item_ids@))),
                ("reason"@, opt_omission_reason_v2_word(self.reason)),
            ],
        )
    }

    pub(crate) fn to_json(&self) -> (r: JsonValue)
        ensures
            r.tree() == self.tree(),
    {
        let record = RecordBuilder::new();
        let record = record.text("role", self.role.wire_text());
        let record = record.flag("required", self.required);
        let record = record.text("state", self.state.wire_text());
        let record = record.texts("evidence_item_ids", &self.evidence_item_ids);
        let record = record.field("reason", opt_omission_reason_v2_value(self.reason));
        assert(record.fields() =~= self.tree()->Record_0);
        record.finish()
    }
}

impl IrStatusV2 {
    /// The part as a document.
    pub open spec fn tree(self) -> JsonTree {
        JsonTree::Record(
            seq![
                ("working_set_status"@, JsonTree::Text(self.working_set_status.wire_name())),
                ("role_sufficiency"@, JsonTree::List(role_sufficiency_v2_trees(self.role_sufficiency@))),
                ("exact_source"@, JsonTree::Text(self.exact_source.wire_name())),
                ("validation"@, JsonTree::Text(self.validation.wire_name())),
                ("reasons"@, JsonTree::List(omission_reason_v2_words(self.reasons@))),
            ],
        )
    }

    pub(crate) fn to_json(&self) -> (r: JsonValue)
        ensures
            r.tree() == self.tree(),
    {
        let record = RecordBuilder::new();
        let record = record.text("working_set_status", self.working_set_status.wire_text());
        let record = record.field("role_sufficiency", role_sufficiency_v2_list(&self.role_sufficiency));
        let record = record.text("exact_source", self.exact_source.wire_text());
        let record = record.text("validation", self.validation.wire_text());
        let record = record.field("reasons", omission_reason_v2_word_list(&self.reasons));
        assert(record.fields() =~= self.tree()->Record_0);
        record.finish()
    }
}

impl IrSourceRefV2 {
    /// The part as a document.
    pub open spec fn tree(self) -> JsonTree {
        JsonTree::Record(
            seq![
                ("canonical_path"@, JsonTree::Text(self.canonical_path@)),
                ("whole_file_sha256"@, JsonTree::Text(self.whole_file_sha256@)),
                ("start_byte"@, json_tree::number_tree(self.start_byte as int)),
                ("end_byte"@, json_tree::number_tree(self.end_byte as int)),
                ("observed_sha256"@, json_tree::opt_text_tree(text::opt_text(self.observed_sha256))),
                ("verification_status"@, JsonTree::Text(self.verification_status.wire_name())),
                ("canonical_root_confinement"@, JsonTree::Text(self.canonical_root_confinement.wire_name())),
                ("revalidated_before_seal"@, JsonTree::Bool(self.revalidated_before_seal)),
            ],
        )
    }

    pub(crate) fn to_json(&self) -> (r: JsonValue)
        ensures
            r.tree() == self.tree(),
    {
        let record = RecordBuilder::new();
        let record = record.text("canonical_path", self.canonical_path.as_str());
        let record = record.text("whole_file_sha256", self.whole_file_sha256.as_str());
        let record = record.count("start_byte", self.start_byte);
        let record = record.count("end_byte", self.end_byte);
        let record = record.opt_text("observed_sha256", &self.observed_sha256);
        let record = record.text("verification_status", self.verification_status.wire_text());
        let record = record.text("canonical_root_confinement", self.canonical_root_confinement.wire_text());
        let record = record.flag("revalidated_before_seal", self.revalidated_before_seal);
        assert(record.fields() =~= self.tree()->Record_0);
        record.finish()
    }
}

impl IrItemCostV2 {
    /// The part as a document.
    pub open spec fn tree(self) -> JsonTree {
        JsonTree::Record(
            seq![
                ("metadata_bytes"@, json_tree::number_tree(self.metadata_bytes as int)),
                ("source_bytes"@, json_tree::number_tree(self.source_bytes as int)),
                ("estimated_tokens"@, json_tree::number_tree(self.estimated_tokens as int)),
            ],
        )
    }

    pub(crate) fn to_json(&self) -> (r: JsonValue)
        ensures
            r.tree() == self.tree(),
    {
        let record = RecordBuilder::new();
        let record = record.count("metadata_bytes", self.metadata_bytes);
        let record = record.count("source_bytes", self.source_bytes);
        let record = record.count("estimated_tokens", self.estimated_tokens);
        assert(record.fields() =~= self.tree()->Record_0);
        record.finish()
    }
}

impl IrWorkingSetItemV2 {
    /// The part as a document.
    pub open spec fn tree(self) -> JsonTree {
        JsonTree::Record(
            seq![
                ("item_id"@, JsonTree::Text(self.item_id@)),
                ("entity_kind"@, JsonTree::Text(self.entity_kind.wire_name())),
                ("entity_id"@, JsonTree::Text(self.entity_id@)),
                ("role"@, JsonTree::Text(self.role.wire_name())),
                ("selection_reason"@, JsonTree::Text(self.selection_reason.wire_name())),
                ("origin_id"@, json_tree::opt_text_tree(text::opt_text(self.origin_id))),
                ("distance"@, json_tree::number_tree(self.distance as int)),
                ("rank"@, json_tree::number_tree(self.rank as int)),
                ("evidence"@, self.evidence.tree()),
                ("cost"@, self.cost.tree()),
                ("source"@, opt_source_ref_v2_tree(self.source)),
            ],
        )
    }

    pub(crate) fn to_json(&self) -> (r: JsonValue)
        ensures
            r.tree() == self.tree(),
    {
        let record = RecordBuilder::new();
        let record = record.text("item_id", self.item_id.as_str());
        let record = record.text("entity_kind", self.entity_kind.wire_text());
        let record = record.text("entity_id", self.entity_id.as_str());
        let record = record.text("role", self.role.wire_text());
        let record = record.text("selection_reason", self.selection_reason.wire_text());
        let record = record.opt_text("origin_id", &self.origin_id);
        let record = record.count("distance", self.distance as u64);
        let record = record.count("rank", self.rank);
        let record = record.field("evidence", self.evidence.to_json());
        let record = record.field("cost", self.cost.to_json());
        let record = record.field("source", opt_source_ref_v2_json(&self.source));
        assert(record.fields() =~= self.tree()->Record_0);
        record.finish()
    }
}

impl IrTemporalConstraintsV2 {
    /// The part as a document.
    pub open spec fn tree(self) -> JsonTree {
        JsonTree::Record(
            seq![
                ("current_generation_id"@, JsonTree::Text(self.current_generation_id@)),
                ("baseline_generation_id"@, json_tree::opt_text_tree(text::opt_text(self.baseline_generation_id))),
                ("state"@, JsonTree::Text(self.state.wire_name())),
                ("evidence_item_ids"@, json_tree::texts_tree(text::texts(self.evidence_item_ids@))),
                ("omission_reason"@, opt_omission_reason_v2_word(self.omission_reason)),
            ],
        )
    }

    pub(crate) fn to_json(&self) -> (r: JsonValue)
        ensures
            r.tree() == self.tree(),
    {
        let record = RecordBuilder::new();
        let record = record.text("current_generation_id", self.current_generation_id.as_str());
        let record = record.opt_text("baseline_generation_id", &self.baseline_generation_id);
        let record = record.text("state", self.state.wire_text());
        let record = record.texts("evidence_item_ids", &self.evidence_item_ids);
        let record = record.field("omission_reason", opt_omission_reason_v2_value(self.omission_reason));
        assert(record.fields() =~= self.tree()->Record_0);
        record.finish()
    }
}

impl IrNoticeV2 {
    /// The part as a document.
    pub open spec fn tree(self) -> JsonTree {
        JsonTree::Record(
            seq![
                ("code"@, JsonTree::Text(self.code.wire_name())),
                ("severity"@, JsonTree::Text(self.severity.wire_name())),
                ("entity_ids"@, json_tree::texts_tree(text::texts(self.entity_ids@))),
            ],
        )
    }

    pub(crate) fn to_json(&self) -> (r: JsonValue)
        ensures
            r.tree() == self.tree(),
    {
        let record = RecordBuilder::new();
        let record = record.text("code", self.code.wire_text());
        let record = record.text("severity", self.severity.wire_text());
        let record = record.texts("entity_ids", &self.entity_ids);
        assert(record.fields() =~= self.tree()->Record_0);
        record.finish()
    }
}

impl IrCoverageV2 {
    /// The part as a document.
    pub open spec fn tree(self) -> JsonTree {
        JsonTree::Record(
            seq![
                ("eligible"@, json_tree::number_tree(self.eligible as int)),
                ("complete"@, json_tree::number_tree(self.complete as int)),
                ("partial"@, json_tree::number_tree(self.partial as int)),
                ("unsupported"@, json_tree::number_tree(self.unsupported as int)),
                ("excluded"@, json_tree::number_tree(self.excluded as int)),
                ("failed"@, json_tree::number_tree(self.failed as int)),
                ("claim_strength"@, JsonTree::Text(self.claim_strength.wire_name())),
                ("deficits"@, JsonTree::List(omission_reason_v2_words(self.deficits@))),
            ],
        )
    }

    pub(crate) fn to_json(&self) -> (r: JsonValue)
        ensures
            r.tree() == self.tree(),
    {
        let record = RecordBuilder::new();
        let record = record.count("eligible", self.eligible);
        let record = record.count("complete", self.complete);
        let record = record.count("partial", self.partial);
        let record = record.count("unsupported", self.unsupported);
        let record = record.count("excluded", self.excluded);
        let record = record.count("failed", self.failed);
        let record = record.text("claim_strength", self.claim_strength.wire_text());
        let record = record.field("deficits", omission_reason_v2_word_list(&self.deficits));
        assert(record.fields() =~= self.tree()->Record_0);
        record.finish()
    }
}

impl IrOmissionsV2 {
    /// The part as a document.
    pub open spec fn tree(self) -> JsonTree {
        JsonTree::Record(
            seq![
                ("candidates_considered"@, json_tree::number_tree(self.candidates_considered as int)),
                ("selected"@, json_tree::number_tree(self.selected as int)),
                ("omitted"@, json_tree::number_tree(self.omitted as int)),
                ("truncated"@, JsonTree::Bool(self.truncated)),
                ("by_reason"@, self.by_reason.tree()),
            ],
        )
    }

    pub(crate) fn to_json(&self) -> (r: JsonValue)
        ensures
            r.tree() == self.tree(),
    {
        let record = RecordBuilder::new();
        let record = record.count("candidates_considered", self.candidates_considered);
        let record = record.count("selected", self.selected);
        let record = record.count("omitted", self.omitted);
        let record = record.flag("truncated", self.truncated);
        let record = record.field("by_reason", self.by_reason.to_json());
        assert(record.fields() =~= self.tree()->Record_0);
        record.finish()
    }
}

impl IrValidationV2 {
    /// The part as a document.
    pub open spec fn tree(self) -> JsonTree {
        JsonTree::Record(
            seq![
                ("kind"@, JsonTree::Text(self.kind.wire_name())),
                ("target_entity_id"@, JsonTree::Text(self.target_entity_id@)),
                ("reason"@, JsonTree::Text(self.reason.wire_name())),
                ("required"@, JsonTree::Bool(self.required)),
            ],
        )
    }

    pub(crate) fn to_json(&self) -> (r: JsonValue)
        ensures
            r.tree() == self.tree(),
    {
        let record = RecordBuilder::new();
        let record = record.text("kind", self.kind.wire_text());
        let record = record.text("target_entity_id", self.target_entity_id.as_str());
        let record = record.text("reason", self.reason.wire_text());
        let record = record.flag("required", self.required);
        assert(record.fields() =~= self.tree()->Record_0);
        record.finish()
    }
}

impl IrLeaseDependencyV2 {
    /// The part as a document.
    pub open spec fn tree(self) -> JsonTree {
        JsonTree::Record(
            seq![
                ("kind"@, JsonTree::Text(self.kind.wire_name())),
                ("key"@, JsonTree::Text(self.key@)),
                ("digest"@, JsonTree::Text(self.digest@)),
            ],
        )
    }

    pub(crate) fn to_json(&self) -> (r: JsonValue)
        ensures
            r.tree() == self.tree(),
    {
        let record = RecordBuilder::new();
        let record = record.text("kind", self.kind.wire_text());
        let record = record.text("key", self.key.as_str());
        let record = record.text("digest", self.digest.as_str());
        assert(record.fields() =~= self.tree()->Record_0);
        record.finish()
    }
}

impl IrEvidenceLeaseV2 {
    /// The part as a document.
    pub open spec fn tree(self) -> JsonTree {
        JsonTree::Record(
            seq![
                ("generation_id"@, JsonTree::Text(self.generation_id@)),
                ("dependencies"@, JsonTree::List(lease_dependency_v2_trees(self.dependencies@))),
            ],
        )
    }

    pub(crate) fn to_json(&self) -> (r: JsonValue)
        ensures
            r.tree() == self.tree(),
    {
        let record = RecordBuilder::new();
        let record = record.text("generation_id", self.generation_id.as_str());
        let record = record.field("dependencies", lease_dependency_v2_list(&self.dependencies));
        assert(record.fields() =~= self.tree()->Record_0);
        record.finish()
    }
}

impl IrCostV2 {
    /// The part as a document.
    pub open spec fn tree(self) -> JsonTree {
        JsonTree::Record(
            seq![
                ("selected_records"@, json_tree::number_tree(self.selected_records as int)),
                ("selected_source_bytes"@, json_tree::number_tree(self.selected_source_bytes as int)),
                ("selected_estimated_tokens"@, json_tree::number_tree(self.selected_estimated_tokens as int)),
                ("relationship_depth_reached"@, json_tree::number_tree(self.relationship_depth_reached as int)),
                ("work_units_consumed"@, json_tree::number_tree(self.work_units_consumed as int)),
                ("uncertainty_records_reserved"@, json_tree::number_tree(self.uncertainty_records_reserved as int)),
                ("uncertainty_records_selected"@, json_tree::number_tree(self.uncertainty_records_selected as int)),
            ],
        )
    }

    pub(crate) fn to_json(&self) -> (r: JsonValue)
        ensures
            r.tree() == self.tree(),
    {
        let record = RecordBuilder::new();
        let record = record.count("selected_records", self.selected_records);
        let record = record.count("selected_source_bytes", self.selected_source_bytes);
        let record = record.count("selected_estimated_tokens", self.selected_estimated_tokens);
        let record = record.count("relationship_depth_reached", self.relationship_depth_reached as u64);
        let record = record.count("work_units_consumed", self.work_units_consumed);
        let record = record.count("uncertainty_records_reserved", self.uncertainty_records_reserved);
        let record = record.count("uncertainty_records_selected", self.uncertainty_records_selected);
        assert(record.fields() =~= self.tree()->Record_0);
        record.finish()
    }
}

impl IrTaskV2 {
    /// What the digest of the document covers of the task: all but the session.
    pub open spec fn identity_tree(self) -> JsonTree {
        JsonTree::Record(
            seq![
                ("task_hash"@, JsonTree::Text(self.task_hash@)),
                ("normalized_goal_hash"@, JsonTree::Text(self.normalized_goal_hash@)),
                ("task_kind"@, JsonTree::Text(self.task_kind.wire_name())),
                ("kind_source"@, JsonTree::Text(self.kind_source.wire_name())),
                ("kind_rule_id"@, json_tree::opt_text_tree(text::opt_text(self.kind_rule_id))),
                ("seed_paths"@, json_tree::texts_tree(text::texts(self.seed_paths@))),
                ("seed_symbols"@, json_tree::texts_tree(text::texts(self.seed_symbols@))),
            ],
        )
    }

    fn identity_json(&self) -> (r: JsonValue)
        ensures
            r.tree() == self.identity_tree(),
    {
        let record = RecordBuilder::new();
        let record = record.text("task_hash", self.task_hash.as_str());
        let record = record.text("normalized_goal_hash", self.normalized_goal_hash.as_str());
        let record = record.text("task_kind", self.task_kind.wire_text());
        let record = record.text("kind_source", self.kind_source.wire_text());
        let record = record.opt_text("kind_rule_id", &self.kind_rule_id);
        let record = record.texts("seed_paths", &self.seed_paths);
        let record = record.texts("seed_symbols", &self.seed_symbols);
        assert(record.fields() =~= self.identity_tree()->Record_0);
        record.finish()
    }
}

impl DeepContextIrV2 {
    /// What the digest of the document covers: all but the context and the session.
    pub open spec fn identity_tree(self) -> JsonTree {
        JsonTree::Record(
            seq![
                ("schema_version"@, JsonTree::Text(self.schema_version@)),
                ("workspace"@, self.workspace.tree()),
                ("task"@, self.task.identity_tree()),
                ("policy"@, self.policy.tree()),
                ("status"@, self.status.tree()),
                ("working_set"@, JsonTree::List(working_set_item_v2_trees(self.working_set@))),
                ("relationships"@, JsonTree::List(context_ir_json::relationship_trees(self.relationships@))),
                ("effects"@, JsonTree::List(context_ir_json::effect_trees(self.effects@))),
                ("temporal_constraints"@, self.temporal_constraints.tree()),
                ("uncertainty"@, JsonTree::List(notice_v2_trees(self.uncertainty@))),
                ("coverage"@, self.coverage.tree()),
                ("omissions"@, self.omissions.tree()),
                ("validation_plan"@, JsonTree::List(validation_v2_trees(self.validation_plan@))),
                ("evidence_lease"@, self.evidence_lease.tree()),
                ("cost"@, self.cost.tree()),
            ],
        )
    }

    pub(crate) fn identity_json(&self) -> (r: JsonValue)
        ensures
            r.tree() == self.identity_tree(),
    {
        let record = RecordBuilder::new();
        let record = record.text("schema_version", self.schema_version.as_str());
        let record = record.field("workspace", self.workspace.to_json());
        let record = record.field("task", self.task.identity_json());
        let record = record.field("policy", self.policy.to_json());
        let record = record.field("status", self.status.to_json());
        let record = record.field("working_set", working_set_item_v2_list(&self.working_set));
        let record = record.field("relationships", relationship_list(&self.relationships));
        let record = record.field("effects", effect_list(&self.effects));
        let record = record.field("temporal_constraints", self.temporal_constraints.to_json());
        let record = record.field("uncertainty", notice_v2_list(&self.uncertainty));
        let record = record.field("coverage", self.coverage.to_json());
        let record = record.field("omissions", self.omissions.to_json());
        let record = record.field("validation_plan", validation_v2_list(&self.validation_plan));
        let record = record.field("evidence_lease", self.evidence_lease.to_json());
        let record = record.field("cost", self.cost.to_json());
        assert(record.fields() =~= self.identity_tree()->Record_0);
        record.finish()
    }
}

impl DeepContextIrV2 {
    /// The whole document.
    pub open spec fn tree(self) -> JsonTree {
        JsonTree::Record(
            seq![
                ("schema_version"@, JsonTree::Text(self.schema_version@)),
                ("context_id"@, JsonTree::Text(self.context_id@)),
                ("workspace"@, self.workspace.tree()),
                ("task"@, self.task.tree()),
                ("policy"@, self.policy.tree()),
                ("status"@, self.status.tree()),
                ("working_set"@, JsonTree::List(working_set_item_v2_trees(self.working_set@))),
                ("relationships"@, JsonTree::List(context_ir_json::relationship_trees(self.relationships@))),
                ("effects"@, JsonTree::List(context_ir_json::effect_trees(self.effects@))),
                ("temporal_constraints"@, self.temporal_constraints.tree()),
                ("uncertainty"@, JsonTree::List(notice_v2_trees(self.uncertainty@))),
                ("coverage"@, self.coverage.tree()),
                ("omissions"@, self.omissions.tree()),
                ("validation_plan"@, JsonTree::List(validation_v2_trees(self.validation_plan@))),
                ("evidence_lease"@, self.evidence_lease.tree()),
                ("cost"@, self.cost.tree()),
                ("context_hash"@, JsonTree::Text(self.context_hash@)),
            ],
        )
    }

    pub(crate) fn to_json(&self) -> (r: JsonValue)
        ensures
            r.tree() == self.tree(),
    {
        let record = RecordBuilder::new();
        let record = record.text("schema_version", self.schema_version.as_str());
        let record = record.text("context_id", self.context_id.as_str());
        let record = record.field("workspace", self.workspace.to_json());
        let record = record.field("task", self.task.to_json());
        let record = record.field("policy", self.policy.to_json());
        let record = record.field("status", self.status.to_json());
        let record = record.field("working_set", working_set_item_v2_list(&self.working_set));
        let record = record.field("relationships", relationship_list(&self.relationships));
        let record = record.field("effects", effect_list(&self.effects));
        let record = record.field("temporal_constraints", self.temporal_constraints.to_json());
        let record = record.field("uncertainty", notice_v2_list(&self.uncertainty));
        let record = record.field("coverage", self.coverage.to_json());
        let record = record.field("omissions", self.omissions.to_json());
        let record = record.field("validation_plan", validation_v2_list(&self.validation_plan));
        let record = record.field("evidence_lease", self.evidence_lease.to_json());
        let record = record.field("cost", self.cost.to_json());
        let record = record.text("context_hash", self.context_hash.as_str());
        assert(record.fields() =~= self.tree()->Record_0);
        record.finish()
    }
}

} // verus!
