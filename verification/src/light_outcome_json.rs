//! What the LIGHT route looks up, as JSON, and its digests.
use vstd::prelude::*;

use crate::digest;
use crate::digest::hash_of_text;
use crate::json_tree;
use crate::json_tree::{value_text, JsonTree, JsonValue, ListBuilder, RecordBuilder};
use crate::light_outcome::{
    CatalogueLightConflict, CatalogueLightCoverage, CatalogueLightIdentityMatch,
    CatalogueLightImpactTarget, CatalogueLightQueryTargetResult, CatalogueLightRelationship,
    CatalogueLightSourceReference, LightQueryProjection,
};
use crate::text;

verus! {

/// The documents of a list.
pub open spec fn conflict_trees(items: Seq<CatalogueLightConflict>) -> Seq<JsonTree> {
    items.map_values(|item: CatalogueLightConflict| item.tree())
}

pub(crate) fn conflict_list(items: &Vec<CatalogueLightConflict>) -> (r: JsonValue)
    ensures
        r.tree() == JsonTree::List(conflict_trees(items@)),
{
    let mut list = ListBuilder::new();
    let ghost all = conflict_trees(items@);
    for i in 0..items.len()
        invariant
            all == conflict_trees(items@),
            list.items() == all.take(i as int),
    {
        list = list.item(items[i].to_json());
        assert(all.take(i + 1) =~= all.take(i as int).push(all[i as int]));
    }
    assert(all.take(items@.len() as int) =~= all);
    list.finish()
}

/// The documents of a list.
pub open spec fn coverage_trees(items: Seq<CatalogueLightCoverage>) -> Seq<JsonTree> {
    items.map_values(|item: CatalogueLightCoverage| item.tree())
}

pub(crate) fn coverage_list(items: &Vec<CatalogueLightCoverage>) -> (r: JsonValue)
    ensures
        r.tree() == JsonTree::List(coverage_trees(items@)),
{
    let mut list = ListBuilder::new();
    let ghost all = coverage_trees(items@);
    for i in 0..items.len()
        invariant
            all == coverage_trees(items@),
            list.items() == all.take(i as int),
    {
        list = list.item(items[i].to_json());
        assert(all.take(i + 1) =~= all.take(i as int).push(all[i as int]));
    }
    assert(all.take(items@.len() as int) =~= all);
    list.finish()
}

/// The documents of a list.
pub open spec fn identity_match_trees(items: Seq<CatalogueLightIdentityMatch>) -> Seq<JsonTree> {
    items.map_values(|item: CatalogueLightIdentityMatch| item.tree())
}

pub(crate) fn identity_match_list(items: &Vec<CatalogueLightIdentityMatch>) -> (r: JsonValue)
    ensures
        r.tree() == JsonTree::List(identity_match_trees(items@)),
{
    let mut list = ListBuilder::new();
    let ghost all = identity_match_trees(items@);
    for i in 0..items.len()
        invariant
            all == identity_match_trees(items@),
            list.items() == all.take(i as int),
    {
        list = list.item(items[i].to_json());
        assert(all.take(i + 1) =~= all.take(i as int).push(all[i as int]));
    }
    assert(all.take(items@.len() as int) =~= all);
    list.finish()
}

/// The documents of a list.
pub open spec fn impact_target_trees(items: Seq<CatalogueLightImpactTarget>) -> Seq<JsonTree> {
    items.map_values(|item: CatalogueLightImpactTarget| item.tree())
}

pub(crate) fn impact_target_list(items: &Vec<CatalogueLightImpactTarget>) -> (r: JsonValue)
    ensures
        r.tree() == JsonTree::List(impact_target_trees(items@)),
{
    let mut list = ListBuilder::new();
    let ghost all = impact_target_trees(items@);
    for i in 0..items.len()
        invariant
            all == impact_target_trees(items@),
            list.items() == all.take(i as int),
    {
        list = list.item(items[i].to_json());
        assert(all.take(i + 1) =~= all.take(i as int).push(all[i as int]));
    }
    assert(all.take(items@.len() as int) =~= all);
    list.finish()
}

/// The documents of a list.
pub open spec fn query_target_result_trees(items: Seq<CatalogueLightQueryTargetResult>) -> Seq<JsonTree> {
    items.map_values(|item: CatalogueLightQueryTargetResult| item.tree())
}

pub(crate) fn query_target_result_list(items: &Vec<CatalogueLightQueryTargetResult>) -> (r: JsonValue)
    ensures
        r.tree() == JsonTree::List(query_target_result_trees(items@)),
{
    let mut list = ListBuilder::new();
    let ghost all = query_target_result_trees(items@);
    for i in 0..items.len()
        invariant
            all == query_target_result_trees(items@),
            list.items() == all.take(i as int),
    {
        list = list.item(items[i].to_json());
        assert(all.take(i + 1) =~= all.take(i as int).push(all[i as int]));
    }
    assert(all.take(items@.len() as int) =~= all);
    list.finish()
}

/// The documents of a list.
pub open spec fn relationship_trees(items: Seq<CatalogueLightRelationship>) -> Seq<JsonTree> {
    items.map_values(|item: CatalogueLightRelationship| item.tree())
}

pub(crate) fn relationship_list(items: &Vec<CatalogueLightRelationship>) -> (r: JsonValue)
    ensures
        r.tree() == JsonTree::List(relationship_trees(items@)),
{
    let mut list = ListBuilder::new();
    let ghost all = relationship_trees(items@);
    for i in 0..items.len()
        invariant
            all == relationship_trees(items@),
            list.items() == all.take(i as int),
    {
        list = list.item(items[i].to_json());
        assert(all.take(i + 1) =~= all.take(i as int).push(all[i as int]));
    }
    assert(all.take(items@.len() as int) =~= all);
    list.finish()
}

/// The documents of a list.
pub open spec fn source_reference_trees(items: Seq<CatalogueLightSourceReference>) -> Seq<JsonTree> {
    items.map_values(|item: CatalogueLightSourceReference| item.tree())
}

pub(crate) fn source_reference_list(items: &Vec<CatalogueLightSourceReference>) -> (r: JsonValue)
    ensures
        r.tree() == JsonTree::List(source_reference_trees(items@)),
{
    let mut list = ListBuilder::new();
    let ghost all = source_reference_trees(items@);
    for i in 0..items.len()
        invariant
            all == source_reference_trees(items@),
            list.items() == all.take(i as int),
    {
        list = list.item(items[i].to_json());
        assert(all.take(i + 1) =~= all.take(i as int).push(all[i as int]));
    }
    assert(all.take(items@.len() as int) =~= all);
    list.finish()
}

/// A list that may be absent.
pub open spec fn opt_conflict_tree(items: Option<Vec<CatalogueLightConflict>>) -> JsonTree {
    match items {
        Some(items) => JsonTree::List(conflict_trees(items@)),
        None => JsonTree::Null,
    }
}

fn opt_conflict_json(items: &Option<Vec<CatalogueLightConflict>>) -> (r: JsonValue)
    ensures
        r.tree() == opt_conflict_tree(*items),
{
    match items {
        Some(items) => conflict_list(items),
        None => JsonValue::Null,
    }
}

/// A list that may be absent.
pub open spec fn opt_coverage_tree(items: Option<Vec<CatalogueLightCoverage>>) -> JsonTree {
    match items {
        Some(items) => JsonTree::List(coverage_trees(items@)),
        None => JsonTree::Null,
    }
}

fn opt_coverage_json(items: &Option<Vec<CatalogueLightCoverage>>) -> (r: JsonValue)
    ensures
        r.tree() == opt_coverage_tree(*items),
{
    match items {
        Some(items) => coverage_list(items),
        None => JsonValue::Null,
    }
}

/// A list that may be absent.
pub open spec fn opt_impact_target_tree(items: Option<Vec<CatalogueLightImpactTarget>>) -> JsonTree {
    match items {
        Some(items) => JsonTree::List(impact_target_trees(items@)),
        None => JsonTree::Null,
    }
}

fn opt_impact_target_json(items: &Option<Vec<CatalogueLightImpactTarget>>) -> (r: JsonValue)
    ensures
        r.tree() == opt_impact_target_tree(*items),
{
    match items {
        Some(items) => impact_target_list(items),
        None => JsonValue::Null,
    }
}

/// A list that may be absent.
pub open spec fn opt_relationship_tree(items: Option<Vec<CatalogueLightRelationship>>) -> JsonTree {
    match items {
        Some(items) => JsonTree::List(relationship_trees(items@)),
        None => JsonTree::Null,
    }
}

fn opt_relationship_json(items: &Option<Vec<CatalogueLightRelationship>>) -> (r: JsonValue)
    ensures
        r.tree() == opt_relationship_tree(*items),
{
    match items {
        Some(items) => relationship_list(items),
        None => JsonValue::Null,
    }
}

impl CatalogueLightIdentityMatch {
    /// The part as a document.
    pub open spec fn tree(self) -> JsonTree {
        JsonTree::Record(
            seq![
                ("canonical_path"@, JsonTree::Text(self.canonical_path@)),
                ("canonical_symbol_key"@, json_tree::opt_text_tree(text::opt_text(self.canonical_symbol_key))),
                ("content_hash"@, JsonTree::Text(self.content_hash@)),
            ],
        )
    }

    pub(crate) fn to_json(&self) -> (r: JsonValue)
        ensures
            r.tree() == self.tree(),
    {
        let record = RecordBuilder::new();
        let record = record.text("canonical_path", self.canonical_path.as_str());
        let record = record.opt_text("canonical_symbol_key", &self.canonical_symbol_key);
        let record = record.text("content_hash", self.content_hash.as_str());
        assert(record.fields() =~= self.tree()->Record_0);
        record.finish()
    }
}

impl CatalogueLightRelationship {
    /// The part as a document.
    pub open spec fn tree(self) -> JsonTree {
        JsonTree::Record(
            seq![
                ("relationship_type"@, JsonTree::Text(self.relationship_type@)),
                ("source_ref_kind"@, JsonTree::Text(self.source_ref_kind@)),
                ("source_ref_value"@, JsonTree::Text(self.source_ref_value@)),
                ("target_ref_kind"@, JsonTree::Text(self.target_ref_kind@)),
                ("target_ref_value"@, JsonTree::Text(self.target_ref_value@)),
                ("evidence_method"@, JsonTree::Text(self.evidence_method@)),
                ("confidence_millionths"@, json_tree::number_tree(self.confidence_millionths as int)),
            ],
        )
    }

    pub(crate) fn to_json(&self) -> (r: JsonValue)
        ensures
            r.tree() == self.tree(),
    {
        let record = RecordBuilder::new();
        let record = record.text("relationship_type", self.relationship_type.as_str());
        let record = record.text("source_ref_kind", self.source_ref_kind.as_str());
        let record = record.text("source_ref_value", self.source_ref_value.as_str());
        let record = record.text("target_ref_kind", self.target_ref_kind.as_str());
        let record = record.text("target_ref_value", self.target_ref_value.as_str());
        let record = record.text("evidence_method", self.evidence_method.as_str());
        let record = record.signed("confidence_millionths", self.confidence_millionths);
        assert(record.fields() =~= self.tree()->Record_0);
        record.finish()
    }
}

impl CatalogueLightImpactTarget {
    /// The part as a document.
    pub open spec fn tree(self) -> JsonTree {
        JsonTree::Record(
            seq![
                ("source_ref_kind"@, JsonTree::Text(self.source_ref_kind@)),
                ("source_ref_value"@, JsonTree::Text(self.source_ref_value@)),
                ("resolution_status"@, JsonTree::Text(self.resolution_status@)),
                ("resolved_ref_kind"@, json_tree::opt_text_tree(text::opt_text(self.resolved_ref_kind))),
                ("resolved_ref_value"@, json_tree::opt_text_tree(text::opt_text(self.resolved_ref_value))),
            ],
        )
    }

    pub(crate) fn to_json(&self) -> (r: JsonValue)
        ensures
            r.tree() == self.tree(),
    {
        let record = RecordBuilder::new();
        let record = record.text("source_ref_kind", self.source_ref_kind.as_str());
        let record = record.text("source_ref_value", self.source_ref_value.as_str());
        let record = record.text("resolution_status", self.resolution_status.as_str());
        let record = record.opt_text("resolved_ref_kind", &self.resolved_ref_kind);
        let record = record.opt_text("resolved_ref_value", &self.resolved_ref_value);
        assert(record.fields() =~= self.tree()->Record_0);
        record.finish()
    }
}

impl CatalogueLightCoverage {
    /// The part as a document.
    pub open spec fn tree(self) -> JsonTree {
        JsonTree::Record(
            seq![
                ("scope_kind"@, JsonTree::Text(self.scope_kind@)),
                ("scope_key"@, JsonTree::Text(self.scope_key@)),
                ("status"@, JsonTree::Text(self.status@)),
            ],
        )
    }

    pub(crate) fn to_json(&self) -> (r: JsonValue)
        ensures
            r.tree() == self.tree(),
    {
        let record = RecordBuilder::new();
        let record = record.text("scope_kind", self.scope_kind.as_str());
        let record = record.text("scope_key", self.scope_key.as_str());
        let record = record.text("status", self.status.as_str());
        assert(record.fields() =~= self.tree()->Record_0);
        record.finish()
    }
}

impl CatalogueLightConflict {
    /// The part as a document.
    pub open spec fn tree(self) -> JsonTree {
        JsonTree::Record(
            seq![
                ("subject_kind"@, JsonTree::Text(self.subject_kind@)),
                ("subject_key"@, JsonTree::Text(self.subject_key@)),
                ("conflict_type"@, JsonTree::Text(self.conflict_type@)),
                ("status"@, JsonTree::Text(self.status@)),
                ("preferred_fact_id"@, json_tree::opt_text_tree(text::opt_text(self.preferred_fact_id))),
            ],
        )
    }

    pub(crate) fn to_json(&self) -> (r: JsonValue)
        ensures
            r.tree() == self.tree(),
    {
        let record = RecordBuilder::new();
        let record = record.text("subject_kind", self.subject_kind.as_str());
        let record = record.text("subject_key", self.subject_key.as_str());
        let record = record.text("conflict_type", self.conflict_type.as_str());
        let record = record.text("status", self.status.as_str());
        let record = record.opt_text("preferred_fact_id", &self.preferred_fact_id);
        assert(record.fields() =~= self.tree()->Record_0);
        record.finish()
    }
}

impl CatalogueLightQueryTargetResult {
    /// The part as a document.
    pub open spec fn tree(self) -> JsonTree {
        JsonTree::Record(
            seq![
                ("target_kind"@, JsonTree::Text(self.target_kind@)),
                ("target"@, JsonTree::Text(self.target@)),
                ("identity_matches"@, JsonTree::List(identity_match_trees(self.identity_matches@))),
                ("relationships"@, opt_relationship_tree(self.relationships)),
                ("relationships_truncated"@, JsonTree::Bool(self.relationships_truncated)),
                ("impact_targets"@, opt_impact_target_tree(self.impact_targets)),
                ("impact_truncated"@, JsonTree::Bool(self.impact_truncated)),
                ("coverage"@, opt_coverage_tree(self.coverage)),
                ("coverage_truncated"@, JsonTree::Bool(self.coverage_truncated)),
                ("conflicts"@, opt_conflict_tree(self.conflicts)),
                ("conflicts_truncated"@, JsonTree::Bool(self.conflicts_truncated)),
            ],
        )
    }

    pub(crate) fn to_json(&self) -> (r: JsonValue)
        ensures
            r.tree() == self.tree(),
    {
        let record = RecordBuilder::new();
        let record = record.text("target_kind", self.target_kind.as_str());
        let record = record.text("target", self.target.as_str());
        let record = record.field("identity_matches", identity_match_list(&self.identity_matches));
        let record = record.field("relationships", opt_relationship_json(&self.relationships));
        let record = record.flag("relationships_truncated", self.relationships_truncated);
        let record = record.field("impact_targets", opt_impact_target_json(&self.impact_targets));
        let record = record.flag("impact_truncated", self.impact_truncated);
        let record = record.field("coverage", opt_coverage_json(&self.coverage));
        let record = record.flag("coverage_truncated", self.coverage_truncated);
        let record = record.field("conflicts", opt_conflict_json(&self.conflicts));
        let record = record.flag("conflicts_truncated", self.conflicts_truncated);
        assert(record.fields() =~= self.tree()->Record_0);
        record.finish()
    }
}

impl CatalogueLightSourceReference {
    /// The part as a document.
    pub open spec fn tree(self) -> JsonTree {
        JsonTree::Record(
            seq![
                ("canonical_path"@, JsonTree::Text(self.canonical_path@)),
                ("indexed_hash"@, json_tree::opt_text_tree(text::opt_text(self.indexed_hash))),
                ("observed_hash"@, json_tree::opt_text_tree(text::opt_text(self.observed_hash))),
                ("status"@, JsonTree::Text(self.status@)),
            ],
        )
    }

    pub(crate) fn to_json(&self) -> (r: JsonValue)
        ensures
            r.tree() == self.tree(),
    {
        let record = RecordBuilder::new();
        let record = record.text("canonical_path", self.canonical_path.as_str());
        let record = record.opt_text("indexed_hash", &self.indexed_hash);
        let record = record.opt_text("observed_hash", &self.observed_hash);
        let record = record.text("status", self.status.as_str());
        assert(record.fields() =~= self.tree()->Record_0);
        record.finish()
    }
}

/// The digest of the results of a query.
pub open spec fn query_digest(items: Seq<CatalogueLightQueryTargetResult>) -> Seq<char> {
    digest::content_hash(
        digest::text_field(json_tree::tree_text(JsonTree::List(query_target_result_trees(items)))),
    )
}

/// The digest of the results of a query.
pub fn digest_of_query(items: &Vec<CatalogueLightQueryTargetResult>) -> (r: String)
    ensures
        r@ == query_digest(items@),
        text::hex64(r@),
{
    hash_of_text(value_text(&query_target_result_list(items)).as_str())
}

/// The results of a list of projections.
pub open spec fn projected_results(projections: Seq<LightQueryProjection>) -> Seq<
    CatalogueLightQueryTargetResult,
> {
    projections.map_values(|projection: LightQueryProjection| projection.result)
}

/// The digest of the results of a list of projections.
pub fn digest_of_projections(projections: &Vec<LightQueryProjection>) -> (r: String)
    ensures
        r@ == query_digest(projected_results(projections@)),
        text::hex64(r@),
{
    let mut list = ListBuilder::new();
    let ghost all = query_target_result_trees(projected_results(projections@));
    for i in 0..projections.len()
        invariant
            all == query_target_result_trees(projected_results(projections@)),
            list.items() == all.take(i as int),
    {
        list = list.item(projections[i].result.to_json());
        assert(all[i as int] == projections@[i as int].result.tree());
        assert(all.take(i + 1) =~= all.take(i as int).push(all[i as int]));
    }
    assert(all.take(projections@.len() as int) =~= all);
    hash_of_text(value_text(&list.finish()).as_str())
}

/// The digest of a list of source references.
pub open spec fn source_digest(items: Seq<CatalogueLightSourceReference>) -> Seq<char> {
    digest::content_hash(
        digest::text_field(json_tree::tree_text(JsonTree::List(source_reference_trees(items)))),
    )
}

/// The digest of a list of source references.
pub fn digest_of_sources(items: &Vec<CatalogueLightSourceReference>) -> (r: String)
    ensures
        r@ == source_digest(items@),
        text::hex64(r@),
{
    hash_of_text(value_text(&source_reference_list(items)).as_str())
}

} // verus!
