//! The LIGHT route: bounded query projections, bounded source references, and what
//! they deliver of the requested capabilities.
//!
//! The rows come in as the catalogue lists them; how many are kept, what they prove
//! and what they leave open is decided here.
use vstd::prelude::*;

use crate::context_dispatch::{OutcomeView, RouteAttemptOutcome};
use crate::context_execution;
use crate::context_execution::{
    CapabilityDeficitReason, ContextDiagnosticCode, ContextPayload, LightOperationResult,
    LightResultView, PayloadView,
};
use crate::context_metrics::{ContextExecutionCounters, MAX_CONTEXT_EXECUTION_RECORDS};
use crate::context_route;
use crate::context_route::{
    CallerCapabilityState, CapabilityMap, LightOperation, OperationView, RequiredCapability,
    VersionedOperation,
};
use crate::deep_outcome;
use crate::deep_outcome::{account_for, CapabilityJudge};
use crate::error;
use crate::error::AtlasError;
use crate::light_outcome_json;
use crate::light_outcome_json::{digest_of_projections, digest_of_sources};
use crate::text;
use crate::text::{opt_text_eq, text_eq};

verus! {

/// The most rows of one kind that a target keeps.
pub const MAX_LIGHT_ROWS_PER_TARGET: usize = 2;

/// The most records that a target can come to.
pub const MAX_LIGHT_RECORDS_PER_TARGET: usize = 10;

/// The most targets that are queried: as many as cannot exceed the record bound.
pub const MAX_LIGHT_QUERY_TARGETS: usize = 10_000;

#[derive(Debug, Clone, PartialEq, Eq)]
pub struct CatalogueLightIdentityMatch {
    pub canonical_path: String,
    pub canonical_symbol_key: Option<String>,
    pub content_hash: String,
}

#[derive(Debug, Clone, PartialEq, Eq)]
pub struct CatalogueLightRelationship {
    pub relationship_type: String,
    pub source_ref_kind: String,
    pub source_ref_value: String,
    pub target_ref_kind: String,
    pub target_ref_value: String,
    pub evidence_method: String,
    pub confidence_millionths: i64,
}

#[derive(Debug, Clone, PartialEq, Eq)]
pub struct CatalogueLightImpactTarget {
    pub source_ref_kind: String,
    pub source_ref_value: String,
    pub resolution_status: String,
    pub resolved_ref_kind: Option<String>,
    pub resolved_ref_value: Option<String>,
}

#[derive(Debug, Clone, PartialEq, Eq)]
pub struct CatalogueLightCoverage {
    pub scope_kind: String,
    pub scope_key: String,
    pub status: String,
}

#[derive(Debug, Clone, PartialEq, Eq)]
pub struct CatalogueLightConflict {
    pub subject_kind: String,
    pub subject_key: String,
    pub conflict_type: String,
    pub status: String,
    pub preferred_fact_id: Option<String>,
}

#[derive(Debug, Clone, PartialEq, Eq)]
pub struct CatalogueLightQueryTargetResult {
    pub target_kind: String,
    pub target: String,
    pub identity_matches: Vec<CatalogueLightIdentityMatch>,
    pub relationships: Option<Vec<CatalogueLightRelationship>>,
    pub relationships_truncated: bool,
    pub impact_targets: Option<Vec<CatalogueLightImpactTarget>>,
    pub impact_truncated: bool,
    pub coverage: Option<Vec<CatalogueLightCoverage>>,
    pub coverage_truncated: bool,
    pub conflicts: Option<Vec<CatalogueLightConflict>>,
    pub conflicts_truncated: bool,
}

#[derive(Debug, Clone, PartialEq, Eq)]
pub struct CatalogueLightSourceReference {
    pub canonical_path: String,
    pub indexed_hash: Option<String>,
    pub observed_hash: Option<String>,
    pub status: String,
}

#[derive(Debug, Clone, PartialEq, Eq)]
pub struct CatalogueLightResults {
    pub query: Option<Vec<CatalogueLightQueryTargetResult>>,
    pub source_references: Option<Vec<CatalogueLightSourceReference>>,
}

impl Default for CatalogueLightResults {
    fn default() -> (r: Self)
        ensures
            r.query is None,
            r.source_references is None,
    {
        CatalogueLightResults { query: None, source_references: None }
    }
}

/// The rows that the catalogue lists for a target. Coverage is missing where the
/// target has no single owner file.
#[derive(Debug, Clone)]
pub struct LightRows {
    pub identity_matches: Vec<CatalogueLightIdentityMatch>,
    pub relationships: Vec<CatalogueLightRelationship>,
    pub impact_targets: Vec<CatalogueLightImpactTarget>,
    pub coverage: Option<Vec<CatalogueLightCoverage>>,
    pub conflicts: Vec<CatalogueLightConflict>,
}

/// What a query asks of each target beside its identity.
#[derive(Debug, Clone, Copy, PartialEq, Eq, Structural)]
pub struct LightAspects {
    pub relationships: bool,
    pub impact: bool,
    pub coverage: bool,
}

/// The part of the rows of one kind that a target keeps.
pub open spec fn kept<T>(rows: Seq<T>) -> Seq<T> {
    if rows.len() > MAX_LIGHT_ROWS_PER_TARGET {
        rows.take(MAX_LIGHT_ROWS_PER_TARGET as int)
    } else {
        rows
    }
}

/// More rows of one kind than a target keeps.
pub open spec fn cut<T>(rows: Seq<T>) -> bool {
    rows.len() > MAX_LIGHT_ROWS_PER_TARGET
}

/// What a projection keeps and what it proves.
#[derive(Debug, Clone)]
pub struct LightQueryProjection {
    pub result: CatalogueLightQueryTargetResult,
    pub relationship_evidence: bool,
    pub impact_evidence: bool,
    pub impact_conflicting: bool,
    pub coverage_complete: bool,
    pub coverage_limited: bool,
    pub relationship_conflicting: bool,
    pub relationship_omitted: bool,
    pub impact_omitted: bool,
    pub coverage_omitted: bool,
    pub coverage_conflicting: bool,
}

/// The rows of an optional list.
pub open spec fn opt_rows<T>(rows: Option<Vec<T>>) -> Option<Seq<T>> {
    match rows {
        Some(list) => Some(list@),
        None => None,
    }
}

/// The number of rows of an optional list.
pub open spec fn opt_len<T>(rows: Option<Vec<T>>) -> int {
    match rows {
        Some(list) => list@.len() as int,
        None => 0,
    }
}

impl LightQueryProjection {
    /// The rows that the projection holds.
    pub open spec fn records(self) -> int {
        self.result.identity_matches@.len() + opt_len(self.result.relationships) + opt_len(
            self.result.impact_targets,
        ) + opt_len(self.result.coverage) + opt_len(self.result.conflicts)
    }
}

/// The impact row names what it resolved to: a symbol, or a file.
pub open spec fn impact_qualified(row: CatalogueLightImpactTarget) -> bool {
    let named = row.resolved_ref_value matches Some(value) && value@.len() > 0;
    ||| row.resolution_status@ == "resolved_symbol"@ && text::opt_text(row.resolved_ref_kind)
        == Some("symbol"@) && named
    ||| row.resolution_status@ == "resolved_file"@ && text::opt_text(row.resolved_ref_kind)
        == Some("path"@) && named
}

fn is_impact_qualified(row: &CatalogueLightImpactTarget) -> (r: bool)
    ensures
        r == impact_qualified(*row),
{
    proof {
        reveal_strlit("resolved_symbol");
        reveal_strlit("resolved_file");
        assert("resolved_symbol"@.len() != "resolved_file"@.len());
    }
    let named = match &row.resolved_ref_value {
        Some(value) => !value.as_str().is_empty(),
        None => false,
    };
    if !named {
        return false;
    }
    let kind = match &row.resolved_ref_kind {
        Some(kind) => kind,
        None => return false,
    };
    (text_eq(row.resolution_status.as_str(), "resolved_symbol") && text_eq(
        kind.as_str(),
        "symbol",
    )) || (text_eq(row.resolution_status.as_str(), "resolved_file") && text_eq(
        kind.as_str(),
        "path",
    ))
}

/// Every row is qualified.
pub open spec fn all_qualified(rows: Seq<CatalogueLightImpactTarget>) -> bool {
    forall|i: int| 0 <= i < rows.len() ==> impact_qualified(#[trigger] rows[i])
}

/// Some conflict is about a relationship or an effect.
pub open spec fn any_relationship_conflict(rows: Seq<CatalogueLightConflict>) -> bool {
    exists|i: int|
        0 <= i < rows.len() && ((#[trigger] rows[i]).subject_kind@ == "relationship"@
            || rows[i].subject_kind@ == "effect"@)
}

/// Some conflict is about coverage.
pub open spec fn any_coverage_conflict(rows: Seq<CatalogueLightConflict>) -> bool {
    exists|i: int| 0 <= i < rows.len() && (#[trigger] rows[i]).subject_kind@ == "coverage"@
}

/// Every coverage row is complete.
pub open spec fn all_complete(rows: Seq<CatalogueLightCoverage>) -> bool {
    forall|i: int| 0 <= i < rows.len() ==> (#[trigger] rows[i]).status@ == "complete"@
}

fn first_rows<T>(rows: Vec<T>) -> (r: Vec<T>)
    ensures
        r@ == kept(rows@),
{
    let mut out = rows;
    if out.len() > MAX_LIGHT_ROWS_PER_TARGET {
        out.truncate(MAX_LIGHT_ROWS_PER_TARGET);
        assert(out@ =~= kept(rows@));
    }
    out
}

fn every_row_qualified(rows: &Vec<CatalogueLightImpactTarget>) -> (r: bool)
    ensures
        r == all_qualified(rows@),
{
    for i in 0..rows.len()
        invariant
            forall|j: int| 0 <= j < i ==> impact_qualified(#[trigger] rows@[j]),
    {
        if !is_impact_qualified(&rows[i]) {
            assert(!impact_qualified(rows@[i as int]));
            return false;
        }
    }
    true
}

fn has_relationship_conflict(rows: &Vec<CatalogueLightConflict>) -> (r: bool)
    ensures
        r == any_relationship_conflict(rows@),
{
    for i in 0..rows.len()
        invariant
            forall|j: int|
                0 <= j < i ==> (#[trigger] rows@[j]).subject_kind@ != "relationship"@
                    && rows@[j].subject_kind@ != "effect"@,
    {
        let kind = rows[i].subject_kind.as_str();
        if text_eq(kind, "relationship") || text_eq(kind, "effect") {
            assert(rows@[i as int].subject_kind@ == kind@);
            return true;
        }
    }
    false
}

fn has_coverage_conflict(rows: &Vec<CatalogueLightConflict>) -> (r: bool)
    ensures
        r == any_coverage_conflict(rows@),
{
    for i in 0..rows.len()
        invariant
            forall|j: int| 0 <= j < i ==> (#[trigger] rows@[j]).subject_kind@ != "coverage"@,
    {
        if text_eq(rows[i].subject_kind.as_str(), "coverage") {
            assert(rows@[i as int].subject_kind@ == "coverage"@);
            return true;
        }
    }
    false
}

fn every_row_complete(rows: &Vec<CatalogueLightCoverage>) -> (r: bool)
    ensures
        r == all_complete(rows@),
{
    for i in 0..rows.len()
        invariant
            forall|j: int| 0 <= j < i ==> (#[trigger] rows@[j]).status@ == "complete"@,
    {
        if !text_eq(rows[i].status.as_str(), "complete") {
            assert(rows@[i as int].status@ != "complete"@);
            return false;
        }
    }
    true
}

/// A projection is the one that the rows of a target give.
pub open spec fn projects(
    p: LightQueryProjection,
    target: Seq<char>,
    symbol: bool,
    rows: LightRows,
    asked: LightAspects,
) -> bool {
    let any = asked.relationships || asked.impact || asked.coverage;
    let coverage_rows = match rows.coverage {
        Some(list) => list@,
        None => Seq::empty(),
    };
    let conflicts = if any {
        kept(rows.conflicts@)
    } else {
        Seq::empty()
    };
    let conflicts_cut = any && cut(rows.conflicts@);
    let relationships_cut = asked.relationships && cut(rows.relationships@);
    let impact_cut = asked.impact && cut(rows.impact_targets@);
    let coverage_cut = asked.coverage && cut(coverage_rows);
    &&& p.result.target_kind@ == (if symbol {
        "symbol"@
    } else {
        "path"@
    })
    &&& p.result.target@ == target
    &&& p.result.identity_matches@ == rows.identity_matches@
    &&& opt_rows(p.result.relationships) == (if asked.relationships {
        Some(kept(rows.relationships@))
    } else {
        None
    })
    &&& p.result.relationships_truncated == relationships_cut
    &&& opt_rows(p.result.impact_targets) == (if asked.impact {
        Some(kept(rows.impact_targets@))
    } else {
        None
    })
    &&& p.result.impact_truncated == impact_cut
    &&& opt_rows(p.result.coverage) == (if asked.coverage {
        Some(kept(coverage_rows))
    } else {
        None
    })
    &&& p.result.coverage_truncated == coverage_cut
    &&& opt_rows(p.result.conflicts) == (if any {
        Some(conflicts)
    } else {
        None
    })
    &&& p.result.conflicts_truncated == conflicts_cut
    &&& p.relationship_conflicting == any_relationship_conflict(conflicts)
    &&& p.relationship_evidence == (asked.relationships && rows.relationships@.len() > 0
        && !relationships_cut)
    &&& p.impact_conflicting == ((asked.impact && !all_qualified(kept(rows.impact_targets@)))
        || p.relationship_conflicting)
    &&& p.impact_evidence == (asked.impact && rows.impact_targets@.len() > 0 && all_qualified(
        kept(rows.impact_targets@),
    ))
    &&& p.coverage_conflicting == any_coverage_conflict(conflicts)
    &&& p.coverage_complete == (asked.coverage && coverage_rows.len() > 0 && !coverage_cut
        && all_complete(kept(coverage_rows)))
    &&& p.coverage_limited == (coverage_cut || (asked.coverage && !all_complete(
        kept(coverage_rows),
    )))
    &&& p.relationship_omitted == (relationships_cut || conflicts_cut)
    &&& p.impact_omitted == (impact_cut || conflicts_cut)
    &&& p.coverage_omitted == (coverage_cut || conflicts_cut)
}

/// The projection of a target from the rows that the catalogue lists for it.
pub fn bounded_query_projection(
    target: &str,
    symbol: bool,
    rows: LightRows,
    asked: LightAspects,
) -> (r: LightQueryProjection)
    ensures
        projects(r, target@, symbol, rows, asked),
{
    let any = asked.relationships || asked.impact || asked.coverage;
    let relationships_truncated = asked.relationships && rows.relationships.len()
        > MAX_LIGHT_ROWS_PER_TARGET;
    let relationship_evidence = asked.relationships && rows.relationships.len() > 0
        && !relationships_truncated;
    let relationships = if asked.relationships {
        Some(first_rows(rows.relationships))
    } else {
        None
    };
    let impact_truncated = asked.impact && rows.impact_targets.len() > MAX_LIGHT_ROWS_PER_TARGET;
    let impact_present = rows.impact_targets.len() > 0;
    let impact_rows = first_rows(rows.impact_targets);
    let qualified = every_row_qualified(&impact_rows);
    let impact_targets = if asked.impact {
        Some(impact_rows)
    } else {
        None
    };
    let listed_coverage = match rows.coverage {
        Some(list) => list,
        None => Vec::new(),
    };
    let ghost coverage_rows = listed_coverage@;
    let coverage_truncated = asked.coverage && listed_coverage.len() > MAX_LIGHT_ROWS_PER_TARGET;
    let coverage_present = listed_coverage.len() > 0;
    let kept_coverage = first_rows(listed_coverage);
    let complete = every_row_complete(&kept_coverage);
    let coverage = if asked.coverage {
        Some(kept_coverage)
    } else {
        None
    };
    let conflicts_truncated = any && rows.conflicts.len() > MAX_LIGHT_ROWS_PER_TARGET;
    let kept_conflicts: Vec<CatalogueLightConflict> = if any {
        first_rows(rows.conflicts)
    } else {
        Vec::new()
    };
    let relationship_conflicting = has_relationship_conflict(&kept_conflicts);
    let coverage_conflicting = has_coverage_conflict(&kept_conflicts);
    let conflicts = if any {
        Some(kept_conflicts)
    } else {
        None
    };
    proof {
        if rows.coverage is None {
            assert(coverage_rows =~= Seq::empty());
        }
        if !any {
            assert(kept_conflicts@ =~= Seq::empty());
        }
    }
    LightQueryProjection {
        result: CatalogueLightQueryTargetResult {
            target_kind: if symbol {
                "symbol".to_string()
            } else {
                "path".to_string()
            },
            target: target.to_string(),
            identity_matches: rows.identity_matches,
            relationships,
            relationships_truncated,
            impact_targets,
            impact_truncated,
            coverage,
            coverage_truncated,
            conflicts,
            conflicts_truncated,
        },
        relationship_evidence,
        impact_evidence: asked.impact && impact_present && qualified,
        impact_conflicting: (asked.impact && !qualified) || relationship_conflicting,
        coverage_complete: asked.coverage && coverage_present && !coverage_truncated && complete,
        coverage_limited: coverage_truncated || (asked.coverage && !complete),
        relationship_conflicting,
        relationship_omitted: relationships_truncated || conflicts_truncated,
        impact_omitted: impact_truncated || conflicts_truncated,
        coverage_omitted: coverage_truncated || conflicts_truncated,
        coverage_conflicting,
    }
}

/// A target of at most two identities comes to at most ten records.
pub proof fn law_projections_are_bounded(
    p: LightQueryProjection,
    target: Seq<char>,
    symbol: bool,
    rows: LightRows,
    asked: LightAspects,
)
    requires
        projects(p, target, symbol, rows, asked),
        rows.identity_matches@.len() <= MAX_LIGHT_ROWS_PER_TARGET,
    ensures
        p.records() <= MAX_LIGHT_RECORDS_PER_TARGET,
{
    assert(opt_len(p.result.relationships) <= 2) by {
        if p.result.relationships is Some {
            assert(opt_rows(p.result.relationships) == Some(p.result.relationships->0@));
        }
    }
    assert(opt_len(p.result.impact_targets) <= 2) by {
        if p.result.impact_targets is Some {
            assert(opt_rows(p.result.impact_targets) == Some(p.result.impact_targets->0@));
        }
    }
    assert(opt_len(p.result.coverage) <= 2) by {
        if p.result.coverage is Some {
            assert(opt_rows(p.result.coverage) == Some(p.result.coverage->0@));
        }
    }
    assert(opt_len(p.result.conflicts) <= 2) by {
        if p.result.conflicts is Some {
            assert(opt_rows(p.result.conflicts) == Some(p.result.conflicts->0@));
        }
    }
}

// ---------------------------------------------------------------------------
// What to ask
// ---------------------------------------------------------------------------

/// A capability that was requested and that the caller lacks.
pub open spec fn needs_atlas(requested: CapabilityMap, capability: RequiredCapability) -> bool {
    requested.state(capability) matches Some(state) && state != CallerCapabilityState::Satisfied
}

fn is_needed(requested: &CapabilityMap, capability: RequiredCapability) -> (r: bool)
    ensures
        r == needs_atlas(*requested, capability),
{
    match requested.get(capability) {
        Some(state) => state != CallerCapabilityState::Satisfied,
        None => false,
    }
}

/// A target that is queried: a path, or a symbol.
#[derive(Debug, Clone, PartialEq, Eq)]
pub struct LightQueryTarget {
    pub target: String,
    pub symbol: bool,
}

/// The values of a target.
pub ghost struct QueryTargetView {
    pub target: Seq<char>,
    pub symbol: bool,
}

impl View for LightQueryTarget {
    type V = QueryTargetView;

    open spec fn view(&self) -> QueryTargetView {
        QueryTargetView { target: self.target@, symbol: self.symbol }
    }
}

/// Every target that can be queried: the paths, and then the symbols.
pub open spec fn all_query_targets(paths: Seq<Seq<char>>, symbols: Seq<Seq<char>>) -> Seq<
    QueryTargetView,
> {
    paths.map_values(|target: Seq<char>| QueryTargetView { target, symbol: false })
        + symbols.map_values(|target: Seq<char>| QueryTargetView { target, symbol: true })
}

/// The values of a list of targets.
pub open spec fn query_target_views(targets: Seq<LightQueryTarget>) -> Seq<QueryTargetView> {
    targets.map_values(|target: LightQueryTarget| target@)
}

/// The targets that are queried, in order: the first of them, as many as cannot exceed
/// the record bound.
pub fn light_query_targets(paths: &Vec<String>, symbols: &Vec<String>) -> (r: Vec<
    LightQueryTarget,
>)
    ensures
        ({
            let all = all_query_targets(text::texts(paths@), text::texts(symbols@));
            query_target_views(r@) == (if all.len() <= MAX_LIGHT_QUERY_TARGETS {
                all
            } else {
                all.take(MAX_LIGHT_QUERY_TARGETS as int)
            })
        }),
{
    let ghost all = all_query_targets(text::texts(paths@), text::texts(symbols@));
    let mut out: Vec<LightQueryTarget> = Vec::new();
    let mut i: usize = 0;
    while i < paths.len() && i < MAX_LIGHT_QUERY_TARGETS
        invariant
            i <= paths@.len(),
            i <= MAX_LIGHT_QUERY_TARGETS,
            all == all_query_targets(text::texts(paths@), text::texts(symbols@)),
            query_target_views(out@) == all.take(i as int),
        decreases paths@.len() - i,
    {
        let next = LightQueryTarget { target: paths[i].clone(), symbol: false };
        let ghost so_far = out@;
        out.push(next);
        proof {
            assert(all[i as int] == next@);
            assert(query_target_views(out@) =~= query_target_views(so_far).push(next@));
            assert(all.take(i + 1) =~= all.take(i as int).push(all[i as int]));
        }
        i = i + 1;
    }
    let ghost first: int = i as int;
    let mut j: usize = 0;
    while j < symbols.len() && out.len() < MAX_LIGHT_QUERY_TARGETS
        invariant
            j <= symbols@.len(),
            first <= paths@.len(),
            first == paths@.len() || first == MAX_LIGHT_QUERY_TARGETS,
            first < paths@.len() ==> j == 0,
            out@.len() == first + j,
            out@.len() <= MAX_LIGHT_QUERY_TARGETS,
            all == all_query_targets(text::texts(paths@), text::texts(symbols@)),
            query_target_views(out@) == all.take(first + j),
        decreases symbols@.len() - j,
    {
        let next = LightQueryTarget { target: symbols[j].clone(), symbol: true };
        let ghost so_far = out@;
        out.push(next);
        proof {
            assert(first == paths@.len());
            assert(all[first + j] == next@);
            assert(query_target_views(out@) =~= query_target_views(so_far).push(next@));
            assert(all.take(first + j + 1) =~= all.take(first + j).push(all[first + j]));
        }
        j = j + 1;
    }
    proof {
        assert(all.len() == paths@.len() + symbols@.len());
        if all.len() <= MAX_LIGHT_QUERY_TARGETS {
            assert(all.take(all.len() as int) =~= all);
        }
    }
    out
}

/// What the LIGHT route looks up.
#[derive(Debug, Clone, Copy, PartialEq, Eq, Structural)]
pub struct LightPlan {
    pub aspects: LightAspects,
    pub query: bool,
    pub sources: bool,
}

/// The plan for a request: a query wherever identity, relationships, impact or
/// coverage is needed, or nothing is, and there is a target; source references
/// wherever exact source is needed and there is a path.
pub open spec fn light_plan_of(
    requested: CapabilityMap,
    path_targets: int,
    symbol_targets: int,
) -> LightPlan {
    let relationships = needs_atlas(requested, RequiredCapability::BoundedRelationships);
    let impact = needs_atlas(requested, RequiredCapability::ImpactFrontier);
    let coverage = needs_atlas(requested, RequiredCapability::BasicCoverageConflicts);
    let wanted = needs_atlas(requested, RequiredCapability::IdentityLookup) || relationships
        || impact || coverage || requested.all_satisfied();
    LightPlan {
        aspects: LightAspects { relationships, impact, coverage },
        query: wanted && path_targets + symbol_targets > 0,
        sources: needs_atlas(requested, RequiredCapability::ExactSource) && path_targets > 0,
    }
}

/// The plan for a request.
pub fn light_plan(requested: &CapabilityMap, path_targets: usize, symbol_targets: usize) -> (r:
    LightPlan)
    ensures
        r == light_plan_of(*requested, path_targets as int, symbol_targets as int),
{
    let relationships = is_needed(requested, RequiredCapability::BoundedRelationships);
    let impact = is_needed(requested, RequiredCapability::ImpactFrontier);
    let coverage = is_needed(requested, RequiredCapability::BasicCoverageConflicts);
    let wanted = is_needed(requested, RequiredCapability::IdentityLookup) || relationships
        || impact || coverage || requested.is_all_satisfied();
    LightPlan {
        aspects: LightAspects { relationships, impact, coverage },
        query: wanted && (path_targets > 0 || symbol_targets > 0),
        sources: is_needed(requested, RequiredCapability::ExactSource) && path_targets > 0,
    }
}

/// Whether the source of a path is read.
#[derive(Debug, Clone, Copy, PartialEq, Eq, Structural)]
pub enum SourceDecision {
    Verify,
    OverBudget,
    NotFound,
}

/// The source is read where its size is known and still fits the byte budget.
pub open spec fn source_decision(
    scheduled: int,
    byte_size: Option<i64>,
    max_source_bytes: int,
) -> SourceDecision {
    match byte_size {
        Some(size) => if size < 0 {
            SourceDecision::NotFound
        } else if scheduled + size <= max_source_bytes {
            SourceDecision::Verify
        } else {
            SourceDecision::OverBudget
        },
        None => SourceDecision::NotFound,
    }
}

/// Decides whether the source of the next path is read, and counts its bytes.
pub fn schedule_source(scheduled: &mut i64, byte_size: Option<i64>, max_source_bytes: i64) -> (r:
    SourceDecision)
    requires
        *old(scheduled) >= 0,
    ensures
        r == source_decision(*old(scheduled) as int, byte_size, max_source_bytes as int),
        *final(scheduled) == (if r == SourceDecision::Verify {
            *old(scheduled) + byte_size->0
        } else {
            *old(scheduled) as int
        }),
        *final(scheduled) >= 0,
{
    match byte_size {
        Some(size) => {
            if size < 0 {
                return SourceDecision::NotFound;
            }
            match (*scheduled).checked_add(size) {
                Some(total) => if total <= max_source_bytes {
                    *scheduled = total;
                    SourceDecision::Verify
                } else {
                    SourceDecision::OverBudget
                },
                None => SourceDecision::OverBudget,
            }
        },
        None => SourceDecision::NotFound,
    }
}

/// The reference of a path that is not read.
pub fn unread_source(path: &str, decision: SourceDecision) -> (r: CatalogueLightSourceReference)
    ensures
        r.canonical_path@ == path@,
        r.indexed_hash is None,
        r.observed_hash is None,
        r.status@ == (if decision == SourceDecision::NotFound {
            "not_found"@
        } else {
            "read_failed"@
        }),
{
    let status = if decision == SourceDecision::NotFound {
        "not_found"
    } else {
        "read_failed"
    };
    CatalogueLightSourceReference {
        canonical_path: path.to_string(),
        indexed_hash: None,
        observed_hash: None,
        status: status.to_string(),
    }
}

// ---------------------------------------------------------------------------
// What was delivered
// ---------------------------------------------------------------------------

/// The reference proves that the file is as it was indexed.
pub open spec fn reference_verified(reference: CatalogueLightSourceReference) -> bool {
    reference.status@ == "verified"@ && reference.indexed_hash is Some && text::opt_text(
        reference.indexed_hash,
    ) == text::opt_text(reference.observed_hash)
}

/// Some reference has a status.
pub open spec fn any_status(
    references: Seq<CatalogueLightSourceReference>,
    status: Seq<char>,
) -> bool {
    exists|i: int| 0 <= i < references.len() && (#[trigger] references[i]).status@ == status
}

/// Some reference has a status other than verified, missing or changed.
pub open spec fn any_unavailable(references: Seq<CatalogueLightSourceReference>) -> bool {
    exists|i: int|
        0 <= i < references.len() && (#[trigger] references[i]).status@ != "verified"@
            && references[i].status@ != "not_found"@ && references[i].status@ != "hash_mismatch"@
}

/// What the source references come to.
#[derive(Debug, Clone, Copy, PartialEq, Eq, Structural)]
pub struct SourceSummary {
    pub all_verified: bool,
    pub any_missing: bool,
    pub any_stale: bool,
    pub any_unavailable: bool,
}

/// What a list of source references comes to for a number of paths.
pub open spec fn source_summary(
    references: Seq<CatalogueLightSourceReference>,
    path_targets: int,
) -> SourceSummary {
    SourceSummary {
        all_verified: path_targets > 0 && references.len() == path_targets && forall|i: int|
            0 <= i < references.len() ==> reference_verified(#[trigger] references[i]),
        any_missing: any_status(references, "not_found"@),
        any_stale: any_status(references, "hash_mismatch"@),
        any_unavailable: any_unavailable(references),
    }
}

fn summarize_sources(
    references: &Vec<CatalogueLightSourceReference>,
    path_targets: usize,
) -> (r: SourceSummary)
    ensures
        r == source_summary(references@, path_targets as int),
{
    let mut verified = true;
    let mut any_missing = false;
    let mut any_stale = false;
    let mut unavailable = false;
    for i in 0..references.len()
        invariant
            verified == forall|j: int|
                0 <= j < i ==> reference_verified(#[trigger] references@[j]),
            any_missing == exists|j: int|
                0 <= j < i && (#[trigger] references@[j]).status@ == "not_found"@,
            any_stale == exists|j: int|
                0 <= j < i && (#[trigger] references@[j]).status@ == "hash_mismatch"@,
            unavailable == exists|j: int|
                0 <= j < i && (#[trigger] references@[j]).status@ != "verified"@
                    && references@[j].status@ != "not_found"@ && references@[j].status@
                    != "hash_mismatch"@,
    {
        let reference = &references[i];
        let status = reference.status.as_str();
        let is_verified = text_eq(status, "verified");
        let is_missing = text_eq(status, "not_found");
        let is_stale = text_eq(status, "hash_mismatch");
        assert(references@[i as int].status@ == status@);
        if !(is_verified && reference.indexed_hash.is_some() && opt_text_eq(
            &reference.indexed_hash,
            &reference.observed_hash,
        )) {
            assert(!reference_verified(references@[i as int]));
            verified = false;
        }
        if is_missing {
            any_missing = true;
        }
        if is_stale {
            any_stale = true;
        }
        if !is_verified && !is_missing && !is_stale {
            unavailable = true;
        }
    }
    SourceSummary {
        all_verified: path_targets > 0 && references.len() == path_targets && verified,
        any_missing,
        any_stale,
        any_unavailable: unavailable,
    }
}

/// What the query projections come to.
#[derive(Debug, Clone, Copy, PartialEq, Eq, Structural)]
pub struct QuerySummary {
    pub identity: Option<CapabilityDeficitReason>,
    pub omitted: bool,
    pub relationship_omitted: bool,
    pub relationship_conflicting: bool,
    pub relationship_evidence: bool,
    pub impact_omitted: bool,
    pub impact_conflicting: bool,
    pub impact_evidence: bool,
    pub coverage_omitted: bool,
    pub coverage_conflicting: bool,
    pub coverage_evidence: bool,
}

/// Some projection has a property.
pub open spec fn some_projection(
    projections: Seq<LightQueryProjection>,
    property: spec_fn(LightQueryProjection) -> bool,
) -> bool {
    exists|i: int| 0 <= i < projections.len() && property(#[trigger] projections[i])
}

/// Every projection has a property.
pub open spec fn every_projection(
    projections: Seq<LightQueryProjection>,
    property: spec_fn(LightQueryProjection) -> bool,
) -> bool {
    forall|i: int| 0 <= i < projections.len() ==> property(#[trigger] projections[i])
}

/// What a list of projections comes to. Identity is unsupported where a target has
/// no match or there is no target, and ambiguous where one has several.
pub open spec fn query_summary(
    projections: Seq<LightQueryProjection>,
    omitted: bool,
) -> QuerySummary {
    QuerySummary {
        identity: if projections.len() == 0 || some_projection(
            projections,
            |p: LightQueryProjection| p.result.identity_matches@.len() == 0,
        ) {
            Some(CapabilityDeficitReason::Unsupported)
        } else if some_projection(
            projections,
            |p: LightQueryProjection| p.result.identity_matches@.len() > 1,
        ) {
            Some(CapabilityDeficitReason::Ambiguous)
        } else {
            None
        },
        omitted,
        relationship_omitted: some_projection(
            projections,
            |p: LightQueryProjection| p.relationship_omitted,
        ),
        relationship_conflicting: some_projection(
            projections,
            |p: LightQueryProjection| p.relationship_conflicting,
        ),
        relationship_evidence: every_projection(
            projections,
            |p: LightQueryProjection| p.relationship_evidence,
        ),
        impact_omitted: some_projection(
            projections,
            |p: LightQueryProjection| p.impact_omitted,
        ),
        impact_conflicting: some_projection(
            projections,
            |p: LightQueryProjection| p.relationship_conflicting || p.impact_conflicting,
        ),
        impact_evidence: every_projection(
            projections,
            |p: LightQueryProjection| p.impact_evidence,
        ),
        coverage_omitted: some_projection(
            projections,
            |p: LightQueryProjection| p.coverage_omitted,
        ),
        coverage_conflicting: some_projection(
            projections,
            |p: LightQueryProjection|
                p.coverage_conflicting || (p.coverage_complete && p.coverage_limited),
        ),
        coverage_evidence: every_projection(
            projections,
            |p: LightQueryProjection| p.coverage_complete && !p.coverage_limited,
        ),
    }
}

proof fn lemma_some_push(
    projections: Seq<LightQueryProjection>,
    n: int,
    property: spec_fn(LightQueryProjection) -> bool,
)
    requires
        0 <= n < projections.len(),
    ensures
        some_projection(projections.take(n + 1), property) == (some_projection(
            projections.take(n),
            property,
        ) || property(projections[n])),
        every_projection(projections.take(n + 1), property) == (every_projection(
            projections.take(n),
            property,
        ) && property(projections[n])),
{
    let a = projections.take(n);
    let b = projections.take(n + 1);
    assert(b =~= a.push(projections[n]));
    assert(b[n] == projections[n]);
    if some_projection(a, property) {
        let i = choose|i: int| 0 <= i < a.len() && property(#[trigger] a[i]);
        assert(b[i] == a[i]);
    }
    if some_projection(b, property) {
        let i = choose|i: int| 0 <= i < b.len() && property(#[trigger] b[i]);
        if i < n {
            assert(a[i] == b[i]);
        }
    }
    if every_projection(b, property) {
        assert forall|i: int| 0 <= i < a.len() implies property(#[trigger] a[i]) by {
            assert(b[i] == a[i]);
        }
    }
    if every_projection(a, property) && property(projections[n]) {
        assert forall|i: int| 0 <= i < b.len() implies property(#[trigger] b[i]) by {
            if i < n {
                assert(a[i] == b[i]);
            }
        }
    }
}

#[verifier::spinoff_prover]
#[verifier::rlimit(60)]
fn summarize_query(projections: &Vec<LightQueryProjection>, omitted: bool) -> (r: QuerySummary)
    ensures
        r == query_summary(projections@, omitted),
{
    let ghost all = projections@;
    let ghost f_none = |p: LightQueryProjection| p.result.identity_matches@.len() == 0;
    let ghost f_many = |p: LightQueryProjection| p.result.identity_matches@.len() > 1;
    let ghost f_ro = |p: LightQueryProjection| p.relationship_omitted;
    let ghost f_rc = |p: LightQueryProjection| p.relationship_conflicting;
    let ghost f_re = |p: LightQueryProjection| p.relationship_evidence;
    let ghost f_io = |p: LightQueryProjection| p.impact_omitted;
    let ghost f_ic = |p: LightQueryProjection| p.relationship_conflicting || p.impact_conflicting;
    let ghost f_ie = |p: LightQueryProjection| p.impact_evidence;
    let ghost f_co = |p: LightQueryProjection| p.coverage_omitted;
    let ghost f_cc = |p: LightQueryProjection|
        p.coverage_conflicting || (p.coverage_complete && p.coverage_limited);
    let ghost f_ce = |p: LightQueryProjection| p.coverage_complete && !p.coverage_limited;
    let mut none = false;
    let mut many = false;
    let mut ro = false;
    let mut rc = false;
    let mut re = true;
    let mut io = false;
    let mut ic = false;
    let mut ie = true;
    let mut co = false;
    let mut cc = false;
    let mut ce = true;
    for i in 0..projections.len()
        invariant
            all == projections@,
            f_none == (|p: LightQueryProjection| p.result.identity_matches@.len() == 0),
            f_many == (|p: LightQueryProjection| p.result.identity_matches@.len() > 1),
            f_ro == (|p: LightQueryProjection| p.relationship_omitted),
            f_rc == (|p: LightQueryProjection| p.relationship_conflicting),
            f_re == (|p: LightQueryProjection| p.relationship_evidence),
            f_io == (|p: LightQueryProjection| p.impact_omitted),
            f_ic == (|p: LightQueryProjection| p.relationship_conflicting || p.impact_conflicting),
            f_ie == (|p: LightQueryProjection| p.impact_evidence),
            f_co == (|p: LightQueryProjection| p.coverage_omitted),
            f_cc == (|p: LightQueryProjection|
                p.coverage_conflicting || (p.coverage_complete && p.coverage_limited)),
            f_ce == (|p: LightQueryProjection| p.coverage_complete && !p.coverage_limited),
            none == some_projection(all.take(i as int), f_none),
            many == some_projection(all.take(i as int), f_many),
            ro == some_projection(all.take(i as int), f_ro),
            rc == some_projection(all.take(i as int), f_rc),
            re == every_projection(all.take(i as int), f_re),
            io == some_projection(all.take(i as int), f_io),
            ic == some_projection(all.take(i as int), f_ic),
            ie == every_projection(all.take(i as int), f_ie),
            co == some_projection(all.take(i as int), f_co),
            cc == some_projection(all.take(i as int), f_cc),
            ce == every_projection(all.take(i as int), f_ce),
    {
        let p = &projections[i];
        proof {
            lemma_some_push(all, i as int, f_none);
            lemma_some_push(all, i as int, f_many);
            lemma_some_push(all, i as int, f_ro);
            lemma_some_push(all, i as int, f_rc);
            lemma_some_push(all, i as int, f_re);
            lemma_some_push(all, i as int, f_io);
            lemma_some_push(all, i as int, f_ic);
            lemma_some_push(all, i as int, f_ie);
            lemma_some_push(all, i as int, f_co);
            lemma_some_push(all, i as int, f_cc);
            lemma_some_push(all, i as int, f_ce);
        }
        none = none || p.result.identity_matches.len() == 0;
        many = many || p.result.identity_matches.len() > 1;
        ro = ro || p.relationship_omitted;
        rc = rc || p.relationship_conflicting;
        re = re && p.relationship_evidence;
        io = io || p.impact_omitted;
        ic = ic || p.relationship_conflicting || p.impact_conflicting;
        ie = ie && p.impact_evidence;
        co = co || p.coverage_omitted;
        cc = cc || p.coverage_conflicting || (p.coverage_complete && p.coverage_limited);
        ce = ce && p.coverage_complete && !p.coverage_limited;
    }
    assert(all.take(projections@.len() as int) =~= all);
    QuerySummary {
        identity: if projections.len() == 0 || none {
            Some(CapabilityDeficitReason::Unsupported)
        } else if many {
            Some(CapabilityDeficitReason::Ambiguous)
        } else {
            None
        },
        omitted,
        relationship_omitted: ro,
        relationship_conflicting: rc,
        relationship_evidence: re,
        impact_omitted: io,
        impact_conflicting: ic,
        impact_evidence: ie,
        coverage_omitted: co,
        coverage_conflicting: cc,
        coverage_evidence: ce,
    }
}

/// What the LIGHT route has of each capability.
#[derive(Debug, Clone, Copy, PartialEq, Eq, Structural)]
pub struct LightFindings {
    pub query: QuerySummary,
    pub sources: SourceSummary,
}

/// The reason of an aspect: what was left out first, then the identity, then what is
/// in conflict, then the lack of evidence.
pub open spec fn aspect_verdict(
    omitted: bool,
    identity: Option<CapabilityDeficitReason>,
    conflicting: bool,
    evidence: bool,
) -> Option<CapabilityDeficitReason> {
    if omitted {
        Some(CapabilityDeficitReason::SemanticBudgetOmitted)
    } else if identity is Some {
        identity
    } else if conflicting {
        Some(CapabilityDeficitReason::Conflicting)
    } else if evidence {
        None
    } else {
        Some(CapabilityDeficitReason::Unavailable)
    }
}

fn judge_aspect(
    omitted: bool,
    identity: Option<CapabilityDeficitReason>,
    conflicting: bool,
    evidence: bool,
) -> (r: Option<CapabilityDeficitReason>)
    ensures
        r == aspect_verdict(omitted, identity, conflicting, evidence),
{
    if omitted {
        Some(CapabilityDeficitReason::SemanticBudgetOmitted)
    } else if identity.is_some() {
        identity
    } else if conflicting {
        Some(CapabilityDeficitReason::Conflicting)
    } else if evidence {
        None
    } else {
        Some(CapabilityDeficitReason::Unavailable)
    }
}

impl CapabilityJudge for LightFindings {
    open spec fn verdict(&self, capability: RequiredCapability) -> Option<
        CapabilityDeficitReason,
    > {
        let q = self.query;
        let s = self.sources;
        match capability {
            RequiredCapability::IdentityLookup => if q.omitted {
                Some(CapabilityDeficitReason::SemanticBudgetOmitted)
            } else {
                q.identity
            },
            RequiredCapability::BoundedRelationships => aspect_verdict(
                q.omitted || q.relationship_omitted,
                q.identity,
                q.relationship_conflicting,
                q.relationship_evidence,
            ),
            RequiredCapability::ImpactFrontier => aspect_verdict(
                q.omitted || q.impact_omitted,
                q.identity,
                q.impact_conflicting,
                q.impact_evidence,
            ),
            RequiredCapability::BasicCoverageConflicts => aspect_verdict(
                q.omitted || q.coverage_omitted,
                q.identity,
                q.coverage_conflicting,
                q.coverage_evidence,
            ),
            RequiredCapability::ExactSource => if s.all_verified && !s.any_missing && !s.any_stale
                && !s.any_unavailable {
                None
            } else if s.any_missing {
                Some(CapabilityDeficitReason::Unsupported)
            } else if s.any_stale {
                Some(CapabilityDeficitReason::Stale)
            } else if s.any_unavailable {
                Some(CapabilityDeficitReason::Unavailable)
            } else {
                Some(CapabilityDeficitReason::Unsupported)
            },
            RequiredCapability::TemporalHistory => Some(CapabilityDeficitReason::Unavailable),
            RequiredCapability::RequiredRoleClosure => Some(CapabilityDeficitReason::Unavailable),
            RequiredCapability::ValidationPlan => Some(CapabilityDeficitReason::Unavailable),
        }
    }

    fn judge(&self, capability: RequiredCapability) -> (r: Option<CapabilityDeficitReason>) {
        let q = self.query;
        let s = self.sources;
        match capability {
            RequiredCapability::IdentityLookup => if q.omitted {
                Some(CapabilityDeficitReason::SemanticBudgetOmitted)
            } else {
                q.identity
            },
            RequiredCapability::BoundedRelationships => judge_aspect(
                q.omitted || q.relationship_omitted,
                q.identity,
                q.relationship_conflicting,
                q.relationship_evidence,
            ),
            RequiredCapability::ImpactFrontier => judge_aspect(
                q.omitted || q.impact_omitted,
                q.identity,
                q.impact_conflicting,
                q.impact_evidence,
            ),
            RequiredCapability::BasicCoverageConflicts => judge_aspect(
                q.omitted || q.coverage_omitted,
                q.identity,
                q.coverage_conflicting,
                q.coverage_evidence,
            ),
            RequiredCapability::ExactSource => if s.all_verified && !s.any_missing && !s.any_stale
                && !s.any_unavailable {
                None
            } else if s.any_missing {
                Some(CapabilityDeficitReason::Unsupported)
            } else if s.any_stale {
                Some(CapabilityDeficitReason::Stale)
            } else if s.any_unavailable {
                Some(CapabilityDeficitReason::Unavailable)
            } else {
                Some(CapabilityDeficitReason::Unsupported)
            },
            RequiredCapability::TemporalHistory => Some(CapabilityDeficitReason::Unavailable),
            RequiredCapability::RequiredRoleClosure => Some(CapabilityDeficitReason::Unavailable),
            RequiredCapability::ValidationPlan => Some(CapabilityDeficitReason::Unavailable),
        }
    }
}

/// The records of a list of projections.
pub open spec fn total_records(projections: Seq<LightQueryProjection>) -> int
    decreases projections.len(),
{
    if projections.len() == 0 {
        0
    } else {
        total_records(projections.drop_last()) + projections.last().records()
    }
}

proof fn lemma_records_grow(projections: Seq<LightQueryProjection>, from: int, to: int)
    requires
        0 <= from <= to <= projections.len(),
    ensures
        0 <= total_records(projections.take(from)) <= total_records(projections.take(to)),
    decreases to,
{
    if to > 0 {
        assert(projections.take(to).drop_last() =~= projections.take(to - 1));
        if from < to {
            lemma_records_grow(projections, from, to - 1);
        } else {
            lemma_records_grow(projections, from - 1, to - 1);
            assert(projections.take(from).drop_last() =~= projections.take(from - 1));
        }
    }
}

fn add_count(total: Option<usize>, more: usize) -> (r: Option<usize>)
    ensures
        r == (match total {
            Some(n) => if n + more > usize::MAX {
                None
            } else {
                Some((n + more) as usize)
            },
            None => None,
        }),
{
    match total {
        Some(n) => n.checked_add(more),
        None => None,
    }
}

fn rows_of<T>(rows: &Option<Vec<T>>) -> (r: usize)
    ensures
        r == opt_len(*rows),
{
    match rows {
        Some(list) => list.len(),
        None => 0,
    }
}

fn count_records(projections: &Vec<LightQueryProjection>) -> (r: Option<usize>)
    ensures
        match r {
            Some(n) => n == total_records(projections@),
            None => total_records(projections@) > usize::MAX,
        },
{
    let mut total: usize = 0;
    for i in 0..projections.len()
        invariant
            total == total_records(projections@.take(i as int)),
    {
        let result = &projections[i].result;
        proof {
            assert(projections@.take(i + 1).drop_last() =~= projections@.take(i as int));
            assert(projections@.take(i + 1).last() == projections@[i as int]);
            lemma_records_grow(projections@, i + 1, projections@.len() as int);
            assert(projections@.take(projections@.len() as int) =~= projections@);
        }
        let mut sum: Option<usize> = Some(total);
        sum = add_count(sum, result.identity_matches.len());
        sum = add_count(sum, rows_of(&result.relationships));
        sum = add_count(sum, rows_of(&result.impact_targets));
        sum = add_count(sum, rows_of(&result.coverage));
        sum = add_count(sum, rows_of(&result.conflicts));
        match sum {
            Some(n) => {
                total = n;
            },
            None => {
                return None;
            },
        }
    }
    assert(projections@.take(projections@.len() as int) =~= projections@);
    Some(total)
}

/// The version under which an operation was pinned, from `from` on.
pub open spec fn pinned_version(
    operations: Seq<OperationView>,
    operation: LightOperation,
    from: int,
) -> Option<Seq<char>>
    decreases operations.len() - from,
{
    if from < 0 || from >= operations.len() {
        None
    } else if operations[from].operation == operation {
        Some(operations[from].version)
    } else {
        pinned_version(operations, operation, from + 1)
    }
}

fn find_version(operations: &Vec<VersionedOperation>, operation: LightOperation) -> (r: Option<
    String,
>)
    ensures
        text::opt_text(r) == pinned_version(
            context_route::operation_views(operations@),
            operation,
            0,
        ),
{
    let ghost all = context_route::operation_views(operations@);
    for i in 0..operations.len()
        invariant
            all == context_route::operation_views(operations@),
            pinned_version(all, operation, 0) == pinned_version(all, operation, i as int),
    {
        assert(all[i as int] == operations@[i as int]@);
        if operations[i].operation == operation {
            return Some(operations[i].version.clone());
        }
    }
    None
}

/// Everything that the LIGHT route looked up.
#[derive(Debug)]
pub struct LightLookups {
    pub projections: Vec<LightQueryProjection>,
    pub references: Vec<CatalogueLightSourceReference>,
}

/// The part of the lookups that the plan asks for.
pub ghost struct LightEvidence {
    pub plan: LightPlan,
    pub projections: Seq<LightQueryProjection>,
    pub references: Seq<CatalogueLightSourceReference>,
    pub query_version: Option<Seq<char>>,
    pub source_version: Option<Seq<char>>,
    pub path_targets: int,
    pub symbol_targets: int,
}

/// What counts of the lookups for a request.
pub open spec fn light_evidence(
    requested: CapabilityMap,
    operations: Seq<OperationView>,
    path_targets: int,
    symbol_targets: int,
    lookups: LightLookups,
) -> LightEvidence {
    let plan = light_plan_of(requested, path_targets, symbol_targets);
    LightEvidence {
        plan,
        projections: if plan.query {
            lookups.projections@
        } else {
            Seq::empty()
        },
        references: if plan.sources {
            lookups.references@
        } else {
            Seq::empty()
        },
        query_version: pinned_version(operations, LightOperation::Query, 0),
        source_version: pinned_version(operations, LightOperation::SourceReference, 0),
        path_targets,
        symbol_targets,
    }
}

impl LightEvidence {
    /// What the evidence proves.
    pub open spec fn findings(self) -> LightFindings {
        LightFindings {
            query: query_summary(
                self.projections,
                self.plan.query && self.projections.len() < self.path_targets
                    + self.symbol_targets,
            ),
            sources: source_summary(self.references, self.path_targets),
        }
    }

    /// The work that the evidence took.
    pub open spec fn work(self) -> int {
        (if self.plan.query {
            self.projections.len() as int
        } else {
            0
        }) + (if self.plan.sources {
            self.path_targets
        } else {
            0
        })
    }

    /// The records of the evidence.
    pub open spec fn records(self) -> int {
        total_records(self.projections) + self.references.len()
    }

    /// What keeps the evidence from being counted, if anything does.
    pub open spec fn fault(self) -> Option<Seq<char>> {
        if self.path_targets + self.symbol_targets > usize::MAX {
            Some("LIGHT target count overflow"@)
        } else if self.plan.query && self.query_version is None {
            Some("missing pinned LIGHT query"@)
        } else if self.plan.query && total_records(self.projections) > usize::MAX {
            Some("LIGHT query count overflow"@)
        } else if self.plan.sources && self.source_version is None {
            Some("missing pinned LIGHT source reference"@)
        } else if self.plan.sources && self.work() > u64::MAX {
            Some("LIGHT work count overflow"@)
        } else if self.plan.sources && self.records() > u64::MAX {
            Some("LIGHT record count overflow"@)
        } else {
            None
        }
    }

    /// The results that the route hands on, in order.
    pub open spec fn results(self) -> Seq<LightResultView> {
        let query = if self.plan.query {
            seq![
                LightResultView {
                    operation: LightOperation::Query,
                    operation_version: self.query_version->0,
                    result_digest: light_outcome_json::query_digest(
                        light_outcome_json::projected_results(self.projections),
                    ),
                    count: total_records(self.projections) as u64,
                },
            ]
        } else {
            Seq::empty()
        };
        if self.plan.sources {
            query.push(
                LightResultView {
                    operation: LightOperation::SourceReference,
                    operation_version: self.source_version->0,
                    result_digest: light_outcome_json::source_digest(self.references),
                    count: self.references.len() as u64,
                },
            )
        } else {
            query
        }
    }

    /// The work as the execution accounts for it.
    pub open spec fn counters(self) -> ContextExecutionCounters {
        ContextExecutionCounters {
            atlas_calls: ((if self.plan.query {
                1int
            } else {
                0
            }) + (if self.plan.sources {
                1int
            } else {
                0
            })) as u64,
            records: self.records() as u64,
            source_bytes: 0,
            estimated_tokens: 0,
            work_units: self.work() as u64,
        }
    }
}

/// The payload of a list of results; none where there are no results.
pub open spec fn light_payload(results: Seq<LightResultView>) -> Option<PayloadView> {
    if results.len() == 0 {
        None
    } else {
        Some(PayloadView::LightBundle { operations: results })
    }
}

/// What a LIGHT attempt that is not refused delivers.
pub open spec fn light_route_view(
    requested: CapabilityMap,
    operations: Seq<OperationView>,
    path_targets: int,
    symbol_targets: int,
    lookups: LightLookups,
) -> OutcomeView {
    let e = light_evidence(requested, operations, path_targets, symbol_targets, lookups);
    let deficits = deep_outcome::unmet(requested.listed(), &e.findings());
    if deficits.len() == 0 {
        OutcomeView::Completed {
            payload: light_payload(e.results())->0,
            counters: e.counters(),
            diagnostics: Seq::empty(),
            materialization: None,
        }
    } else {
        OutcomeView::Deficient {
            payload: light_payload(e.results()),
            satisfied: deep_outcome::met(requested.listed(), &e.findings()),
            deficits,
            counters: e.counters(),
            diagnostics: Seq::empty(),
            materialization: None,
        }
    }
}

/// What a LIGHT attempt delivers of the requested capabilities: all of them, or part
/// of them with the deficits of the rest. An attempt that lacks nothing and has
/// nothing to hand on is refused.
pub fn light_route_outcome(
    requested: &CapabilityMap,
    operations: &Vec<VersionedOperation>,
    path_targets: usize,
    symbol_targets: usize,
    lookups: &LightLookups,
) -> (r: Result<RouteAttemptOutcome, AtlasError>)
    ensures
        ({
            let e = light_evidence(
                *requested,
                context_route::operation_views(operations@),
                path_targets as int,
                symbol_targets as int,
                *lookups,
            );
            let payload = light_payload(e.results());
            let deficits = deep_outcome::unmet(requested.listed(), &e.findings());
            match e.fault() {
                Some(message) => error::refused_as_invalid(r, message),
                None => if deficits.len() == 0 {
                    if payload is None {
                        error::refused_as_invalid(r, "completed LIGHT route has no payload"@)
                    } else {
                        r matches Ok(outcome) && outcome@ == (OutcomeView::Completed {
                            payload: payload->0,
                            counters: e.counters(),
                            diagnostics: Seq::empty(),
                            materialization: None,
                        })
                    }
                } else {
                    r matches Ok(outcome) && outcome@ == (OutcomeView::Deficient {
                        payload,
                        satisfied: deep_outcome::met(requested.listed(), &e.findings()),
                        deficits,
                        counters: e.counters(),
                        diagnostics: Seq::empty(),
                        materialization: None,
                    })
                },
            }
        }),
        r matches Ok(outcome) ==> outcome@ == light_route_view(
            *requested,
            context_route::operation_views(operations@),
            path_targets as int,
            symbol_targets as int,
            *lookups,
        ),
{
    let ghost e = light_evidence(
        *requested,
        context_route::operation_views(operations@),
        path_targets as int,
        symbol_targets as int,
        *lookups,
    );
    let targets: usize = match path_targets.checked_add(symbol_targets) {
        Some(sum) => sum,
        None => return Err(AtlasError::InvalidConfig("LIGHT target count overflow".to_string())),
    };
    let plan = light_plan(requested, path_targets, symbol_targets);
    let mut results: Vec<LightOperationResult> = Vec::new();
    let mut atlas_calls: u64 = 0;
    let mut records: u64 = 0;
    let mut work_units: u64 = 0;
    let query: QuerySummary;
    if plan.query {
        let version = match find_version(operations, LightOperation::Query) {
            Some(version) => version,
            None => return Err(AtlasError::InvalidConfig("missing pinned LIGHT query".to_string())),
        };
        let count: usize = match count_records(&lookups.projections) {
            Some(count) => count,
            None => return Err(AtlasError::InvalidConfig("LIGHT query count overflow".to_string())),
        };
        atlas_calls = 1;
        records = count as u64;
        work_units = lookups.projections.len() as u64;
        results.push(
            LightOperationResult::Query {
                operation_version: version,
                result_digest: digest_of_projections(&lookups.projections),
                record_count: count as u64,
            },
        );
        query = summarize_query(&lookups.projections, lookups.projections.len() < targets);
    } else {
        let empty: Vec<LightQueryProjection> = Vec::new();
        assert(empty@ =~= e.projections);
        query = summarize_query(&empty, false);
    }
    let ghost query_results = Seq::new(results@.len(), |i: int| results@[i]@);
    let sources: SourceSummary;
    if plan.sources {
        let version = match find_version(operations, LightOperation::SourceReference) {
            Some(version) => version,
            None => return Err(
                AtlasError::InvalidConfig("missing pinned LIGHT source reference".to_string()),
            ),
        };
        work_units = match work_units.checked_add(path_targets as u64) {
            Some(sum) => sum,
            None => return Err(AtlasError::InvalidConfig("LIGHT work count overflow".to_string())),
        };
        records = match records.checked_add(lookups.references.len() as u64) {
            Some(sum) => sum,
            None => return Err(
                AtlasError::InvalidConfig("LIGHT record count overflow".to_string()),
            ),
        };
        atlas_calls = atlas_calls + 1;
        results.push(
            LightOperationResult::SourceReference {
                operation_version: version,
                result_digest: digest_of_sources(&lookups.references),
                reference_count: lookups.references.len() as u64,
            },
        );
        sources = summarize_sources(&lookups.references, path_targets);
    } else {
        let empty: Vec<CatalogueLightSourceReference> = Vec::new();
        assert(empty@ =~= e.references);
        sources = summarize_sources(&empty, path_targets);
    }
    let findings = LightFindings { query, sources };
    let (satisfied, deficits) = account_for(requested, &findings);
    let counters = ContextExecutionCounters {
        atlas_calls,
        records,
        source_bytes: 0,
        estimated_tokens: 0,
        work_units,
    };
    let ghost all_results = Seq::new(results@.len(), |i: int| results@[i]@);
    proof {
        assert(total_records(Seq::<LightQueryProjection>::empty()) == 0);
        assert(findings == e.findings());
        assert(all_results =~= e.results());
        assert(counters == e.counters());
    }
    let diagnostics: Vec<ContextDiagnosticCode> = Vec::new();
    assert(diagnostics@ =~= Seq::empty());
    let payload: Option<ContextPayload> = if results.len() == 0 {
        None
    } else {
        Some(ContextPayload::LightBundle { operations: results })
    };
    proof {
        assert(context_execution::opt_payload(payload) == light_payload(all_results));
    }
    if deficits.len() == 0 {
        match payload {
            Some(payload) => Ok(
                RouteAttemptOutcome::Completed {
                    payload,
                    counters,
                    diagnostics,
                    materialization: None,
                },
            ),
            None => Err(
                AtlasError::InvalidConfig("completed LIGHT route has no payload".to_string()),
            ),
        }
    } else {
        Ok(
            RouteAttemptOutcome::Deficient {
                payload,
                satisfied_capabilities: satisfied,
                deficits,
                counters,
                diagnostics,
                materialization: None,
            },
        )
    }
}

/// A query over the targets that are asked never exceeds the records that an execution
/// may come to.
pub proof fn law_queries_keep_the_record_bound(projections: Seq<LightQueryProjection>)
    requires
        projections.len() <= MAX_LIGHT_QUERY_TARGETS,
        forall|i: int|
            0 <= i < projections.len() ==> (#[trigger] projections[i]).records()
                <= MAX_LIGHT_RECORDS_PER_TARGET,
    ensures
        total_records(projections) <= MAX_CONTEXT_EXECUTION_RECORDS,
{
    lemma_records_per_target(projections);
}

proof fn lemma_records_per_target(projections: Seq<LightQueryProjection>)
    requires
        forall|i: int|
            0 <= i < projections.len() ==> (#[trigger] projections[i]).records()
                <= MAX_LIGHT_RECORDS_PER_TARGET,
    ensures
        total_records(projections) <= projections.len() * 10,
    decreases projections.len(),
{
    if projections.len() > 0 {
        let shorter = projections.drop_last();
        assert forall|i: int| 0 <= i < shorter.len() implies (#[trigger] shorter[i]).records()
            <= MAX_LIGHT_RECORDS_PER_TARGET by {
            assert(shorter[i] == projections[i]);
        }
        lemma_records_per_target(shorter);
    }
}

} // verus!
