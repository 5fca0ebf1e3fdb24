//! Pure, bounded derivation of Context Yield working sets and fractions.
//!
//! Persistence adapters normalize typed task-session evidence into
//! [`ContextMetricEvidence`]. This module performs only deterministic set
//! algebra; observed reads and reported-use claims remain distinct inputs and
//! outputs by construction.
use vstd::prelude::*;

use crate::sorted;
use crate::sorted::{OrderedKey, OrderedSet};
use crate::text;

verus! {

/// Hard bound for raw evidence records accepted by one derivation.
pub const MAX_CONTEXT_METRIC_EVIDENCE: usize = 4096;

/// Hard semantic-counter bounds for one transient context execution.
pub const MAX_CONTEXT_EXECUTION_ATLAS_CALLS: u64 = 1_024;

pub const MAX_CONTEXT_EXECUTION_RECORDS: u64 = 100_000;

pub const MAX_CONTEXT_EXECUTION_SOURCE_BYTES: u64 = 16_777_216;

pub const MAX_CONTEXT_EXECUTION_ESTIMATED_TOKENS: u64 = 4_000_000;

pub const MAX_CONTEXT_EXECUTION_WORK_UNITS: u64 = 10_000_000;

/// Transport-neutral semantic counters. They are observations only and never
/// participate in route or Context IR identity.
#[derive(Debug, Clone, Copy, PartialEq, Eq, Structural)]
pub struct ContextExecutionCounters {
    pub atlas_calls: u64,
    pub records: u64,
    pub source_bytes: u64,
    pub estimated_tokens: u64,
    pub work_units: u64,
}

impl Default for ContextExecutionCounters {
    fn default() -> (r: Self)
        ensures
            r == zero_counters(),
    {
        ContextExecutionCounters {
            atlas_calls: 0,
            records: 0,
            source_bytes: 0,
            estimated_tokens: 0,
            work_units: 0,
        }
    }
}

/// The counters of an execution that did nothing.
pub open spec fn zero_counters() -> ContextExecutionCounters {
    ContextExecutionCounters {
        atlas_calls: 0,
        records: 0,
        source_bytes: 0,
        estimated_tokens: 0,
        work_units: 0,
    }
}

impl ContextExecutionCounters {
    /// The message for the first counter above its bound; none if all are within.
    pub open spec fn excess(self) -> Option<Seq<char>> {
        if self.atlas_calls > MAX_CONTEXT_EXECUTION_ATLAS_CALLS {
            Some("execution Atlas-call counter exceeds its bound"@)
        } else if self.records > MAX_CONTEXT_EXECUTION_RECORDS {
            Some("execution record counter exceeds its bound"@)
        } else if self.source_bytes > MAX_CONTEXT_EXECUTION_SOURCE_BYTES {
            Some("execution source-byte counter exceeds its bound"@)
        } else if self.estimated_tokens > MAX_CONTEXT_EXECUTION_ESTIMATED_TOKENS {
            Some("execution estimated-token counter exceeds its bound"@)
        } else if self.work_units > MAX_CONTEXT_EXECUTION_WORK_UNITS {
            Some("execution work-unit counter exceeds its bound"@)
        } else {
            None
        }
    }

    /// All counters are within their bounds.
    pub open spec fn within_bounds(self) -> bool {
        &&& self.atlas_calls <= MAX_CONTEXT_EXECUTION_ATLAS_CALLS
        &&& self.records <= MAX_CONTEXT_EXECUTION_RECORDS
        &&& self.source_bytes <= MAX_CONTEXT_EXECUTION_SOURCE_BYTES
        &&& self.estimated_tokens <= MAX_CONTEXT_EXECUTION_ESTIMATED_TOKENS
        &&& self.work_units <= MAX_CONTEXT_EXECUTION_WORK_UNITS
    }

    /// Checks every counter against its bound.
    pub fn validate(self) -> (r: Result<(), &'static str>)
        ensures
            r is Ok <==> self.within_bounds(),
            r is Err ==> self.excess() == Some(r->Err_0@),
    {
        if self.atlas_calls > MAX_CONTEXT_EXECUTION_ATLAS_CALLS {
            return Err("execution Atlas-call counter exceeds its bound");
        }
        if self.records > MAX_CONTEXT_EXECUTION_RECORDS {
            return Err("execution record counter exceeds its bound");
        }
        if self.source_bytes > MAX_CONTEXT_EXECUTION_SOURCE_BYTES {
            return Err("execution source-byte counter exceeds its bound");
        }
        if self.estimated_tokens > MAX_CONTEXT_EXECUTION_ESTIMATED_TOKENS {
            return Err("execution estimated-token counter exceeds its bound");
        }
        if self.work_units > MAX_CONTEXT_EXECUTION_WORK_UNITS {
            return Err("execution work-unit counter exceeds its bound");
        }
        Ok(())
    }
}

#[derive(Debug, Clone, Copy, PartialEq, Eq, PartialOrd, Ord, Structural)]
pub enum CanonicalEvidenceKind {
    File,
    Symbol,
    Config,
    Test,
    Query,
    Document,
    External,
    Relationship,
    Range,
}

impl CanonicalEvidenceKind {
    /// The position of the kind in the order of kinds.
    pub open spec fn spec_rank(self) -> u8 {
        match self {
            CanonicalEvidenceKind::File => 0,
            CanonicalEvidenceKind::Symbol => 1,
            CanonicalEvidenceKind::Config => 2,
            CanonicalEvidenceKind::Test => 3,
            CanonicalEvidenceKind::Query => 4,
            CanonicalEvidenceKind::Document => 5,
            CanonicalEvidenceKind::External => 6,
            CanonicalEvidenceKind::Relationship => 7,
            CanonicalEvidenceKind::Range => 8,
        }
    }

    fn rank(self) -> (r: u8)
        ensures
            r == self.spec_rank(),
    {
        match self {
            CanonicalEvidenceKind::File => 0,
            CanonicalEvidenceKind::Symbol => 1,
            CanonicalEvidenceKind::Config => 2,
            CanonicalEvidenceKind::Test => 3,
            CanonicalEvidenceKind::Query => 4,
            CanonicalEvidenceKind::Document => 5,
            CanonicalEvidenceKind::External => 6,
            CanonicalEvidenceKind::Relationship => 7,
            CanonicalEvidenceKind::Range => 8,
        }
    }
}

#[derive(Debug, Clone, Copy, PartialEq, Eq, PartialOrd, Ord, Structural)]
pub struct CanonicalRange {
    pub start: u64,
    pub end: u64,
}

/// The identity of one piece of evidence.
#[derive(Debug, PartialEq, Eq, PartialOrd, Ord)]
pub struct CanonicalEvidenceId {
    kind: CanonicalEvidenceKind,
    id: String,
    range: Option<CanonicalRange>,
}

/// What identifies a piece of evidence: kind, text and range.
pub struct EvidenceIdView {
    pub kind: CanonicalEvidenceKind,
    pub id: Seq<char>,
    pub range: Option<CanonicalRange>,
}

impl View for CanonicalEvidenceId {
    type V = EvidenceIdView;

    closed spec fn view(&self) -> EvidenceIdView {
        EvidenceIdView { kind: self.kind, id: self.id@, range: self.range }
    }
}

/// An absent range sorts before every present one.
pub open spec fn range_lt(a: Option<CanonicalRange>, b: Option<CanonicalRange>) -> bool {
    match (a, b) {
        (None, None) => false,
        (None, Some(_)) => true,
        (Some(_), None) => false,
        (Some(x), Some(y)) => x.start < y.start || (x.start == y.start && x.end < y.end),
    }
}

impl OrderedKey for CanonicalEvidenceId {
    /// By kind, then by text, then by range.
    open spec fn key_lt(a: EvidenceIdView, b: EvidenceIdView) -> bool {
        if a.kind != b.kind {
            a.kind.spec_rank() < b.kind.spec_rank()
        } else if a.id != b.id {
            text::text_lt(a.id, b.id)
        } else {
            range_lt(a.range, b.range)
        }
    }

    proof fn key_lt_irreflexive(a: EvidenceIdView) {
    }

    proof fn key_lt_transitive(a: EvidenceIdView, b: EvidenceIdView, c: EvidenceIdView) {
        if a.kind == b.kind && b.kind == c.kind && a.id != b.id && b.id != c.id {
            text::lemma_text_lt_transitive(a.id, b.id, c.id);
            text::lemma_text_lt_irreflexive(a.id);
        }
    }

    proof fn key_lt_total(a: EvidenceIdView, b: EvidenceIdView) {
        text::lemma_text_lt_total(a.id, b.id);
    }

    fn key_less(&self, other: &Self) -> (r: bool) {
        if self.kind != other.kind {
            return self.kind.rank() < other.kind.rank();
        }
        if !text::text_eq(self.id.as_str(), other.id.as_str()) {
            return text::text_less(self.id.as_str(), other.id.as_str());
        }
        match (self.range, other.range) {
            (None, None) => false,
            (None, Some(_)) => true,
            (Some(_), None) => false,
            (Some(x), Some(y)) => x.start < y.start || (x.start == y.start && x.end < y.end),
        }
    }

    fn key_same(&self, other: &Self) -> (r: bool) {
        self.kind == other.kind && text::text_eq(self.id.as_str(), other.id.as_str())
            && match (self.range, other.range) {
            (None, None) => true,
            (Some(x), Some(y)) => x.start == y.start && x.end == y.end,
            _ => false,
        }
    }

    fn key_copy(&self) -> (r: Self) {
        self.clone()
    }
}

impl Clone for CanonicalEvidenceId {
    fn clone(&self) -> (r: Self)
        ensures
            r@ == self@,
    {
        proof {
            use_type_invariant(self);
        }
        CanonicalEvidenceId { kind: self.kind, id: self.id.clone(), range: self.range }
    }
}

impl EvidenceIdView {
    /// The identity names something, and is of the range kind exactly where it has a
    /// range, which does not end before it starts.
    pub open spec fn wf(self) -> bool {
        &&& !text::blank(self.id)
        &&& self.kind == CanonicalEvidenceKind::Range <==> self.range is Some
        &&& self.range is Some ==> self.range->0.start <= self.range->0.end
    }
}

impl CanonicalEvidenceId {
    #[verifier::type_invariant]
    closed spec fn inv(self) -> bool {
        self@.wf()
    }

    /// The identity of an entity. A range is not an entity, and a blank text
    /// identifies nothing.
    pub fn entity(kind: CanonicalEvidenceKind, id: String) -> (r: Result<
        Self,
        ContextMetricInvalidity,
    >)
        ensures
            r is Ok <==> kind != CanonicalEvidenceKind::Range && !text::blank(id@),
            r is Ok ==> r->Ok_0@ == (EvidenceIdView { kind, id: id@, range: None }),
            r is Err ==> r->Err_0 == ContextMetricInvalidity::InvalidIdentity,
    {
        if kind == CanonicalEvidenceKind::Range {
            return Err(ContextMetricInvalidity::InvalidIdentity);
        }
        if text::is_blank(id.as_str()) {
            return Err(ContextMetricInvalidity::InvalidIdentity);
        }
        Ok(CanonicalEvidenceId { kind, id, range: None })
    }

    pub fn kind(&self) -> (r: CanonicalEvidenceKind)
        ensures
            r == self@.kind,
            self@.wf(),
    {
        proof {
            use_type_invariant(self);
        }
        self.kind
    }

    pub fn id(&self) -> (r: &str)
        ensures
            r@ == self@.id,
            self@.wf(),
    {
        proof {
            use_type_invariant(self);
        }
        self.id.as_str()
    }

    pub fn canonical_range(&self) -> (r: Option<CanonicalRange>)
        ensures
            r == self@.range,
            self@.wf(),
    {
        proof {
            use_type_invariant(self);
        }
        self.range
    }

    /// The identity of a relationship.
    pub fn relationship(id: String) -> (r: Result<Self, ContextMetricInvalidity>)
        ensures
            r is Ok <==> !text::blank(id@),
            r is Ok ==> r->Ok_0@ == (EvidenceIdView {
                kind: CanonicalEvidenceKind::Relationship,
                id: id@,
                range: None,
            }),
            r is Err ==> r->Err_0 == ContextMetricInvalidity::InvalidIdentity,
    {
        Self::entity(CanonicalEvidenceKind::Relationship, id)
    }

    /// The identity of a range of a path.
    pub fn range(path_identity: String, start: u64, end: u64) -> (r: Result<
        Self,
        ContextMetricInvalidity,
    >)
        ensures
            r is Ok <==> start <= end && !text::blank(path_identity@),
            r is Ok ==> r->Ok_0@ == (EvidenceIdView {
                kind: CanonicalEvidenceKind::Range,
                id: path_identity@,
                range: Some(CanonicalRange { start, end }),
            }),
            start > end ==> r == Err::<Self, _>(
                ContextMetricInvalidity::InvalidRange { start, end },
            ),
            start <= end && r is Err ==> r->Err_0 == ContextMetricInvalidity::InvalidIdentity,
    {
        if start > end {
            return Err(ContextMetricInvalidity::InvalidRange { start, end });
        }
        if text::is_blank(path_identity.as_str()) {
            return Err(ContextMetricInvalidity::InvalidIdentity);
        }
        Ok(
            CanonicalEvidenceId {
                kind: CanonicalEvidenceKind::Range,
                id: path_identity,
                range: Some(CanonicalRange { start, end }),
            },
        )
    }
}

#[derive(Debug, Clone, PartialEq, Eq)]
pub struct SuppliedEvidence {
    pub identity: CanonicalEvidenceId,
    pub exact_source_bytes: u64,
}

impl SuppliedEvidence {
    pub fn new(identity: CanonicalEvidenceId, exact_source_bytes: u64) -> (r: Self)
        ensures
            r.identity == identity,
            r.exact_source_bytes == exact_source_bytes,
    {
        SuppliedEvidence { identity, exact_source_bytes }
    }
}

#[derive(Debug, Clone, PartialEq, Eq)]
pub struct ObservedEvidence {
    pub identity: CanonicalEvidenceId,
}

impl ObservedEvidence {
    pub fn new(identity: CanonicalEvidenceId) -> (r: Self)
        ensures
            r.identity == identity,
    {
        ObservedEvidence { identity }
    }
}

#[derive(Debug, Clone, PartialEq, Eq)]
pub struct ContextMetricEvidence {
    pub supplied: Vec<SuppliedEvidence>,
    pub reads: Vec<ObservedEvidence>,
    pub reported: Vec<CanonicalEvidenceId>,
    pub changed: Vec<CanonicalEvidenceId>,
}

impl Default for ContextMetricEvidence {
    fn default() -> (r: Self)
        ensures
            r.supplied@.len() == 0,
            r.reads@.len() == 0,
            r.reported@.len() == 0,
            r.changed@.len() == 0,
    {
        ContextMetricEvidence {
            supplied: Vec::new(),
            reads: Vec::new(),
            reported: Vec::new(),
            changed: Vec::new(),
        }
    }
}

#[derive(Debug, Clone, Copy, PartialEq, Eq, Structural)]
pub enum MetricUnit {
    Items,
    Requests,
    Bytes,
}

#[derive(Debug, Clone, Copy, PartialEq, Eq, Structural)]
pub enum EvidenceClass {
    AtlasObserved,
    ReportedUse,
    ObservedAndReported,
}

#[derive(Debug, Clone, PartialEq, Eq)]
pub enum ContextMetricInvalidity {
    ZeroDenominator,
    InvalidIdentity,
    InvalidRange { start: u64, end: u64 },
    InvalidSourceBytes { identity: CanonicalEvidenceId },
    MissingEvidenceIdentity { event_id: String },
    UnsupportedEntityKind { event_id: String, entity_kind: String },
    ConflictingSuppliedBytes { identity: CanonicalEvidenceId },
    CapacityExceeded { limit: usize, actual: usize },
    ArithmeticOverflow,
}

#[derive(Debug, Clone, PartialEq, Eq)]
pub struct MetricFraction {
    pub numerator: u64,
    pub denominator: u64,
    pub unit: MetricUnit,
    pub evidence_class: EvidenceClass,
    pub invalidity: Option<ContextMetricInvalidity>,
}

/// A fraction is marked invalid exactly when its denominator is zero.
pub open spec fn fraction(
    numerator: u64,
    denominator: u64,
    unit: MetricUnit,
    evidence_class: EvidenceClass,
) -> MetricFraction {
    MetricFraction {
        numerator,
        denominator,
        unit,
        evidence_class,
        invalidity: if denominator == 0 {
            Some(ContextMetricInvalidity::ZeroDenominator)
        } else {
            None
        },
    }
}

fn metric(numerator: u64, denominator: u64, unit: MetricUnit, evidence_class: EvidenceClass) -> (r:
    MetricFraction)
    ensures
        r == fraction(numerator, denominator, unit, evidence_class),
{
    MetricFraction {
        numerator,
        denominator,
        unit,
        evidence_class,
        invalidity: if denominator == 0 {
            Some(ContextMetricInvalidity::ZeroDenominator)
        } else {
            None
        },
    }
}

#[derive(Debug, PartialEq, Eq)]
pub struct ContextMetrics {
    pub supplied: OrderedSet<CanonicalEvidenceId>,
    pub observed: OrderedSet<CanonicalEvidenceId>,
    pub reported: OrderedSet<CanonicalEvidenceId>,
    pub changed: OrderedSet<CanonicalEvidenceId>,
    pub expanded: OrderedSet<CanonicalEvidenceId>,
    pub rediscovered: OrderedSet<CanonicalEvidenceId>,
    pub context_precision_observed: MetricFraction,
    pub context_precision_reported: MetricFraction,
    pub context_expansion_count: MetricFraction,
    pub rediscovery_rate: MetricFraction,
    pub source_efficiency_observed: MetricFraction,
}

/// The identities of supplied items with their byte counts, in order.
pub open spec fn supplied_items(evidence: ContextMetricEvidence) -> Seq<(EvidenceIdView, u64)> {
    Seq::new(
        evidence.supplied@.len(),
        |i: int| (evidence.supplied@[i].identity@, evidence.supplied@[i].exact_source_bytes),
    )
}

/// The identities of the reads, in order.
pub open spec fn read_ids(evidence: ContextMetricEvidence) -> Seq<EvidenceIdView> {
    Seq::new(evidence.reads@.len(), |i: int| evidence.reads@[i].identity@)
}

/// The identities of supplied items.
pub open spec fn item_ids(items: Seq<(EvidenceIdView, u64)>) -> Seq<EvidenceIdView> {
    Seq::new(items.len(), |i: int| items[i].0)
}

/// The item at `i` repeats an earlier identity with another byte count.
pub open spec fn conflicts_at(items: Seq<(EvidenceIdView, u64)>, i: int) -> bool {
    exists|j: int| 0 <= j < i && (#[trigger] items[j]).0 == items[i].0 && items[j].1 != items[i].1
}

/// No identity is supplied with two byte counts.
pub open spec fn consistent(items: Seq<(EvidenceIdView, u64)>) -> bool {
    forall|i: int| 0 <= i < items.len() ==> !#[trigger] conflicts_at(items, i)
}

/// The bytes of the distinct items whose identity is in `of`.
pub open spec fn distinct_bytes(items: Seq<(EvidenceIdView, u64)>, of: Set<EvidenceIdView>) -> int
    decreases items.len(),
{
    if items.len() == 0 {
        0
    } else {
        let rest = distinct_bytes(items.drop_last(), of);
        if item_ids(items.drop_last()).contains(items.last().0) || !of.contains(items.last().0) {
            rest
        } else {
            rest + items.last().1
        }
    }
}

/// How many entries of a list are in a set.
pub open spec fn count_in(ids: Seq<EvidenceIdView>, of: Set<EvidenceIdView>) -> int
    decreases ids.len(),
{
    if ids.len() == 0 {
        0
    } else {
        count_in(ids.drop_last(), of) + if of.contains(ids.last()) {
            1int
        } else {
            0int
        }
    }
}

/// The number of evidence records.
pub open spec fn record_total(evidence: ContextMetricEvidence) -> nat {
    evidence.supplied@.len() + evidence.reads@.len() + evidence.reported@.len()
        + evidence.changed@.len()
}

/// The metrics are the set algebra of the evidence.
pub open spec fn metrics_of(evidence: ContextMetricEvidence, m: ContextMetrics) -> bool {
    let items = supplied_items(evidence);
    &&& m.supplied@ == item_ids(items).to_set()
    &&& m.observed@ == read_ids(evidence).to_set()
    &&& m.reported@ == sorted::views(evidence.reported@).to_set()
    &&& m.changed@ == sorted::views(evidence.changed@).to_set()
    &&& m.expanded@ == m.observed@.union(m.reported@).difference(m.supplied@)
    &&& m.rediscovered@ == m.observed@.intersect(m.supplied@)
    &&& m.context_precision_observed == fraction(
        m.observed@.intersect(m.supplied@).len() as u64,
        m.supplied@.len() as u64,
        MetricUnit::Items,
        EvidenceClass::AtlasObserved,
    )
    &&& m.context_precision_reported == fraction(
        m.reported@.intersect(m.supplied@).len() as u64,
        m.supplied@.len() as u64,
        MetricUnit::Items,
        EvidenceClass::ReportedUse,
    )
    &&& m.context_expansion_count == fraction(
        m.expanded@.len() as u64,
        1,
        MetricUnit::Items,
        EvidenceClass::ObservedAndReported,
    )
    &&& m.rediscovery_rate == fraction(
        count_in(read_ids(evidence), m.supplied@) as u64,
        evidence.reads@.len() as u64,
        MetricUnit::Requests,
        EvidenceClass::AtlasObserved,
    )
    &&& m.source_efficiency_observed == fraction(
        distinct_bytes(items, m.observed@) as u64,
        distinct_bytes(items, m.supplied@) as u64,
        MetricUnit::Bytes,
        EvidenceClass::AtlasObserved,
    )
}

proof fn lemma_distinct_bytes_grows(
    items: Seq<(EvidenceIdView, u64)>,
    of: Set<EvidenceIdView>,
    n: int,
)
    requires
        0 <= n <= items.len(),
    ensures
        0 <= distinct_bytes(items.take(n), of) <= distinct_bytes(items, of),
    decreases items.len() - n,
{
    if n == items.len() {
        assert(items.take(n) =~= items);
        lemma_distinct_bytes_nonnegative(items, of);
    } else {
        lemma_distinct_bytes_grows(items, of, n + 1);
        assert(items.take(n + 1).drop_last() =~= items.take(n));
        lemma_distinct_bytes_nonnegative(items.take(n), of);
    }
}

proof fn lemma_distinct_bytes_nonnegative(
    items: Seq<(EvidenceIdView, u64)>,
    of: Set<EvidenceIdView>,
)
    ensures
        0 <= distinct_bytes(items, of),
    decreases items.len(),
{
    if items.len() > 0 {
        lemma_distinct_bytes_nonnegative(items.drop_last(), of);
    }
}

proof fn lemma_distinct_bytes_monotone(
    items: Seq<(EvidenceIdView, u64)>,
    small: Set<EvidenceIdView>,
    large: Set<EvidenceIdView>,
)
    requires
        forall|i: int|
            0 <= i < items.len() && small.contains((#[trigger] items[i]).0) ==> large.contains(
                items[i].0,
            ),
    ensures
        distinct_bytes(items, small) <= distinct_bytes(items, large),
    decreases items.len(),
{
    if items.len() > 0 {
        let init = items.drop_last();
        assert forall|i: int|
            0 <= i < init.len() && small.contains((#[trigger] init[i]).0) implies large.contains(
            init[i].0,
        ) by {
            assert(init[i] == items[i]);
        }
        lemma_distinct_bytes_monotone(init, small, large);
        assert(items.last() == items[items.len() - 1]);
    }
}

proof fn lemma_count_in_bounds(ids: Seq<EvidenceIdView>, of: Set<EvidenceIdView>)
    ensures
        0 <= count_in(ids, of) <= ids.len(),
    decreases ids.len(),
{
    if ids.len() > 0 {
        lemma_count_in_bounds(ids.drop_last(), of);
    }
}

/// The first of the leading `upto` supplied items that has an identity.
fn find_supplied(supplied: &Vec<SuppliedEvidence>, upto: usize, identity: &CanonicalEvidenceId) -> (r:
    Option<usize>)
    requires
        upto <= supplied@.len(),
    ensures
        match r {
            Some(j) => j < upto && supplied@[j as int].identity@ == identity@,
            None => forall|j: int| 0 <= j < upto ==> supplied@[j].identity@ != identity@,
        },
{
    for j in 0..upto
        invariant
            upto <= supplied@.len(),
            forall|k: int| 0 <= k < j ==> supplied@[k].identity@ != identity@,
    {
        if supplied[j].identity.key_same(identity) {
            return Some(j);
        }
    }
    None
}

/// The bytes of the distinct supplied items in a set; none on overflow.
fn sum_distinct_bytes(
    evidence: &ContextMetricEvidence,
    of: &OrderedSet<CanonicalEvidenceId>,
) -> (r: Option<u64>)
    ensures
        match r {
            Some(total) => total == distinct_bytes(supplied_items(*evidence), of@),
            None => distinct_bytes(supplied_items(*evidence), of@) > u64::MAX,
        },
{
    let ghost items = supplied_items(*evidence);
    let mut total: u64 = 0;
    for i in 0..evidence.supplied.len()
        invariant
            items == supplied_items(*evidence),
            total == distinct_bytes(items.take(i as int), of@),
    {
        proof {
            assert(items.take(i + 1).drop_last() =~= items.take(i as int));
            lemma_distinct_bytes_grows(items, of@, i + 1);
        }
        let ghost earlier = item_ids(items.take(i as int));
        let item = &evidence.supplied[i];
        let seen = find_supplied(&evidence.supplied, i, &item.identity);
        proof {
            match seen {
                Some(j) => {
                    assert(earlier[j as int] == item.identity@);
                },
                None => {
                    if earlier.contains(item.identity@) {
                        let k = choose|k: int|
                            0 <= k < earlier.len() && earlier[k] == item.identity@;
                        assert(evidence.supplied@[k].identity@ == item.identity@);
                    }
                },
            }
        }
        if seen.is_none() && of.contains(&item.identity) {
            match total.checked_add(item.exact_source_bytes) {
                Some(sum) => {
                    total = sum;
                },
                None => {
                    return None;
                },
            }
        }
    }
    assert(items.take(items.len() as int) =~= items);
    Some(total)
}

fn set_of(ids: &Vec<CanonicalEvidenceId>) -> (r: OrderedSet<CanonicalEvidenceId>)
    ensures
        r@ == sorted::views(ids@).to_set(),
{
    let mut out: OrderedSet<CanonicalEvidenceId> = OrderedSet::new();
    let ghost all = sorted::views(ids@);
    assert(all.take(0).to_set() =~= Set::empty());
    for i in 0..ids.len()
        invariant
            all == sorted::views(ids@),
            out@ == all.take(i as int).to_set(),
    {
        out.insert(ids[i].clone());
        proof {
            lemma_prefix_set(all, i as int);
        }
    }
    assert(all.take(all.len() as int) =~= all);
    out
}

proof fn lemma_prefix_set(all: Seq<EvidenceIdView>, n: int)
    requires
        0 <= n < all.len(),
    ensures
        all.take(n + 1).to_set() == all.take(n).to_set().insert(all[n]),
{
    let long = all.take(n + 1);
    let short = all.take(n);
    assert forall|y: EvidenceIdView| long.to_set().contains(y) <==> short.to_set().insert(
        all[n],
    ).contains(y) by {
        if long.contains(y) {
            let k = choose|k: int| 0 <= k < long.len() && long[k] == y;
            if k < n {
                assert(short[k] == y);
            }
        }
        if short.contains(y) {
            let k = choose|k: int| 0 <= k < short.len() && short[k] == y;
            assert(long[k] == y);
        }
        assert(long[n] == all[n]);
    }
    assert(long.to_set() =~= short.to_set().insert(all[n]));
}

fn read_set(reads: &Vec<ObservedEvidence>) -> (r: Vec<CanonicalEvidenceId>)
    ensures
        r@.len() == reads@.len(),
        forall|i: int| 0 <= i < r@.len() ==> (#[trigger] r@[i])@ == reads@[i].identity@,
{
    let mut out: Vec<CanonicalEvidenceId> = Vec::new();
    for i in 0..reads.len()
        invariant
            out@.len() == i,
            forall|j: int| 0 <= j < i ==> (#[trigger] out@[j])@ == reads@[j].identity@,
    {
        out.push(reads[i].identity.clone());
    }
    out
}

/// The members of `a` that are in `b` (`keep` true), or that are not (`keep` false).
fn select(
    a: &OrderedSet<CanonicalEvidenceId>,
    b: &OrderedSet<CanonicalEvidenceId>,
    keep: bool,
) -> (r: OrderedSet<CanonicalEvidenceId>)
    ensures
        r@ == if keep {
            a@.intersect(b@)
        } else {
            a@.difference(b@)
        },
{
    let mut out: OrderedSet<CanonicalEvidenceId> = OrderedSet::new();
    let list = a.as_list();
    let ghost all = a.listed();
    for i in 0..list.len()
        invariant
            all == sorted::views(list@),
            forall|y: EvidenceIdView| #[trigger]
                out@.contains(y) <==> (all.take(i as int).contains(y) && b@.contains(y) == keep),
    {
        let ghost before = out@;
        if b.contains(&list[i]) == keep {
            out.insert(list[i].clone());
        }
        proof {
            lemma_prefix_set(all, i as int);
            assert forall|y: EvidenceIdView| #[trigger]
                out@.contains(y) <==> (all.take(i + 1).contains(y) && b@.contains(y) == keep) by {
                assert(all.take(i + 1).to_set().contains(y) <==> all.take(
                    i as int,
                ).to_set().insert(all[i as int]).contains(y));
                assert(before.contains(y) <==> (all.take(i as int).contains(y) && b@.contains(y)
                    == keep));
            }
        }
    }
    proof {
        assert(all.take(all.len() as int) =~= all);
        assert forall|y: EvidenceIdView| a@.contains(y) <==> all.contains(y) by {
            assert(a@ == all.to_set());
        }
        if keep {
            assert(out@ =~= a@.intersect(b@));
        } else {
            assert(out@ =~= a@.difference(b@));
        }
    }
    out
}

fn join_sets(
    a: &OrderedSet<CanonicalEvidenceId>,
    b: &OrderedSet<CanonicalEvidenceId>,
) -> (r: OrderedSet<CanonicalEvidenceId>)
    ensures
        r@ == a@.union(b@),
{
    let mut out = set_of(a.as_list());
    let list = b.as_list();
    let ghost all = b.listed();
    assert(all.take(0).to_set() =~= Set::empty());
    assert(out@ =~= a@.union(all.take(0).to_set()));
    for i in 0..list.len()
        invariant
            all == sorted::views(list@),
            out@ == a@.union(all.take(i as int).to_set()),
    {
        out.insert(list[i].clone());
        proof {
            lemma_prefix_set(all, i as int);
            assert(out@ =~= a@.union(all.take(i + 1).to_set()));
        }
    }
    assert(all.take(all.len() as int) =~= all);
    out
}

/// Derive canonical Context Yield sets and transparent measures.
///
/// Duplicate identities are canonicalized. Repeated reads remain visible in
/// the rediscovery numerator and request denominator. A read can populate only
/// `observed`; it can never populate `reported` or create a reasoning claim.
pub fn derive_context_metrics(evidence: &ContextMetricEvidence) -> (r: Result<
    ContextMetrics,
    ContextMetricInvalidity,
>)
    ensures
        r is Ok <==> {
            &&& record_total(*evidence) <= MAX_CONTEXT_METRIC_EVIDENCE
            &&& consistent(supplied_items(*evidence))
            &&& distinct_bytes(
                supplied_items(*evidence),
                item_ids(supplied_items(*evidence)).to_set(),
            ) <= u64::MAX
        },
        r is Ok ==> metrics_of(*evidence, r->Ok_0),
        record_total(*evidence) > usize::MAX ==> r == Err::<ContextMetrics, _>(
            ContextMetricInvalidity::ArithmeticOverflow,
        ),
        MAX_CONTEXT_METRIC_EVIDENCE < record_total(*evidence) <= usize::MAX ==> r == Err::<
            ContextMetrics,
            _,
        >(
            ContextMetricInvalidity::CapacityExceeded {
                limit: MAX_CONTEXT_METRIC_EVIDENCE,
                actual: record_total(*evidence) as usize,
            },
        ),
        record_total(*evidence) <= MAX_CONTEXT_METRIC_EVIDENCE && !consistent(
            supplied_items(*evidence),
        ) ==> exists|i: int|
            {
                &&& 0 <= i < evidence.supplied@.len()
                &&& #[trigger] conflicts_at(supplied_items(*evidence), i)
                &&& consistent(supplied_items(*evidence).take(i))
                &&& r matches Err(ContextMetricInvalidity::ConflictingSuppliedBytes { identity })
                &&& identity@ == evidence.supplied@[i].identity@
            },
        record_total(*evidence) <= MAX_CONTEXT_METRIC_EVIDENCE && consistent(
            supplied_items(*evidence),
        ) && r is Err ==> r->Err_0 == ContextMetricInvalidity::ArithmeticOverflow,
{
    let actual: usize = match evidence.supplied.len().checked_add(evidence.reads.len()) {
        None => return Err(ContextMetricInvalidity::ArithmeticOverflow),
        Some(first) => match first.checked_add(evidence.reported.len()) {
            None => return Err(ContextMetricInvalidity::ArithmeticOverflow),
            Some(second) => match second.checked_add(evidence.changed.len()) {
                None => return Err(ContextMetricInvalidity::ArithmeticOverflow),
                Some(total) => total,
            },
        },
    };
    if actual > MAX_CONTEXT_METRIC_EVIDENCE {
        return Err(
            ContextMetricInvalidity::CapacityExceeded {
                limit: MAX_CONTEXT_METRIC_EVIDENCE,
                actual,
            },
        );
    }
    let ghost items = supplied_items(*evidence);
    let mut supplied_list: Vec<CanonicalEvidenceId> = Vec::new();
    for i in 0..evidence.supplied.len()
        invariant
            items == supplied_items(*evidence),
            record_total(*evidence) <= MAX_CONTEXT_METRIC_EVIDENCE,
            supplied_list@.len() == i,
            forall|j: int| 0 <= j < i ==> (#[trigger] supplied_list@[j])@ == items[j].0,
            forall|j: int| 0 <= j < i ==> !#[trigger] conflicts_at(items, j),
    {
        let item = &evidence.supplied[i];
        match find_supplied(&evidence.supplied, i, &item.identity) {
            Some(j) => {
                assert(items[j as int].0 == items[i as int].0);
                if evidence.supplied[j].exact_source_bytes != item.exact_source_bytes {
                    proof {
                        assert(conflicts_at(items, i as int));
                        lemma_consistent_prefix(items, i as int);
                    }
                    return Err(
                        ContextMetricInvalidity::ConflictingSuppliedBytes {
                            identity: item.identity.clone(),
                        },
                    );
                }
                proof {
                    if conflicts_at(items, i as int) {
                        let k = choose|k: int|
                            0 <= k < i && (#[trigger] items[k]).0 == items[i as int].0 && items[k].1
                                != items[i as int].1;
                        if k < j {
                            assert(conflicts_at(items, j as int));
                        } else {
                            assert(conflicts_at(items, k));
                        }
                    }
                }
            },
            None => {
                proof {
                    if conflicts_at(items, i as int) {
                        let k = choose|k: int|
                            0 <= k < i && (#[trigger] items[k]).0 == items[i as int].0 && items[k].1
                                != items[i as int].1;
                        assert(evidence.supplied@[k].identity@ == item.identity@);
                    }
                }
            },
        }
        supplied_list.push(item.identity.clone());
    }
    assert(sorted::views(supplied_list@) =~= item_ids(items));
    let supplied = set_of(&supplied_list);
    let read_list = read_set(&evidence.reads);
    assert(sorted::views(read_list@) =~= read_ids(*evidence));
    let observed = set_of(&read_list);
    let reported = set_of(&evidence.reported);
    let changed = set_of(&evidence.changed);
    let everything = join_sets(&observed, &reported);
    let expanded = select(&everything, &supplied, false);
    let rediscovered = select(&observed, &supplied, true);
    let reported_supplied = select(&reported, &supplied, true);
    let mut rediscovery_requests: u64 = 0;
    let ghost reads = read_ids(*evidence);
    for i in 0..read_list.len()
        invariant
            reads == read_ids(*evidence),
            sorted::views(read_list@) == reads,
            rediscovery_requests == count_in(reads.take(i as int), supplied@),
            rediscovery_requests <= i,
    {
        proof {
            assert(reads.take(i + 1).drop_last() =~= reads.take(i as int));
            assert(reads[i as int] == read_list@[i as int]@);
        }
        if supplied.contains(&read_list[i]) {
            rediscovery_requests = rediscovery_requests + 1;
        }
    }
    assert(reads.take(reads.len() as int) =~= reads);
    let supplied_source_bytes: u64 = match sum_distinct_bytes(evidence, &supplied) {
        Some(total) => total,
        None => return Err(ContextMetricInvalidity::ArithmeticOverflow),
    };
    proof {
        assert forall|i: int|
            0 <= i < items.len() && observed@.contains(
                (#[trigger] items[i]).0,
            ) implies supplied@.contains(items[i].0) by {
            assert(item_ids(items)[i] == items[i].0);
        }
        lemma_distinct_bytes_monotone(items, observed@, supplied@);
    }
    let observed_supplied_source_bytes: u64 = match sum_distinct_bytes(evidence, &observed) {
        Some(total) => total,
        None => return Err(ContextMetricInvalidity::ArithmeticOverflow),
    };
    let supplied_count: u64 = supplied.len() as u64;
    Ok(
        ContextMetrics {
            context_precision_observed: metric(
                rediscovered.len() as u64,
                supplied_count,
                MetricUnit::Items,
                EvidenceClass::AtlasObserved,
            ),
            context_precision_reported: metric(
                reported_supplied.len() as u64,
                supplied_count,
                MetricUnit::Items,
                EvidenceClass::ReportedUse,
            ),
            context_expansion_count: metric(
                expanded.len() as u64,
                1,
                MetricUnit::Items,
                EvidenceClass::ObservedAndReported,
            ),
            rediscovery_rate: metric(
                rediscovery_requests,
                evidence.reads.len() as u64,
                MetricUnit::Requests,
                EvidenceClass::AtlasObserved,
            ),
            source_efficiency_observed: metric(
                observed_supplied_source_bytes,
                supplied_source_bytes,
                MetricUnit::Bytes,
                EvidenceClass::AtlasObserved,
            ),
            supplied,
            observed,
            reported,
            changed,
            expanded,
            rediscovered,
        },
    )
}

proof fn lemma_consistent_prefix(items: Seq<(EvidenceIdView, u64)>, n: int)
    requires
        0 <= n <= items.len(),
        forall|j: int| 0 <= j < n ==> !#[trigger] conflicts_at(items, j),
    ensures
        consistent(items.take(n)),
{
    let short = items.take(n);
    assert forall|i: int| 0 <= i < short.len() implies !#[trigger] conflicts_at(short, i) by {
        if conflicts_at(short, i) {
            let j = choose|j: int|
                0 <= j < i && (#[trigger] short[j]).0 == short[i].0 && short[j].1 != short[i].1;
            assert(items[j].0 == items[i].0 && items[j].1 != items[i].1);
            assert(conflicts_at(items, i));
        }
    }
}

/// A read never becomes a reported use, a supply or a change: each of those sets
/// depends on its own claims alone, and the reported precision on what was supplied
/// and reported.
pub proof fn law_reads_never_populate_reported(
    a: ContextMetricEvidence,
    b: ContextMetricEvidence,
    ma: ContextMetrics,
    mb: ContextMetrics,
)
    requires
        metrics_of(a, ma),
        metrics_of(b, mb),
    ensures
        a.reported == b.reported ==> ma.reported@ == mb.reported@,
        a.supplied == b.supplied ==> ma.supplied@ == mb.supplied@,
        a.changed == b.changed ==> ma.changed@ == mb.changed@,
        a.supplied == b.supplied && a.reported == b.reported ==> ma.context_precision_reported
            == mb.context_precision_reported,
{
}

/// Nothing that was supplied counts as expansion, and everything rediscovered was
/// both supplied and observed.
pub proof fn law_expansion_and_rediscovery(e: ContextMetricEvidence, m: ContextMetrics)
    requires
        metrics_of(e, m),
    ensures
        m.expanded@.disjoint(m.supplied@),
        m.rediscovered@.subset_of(m.supplied@),
        m.rediscovered@.subset_of(m.observed@),
{
}

/// No ratio exceeds one, and a ratio is marked invalid exactly when its
/// denominator is zero.
pub proof fn law_ratios_are_at_most_one(e: ContextMetricEvidence, m: ContextMetrics)
    requires
        metrics_of(e, m),
        record_total(e) <= MAX_CONTEXT_METRIC_EVIDENCE,
        distinct_bytes(supplied_items(e), item_ids(supplied_items(e)).to_set()) <= u64::MAX,
    ensures
        m.context_precision_observed.numerator <= m.context_precision_observed.denominator,
        m.context_precision_reported.numerator <= m.context_precision_reported.denominator,
        m.rediscovery_rate.numerator <= m.rediscovery_rate.denominator,
        m.source_efficiency_observed.numerator <= m.source_efficiency_observed.denominator,
        m.context_precision_observed.invalidity is Some <==> m.supplied@.len() == 0,
        m.rediscovery_rate.invalidity is Some <==> e.reads@.len() == 0,
{
    let items = supplied_items(e);
    let ids = item_ids(items);
    lemma_list_set_bound(ids);
    lemma_list_set_bound(read_ids(e));
    lemma_list_set_bound(sorted::views(e.reported@));
    vstd::set_lib::lemma_len_subset(m.observed@.intersect(m.supplied@), m.supplied@);
    vstd::set_lib::lemma_len_subset(m.reported@.intersect(m.supplied@), m.supplied@);
    lemma_count_in_bounds(read_ids(e), m.supplied@);
    assert forall|i: int|
        0 <= i < items.len() && m.observed@.contains(
            (#[trigger] items[i]).0,
        ) implies m.supplied@.contains(items[i].0) by {
        assert(ids[i] == items[i].0);
    }
    lemma_distinct_bytes_monotone(items, m.observed@, m.supplied@);
    lemma_distinct_bytes_nonnegative(items, m.observed@);
}

proof fn lemma_list_set_bound(ids: Seq<EvidenceIdView>)
    ensures
        ids.to_set().finite(),
        ids.to_set().len() <= ids.len(),
{
    ids.lemma_cardinality_of_set();
}

} // verus!
