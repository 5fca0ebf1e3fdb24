//! What the metrics of a context say, said of the evidence they are made from.
use vstd::prelude::*;

use crate::context_metrics;
use crate::context_metrics::{
    ContextExecutionCounters, ContextMetricEvidence, ContextMetrics, EvidenceClass,
    EvidenceIdView, MetricUnit, MAX_CONTEXT_METRIC_EVIDENCE,
};
use crate::sorted;

verus! {

/// The evidence was supplied.
pub open spec fn was_supplied(e: ContextMetricEvidence, id: EvidenceIdView) -> bool {
    exists|i: int| 0 <= i < e.supplied@.len() && (#[trigger] e.supplied@[i]).identity@ == id
}

/// The evidence was read.
pub open spec fn was_read(e: ContextMetricEvidence, id: EvidenceIdView) -> bool {
    exists|i: int| 0 <= i < e.reads@.len() && (#[trigger] e.reads@[i]).identity@ == id
}

/// The evidence was reported as used.
pub open spec fn was_reported(e: ContextMetricEvidence, id: EvidenceIdView) -> bool {
    exists|i: int| 0 <= i < e.reported@.len() && (#[trigger] e.reported@[i])@ == id
}

/// The evidence was changed.
pub open spec fn was_changed(e: ContextMetricEvidence, id: EvidenceIdView) -> bool {
    exists|i: int| 0 <= i < e.changed@.len() && (#[trigger] e.changed@[i])@ == id
}

/// Each set of the metrics holds what its name says: expanded is what was read or
/// reported without having been supplied, rediscovered what was read though it had
/// been.
pub proof fn law_sets_hold_what_their_names_say(
    e: ContextMetricEvidence,
    m: ContextMetrics,
    id: EvidenceIdView,
)
    requires
        context_metrics::metrics_of(e, m),
    ensures
        m.supplied@.contains(id) <==> was_supplied(e, id),
        m.observed@.contains(id) <==> was_read(e, id),
        m.reported@.contains(id) <==> was_reported(e, id),
        m.changed@.contains(id) <==> was_changed(e, id),
        m.expanded@.contains(id) <==> (was_read(e, id) || was_reported(e, id)) && !was_supplied(
            e,
            id,
        ),
        m.rediscovered@.contains(id) <==> was_read(e, id) && was_supplied(e, id),
{
    let supplied = context_metrics::item_ids(context_metrics::supplied_items(e));
    let reads = context_metrics::read_ids(e);
    let reported = sorted::views(e.reported@);
    let changed = sorted::views(e.changed@);
    assert(supplied.contains(id) <==> was_supplied(e, id)) by {
        if supplied.contains(id) {
            let i = choose|i: int| 0 <= i < supplied.len() && supplied[i] == id;
            assert(e.supplied@[i].identity@ == id);
        }
        if was_supplied(e, id) {
            let i = choose|i: int|
                0 <= i < e.supplied@.len() && (#[trigger] e.supplied@[i]).identity@ == id;
            assert(supplied[i] == id);
        }
    }
    assert(reads.contains(id) <==> was_read(e, id)) by {
        if reads.contains(id) {
            let i = choose|i: int| 0 <= i < reads.len() && reads[i] == id;
            assert(e.reads@[i].identity@ == id);
        }
        if was_read(e, id) {
            let i = choose|i: int|
                0 <= i < e.reads@.len() && (#[trigger] e.reads@[i]).identity@ == id;
            assert(reads[i] == id);
        }
    }
    assert(reported.contains(id) <==> was_reported(e, id)) by {
        if reported.contains(id) {
            let i = choose|i: int| 0 <= i < reported.len() && reported[i] == id;
            assert(e.reported@[i]@ == id);
        }
        if was_reported(e, id) {
            let i = choose|i: int| 0 <= i < e.reported@.len() && (#[trigger] e.reported@[i])@ == id;
            assert(reported[i] == id);
        }
    }
    assert(changed.contains(id) <==> was_changed(e, id)) by {
        if changed.contains(id) {
            let i = choose|i: int| 0 <= i < changed.len() && changed[i] == id;
            assert(e.changed@[i]@ == id);
        }
        if was_changed(e, id) {
            let i = choose|i: int| 0 <= i < e.changed@.len() && (#[trigger] e.changed@[i])@ == id;
            assert(changed[i] == id);
        }
    }
    assert(supplied.to_set().contains(id) <==> supplied.contains(id));
    assert(reads.to_set().contains(id) <==> reads.contains(id));
    assert(reported.to_set().contains(id) <==> reported.contains(id));
    assert(changed.to_set().contains(id) <==> changed.contains(id));
}

/// A read more counts as a rediscovery exactly if what it read had been supplied,
/// whenever it took place.
pub proof fn law_each_read_counts_once(
    before: Seq<EvidenceIdView>,
    read: EvidenceIdView,
    behind: Seq<EvidenceIdView>,
    supplied: Set<EvidenceIdView>,
)
    ensures
        context_metrics::count_in(before + seq![read] + behind, supplied)
            == context_metrics::count_in(before + behind, supplied) + (if supplied.contains(read) {
            1int
        } else {
            0int
        }),
        context_metrics::count_in(Seq::empty(), supplied) == 0,
    decreases behind.len(),
{
    let with = before + seq![read] + behind;
    let without = before + behind;
    if behind.len() == 0 {
        assert(with.drop_last() =~= before);
        assert(without =~= before);
    } else {
        law_each_read_counts_once(before, read, behind.drop_last(), supplied);
        assert(with.drop_last() =~= before + seq![read] + behind.drop_last());
        assert(without.drop_last() =~= before + behind.drop_last());
    }
}

/// An item more adds its bytes exactly if it was not listed before and is one of those
/// asked for.
pub proof fn law_each_item_weighs_once(
    items: Seq<(EvidenceIdView, u64)>,
    item: (EvidenceIdView, u64),
    of: Set<EvidenceIdView>,
)
    ensures
        context_metrics::distinct_bytes(items.push(item), of) == context_metrics::distinct_bytes(
            items,
            of,
        ) + (if of.contains(item.0) && (forall|i: int|
            0 <= i < items.len() ==> (#[trigger] items[i]).0 != item.0) {
            item.1 as int
        } else {
            0int
        }),
        context_metrics::distinct_bytes(Seq::empty(), of) == 0,
{
    assert(items.push(item).drop_last() =~= items);
    let ids = context_metrics::item_ids(items);
    if ids.contains(item.0) {
        let i = choose|i: int| 0 <= i < ids.len() && ids[i] == item.0;
        assert(items[i].0 == item.0);
    } else {
        assert forall|i: int| 0 <= i < items.len() implies (#[trigger] items[i]).0 != item.0 by {
            assert(ids[i] == items[i].0);
        }
    }
}

proof fn lemma_ids_finite(ids: Seq<EvidenceIdView>)
    ensures
        ids.to_set().finite(),
        ids.to_set().len() <= ids.len(),
{
    vstd::seq_lib::seq_to_set_is_finite(ids);
    ids.lemma_cardinality_of_set();
}

proof fn lemma_count_all(ids: Seq<EvidenceIdView>, of: Set<EvidenceIdView>)
    ensures
        0 <= context_metrics::count_in(ids, of) <= ids.len(),
        context_metrics::count_in(ids, of) == ids.len() <==> (forall|i: int|
            0 <= i < ids.len() ==> of.contains(#[trigger] ids[i])),
        context_metrics::count_in(ids, of) == 0 <==> (forall|i: int|
            0 <= i < ids.len() ==> !of.contains(#[trigger] ids[i])),
    decreases ids.len(),
{
    if ids.len() > 0 {
        let rest = ids.drop_last();
        lemma_count_all(rest, of);
        assert forall|i: int| 0 <= i < rest.len() implies rest[i] == #[trigger] ids[i] by {}
        if forall|i: int| 0 <= i < rest.len() ==> of.contains(#[trigger] rest[i]) {
            assert forall|i: int| 0 <= i < rest.len() implies of.contains(#[trigger] ids[i]) by {
                assert(rest[i] == ids[i]);
            }
        } else {
            let i = choose|i: int| 0 <= i < rest.len() && !of.contains(#[trigger] rest[i]);
            assert(!of.contains(ids[i]));
        }
        if forall|i: int| 0 <= i < rest.len() ==> !of.contains(#[trigger] rest[i]) {
            assert forall|i: int| 0 <= i < rest.len() implies !of.contains(#[trigger] ids[i]) by {
                assert(rest[i] == ids[i]);
            }
        } else {
            let i = choose|i: int| 0 <= i < rest.len() && of.contains(#[trigger] rest[i]);
            assert(of.contains(ids[i]));
        }
        assert(ids.last() == ids[ids.len() - 1]);
    }
}

/// The precision is perfect exactly if everything supplied was read (or reported), and
/// nothing exactly if none of it was; reads are all rediscoveries exactly if all they
/// read had been supplied.
pub proof fn law_perfect_ratios(e: ContextMetricEvidence, m: ContextMetrics)
    requires
        context_metrics::metrics_of(e, m),
        context_metrics::record_total(e) <= MAX_CONTEXT_METRIC_EVIDENCE,
    ensures
        m.context_precision_observed.denominator == m.supplied@.len(),
        m.context_precision_reported.denominator == m.supplied@.len(),
        m.context_precision_observed.numerator == m.rediscovered@.len(),
        m.context_precision_observed.numerator == m.context_precision_observed.denominator <==> (
        forall|id: EvidenceIdView| #[trigger] was_supplied(e, id) ==> was_read(e, id)),
        m.context_precision_reported.numerator == m.context_precision_reported.denominator <==> (
        forall|id: EvidenceIdView| #[trigger] was_supplied(e, id) ==> was_reported(e, id)),
        m.context_precision_observed.numerator == 0 <==> (forall|id: EvidenceIdView| #[trigger]
            was_supplied(e, id) ==> !was_read(e, id)),
        m.context_precision_reported.numerator == 0 <==> (forall|id: EvidenceIdView| #[trigger]
            was_supplied(e, id) ==> !was_reported(e, id)),
        m.context_expansion_count.numerator == m.expanded@.len(),
        m.context_expansion_count.denominator == 1,
        m.rediscovery_rate.denominator == e.reads@.len(),
        m.rediscovery_rate.numerator == m.rediscovery_rate.denominator <==> (forall|i: int|
            0 <= i < e.reads@.len() ==> was_supplied(e, (#[trigger] e.reads@[i]).identity@)),
{
    let supplied = context_metrics::item_ids(context_metrics::supplied_items(e));
    let reads = context_metrics::read_ids(e);
    let reported = sorted::views(e.reported@);
    lemma_ids_finite(supplied);
    lemma_ids_finite(reads);
    lemma_ids_finite(reported);
    assert forall|id: EvidenceIdView|
        (#[trigger] was_supplied(e, id) <==> m.supplied@.contains(id)) && (was_read(e, id)
            <==> m.observed@.contains(id)) && (was_reported(e, id) <==> m.reported@.contains(
            id,
        )) by {
        law_sets_hold_what_their_names_say(e, m, id);
    }
    lemma_share(m.observed@, m.supplied@);
    lemma_share(m.reported@, m.supplied@);
    lemma_union_bound(m.observed@, m.reported@);
    vstd::set_lib::lemma_len_subset(m.expanded@, m.observed@.union(m.reported@));
    lemma_count_all(reads, m.supplied@);
    assert forall|i: int| 0 <= i < e.reads@.len() implies reads[i] == (
    #[trigger] e.reads@[i]).identity@ by {}
    if forall|i: int|
        0 <= i < e.reads@.len() ==> was_supplied(e, (#[trigger] e.reads@[i]).identity@) {
        assert forall|i: int| 0 <= i < reads.len() implies m.supplied@.contains(
            #[trigger] reads[i],
        ) by {
            assert(was_supplied(e, e.reads@[i].identity@));
        }
    }
    if forall|i: int| 0 <= i < reads.len() ==> m.supplied@.contains(#[trigger] reads[i]) {
        assert forall|i: int| 0 <= i < e.reads@.len() implies was_supplied(
            e,
            (#[trigger] e.reads@[i]).identity@,
        ) by {
            assert(m.supplied@.contains(reads[i]));
            assert(was_supplied(e, reads[i]) <==> m.supplied@.contains(reads[i]));
        }
    }
    assert(forall|id: EvidenceIdView|
        m.supplied@.contains(id) <==> #[trigger] was_supplied(e, id));
    assert forall|id: EvidenceIdView| #[trigger]
        m.supplied@.contains(id) implies was_supplied(e, id) by {
        assert(was_supplied(e, id) <==> m.supplied@.contains(id));
    }
}

proof fn lemma_union_bound(a: Set<EvidenceIdView>, b: Set<EvidenceIdView>)
    requires
        a.finite(),
        b.finite(),
    ensures
        a.union(b).finite(),
        a.union(b).len() <= a.len() + b.len(),
{
    vstd::set_lib::lemma_len_union(a, b);
}

/// The part of a finite set that lies in another is all of it, or nothing.
proof fn lemma_share(a: Set<EvidenceIdView>, of: Set<EvidenceIdView>)
    requires
        of.finite(),
    ensures
        a.intersect(of).len() <= of.len(),
        a.intersect(of).len() == of.len() <==> (forall|id: EvidenceIdView| #[trigger]
            of.contains(id) ==> a.contains(id)),
        a.intersect(of).len() == 0 <==> (forall|id: EvidenceIdView| #[trigger]
            of.contains(id) ==> !a.contains(id)),
{
    let part = a.intersect(of);
    vstd::set_lib::lemma_len_subset(part, of);
    if part.len() == of.len() {
        vstd::set_lib::lemma_subset_equality(part, of);
        assert forall|id: EvidenceIdView| #[trigger] of.contains(id) implies a.contains(id) by {
            assert(part.contains(id));
        }
    }
    if forall|id: EvidenceIdView| #[trigger] of.contains(id) ==> a.contains(id) {
        assert(part =~= of);
    }
    if part.len() == 0 {
        assert forall|id: EvidenceIdView| #[trigger] of.contains(id) implies !a.contains(id) by {
            if a.contains(id) {
                assert(part.contains(id));
                assert(part.len() > 0) by {
                    vstd::set_lib::lemma_set_empty_equivalency_len(part);
                }
            }
        }
    }
    if forall|id: EvidenceIdView| #[trigger] of.contains(id) ==> !a.contains(id) {
        assert(part =~= Set::empty());
    }
}

/// Each metric is in its unit, comes from its class of evidence, and is invalid exactly
/// if it divides by nothing.
pub proof fn law_metrics_name_their_evidence(e: ContextMetricEvidence, m: ContextMetrics)
    requires
        context_metrics::metrics_of(e, m),
    ensures
        m.context_precision_observed.unit == MetricUnit::Items,
        m.context_precision_reported.unit == MetricUnit::Items,
        m.context_expansion_count.unit == MetricUnit::Items,
        m.rediscovery_rate.unit == MetricUnit::Requests,
        m.source_efficiency_observed.unit == MetricUnit::Bytes,
        m.context_precision_observed.evidence_class == EvidenceClass::AtlasObserved,
        m.context_precision_reported.evidence_class == EvidenceClass::ReportedUse,
        m.context_expansion_count.evidence_class == EvidenceClass::ObservedAndReported,
        m.rediscovery_rate.evidence_class == EvidenceClass::AtlasObserved,
        m.source_efficiency_observed.evidence_class == EvidenceClass::AtlasObserved,
        m.context_precision_observed.invalidity is Some
            <==> m.context_precision_observed.denominator == 0,
        m.context_precision_reported.invalidity is Some
            <==> m.context_precision_reported.denominator == 0,
        m.context_expansion_count.invalidity is None,
        m.rediscovery_rate.invalidity is Some <==> m.rediscovery_rate.denominator == 0,
        m.source_efficiency_observed.invalidity is Some
            <==> m.source_efficiency_observed.denominator == 0,
{
}

/// Counters are refused exactly if one of them exceeds its bound: less work than what
/// is accepted is accepted too, and doing nothing is.
pub proof fn law_less_work_is_accepted(a: ContextExecutionCounters, b: ContextExecutionCounters)
    requires
        a.atlas_calls <= b.atlas_calls,
        a.records <= b.records,
        a.source_bytes <= b.source_bytes,
        a.estimated_tokens <= b.estimated_tokens,
        a.work_units <= b.work_units,
    ensures
        b.within_bounds() ==> a.within_bounds(),
        a.excess() is Some ==> b.excess() is Some,
        a.excess() is Some <==> !a.within_bounds(),
        context_metrics::zero_counters().within_bounds(),
{
}

} // verus!
