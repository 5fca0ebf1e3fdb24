//! What a route delivered of the requested capabilities, and why the rest is
//! missing: the shared accounting, and the judgement of a deep document.
use vstd::prelude::*;

use crate::context_dispatch::{OutcomeView, RouteAttemptOutcome};
use crate::context_execution;
use crate::context_execution::{
    CapabilityDeficitReason, ContextDiagnosticCode, ContextPayload, ExplicitMaterialization,
    MaterializationView, PayloadView, RouteDeficit,
};
use crate::context_ir::{
    ClaimStrength, EvidenceQuality, IrEffect, IrRelationship, ItemRole, ResolutionStatus,
    CONTEXT_SCHEMA_V2_VERSION,
};
use crate::context_metrics::ContextExecutionCounters;
use crate::context_route;
use crate::context_route::{
    CallerCapabilityState, CapabilityMap, ContextRouteError, DeepContractVersions,
    DeepSemanticBudget, RequiredCapability,
};
use crate::deep_context_ir;
use crate::deep_context_ir::{
    deep_context_payload, DeepContextIrV2, IrOmissionReasonV2, IrPathConfinementV2,
    IrRequirementStateV2, IrRoleSufficiencyV2, IrSourceRefV2, IrSourceVerificationV2,
    IrWorkingSetItemV2, RoleRecipe,
};
use crate::error;
use crate::error::AtlasError;
use crate::text::text_eq;

verus! {

/// What a route has of each capability that the caller lacks.
pub trait CapabilityJudge {
    /// Why the route does not deliver a capability; none where it does.
    spec fn verdict(&self, capability: RequiredCapability) -> Option<CapabilityDeficitReason>;

    fn judge(&self, capability: RequiredCapability) -> (r: Option<CapabilityDeficitReason>)
        ensures
            r == self.verdict(capability),
    ;
}

/// The capabilities of a list that the caller has or the route delivers.
pub open spec fn met<J: CapabilityJudge>(
    listed: Seq<(RequiredCapability, CallerCapabilityState)>,
    judge: &J,
) -> Seq<RequiredCapability>
    decreases listed.len(),
{
    if listed.len() == 0 {
        Seq::empty()
    } else {
        let rest = met(listed.drop_last(), judge);
        let (capability, state) = listed.last();
        if state == CallerCapabilityState::Satisfied || judge.verdict(capability) is None {
            rest.push(capability)
        } else {
            rest
        }
    }
}

/// The deficits of the other capabilities of a list.
pub open spec fn unmet<J: CapabilityJudge>(
    listed: Seq<(RequiredCapability, CallerCapabilityState)>,
    judge: &J,
) -> Seq<RouteDeficit>
    decreases listed.len(),
{
    if listed.len() == 0 {
        Seq::empty()
    } else {
        let rest = unmet(listed.drop_last(), judge);
        let (capability, state) = listed.last();
        if state == CallerCapabilityState::Satisfied || judge.verdict(capability) is None {
            rest
        } else {
            rest.push(
                RouteDeficit::Capability { capability, reason: judge.verdict(capability)->0 },
            )
        }
    }
}

/// Sorts the requested capabilities into those that are met and the deficits of the
/// others.
pub fn account_for<J: CapabilityJudge>(requested: &CapabilityMap, judge: &J) -> (r: (
    Vec<RequiredCapability>,
    Vec<RouteDeficit>,
))
    ensures
        r.0@ == met(requested.listed(), judge),
        r.1@ == unmet(requested.listed(), judge),
{
    let listed = requested.entries();
    let mut satisfied: Vec<RequiredCapability> = Vec::new();
    let mut deficits: Vec<RouteDeficit> = Vec::new();
    for i in 0..listed.len()
        invariant
            satisfied@ == met(listed@.take(i as int), judge),
            deficits@ == unmet(listed@.take(i as int), judge),
    {
        let (capability, state) = listed[i];
        proof {
            assert(listed@.take(i + 1).drop_last() =~= listed@.take(i as int));
            assert(listed@.take(i + 1).last() == listed@[i as int]);
        }
        let reason = if state == CallerCapabilityState::Satisfied {
            None
        } else {
            judge.judge(capability)
        };
        match reason {
            None => satisfied.push(capability),
            Some(reason) => deficits.push(RouteDeficit::Capability { capability, reason }),
        }
    }
    assert(listed@.take(listed@.len() as int) =~= listed@);
    (satisfied, deficits)
}

/// Every requested capability is accounted for exactly once.
pub proof fn law_capabilities_are_accounted_for<J: CapabilityJudge>(
    listed: Seq<(RequiredCapability, CallerCapabilityState)>,
    judge: &J,
)
    ensures
        met(listed, judge).len() + unmet(listed, judge).len() == listed.len(),
        forall|i: int|
            0 <= i < listed.len() ==> met(listed, judge).contains((#[trigger] listed[i]).0) || (
            judge.verdict(listed[i].0) is Some && unmet(listed, judge).contains(
                RouteDeficit::Capability {
                    capability: listed[i].0,
                    reason: judge.verdict(listed[i].0)->0,
                },
            )),
    decreases listed.len(),
{
    if listed.len() > 0 {
        let init = listed.drop_last();
        law_capabilities_are_accounted_for(init, judge);
        let (capability, state) = listed.last();
        let m0 = met(init, judge);
        let u0 = unmet(init, judge);
        assert forall|i: int| 0 <= i < listed.len() implies met(listed, judge).contains(
            (#[trigger] listed[i]).0,
        ) || (judge.verdict(listed[i].0) is Some && unmet(listed, judge).contains(
            RouteDeficit::Capability {
                capability: listed[i].0,
                reason: judge.verdict(listed[i].0)->0,
            },
        )) by {
            if i < init.len() {
                assert(listed[i] == init[i]);
                if m0.contains(init[i].0) {
                    let k = choose|k: int| 0 <= k < m0.len() && m0[k] == init[i].0;
                    assert(met(listed, judge)[k] == init[i].0);
                } else {
                    let d = RouteDeficit::Capability {
                        capability: init[i].0,
                        reason: judge.verdict(init[i].0)->0,
                    };
                    let k = choose|k: int| 0 <= k < u0.len() && u0[k] == d;
                    assert(unmet(listed, judge)[k] == d);
                }
            } else {
                if state == CallerCapabilityState::Satisfied || judge.verdict(capability) is None {
                    assert(met(listed, judge)[m0.len() as int] == capability);
                } else {
                    assert(unmet(listed, judge)[u0.len() as int] == (RouteDeficit::Capability {
                        capability,
                        reason: judge.verdict(capability)->0,
                    }));
                }
            }
        }
    }
}

/// How grave a reason is: the gravest is the smallest.
pub open spec fn gravity(reason: CapabilityDeficitReason) -> int {
    match reason {
        CapabilityDeficitReason::Conflicting => 0,
        CapabilityDeficitReason::Stale => 1,
        CapabilityDeficitReason::Ambiguous => 2,
        CapabilityDeficitReason::Unsupported => 3,
        CapabilityDeficitReason::SemanticBudgetOmitted => 4,
        CapabilityDeficitReason::Unavailable => 5,
    }
}

pub fn deficit_priority(reason: CapabilityDeficitReason) -> (r: u8)
    ensures
        r == gravity(reason),
{
    match reason {
        CapabilityDeficitReason::Conflicting => 0,
        CapabilityDeficitReason::Stale => 1,
        CapabilityDeficitReason::Ambiguous => 2,
        CapabilityDeficitReason::Unsupported => 3,
        CapabilityDeficitReason::SemanticBudgetOmitted => 4,
        CapabilityDeficitReason::Unavailable => 5,
    }
}

/// The graver of two causes, where there is any.
pub open spec fn graver(
    current: Option<CapabilityDeficitReason>,
    candidate: Option<CapabilityDeficitReason>,
) -> Option<CapabilityDeficitReason> {
    match (current, candidate) {
        (_, None) => current,
        (None, Some(_)) => candidate,
        (Some(c), Some(d)) => if gravity(c) <= gravity(d) {
            current
        } else {
            candidate
        },
    }
}

/// The graver of two causes.
pub fn preferred_deficit(
    current: Option<CapabilityDeficitReason>,
    candidate: Option<CapabilityDeficitReason>,
) -> (r: Option<CapabilityDeficitReason>)
    ensures
        r == graver(current, candidate),
{
    match (current, candidate) {
        (_, None) => current,
        (None, Some(_)) => candidate,
        (Some(c), Some(d)) => if deficit_priority(c) <= deficit_priority(d) {
            current
        } else {
            candidate
        },
    }
}

/// The gravest of a list of causes.
pub open spec fn gravest(causes: Seq<Option<CapabilityDeficitReason>>) -> Option<
    CapabilityDeficitReason,
>
    decreases causes.len(),
{
    if causes.len() == 0 {
        None
    } else {
        graver(gravest(causes.drop_last()), causes.last())
    }
}

/// The gravest cause is one of the causes and no cause is graver; there is none
/// only where there is no cause.
pub proof fn law_gravest_cause(causes: Seq<Option<CapabilityDeficitReason>>)
    ensures
        match gravest(causes) {
            Some(reason) => causes.contains(Some(reason)) && forall|i: int|
                0 <= i < causes.len() ==> ((#[trigger] causes[i]) matches Some(other) ==> gravity(
                    reason,
                ) <= gravity(other)),
            None => forall|i: int| 0 <= i < causes.len() ==> (#[trigger] causes[i]) is None,
        },
    decreases causes.len(),
{
    if causes.len() > 0 {
        let init = causes.drop_last();
        law_gravest_cause(init);
        assert forall|i: int| 0 <= i < causes.len() implies (i < init.len() ==> causes[i]
            == init[i]) by {}
        if let Some(reason) = gravest(init) {
            let k = choose|k: int| 0 <= k < init.len() && init[k] == Some(reason);
            assert(causes[k] == Some(reason));
        }
        if causes.last() is Some {
            assert(causes[causes.len() - 1] == causes.last());
        }
    }
}

/// The deficit that an omission stands for.
pub open spec fn omission_cause(reason: IrOmissionReasonV2) -> CapabilityDeficitReason {
    match reason {
        IrOmissionReasonV2::ConflictingEvidence => CapabilityDeficitReason::Conflicting,
        IrOmissionReasonV2::StaleEvidence => CapabilityDeficitReason::Stale,
        IrOmissionReasonV2::SourceVerificationFailed => CapabilityDeficitReason::Stale,
        IrOmissionReasonV2::UnresolvedEvidence => CapabilityDeficitReason::Ambiguous,
        IrOmissionReasonV2::AmbiguousSeed => CapabilityDeficitReason::Ambiguous,
        IrOmissionReasonV2::FtsCandidateLimit => CapabilityDeficitReason::Ambiguous,
        IrOmissionReasonV2::UnsupportedEvidence => CapabilityDeficitReason::Unsupported,
        IrOmissionReasonV2::RecordBudget => CapabilityDeficitReason::SemanticBudgetOmitted,
        IrOmissionReasonV2::SourceByteBudget => CapabilityDeficitReason::SemanticBudgetOmitted,
        IrOmissionReasonV2::EstimatedTokenBudget => CapabilityDeficitReason::SemanticBudgetOmitted,
        IrOmissionReasonV2::RelationshipDepthBudget => {
            CapabilityDeficitReason::SemanticBudgetOmitted
        },
        IrOmissionReasonV2::WorkUnitBudget => CapabilityDeficitReason::SemanticBudgetOmitted,
        IrOmissionReasonV2::UncertaintyReserve => CapabilityDeficitReason::SemanticBudgetOmitted,
        IrOmissionReasonV2::MissingRequiredRole => CapabilityDeficitReason::Unavailable,
        IrOmissionReasonV2::UnavailableEvidence => CapabilityDeficitReason::Unavailable,
        IrOmissionReasonV2::TemporalEvidenceUnavailable => CapabilityDeficitReason::Unavailable,
        IrOmissionReasonV2::ValidationTargetUnavailable => CapabilityDeficitReason::Unavailable,
    }
}

pub fn omission_deficit(reason: IrOmissionReasonV2) -> (r: CapabilityDeficitReason)
    ensures
        r == omission_cause(reason),
{
    match reason {
        IrOmissionReasonV2::ConflictingEvidence => CapabilityDeficitReason::Conflicting,
        IrOmissionReasonV2::StaleEvidence | IrOmissionReasonV2::SourceVerificationFailed => {
            CapabilityDeficitReason::Stale
        },
        IrOmissionReasonV2::UnresolvedEvidence
        | IrOmissionReasonV2::AmbiguousSeed
        | IrOmissionReasonV2::FtsCandidateLimit => CapabilityDeficitReason::Ambiguous,
        IrOmissionReasonV2::UnsupportedEvidence => CapabilityDeficitReason::Unsupported,
        IrOmissionReasonV2::RecordBudget
        | IrOmissionReasonV2::SourceByteBudget
        | IrOmissionReasonV2::EstimatedTokenBudget
        | IrOmissionReasonV2::RelationshipDepthBudget
        | IrOmissionReasonV2::WorkUnitBudget
        | IrOmissionReasonV2::UncertaintyReserve => CapabilityDeficitReason::SemanticBudgetOmitted,
        IrOmissionReasonV2::MissingRequiredRole
        | IrOmissionReasonV2::UnavailableEvidence
        | IrOmissionReasonV2::TemporalEvidenceUnavailable
        | IrOmissionReasonV2::ValidationTargetUnavailable => CapabilityDeficitReason::Unavailable,
    }
}

/// The deficit that a requirement's state stands for.
pub open spec fn state_cause(state: IrRequirementStateV2) -> Option<CapabilityDeficitReason> {
    match state {
        IrRequirementStateV2::Satisfied => None,
        IrRequirementStateV2::Unresolved => Some(CapabilityDeficitReason::Ambiguous),
        IrRequirementStateV2::Stale => Some(CapabilityDeficitReason::Stale),
        IrRequirementStateV2::Unsupported => Some(CapabilityDeficitReason::Unsupported),
        IrRequirementStateV2::Conflicting => Some(CapabilityDeficitReason::Conflicting),
        IrRequirementStateV2::BudgetOmitted => Some(CapabilityDeficitReason::SemanticBudgetOmitted),
        IrRequirementStateV2::Missing => Some(CapabilityDeficitReason::Unavailable),
        IrRequirementStateV2::Unavailable => Some(CapabilityDeficitReason::Unavailable),
    }
}

/// The deficit that an optional omission stands for.
pub open spec fn opt_omission_cause(reason: Option<IrOmissionReasonV2>) -> Option<
    CapabilityDeficitReason,
> {
    match reason {
        Some(reason) => Some(omission_cause(reason)),
        None => None,
    }
}

/// The deficit of a requirement: of its state or of its reason, whichever is graver.
pub fn requirement_deficit(
    state: IrRequirementStateV2,
    reason: Option<IrOmissionReasonV2>,
) -> (r: Option<CapabilityDeficitReason>)
    ensures
        r == graver(state_cause(state), opt_omission_cause(reason)),
{
    let from_state = match state {
        IrRequirementStateV2::Satisfied => None,
        IrRequirementStateV2::Unresolved => Some(CapabilityDeficitReason::Ambiguous),
        IrRequirementStateV2::Stale => Some(CapabilityDeficitReason::Stale),
        IrRequirementStateV2::Unsupported => Some(CapabilityDeficitReason::Unsupported),
        IrRequirementStateV2::Conflicting => Some(CapabilityDeficitReason::Conflicting),
        IrRequirementStateV2::BudgetOmitted => Some(CapabilityDeficitReason::SemanticBudgetOmitted),
        IrRequirementStateV2::Missing | IrRequirementStateV2::Unavailable => Some(
            CapabilityDeficitReason::Unavailable,
        ),
    };
    match reason {
        Some(reason) => preferred_deficit(from_state, Some(omission_deficit(reason))),
        None => from_state,
    }
}

/// The deficit that the quality of a piece of evidence stands for.
pub open spec fn quality_cause(quality: EvidenceQuality) -> Option<CapabilityDeficitReason> {
    match quality {
        EvidenceQuality::Verified => None,
        EvidenceQuality::Supported => None,
        EvidenceQuality::Resolved => None,
        EvidenceQuality::Ambiguous => Some(CapabilityDeficitReason::Ambiguous),
        EvidenceQuality::Unresolved => Some(CapabilityDeficitReason::Ambiguous),
        EvidenceQuality::Inferred => Some(CapabilityDeficitReason::Ambiguous),
        EvidenceQuality::Partial => Some(CapabilityDeficitReason::Ambiguous),
        EvidenceQuality::External => Some(CapabilityDeficitReason::Ambiguous),
        EvidenceQuality::Stale => Some(CapabilityDeficitReason::Stale),
        EvidenceQuality::Conflicting => Some(CapabilityDeficitReason::Conflicting),
        EvidenceQuality::Unsupported => Some(CapabilityDeficitReason::Unsupported),
        EvidenceQuality::Excluded => Some(CapabilityDeficitReason::Unsupported),
    }
}

pub fn evidence_deficit(quality: EvidenceQuality) -> (r: Option<CapabilityDeficitReason>)
    ensures
        r == quality_cause(quality),
{
    match quality {
        EvidenceQuality::Verified | EvidenceQuality::Supported | EvidenceQuality::Resolved => None,
        EvidenceQuality::Ambiguous
        | EvidenceQuality::Unresolved
        | EvidenceQuality::Inferred
        | EvidenceQuality::Partial
        | EvidenceQuality::External => Some(CapabilityDeficitReason::Ambiguous),
        EvidenceQuality::Stale => Some(CapabilityDeficitReason::Stale),
        EvidenceQuality::Conflicting => Some(CapabilityDeficitReason::Conflicting),
        EvidenceQuality::Unsupported | EvidenceQuality::Excluded => Some(
            CapabilityDeficitReason::Unsupported,
        ),
    }
}

/// The first working-set item with an identity and a role, from `from` on.
pub open spec fn item_from(
    items: Seq<IrWorkingSetItemV2>,
    id: Seq<char>,
    role: ItemRole,
    from: int,
) -> Option<IrWorkingSetItemV2>
    decreases items.len() - from,
{
    if from < 0 || from >= items.len() {
        None
    } else if items[from].item_id@ == id && items[from].role == role {
        Some(items[from])
    } else {
        item_from(items, id, role, from + 1)
    }
}

fn find_item<'a>(items: &'a Vec<IrWorkingSetItemV2>, id: &str, role: ItemRole) -> (r: Option<
    &'a IrWorkingSetItemV2,
>)
    ensures
        match r {
            Some(item) => item_from(items@, id@, role, 0) == Some(*item),
            None => item_from(items@, id@, role, 0) is None,
        },
{
    for i in 0..items.len()
        invariant
            item_from(items@, id@, role, 0) == item_from(items@, id@, role, i as int),
    {
        if text_eq(items[i].item_id.as_str(), id) && items[i].role == role {
            return Some(&items[i]);
        }
    }
    None
}

/// The cause that one evidence item of a role gives.
pub open spec fn item_cause(
    items: Seq<IrWorkingSetItemV2>,
    id: Seq<char>,
    role: ItemRole,
) -> Option<CapabilityDeficitReason> {
    match item_from(items, id, role, 0) {
        Some(item) => quality_cause(item.evidence.state),
        None => Some(CapabilityDeficitReason::Unavailable),
    }
}

/// One cause where something holds.
pub open spec fn cause_if(holds: bool, reason: CapabilityDeficitReason) -> Option<
    CapabilityDeficitReason,
> {
    if holds {
        Some(reason)
    } else {
        None
    }
}

/// The causes that an entry of the role matrix gives: its state and reason, the
/// absence of evidence, and each evidence item.
pub open spec fn entry_causes(
    entry: IrRoleSufficiencyV2,
    items: Seq<IrWorkingSetItemV2>,
) -> Seq<Option<CapabilityDeficitReason>> {
    let ids = entry.evidence_item_ids@;
    seq![
        graver(state_cause(entry.state), opt_omission_cause(entry.reason)),
        cause_if(ids.len() == 0, CapabilityDeficitReason::Unavailable),
    ] + Seq::new(ids.len(), |i: int| item_cause(items, ids[i]@, entry.role))
}

impl DeepContextIrV2 {
    /// Why a role is not delivered.
    pub open spec fn role_verdict(self, role: ItemRole) -> Option<CapabilityDeficitReason> {
        match deep_context_ir::entry_from(self.status.role_sufficiency@, role, 0) {
            Some(entry) => gravest(entry_causes(entry, self.working_set@)),
            None => Some(CapabilityDeficitReason::Unavailable),
        }
    }
}

proof fn lemma_gravest_push(
    causes: Seq<Option<CapabilityDeficitReason>>,
    next: Option<CapabilityDeficitReason>,
)
    ensures
        gravest(causes.push(next)) == graver(gravest(causes), next),
{
    assert(causes.push(next).drop_last() =~= causes);
}

fn judge_entry(entry: &IrRoleSufficiencyV2, items: &Vec<IrWorkingSetItemV2>) -> (r: Option<
    CapabilityDeficitReason,
>)
    ensures
        r == gravest(entry_causes(*entry, items@)),
{
    let ghost causes = entry_causes(*entry, items@);
    let ids = &entry.evidence_item_ids;
    let first = requirement_deficit(entry.state, entry.reason);
    let absent = if ids.len() == 0 {
        Some(CapabilityDeficitReason::Unavailable)
    } else {
        None
    };
    let mut found = preferred_deficit(first, absent);
    proof {
        let none = Seq::<Option<CapabilityDeficitReason>>::empty();
        lemma_gravest_push(none, causes[0]);
        lemma_gravest_push(none.push(causes[0]), causes[1]);
        assert(causes.take(2) =~= none.push(causes[0]).push(causes[1]));
        assert(found == gravest(causes.take(2)));
    }
    for i in 0..ids.len()
        invariant
            ids@ == entry.evidence_item_ids@,
            causes == entry_causes(*entry, items@),
            found == gravest(causes.take(2 + i)),
    {
        let cause = match find_item(items, ids[i].as_str(), entry.role) {
            Some(item) => evidence_deficit(item.evidence.state),
            None => Some(CapabilityDeficitReason::Unavailable),
        };
        proof {
            assert(causes[2 + i] == item_cause(items@, ids@[i as int]@, entry.role));
            lemma_gravest_push(causes.take(2 + i), causes[2 + i]);
            assert(causes.take(2 + i + 1) =~= causes.take(2 + i).push(causes[2 + i]));
        }
        found = preferred_deficit(found, cause);
    }
    assert(causes.take(2 + ids@.len() as int) =~= causes);
    found
}

fn entry_for<'a>(document: &'a DeepContextIrV2, role: ItemRole) -> (r: Option<
    &'a IrRoleSufficiencyV2,
>)
    ensures
        match r {
            Some(entry) => deep_context_ir::entry_from(document.status.role_sufficiency@, role, 0)
                == Some(*entry),
            None => deep_context_ir::entry_from(
                document.status.role_sufficiency@,
                role,
                0,
            ) is None,
        },
{
    let entries = &document.status.role_sufficiency;
    for i in 0..entries.len()
        invariant
            entries@ == document.status.role_sufficiency@,
            deep_context_ir::entry_from(entries@, role, 0) == deep_context_ir::entry_from(
                entries@,
                role,
                i as int,
            ),
    {
        if entries[i].role == role {
            return Some(&entries[i]);
        }
    }
    None
}

/// Why a role is not delivered by a document.
pub fn role_capability_outcome(document: &DeepContextIrV2, role: ItemRole) -> (r: Option<
    CapabilityDeficitReason,
>)
    ensures
        r == document.role_verdict(role),
{
    match entry_for(document, role) {
        Some(entry) => judge_entry(entry, &document.working_set),
        None => Some(CapabilityDeficitReason::Unavailable),
    }
}

/// The cause that a selected source gives: of its verification or of its place,
/// whichever is graver.
pub open spec fn source_cause(source: IrSourceRefV2) -> Option<CapabilityDeficitReason> {
    let verification = match source.verification_status {
        IrSourceVerificationV2::Verified => if source.revalidated_before_seal
            && crate::text::opt_text(source.observed_sha256) == Some(source.whole_file_sha256@) {
            None
        } else {
            Some(CapabilityDeficitReason::Stale)
        },
        IrSourceVerificationV2::Stale => Some(CapabilityDeficitReason::Stale),
        IrSourceVerificationV2::Unavailable => Some(CapabilityDeficitReason::Unavailable),
        IrSourceVerificationV2::Unsupported => Some(CapabilityDeficitReason::Unsupported),
    };
    let confinement = match source.canonical_root_confinement {
        IrPathConfinementV2::Confined => None,
        IrPathConfinementV2::Unavailable => Some(CapabilityDeficitReason::Unavailable),
        IrPathConfinementV2::OutsideCanonicalRoot => Some(CapabilityDeficitReason::Unsupported),
        IrPathConfinementV2::SymlinkEscape => Some(CapabilityDeficitReason::Unsupported),
    };
    graver(verification, confinement)
}

fn judge_source(source: &IrSourceRefV2) -> (r: Option<CapabilityDeficitReason>)
    ensures
        r == source_cause(*source),
{
    let verification = match source.verification_status {
        IrSourceVerificationV2::Verified => {
            let current = match &source.observed_sha256 {
                Some(observed) => text_eq(observed.as_str(), source.whole_file_sha256.as_str()),
                None => false,
            };
            if source.revalidated_before_seal && current {
                None
            } else {
                Some(CapabilityDeficitReason::Stale)
            }
        },
        IrSourceVerificationV2::Stale => Some(CapabilityDeficitReason::Stale),
        IrSourceVerificationV2::Unavailable => Some(CapabilityDeficitReason::Unavailable),
        IrSourceVerificationV2::Unsupported => Some(CapabilityDeficitReason::Unsupported),
    };
    let confinement = match source.canonical_root_confinement {
        IrPathConfinementV2::Confined => None,
        IrPathConfinementV2::Unavailable => Some(CapabilityDeficitReason::Unavailable),
        IrPathConfinementV2::OutsideCanonicalRoot | IrPathConfinementV2::SymlinkEscape => Some(
            CapabilityDeficitReason::Unsupported,
        ),
    };
    preferred_deficit(verification, confinement)
}

/// The cause that a working-set item gives through its source, if it has one.
pub open spec fn item_source_cause(item: IrWorkingSetItemV2) -> Option<CapabilityDeficitReason> {
    match item.source {
        Some(source) => source_cause(source),
        None => None,
    }
}

/// The causes that the sources of a list of items give.
pub open spec fn source_causes(items: Seq<IrWorkingSetItemV2>) -> Seq<
    Option<CapabilityDeficitReason>,
> {
    Seq::new(items.len(), |i: int| item_source_cause(items[i]))
}

/// Some item has a source.
pub open spec fn any_source(items: Seq<IrWorkingSetItemV2>) -> bool {
    exists|i: int| 0 <= i < items.len() && (#[trigger] items[i]).source is Some
}

impl DeepContextIrV2 {
    /// A budget kept something out that might have carried source.
    pub open spec fn source_budget_omitted(self) -> bool {
        let counts = self.omissions.by_reason;
        counts.count(IrOmissionReasonV2::RecordBudget) is Some || counts.count(
            IrOmissionReasonV2::SourceByteBudget,
        ) is Some || counts.count(IrOmissionReasonV2::EstimatedTokenBudget) is Some
            || counts.count(IrOmissionReasonV2::WorkUnitBudget) is Some
    }

    /// Why exact source is not delivered: the document's own state, each selected
    /// source, and the absence of any.
    pub open spec fn exact_source_verdict(self) -> Option<CapabilityDeficitReason> {
        let absent = !any_source(self.working_set@);
        graver(
            graver(
                graver(
                    state_cause(self.status.exact_source),
                    gravest(source_causes(self.working_set@)),
                ),
                cause_if(absent, CapabilityDeficitReason::Unavailable),
            ),
            cause_if(
                absent && self.source_budget_omitted(),
                CapabilityDeficitReason::SemanticBudgetOmitted,
            ),
        )
    }
}

/// Why exact source is not delivered by a document.
pub fn exact_source_outcome(document: &DeepContextIrV2) -> (r: Option<CapabilityDeficitReason>)
    ensures
        r == document.exact_source_verdict(),
{
    let items = &document.working_set;
    let ghost causes = source_causes(items@);
    let mut found: Option<CapabilityDeficitReason> = None;
    let mut present = false;
    for i in 0..items.len()
        invariant
            items@ == document.working_set@,
            causes == source_causes(items@),
            found == gravest(causes.take(i as int)),
            present == exists|j: int| 0 <= j < i && (#[trigger] items@[j]).source is Some,
    {
        let cause = match &items[i].source {
            Some(source) => {
                present = true;
                assert(items@[i as int].source is Some);
                judge_source(source)
            },
            None => None,
        };
        proof {
            lemma_gravest_push(causes.take(i as int), causes[i as int]);
            assert(causes.take(i + 1) =~= causes.take(i as int).push(causes[i as int]));
        }
        found = preferred_deficit(found, cause);
    }
    assert(causes.take(items@.len() as int) =~= causes);
    let mut out = preferred_deficit(
        requirement_deficit(document.status.exact_source, None),
        found,
    );
    if !present {
        out = preferred_deficit(out, Some(CapabilityDeficitReason::Unavailable));
        let counts = &document.omissions.by_reason;
        if counts.get(IrOmissionReasonV2::RecordBudget).is_some() || counts.get(
            IrOmissionReasonV2::SourceByteBudget,
        ).is_some() || counts.get(IrOmissionReasonV2::EstimatedTokenBudget).is_some() || counts.get(
            IrOmissionReasonV2::WorkUnitBudget,
        ).is_some() {
            out = preferred_deficit(out, Some(CapabilityDeficitReason::SemanticBudgetOmitted));
        }
    }
    out
}

/// The cause that a relationship gives: of its resolution or of its evidence.
pub open spec fn relationship_cause(relationship: IrRelationship) -> Option<
    CapabilityDeficitReason,
> {
    let resolution = match relationship.resolution_state {
        ResolutionStatus::ResolvedSymbol => None,
        ResolutionStatus::ResolvedFile => None,
        ResolutionStatus::Stale => Some(CapabilityDeficitReason::Stale),
        ResolutionStatus::Ambiguous => Some(CapabilityDeficitReason::Ambiguous),
        ResolutionStatus::Unresolved => Some(CapabilityDeficitReason::Ambiguous),
        ResolutionStatus::Invalid => Some(CapabilityDeficitReason::Ambiguous),
        ResolutionStatus::External => Some(CapabilityDeficitReason::Ambiguous),
    };
    graver(resolution, quality_cause(relationship.evidence.state))
}

/// The causes that a list of relationships gives.
pub open spec fn relationship_causes(items: Seq<IrRelationship>) -> Seq<
    Option<CapabilityDeficitReason>,
> {
    Seq::new(items.len(), |i: int| relationship_cause(items[i]))
}

/// Why bounded relationships are not delivered by a document.
pub fn relationship_outcome(document: &DeepContextIrV2) -> (r: Option<CapabilityDeficitReason>)
    ensures
        r == document.relationship_verdict(),
{
    let items = &document.relationships;
    if items.len() == 0 {
        return Some(CapabilityDeficitReason::Unavailable);
    }
    let ghost causes = relationship_causes(items@);
    let mut found: Option<CapabilityDeficitReason> = None;
    for i in 0..items.len()
        invariant
            items@ == document.relationships@,
            causes == relationship_causes(items@),
            found == gravest(causes.take(i as int)),
    {
        let resolution = match items[i].resolution_state {
            ResolutionStatus::ResolvedSymbol | ResolutionStatus::ResolvedFile => None,
            ResolutionStatus::Stale => Some(CapabilityDeficitReason::Stale),
            ResolutionStatus::Ambiguous
            | ResolutionStatus::Unresolved
            | ResolutionStatus::Invalid
            | ResolutionStatus::External => Some(CapabilityDeficitReason::Ambiguous),
        };
        let cause = preferred_deficit(resolution, evidence_deficit(items[i].evidence.state));
        proof {
            lemma_gravest_push(causes.take(i as int), causes[i as int]);
            assert(causes.take(i + 1) =~= causes.take(i as int).push(causes[i as int]));
        }
        found = preferred_deficit(found, cause);
    }
    assert(causes.take(items@.len() as int) =~= causes);
    found
}

/// The causes that a list of effects gives.
pub open spec fn effect_causes(items: Seq<IrEffect>) -> Seq<Option<CapabilityDeficitReason>> {
    Seq::new(items.len(), |i: int| quality_cause(items[i].evidence.state))
}

/// Why the impact frontier is not delivered by a document.
pub fn effect_outcome(document: &DeepContextIrV2) -> (r: Option<CapabilityDeficitReason>)
    ensures
        r == document.effect_verdict(),
{
    let items = &document.effects;
    if items.len() == 0 {
        return Some(CapabilityDeficitReason::Unavailable);
    }
    let ghost causes = effect_causes(items@);
    let mut found: Option<CapabilityDeficitReason> = None;
    for i in 0..items.len()
        invariant
            items@ == document.effects@,
            causes == effect_causes(items@),
            found == gravest(causes.take(i as int)),
    {
        let cause = evidence_deficit(items[i].evidence.state);
        proof {
            lemma_gravest_push(causes.take(i as int), causes[i as int]);
            assert(causes.take(i + 1) =~= causes.take(i as int).push(causes[i as int]));
        }
        found = preferred_deficit(found, cause);
    }
    assert(causes.take(items@.len() as int) =~= causes);
    found
}

/// The causes that a list of coverage deficits gives.
pub open spec fn omission_causes(items: Seq<IrOmissionReasonV2>) -> Seq<
    Option<CapabilityDeficitReason>,
> {
    Seq::new(items.len(), |i: int| Some(omission_cause(items[i])))
}

impl DeepContextIrV2 {
    /// Why bounded relationships are not delivered.
    pub open spec fn relationship_verdict(self) -> Option<CapabilityDeficitReason> {
        if self.relationships@.len() == 0 {
            Some(CapabilityDeficitReason::Unavailable)
        } else {
            gravest(relationship_causes(self.relationships@))
        }
    }

    /// Why the impact frontier is not delivered.
    pub open spec fn effect_verdict(self) -> Option<CapabilityDeficitReason> {
        if self.effects@.len() == 0 {
            Some(CapabilityDeficitReason::Unavailable)
        } else {
            gravest(effect_causes(self.effects@))
        }
    }

    /// Why basic coverage is not delivered: the listed deficits, what is partial,
    /// failed or unsupported, and the lack of any complete claim.
    pub open spec fn coverage_verdict(self) -> Option<CapabilityDeficitReason> {
        let c = self.coverage;
        graver(
            graver(
                graver(
                    gravest(omission_causes(c.deficits@)),
                    cause_if(
                        c.partial > 0 || c.failed > 0,
                        CapabilityDeficitReason::Unavailable,
                    ),
                ),
                cause_if(c.unsupported > 0, CapabilityDeficitReason::Unsupported),
            ),
            cause_if(
                c.eligible == 0 || c.complete == 0 || c.claim_strength == ClaimStrength::NoClaim,
                CapabilityDeficitReason::Unavailable,
            ),
        )
    }

    /// Why a validation plan is not delivered: the document's own state, an empty
    /// plan, and the role of validation targets.
    pub open spec fn validation_verdict(self) -> Option<CapabilityDeficitReason> {
        graver(
            graver(
                state_cause(self.status.validation),
                cause_if(
                    self.validation_plan@.len() == 0,
                    CapabilityDeficitReason::Unavailable,
                ),
            ),
            self.role_verdict(ItemRole::ValidationTarget),
        )
    }

    /// The causes that the required roles give.
    pub open spec fn required_role_causes(self) -> Seq<Option<CapabilityDeficitReason>> {
        let entries = self.status.role_sufficiency@;
        Seq::new(
            entries.len(),
            |i: int|
                if entries[i].required {
                    self.role_verdict(entries[i].role)
                } else {
                    None
                },
        )
    }

    /// Some role is required.
    pub open spec fn any_required_role(self) -> bool {
        exists|i: int|
            0 <= i < self.status.role_sufficiency@.len()
                && (#[trigger] self.status.role_sufficiency@[i]).required
    }

    /// Why the required roles are not closed: each of them, the lack of any, exact
    /// source and the validation plan.
    pub open spec fn role_closure_verdict(self) -> Option<CapabilityDeficitReason> {
        graver(
            graver(
                graver(
                    gravest(self.required_role_causes()),
                    cause_if(!self.any_required_role(), CapabilityDeficitReason::Unavailable),
                ),
                self.exact_source_verdict(),
            ),
            self.validation_verdict(),
        )
    }
}

/// Why basic coverage is not delivered by a document.
pub fn coverage_outcome(document: &DeepContextIrV2) -> (r: Option<CapabilityDeficitReason>)
    ensures
        r == document.coverage_verdict(),
{
    let items = &document.coverage.deficits;
    let ghost causes = omission_causes(items@);
    let mut found: Option<CapabilityDeficitReason> = None;
    for i in 0..items.len()
        invariant
            items@ == document.coverage.deficits@,
            causes == omission_causes(items@),
            found == gravest(causes.take(i as int)),
    {
        let cause = Some(omission_deficit(items[i]));
        proof {
            lemma_gravest_push(causes.take(i as int), causes[i as int]);
            assert(causes.take(i + 1) =~= causes.take(i as int).push(causes[i as int]));
        }
        found = preferred_deficit(found, cause);
    }
    assert(causes.take(items@.len() as int) =~= causes);
    let c = &document.coverage;
    if c.partial > 0 || c.failed > 0 {
        found = preferred_deficit(found, Some(CapabilityDeficitReason::Unavailable));
    }
    if c.unsupported > 0 {
        found = preferred_deficit(found, Some(CapabilityDeficitReason::Unsupported));
    }
    if c.eligible == 0 || c.complete == 0 || c.claim_strength == ClaimStrength::NoClaim {
        found = preferred_deficit(found, Some(CapabilityDeficitReason::Unavailable));
    }
    found
}

/// Why a validation plan is not delivered by a document.
pub fn validation_outcome(document: &DeepContextIrV2) -> (r: Option<CapabilityDeficitReason>)
    ensures
        r == document.validation_verdict(),
{
    let mut found = requirement_deficit(document.status.validation, None);
    if document.validation_plan.len() == 0 {
        found = preferred_deficit(found, Some(CapabilityDeficitReason::Unavailable));
    }
    preferred_deficit(found, role_capability_outcome(document, ItemRole::ValidationTarget))
}

/// Why the required roles are not closed by a document.
pub fn required_role_closure_outcome(document: &DeepContextIrV2) -> (r: Option<
    CapabilityDeficitReason,
>)
    ensures
        r == document.role_closure_verdict(),
{
    let entries = &document.status.role_sufficiency;
    let ghost causes = document.required_role_causes();
    let mut found: Option<CapabilityDeficitReason> = None;
    let mut any = false;
    for i in 0..entries.len()
        invariant
            entries@ == document.status.role_sufficiency@,
            causes == document.required_role_causes(),
            found == gravest(causes.take(i as int)),
            any == exists|j: int|
                0 <= j < i && (#[trigger] document.status.role_sufficiency@[j]).required,
    {
        let cause = if entries[i].required {
            any = true;
            assert(document.status.role_sufficiency@[i as int].required);
            role_capability_outcome(document, entries[i].role)
        } else {
            None
        };
        proof {
            lemma_gravest_push(causes.take(i as int), causes[i as int]);
            assert(causes.take(i + 1) =~= causes.take(i as int).push(causes[i as int]));
        }
        found = preferred_deficit(found, cause);
    }
    assert(causes.take(entries@.len() as int) =~= causes);
    if !any {
        found = preferred_deficit(found, Some(CapabilityDeficitReason::Unavailable));
    }
    found = preferred_deficit(found, exact_source_outcome(document));
    preferred_deficit(found, validation_outcome(document))
}

impl CapabilityJudge for DeepContextIrV2 {
    open spec fn verdict(&self, capability: RequiredCapability) -> Option<
        CapabilityDeficitReason,
    > {
        match capability {
            RequiredCapability::IdentityLookup => self.role_verdict(
                ItemRole::PrimaryImplementation,
            ),
            RequiredCapability::ExactSource => self.exact_source_verdict(),
            RequiredCapability::BoundedRelationships => self.relationship_verdict(),
            RequiredCapability::ImpactFrontier => self.effect_verdict(),
            RequiredCapability::BasicCoverageConflicts => self.coverage_verdict(),
            RequiredCapability::TemporalHistory => self.role_verdict(
                ItemRole::HistoricalConstraint,
            ),
            RequiredCapability::RequiredRoleClosure => self.role_closure_verdict(),
            RequiredCapability::ValidationPlan => self.validation_verdict(),
        }
    }

    fn judge(&self, capability: RequiredCapability) -> (r: Option<CapabilityDeficitReason>) {
        match capability {
            RequiredCapability::IdentityLookup => role_capability_outcome(
                self,
                ItemRole::PrimaryImplementation,
            ),
            RequiredCapability::ExactSource => exact_source_outcome(self),
            RequiredCapability::BoundedRelationships => relationship_outcome(self),
            RequiredCapability::ImpactFrontier => effect_outcome(self),
            RequiredCapability::BasicCoverageConflicts => coverage_outcome(self),
            RequiredCapability::TemporalHistory => role_capability_outcome(
                self,
                ItemRole::HistoricalConstraint,
            ),
            RequiredCapability::RequiredRoleClosure => required_role_closure_outcome(self),
            RequiredCapability::ValidationPlan => validation_outcome(self),
        }
    }
}

/// Refuses more targets than the semantic budget allows records or work for.
pub fn check_deep_targets(
    path_targets: usize,
    symbol_targets: usize,
    budget: &DeepSemanticBudget,
) -> (r: Result<(), AtlasError>)
    ensures
        if path_targets + symbol_targets > usize::MAX {
            error::refused_as_invalid(r, "V2 target count overflow"@)
        } else if path_targets + symbol_targets > budget.max_records || path_targets
            + symbol_targets > budget.max_work_units {
            error::refused_as_invalid(r, "V2 targets exceed their explicit semantic work bounds"@)
        } else {
            r is Ok
        },
{
    let targets: usize = match path_targets.checked_add(symbol_targets) {
        Some(sum) => sum,
        None => return Err(AtlasError::InvalidConfig("V2 target count overflow".to_string())),
    };
    if targets as u64 > budget.max_records || targets as u64 > budget.max_work_units {
        return Err(
            AtlasError::InvalidConfig(
                "V2 targets exceed their explicit semantic work bounds".to_string(),
            ),
        );
    }
    Ok(())
}

/// The work that a document accounts for, as one Atlas call.
pub open spec fn deep_counters(document: DeepContextIrV2) -> ContextExecutionCounters {
    ContextExecutionCounters {
        atlas_calls: 1,
        records: document.cost.selected_records,
        source_bytes: document.cost.selected_source_bytes,
        estimated_tokens: document.cost.selected_estimated_tokens,
        work_units: document.cost.work_units_consumed,
    }
}

/// What a deep attempt delivers: all that was requested, or part of it with the
/// deficits. Materialized source goes with a result of some use only.
pub open spec fn deep_route_view(
    requested: CapabilityMap,
    document: DeepContextIrV2,
    payload: PayloadView,
    materialization: Option<MaterializationView>,
) -> OutcomeView {
    let satisfied = met(requested.listed(), &document);
    let deficits = unmet(requested.listed(), &document);
    let diagnostics = if document.omissions.truncated {
        seq![ContextDiagnosticCode::EvidenceOmitted]
    } else {
        Seq::empty()
    };
    if deficits.len() == 0 {
        OutcomeView::Completed {
            payload,
            counters: deep_counters(document),
            diagnostics,
            materialization,
        }
    } else {
        OutcomeView::Deficient {
            payload: Some(payload),
            satisfied,
            deficits,
            counters: deep_counters(document),
            diagnostics,
            materialization: if satisfied.len() > 0 {
                materialization
            } else {
                None
            },
        }
    }
}

/// What a deep attempt delivers of the requested capabilities.
pub fn deep_route_outcome(
    requested: &CapabilityMap,
    document: &DeepContextIrV2,
    payload: ContextPayload,
    materialization: Option<ExplicitMaterialization>,
) -> (r: RouteAttemptOutcome)
    ensures
        r@ == deep_route_view(
            *requested,
            *document,
            payload@,
            context_execution::opt_materialization(materialization),
        ),
{
    let (satisfied, deficits) = account_for(requested, document);
    let counters = ContextExecutionCounters {
        atlas_calls: 1,
        records: document.cost.selected_records,
        source_bytes: document.cost.selected_source_bytes,
        estimated_tokens: document.cost.selected_estimated_tokens,
        work_units: document.cost.work_units_consumed,
    };
    let mut diagnostics: Vec<ContextDiagnosticCode> = Vec::new();
    if document.omissions.truncated {
        diagnostics.push(ContextDiagnosticCode::EvidenceOmitted);
    }
    proof {
        assert(diagnostics@ =~= (if document.omissions.truncated {
            seq![ContextDiagnosticCode::EvidenceOmitted]
        } else {
            Seq::empty()
        }));
    }
    if deficits.len() == 0 {
        RouteAttemptOutcome::Completed { payload, counters, diagnostics, materialization }
    } else {
        let kept = if satisfied.len() > 0 {
            materialization
        } else {
            None
        };
        RouteAttemptOutcome::Deficient {
            payload: Some(payload),
            satisfied_capabilities: satisfied,
            deficits,
            counters,
            diagnostics,
            materialization: kept,
        }
    }
}

/// What a deep attempt delivers of the requested capabilities with a sealed document:
/// the payload refers to that document, by its version and its hash. A document at
/// fault is refused.
pub fn deep_document_outcome(
    requested: &CapabilityMap,
    document: &DeepContextIrV2,
    recipe: &RoleRecipe,
    materialization: Option<ExplicitMaterialization>,
) -> (r: Result<RouteAttemptOutcome, AtlasError>)
    ensures
        match document.fault(*recipe) {
            Some(message) => error::refused_as_invalid(r, message),
            None => r is Ok && r->Ok_0@ == deep_route_view(
                *requested,
                *document,
                PayloadView::DeepContextIr {
                    context_ir_version: CONTEXT_SCHEMA_V2_VERSION@,
                    context_hash: document.context_hash@,
                },
                context_execution::opt_materialization(materialization),
            ),
        },
{
    match deep_context_payload(document, recipe) {
        Ok(payload) => Ok(deep_route_outcome(requested, document, payload, materialization)),
        Err(problem) => Err(problem),
    }
}

/// Refuses to run the DEEP route under other contracts than the pinned ones.
pub fn check_deep_contracts(contracts: &DeepContractVersions) -> (r: Result<
    (),
    ContextRouteError,
>)
    ensures
        if contracts@ == context_route::pinned_deep_contracts() {
            r is Ok
        } else {
            r matches Err(e) && e is InvalidExecution
        },
{
    match contracts.validate() {
        Ok(()) => Ok(()),
        Err(_) => Err(ContextRouteError::InvalidExecution),
    }
}

} // verus!
