//! What an accepted DEEP document says, said of its own fields.
use vstd::prelude::*;

use crate::context_ir::{ContextIr, EvidenceQuality, IrEvidence, ItemRole, WorkingSetStatus};
use crate::context_ir_json;
use crate::deep_context_ir;
use crate::deep_context_ir::{
    DeepContextIrV2, IrOmissionReasonV2, IrPathConfinementV2, IrRequirementStateV2,
    IrRoleSufficiencyV2, IrSourceRefV2, IrSourceVerificationV2, IrTemporalStateV2,
    IrWorkingSetItemV2, RoleRecipe,
};
use crate::deep_context_ir_json;
use crate::error::AtlasError;
use crate::json_tree;
use crate::json_tree::JsonTree;
use crate::sorted;
use crate::text;

verus! {

/// The file was read again before the document was sealed, inside the workspace, and
/// held what was indexed.
pub open spec fn proved_current(source: IrSourceRefV2) -> bool {
    &&& source.verification_status == IrSourceVerificationV2::Verified
    &&& source.observed_sha256 is Some
    &&& source.observed_sha256->0@ == source.whole_file_sha256@
    &&& source.canonical_root_confinement == IrPathConfinementV2::Confined
    &&& source.revalidated_before_seal
}

/// The evidence is neither missing, stale, conflicting nor a guess.
pub open spec fn reliable(state: EvidenceQuality) -> bool {
    match state {
        EvidenceQuality::Verified | EvidenceQuality::Supported | EvidenceQuality::Resolved => true,
        _ => false,
    }
}

proof fn lemma_items_are_sound(
    items: Seq<IrWorkingSetItemV2>,
    from: int,
    index: int,
    generation_id: Seq<char>,
    max_depth: u32,
)
    requires
        0 <= from <= index < items.len(),
        deep_context_ir::items_fault(items, from, generation_id, max_depth) is None,
    ensures
        deep_context_ir::item_fault(items, index, generation_id, max_depth) is None,
    decreases index - from,
{
    if from < index {
        lemma_items_are_sound(items, from + 1, index, generation_id, max_depth);
    }
}

/// Every item of an accepted document has its own name and its place, lies within the
/// depth of the budget and belongs to the generation of the document.
pub proof fn law_items_have_their_place(document: DeepContextIrV2, recipe: RoleRecipe)
    requires
        document.fault(recipe) is None,
    ensures
        forall|i: int|
            #![trigger document.working_set@[i]]
            0 <= i < document.working_set@.len() ==> {
                let item = document.working_set@[i];
                &&& item.item_id@.len() > 0
                &&& item.entity_id@.len() > 0
                &&& item.rank == i
                &&& item.distance <= document.policy.semantic_budget.max_relationship_depth
                &&& item.evidence.generation_id@ == document.workspace.generation_id@
            },
        forall|i: int, j: int|
            0 <= i < j < document.working_set@.len() ==> (
            #[trigger] document.working_set@[i]).item_id@ != (
            #[trigger] document.working_set@[j]).item_id@,
{
    let items = document.working_set@;
    let depth = document.policy.semantic_budget.max_relationship_depth;
    assert forall|i: int| 0 <= i < items.len() implies deep_context_ir::item_fault(
        items,
        i,
        document.generation(),
        depth,
    ) is None by {
        lemma_items_are_sound(items, 0, i, document.generation(), depth);
    }
    assert forall|i: int, j: int| 0 <= i < j < items.len() implies (
    #[trigger] items[i]).item_id@ != (#[trigger] items[j]).item_id@ by {
        assert(deep_context_ir::item_fault(items, j, document.generation(), depth) is None);
        assert(!deep_context_ir::repeats_earlier(items, j));
    }
    assert forall|i: int|
        #![trigger document.working_set@[i]]
        0 <= i < document.working_set@.len() implies {
        let item = document.working_set@[i];
        &&& item.item_id@.len() > 0
        &&& item.entity_id@.len() > 0
        &&& item.rank == i
        &&& item.distance <= document.policy.semantic_budget.max_relationship_depth
        &&& item.evidence.generation_id@ == document.workspace.generation_id@
    } by {
        assert(deep_context_ir::item_fault(items, i, document.generation(), depth) is None);
    }
}

/// What an accepted document says of a file is what was seen of it: it costs the bytes
/// it covers, a verified file held what was indexed, a stale one did not, and an item
/// without a source costs no source bytes.
pub proof fn law_sources_are_what_was_seen(
    document: DeepContextIrV2,
    recipe: RoleRecipe,
    index: int,
)
    requires
        document.fault(recipe) is None,
        0 <= index < document.working_set@.len(),
    ensures
        ({
            let item = document.working_set@[index];
            match item.source {
                None => item.cost.source_bytes == 0,
                Some(source) => {
                    &&& source.canonical_path@.len() > 0
                    &&& item.cost.source_bytes > 0
                    &&& source.start_byte + item.cost.source_bytes == source.end_byte
                    &&& source.verification_status == IrSourceVerificationV2::Verified
                        ==> proved_current(source)
                    &&& source.verification_status == IrSourceVerificationV2::Stale
                        ==> source.observed_sha256 is Some && source.observed_sha256->0@
                        != source.whole_file_sha256@
                    &&& source.verification_status == IrSourceVerificationV2::Unsupported
                        <==> !source.revalidated_before_seal
                },
            }
        }),
{
    lemma_items_are_sound(
        document.working_set@,
        0,
        index,
        document.generation(),
        document.policy.semantic_budget.max_relationship_depth,
    );
}

/// Every section of an accepted document speaks of the same generation, and its
/// evidence has a confidence between nothing and certainty.
pub proof fn law_documents_speak_of_one_generation(document: DeepContextIrV2, recipe: RoleRecipe)
    requires
        document.fault(recipe) is None,
    ensures
        document.workspace.generation_id@.len() > 0,
        document.temporal_constraints.current_generation_id@ == document.workspace.generation_id@,
        document.evidence_lease.generation_id@ == document.workspace.generation_id@,
        forall|i: int|
            0 <= i < document.relationships@.len() ==> (
            #[trigger] document.relationships@[i]).evidence.generation_id@
                == document.workspace.generation_id@,
        forall|i: int|
            0 <= i < document.effects@.len() ==> (
            #[trigger] document.effects@[i]).evidence.generation_id@
                == document.workspace.generation_id@,
{
}

/// The first entry for a role, where one stands at all.
proof fn lemma_entry_found(
    entries: Seq<IrRoleSufficiencyV2>,
    role: ItemRole,
    from: int,
) -> (at: int)
    requires
        0 <= from <= entries.len(),
    ensures
        match deep_context_ir::entry_from(entries, role, from) {
            Some(entry) => from <= at < entries.len() && entry == entries[at] && entries[at].role
                == role && forall|i: int| from <= i < at ==> (#[trigger] entries[i]).role != role,
            None => forall|i: int|
                from <= i < entries.len() ==> (#[trigger] entries[i]).role != role,
        },
    decreases entries.len() - from,
{
    if from == entries.len() || entries[from].role == role {
        from
    } else {
        lemma_entry_found(entries, role, from + 1)
    }
}

/// The item an entry refers to by one of its identifiers is in the working set, plays
/// the entry's role, and is reliable where the role counts as satisfied.
pub proof fn law_entries_refer_to_their_items(
    document: DeepContextIrV2,
    recipe: RoleRecipe,
    entry: int,
    k: int,
) -> (at: int)
    requires
        document.fault(recipe) is None,
        0 <= entry < document.status.role_sufficiency@.len(),
        0 <= k < document.status.role_sufficiency@[entry].evidence_item_ids@.len(),
    ensures
        0 <= at < document.working_set@.len(),
        document.working_set@[at].item_id@
            == document.status.role_sufficiency@[entry].evidence_item_ids@[k]@,
        document.working_set@[at].role == document.status.role_sufficiency@[entry].role,
        document.status.role_sufficiency@[entry].state == IrRequirementStateV2::Satisfied
            ==> reliable(document.working_set@[at].evidence.state),
{
    let e = document.status.role_sufficiency@[entry];
    let id = e.evidence_item_ids@[k]@;
    let items = document.working_set@;
    assert(deep_context_ir::entry_backed(e, items));
    assert(deep_context_ir::has_item_in_role(items, id, e.role));
    let at = choose|i: int|
        0 <= i < items.len() && (#[trigger] items[i]).item_id@ == id && items[i].role == e.role;
    if e.state == IrRequirementStateV2::Satisfied {
        assert(deep_context_ir::has_qualified_item(items, id));
        let other = choose|i: int|
            0 <= i < items.len() && (#[trigger] items[i]).item_id@ == id
                && deep_context_ir::qualified(items[i].evidence.state);
        law_items_have_their_place(document, recipe);
        assert(at == other);
    }
    at
}

/// A role counts as satisfied only on evidence, and only without a reason; one that
/// does not is given the reason of its state.
pub proof fn law_roles_say_why(document: DeepContextIrV2, recipe: RoleRecipe, entry: int)
    requires
        document.fault(recipe) is None,
        0 <= entry < document.status.role_sufficiency@.len(),
    ensures
        ({
            let e = document.status.role_sufficiency@[entry];
            &&& e.state == IrRequirementStateV2::Satisfied ==> e.evidence_item_ids@.len() > 0
            &&& e.state == IrRequirementStateV2::Satisfied <==> e.reason is None
            &&& e.state == IrRequirementStateV2::Missing <==> e.reason == Some(
                IrOmissionReasonV2::MissingRequiredRole,
            )
            &&& e.state == IrRequirementStateV2::Unresolved <==> e.reason == Some(
                IrOmissionReasonV2::UnresolvedEvidence,
            )
            &&& e.state == IrRequirementStateV2::Unsupported <==> e.reason == Some(
                IrOmissionReasonV2::UnsupportedEvidence,
            )
            &&& e.state == IrRequirementStateV2::Conflicting <==> e.reason == Some(
                IrOmissionReasonV2::ConflictingEvidence,
            )
            &&& e.state == IrRequirementStateV2::Stale <==> (e.reason == Some(
                IrOmissionReasonV2::StaleEvidence,
            ) || e.reason == Some(IrOmissionReasonV2::SourceVerificationFailed))
            &&& e.state == IrRequirementStateV2::Unavailable <==> (e.reason == Some(
                IrOmissionReasonV2::UnavailableEvidence,
            ) || e.reason == Some(IrOmissionReasonV2::TemporalEvidenceUnavailable) || e.reason
                == Some(IrOmissionReasonV2::ValidationTargetUnavailable))
            &&& e.reason != Some(IrOmissionReasonV2::AmbiguousSeed)
            &&& e.reason != Some(IrOmissionReasonV2::FtsCandidateLimit)
        }),
{
    assert(deep_context_ir::entry_backed(
        document.status.role_sufficiency@[entry],
        document.working_set@,
    ));
}

/// The role matrix of an accepted document is the recipe's, role by role.
pub proof fn law_roles_are_those_of_the_recipe(document: DeepContextIrV2, recipe: RoleRecipe)
    requires
        document.fault(recipe) is None,
    ensures
        document.status.role_sufficiency@.len() == recipe.role_matrix@.len(),
        forall|i: int|
            0 <= i < recipe.role_matrix@.len() ==> (
            #[trigger] document.status.role_sufficiency@[i]).role == recipe.role_matrix@[i].0
                && document.status.role_sufficiency@[i].required == recipe.role_matrix@[i].1,
{
}

/// A ledger of the document lists the reason: its omissions, its coverage or its
/// notices.
pub open spec fn lists_reason(document: DeepContextIrV2, reason: IrOmissionReasonV2) -> bool {
    ||| document.omissions.by_reason.count(reason) is Some
    ||| exists|i: int|
        0 <= i < document.coverage.deficits@.len() && #[trigger] document.coverage.deficits@[i]
            == reason
    ||| exists|i: int|
        0 <= i < document.uncertainty@.len() && (#[trigger] document.uncertainty@[i]).code
            == reason
}

/// A complete document satisfies every required role, reports no reason, lists no
/// missing role, unverified source or unavailable validation target anywhere, and
/// every file in it was seen to be current.
pub proof fn law_complete_documents_miss_nothing(document: DeepContextIrV2, recipe: RoleRecipe)
    requires
        document.fault(recipe) is None,
        document.status.working_set_status == WorkingSetStatus::Complete,
    ensures
        forall|i: int|
            0 <= i < recipe.role_matrix@.len() && (#[trigger] recipe.role_matrix@[i]).1
                ==> document.status.role_sufficiency@[i].state == IrRequirementStateV2::Satisfied,
        recipe.requires_exact_source ==> document.status.exact_source
            == IrRequirementStateV2::Satisfied,
        recipe.requires_validation ==> document.status.validation
            == IrRequirementStateV2::Satisfied,
        document.status.reasons@.len() == 0,
        !lists_reason(document, IrOmissionReasonV2::MissingRequiredRole),
        !lists_reason(document, IrOmissionReasonV2::SourceVerificationFailed),
        !lists_reason(document, IrOmissionReasonV2::ValidationTargetUnavailable),
        recipe.required_roles@.contains(ItemRole::HistoricalConstraint) ==> !lists_reason(
            document,
            IrOmissionReasonV2::TemporalEvidenceUnavailable,
        ),
        forall|i: int|
            0 <= i < document.working_set@.len() && (
            #[trigger] document.working_set@[i]).source is Some ==> proved_current(
                document.working_set@[i].source->0,
            ),
{
    assert forall|i: int|
        0 <= i < recipe.role_matrix@.len() && (#[trigger] recipe.role_matrix@[i]).1 implies
        document.status.role_sufficiency@[i].state == IrRequirementStateV2::Satisfied by {
        assert(document.status.role_sufficiency@[i].required);
    }
    assert forall|i: int|
        0 <= i < document.working_set@.len() && (
        #[trigger] document.working_set@[i]).source is Some implies proved_current(
        document.working_set@[i].source->0,
    ) by {
        law_sources_are_what_was_seen(document, recipe, i);
    }
    lemma_unlisted(document, recipe, IrOmissionReasonV2::MissingRequiredRole);
    lemma_unlisted(document, recipe, IrOmissionReasonV2::SourceVerificationFailed);
    lemma_unlisted(document, recipe, IrOmissionReasonV2::ValidationTargetUnavailable);
    if recipe.required_roles@.contains(ItemRole::HistoricalConstraint) {
        lemma_unlisted(document, recipe, IrOmissionReasonV2::TemporalEvidenceUnavailable);
    }
}

proof fn lemma_unlisted(document: DeepContextIrV2, recipe: RoleRecipe, reason: IrOmissionReasonV2)
    requires
        document.no_required_deficits(recipe),
        deep_context_ir::required_deficit(reason, recipe),
    ensures
        !lists_reason(document, reason),
{
    let codes = deep_context_ir::notice_codes(document.uncertainty@);
    assert forall|i: int| 0 <= i < document.uncertainty@.len() implies (
    #[trigger] document.uncertainty@[i]).code != reason by {
        assert(codes[i] == document.uncertainty@[i].code);
        assert(!deep_context_ir::required_deficit(codes[i], recipe));
    }
}

/// The exact source counts as delivered exactly if an item that the primary
/// implementation refers to has a file that was seen to be current.
pub proof fn law_exact_source_is_claimed_when_it_is_there(
    document: DeepContextIrV2,
    recipe: RoleRecipe,
    entry: int,
)
    requires
        document.fault(recipe) is None,
        0 <= entry < document.status.role_sufficiency@.len(),
        document.status.role_sufficiency@[entry].role == ItemRole::PrimaryImplementation,
        forall|i: int|
            0 <= i < entry ==> (#[trigger] document.status.role_sufficiency@[i]).role
                != ItemRole::PrimaryImplementation,
    ensures
        document.status.exact_source == IrRequirementStateV2::Satisfied <==> exists|
            k: int,
            i: int,
        |
            0 <= k < document.status.role_sufficiency@[entry].evidence_item_ids@.len() && 0 <= i
                < document.working_set@.len() && (#[trigger] document.working_set@[i]).item_id@ == (
            #[trigger] document.status.role_sufficiency@[entry].evidence_item_ids@[k])@
                && document.working_set@[i].source is Some && proved_current(
                document.working_set@[i].source->0,
            ),
{
    let entries = document.status.role_sufficiency@;
    let at = lemma_entry_found(entries, ItemRole::PrimaryImplementation, 0);
    assert(entries[entry].role == ItemRole::PrimaryImplementation);
    assert(at == entry);
    let ids = entries[entry].evidence_item_ids@;
    let items = document.working_set@;
    if document.status.exact_source == IrRequirementStateV2::Satisfied {
        assert(document.exact_source_witnessed());
        let k = choose|k: int|
            0 <= k < ids.len() && deep_context_ir::has_item_with_source(
                items,
                (#[trigger] ids[k])@,
            );
        let i = choose|i: int|
            0 <= i < items.len() && (#[trigger] items[i]).item_id@ == ids[k]@
                && items[i].source is Some && deep_context_ir::source_current(items[i].source->0);
        law_sources_are_what_was_seen(document, recipe, i);
        assert(items[i].item_id@ == ids[k]@);
    }
    if exists|k: int, i: int|
        0 <= k < ids.len() && 0 <= i < items.len() && (#[trigger] items[i]).item_id@ == (
        #[trigger] ids[k])@ && items[i].source is Some && proved_current(items[i].source->0) {
        let (k, i) = choose|k: int, i: int|
            0 <= k < ids.len() && 0 <= i < items.len() && (#[trigger] items[i]).item_id@ == (
            #[trigger] ids[k])@ && items[i].source is Some && proved_current(items[i].source->0);
        assert(deep_context_ir::has_item_with_source(items, ids[k]@));
        assert(document.exact_source_witnessed());
    }
}

/// Validation counts as delivered exactly if the plan demands the validation of an
/// entity that an item of the validation role stands for.
pub proof fn law_validation_is_claimed_when_it_is_planned(
    document: DeepContextIrV2,
    recipe: RoleRecipe,
    entry: int,
)
    requires
        document.fault(recipe) is None,
        0 <= entry < document.status.role_sufficiency@.len(),
        document.status.role_sufficiency@[entry].role == ItemRole::ValidationTarget,
        forall|i: int|
            0 <= i < entry ==> (#[trigger] document.status.role_sufficiency@[i]).role
                != ItemRole::ValidationTarget,
    ensures
        document.status.validation == IrRequirementStateV2::Satisfied <==> exists|
            v: int,
            k: int,
            i: int,
        |
            0 <= v < document.validation_plan@.len() && 0 <= k
                < document.status.role_sufficiency@[entry].evidence_item_ids@.len() && 0 <= i
                < document.working_set@.len() && (#[trigger] document.validation_plan@[v]).required
                && (#[trigger] document.working_set@[i]).item_id@ == (
            #[trigger] document.status.role_sufficiency@[entry].evidence_item_ids@[k])@
                && document.working_set@[i].entity_id@
                == document.validation_plan@[v].target_entity_id@,
{
    let entries = document.status.role_sufficiency@;
    let at = lemma_entry_found(entries, ItemRole::ValidationTarget, 0);
    assert(entries[entry].role == ItemRole::ValidationTarget);
    assert(at == entry);
    let ids = entries[entry].evidence_item_ids@;
    let items = document.working_set@;
    let plan = document.validation_plan@;
    if document.status.validation == IrRequirementStateV2::Satisfied {
        assert(document.validation_witnessed());
        let v = choose|v: int|
            0 <= v < plan.len() && (#[trigger] plan[v]).required && plan[v].target_entity_id@.len()
                > 0 && deep_context_ir::some_item_for(items, ids, plan[v].target_entity_id@);
        let k = choose|k: int|
            0 <= k < ids.len() && deep_context_ir::has_item_for(
                items,
                (#[trigger] ids[k])@,
                plan[v].target_entity_id@,
            );
        let i = choose|i: int|
            0 <= i < items.len() && (#[trigger] items[i]).item_id@ == ids[k]@
                && items[i].entity_id@ == plan[v].target_entity_id@;
        assert(plan[v].required && items[i].item_id@ == ids[k]@);
    }
    if exists|v: int, k: int, i: int|
        0 <= v < plan.len() && 0 <= k < ids.len() && 0 <= i < items.len() && (
        #[trigger] plan[v]).required && (#[trigger] items[i]).item_id@ == (#[trigger] ids[k])@
            && items[i].entity_id@ == plan[v].target_entity_id@ {
        let (v, k, i) = choose|v: int, k: int, i: int|
            0 <= v < plan.len() && 0 <= k < ids.len() && 0 <= i < items.len() && (
            #[trigger] plan[v]).required && (#[trigger] items[i]).item_id@ == (#[trigger] ids[k])@
                && items[i].entity_id@ == plan[v].target_entity_id@;
        law_items_have_their_place(document, recipe);
        assert(items[i].entity_id@.len() > 0);
        assert(deep_context_ir::has_item_for(items, ids[k]@, plan[v].target_entity_id@));
        assert(deep_context_ir::some_item_for(items, ids, plan[v].target_entity_id@));
        assert(document.validation_witnessed());
    }
}

/// Work on the primary implementation is possible exactly where a document is not
/// blocked: its role is satisfied, and its exact source where the recipe asks for it.
pub proof fn law_only_blocked_documents_have_no_primary(
    document: DeepContextIrV2,
    recipe: RoleRecipe,
    entry: int,
)
    requires
        document.fault(recipe) is None,
        0 <= entry < document.status.role_sufficiency@.len(),
        document.status.role_sufficiency@[entry].role == ItemRole::PrimaryImplementation,
        forall|i: int|
            0 <= i < entry ==> (#[trigger] document.status.role_sufficiency@[i]).role
                != ItemRole::PrimaryImplementation,
        document.status.role_sufficiency@[entry].required,
    ensures
        document.status.working_set_status == WorkingSetStatus::Blocked <==> !(
        document.status.role_sufficiency@[entry].state == IrRequirementStateV2::Satisfied && (
        recipe.requires_exact_source ==> document.status.exact_source
            == IrRequirementStateV2::Satisfied)),
        document.status.working_set_status == WorkingSetStatus::Complete
            <==> document.status.reasons@.len() == 0,
{
    let at = lemma_entry_found(
        document.status.role_sufficiency@,
        ItemRole::PrimaryImplementation,
        0,
    );
    assert(document.status.role_sufficiency@[entry].role == ItemRole::PrimaryImplementation);
    assert(at == entry);
}

/// Where a document is not complete, each required role that is not satisfied has its
/// reason among the reasons, and so have the exact source and the validation.
pub proof fn law_what_is_missing_is_reported(
    document: DeepContextIrV2,
    recipe: RoleRecipe,
    entry: int,
)
    requires
        document.fault(recipe) is None,
        document.status.working_set_status != WorkingSetStatus::Complete,
        0 <= entry < document.status.role_sufficiency@.len(),
    ensures
        ({
            let e = document.status.role_sufficiency@[entry];
            let reasons = document.status.reasons@;
            &&& e.required && e.state != IrRequirementStateV2::Satisfied ==> e.reason is Some
                && reasons.contains(e.reason->0)
            &&& recipe.requires_exact_source && document.status.exact_source
                != IrRequirementStateV2::Satisfied ==> reasons.contains(
                IrOmissionReasonV2::SourceVerificationFailed,
            )
            &&& recipe.requires_validation && document.status.validation
                != IrRequirementStateV2::Satisfied ==> reasons.contains(
                IrOmissionReasonV2::ValidationTargetUnavailable,
            )
        }),
{
}

/// The share of records kept for what is uncertain is the least number of records that
/// is no less than the percentage of the limit.
pub proof fn law_reserve_is_rounded_up(max_records: u64, percent: u32)
    ensures
        100 * deep_context_ir::reserve(max_records, percent) >= max_records * percent,
        100 * (deep_context_ir::reserve(max_records, percent) - 1) < max_records * percent,
{
    let n = max_records as int * percent as int;
    assert(n == max_records * percent);
}

/// The entry refers to the item of that name.
pub open spec fn refers_to(entry: IrRoleSufficiencyV2, id: Seq<char>) -> bool {
    exists|n: int|
        0 <= n < entry.evidence_item_ids@.len() && (#[trigger] entry.evidence_item_ids@[n])@ == id
}

/// The history counts as delivered only on a verified ancestor with a baseline, and on
/// items that the historical role refers to.
pub proof fn law_history_is_claimed_on_a_verified_ancestor(
    document: DeepContextIrV2,
    recipe: RoleRecipe,
    entry: int,
)
    requires
        document.fault(recipe) is None,
        0 <= entry < document.status.role_sufficiency@.len(),
        document.status.role_sufficiency@[entry].role == ItemRole::HistoricalConstraint,
        forall|i: int|
            0 <= i < entry ==> (#[trigger] document.status.role_sufficiency@[i]).role
                != ItemRole::HistoricalConstraint,
        document.status.role_sufficiency@[entry].state == IrRequirementStateV2::Satisfied,
    ensures
        ({
            let t = document.temporal_constraints;
            &&& t.state == IrTemporalStateV2::VerifiedAncestor
            &&& t.baseline_generation_id is Some
            &&& t.omission_reason is None
            &&& t.evidence_item_ids@.len() > 0
            &&& forall|k: int|
                0 <= k < t.evidence_item_ids@.len() ==> refers_to(
                    document.status.role_sufficiency@[entry],
                    (#[trigger] t.evidence_item_ids@[k])@,
                )
        }),
{
    let entries = document.status.role_sufficiency@;
    let at = lemma_entry_found(entries, ItemRole::HistoricalConstraint, 0);
    assert(entries[entry].role == ItemRole::HistoricalConstraint);
    assert(at == entry);
    let t = document.temporal_constraints.evidence_item_ids@;
    let ids = entries[entry].evidence_item_ids@;
    assert(document.history_witnessed());
    assert forall|k: int| 0 <= k < t.len() implies refers_to(
        entries[entry],
        (#[trigger] t[k])@,
    ) by {
        assert(text::texts(ids).contains(t[k]@));
        let n = choose|n: int| 0 <= n < text::texts(ids).len() && text::texts(ids)[n] == t[k]@;
        assert(ids[n]@ == t[k]@);
    }
}

/// The effects count as delivered only if an effect on reliable evidence has for its
/// subject what an item of the effect role stands for.
pub proof fn law_effects_are_claimed_on_an_effect(
    document: DeepContextIrV2,
    recipe: RoleRecipe,
    entry: int,
)
    requires
        document.fault(recipe) is None,
        0 <= entry < document.status.role_sufficiency@.len(),
        document.status.role_sufficiency@[entry].role == ItemRole::Effect,
        forall|i: int|
            0 <= i < entry ==> (#[trigger] document.status.role_sufficiency@[i]).role
                != ItemRole::Effect,
        document.status.role_sufficiency@[entry].state == IrRequirementStateV2::Satisfied,
    ensures
        exists|e: int, k: int, i: int|
            0 <= e < document.effects@.len() && 0 <= k
                < document.status.role_sufficiency@[entry].evidence_item_ids@.len() && 0 <= i
                < document.working_set@.len() && reliable(
                (#[trigger] document.effects@[e]).evidence.state,
            ) && (#[trigger] document.working_set@[i]).item_id@ == (
            #[trigger] document.status.role_sufficiency@[entry].evidence_item_ids@[k])@
                && document.working_set@[i].entity_id@ == document.effects@[e].subject_entity_id@,
{
    let entries = document.status.role_sufficiency@;
    let at = lemma_entry_found(entries, ItemRole::Effect, 0);
    assert(entries[entry].role == ItemRole::Effect);
    assert(at == entry);
    let ids = entries[entry].evidence_item_ids@;
    let items = document.working_set@;
    let effects = document.effects@;
    assert(document.effect_witnessed());
    let e = choose|e: int|
        0 <= e < effects.len() && deep_context_ir::qualified((#[trigger] effects[e]).evidence.state)
            && deep_context_ir::some_item_for(items, ids, effects[e].subject_entity_id@);
    let k = choose|k: int|
        0 <= k < ids.len() && deep_context_ir::has_item_for(
            items,
            (#[trigger] ids[k])@,
            effects[e].subject_entity_id@,
        );
    let i = choose|i: int|
        0 <= i < items.len() && (#[trigger] items[i]).item_id@ == ids[k]@ && items[i].entity_id@
            == effects[e].subject_entity_id@;
    assert(reliable(effects[e].evidence.state) && items[i].item_id@ == ids[k]@);
}

/// One item more costs its own bytes and tokens more, wherever it stands among the
/// others; and nothing costs nothing.
pub proof fn law_costs_are_those_of_the_items(
    before: Seq<IrWorkingSetItemV2>,
    item: IrWorkingSetItemV2,
    behind: Seq<IrWorkingSetItemV2>,
)
    ensures
        deep_context_ir::source_byte_sum(before + seq![item] + behind)
            == deep_context_ir::source_byte_sum(before + behind) + item.cost.source_bytes,
        deep_context_ir::token_sum(before + seq![item] + behind) == deep_context_ir::token_sum(
            before + behind,
        ) + item.cost.estimated_tokens,
        deep_context_ir::uncertainty_count(before + seq![item] + behind)
            == deep_context_ir::uncertainty_count(before + behind) + (if item.role
            == ItemRole::Uncertainty {
            1int
        } else {
            0int
        }),
        deep_context_ir::source_byte_sum(Seq::empty()) == 0,
        deep_context_ir::token_sum(Seq::empty()) == 0,
        deep_context_ir::uncertainty_count(Seq::empty()) == 0,
    decreases behind.len(),
{
    let with = before + seq![item] + behind;
    let without = before + behind;
    if behind.len() == 0 {
        assert(with.drop_last() =~= before);
        assert(without =~= before);
    } else {
        law_costs_are_those_of_the_items(before, item, behind.drop_last());
        assert(with.drop_last() =~= before + seq![item] + behind.drop_last());
        assert(without.drop_last() =~= before + behind.drop_last());
    }
}

proof fn lemma_max_distance(items: Seq<IrWorkingSetItemV2>)
    ensures
        deep_context_ir::max_distance(items) >= 0,
        forall|i: int|
            0 <= i < items.len() ==> (#[trigger] items[i]).distance
                <= deep_context_ir::max_distance(items),
        items.len() > 0 ==> exists|i: int|
            0 <= i < items.len() && (#[trigger] items[i]).distance
                == deep_context_ir::max_distance(items),
    decreases items.len(),
{
    if items.len() > 0 {
        let rest = items.drop_last();
        lemma_max_distance(rest);
        assert forall|i: int| 0 <= i < items.len() implies (#[trigger] items[i]).distance
            <= deep_context_ir::max_distance(items) by {
            if i < rest.len() {
                assert(rest[i] == items[i]);
            }
        }
        if items.last().distance as int == deep_context_ir::max_distance(items) {
            assert(items[items.len() - 1].distance == deep_context_ir::max_distance(items));
        } else {
            assert(rest.len() > 0);
            let i = choose|i: int|
                0 <= i < rest.len() && (#[trigger] rest[i]).distance
                    == deep_context_ir::max_distance(rest);
            assert(items[i].distance == deep_context_ir::max_distance(items));
        }
    }
}

/// What an accepted document costs is what its items cost; it reaches as far as its
/// farthest item, and stays within each limit of its budget.
pub proof fn law_cost_is_what_was_selected(document: DeepContextIrV2, recipe: RoleRecipe)
    requires
        document.fault(recipe) is None,
    ensures
        ({
            let budget = document.policy.semantic_budget;
            let items = document.working_set@;
            let cost = document.cost;
            &&& cost.selected_records == items.len() <= budget.max_records
            &&& cost.selected_source_bytes == deep_context_ir::source_byte_sum(items)
                <= budget.max_source_bytes
            &&& cost.selected_estimated_tokens == deep_context_ir::token_sum(items)
                <= budget.max_estimated_tokens
            &&& cost.uncertainty_records_selected == deep_context_ir::uncertainty_count(items)
                <= cost.uncertainty_records_reserved
            &&& forall|i: int|
                0 <= i < items.len() ==> (#[trigger] items[i]).distance
                    <= cost.relationship_depth_reached
            &&& items.len() > 0 ==> exists|i: int|
                0 <= i < items.len() && (#[trigger] items[i]).distance
                    == cost.relationship_depth_reached
            &&& items.len() == 0 ==> cost.relationship_depth_reached == 0
            &&& cost.relationship_depth_reached <= budget.max_relationship_depth
            &&& cost.work_units_consumed <= budget.max_work_units
            &&& 100 * cost.uncertainty_records_reserved >= budget.max_records
                * budget.uncertainty_reserve_percent
            &&& 100 * (cost.uncertainty_records_reserved - 1) < budget.max_records
                * budget.uncertainty_reserve_percent
            &&& items.len() - cost.uncertainty_records_selected + cost.uncertainty_records_reserved
                <= budget.max_records
        }),
{
    let budget = document.policy.semantic_budget;
    lemma_max_distance(document.working_set@);
    law_reserve_is_rounded_up(budget.max_records, budget.uncertainty_reserve_percent);
}

/// The candidates of an accepted document were selected or left out, each left out for
/// a counted reason; each that was weighed cost work; and files are covered in one way
/// each.
pub proof fn law_candidates_are_accounted_for(document: DeepContextIrV2, recipe: RoleRecipe)
    requires
        document.fault(recipe) is None,
    ensures
        ({
            let o = document.omissions;
            let c = document.coverage;
            &&& o.selected == document.working_set@.len()
            &&& o.candidates_considered == document.working_set@.len() + o.omitted
            &&& o.truncated <==> o.omitted > 0
            &&& o.by_reason.total() == o.omitted
            &&& forall|reason: IrOmissionReasonV2|
                #[trigger] o.by_reason.count(reason) is Some ==> o.by_reason.count(reason)->0 > 0
            &&& o.by_reason.count(IrOmissionReasonV2::WorkUnitBudget) is None
                ==> document.cost.work_units_consumed >= o.candidates_considered
            &&& o.by_reason.count(IrOmissionReasonV2::WorkUnitBudget) matches Some(skipped)
                ==> document.cost.work_units_consumed + skipped >= o.candidates_considered
            &&& o.by_reason.count(IrOmissionReasonV2::RecordBudget) is Some
                ==> document.working_set@.len() - document.cost.uncertainty_records_selected
                + document.cost.uncertainty_records_reserved
                == document.policy.semantic_budget.max_records
            &&& o.by_reason.count(IrOmissionReasonV2::UncertaintyReserve) is Some
                ==> document.cost.uncertainty_records_selected
                == document.cost.uncertainty_records_reserved
            &&& c.eligible == c.complete + c.partial + c.unsupported + c.excluded + c.failed
        }),
{
    let o = document.omissions;
    assert forall|reason: IrOmissionReasonV2|
        #[trigger] o.by_reason.count(reason) is Some implies o.by_reason.count(reason)->0 > 0 by {
        assert(o.by_reason.counts@[reason.spec_rank()] != Some(0u64));
    }
}

/// The item is named, ranked and bound to the generation, no earlier one has its name,
/// and what it says of a file was seen.
pub open spec fn sound_item(document: DeepContextIrV2, i: int) -> bool {
    let item = document.working_set@[i];
    &&& item.item_id@.len() > 0
    &&& item.entity_id@.len() > 0
    &&& item.rank == i
    &&& item.distance <= document.policy.semantic_budget.max_relationship_depth
    &&& (forall|j: int|
        0 <= j < i ==> (#[trigger] document.working_set@[j]).item_id@ != item.item_id@)
    &&& deep_context_ir::evidence_valid(item.evidence, document.workspace.generation_id@)
    &&& match item.source {
        None => item.cost.source_bytes == 0,
        Some(source) => {
            &&& source.canonical_path@.len() > 0
            &&& item.cost.source_bytes > 0
            &&& source.start_byte + item.cost.source_bytes == source.end_byte
            &&& text::hex64(source.whole_file_sha256@)
            &&& (source.observed_sha256 is Some ==> text::hex64(source.observed_sha256->0@))
            &&& match source.verification_status {
                IrSourceVerificationV2::Verified => proved_current(source),
                IrSourceVerificationV2::Stale => source.observed_sha256 is Some
                    && source.observed_sha256->0@ != source.whole_file_sha256@
                    && source.canonical_root_confinement == IrPathConfinementV2::Confined
                    && source.revalidated_before_seal,
                IrSourceVerificationV2::Unavailable => source.revalidated_before_seal,
                IrSourceVerificationV2::Unsupported => !source.revalidated_before_seal,
            }
        },
    }
}

/// Items are accepted exactly if each of them is sound.
pub proof fn law_sound_items_are_accepted(document: DeepContextIrV2)
    ensures
        deep_context_ir::items_fault(
            document.working_set@,
            0,
            document.workspace.generation_id@,
            document.policy.semantic_budget.max_relationship_depth,
        ) is None <==> (forall|i: int|
            0 <= i < document.working_set@.len() ==> #[trigger] sound_item(document, i)),
{
    lemma_sound_items(document, 0);
}

proof fn lemma_sound_item(document: DeepContextIrV2, i: int)
    requires
        0 <= i < document.working_set@.len(),
    ensures
        deep_context_ir::item_fault(
            document.working_set@,
            i,
            document.workspace.generation_id@,
            document.policy.semantic_budget.max_relationship_depth,
        ) is None <==> sound_item(document, i),
{
    let items = document.working_set@;
    if deep_context_ir::repeats_earlier(items, i) {
        let j = choose|j: int| 0 <= j < i && (#[trigger] items[j]).item_id@ == items[i].item_id@;
        assert(items[j].item_id@ == items[i].item_id@);
    }
}

proof fn lemma_sound_items(document: DeepContextIrV2, from: int)
    requires
        0 <= from <= document.working_set@.len(),
    ensures
        deep_context_ir::items_fault(
            document.working_set@,
            from,
            document.workspace.generation_id@,
            document.policy.semantic_budget.max_relationship_depth,
        ) is None <==> (forall|i: int|
            from <= i < document.working_set@.len() ==> #[trigger] sound_item(document, i)),
    decreases document.working_set@.len() - from,
{
    if from < document.working_set@.len() {
        lemma_sound_item(document, from);
        lemma_sound_items(document, from + 1);
    }
}

/// Evidence is accepted exactly if it belongs to the generation, its confidence is a
/// number from nothing to one, and its digests are digests.
pub proof fn law_evidence_is_accepted_in_its_generation(
    evidence: IrEvidence,
    generation_id: Seq<char>,
)
    ensures
        deep_context_ir::evidence_valid(evidence, generation_id) <==> {
            &&& evidence.generation_id@ == generation_id
            &&& (evidence.confidence.bits <= 0x3ff0_0000_0000_0000u64 || evidence.confidence.bits
                == 0x8000_0000_0000_0000u64)
            &&& (evidence.provider_fingerprint is Some ==> text::hex64(
                evidence.provider_fingerprint->0@,
            ))
            &&& (evidence.source_revision_hash is Some ==> text::hex64(
                evidence.source_revision_hash->0@,
            ))
        },
{
}

/// A role that refers to reliable items of its own, and gives no reason, counts as
/// satisfied.
pub proof fn law_backed_roles_are_accepted(
    entry: IrRoleSufficiencyV2,
    items: Seq<IrWorkingSetItemV2>,
    places: Seq<int>,
)
    requires
        entry.state == IrRequirementStateV2::Satisfied,
        entry.reason is None,
        entry.evidence_item_ids@.len() > 0,
        places.len() == entry.evidence_item_ids@.len(),
        forall|k: int|
            0 <= k < places.len() ==> 0 <= #[trigger] places[k] < items.len()
                && items[places[k]].item_id@ == entry.evidence_item_ids@[k]@
                && items[places[k]].role == entry.role && reliable(items[places[k]].evidence.state),
    ensures
        deep_context_ir::entry_backed(entry, items),
{
    let ids = entry.evidence_item_ids@;
    assert forall|k: int| 0 <= k < ids.len() implies deep_context_ir::has_item_in_role(
        items,
        (#[trigger] ids[k])@,
        entry.role,
    ) by {
        assert(items[places[k]].item_id@ == ids[k]@);
    }
    assert forall|k: int| 0 <= k < ids.len() implies deep_context_ir::has_qualified_item(
        items,
        (#[trigger] ids[k])@,
    ) by {
        assert(items[places[k]].item_id@ == ids[k]@);
    }
}

/// A document in which every required role is satisfied, that gives no reason and lists
/// no required deficit may call itself complete.
pub proof fn law_sufficient_documents_may_be_complete(document: DeepContextIrV2, recipe: RoleRecipe)
    requires
        document.status.working_set_status == WorkingSetStatus::Complete,
        forall|i: int|
            0 <= i < document.status.role_sufficiency@.len() && (
            #[trigger] document.status.role_sufficiency@[i]).required
                ==> document.status.role_sufficiency@[i].state == IrRequirementStateV2::Satisfied,
        recipe.requires_exact_source ==> document.status.exact_source
            == IrRequirementStateV2::Satisfied,
        recipe.requires_validation ==> document.status.validation
            == IrRequirementStateV2::Satisfied,
        document.status.reasons@.len() == 0,
        forall|reason: IrOmissionReasonV2| #[trigger]
            lists_reason(document, reason) ==> reason != IrOmissionReasonV2::MissingRequiredRole
                && reason != IrOmissionReasonV2::SourceVerificationFailed && reason
                != IrOmissionReasonV2::ValidationTargetUnavailable && (reason
                == IrOmissionReasonV2::TemporalEvidenceUnavailable
                ==> !recipe.required_roles@.contains(ItemRole::HistoricalConstraint)),
    ensures
        document.status_valid(recipe),
{
    let codes = deep_context_ir::notice_codes(document.uncertainty@);
    assert forall|reason: IrOmissionReasonV2| #[trigger]
        document.omissions.by_reason.count(reason) is Some implies
        !deep_context_ir::required_deficit(reason, recipe) by {
        assert(lists_reason(document, reason));
    }
    assert forall|i: int| 0 <= i < document.coverage.deficits@.len() implies
        !deep_context_ir::required_deficit(
        #[trigger] document.coverage.deficits@[i],
        recipe,
    ) by {
        assert(lists_reason(document, document.coverage.deficits@[i]));
    }
    assert forall|i: int| 0 <= i < codes.len() implies !deep_context_ir::required_deficit(
        #[trigger] codes[i],
        recipe,
    ) by {
        assert(document.uncertainty@[i].code == codes[i]);
        assert(lists_reason(document, codes[i]));
    }
}

/// Texts are accepted as listed exactly if each sorts before those behind it.
pub proof fn law_lists_are_sorted_throughout(s: Seq<String>)
    ensures
        deep_context_ir::texts_ascending(s) <==> (forall|i: int, j: int|
            0 <= i < j < s.len() ==> text::text_lt((#[trigger] s[i])@, (#[trigger] s[j])@)),
{
    let v = sorted::views::<String>(s);
    assert forall|i: int| 0 <= i < s.len() implies v[i] == (#[trigger] s[i])@ by {}
    if deep_context_ir::texts_ascending(s) {
        assert forall|i: int, j: int| 0 <= i < j < s.len() implies text::text_lt(
            (#[trigger] s[i])@,
            (#[trigger] s[j])@,
        ) by {
            assert(v[i] == s[i]@ && v[j] == s[j]@);
        }
    }
}

/// Every section takes part in the identity of a DEEP document: documents with the same
/// identity agree in each of them.
pub proof fn law_every_section_of_a_deep_document_is_hashed(a: DeepContextIrV2, b: DeepContextIrV2)
    requires
        a.identity_tree() == b.identity_tree(),
    ensures
        a.schema_version@ == b.schema_version@,
        a.workspace.tree() == b.workspace.tree(),
        a.task.identity_tree() == b.task.identity_tree(),
        a.policy.tree() == b.policy.tree(),
        a.status.tree() == b.status.tree(),
        deep_context_ir_json::working_set_item_v2_trees(a.working_set@)
            == deep_context_ir_json::working_set_item_v2_trees(b.working_set@),
        context_ir_json::relationship_trees(a.relationships@)
            == context_ir_json::relationship_trees(b.relationships@),
        context_ir_json::effect_trees(a.effects@) == context_ir_json::effect_trees(b.effects@),
        a.temporal_constraints.tree() == b.temporal_constraints.tree(),
        deep_context_ir_json::notice_v2_trees(a.uncertainty@)
            == deep_context_ir_json::notice_v2_trees(b.uncertainty@),
        a.coverage.tree() == b.coverage.tree(),
        a.omissions.tree() == b.omissions.tree(),
        deep_context_ir_json::validation_v2_trees(a.validation_plan@)
            == deep_context_ir_json::validation_v2_trees(b.validation_plan@),
        a.evidence_lease.tree() == b.evidence_lease.tree(),
        a.cost.tree() == b.cost.tree(),
{
    let fa = a.identity_tree()->Record_0;
    let fb = b.identity_tree()->Record_0;
    assert(fa[0].1
        == JsonTree::Text(a.schema_version@)
        && fb[0].1
        == JsonTree::Text(b.schema_version@));
    assert(fa[1].1 == a.workspace.tree() && fb[1].1 == b.workspace.tree());
    assert(fa[2].1 == a.task.identity_tree() && fb[2].1 == b.task.identity_tree());
    assert(fa[3].1 == a.policy.tree() && fb[3].1 == b.policy.tree());
    assert(fa[4].1 == a.status.tree() && fb[4].1 == b.status.tree());
    assert(fa[5].1
        == JsonTree::List(deep_context_ir_json::working_set_item_v2_trees(a.working_set@))
        && fb[5].1
        == JsonTree::List(deep_context_ir_json::working_set_item_v2_trees(b.working_set@)));
    assert(fa[6].1
        == JsonTree::List(context_ir_json::relationship_trees(a.relationships@))
        && fb[6].1
        == JsonTree::List(context_ir_json::relationship_trees(b.relationships@)));
    assert(fa[7].1
        == JsonTree::List(context_ir_json::effect_trees(a.effects@))
        && fb[7].1
        == JsonTree::List(context_ir_json::effect_trees(b.effects@)));
    assert(fa[8].1 == a.temporal_constraints.tree() && fb[8].1 == b.temporal_constraints.tree());
    assert(fa[9].1
        == JsonTree::List(deep_context_ir_json::notice_v2_trees(a.uncertainty@))
        && fb[9].1
        == JsonTree::List(deep_context_ir_json::notice_v2_trees(b.uncertainty@)));
    assert(fa[10].1 == a.coverage.tree() && fb[10].1 == b.coverage.tree());
    assert(fa[11].1 == a.omissions.tree() && fb[11].1 == b.omissions.tree());
    assert(fa[12].1
        == JsonTree::List(deep_context_ir_json::validation_v2_trees(a.validation_plan@))
        && fb[12].1
        == JsonTree::List(deep_context_ir_json::validation_v2_trees(b.validation_plan@)));
    assert(fa[13].1 == a.evidence_lease.tree() && fb[13].1 == b.evidence_lease.tree());
    assert(fa[14].1 == a.cost.tree() && fb[14].1 == b.cost.tree());
}


/// Every section takes part in the identity of a document of the first version, its own
/// name among them.
pub proof fn law_every_section_of_a_document_is_hashed(a: ContextIr, b: ContextIr)
    requires
        a.identity_tree() == b.identity_tree(),
    ensures
        a.schema_version@ == b.schema_version@,
        a.context_id@ == b.context_id@,
        a.workspace.tree() == b.workspace.tree(),
        a.task.tree() == b.task.tree(),
        a.policy.tree() == b.policy.tree(),
        a.status.tree() == b.status.tree(),
        context_ir_json::working_set_item_trees(a.working_set@)
            == context_ir_json::working_set_item_trees(b.working_set@),
        context_ir_json::relationship_trees(a.relationships@)
            == context_ir_json::relationship_trees(b.relationships@),
        context_ir_json::effect_trees(a.effects@) == context_ir_json::effect_trees(b.effects@),
        context_ir_json::notice_trees(a.uncertainty@)
            == context_ir_json::notice_trees(b.uncertainty@),
        a.coverage.tree() == b.coverage.tree(),
        a.omissions.tree() == b.omissions.tree(),
        context_ir_json::validation_trees(a.validation_plan@)
            == context_ir_json::validation_trees(b.validation_plan@),
        a.cost.tree() == b.cost.tree(),
{
    let fa = a.identity_tree()->Record_0;
    let fb = b.identity_tree()->Record_0;
    assert(fa[0].1
        == JsonTree::Text(a.schema_version@)
        && fb[0].1
        == JsonTree::Text(b.schema_version@));
    assert(fa[1].1 == JsonTree::Text(a.context_id@) && fb[1].1 == JsonTree::Text(b.context_id@));
    assert(fa[2].1 == a.workspace.tree() && fb[2].1 == b.workspace.tree());
    assert(fa[3].1 == a.task.tree() && fb[3].1 == b.task.tree());
    assert(fa[4].1 == a.policy.tree() && fb[4].1 == b.policy.tree());
    assert(fa[5].1 == a.status.tree() && fb[5].1 == b.status.tree());
    assert(fa[6].1
        == JsonTree::List(context_ir_json::working_set_item_trees(a.working_set@))
        && fb[6].1
        == JsonTree::List(context_ir_json::working_set_item_trees(b.working_set@)));
    assert(fa[7].1
        == JsonTree::List(context_ir_json::relationship_trees(a.relationships@))
        && fb[7].1
        == JsonTree::List(context_ir_json::relationship_trees(b.relationships@)));
    assert(fa[8].1
        == JsonTree::List(context_ir_json::effect_trees(a.effects@))
        && fb[8].1
        == JsonTree::List(context_ir_json::effect_trees(b.effects@)));
    assert(fa[9].1
        == JsonTree::List(context_ir_json::notice_trees(a.uncertainty@))
        && fb[9].1
        == JsonTree::List(context_ir_json::notice_trees(b.uncertainty@)));
    assert(fa[10].1 == a.coverage.tree() && fb[10].1 == b.coverage.tree());
    assert(fa[11].1 == a.omissions.tree() && fb[11].1 == b.omissions.tree());
    assert(fa[12].1
        == JsonTree::List(context_ir_json::validation_trees(a.validation_plan@))
        && fb[12].1
        == JsonTree::List(context_ir_json::validation_trees(b.validation_plan@)));
    assert(fa[13].1 == a.cost.tree() && fb[13].1 == b.cost.tree());
}


/// Items that are written the same have the same names and origin, stand on the same
/// evidence and cost the same.
pub proof fn law_items_are_written_with_their_evidence(a: IrWorkingSetItemV2, b: IrWorkingSetItemV2)
    requires
        a.tree() == b.tree(),
    ensures
        a.item_id@ == b.item_id@,
        a.entity_id@ == b.entity_id@,
        text::opt_text(a.origin_id) == text::opt_text(b.origin_id),
        a.evidence.tree() == b.evidence.tree(),
        a.cost.tree() == b.cost.tree(),
{
    let fa = a.tree()->Record_0;
    let fb = b.tree()->Record_0;
    assert(fa[0].1 == JsonTree::Text(a.item_id@) && fb[0].1 == JsonTree::Text(b.item_id@));
    assert(fa[2].1 == JsonTree::Text(a.entity_id@) && fb[2].1 == JsonTree::Text(b.entity_id@));
    assert(fa[5].1 == json_tree::opt_text_tree(text::opt_text(a.origin_id)) && fb[5].1
        == json_tree::opt_text_tree(text::opt_text(b.origin_id)));
    assert(fa[8].1 == a.evidence.tree() && fb[8].1 == b.evidence.tree());
    assert(fa[9].1 == a.cost.tree() && fb[9].1 == b.cost.tree());
}

/// The task, the workspace and the generation take part in the identity; the session does
/// not.
pub proof fn law_the_task_is_hashed_without_its_session(a: DeepContextIrV2, b: DeepContextIrV2)
    requires
        a.identity_tree() == b.identity_tree(),
    ensures
        a.task.task_hash@ == b.task.task_hash@,
        a.task.normalized_goal_hash@ == b.task.normalized_goal_hash@,
        a.workspace.workspace_id@ == b.workspace.workspace_id@,
        a.workspace.generation_id@ == b.workspace.generation_id@,
        a.workspace.configuration_hash@ == b.workspace.configuration_hash@,
        a.workspace.provider_set_hash@ == b.workspace.provider_set_hash@,
{
    law_every_section_of_a_deep_document_is_hashed(a, b);
    let ta = a.task.identity_tree()->Record_0;
    let tb = b.task.identity_tree()->Record_0;
    assert(ta[0].1 == JsonTree::Text(a.task.task_hash@) && tb[0].1 == JsonTree::Text(
        b.task.task_hash@,
    ));
    assert(ta[1].1 == JsonTree::Text(a.task.normalized_goal_hash@) && tb[1].1 == JsonTree::Text(
        b.task.normalized_goal_hash@,
    ));
    let wa = a.workspace.tree()->Record_0;
    let wb = b.workspace.tree()->Record_0;
    assert(wa[0].1 == JsonTree::Text(a.workspace.workspace_id@) && wb[0].1 == JsonTree::Text(
        b.workspace.workspace_id@,
    ));
    assert(wa[1].1 == JsonTree::Text(a.workspace.generation_id@) && wb[1].1 == JsonTree::Text(
        b.workspace.generation_id@,
    ));
    assert(wa[4].1 == JsonTree::Text(a.workspace.configuration_hash@) && wb[4].1
        == JsonTree::Text(b.workspace.configuration_hash@));
    assert(wa[5].1 == JsonTree::Text(a.workspace.provider_set_hash@) && wb[5].1 == JsonTree::Text(
        b.workspace.provider_set_hash@,
    ));
}

/// A sealed document is accepted and is the one that was to be sealed, but for the two
/// digests that sealing fills in.
pub proof fn law_sealing_fills_in_the_digests(
    document: DeepContextIrV2,
    recipe: &RoleRecipe,
    r: Result<DeepContextIrV2, AtlasError>,
)
    requires
        call_ensures(DeepContextIrV2::seal, (document, recipe), r),
        r is Ok,
    ensures
        r->Ok_0.fault(*recipe) is None,
        r->Ok_0.context_id == document.context_id,
        r->Ok_0.workspace == document.workspace,
        r->Ok_0.task == document.task,
        r->Ok_0.status == document.status,
        r->Ok_0.working_set == document.working_set,
        r->Ok_0.relationships == document.relationships,
        r->Ok_0.effects == document.effects,
        r->Ok_0.uncertainty == document.uncertainty,
        r->Ok_0.coverage == document.coverage,
        r->Ok_0.omissions == document.omissions,
        r->Ok_0.validation_plan == document.validation_plan,
        r->Ok_0.cost == document.cost,
        r->Ok_0.policy.semantic_budget.max_records == document.policy.semantic_budget.max_records,
        r->Ok_0.context_hash@ == r->Ok_0.identity_hash(),
{
}

} // verus!
