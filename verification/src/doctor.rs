//! The health of a catalogue, and the status of a workspace.
use vstd::prelude::*;

use crate::catalogue_route::{required_workspace, WorkspaceRecord};
use crate::error::AtlasError;
use crate::text;
use crate::text::{append_decimal, append_signed, clone_texts, join_texts, text_eq};

verus! {

// ---------------------------------------------------------------------------
// Status
// ---------------------------------------------------------------------------

/// How many generations of a workspace are in each state.
#[derive(Debug, Clone, Copy, PartialEq, Eq)]
pub struct GenerationCounts {
    pub candidate: i64,
    pub committed: i64,
    pub failed: i64,
    pub abandoned: i64,
}

/// The count of a state; zero where no row names it, and the last one where several
/// do.
pub open spec fn count_of(rows: Seq<(String, i64)>, state: Seq<char>) -> i64
    decreases rows.len(),
{
    if rows.len() == 0 {
        0
    } else if rows.last().0@ == state {
        rows.last().1
    } else {
        count_of(rows.drop_last(), state)
    }
}

/// Counts the generations of a workspace, given the number in each state.
pub fn generation_counts(rows: &Vec<(String, i64)>) -> (r: GenerationCounts)
    ensures
        r.candidate == count_of(rows@, "candidate"@),
        r.committed == count_of(rows@, "committed"@),
        r.failed == count_of(rows@, "failed"@),
        r.abandoned == count_of(rows@, "abandoned"@),
{
    let mut out = GenerationCounts { candidate: 0, committed: 0, failed: 0, abandoned: 0 };
    proof {
        reveal_strlit("candidate");
        reveal_strlit("committed");
        reveal_strlit("failed");
        reveal_strlit("abandoned");
        assert("candidate"@[1] == 'a' && "committed"@[1] == 'o' && "failed"@[0] == 'f'
            && "abandoned"@[0] == 'a' && "candidate"@[0] == 'c' && "committed"@[0] == 'c');
    }
    for i in 0..rows.len()
        invariant
            out.candidate == count_of(rows@.take(i as int), "candidate"@),
            out.committed == count_of(rows@.take(i as int), "committed"@),
            out.failed == count_of(rows@.take(i as int), "failed"@),
            out.abandoned == count_of(rows@.take(i as int), "abandoned"@),
            "candidate"@ != "committed"@,
            "candidate"@ != "failed"@,
            "candidate"@ != "abandoned"@,
            "committed"@ != "failed"@,
            "committed"@ != "abandoned"@,
            "failed"@ != "abandoned"@,
    {
        let state = rows[i].0.as_str();
        let count: i64 = rows[i].1;
        assert(rows@.take(i + 1).drop_last() =~= rows@.take(i as int));
        if text_eq(state, "candidate") {
            out.candidate = count;
        } else if text_eq(state, "committed") {
            out.committed = count;
        } else if text_eq(state, "failed") {
            out.failed = count;
        } else if text_eq(state, "abandoned") {
            out.abandoned = count;
        }
    }
    assert(rows@.take(rows@.len() as int) =~= rows@);
    out
}

/// The active generation of a workspace.
#[derive(Debug)]
pub struct ActiveGeneration {
    pub generation_id: String,
    pub sequence_no: i64,
    pub state: String,
}

/// Who holds the right to write.
#[derive(Debug)]
pub struct LeaseSummary {
    pub holder_id: String,
    pub expires_at: String,
}

/// What the catalogue holds for the status of a workspace.
#[derive(Debug)]
pub struct StatusFacts {
    pub active: Option<ActiveGeneration>,
    pub migration_version: Option<i64>,
    pub generation_rows: Vec<(String, i64)>,
    pub integrity_ok: bool,
    pub lease: Option<LeaseSummary>,
    pub schema_version: String,
    pub effective_config_hash: Option<String>,
}

#[derive(Debug)]
pub struct StatusOutput {
    pub ok: bool,
    pub workspace_id: String,
    pub canonical_root: String,
    pub config_hash: String,
    pub registered_config_hash: String,
    pub effective_config_hash: Option<String>,
    pub schema_version: String,
    pub migration_version: i64,
    pub active_generation_id: Option<String>,
    pub active_generation_sequence: Option<i64>,
    pub active_generation_state: Option<String>,
    pub committed_generation_count: i64,
    pub failed_generation_count: i64,
    pub abandoned_generation_count: i64,
    pub candidate_generation_count: i64,
    pub integrity_ok: bool,
    pub writer_lease_holder: Option<String>,
    pub writer_lease_expires_at: Option<String>,
}

/// The status of a workspace whose catalogue holds these facts.
pub open spec fn status_of(out: StatusOutput, ws: WorkspaceRecord, facts: StatusFacts) -> bool {
    &&& out.ok
    &&& out.workspace_id@ == ws.workspace_id@
    &&& out.canonical_root@ == ws.canonical_root@
    &&& out.config_hash@ == ws.configuration_hash@
    &&& out.registered_config_hash@ == ws.configuration_hash@
    &&& out.effective_config_hash == facts.effective_config_hash
    &&& out.schema_version == facts.schema_version
    &&& out.migration_version == (match facts.migration_version {
        Some(version) => version,
        None => 0,
    })
    &&& out.committed_generation_count == count_of(facts.generation_rows@, "committed"@)
    &&& out.failed_generation_count == count_of(facts.generation_rows@, "failed"@)
    &&& out.abandoned_generation_count == count_of(facts.generation_rows@, "abandoned"@)
    &&& out.candidate_generation_count == count_of(facts.generation_rows@, "candidate"@)
    &&& out.integrity_ok == facts.integrity_ok
    &&& match facts.active {
        Some(active) => out.active_generation_id == Some(active.generation_id)
            && out.active_generation_sequence == Some(active.sequence_no)
            && out.active_generation_state == Some(active.state),
        None => out.active_generation_id is None && out.active_generation_sequence is None
            && out.active_generation_state is None,
    }
    &&& match facts.lease {
        Some(lease) => out.writer_lease_holder == Some(lease.holder_id)
            && out.writer_lease_expires_at == Some(lease.expires_at),
        None => out.writer_lease_holder is None && out.writer_lease_expires_at is None,
    }
}

/// The status of a workspace.
pub fn status_output_for(ws: &WorkspaceRecord, facts: StatusFacts) -> (r: StatusOutput)
    ensures
        status_of(r, *ws, facts),
{
    let counts = generation_counts(&facts.generation_rows);
    let migration_version: i64 = match facts.migration_version {
        Some(version) => version,
        None => 0,
    };
    let (active_generation_id, active_generation_sequence, active_generation_state) =
        match facts.active {
        Some(active) => (Some(active.generation_id), Some(active.sequence_no), Some(active.state)),
        None => (None, None, None),
    };
    let (writer_lease_holder, writer_lease_expires_at) = match facts.lease {
        Some(lease) => (Some(lease.holder_id), Some(lease.expires_at)),
        None => (None, None),
    };
    StatusOutput {
        ok: true,
        workspace_id: ws.workspace_id.clone(),
        canonical_root: ws.canonical_root.clone(),
        config_hash: ws.configuration_hash.clone(),
        registered_config_hash: ws.configuration_hash.clone(),
        effective_config_hash: facts.effective_config_hash,
        schema_version: facts.schema_version,
        migration_version,
        active_generation_id,
        active_generation_sequence,
        active_generation_state,
        committed_generation_count: counts.committed,
        failed_generation_count: counts.failed,
        abandoned_generation_count: counts.abandoned,
        candidate_generation_count: counts.candidate,
        integrity_ok: facts.integrity_ok,
        writer_lease_holder,
        writer_lease_expires_at,
    }
}

/// The status of the workspace of a root, which must be registered.
pub fn build_status_output(workspace: Option<WorkspaceRecord>, facts: StatusFacts) -> (r: Result<
    StatusOutput,
    AtlasError,
>)
    ensures
        match workspace {
            Some(ws) => r matches Ok(out) && status_of(out, ws, facts),
            None => r matches Err(AtlasError::WorkspaceNotFound { workspace_id }) && workspace_id@
                == "<by root>"@,
        },
{
    match required_workspace(workspace) {
        Ok(ws) => Ok(status_output_for(&ws, facts)),
        Err(problem) => Err(problem),
    }
}

/// The status of the workspace of an identity, which must be registered.
pub fn status_by_workspace_id(
    workspace_id: &str,
    workspace: Option<WorkspaceRecord>,
    facts: StatusFacts,
) -> (r: Result<StatusOutput, AtlasError>)
    ensures
        match workspace {
            Some(ws) => r matches Ok(out) && status_of(out, ws, facts),
            None => r matches Err(AtlasError::WorkspaceNotFound { workspace_id: missing })
                && missing@ == workspace_id@,
        },
{
    match workspace {
        Some(ws) => Ok(status_output_for(&ws, facts)),
        None => Err(AtlasError::WorkspaceNotFound { workspace_id: workspace_id.to_string() }),
    }
}

// ---------------------------------------------------------------------------
// Doctor
// ---------------------------------------------------------------------------

/// A generation of a workspace and the state it is in.
#[derive(Debug, PartialEq, Eq)]
pub struct GenerationRow {
    pub generation_id: String,
    pub state: String,
}

pub ghost struct GenerationRowView {
    pub generation_id: Seq<char>,
    pub state: Seq<char>,
}

impl View for GenerationRow {
    type V = GenerationRowView;

    open spec fn view(&self) -> GenerationRowView {
        GenerationRowView { generation_id: self.generation_id@, state: self.state@ }
    }
}

pub open spec fn generation_views(rows: Seq<GenerationRow>) -> Seq<GenerationRowView> {
    Seq::new(rows.len(), |i: int| rows[i]@)
}

/// The generations that are still candidates, in their order.
pub open spec fn candidates(rows: Seq<GenerationRowView>) -> Seq<Seq<char>>
    decreases rows.len(),
{
    if rows.len() == 0 {
        Seq::empty()
    } else if rows.last().state == "candidate"@ {
        candidates(rows.drop_last()).push(rows.last().generation_id)
    } else {
        candidates(rows.drop_last())
    }
}

/// The generations with every candidate abandoned, and nothing else changed.
pub open spec fn recovered(rows: Seq<GenerationRowView>) -> Seq<GenerationRowView> {
    Seq::new(
        rows.len(),
        |i: int|
            if rows[i].state == "candidate"@ {
                GenerationRowView { state: "abandoned"@, ..rows[i] }
            } else {
                rows[i]
            },
    )
}

proof fn lemma_next_row(rows: Seq<GenerationRow>, i: int)
    requires
        0 <= i < rows.len(),
    ensures
        generation_views(rows).take(i + 1).drop_last() == generation_views(rows).take(i),
        generation_views(rows).take(i + 1).last() == rows[i]@,
{
    assert(generation_views(rows).take(i + 1).drop_last() =~= generation_views(rows).take(i));
}

/// The generations that an interrupted reconcile left behind as candidates.
pub fn candidate_ids(rows: &Vec<GenerationRow>) -> (r: Vec<String>)
    ensures
        text::texts(r@) == candidates(generation_views(rows@)),
{
    let mut out: Vec<String> = Vec::new();
    let ghost all = generation_views(rows@);
    for i in 0..rows.len()
        invariant
            all == generation_views(rows@),
            text::texts(out@) == candidates(all.take(i as int)),
    {
        proof {
            lemma_next_row(rows@, i as int);
        }
        if text_eq(rows[i].state.as_str(), "candidate") {
            let id = rows[i].generation_id.clone();
            let ghost before = out@;
            out.push(id);
            assert(text::texts(out@) =~= text::texts(before).push(id@));
        }
    }
    assert(all.take(all.len() as int) =~= all);
    out
}

/// Abandons the generations that an interrupted reconcile left behind as candidates,
/// and names them.
pub fn recover_candidates(rows: &mut Vec<GenerationRow>) -> (r: Vec<String>)
    ensures
        text::texts(r@) == candidates(generation_views(old(rows)@)),
        generation_views(final(rows)@) == recovered(generation_views(old(rows)@)),
{
    let found = candidate_ids(rows);
    let ghost before = generation_views(rows@);
    let count: usize = rows.len();
    for i in 0..count
        invariant
            count == rows@.len(),
            rows@.len() == before.len(),
            before == generation_views(old(rows)@),
            forall|j: int| 0 <= j < i ==> (#[trigger] rows@[j])@ == recovered(before)[j],
            forall|j: int| i <= j < rows@.len() ==> (#[trigger] rows@[j])@ == before[j],
    {
        if text_eq(rows[i].state.as_str(), "candidate") {
            let generation_id = rows[i].generation_id.clone();
            rows.set(i, GenerationRow { generation_id, state: "abandoned".to_string() });
        }
    }
    assert(generation_views(rows@) =~= recovered(before));
    found
}

proof fn lemma_no_candidates(rows: Seq<GenerationRowView>)
    requires
        forall|i: int| 0 <= i < rows.len() ==> (#[trigger] rows[i]).state != "candidate"@,
    ensures
        candidates(rows).len() == 0,
    decreases rows.len(),
{
    if rows.len() > 0 {
        assert forall|i: int| 0 <= i < rows.len() - 1 implies (#[trigger] rows.drop_last()[i]).state
            != "candidate"@ by {
            assert(rows.drop_last()[i] == rows[i]);
        }
        lemma_no_candidates(rows.drop_last());
    }
}

/// Recovery leaves no candidate behind, keeps every generation, and leaves alone
/// whatever was not a candidate, such as the active generation.
pub proof fn law_recovery_touches_only_candidates(rows: Seq<GenerationRowView>)
    ensures
        candidates(recovered(rows)).len() == 0,
        recovered(rows).len() == rows.len(),
        forall|i: int|
            0 <= i < rows.len() ==> {
                &&& (#[trigger] recovered(rows)[i]).generation_id == rows[i].generation_id
                &&& rows[i].state == "candidate"@ ==> recovered(rows)[i].state == "abandoned"@
                &&& rows[i].state != "candidate"@ ==> recovered(rows)[i] == rows[i]
            },
{
    reveal_strlit("candidate");
    reveal_strlit("abandoned");
    assert("candidate"@[0] == 'c' && "abandoned"@[0] == 'a');
    lemma_no_candidates(recovered(rows));
}

/// What became of reading the registered configuration.
#[derive(Debug)]
pub enum ConfigurationFinding {
    Found { hash: String },
    Missing,
    Unreadable,
}

/// What the catalogue holds of the workspace that is looked at.
#[derive(Debug)]
pub struct WorkspaceHealth {
    pub workspace_id: String,
    pub configuration_hash: String,
    pub configuration: ConfigurationFinding,
    pub lease_holder: Option<String>,
    pub active_generation_id: Option<String>,
    /// As they were found, by sequence number.
    pub generations: Vec<GenerationRow>,
    /// Counted for the active generation.
    pub unresolved_relationship_count: i64,
    /// Counted for the active generation.
    pub open_conflict_count: i64,
}

/// What the catalogue holds for a doctor's report.
#[derive(Debug)]
pub struct DoctorFacts {
    pub workspace: Option<WorkspaceHealth>,
    pub catalogue_path: String,
    pub schema_version: String,
    pub migration_version: Option<i64>,
    pub integrity_ok: bool,
    pub foreign_keys: i64,
    pub migration_checksum_mismatches: Vec<String>,
    pub stale_provider_executions: i64,
    pub stale_serving_generations: i64,
}

#[derive(Debug)]
pub struct DoctorOutput {
    pub ok: bool,
    pub workspace_id: Option<String>,
    pub catalogue_path: String,
    pub schema_version: String,
    pub migration_version: i64,
    pub integrity_ok: bool,
    pub registered_config_hash: Option<String>,
    pub effective_config_hash: Option<String>,
    pub foreign_keys_on: bool,
    pub writer_lease_present: bool,
    pub workspace_registered: bool,
    pub active_generation_present: bool,
    /// Candidates that an interrupted reconcile left open. The active generation is
    /// never affected by them.
    pub stuck_candidate_ids: Vec<String>,
    /// Stuck candidates that were abandoned by this run.
    pub recovered_candidate_ids: Vec<String>,
    /// Migrations whose stored checksum is not that of the embedded SQL.
    pub migration_checksum_mismatches: Vec<String>,
    /// Provider executions that never reached an outcome.
    pub stale_provider_executions: i64,
    /// Relationships of the active generation that are unresolved or ambiguous.
    pub unresolved_relationship_count: i64,
    /// Evidence conflicts of the active generation that are still open.
    pub open_conflict_count: i64,
    /// Serving Plane builds that never finished.
    pub stale_serving_generations: i64,
    pub issues: Vec<String>,
    pub recommendations: Vec<String>,
}

/// An issue and what to do about it.
pub ghost struct FindingView {
    pub issue: Seq<char>,
    pub recommendation: Seq<char>,
}

/// The finding, if the condition holds.
pub open spec fn finding_if(condition: bool, issue: Seq<char>, recommendation: Seq<char>) -> Seq<
    FindingView,
> {
    if condition {
        seq![FindingView { issue, recommendation }]
    } else {
        Seq::empty()
    }
}

/// The workspace has an active generation.
pub open spec fn has_active(facts: DoctorFacts) -> bool {
    facts.workspace matches Some(ws) && ws.active_generation_id is Some
}

/// The candidates that were stuck.
pub open spec fn stuck(facts: DoctorFacts) -> Seq<Seq<char>> {
    match facts.workspace {
        Some(ws) => candidates(generation_views(ws.generations@)),
        None => Seq::empty(),
    }
}

/// The digest of the registered configuration as it was read.
pub open spec fn effective_hash(facts: DoctorFacts) -> Option<Seq<char>> {
    match facts.workspace {
        Some(ws) => match ws.configuration {
            ConfigurationFinding::Found { hash } => Some(hash@),
            _ => None,
        },
        None => None,
    }
}

/// The configuration that was read is the registered one.
pub open spec fn configuration_matches(facts: DoctorFacts) -> bool {
    facts.workspace matches Some(ws) && effective_hash(facts) == Some(ws.configuration_hash@)
}

/// What a doctor finds, in order.
pub open spec fn findings(facts: DoctorFacts) -> Seq<FindingView> {
    finding_if(
        facts.workspace is None,
        "workspace_not_registered"@,
        "run `atlas init` to register this workspace"@,
    ) + finding_if(
        facts.workspace matches Some(ws) && ws.configuration is Missing,
        "configuration_required"@,
        "rerun `atlas reconcile --config <original-config>` once to register an application-owned configuration copy"@,
    ) + finding_if(
        facts.workspace matches Some(ws) && ws.configuration is Unreadable,
        "configuration_mismatch"@,
        "restore the registered configuration copy whose hash matches the catalogue workspace record"@,
    ) + finding_if(
        !has_active(facts),
        "no_active_generation"@,
        "run `atlas reconcile` to produce generation 1"@,
    ) + finding_if(
        !facts.integrity_ok,
        "integrity_check_failed"@,
        "restore the catalogue from the most recent backup"@,
    ) + finding_if(
        stuck(facts).len() > 0,
        "abandoned_candidate_recovered"@,
        text::decimal(stuck(facts).len())
            + " stuck candidate generation(s) from a prior crash/kill were marked abandoned; the active generation was never affected (INV-005) -- run `atlas reconcile` normally"@,
    ) + finding_if(
        facts.migration_checksum_mismatches@.len() > 0,
        "migration_checksum_mismatch"@,
        text::decimal(facts.migration_checksum_mismatches@.len())
            + " migration(s) have a checksum mismatch ("@ + text::joined(
            text::texts(facts.migration_checksum_mismatches@),
            ", "@,
        )
            + "); the catalogue's applied SQL diverges from the embedded migration -- restore from backup, do not continue writing"@,
    ) + finding_if(
        facts.stale_provider_executions > 0,
        "stale_provider_executions"@,
        text::signed_decimal(facts.stale_provider_executions as int)
            + " provider execution(s) are stuck in status 'running' with no finished_at -- likely a crashed provider process; the next `atlas reconcile` will invalidate and rerun them"@,
    ) + finding_if(
        facts.stale_serving_generations > 0,
        "stale_serving_generations"@,
        text::signed_decimal(facts.stale_serving_generations as int)
            + " Serving Plane build(s) are stuck in state 'building' -- likely an interrupted `atlas serving-build`; delete and rebuild"@,
    )
}

/// The issues of a list of findings.
pub open spec fn issues_of(list: Seq<FindingView>) -> Seq<Seq<char>> {
    Seq::new(list.len(), |i: int| list[i].issue)
}

/// The recommendations of a list of findings.
pub open spec fn recommendations_of(list: Seq<FindingView>) -> Seq<Seq<char>> {
    Seq::new(list.len(), |i: int| list[i].recommendation)
}

/// The catalogue is healthy: the workspace is registered with its configuration and
/// has an active generation, and neither the database nor its migrations are damaged.
pub open spec fn healthy(facts: DoctorFacts) -> bool {
    facts.workspace is Some && has_active(facts) && facts.integrity_ok && configuration_matches(
        facts,
    ) && facts.migration_checksum_mismatches@.len() == 0
}

/// The doctor's report on a catalogue that holds these facts.
pub open spec fn report_on(out: DoctorOutput, facts: DoctorFacts) -> bool {
    &&& out.ok == healthy(facts)
    &&& out.catalogue_path == facts.catalogue_path
    &&& out.schema_version == facts.schema_version
    &&& out.migration_version == (match facts.migration_version {
        Some(version) => version,
        None => 0,
    })
    &&& out.integrity_ok == facts.integrity_ok
    &&& text::opt_text(out.effective_config_hash) == effective_hash(facts)
    &&& out.foreign_keys_on == (facts.foreign_keys == 1)
    &&& out.workspace_registered == (facts.workspace is Some)
    &&& out.active_generation_present == has_active(facts)
    &&& text::texts(out.stuck_candidate_ids@) == stuck(facts)
    &&& text::texts(out.recovered_candidate_ids@) == stuck(facts)
    &&& text::texts(out.migration_checksum_mismatches@) == text::texts(
        facts.migration_checksum_mismatches@,
    )
    &&& out.stale_provider_executions == facts.stale_provider_executions
    &&& out.stale_serving_generations == facts.stale_serving_generations
    &&& match facts.workspace {
        Some(ws) => {
            &&& text::opt_text(out.workspace_id) == Some(ws.workspace_id@)
            &&& text::opt_text(out.registered_config_hash) == Some(ws.configuration_hash@)
            &&& out.writer_lease_present == (ws.lease_holder is Some)
            &&& out.unresolved_relationship_count == (if has_active(facts) {
                ws.unresolved_relationship_count
            } else {
                0
            })
            &&& out.open_conflict_count == (if has_active(facts) {
                ws.open_conflict_count
            } else {
                0
            })
        },
        None => {
            &&& out.workspace_id is None
            &&& out.registered_config_hash is None
            &&& !out.writer_lease_present
            &&& out.unresolved_relationship_count == 0
            &&& out.open_conflict_count == 0
        },
    }
    &&& text::texts(out.issues@) == issues_of(findings(facts))
    &&& text::texts(out.recommendations@) == recommendations_of(findings(facts))
}

/// Findings as they are collected.
struct Findings {
    issues: Vec<String>,
    recommendations: Vec<String>,
}

impl Findings {
    spec fn hold(self, list: Seq<FindingView>) -> bool {
        text::texts(self.issues@) == issues_of(list) && text::texts(self.recommendations@)
            == recommendations_of(list)
    }

    fn empty() -> (r: Self)
        ensures
            r.hold(Seq::empty()),
    {
        let r = Findings { issues: Vec::new(), recommendations: Vec::new() };
        assert(text::texts(r.issues@) =~= issues_of(Seq::empty()));
        assert(text::texts(r.recommendations@) =~= recommendations_of(Seq::empty()));
        r
    }

    fn note(
        &mut self,
        condition: bool,
        issue: &str,
        recommendation: String,
        Ghost(list): Ghost<Seq<FindingView>>,
    )
        requires
            old(self).hold(list),
        ensures
            final(self).hold(list + finding_if(condition, issue@, recommendation@)),
    {
        let ghost longer = list + finding_if(condition, issue@, recommendation@);
        if condition {
            let ghost issues = self.issues@;
            let ghost recommendations = self.recommendations@;
            let ghost words = recommendation@;
            self.issues.push(issue.to_string());
            self.recommendations.push(recommendation);
            assert(text::texts(self.issues@) =~= text::texts(issues).push(issue@));
            assert(text::texts(self.recommendations@) =~= text::texts(recommendations).push(words));
            assert(issues_of(longer) =~= issues_of(list).push(issue@));
            assert(recommendations_of(longer) =~= recommendations_of(list).push(words));
        } else {
            assert(longer =~= list);
        }
    }
}

fn recovery_advice(count: usize) -> (r: String)
    ensures
        r@ == text::decimal(count as nat)
            + " stuck candidate generation(s) from a prior crash/kill were marked abandoned; the active generation was never affected (INV-005) -- run `atlas reconcile` normally"@,
{
    let mut out = String::new();
    append_decimal(&mut out, count as u64);
    out.append(
        " stuck candidate generation(s) from a prior crash/kill were marked abandoned; the active generation was never affected (INV-005) -- run `atlas reconcile` normally",
    );
    assert(out@ =~= text::decimal(count as nat)
        + " stuck candidate generation(s) from a prior crash/kill were marked abandoned; the active generation was never affected (INV-005) -- run `atlas reconcile` normally"@);
    out
}

fn checksum_advice(names: &Vec<String>) -> (r: String)
    ensures
        r@ == text::decimal(names@.len()) + " migration(s) have a checksum mismatch ("@
            + text::joined(text::texts(names@), ", "@)
            + "); the catalogue's applied SQL diverges from the embedded migration -- restore from backup, do not continue writing"@,
{
    let mut out = String::new();
    append_decimal(&mut out, names.len() as u64);
    assert(out@ =~= text::decimal(names@.len()));
    out.append(" migration(s) have a checksum mismatch (");
    out.append(join_texts(names, ", ").as_str());
    out.append(
        "); the catalogue's applied SQL diverges from the embedded migration -- restore from backup, do not continue writing",
    );
    out
}

fn counted_advice(count: i64, advice: &str) -> (r: String)
    ensures
        r@ == text::signed_decimal(count as int) + advice@,
{
    let mut out = String::new();
    append_signed(&mut out, count);
    assert(out@ =~= text::signed_decimal(count as int));
    out.append(advice);
    out
}

fn collect_findings(facts: &DoctorFacts, stuck_count: usize) -> (r: Findings)
    requires
        stuck_count == stuck(*facts).len(),
    ensures
        r.hold(findings(*facts)),
{
    let mut out = Findings::empty();
    let registered = facts.workspace.is_some();
    let (missing, unreadable, active) = match &facts.workspace {
        Some(ws) => (
            matches!(ws.configuration, ConfigurationFinding::Missing),
            matches!(ws.configuration, ConfigurationFinding::Unreadable),
            ws.active_generation_id.is_some(),
        ),
        None => (false, false, false),
    };
    let ghost mut so_far: Seq<FindingView> = Seq::empty();
    let advice = "run `atlas init` to register this workspace";
    out.note(!registered, "workspace_not_registered", advice.to_string(), Ghost(so_far));
    proof {
        so_far = so_far + finding_if(!registered, "workspace_not_registered"@, advice@);
    }
    let advice =
        "rerun `atlas reconcile --config <original-config>` once to register an application-owned configuration copy";
    out.note(missing, "configuration_required", advice.to_string(), Ghost(so_far));
    proof {
        so_far = so_far + finding_if(missing, "configuration_required"@, advice@);
    }
    let advice =
        "restore the registered configuration copy whose hash matches the catalogue workspace record";
    out.note(unreadable, "configuration_mismatch", advice.to_string(), Ghost(so_far));
    proof {
        so_far = so_far + finding_if(unreadable, "configuration_mismatch"@, advice@);
    }
    let advice = "run `atlas reconcile` to produce generation 1";
    out.note(!active, "no_active_generation", advice.to_string(), Ghost(so_far));
    proof {
        so_far = so_far + finding_if(!active, "no_active_generation"@, advice@);
    }
    let damaged = !facts.integrity_ok;
    let advice = "restore the catalogue from the most recent backup";
    out.note(damaged, "integrity_check_failed", advice.to_string(), Ghost(so_far));
    proof {
        so_far = so_far + finding_if(damaged, "integrity_check_failed"@, advice@);
    }
    let advice = recovery_advice(stuck_count);
    let ghost words = advice@;
    out.note(stuck_count > 0, "abandoned_candidate_recovered", advice, Ghost(so_far));
    proof {
        so_far = so_far + finding_if(stuck_count > 0, "abandoned_candidate_recovered"@, words);
    }
    let tampered = facts.migration_checksum_mismatches.len() > 0;
    let advice = checksum_advice(&facts.migration_checksum_mismatches);
    let ghost words = advice@;
    out.note(tampered, "migration_checksum_mismatch", advice, Ghost(so_far));
    proof {
        so_far = so_far + finding_if(tampered, "migration_checksum_mismatch"@, words);
    }
    let stale = facts.stale_provider_executions > 0;
    let advice = counted_advice(
        facts.stale_provider_executions,
        " provider execution(s) are stuck in status 'running' with no finished_at -- likely a crashed provider process; the next `atlas reconcile` will invalidate and rerun them",
    );
    let ghost words = advice@;
    out.note(stale, "stale_provider_executions", advice, Ghost(so_far));
    proof {
        so_far = so_far + finding_if(stale, "stale_provider_executions"@, words);
    }
    let unfinished = facts.stale_serving_generations > 0;
    let advice = counted_advice(
        facts.stale_serving_generations,
        " Serving Plane build(s) are stuck in state 'building' -- likely an interrupted `atlas serving-build`; delete and rebuild",
    );
    let ghost words = advice@;
    out.note(unfinished, "stale_serving_generations", advice, Ghost(so_far));
    proof {
        so_far = so_far + finding_if(unfinished, "stale_serving_generations"@, words);
        assert(so_far =~= findings(*facts));
    }
    out
}

/// The doctor's report on a catalogue.
pub fn build_doctor_output(facts: DoctorFacts) -> (r: DoctorOutput)
    ensures
        report_on(r, facts),
{
    let stuck_candidate_ids = match &facts.workspace {
        Some(ws) => candidate_ids(&ws.generations),
        None => Vec::new(),
    };
    assert(text::texts(stuck_candidate_ids@) =~= stuck(facts));
    let recovered_candidate_ids = clone_texts(&stuck_candidate_ids);
    let collected = collect_findings(&facts, stuck_candidate_ids.len());
    let migration_version: i64 = match facts.migration_version {
        Some(version) => version,
        None => 0,
    };
    let clean = facts.migration_checksum_mismatches.len() == 0;
    let ghost given = facts;
    match facts.workspace {
        Some(ws) => {
            let active = ws.active_generation_id.is_some();
            let effective_config_hash = match ws.configuration {
                ConfigurationFinding::Found { hash } => Some(hash),
                _ => None,
            };
            let matching = match &effective_config_hash {
                Some(hash) => text_eq(hash.as_str(), ws.configuration_hash.as_str()),
                None => false,
            };
            let (unresolved_relationship_count, open_conflict_count) = if active {
                (ws.unresolved_relationship_count, ws.open_conflict_count)
            } else {
                (0i64, 0i64)
            };
            DoctorOutput {
                ok: active && facts.integrity_ok && matching && clean,
                workspace_id: Some(ws.workspace_id),
                catalogue_path: facts.catalogue_path,
                schema_version: facts.schema_version,
                migration_version,
                integrity_ok: facts.integrity_ok,
                registered_config_hash: Some(ws.configuration_hash),
                effective_config_hash,
                foreign_keys_on: facts.foreign_keys == 1,
                writer_lease_present: ws.lease_holder.is_some(),
                workspace_registered: true,
                active_generation_present: active,
                stuck_candidate_ids,
                recovered_candidate_ids,
                migration_checksum_mismatches: facts.migration_checksum_mismatches,
                stale_provider_executions: facts.stale_provider_executions,
                unresolved_relationship_count,
                open_conflict_count,
                stale_serving_generations: facts.stale_serving_generations,
                issues: collected.issues,
                recommendations: collected.recommendations,
            }
        },
        None => DoctorOutput {
            ok: false,
            workspace_id: None,
            catalogue_path: facts.catalogue_path,
            schema_version: facts.schema_version,
            migration_version,
            integrity_ok: facts.integrity_ok,
            registered_config_hash: None,
            effective_config_hash: None,
            foreign_keys_on: facts.foreign_keys == 1,
            writer_lease_present: false,
            workspace_registered: false,
            active_generation_present: false,
            stuck_candidate_ids,
            recovered_candidate_ids,
            migration_checksum_mismatches: facts.migration_checksum_mismatches,
            stale_provider_executions: facts.stale_provider_executions,
            unresolved_relationship_count: 0,
            open_conflict_count: 0,
            stale_serving_generations: facts.stale_serving_generations,
            issues: collected.issues,
            recommendations: collected.recommendations,
        },
    }
}

/// The list names an issue.
pub open spec fn names(list: Seq<FindingView>, issue: Seq<char>) -> bool {
    exists|i: int| 0 <= i < list.len() && (#[trigger] list[i]).issue == issue
}

proof fn lemma_names_sum(a: Seq<FindingView>, b: Seq<FindingView>, issue: Seq<char>)
    ensures
        names(a + b, issue) <==> names(a, issue) || names(b, issue),
{
    let all = a + b;
    if names(a, issue) {
        let i = choose|i: int| 0 <= i < a.len() && (#[trigger] a[i]).issue == issue;
        assert(all[i] == a[i]);
    }
    if names(b, issue) {
        let i = choose|i: int| 0 <= i < b.len() && (#[trigger] b[i]).issue == issue;
        assert(all[a.len() + i] == b[i]);
    }
    if names(all, issue) {
        let i = choose|i: int| 0 <= i < all.len() && (#[trigger] all[i]).issue == issue;
        if i < a.len() {
            assert(a[i] == all[i]);
        } else {
            assert(b[i - a.len()] == all[i]);
        }
    }
}

proof fn lemma_names_one(
    condition: bool,
    issue: Seq<char>,
    recommendation: Seq<char>,
    asked: Seq<char>,
)
    ensures
        names(finding_if(condition, issue, recommendation), asked) <==> condition && issue == asked,
{
    if condition && issue == asked {
        assert(finding_if(condition, issue, recommendation)[0].issue == asked);
    }
}

proof fn lemma_names_findings(facts: DoctorFacts, asked: Seq<char>)
    ensures
        names(findings(facts), asked) <==> {
            ||| facts.workspace is None && "workspace_not_registered"@ == asked
            ||| (facts.workspace matches Some(ws) && ws.configuration is Missing) && "configuration_required"@ == asked
            ||| (facts.workspace matches Some(ws) && ws.configuration is Unreadable) && "configuration_mismatch"@ == asked
            ||| !has_active(facts) && "no_active_generation"@ == asked
            ||| !facts.integrity_ok && "integrity_check_failed"@ == asked
            ||| stuck(facts).len() > 0 && "abandoned_candidate_recovered"@ == asked
            ||| facts.migration_checksum_mismatches@.len() > 0 && "migration_checksum_mismatch"@ == asked
            ||| facts.stale_provider_executions > 0 && "stale_provider_executions"@ == asked
            ||| facts.stale_serving_generations > 0 && "stale_serving_generations"@ == asked
        },
{
    let all = findings(facts);
    let c0 = facts.workspace is None;
    let n0 = "workspace_not_registered"@;
    let r0 = "run `atlas init` to register this workspace"@;
    let f0 = finding_if(c0, n0, r0);
    lemma_names_one(c0, n0, r0, asked);
    let c1 = (facts.workspace matches Some(ws) && ws.configuration is Missing);
    let n1 = "configuration_required"@;
    let r1 = "rerun `atlas reconcile --config <original-config>` once to register an application-owned configuration copy"@;
    let f1 = finding_if(c1, n1, r1);
    lemma_names_one(c1, n1, r1, asked);
    let c2 = (facts.workspace matches Some(ws) && ws.configuration is Unreadable);
    let n2 = "configuration_mismatch"@;
    let r2 = "restore the registered configuration copy whose hash matches the catalogue workspace record"@;
    let f2 = finding_if(c2, n2, r2);
    lemma_names_one(c2, n2, r2, asked);
    let c3 = !has_active(facts);
    let n3 = "no_active_generation"@;
    let r3 = "run `atlas reconcile` to produce generation 1"@;
    let f3 = finding_if(c3, n3, r3);
    lemma_names_one(c3, n3, r3, asked);
    let c4 = !facts.integrity_ok;
    let n4 = "integrity_check_failed"@;
    let r4 = "restore the catalogue from the most recent backup"@;
    let f4 = finding_if(c4, n4, r4);
    lemma_names_one(c4, n4, r4, asked);
    let c5 = stuck(facts).len() > 0;
    let n5 = "abandoned_candidate_recovered"@;
    let r5 = text::decimal(stuck(facts).len())
            + " stuck candidate generation(s) from a prior crash/kill were marked abandoned; the active generation was never affected (INV-005) -- run `atlas reconcile` normally"@;
    let f5 = finding_if(c5, n5, r5);
    lemma_names_one(c5, n5, r5, asked);
    let c6 = facts.migration_checksum_mismatches@.len() > 0;
    let n6 = "migration_checksum_mismatch"@;
    let r6 = text::decimal(facts.migration_checksum_mismatches@.len())
            + " migration(s) have a checksum mismatch ("@ + text::joined(
            text::texts(facts.migration_checksum_mismatches@),
            ", "@,
        )
            + "); the catalogue's applied SQL diverges from the embedded migration -- restore from backup, do not continue writing"@;
    let f6 = finding_if(c6, n6, r6);
    lemma_names_one(c6, n6, r6, asked);
    let c7 = facts.stale_provider_executions > 0;
    let n7 = "stale_provider_executions"@;
    let r7 = text::signed_decimal(facts.stale_provider_executions as int)
            + " provider execution(s) are stuck in status 'running' with no finished_at -- likely a crashed provider process; the next `atlas reconcile` will invalidate and rerun them"@;
    let f7 = finding_if(c7, n7, r7);
    lemma_names_one(c7, n7, r7, asked);
    let c8 = facts.stale_serving_generations > 0;
    let n8 = "stale_serving_generations"@;
    let r8 = text::signed_decimal(facts.stale_serving_generations as int)
            + " Serving Plane build(s) are stuck in state 'building' -- likely an interrupted `atlas serving-build`; delete and rebuild"@;
    let f8 = finding_if(c8, n8, r8);
    lemma_names_one(c8, n8, r8, asked);
    let s1 = f0 + f1;
    lemma_names_sum(f0, f1, asked);
    let s2 = s1 + f2;
    lemma_names_sum(s1, f2, asked);
    let s3 = s2 + f3;
    lemma_names_sum(s2, f3, asked);
    let s4 = s3 + f4;
    lemma_names_sum(s3, f4, asked);
    let s5 = s4 + f5;
    lemma_names_sum(s4, f5, asked);
    let s6 = s5 + f6;
    lemma_names_sum(s5, f6, asked);
    let s7 = s6 + f7;
    lemma_names_sum(s6, f7, asked);
    let s8 = s7 + f8;
    lemma_names_sum(s7, f8, asked);
    assert(all == s8);
}

proof fn lemma_issue_names_differ()
    ensures
        "workspace_not_registered"@ != "configuration_required"@,
        "workspace_not_registered"@ != "configuration_mismatch"@,
        "workspace_not_registered"@ != "no_active_generation"@,
        "workspace_not_registered"@ != "integrity_check_failed"@,
        "workspace_not_registered"@ != "abandoned_candidate_recovered"@,
        "workspace_not_registered"@ != "migration_checksum_mismatch"@,
        "workspace_not_registered"@ != "stale_provider_executions"@,
        "workspace_not_registered"@ != "stale_serving_generations"@,
        "configuration_required"@ != "configuration_mismatch"@,
        "configuration_required"@ != "no_active_generation"@,
        "configuration_required"@ != "integrity_check_failed"@,
        "configuration_required"@ != "abandoned_candidate_recovered"@,
        "configuration_required"@ != "migration_checksum_mismatch"@,
        "configuration_required"@ != "stale_provider_executions"@,
        "configuration_required"@ != "stale_serving_generations"@,
        "configuration_mismatch"@ != "no_active_generation"@,
        "configuration_mismatch"@ != "integrity_check_failed"@,
        "configuration_mismatch"@ != "abandoned_candidate_recovered"@,
        "configuration_mismatch"@ != "migration_checksum_mismatch"@,
        "configuration_mismatch"@ != "stale_provider_executions"@,
        "configuration_mismatch"@ != "stale_serving_generations"@,
        "no_active_generation"@ != "integrity_check_failed"@,
        "no_active_generation"@ != "abandoned_candidate_recovered"@,
        "no_active_generation"@ != "migration_checksum_mismatch"@,
        "no_active_generation"@ != "stale_provider_executions"@,
        "no_active_generation"@ != "stale_serving_generations"@,
        "integrity_check_failed"@ != "abandoned_candidate_recovered"@,
        "integrity_check_failed"@ != "migration_checksum_mismatch"@,
        "integrity_check_failed"@ != "stale_provider_executions"@,
        "integrity_check_failed"@ != "stale_serving_generations"@,
        "abandoned_candidate_recovered"@ != "migration_checksum_mismatch"@,
        "abandoned_candidate_recovered"@ != "stale_provider_executions"@,
        "abandoned_candidate_recovered"@ != "stale_serving_generations"@,
        "migration_checksum_mismatch"@ != "stale_provider_executions"@,
        "migration_checksum_mismatch"@ != "stale_serving_generations"@,
        "stale_provider_executions"@ != "stale_serving_generations"@,
{
    reveal_strlit("workspace_not_registered");
    reveal_strlit("configuration_required");
    reveal_strlit("configuration_mismatch");
    reveal_strlit("no_active_generation");
    reveal_strlit("integrity_check_failed");
    reveal_strlit("abandoned_candidate_recovered");
    reveal_strlit("migration_checksum_mismatch");
    reveal_strlit("stale_provider_executions");
    reveal_strlit("stale_serving_generations");
    assert("workspace_not_registered"@.len() == 24);
    assert("configuration_required"@.len() == 22);
    assert("configuration_mismatch"@.len() == 22);
    assert("no_active_generation"@.len() == 20);
    assert("integrity_check_failed"@.len() == 22);
    assert("abandoned_candidate_recovered"@.len() == 29);
    assert("migration_checksum_mismatch"@.len() == 27);
    assert("stale_provider_executions"@.len() == 25);
    assert("stale_serving_generations"@.len() == 25);
    assert("configuration_required"@[14] == 'r' && "configuration_mismatch"@[14] == 'm'
        && "integrity_check_failed"@[0] == 'i' && "configuration_required"@[0] == 'c'
        && "configuration_mismatch"@[0] == 'c' && "stale_provider_executions"@[6] == 'p'
        && "stale_serving_generations"@[6] == 's');
}

/// Every issue comes with what to do about it, and each is named exactly where it is
/// the case.
pub proof fn law_issues_name_what_is_wrong(facts: DoctorFacts)
    ensures
        issues_of(findings(facts)).len() == recommendations_of(findings(facts)).len(),
        names(findings(facts), "workspace_not_registered"@) <==> facts.workspace is None,
        names(findings(facts), "configuration_required"@) <==> (facts.workspace matches Some(ws) && ws.configuration is Missing),
        names(findings(facts), "configuration_mismatch"@) <==> (facts.workspace matches Some(ws) && ws.configuration is Unreadable),
        names(findings(facts), "no_active_generation"@) <==> !has_active(facts),
        names(findings(facts), "integrity_check_failed"@) <==> !facts.integrity_ok,
        names(findings(facts), "abandoned_candidate_recovered"@) <==> stuck(facts).len() > 0,
        names(findings(facts), "migration_checksum_mismatch"@) <==> facts.migration_checksum_mismatches@.len() > 0,
        names(findings(facts), "stale_provider_executions"@) <==> facts.stale_provider_executions > 0,
        names(findings(facts), "stale_serving_generations"@) <==> facts.stale_serving_generations > 0,
{
    lemma_issue_names_differ();
    assert(names(findings(facts), "workspace_not_registered"@) <==> facts.workspace is None) by {
        lemma_names_findings(facts, "workspace_not_registered"@);
    }
    assert(names(findings(facts), "configuration_required"@) <==> (facts.workspace matches Some(ws) && ws.configuration is Missing)) by {
        lemma_names_findings(facts, "configuration_required"@);
    }
    assert(names(findings(facts), "configuration_mismatch"@) <==> (facts.workspace matches Some(ws) && ws.configuration is Unreadable)) by {
        lemma_names_findings(facts, "configuration_mismatch"@);
    }
    assert(names(findings(facts), "no_active_generation"@) <==> !has_active(facts)) by {
        lemma_names_findings(facts, "no_active_generation"@);
    }
    assert(names(findings(facts), "integrity_check_failed"@) <==> !facts.integrity_ok) by {
        lemma_names_findings(facts, "integrity_check_failed"@);
    }
    assert(names(findings(facts), "abandoned_candidate_recovered"@) <==> stuck(facts).len() > 0) by {
        lemma_names_findings(facts, "abandoned_candidate_recovered"@);
    }
    assert(names(findings(facts), "migration_checksum_mismatch"@) <==> facts.migration_checksum_mismatches@.len() > 0) by {
        lemma_names_findings(facts, "migration_checksum_mismatch"@);
    }
    assert(names(findings(facts), "stale_provider_executions"@) <==> facts.stale_provider_executions > 0) by {
        lemma_names_findings(facts, "stale_provider_executions"@);
    }
    assert(names(findings(facts), "stale_serving_generations"@) <==> facts.stale_serving_generations > 0) by {
        lemma_names_findings(facts, "stale_serving_generations"@);
    }
}

/// A healthy catalogue names none of the issues that stop it.
pub proof fn law_healthy_catalogues_have_no_stopping_issue(facts: DoctorFacts)
    requires
        healthy(facts),
    ensures
        !names(findings(facts), "workspace_not_registered"@),
        !names(findings(facts), "configuration_required"@),
        !names(findings(facts), "configuration_mismatch"@),
        !names(findings(facts), "no_active_generation"@),
        !names(findings(facts), "integrity_check_failed"@),
        !names(findings(facts), "migration_checksum_mismatch"@),
{
    law_issues_name_what_is_wrong(facts);
}

/// What an interrupted run left behind never makes a catalogue unhealthy: two
/// catalogues that differ in stuck candidates, stale executions and stale builds
/// alone are equally healthy.
pub proof fn law_leftovers_do_not_decide_health(
    one: DoctorOutput,
    other: DoctorOutput,
    facts: DoctorFacts,
    more: DoctorFacts,
)
    requires
        report_on(one, facts),
        report_on(other, more),
        facts.integrity_ok == more.integrity_ok,
        facts.migration_checksum_mismatches@.len() == more.migration_checksum_mismatches@.len(),
        match (facts.workspace, more.workspace) {
            (Some(a), Some(b)) => a.configuration_hash@ == b.configuration_hash@ && effective_hash(
                facts,
            ) == effective_hash(more) && (a.active_generation_id is Some) == (
            b.active_generation_id is Some),
            (None, None) => true,
            _ => false,
        },
    ensures
        one.ok == other.ok,
{
}

/// Once the candidates are recovered and nothing else has changed, the next report
/// finds nothing stuck and recovers nothing, and judges the health as before.
pub proof fn law_the_next_report_is_clear(
    found: DoctorFacts,
    next: DoctorFacts,
    out: DoctorOutput,
)
    requires
        found.workspace is Some,
        next.workspace is Some,
        generation_views(next.workspace->0.generations@) == recovered(
            generation_views(found.workspace->0.generations@),
        ),
        next.workspace->0.active_generation_id == found.workspace->0.active_generation_id,
        next.workspace->0.configuration == found.workspace->0.configuration,
        next.workspace->0.configuration_hash == found.workspace->0.configuration_hash,
        next.integrity_ok == found.integrity_ok,
        next.migration_checksum_mismatches == found.migration_checksum_mismatches,
        report_on(out, next),
    ensures
        out.stuck_candidate_ids@.len() == 0,
        out.recovered_candidate_ids@.len() == 0,
        out.active_generation_present == has_active(found),
        out.ok == healthy(found),
{
    law_recovery_touches_only_candidates(generation_views(found.workspace->0.generations@));
    assert(text::texts(out.stuck_candidate_ids@).len() == out.stuck_candidate_ids@.len());
    assert(text::texts(out.recovered_candidate_ids@).len() == out.recovered_candidate_ids@.len());
}

} // verus!
