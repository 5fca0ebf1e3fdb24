//! What the application accepts, selects and reports.
use vstd::prelude::*;

use crate::cli;
use crate::cli::{CliError, ContextIrActionView, ContextIrStage, MAX_ADDITIVE_ERROR_DETAIL_BYTES};
use crate::compiled_context;
use crate::compiled_context::{CompiledContextRow, ContextKeyView};
use crate::config;
use crate::config::{Config, ProviderConfigEntry};
use crate::context_application;
use crate::context_application::{GovernorRunRequest, GovernorRunSemanticInput};
use crate::context_ir::{ContextIr, RawTaskRetention, TaskKind, TaskSession, TaskSessionState};
use crate::context_metrics::{ContextMetrics, MAX_CONTEXT_EXECUTION_SOURCE_BYTES};
use crate::context_route::{
    GenerationView, Route, MAX_APPLICATION_JSON_DEPTH, MAX_APPLICATION_NESTED_VECTOR_ITEMS,
    MAX_APPLICATION_STRING_BYTES, MAX_GOVERNOR_REQUEST_BYTES, MAX_GOVERNOR_TARGETS,
    MAX_GOVERNOR_TARGET_BYTES,
};
use crate::context_yield;
use crate::context_yield::{
    AcceptedOutcome, ContextYieldLimitation, ContextYieldMetricName, ContextYieldReportV15,
    ReportNames,
};
use crate::digest;
use crate::json_tree::JsonTree;
use crate::paths;
use crate::text;

verus! {

/// The provider can be run as it is configured: it is of a known kind and scope, an
/// external one names its command, and an external index names its languages and is
/// pinned.
pub open spec fn runnable(p: ProviderConfigEntry) -> bool {
    &&& (p.kind@ == "builtin"@ || p.kind@ == "external_process"@ || p.kind@ == "external_scip"@)
    &&& (p.scope@ == "file"@ || p.scope@ == "project"@ || p.scope@ == "package"@ || p.scope@
        == "workspace"@)
    &&& (p.kind@ == "external_process"@ || p.kind@ == "external_scip"@ ==> p.command is Some)
    &&& (p.kind@ == "external_scip"@ ==> p.languages@.len() > 0 && (p.version is Some || p.name@
        == "scip-typescript"@))
}

/// A provider is refused exactly if it cannot be run as it is configured.
pub proof fn law_runnable_providers_are_accepted(provider: ProviderConfigEntry)
    ensures
        provider.fault() is None <==> runnable(provider),
{
    reveal_strlit("builtin");
    reveal_strlit("external_process");
    reveal_strlit("external_scip");
    assert("builtin"@.len() == 7 && "external_process"@.len() == 16 && "external_scip"@.len()
        == 13);
}

proof fn lemma_providers(providers: Seq<ProviderConfigEntry>, from: int)
    requires
        0 <= from <= providers.len(),
    ensures
        config::providers_fault(providers, from) is None <==> (forall|i: int|
            from <= i < providers.len() ==> (#[trigger] providers[i]).fault() is None
                && !config::name_taken(providers, i, providers[i].name@)),
    decreases providers.len() - from,
{
    if from < providers.len() {
        lemma_providers(providers, from + 1);
        if providers[from].fault() is None && !config::name_taken(
            providers,
            from,
            providers[from].name@,
        ) {
        } else {
            assert(!(providers[from].fault() is None && !config::name_taken(
                providers,
                from,
                providers[from].name@,
            )));
        }
    }
}

proof fn lemma_newlines(names: Seq<Seq<char>>, from: int)
    requires
        0 <= from <= names.len(),
    ensures
        config::newline_fault(names, from) is None <==> (forall|i: int|
            from <= i < names.len() ==> config::known_newline(#[trigger] names[i])),
    decreases names.len() - from,
{
    if from < names.len() {
        lemma_newlines(names, from + 1);
        if !config::known_newline(names[from]) {
            assert(!config::known_newline(names[from]));
        }
    }
}

/// The configuration names its version and its workspace, knows its newlines, never
/// uses a shell, and lists runnable providers under different names.
pub open spec fn usable(config: Config) -> bool {
    &&& (config.schema_version@ == "1.0.0"@ || config.schema_version@ == "1.1.0"@)
    &&& !text::blank(config.workspace.display_name@)
    &&& (forall|i: int|
        0 <= i < config.policy.newlines@.len() ==> (#[trigger] config.policy.newlines@[i])@
            == "lf"@ || config.policy.newlines@[i]@ == "crlf"@ || config.policy.newlines@[i]@
            == "cr"@)
    &&& !config.provider_runtime.allow_shell
    &&& (forall|i: int|
        0 <= i < config.providers@.len() ==> runnable(#[trigger] config.providers@[i]))
    &&& (forall|i: int, j: int|
        0 <= i < j < config.providers@.len() ==> (#[trigger] config.providers@[i]).name@ != (
        #[trigger] config.providers@[j]).name@)
}

/// A configuration is accepted exactly if it is usable and its exclusions are regular
/// expressions.
pub proof fn law_usable_configurations_are_accepted(config: Config)
    ensures
        config.fault() is None <==> usable(config) && config.policy.exclude.fault() is None,
{
    let names = text::texts(config.policy.newlines@);
    let providers = config.providers@;
    lemma_newlines(names, 0);
    lemma_providers(providers, 0);
    assert forall|i: int| 0 <= i < providers.len() implies (
    #[trigger] providers[i]).fault() is None <==> runnable(providers[i]) by {
        law_runnable_providers_are_accepted(providers[i]);
    }
    if config.fault() is None {
        assert forall|i: int| 0 <= i < config.policy.newlines@.len() implies (
        #[trigger] config.policy.newlines@[i])@ == "lf"@ || config.policy.newlines@[i]@ == "crlf"@
            || config.policy.newlines@[i]@ == "cr"@ by {
            assert(config::known_newline(names[i]));
        }
        assert forall|i: int, j: int| 0 <= i < j < providers.len() implies (
        #[trigger] providers[i]).name@ != (#[trigger] providers[j]).name@ by {
            assert(!config::name_taken(providers, j, providers[j].name@));
        }
    }
    if usable(config) {
        assert forall|i: int| 0 <= i < names.len() implies config::known_newline(
            #[trigger] names[i],
        ) by {
            assert(config.policy.newlines@[i]@ == names[i]);
        }
        assert forall|i: int| 0 <= i < providers.len() implies (
        #[trigger] providers[i]).fault() is None && !config::name_taken(
            providers,
            i,
            providers[i].name@,
        ) by {
            assert(runnable(providers[i]));
            assert forall|j: int| 0 <= j < i implies (#[trigger] providers[j]).name@
                != providers[i].name@ by {}
        }
    }
}

proof fn lemma_bad_regex(patterns: Seq<Seq<char>>, from: int)
    requires
        0 <= from <= patterns.len(),
    ensures
        config::first_bad_regex(patterns, from) >= patterns.len() <==> (forall|i: int|
            from <= i < patterns.len() ==> config::regex_fault(#[trigger] patterns[i]) is None),
    decreases patterns.len() - from,
{
    if from < patterns.len() && config::regex_fault(patterns[from]) is None {
        lemma_bad_regex(patterns, from + 1);
    }
}

/// Exclusions of a field are accepted exactly if each of them is a regular expression,
/// and all of them together make a set.
pub proof fn law_exclusions_are_regular_expressions(field: Seq<char>, patterns: Seq<Seq<char>>)
    ensures
        config::field_fault(field, patterns) is None <==> (forall|i: int|
            0 <= i < patterns.len() ==> config::regex_fault(#[trigger] patterns[i]) is None)
            && config::regex_set_fault(patterns) is None,
{
    lemma_bad_regex(patterns, 0);
}

/// The given name of a workspace is kept; without one, a loaded configuration keeps its
/// own, and any other gets the name of the directory.
pub proof fn law_workspaces_get_their_names(
    config: Config,
    loaded: bool,
    given: Option<Seq<char>>,
    parent: Seq<char>,
)
    ensures
        given is Some ==> cli::configured_name(config, loaded, given, parent) == given->0,
        given is None && loaded ==> cli::configured_name(config, loaded, given, parent)
            == config.workspace.display_name@,
        given is None && !loaded ==> cli::configured_name(config, loaded, given, parent) == (
        match paths::last_name(parent) {
            Some(name) => name,
            None => "workspace"@,
        }),
{
}

/// Each name stands for one kind of task and each kind has one name; nothing else is
/// accepted.
pub proof fn law_task_kinds_have_one_name_each(a: Seq<char>, b: Seq<char>)
    ensures
        cli::kind_named(a) is Some && cli::kind_named(a) == cli::kind_named(b) ==> a == b,
        cli::kind_named("explore"@) == Some(TaskKind::Explore),
        cli::kind_named("bug_fix"@) == Some(TaskKind::BugFix),
        cli::kind_named("behavior_change"@) == Some(TaskKind::BehaviorChange),
        cli::kind_named("api_change"@) == Some(TaskKind::ApiChange),
        cli::kind_named("refactor"@) == Some(TaskKind::Refactor),
        cli::kind_named("configuration_change"@) == Some(TaskKind::ConfigurationChange),
        cli::kind_named("test_change"@) == Some(TaskKind::TestChange),
        cli::kind_named("review"@) == Some(TaskKind::Review),
        cli::kind_named("audit"@) == Some(TaskKind::Audit),
        cli::kind_named("unknown"@) == Some(TaskKind::Unknown),
{
    reveal_strlit("explore");
    reveal_strlit("bug_fix");
    reveal_strlit("behavior_change");
    reveal_strlit("api_change");
    reveal_strlit("refactor");
    reveal_strlit("configuration_change");
    reveal_strlit("test_change");
    reveal_strlit("review");
    reveal_strlit("audit");
    reveal_strlit("unknown");
    assert("explore"@[0] == 'e' && "bug_fix"@[1] == 'u' && "behavior_change"@[1] == 'e'
        && "api_change"@[1] == 'p' && "refactor"@[2] == 'f' && "configuration_change"@[0] == 'c'
        && "test_change"@[0] == 't' && "review"@[2] == 'v' && "audit"@[1] == 'u' && "unknown"@[0]
        == 'u');
    assert("bug_fix"@[0] == 'b' && "behavior_change"@[0] == 'b' && "api_change"@[0] == 'a'
        && "audit"@[0] == 'a' && "refactor"@[0] == 'r' && "review"@[0] == 'r');
}

/// Every step of a Context IR command is about the session that it has reached, a
/// session is created in the active generation, and only a fresh one is moved on.
pub proof fn law_steps_keep_to_their_session(active: Option<Seq<char>>, stage: ContextIrStage)
    ensures
        ({
            let action = cli::context_ir_action(active, stage);
            &&& (stage matches ContextIrStage::SessionFound { task_session_id, state } ==> (if active
                is Some && state == TaskSessionState::Created {
                action == (ContextIrActionView::AdvanceSession {
                    task_session_id: task_session_id@,
                })
            } else {
                action == (ContextIrActionView::Compile { task_session_id: task_session_id@ })
            }))
            &&& (stage matches ContextIrStage::SessionSettled { task_session_id } ==> action == (
            ContextIrActionView::Compile { task_session_id: task_session_id@ }))
            &&& (stage matches ContextIrStage::Compiled { task_session_id } ==> (if active is Some {
                action == (ContextIrActionView::RecordUse { task_session_id: task_session_id@ })
            } else {
                action == (ContextIrActionView::Finish {
                    task_session_id: task_session_id@,
                    release_lease: false,
                })
            }))
            &&& (stage matches ContextIrStage::Recorded { task_session_id } ==> action is Finish
                && action->Finish_task_session_id == task_session_id@)
            &&& (action matches ContextIrActionView::CreateSession { generation_id } ==> active
                == Some(generation_id))
            &&& (action is AcquireLease <==> stage is Ready && active is Some)
        }),
{
}

/// A budget is refused exactly if one of its limits is not positive.
pub proof fn law_budgets_are_positive(records: i64, source_bytes: i64, tokens: i64)
    ensures
        cli::budget_fault(records, source_bytes, tokens) is None <==> records > 0 && source_bytes
            > 0 && tokens > 0,
{
}

/// A session is accepted exactly if it holds the raw task only where that was opted in,
/// and digests where digests belong.
pub proof fn law_sessions_keep_tasks_private(session: TaskSession)
    ensures
        session.fault() is None <==> {
            &&& (session.raw_task is None || session.raw_task_retention
                == RawTaskRetention::LocalOptIn)
            &&& text::hex64(session.task_hash@)
            &&& text::hex64(session.normalized_goal_hash@)
        },
{
}

/// Positions sort by the moment first and by the name where the moments are the same;
/// of two positions that differ one comes first.
pub proof fn law_documents_sort_by_moment(a: ContextKeyView, b: ContextKeyView)
    ensures
        text::text_lt(a.created_at, b.created_at) ==> compiled_context::key_lt(a, b),
        a.created_at == b.created_at && text::text_lt(a.context_id, b.context_id)
            ==> compiled_context::key_lt(a, b),
        a != b ==> compiled_context::key_lt(a, b) || compiled_context::key_lt(b, a),
        !(compiled_context::key_lt(a, b) && compiled_context::key_lt(b, a)),
        !compiled_context::key_lt(a, a),
{
    text::lemma_text_lt_total(a.created_at, b.created_at);
    text::lemma_text_lt_total(a.context_id, b.context_id);
    text::lemma_text_lt_irreflexive(a.created_at);
    text::lemma_text_lt_irreflexive(a.context_id);
    if text::text_lt(a.created_at, b.created_at) && text::text_lt(b.created_at, a.created_at) {
        text::lemma_text_lt_transitive(a.created_at, b.created_at, a.created_at);
    }
    if text::text_lt(a.context_id, b.context_id) && text::text_lt(b.context_id, a.context_id) {
        text::lemma_text_lt_transitive(a.context_id, b.context_id, a.context_id);
    }
}

/// A row is selected exactly if it is not newer than the row number and not behind the
/// position; the others stay as they were, in their order.
pub proof fn law_rows_are_selected_one_by_one(
    before: Seq<CompiledContextRow>,
    row: CompiledContextRow,
    behind: Seq<CompiledContextRow>,
    max_rowid: i64,
    through: Option<ContextKeyView>,
)
    ensures
        compiled_context::selected(before + seq![row] + behind, max_rowid, through)
            == compiled_context::selected(before, max_rowid, through) + (if row.rowid <= max_rowid
            && (through is Some ==> !compiled_context::key_lt(through->0, row.key())) {
            seq![row]
        } else {
            Seq::empty()
        }) + compiled_context::selected(behind, max_rowid, through),
        compiled_context::selected(Seq::empty(), max_rowid, through) == Seq::<
            CompiledContextRow,
        >::empty(),
    decreases behind.len(),
{
    let all = before + seq![row] + behind;
    if through is Some {
        law_documents_sort_by_moment(row.key(), through->0);
    }
    let here = if row.rowid <= max_rowid && (through is Some ==> !compiled_context::key_lt(
        through->0,
        row.key(),
    )) {
        seq![row]
    } else {
        Seq::empty()
    };
    if behind.len() == 0 {
        assert(all.drop_last() =~= before);
        assert(all.last() == row);
        assert(compiled_context::selected(all, max_rowid, through)
            =~= compiled_context::selected(before, max_rowid, through) + here
            + compiled_context::selected(behind, max_rowid, through));
    } else {
        let rest = behind.drop_last();
        law_rows_are_selected_one_by_one(before, row, rest, max_rowid, through);
        assert(all.drop_last() =~= before + seq![row] + rest);
        assert(all.last() == behind.last());
        assert(compiled_context::selected(all, max_rowid, through)
            =~= compiled_context::selected(before, max_rowid, through) + here
            + compiled_context::selected(behind, max_rowid, through));
    }
}

/// A page looks at a row exactly if the row is behind the position and not newer than
/// the row number, and at no more rows than one beyond the limit.
pub proof fn law_pages_look_behind_their_position(
    rows: Seq<CompiledContextRow>,
    max_rowid: i64,
    ordering: ContextKeyView,
    limit: int,
    at: int,
)
    requires
        rows.len() <= usize::MAX,
        0 <= at < rows.len(),
        limit >= 0,
    ensures
        compiled_context::following(rows, max_rowid, ordering).contains(at as usize)
            <==> rows[at].rowid <= max_rowid && compiled_context::key_lt(ordering, rows[at].key()),
        compiled_context::page_places(rows, max_rowid, ordering, limit).len() <= limit + 1,
        compiled_context::following(rows, max_rowid, ordering).len() <= limit + 1
            ==> compiled_context::page_places(rows, max_rowid, ordering, limit)
            == compiled_context::following(rows, max_rowid, ordering),
        forall|i: int|
            0 <= i < compiled_context::page_places(rows, max_rowid, ordering, limit).len() ==> (
            #[trigger] compiled_context::page_places(rows, max_rowid, ordering, limit)[i])
                == compiled_context::following(rows, max_rowid, ordering)[i],
{
    lemma_following_holds(rows, max_rowid, ordering, at);
}

proof fn lemma_following_holds(
    rows: Seq<CompiledContextRow>,
    max_rowid: i64,
    ordering: ContextKeyView,
    at: int,
)
    requires
        rows.len() <= usize::MAX,
        0 <= at,
        at <= usize::MAX,
    ensures
        compiled_context::following(rows, max_rowid, ordering).contains(at as usize) <==> at
            < rows.len() && rows[at].rowid <= max_rowid && compiled_context::key_lt(
            ordering,
            rows[at].key(),
        ),
    decreases rows.len(),
{
    if rows.len() > 0 {
        let rest = rows.drop_last();
        lemma_following_holds(rest, max_rowid, ordering, at);
        let front = compiled_context::following(rest, max_rowid, ordering);
        let last = (rows.len() - 1) as usize;
        assert(front.push(last).contains(at as usize) <==> front.contains(at as usize) || at
            == rows.len() - 1) by {
            if front.contains(at as usize) {
                let k = choose|k: int| 0 <= k < front.len() && front[k] == at as usize;
                assert(front.push(last)[k] == at as usize);
            }
            if at == rows.len() - 1 {
                assert(front.push(last)[front.len() as int] == at as usize);
            }
            if front.push(last).contains(at as usize) {
                let k = choose|k: int|
                    0 <= k < front.push(last).len() && front.push(last)[k] == at as usize;
                if k < front.len() {
                    assert(front[k] == at as usize);
                }
            }
        }
        if at < rest.len() {
            assert(rest[at] == rows[at]);
        }
    } else {
        assert(!compiled_context::following(rows, max_rowid, ordering).contains(at as usize));
    }
}

/// The length of a text in bytes.
pub open spec fn byte_len(s: Seq<char>) -> nat {
    digest::text_field(s).len()
}

proof fn lemma_items_within(items: Seq<JsonTree>, from: int, depth: int)
    requires
        0 <= from <= items.len(),
    ensures
        compiled_context::items_fault(items, from, depth) is None <==> (forall|i: int|
            from <= i < items.len() ==> compiled_context::json_fault(
                #[trigger] items[i],
                depth,
            ) is None),
    decreases items.len() - from,
{
    if from < items.len() && compiled_context::json_fault(items[from], depth) is None {
        lemma_items_within(items, from + 1, depth);
    }
}

proof fn lemma_fields_within(fields: Seq<(Seq<char>, JsonTree)>, from: int, depth: int)
    requires
        0 <= from <= fields.len(),
    ensures
        compiled_context::fields_fault(fields, from, depth) is None <==> (forall|i: int|
            from <= i < fields.len() ==> !compiled_context::over_long((#[trigger] fields[i]).0)
                && compiled_context::json_fault(fields[i].1, depth) is None),
    decreases fields.len() - from,
{
    if from < fields.len() && compiled_context::json_fault(fields[from].1, depth) is None
        && !compiled_context::over_long(fields[from].0) {
        lemma_fields_within(fields, from + 1, depth);
    }
}

/// A stored document is within bounds exactly if it is not nested too deeply, no text or
/// name in it is too long and no list or record in it has too many entries.
pub proof fn law_stored_documents_are_bounded_throughout(tree: JsonTree, depth: int)
    ensures
        depth > MAX_APPLICATION_JSON_DEPTH ==> compiled_context::json_fault(tree, depth) is Some,
        depth <= MAX_APPLICATION_JSON_DEPTH ==> (compiled_context::json_fault(tree, depth) is None
            <==> match tree {
            JsonTree::Text(s) => byte_len(s) <= MAX_APPLICATION_STRING_BYTES,
            JsonTree::List(items) => items.len() <= MAX_APPLICATION_NESTED_VECTOR_ITEMS && (forall|
                i: int,
            |
                0 <= i < items.len() ==> compiled_context::json_fault(
                    #[trigger] items[i],
                    depth + 1,
                ) is None),
            JsonTree::Record(fields) => fields.len() <= MAX_APPLICATION_NESTED_VECTOR_ITEMS && (
            forall|i: int|
                0 <= i < fields.len() ==> byte_len((#[trigger] fields[i]).0)
                    <= MAX_APPLICATION_STRING_BYTES && compiled_context::json_fault(
                    fields[i].1,
                    depth + 1,
                ) is None),
            _ => true,
        }),
{
    match tree {
        JsonTree::List(items) => lemma_items_within(items, 0, depth + 1),
        JsonTree::Record(fields) => lemma_fields_within(fields, 0, depth + 1),
        _ => {},
    }
}

/// An accepted governor request has a task, not too many targets, a byte cap exactly
/// where source is to be handed out, and deep limits exactly where the DEEP route may be
/// taken.
pub proof fn law_accepted_governor_requests_are_bounded(
    request: GovernorRunRequest,
    task_hash: Seq<char>,
    kind: TaskKind,
    generation: GenerationView,
)
    requires
        request.fault(task_hash, kind, generation) is None,
    ensures
        ({
            let s = request.semantic;
            &&& !text::blank(s.task@)
            &&& s.path_targets@.len() + s.symbol_targets@.len() <= MAX_GOVERNOR_TARGETS
            &&& forall|i: int|
                0 <= i < s.path_targets@.len() ==> 0 < (#[trigger] s.path_targets@[i])@.len()
                    && byte_len(s.path_targets@[i]@) <= MAX_GOVERNOR_TARGET_BYTES
            &&& forall|i: int|
                0 <= i < s.symbol_targets@.len() ==> 0 < (#[trigger] s.symbol_targets@[i])@.len()
                    && byte_len(s.symbol_targets@[i]@) <= MAX_GOVERNOR_TARGET_BYTES
            &&& (s.materialize_source <==> s.max_materialized_bytes is Some)
            &&& (s.max_materialized_bytes matches Some(limit) ==> 0 < limit
                <= MAX_CONTEXT_EXECUTION_SOURCE_BYTES)
            &&& (s.deep_limits is Some <==> s.route_ceiling == Route::AtlasDeep)
            &&& (s.legacy_task_session_id matches Some(id) ==> 0 < id@.len()
                && byte_len(id@) <= 128)
        }),
{
    let s = request.semantic;
    let paths = text::texts(s.path_targets@);
    let symbols = text::texts(s.symbol_targets@);
    assert(s.bounds_fault() is None);
    assert(s.limits_fault() is None);
    assert forall|i: int| 0 <= i < s.path_targets@.len() implies 0 < (
    #[trigger] s.path_targets@[i])@.len() && byte_len(s.path_targets@[i]@)
        <= MAX_GOVERNOR_TARGET_BYTES by {
        assert(!context_application::target_out_of_bounds(paths[i]));
    }
    assert forall|i: int| 0 <= i < s.symbol_targets@.len() implies 0 < (
    #[trigger] s.symbol_targets@[i])@.len() && byte_len(s.symbol_targets@[i]@)
        <= MAX_GOVERNOR_TARGET_BYTES by {
        assert(!context_application::target_out_of_bounds(symbols[i]));
    }
}

/// Nothing else about the size of a governor request refuses it: within those bounds it
/// is refused for its versions, its limits or its route alone.
pub proof fn law_bounded_governor_requests_are_accepted(s: GovernorRunSemanticInput)
    requires
        !text::blank(s.task@),
        byte_len(s.task@) <= MAX_GOVERNOR_REQUEST_BYTES,
        s.path_targets@.len() + s.symbol_targets@.len() <= MAX_GOVERNOR_TARGETS,
        forall|i: int|
            0 <= i < s.path_targets@.len() ==> 0 < (#[trigger] s.path_targets@[i])@.len()
                && byte_len(s.path_targets@[i]@) <= MAX_GOVERNOR_TARGET_BYTES,
        forall|i: int|
            0 <= i < s.symbol_targets@.len() ==> 0 < (#[trigger] s.symbol_targets@[i])@.len()
                && byte_len(s.symbol_targets@[i]@) <= MAX_GOVERNOR_TARGET_BYTES,
        s.legacy_task_session_id is None,
        s.materialize_source <==> s.max_materialized_bytes is Some,
        s.max_materialized_bytes matches Some(limit) ==> 0 < limit
            <= MAX_CONTEXT_EXECUTION_SOURCE_BYTES,
    ensures
        s.bounds_fault() is None,
        s.deep_limits is None && s.route_ceiling != Route::AtlasDeep ==> s.limits_fault() is None,
{
    let paths = text::texts(s.path_targets@);
    let symbols = text::texts(s.symbol_targets@);
    assert forall|i: int| 0 <= i < paths.len() implies !context_application::target_out_of_bounds(
        #[trigger] paths[i],
    ) by {
        assert(s.path_targets@[i]@ == paths[i]);
    }
    assert forall|i: int| 0 <= i < symbols.len() implies !context_application::target_out_of_bounds(
        #[trigger] symbols[i],
    ) by {
        assert(s.symbol_targets@[i]@ == symbols[i]);
    }
}

/// The route request of a governor request asks for what the governor asked for, and
/// carries its limits unchanged.
pub proof fn law_route_requests_carry_the_governors_wishes(
    s: GovernorRunSemanticInput,
    task_hash: Seq<char>,
    kind: TaskKind,
    generation: GenerationView,
)
    ensures
        ({
            let r = s.route_request(task_hash, kind, generation);
            &&& r.normalized_task_hash == task_hash
            &&& r.classifier_kind == kind
            &&& r.declared_kind == s.declared_kind
            &&& r.caller_capabilities == s.caller_capabilities
            &&& r.atlas_intent == s.atlas_intent
            &&& r.route_floor == s.route_floor
            &&& r.route_ceiling == s.route_ceiling
            &&& r.starting_generation == generation
            &&& (r.deep_budget is Some <==> s.deep_limits is Some)
            &&& (s.deep_limits matches Some(limits) ==> {
                &&& r.deep_budget->0.max_records == limits.max_records
                &&& r.deep_budget->0.max_source_bytes == limits.max_source_bytes
                &&& r.deep_budget->0.max_estimated_tokens == limits.max_estimated_tokens
                &&& r.deep_budget->0.max_depth == limits.max_relationship_depth
                &&& r.deep_budget->0.max_work_units == limits.max_work_units
                &&& r.deep_budget->0.uncertainty_reserve_percent
                    == limits.uncertainty_reserve_percent
                &&& r.deep_budget->0.budget_digest == r.deep_budget->0.digest()
            })
        }),
{
    if let Some(limits) = s.deep_limits {
        let budget = context_application::budget_of(limits);
        assert(budget.digest() == budget.budget_digest);
    }
}

/// A session yields a report only once it was completed and accepted, and its outcome is
/// whole exactly if its end is known in full.
pub proof fn law_only_accepted_sessions_yield(session: TaskSession)
    ensures
        context_yield::is_accepted(session) <==> session.state == TaskSessionState::Completed
            && session.accepted == Some(true),
        context_yield::outcome_gap(session) is None <==> session.completed_at is Some
            && session.end_generation_id is Some && session.end_tree_hash is Some
            && session.outcome_code is Some,
{
}

/// A report carries every metric as it was measured, under its name, and lists what
/// limits it exactly where that is the case.
pub proof fn law_reports_carry_what_was_measured(
    report: ContextYieldReportV15,
    names: ReportNames,
    workspace_id: Seq<char>,
    session: TaskSession,
    outcome: AcceptedOutcome,
    context: ContextIr,
    metrics: ContextMetrics,
)
    requires
        context_yield::report_of(
            report,
            names,
            workspace_id,
            session,
            outcome,
            context,
            metrics,
        ),
    ensures
        ({
            let m = report.content.raw_measures.metrics@;
            let l = report.content.validity.limitations@;
            &&& m.len() == 5
            &&& m[0].name == ContextYieldMetricName::ContextPrecisionObserved && m[0].numerator
                == metrics.context_precision_observed.numerator && m[0].denominator
                == metrics.context_precision_observed.denominator
            &&& m[1].name == ContextYieldMetricName::ContextPrecisionReported && m[1].numerator
                == metrics.context_precision_reported.numerator && m[1].denominator
                == metrics.context_precision_reported.denominator
            &&& m[2].name == ContextYieldMetricName::ContextExpansionCount && m[2].numerator
                == metrics.context_expansion_count.numerator && m[2].denominator
                == metrics.context_expansion_count.denominator
            &&& m[3].name == ContextYieldMetricName::RediscoveryRate && m[3].numerator
                == metrics.rediscovery_rate.numerator && m[3].denominator
                == metrics.rediscovery_rate.denominator
            &&& m[4].name == ContextYieldMetricName::SourceEfficiencyObserved && m[4].numerator
                == metrics.source_efficiency_observed.numerator && m[4].denominator
                == metrics.source_efficiency_observed.denominator
            &&& (l.contains(ContextYieldLimitation::PartialObservationCoverage)
                <==> metrics.context_precision_observed.numerator
                != metrics.context_precision_observed.denominator)
            &&& (l.contains(ContextYieldLimitation::ServingFallback)
                <==> context.status.serving_fallback)
            &&& (l.contains(ContextYieldLimitation::TruncatedContext)
                <==> context.omissions.truncated)
        }),
{
    let l = report.content.validity.limitations@;
    let observed = context_yield::fully_observed(metrics);
    let fallback = context.status.serving_fallback;
    let truncated = context.omissions.truncated;
    let head = context_yield::entry_if(
        !observed,
        ContextYieldLimitation::PartialObservationCoverage,
    );
    let one = head + seq![ContextYieldLimitation::SmallSampleSize];
    let two = one + context_yield::entry_if(fallback, ContextYieldLimitation::ServingFallback);
    let three = two + context_yield::entry_if(truncated, ContextYieldLimitation::TruncatedContext);
    assert(l == three + seq![ContextYieldLimitation::SingleEnvironment]);
    if !observed {
        assert(l[0] == ContextYieldLimitation::PartialObservationCoverage);
    }
    if fallback {
        assert(l[one.len() as int] == ContextYieldLimitation::ServingFallback);
    }
    if truncated {
        assert(l[two.len() as int] == ContextYieldLimitation::TruncatedContext);
    }
}

proof fn lemma_fitting(s: Seq<char>, limit: int, from: int)
    requires
        0 <= from <= s.len(),
        byte_len(s.take(from)) <= limit,
    ensures
        from <= cli::fitting(s, limit, from) <= s.len(),
        byte_len(s.take(cli::fitting(s, limit, from))) <= limit,
        cli::fitting(s, limit, from) < s.len() ==> byte_len(
            s.take(cli::fitting(s, limit, from) + 1),
        ) > limit,
    decreases s.len() - from,
{
    if from < s.len() && byte_len(s.take(from + 1)) <= limit {
        lemma_fitting(s, limit, from + 1);
    }
}

/// The detail of an error is reported whole where it is the Atlas's own or short enough;
/// another is cut where it still fits, and one character more would not have.
pub proof fn law_details_are_cut_where_they_must(error: CliError, detail: Seq<char>)
    ensures
        ({
            let shown = cli::reported_detail(error, detail);
            &&& (error is Atlas ==> shown == detail)
            &&& (byte_len(detail) <= MAX_ADDITIVE_ERROR_DETAIL_BYTES ==> shown == detail)
            &&& (!(error is Atlas) ==> byte_len(shown) <= MAX_ADDITIVE_ERROR_DETAIL_BYTES)
            &&& shown.len() <= detail.len()
            &&& shown == detail.take(shown.len() as int)
            &&& (shown.len() < detail.len() ==> byte_len(detail.take((shown.len() + 1) as int))
                > MAX_ADDITIVE_ERROR_DETAIL_BYTES)
        }),
{
    assert(detail.take(0) =~= Seq::empty());
    assert(detail.take(detail.len() as int) =~= detail);
    assert(byte_len(Seq::empty()) == 0);
    lemma_fitting(detail, MAX_ADDITIVE_ERROR_DETAIL_BYTES as int, 0);
}

} // verus!
