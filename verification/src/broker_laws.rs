//! What a Context Packet owes its request: which candidates there are, what they score,
//! and which of them are shown.
use vstd::prelude::*;

use crate::broker;
use crate::broker::{
    BrokerMode, CandidateView, Frontier, GenerationFacts, ObservationView, PacketScope,
    RelationshipRowView, ResolvedSymbolView, ScoredCandidate, SymbolRowView, TaskRequestView,
};
use crate::digest;
use crate::sorted;
use crate::text;

verus! {

// ---------------------------------------------------------------------------
// What a candidate scores
// ---------------------------------------------------------------------------

/// A score, held at the largest that can be written.
pub open spec fn held(points: int) -> int {
    if points <= u64::MAX {
        points
    } else {
        u64::MAX as int
    }
}

/// How often a text is listed.
pub open spec fn times(list: Seq<Seq<char>>, item: Seq<char>) -> int
    decreases list.len(),
{
    if list.len() == 0 {
        0
    } else {
        times(list.drop_last(), item) + if list.last() == item {
            1int
        } else {
            0
        }
    }
}

/// The task names the file of the path: its last part occurs in the task, whatever the
/// case of the letters.
pub open spec fn names_file(task: Seq<char>, path: Seq<char>) -> bool {
    text::contains_text(text::ascii_lower(task), text::ascii_lower(text::file_name(path)))
}

/// The task names the symbol.
pub open spec fn names_symbol(task: Seq<char>, name: Seq<char>) -> bool {
    name.len() > 0 && text::contains_text(text::ascii_lower(task), text::ascii_lower(name))
}

/// How many symbols a file has in the catalogue.
pub open spec fn symbols_in(rows: Seq<SymbolRowView>, path: Seq<char>) -> int
    decreases rows.len(),
{
    if rows.len() == 0 {
        0
    } else {
        symbols_in(rows.drop_last(), path) + if rows.last().canonical_path == path {
            1int
        } else {
            0
        }
    }
}

/// What a file scores: 100 for each time that the request lists it, and 70 for each of
/// its symbols where the task names the file.
pub open spec fn file_points(
    req: TaskRequestView,
    rows: Seq<SymbolRowView>,
    path: Seq<char>,
) -> int {
    100 * times(req.known_paths, path) + if names_file(req.task, path) {
        70 * symbols_in(rows, path)
    } else {
        0
    }
}

/// What a symbol scores for being listed: 115 each time on semantic evidence and 100 on
/// any other, where the catalogue knows it.
pub open spec fn listed_points(
    symbols: Seq<Seq<char>>,
    resolved: Seq<Option<ResolvedSymbolView>>,
    key: Seq<char>,
) -> int
    decreases symbols.len(),
{
    if symbols.len() == 0 {
        0
    } else {
        let at = symbols.len() - 1;
        listed_points(symbols.drop_last(), resolved, key) + if symbols[at] == key && at
            < resolved.len() && resolved[at] is Some {
            if resolved[at]->0.evidence_method == "semantic"@ {
                115int
            } else {
                100
            }
        } else {
            0
        }
    }
}

/// What a symbol scores for being named in the task: 95 each time on semantic evidence
/// and 80 on any other.
pub open spec fn named_points(task: Seq<char>, rows: Seq<SymbolRowView>, key: Seq<char>) -> int
    decreases rows.len(),
{
    if rows.len() == 0 {
        0
    } else {
        let row = rows.last();
        named_points(task, rows.drop_last(), key) + if row.canonical_symbol_key == key
            && names_symbol(task, row.display_name) {
            if row.evidence_method == "semantic"@ {
                95int
            } else {
                80
            }
        } else {
            0
        }
    }
}

/// What a symbol scores.
pub open spec fn symbol_points(
    req: TaskRequestView,
    resolved: Seq<Option<ResolvedSymbolView>>,
    rows: Seq<SymbolRowView>,
    key: Seq<char>,
) -> int {
    listed_points(req.known_symbols, resolved, key) + named_points(req.task, rows, key)
}

/// The text stands for a file among the keys of candidates.
pub open spec fn marks_file(key: Seq<char>) -> bool {
    key.len() >= 5 && key.take(5) == "path:"@
}

/// No symbol goes by a key that stands for a file.
pub open spec fn keys_are_apart(req: TaskRequestView, rows: Seq<SymbolRowView>) -> bool {
    &&& forall|i: int| 0 <= i < req.known_symbols.len() ==> !marks_file(#[trigger] req.known_symbols[i])
    &&& forall|i: int| 0 <= i < rows.len() ==> !marks_file((#[trigger] rows[i]).canonical_symbol_key)
}

proof fn lemma_path_key(path: Seq<char>)
    ensures
        marks_file(broker::path_key(path)),
        broker::path_key(path).len() == 5 + path.len(),
{
    reveal_strlit("path:");
    assert("path:"@.len() == 5);
    assert(broker::path_key(path).take(5) =~= "path:"@);
}

proof fn lemma_path_keys_differ(a: Seq<char>, b: Seq<char>)
    ensures
        broker::path_key(a) == broker::path_key(b) <==> a == b,
{
    lemma_path_key(a);
    reveal_strlit("path:");
    assert(broker::path_key(a).skip(5) =~= a);
    assert(broker::path_key(b).skip(5) =~= b);
}

/// The place of a key is the first one that has it.
proof fn lemma_place_is_first(items: Seq<CandidateView>, key: Seq<char>)
    ensures
        0 <= broker::place_of(items, key) <= items.len(),
        forall|i: int| 0 <= i < broker::place_of(items, key) ==> (#[trigger] items[i]).key != key,
        broker::place_of(items, key) < items.len() ==> items[broker::place_of(items, key)].key
            == key,
    decreases items.len(),
{
    if items.len() > 0 {
        let init = items.drop_last();
        lemma_place_is_first(init, key);
        assert forall|i: int| 0 <= i < init.len() implies #[trigger] items[i] == init[i] by {}
    }
}

proof fn lemma_first_place(items: Seq<CandidateView>, key: Seq<char>, at: int)
    requires
        0 <= at <= items.len(),
        forall|i: int| 0 <= i < at ==> (#[trigger] items[i]).key != key,
        at < items.len() ==> items[at].key == key,
    ensures
        broker::place_of(items, key) == at,
{
    lemma_place_is_first(items, key);
    let p = broker::place_of(items, key);
    if p < at {
        assert(items[p].key != key);
    }
    if at < p {
        assert(items[at].key != key);
    }
}

/// The score that a key has in a list; none where it is not listed.
pub open spec fn score_of(items: Seq<CandidateView>, key: Seq<char>) -> int {
    let at = broker::place_of(items, key);
    if at < items.len() {
        items[at].score
    } else {
        0
    }
}

/// The key is listed.
pub open spec fn listed(items: Seq<CandidateView>, key: Seq<char>) -> bool {
    broker::place_of(items, key) < items.len()
}

/// One more mention of a candidate adds to its own score and to no other.
proof fn lemma_bump(
    items: Seq<CandidateView>,
    candidate: CandidateView,
    bump: int,
    key: Seq<char>,
)
    requires
        candidate.score == 0,
        bump >= 0,
    ensures
        ({
            let after = broker::add_or_bumped(items, candidate, bump);
            &&& score_of(after, key) == if key == candidate.key {
                held(score_of(items, key) + bump)
            } else {
                score_of(items, key)
            }
            &&& listed(after, key) <==> listed(items, key) || key == candidate.key
            &&& listed(items, key) ==> broker::place_of(after, key) == broker::place_of(items, key)
            &&& !listed(items, key) && key == candidate.key ==> after == items.push(
                candidate.bumped(bump),
            ) && broker::place_of(after, key) == items.len()
        }),
{
    let after = broker::add_or_bumped(items, candidate, bump);
    let at = broker::place_of(items, candidate.key);
    let p = broker::place_of(items, key);
    lemma_place_is_first(items, candidate.key);
    lemma_place_is_first(items, key);
    if at < items.len() {
        assert forall|i: int| 0 <= i < items.len() implies (#[trigger] after[i]).key
            == items[i].key by {}
        assert forall|i: int| 0 <= i < p implies (#[trigger] after[i]).key != key by {
            assert(items[i].key != key);
        }
        lemma_first_place(after, key, p);
    } else {
        assert forall|i: int| 0 <= i < items.len() implies #[trigger] after[i] == items[i] by {}
        assert forall|i: int| 0 <= i < p implies (#[trigger] after[i]).key != key by {
            assert(items[i].key != key);
        }
        if p < items.len() {
            lemma_first_place(after, key, p);
        } else if key == candidate.key {
            lemma_first_place(after, key, items.len() as int);
        } else {
            lemma_first_place(after, key, after.len() as int);
        }
    }
}

/// The candidate stands for a file or for a symbol, and its key says which.
pub open spec fn formed(c: CandidateView) -> bool {
    match c.canonical_symbol_key {
        Some(key) => c.key == key && !marks_file(key),
        None => c.key == broker::path_key(c.canonical_path),
    }
}

/// Every candidate of the list is formed, and stands at a distance.
pub open spec fn all_formed(items: Seq<CandidateView>) -> bool {
    forall|i: int| 0 <= i < items.len() ==> formed(#[trigger] items[i]) && items[i].distance == 0
}

proof fn lemma_bump_formed(items: Seq<CandidateView>, candidate: CandidateView, bump: int)
    requires
        all_formed(items),
        formed(candidate),
        candidate.distance == 0,
    ensures
        all_formed(broker::add_or_bumped(items, candidate, bump)),
{
    let after = broker::add_or_bumped(items, candidate, bump);
    lemma_place_is_first(items, candidate.key);
    assert forall|i: int| 0 <= i < after.len() implies formed(#[trigger] after[i])
        && after[i].distance == 0 by {
        if i < items.len() {
            assert(formed(items[i]));
        }
    }
}

proof fn lemma_known_paths(paths: Seq<Seq<char>>, key: Seq<char>, path: Seq<char>)
    ensures
        all_formed(broker::with_known_paths(Seq::empty(), paths)),
        score_of(broker::with_known_paths(Seq::empty(), paths), broker::path_key(path)) == held(
            100 * times(paths, path),
        ),
        listed(broker::with_known_paths(Seq::empty(), paths), broker::path_key(path)) <==> times(
            paths,
            path,
        ) > 0,
        times(paths, path) >= 0,
        !marks_file(key) ==> !listed(broker::with_known_paths(Seq::empty(), paths), key)
            && score_of(broker::with_known_paths(Seq::empty(), paths), key) == 0,
    decreases paths.len(),
{
    if paths.len() > 0 {
        let init = paths.drop_last();
        lemma_known_paths(init, key, path);
        let before = broker::with_known_paths(Seq::empty(), init);
        let candidate = broker::path_candidate(paths.last(), 0);
        lemma_path_key(paths.last());
        lemma_path_keys_differ(paths.last(), path);
        lemma_bump(before, candidate, 100, broker::path_key(path));
        lemma_bump(before, candidate, 100, key);
        lemma_bump_formed(before, candidate, 100);
    }
}

proof fn lemma_known_symbols(
    acc: Seq<CandidateView>,
    symbols: Seq<Seq<char>>,
    resolved: Seq<Option<ResolvedSymbolView>>,
    key: Seq<char>,
    path: Seq<char>,
)
    requires
        all_formed(acc),
        forall|i: int| 0 <= i < symbols.len() ==> !marks_file(#[trigger] symbols[i]),
        !marks_file(key),
        !listed(acc, key),
        score_of(acc, broker::path_key(path)) >= 0,
    ensures
        ({
            let after = broker::with_known_symbols(acc, symbols, resolved);
            let pk = broker::path_key(path);
            &&& all_formed(after)
            &&& score_of(after, pk) == score_of(acc, pk)
            &&& listed(after, pk) <==> listed(acc, pk)
            &&& score_of(after, key) == held(listed_points(symbols, resolved, key))
            &&& listed(after, key) <==> listed_points(symbols, resolved, key) > 0
            &&& listed_points(symbols, resolved, key) >= 0
        }),
    decreases symbols.len(),
{
    if symbols.len() > 0 {
        let init = symbols.drop_last();
        assert forall|i: int| 0 <= i < init.len() implies !marks_file(#[trigger] init[i]) by {
            assert(init[i] == symbols[i]);
        }
        lemma_known_symbols(acc, init, resolved, key, path);
        let before = broker::with_known_symbols(acc, init, resolved);
        let at = symbols.len() - 1;
        assert(symbols.last() == symbols[at]);
        if at < resolved.len() && resolved[at] is Some {
            let found = resolved[at]->0;
            let semantic = broker::is_semantic(found.evidence_method);
            let candidate = broker::symbol_candidate(
                symbols.last(),
                found.canonical_path,
                found.display_name,
                found.symbol_kind,
                semantic,
            );
            let bump = if semantic {
                115int
            } else {
                100
            };
            lemma_path_key(path);
            assert(!marks_file(symbols[at]));
            lemma_bump(before, candidate, bump, broker::path_key(path));
            lemma_bump(before, candidate, bump, key);
            lemma_bump_formed(before, candidate, bump);
        }
    }
}

proof fn lemma_mention(
    acc: Seq<CandidateView>,
    task: Seq<char>,
    row: SymbolRowView,
    key: Seq<char>,
    path: Seq<char>,
)
    requires
        all_formed(acc),
        !marks_file(row.canonical_symbol_key),
        !marks_file(key),
    ensures
        ({
            let after = broker::with_mention(acc, text::ascii_lower(task), row);
            let pk = broker::path_key(path);
            let filed = row.canonical_path == path && names_file(task, path);
            let named = row.canonical_symbol_key == key && names_symbol(task, row.display_name);
            &&& all_formed(after)
            &&& score_of(after, pk) == if filed {
                held(score_of(acc, pk) + 70)
            } else {
                score_of(acc, pk)
            }
            &&& listed(after, pk) <==> listed(acc, pk) || filed
            &&& score_of(after, key) == if named {
                held(
                    score_of(acc, key) + if row.evidence_method == "semantic"@ {
                        95int
                    } else {
                        80
                    },
                )
            } else {
                score_of(acc, key)
            }
            &&& listed(after, key) <==> listed(acc, key) || named
        }),
{
    let pk = broker::path_key(path);
    let semantic = broker::is_semantic(row.evidence_method);
    let candidate = broker::symbol_candidate(
        row.canonical_symbol_key,
        row.canonical_path,
        row.display_name,
        row.symbol_kind,
        semantic,
    );
    let bump = if semantic {
        95int
    } else {
        80
    };
    lemma_path_key(path);
    lemma_path_key(row.canonical_path);
    lemma_path_keys_differ(row.canonical_path, path);
    let middle = if names_symbol(task, row.display_name) {
        broker::add_or_bumped(acc, candidate, bump)
    } else {
        acc
    };
    if names_symbol(task, row.display_name) {
        lemma_bump(acc, candidate, bump, pk);
        lemma_bump(acc, candidate, bump, key);
        lemma_bump_formed(acc, candidate, bump);
    }
    let file = broker::path_candidate(row.canonical_path, 0);
    if names_file(task, row.canonical_path) {
        lemma_bump(middle, file, 70, pk);
        lemma_bump(middle, file, 70, key);
        lemma_bump_formed(middle, file, 70);
    }
}

proof fn lemma_mentions(
    acc: Seq<CandidateView>,
    task: Seq<char>,
    rows: Seq<SymbolRowView>,
    key: Seq<char>,
    path: Seq<char>,
    file_start: int,
    symbol_start: int,
)
    requires
        all_formed(acc),
        forall|i: int|
            0 <= i < rows.len() ==> !marks_file((#[trigger] rows[i]).canonical_symbol_key),
        !marks_file(key),
        file_start >= 0,
        symbol_start >= 0,
        score_of(acc, broker::path_key(path)) == held(file_start),
        score_of(acc, key) == held(symbol_start),
        listed(acc, broker::path_key(path)) <==> file_start > 0,
        listed(acc, key) <==> symbol_start > 0,
    ensures
        ({
            let after = broker::with_mentions(acc, text::ascii_lower(task), rows);
            let pk = broker::path_key(path);
            let filed = file_start + if names_file(task, path) {
                70 * symbols_in(rows, path)
            } else {
                0
            };
            let named = symbol_start + named_points(task, rows, key);
            &&& all_formed(after)
            &&& score_of(after, pk) == held(filed)
            &&& listed(after, pk) <==> filed > 0
            &&& score_of(after, key) == held(named)
            &&& listed(after, key) <==> named > 0
            &&& symbols_in(rows, path) >= 0
            &&& named_points(task, rows, key) >= 0
        }),
    decreases rows.len(),
{
    if rows.len() > 0 {
        let init = rows.drop_last();
        assert forall|i: int| 0 <= i < init.len() implies !marks_file(
            (#[trigger] init[i]).canonical_symbol_key,
        ) by {
            assert(init[i] == rows[i]);
        }
        lemma_mentions(acc, task, init, key, path, file_start, symbol_start);
        let before = broker::with_mentions(acc, text::ascii_lower(task), init);
        assert(rows[rows.len() - 1] == rows.last());
        lemma_mention(before, task, rows.last(), key, path);
    }
}

/// What the seeds of a request score, key by key.
proof fn lemma_seeds(
    req: TaskRequestView,
    resolved: Seq<Option<ResolvedSymbolView>>,
    rows: Seq<SymbolRowView>,
    key: Seq<char>,
    path: Seq<char>,
)
    requires
        keys_are_apart(req, rows),
        !marks_file(key),
    ensures
        ({
            let all = broker::seeds(req, resolved, rows);
            let pk = broker::path_key(path);
            &&& all_formed(all)
            &&& score_of(all, pk) == held(file_points(req, rows, path))
            &&& listed(all, pk) <==> file_points(req, rows, path) > 0
            &&& score_of(all, key) == held(symbol_points(req, resolved, rows, key))
            &&& listed(all, key) <==> symbol_points(req, resolved, rows, key) > 0
        }),
{
    lemma_known_paths(req.known_paths, key, path);
    let paths = broker::with_known_paths(Seq::empty(), req.known_paths);
    lemma_known_symbols(paths, req.known_symbols, resolved, key, path);
    let known = broker::with_known_symbols(paths, req.known_symbols, resolved);
    lemma_mentions(
        known,
        req.task,
        rows,
        key,
        path,
        100 * times(req.known_paths, path),
        listed_points(req.known_symbols, resolved, key),
    );
}

// ---------------------------------------------------------------------------
// One hop further
// ---------------------------------------------------------------------------

/// What a relationship is worth to the file that it leads to.
pub open spec fn worth(kind: Seq<char>) -> int {
    if kind == "calls"@ {
        50
    } else if kind == "imports"@ {
        40
    } else {
        20
    }
}

/// The candidate is a file that some relationship leads to, and scores what that
/// relationship is worth.
pub open spec fn led_to(c: CandidateView, lists: Seq<Seq<RelationshipRowView>>) -> bool {
    &&& c.canonical_symbol_key is None
    &&& c.distance == 1
    &&& exists|i: int, j: int|
        {
            &&& 0 <= i < lists.len() && 0 <= j < lists[i].len()
            &&& (#[trigger] lists[i][j]).target_ref_kind == "path"@
            &&& lists[i][j].target_ref_value == c.canonical_path
            &&& c.score == worth(lists[i][j].relationship_type)
        }
}

/// How a widened list stands to the one that it began with.
spec fn widened(
    base: Seq<CandidateView>,
    f: Frontier,
    met: spec_fn(RelationshipRowView) -> bool,
) -> bool {
    &&& f.items.len() >= base.len()
    &&& f.items.take(base.len() as int) == base
    &&& forall|i: int| 0 <= i < f.items.len() ==> formed(#[trigger] f.items[i])
    &&& forall|i: int| 0 <= i < f.items.len() ==> f.seen.contains((#[trigger] f.items[i]).canonical_path)
    &&& forall|i: int|
        base.len() <= i < f.items.len() ==> {
            &&& (#[trigger] f.items[i]).distance == 1
            &&& f.items[i].canonical_symbol_key is None
            &&& exists|row: RelationshipRowView| #[trigger]
                met(row) && row.target_ref_kind == "path"@ && row.target_ref_value
                    == f.items[i].canonical_path && f.items[i].score == worth(
                    row.relationship_type,
                )
        }
    &&& forall|p: Seq<char>| #[trigger] f.seen.contains(p) ==> has_path(f.items, p)
}

/// Some candidate has the path.
spec fn has_path(items: Seq<CandidateView>, path: Seq<char>) -> bool {
    exists|i: int| 0 <= i < items.len() && (#[trigger] items[i]).canonical_path == path
}

proof fn lemma_followed(
    base: Seq<CandidateView>,
    f: Frontier,
    row: RelationshipRowView,
    met: spec_fn(RelationshipRowView) -> bool,
)
    requires
        widened(base, f, met),
        met(row),
    ensures
        widened(base, f.followed(row), met),
        forall|p: Seq<char>| f.seen.contains(p) ==> #[trigger] f.followed(row).seen.contains(p),
        row.target_ref_kind == "path"@ ==> f.followed(row).seen.contains(row.target_ref_value),
{
    let g = f.followed(row);
    let target = row.target_ref_value;
    if row.target_ref_kind == "path"@ && !f.seen.contains(target) {
        let c = broker::path_candidate(target, 1);
        let bump = broker::relationship_bump(row.relationship_type);
        assert(bump == worth(row.relationship_type));
        lemma_place_is_first(f.items, c.key);
        lemma_path_key(target);
        let at = broker::place_of(f.items, c.key);
        if at < f.items.len() {
            assert(formed(f.items[at]));
            let other = f.items[at].canonical_path;
            if f.items[at].canonical_symbol_key is None {
                lemma_path_keys_differ(other, target);
                assert(f.seen.contains(other));
            }
            assert(false);
        }
        let new = c.bumped(bump);
        assert(g.items == f.items.push(new));
        assert(g.items.take(base.len() as int) =~= base) by {
            assert(f.items.take(base.len() as int) =~= base);
        }
        assert(new.score == worth(row.relationship_type));
        assert forall|p: Seq<char>| f.seen.contains(p) implies #[trigger] g.seen.contains(p) by {
            let k = choose|k: int| 0 <= k < f.seen.len() && f.seen[k] == p;
            assert(g.seen[k] == p);
        }
        assert(g.seen[f.seen.len() as int] == target);
        assert forall|i: int| 0 <= i < g.items.len() implies formed(#[trigger] g.items[i]) by {
            if i < f.items.len() {
                assert(g.items[i] == f.items[i]);
            }
        }
        assert forall|i: int| 0 <= i < g.items.len() implies g.seen.contains(
            (#[trigger] g.items[i]).canonical_path,
        ) by {
            if i < f.items.len() {
                assert(g.items[i] == f.items[i]);
                assert(f.seen.contains(f.items[i].canonical_path));
            }
        }
        assert forall|i: int| base.len() <= i < g.items.len() implies {
            &&& (#[trigger] g.items[i]).distance == 1
            &&& g.items[i].canonical_symbol_key is None
            &&& exists|row: RelationshipRowView| #[trigger]
                met(row) && row.target_ref_kind == "path"@ && row.target_ref_value
                    == g.items[i].canonical_path && g.items[i].score == worth(
                    row.relationship_type,
                )
        } by {
            if i < f.items.len() {
                assert(g.items[i] == f.items[i]);
            } else {
                assert(g.items[i] == new);
            }
        }
        assert forall|p: Seq<char>| #[trigger] g.seen.contains(p) implies has_path(g.items, p) by {
            let k = choose|k: int| 0 <= k < g.seen.len() && g.seen[k] == p;
            if k < f.seen.len() {
                assert(g.seen[k] == f.seen[k]);
                assert(f.seen.contains(p));
                let i = choose|i: int|
                    0 <= i < f.items.len() && (#[trigger] f.items[i]).canonical_path == p;
                assert(g.items[i] == f.items[i]);
            } else {
                assert(g.items[f.items.len() as int] == new);
            }
        }
    }
}

proof fn lemma_followed_all(
    base: Seq<CandidateView>,
    f: Frontier,
    rows: Seq<RelationshipRowView>,
    met: spec_fn(RelationshipRowView) -> bool,
)
    requires
        widened(base, f, met),
        forall|j: int| 0 <= j < rows.len() ==> met(#[trigger] rows[j]),
    ensures
        widened(base, f.followed_all(rows), met),
        forall|p: Seq<char>| f.seen.contains(p) ==> #[trigger] f.followed_all(rows).seen.contains(p),
        forall|j: int|
            0 <= j < rows.len() && (#[trigger] rows[j]).target_ref_kind == "path"@
                ==> f.followed_all(rows).seen.contains(rows[j].target_ref_value),
    decreases rows.len(),
{
    if rows.len() > 0 {
        let init = rows.drop_last();
        assert forall|j: int| 0 <= j < init.len() implies met(#[trigger] init[j]) by {
            assert(init[j] == rows[j]);
        }
        lemma_followed_all(base, f, init, met);
        assert(rows[rows.len() - 1] == rows.last());
        lemma_followed(base, f.followed_all(init), rows.last(), met);
        assert forall|j: int|
            0 <= j < rows.len() && (#[trigger] rows[j]).target_ref_kind == "path"@ implies
            f.followed_all(rows).seen.contains(rows[j].target_ref_value) by {
            if j < init.len() {
                assert(init[j] == rows[j]);
                assert(f.followed_all(init).seen.contains(rows[j].target_ref_value));
            }
        }
    }
}

proof fn lemma_expanded(
    base: Seq<CandidateView>,
    f: Frontier,
    lists: Seq<Seq<RelationshipRowView>>,
    met: spec_fn(RelationshipRowView) -> bool,
)
    requires
        widened(base, f, met),
        forall|i: int, j: int|
            0 <= i < lists.len() && 0 <= j < lists[i].len() ==> met(#[trigger] lists[i][j]),
    ensures
        widened(base, f.expanded(lists), met),
        forall|p: Seq<char>| f.seen.contains(p) ==> #[trigger] f.expanded(lists).seen.contains(p),
        forall|i: int, j: int|
            0 <= i < lists.len() && 0 <= j < lists[i].len() && (
            #[trigger] lists[i][j]).target_ref_kind == "path"@ ==> f.expanded(lists).seen.contains(
                lists[i][j].target_ref_value,
            ),
    decreases lists.len(),
{
    if lists.len() > 0 {
        let init = lists.drop_last();
        assert forall|i: int, j: int| 0 <= i < init.len() && 0 <= j < init[i].len() implies met(
            #[trigger] init[i][j],
        ) by {
            assert(init[i] == lists[i]);
            assert(met(lists[i][j]));
        }
        lemma_expanded(base, f, init, met);
        let last = lists.last();
        assert(lists[lists.len() - 1] == last);
        assert forall|j: int| 0 <= j < last.len() implies met(#[trigger] last[j]) by {
            assert(met(lists[lists.len() - 1][j]));
        }
        lemma_followed_all(base, f.expanded(init), last, met);
        assert forall|i: int, j: int|
            0 <= i < lists.len() && 0 <= j < lists[i].len() && (
            #[trigger] lists[i][j]).target_ref_kind == "path"@ implies f.expanded(
            lists,
        ).seen.contains(lists[i][j].target_ref_value) by {
            let p = lists[i][j].target_ref_value;
            if i < init.len() {
                assert(init[i] == lists[i]);
                assert(init[i][j].target_ref_kind == "path"@);
                assert(f.expanded(init).seen.contains(p));
            } else {
                assert(last[j].target_ref_kind == "path"@);
            }
        }
    }
}

/// The row stands in one of the lists.
spec fn stands_in(lists: Seq<Seq<RelationshipRowView>>, row: RelationshipRowView) -> bool {
    exists|i: int, j: int|
        0 <= i < lists.len() && 0 <= j < lists[i].len() && #[trigger] lists[i][j] == row
}

/// Widening a list keeps its candidates as they are and adds files that relationships
/// lead to, each of them.
proof fn lemma_neighbours(base: Seq<CandidateView>, lists: Seq<Seq<RelationshipRowView>>)
    requires
        all_formed(base),
    ensures
        ({
            let all = broker::neighbours(base, lists);
            &&& all.len() >= base.len()
            &&& forall|i: int| 0 <= i < base.len() ==> #[trigger] all[i] == base[i]
            &&& forall|i: int| base.len() <= i < all.len() ==> led_to(#[trigger] all[i], lists)
            &&& forall|i: int, j: int|
                0 <= i < lists.len() && 0 <= j < lists[i].len() && (
                #[trigger] lists[i][j]).target_ref_kind == "path"@ ==> exists|k: int|
                    0 <= k < all.len() && (#[trigger] all[k]).canonical_path
                        == lists[i][j].target_ref_value
        }),
{
    let start = Frontier { items: base, seen: broker::paths_of(base) };
    let met = |row: RelationshipRowView| stands_in(lists, row);
    assert(base.take(base.len() as int) =~= base);
    assert forall|i: int| 0 <= i < base.len() implies start.seen.contains(
        (#[trigger] start.items[i]).canonical_path,
    ) by {
        assert(start.seen[i] == base[i].canonical_path);
    }
    assert forall|p: Seq<char>| #[trigger] start.seen.contains(p) implies has_path(
        start.items,
        p,
    ) by {
        let k = choose|k: int| 0 <= k < start.seen.len() && start.seen[k] == p;
        assert(start.items[k].canonical_path == p);
    }
    assert forall|i: int| 0 <= i < start.items.len() implies formed(#[trigger] start.items[i]) by {
        assert(formed(base[i]));
    }
    assert(start.items.take(base.len() as int) =~= base);
    assert(widened(base, start, met));
    assert forall|i: int, j: int| 0 <= i < lists.len() && 0 <= j < lists[i].len() implies met(
        #[trigger] lists[i][j],
    ) by {}
    lemma_expanded(base, start, lists, met);
    let end = start.expanded(lists);
    let all = broker::neighbours(base, lists);
    assert(all == end.items);
    assert forall|i: int| 0 <= i < base.len() implies #[trigger] all[i] == base[i] by {
        assert(end.items.take(base.len() as int)[i] == end.items[i]);
    }
    assert forall|i: int| base.len() <= i < all.len() implies led_to(#[trigger] all[i], lists) by {
        let c = end.items[i];
        let row = choose|row: RelationshipRowView| #[trigger]
            met(row) && row.target_ref_kind == "path"@ && row.target_ref_value == c.canonical_path
                && c.score == worth(row.relationship_type);
        let (a, b) = choose|a: int, b: int|
            0 <= a < lists.len() && 0 <= b < lists[a].len() && #[trigger] lists[a][b] == row;
        assert(lists[a][b].target_ref_kind == "path"@);
    }
    assert forall|i: int, j: int|
        0 <= i < lists.len() && 0 <= j < lists[i].len() && (
        #[trigger] lists[i][j]).target_ref_kind == "path"@ implies exists|k: int|
        0 <= k < all.len() && (#[trigger] all[k]).canonical_path == lists[i][j].target_ref_value by {
        let p = lists[i][j].target_ref_value;
        assert(end.seen.contains(p));
        assert(has_path(end.items, p));
        let m = choose|m: int|
            0 <= m < end.items.len() && (#[trigger] end.items[m]).canonical_path == p;
        assert(all[m].canonical_path == p);
    }
}

/// Ranking loses no candidate and invents none.
proof fn lemma_ranked(items: Seq<CandidateView>, c: CandidateView)
    ensures
        sorted::ranked_list::<ScoredCandidate>(items).contains(c) <==> items.contains(c),
{
    broadcast use vstd::seq_lib::group_to_multiset_ensures;

    sorted::law_ranking_sorts::<ScoredCandidate>(items);
    let ranked = sorted::ranked_list::<ScoredCandidate>(items);
    assert(ranked.to_multiset().count(c) == items.to_multiset().count(c));
}

/// The candidates of a request, before they are ranked.
spec fn unranked(facts: GenerationFacts, req: TaskRequestView) -> Seq<CandidateView> {
    broker::neighbours(
        broker::seeds(
            req,
            broker::resolved_views(facts.resolved@),
            broker::symbol_rows(facts.symbols@),
        ),
        broker::relationship_lists(facts.relationships@),
    )
}

/// Every file and every symbol that the request lists or its task names is a candidate,
/// at no distance, with exactly the points that are due: 100 for each time a file is
/// listed, 70 for each symbol of a file that the task names, 115 or 100 for each time a
/// known symbol is listed and 95 or 80 for each time one is named, the higher of the two
/// on semantic evidence.
pub proof fn law_candidates_score_what_is_due(
    facts: GenerationFacts,
    req: TaskRequestView,
    path: Seq<char>,
    key: Seq<char>,
)
    requires
        keys_are_apart(req, broker::symbol_rows(facts.symbols@)),
        !marks_file(key),
    ensures
        ({
            let ranked = broker::ranked_candidates(facts, req);
            let rows = broker::symbol_rows(facts.symbols@);
            let resolved = broker::resolved_views(facts.resolved@);
            let filed = file_points(req, rows, path);
            let named = symbol_points(req, resolved, rows, key);
            &&& filed > 0 ==> exists|i: int|
                {
                    &&& 0 <= i < ranked.len()
                    &&& (#[trigger] ranked[i]).canonical_path == path
                    &&& ranked[i].canonical_symbol_key is None
                    &&& ranked[i].distance == 0
                    &&& ranked[i].score == held(filed)
                }
            &&& named > 0 ==> exists|i: int|
                {
                    &&& 0 <= i < ranked.len()
                    &&& (#[trigger] ranked[i]).canonical_symbol_key == Some(key)
                    &&& ranked[i].distance == 0
                    &&& ranked[i].score == held(named)
                }
        }),
{
    let ranked = broker::ranked_candidates(facts, req);
    let rows = broker::symbol_rows(facts.symbols@);
    let resolved = broker::resolved_views(facts.resolved@);
    let lists = broker::relationship_lists(facts.relationships@);
    let base = broker::seeds(req, resolved, rows);
    let all = unranked(facts, req);
    lemma_seeds(req, resolved, rows, key, path);
    lemma_neighbours(base, lists);
    let pk = broker::path_key(path);
    if file_points(req, rows, path) > 0 {
        let at = broker::place_of(base, pk);
        lemma_place_is_first(base, pk);
        let c = base[at];
        assert(formed(c));
        lemma_path_key(path);
        lemma_path_keys_differ(c.canonical_path, path);
        assert(all[at] == c);
        lemma_ranked(all, c);
        let i = choose|i: int| 0 <= i < ranked.len() && ranked[i] == c;
        assert(ranked[i].canonical_path == path);
    }
    if symbol_points(req, resolved, rows, key) > 0 {
        let at = broker::place_of(base, key);
        lemma_place_is_first(base, key);
        let c = base[at];
        assert(formed(c));
        lemma_path_key(c.canonical_path);
        assert(all[at] == c);
        lemma_ranked(all, c);
        let i = choose|i: int| 0 <= i < ranked.len() && ranked[i] == c;
        assert(ranked[i].canonical_symbol_key == Some(key));
    }
}

/// Every candidate is there for a reason: a file or a symbol with points of its own, or,
/// one hop away, a file that a relationship leads to, with what that is worth: 50 for a
/// call, 40 for an import, 20 for anything else.
pub proof fn law_candidates_have_a_reason(facts: GenerationFacts, req: TaskRequestView, i: int)
    requires
        keys_are_apart(req, broker::symbol_rows(facts.symbols@)),
        0 <= i < broker::ranked_candidates(facts, req).len(),
    ensures
        ({
            let c = broker::ranked_candidates(facts, req)[i];
            let rows = broker::symbol_rows(facts.symbols@);
            let resolved = broker::resolved_views(facts.resolved@);
            let lists = broker::relationship_lists(facts.relationships@);
            ||| c.distance == 0 && c.canonical_symbol_key is None && file_points(
                req,
                rows,
                c.canonical_path,
            ) > 0
            ||| c.distance == 0 && c.canonical_symbol_key is Some && symbol_points(
                req,
                resolved,
                rows,
                c.canonical_symbol_key->0,
            ) > 0
            ||| led_to(c, lists)
        }),
{
    let ranked = broker::ranked_candidates(facts, req);
    let c = ranked[i];
    let rows = broker::symbol_rows(facts.symbols@);
    let resolved = broker::resolved_views(facts.resolved@);
    let lists = broker::relationship_lists(facts.relationships@);
    let base = broker::seeds(req, resolved, rows);
    let all = unranked(facts, req);
    assert(ranked.contains(c));
    lemma_ranked(all, c);
    lemma_seeds(req, resolved, rows, Seq::empty(), Seq::empty());
    lemma_neighbours(base, lists);
    let k = choose|k: int| 0 <= k < all.len() && all[k] == c;
    if k < base.len() {
        assert(all[k] == base[k]);
        assert(formed(base[k]));
        lemma_place_is_first(base, c.key);
        if broker::place_of(base, c.key) >= base.len() {
            assert(base[k].key != c.key);
        }
        match c.canonical_symbol_key {
            Some(key) => {
                lemma_seeds(req, resolved, rows, key, Seq::empty());
            },
            None => {
                lemma_seeds(req, resolved, rows, Seq::empty(), c.canonical_path);
            },
        }
    } else {
        assert(led_to(all[k], lists));
    }
}

/// Every file that a relationship of a seed leads to is a candidate.
pub proof fn law_neighbours_are_candidates(
    facts: GenerationFacts,
    req: TaskRequestView,
    i: int,
    j: int,
)
    requires
        keys_are_apart(req, broker::symbol_rows(facts.symbols@)),
        0 <= i < facts.relationships@.len(),
        0 <= j < facts.relationships@[i]@.len(),
        facts.relationships@[i]@[j].target_ref_kind@ == "path"@,
    ensures
        exists|k: int|
            0 <= k < broker::ranked_candidates(facts, req).len() && (
            #[trigger] broker::ranked_candidates(facts, req)[k]).canonical_path
                == facts.relationships@[i]@[j].target_ref_value@,
{
    let ranked = broker::ranked_candidates(facts, req);
    let rows = broker::symbol_rows(facts.symbols@);
    let resolved = broker::resolved_views(facts.resolved@);
    let lists = broker::relationship_lists(facts.relationships@);
    let base = broker::seeds(req, resolved, rows);
    let all = unranked(facts, req);
    lemma_seeds(req, resolved, rows, Seq::empty(), Seq::empty());
    lemma_neighbours(base, lists);
    let target = facts.relationships@[i]@[j].target_ref_value@;
    assert(lists[i] == broker::relationship_rows(facts.relationships@[i]@));
    assert(lists[i][j].target_ref_kind == "path"@);
    let m = choose|m: int| 0 <= m < all.len() && (#[trigger] all[m]).canonical_path == target;
    lemma_ranked(all, all[m]);
    assert(all.contains(all[m]));
    let k = choose|k: int| 0 <= k < ranked.len() && ranked[k] == all[m];
    assert(ranked[k].canonical_path == target);
}

proof fn lemma_symbols_in(rows: Seq<SymbolRowView>, i: int)
    requires
        0 <= i < rows.len(),
    ensures
        symbols_in(rows, rows[i].canonical_path) >= 1,
    decreases rows.len(),
{
    let path = rows[i].canonical_path;
    let init = rows.drop_last();
    lemma_symbols_not_negative(init, path);
    if i < init.len() {
        assert(init[i] == rows[i]);
        lemma_symbols_in(init, i);
    }
}

proof fn lemma_symbols_not_negative(rows: Seq<SymbolRowView>, path: Seq<char>)
    ensures
        symbols_in(rows, path) >= 0,
    decreases rows.len(),
{
    if rows.len() > 0 {
        lemma_symbols_not_negative(rows.drop_last(), path);
    }
}

proof fn lemma_times_not_negative(list: Seq<Seq<char>>, item: Seq<char>)
    ensures
        times(list, item) >= 0,
    decreases list.len(),
{
    if list.len() > 0 {
        lemma_times_not_negative(list.drop_last(), item);
    }
}

/// A file of the catalogue whose name occurs in the task is a candidate of its own, at
/// no distance, with a score of at least 70.
pub proof fn law_a_file_named_in_the_task_is_found(
    facts: GenerationFacts,
    req: TaskRequestView,
    row: int,
)
    requires
        keys_are_apart(req, broker::symbol_rows(facts.symbols@)),
        0 <= row < facts.symbols@.len(),
        names_file(req.task, facts.symbols@[row].canonical_path@),
    ensures
        ({
            let ranked = broker::ranked_candidates(facts, req);
            exists|i: int|
                {
                    &&& 0 <= i < ranked.len()
                    &&& (#[trigger] ranked[i]).canonical_path
                        == facts.symbols@[row].canonical_path@
                    &&& ranked[i].canonical_symbol_key is None
                    &&& ranked[i].distance == 0
                    &&& ranked[i].score >= 70
                }
        }),
{
    let rows = broker::symbol_rows(facts.symbols@);
    let path = facts.symbols@[row].canonical_path@;
    assert(rows[row].canonical_path == path);
    lemma_symbols_in(rows, row);
    lemma_times_not_negative(req.known_paths, path);
    assert(!marks_file(Seq::empty()));
    law_candidates_score_what_is_due(facts, req, path, Seq::empty());
    let ranked = broker::ranked_candidates(facts, req);
    let filed = file_points(req, rows, path);
    let i = choose|i: int|
        {
            &&& 0 <= i < ranked.len()
            &&& (#[trigger] ranked[i]).canonical_path == path
            &&& ranked[i].canonical_symbol_key is None
            &&& ranked[i].distance == 0
            &&& ranked[i].score == held(filed)
        };
    assert(ranked[i].score >= 70);
}

/// The task contains the name, letter by letter and whatever the case, where it does.
pub proof fn law_names_are_found_whatever_their_case(
    task: Seq<char>,
    before: Seq<char>,
    name: Seq<char>,
    after: Seq<char>,
)
    requires
        name.len() > 0,
        task.len() == before.len() + name.len() + after.len(),
        forall|i: int|
            0 <= i < name.len() ==> text::ascii_lower_char(#[trigger] task[before.len() + i])
                == text::ascii_lower_char(name[i]),
    ensures
        names_symbol(task, name),
{
    let lower = text::ascii_lower(task);
    let part = text::ascii_lower(name);
    let piece = lower.subrange(before.len() as int, before.len() as int + part.len() as int);
    assert forall|i: int| 0 <= i < part.len() implies piece[i] == part[i] by {
        assert(text::ascii_lower_char(task[before.len() + i]) == text::ascii_lower_char(name[i]));
    }
    assert(piece =~= part);
    assert(text::occurs_at(lower, part, before.len() as int));
}

// ---------------------------------------------------------------------------
// What is shown
// ---------------------------------------------------------------------------

proof fn lemma_without_source(
    req: TaskRequestView,
    ranked: Seq<CandidateView>,
    found: Seq<ObservationView>,
)
    requires
        !req.mode.with_source(),
    ensures
        ({
            let s = broker::selection_of(req, ranked, found);
            let n = if ranked.len() <= req.usable_records() {
                ranked.len() as int
            } else {
                req.usable_records()
            };
            s.selected == ranked.take(n) && s.unselected == ranked.skip(n)
        }),
    decreases ranked.len(),
{
    let s = broker::selection_of(req, ranked, found);
    if ranked.len() > 0 {
        let init = ranked.drop_last();
        lemma_without_source(req, init, found);
        let m = if init.len() <= req.usable_records() {
            init.len() as int
        } else {
            req.usable_records()
        };
        if init.len() < req.usable_records() {
            assert(s.selected =~= ranked.take(ranked.len() as int));
            assert(s.unselected =~= ranked.skip(ranked.len() as int));
        } else {
            assert(init.take(m) =~= ranked.take(m));
            assert(init.skip(m).push(ranked.last()) =~= ranked.skip(m));
        }
    } else {
        assert(s.selected =~= ranked.take(0));
        assert(s.unselected =~= ranked.skip(0));
    }
}

/// A map lists the best candidates, best first, as many as nine tenths of its record
/// budget, each with its path, its symbol, its score and its distance; it is complete
/// exactly where that is all of them. Without an active generation a packet lists
/// nothing and is blocked.
pub proof fn law_maps_list_the_best_candidates(
    scope: PacketScope,
    facts: GenerationFacts,
    req: TaskRequestView,
)
    requires
        req.mode == BrokerMode::MapOnly,
    ensures
        ({
            let p = broker::packet_of(scope, facts, req);
            let ranked = broker::ranked_candidates(facts, req);
            let room = if req.max_records <= 0 {
                0
            } else {
                req.max_records * 9 / 10
            };
            &&& scope.active_generation_id is None ==> p.primary_targets.len() == 0 && p.status
                == "blocked"@
            &&& scope.active_generation_id is Some ==> {
                &&& p.primary_targets.len() == (if ranked.len() <= room {
                    ranked.len() as int
                } else {
                    room
                })
                &&& forall|i: int|
                    0 <= i < p.primary_targets.len() ==> {
                        &&& (#[trigger] p.primary_targets[i]).canonical_path
                            == ranked[i].canonical_path
                        &&& p.primary_targets[i].canonical_symbol_key
                            == ranked[i].canonical_symbol_key
                        &&& p.primary_targets[i].score == ranked[i].score
                        &&& p.primary_targets[i].relationship_distance == ranked[i].distance
                    }
                &&& ranked.len() <= room <==> p.status == "complete"@
                &&& ranked.len() > room <==> p.status == "partial"@
            }
        }),
{
    let found = broker::observations(facts.observations@);
    let ranked = broker::ranked_candidates(facts, req);
    lemma_without_source(req, ranked, found);
    broker::law_selection_respects_budgets(req, ranked, found);
    reveal_strlit("complete");
    reveal_strlit("partial");
    assert("complete"@.len() == 8 && "partial"@.len() == 7);
}

/// A file named in the task stands in the map of the task wherever the map has room for
/// all candidates.
pub proof fn law_maps_show_named_files(
    scope: PacketScope,
    facts: GenerationFacts,
    req: TaskRequestView,
    row: int,
)
    requires
        req.mode == BrokerMode::MapOnly,
        scope.active_generation_id is Some,
        keys_are_apart(req, broker::symbol_rows(facts.symbols@)),
        0 <= row < facts.symbols@.len(),
        names_file(req.task, facts.symbols@[row].canonical_path@),
        req.max_records > 0,
        broker::ranked_candidates(facts, req).len() <= req.max_records * 9 / 10,
    ensures
        ({
            let targets = broker::packet_of(scope, facts, req).primary_targets;
            exists|i: int|
                {
                    &&& 0 <= i < targets.len()
                    &&& (#[trigger] targets[i]).canonical_path
                        == facts.symbols@[row].canonical_path@
                    &&& targets[i].score >= 70
                }
        }),
{
    law_a_file_named_in_the_task_is_found(facts, req, row);
    law_maps_list_the_best_candidates(scope, facts, req);
    let ranked = broker::ranked_candidates(facts, req);
    let path = facts.symbols@[row].canonical_path@;
    let i = choose|i: int|
        {
            &&& 0 <= i < ranked.len()
            &&& (#[trigger] ranked[i]).canonical_path == path
            &&& ranked[i].canonical_symbol_key is None
            &&& ranked[i].distance == 0
            &&& ranked[i].score >= 70
        };
    let targets = broker::packet_of(scope, facts, req).primary_targets;
    assert(targets[i].canonical_path == path);
}

/// Source is shown only of a file that is as it was indexed: the digest of what was read
/// is the indexed one, and the excerpt carries the digest of its text. Another digest is
/// a mismatch, and a file that could not be read is a failure; neither shows text.
pub proof fn law_excerpts_show_only_what_was_indexed(path: Seq<char>, found: ObservationView)
    requires
        found.indexed_hash is Some,
    ensures
        ({
            let e = broker::excerpt_of(path, found);
            &&& e.canonical_path == path
            &&& e.text is Some ==> found.observed_hash == found.indexed_hash && e.text == found.text
                && e.status == "verified"@ && e.excerpt_hash == Some(
                digest::content_hash(digest::text_field(e.text->0)),
            )
            &&& found.observed_hash == found.indexed_hash && found.text is Some ==> e.text
                == found.text
            &&& found.observed_hash is Some && found.observed_hash != found.indexed_hash
                ==> e.status == "hash_mismatch"@ && e.text is None
            &&& found.observed_hash is None ==> e.status == "read_failed"@ && e.text is None
        }),
{
}

/// Nine tenths of the records may be used, rounded down, and none of a budget that is
/// not positive.
pub proof fn law_a_tenth_of_the_records_is_kept(req: TaskRequestView)
    ensures
        req.max_records <= 0 ==> req.usable_records() == 0,
        req.max_records > 0 ==> 10 * req.usable_records() <= 9 * req.max_records < 10
            * req.usable_records() + 10,
{
}

/// A further candidate is selected exactly if a record is left for it and its verified
/// text, where source is shown, fits both limits; its file is shown where it is selected
/// and indexed; and what was decided before stays.
pub proof fn law_candidates_are_selected_in_turn(
    req: TaskRequestView,
    ranked: Seq<CandidateView>,
    next: CandidateView,
    found: Seq<ObservationView>,
)
    requires
        found.len() > ranked.len(),
    ensures
        ({
            let before = broker::selection_of(req, ranked, found);
            let after = broker::selection_of(req, ranked.push(next), found);
            let seen = found[ranked.len() as int];
            let shows = req.mode == BrokerMode::Change || req.mode == BrokerMode::Audit;
            let verified = seen.indexed_hash is Some && seen.observed_hash == seen.indexed_hash
                && seen.text is Some;
            let bytes = if shows && verified {
                digest::text_field(seen.text->0).len() as int
            } else {
                0
            };
            let fits = !(shows && verified) || (before.used_source_bytes + bytes
                <= req.max_source_bytes && (before.used_source_bytes + bytes) / 4
                <= req.max_token_estimate);
            let taken = before.selected.len() < req.usable_records() && fits;
            &&& after.selected == (if taken {
                before.selected.push(next)
            } else {
                before.selected
            })
            &&& after.unselected == (if taken {
                before.unselected
            } else {
                before.unselected.push(next)
            })
            &&& after.used_source_bytes == before.used_source_bytes + (if taken {
                bytes
            } else {
                0
            })
            &&& after.excerpts.len() == before.excerpts.len() + (if taken && shows
                && seen.indexed_hash is Some {
                1int
            } else {
                0int
            })
            &&& forall|i: int|
                0 <= i < before.excerpts.len() ==> after.excerpts[i] == #[trigger] before.excerpts[i]
        }),
{
    assert(ranked.push(next).drop_last() =~= ranked);
    assert(broker::observation_at(found, ranked.len() as int) == found[ranked.len() as int]);
}

/// A packet is blocked exactly without an active generation, complete exactly if nothing
/// was passed over and every source shown is as it was indexed, and partial otherwise.
pub proof fn law_packets_say_how_far_they_got(
    scope: PacketScope,
    facts: GenerationFacts,
    req: TaskRequestView,
)
    ensures
        ({
            let p = broker::packet_of(scope, facts, req);
            let s = broker::selection_of(
                req,
                broker::ranked_candidates(facts, req),
                broker::observations(facts.observations@),
            );
            &&& (scope.active_generation_id is None <==> p.status == "blocked"@)
            &&& (p.status == "complete"@ <==> scope.active_generation_id is Some
                && s.unselected.len() == 0 && (forall|i: int|
                0 <= i < s.excerpts.len() ==> (#[trigger] s.excerpts[i]).status == "verified"@))
            &&& (p.status == "blocked"@ || p.status == "complete"@ || p.status == "partial"@)
            &&& p.workspace_id == scope.workspace_id@
            &&& p.mode == req.mode.name()
            &&& (scope.active_generation_id matches Some(generation) ==> {
                &&& p.active_generation_id == Some(generation@)
                &&& p.primary_targets.len() == s.selected.len()
                &&& p.exact_excerpts == s.excerpts
                &&& s.selected.len() <= i64::MAX ==> p.budget.used_records == s.selected.len()
                    && p.omissions.selected_count == s.selected.len()
                &&& s.unselected.len() <= i64::MAX ==> p.omissions.omitted_by_budget
                    == s.unselected.len()
                &&& s.selected.len() + s.unselected.len() <= i64::MAX
                    ==> p.omissions.total_candidates_considered == s.selected.len()
                    + s.unselected.len()
                &&& req.mode == BrokerMode::Audit ==> p.alternatives.len() == (
                if s.unselected.len() < 50 {
                    s.unselected.len()
                } else {
                    50
                })
            })
        }),
{
    reveal_strlit("blocked");
    reveal_strlit("complete");
    reveal_strlit("partial");
    assert("blocked"@[0] == 'b' && "complete"@[0] == 'c' && "partial"@[0] == 'p');
    broker::law_selection_respects_budgets(
        req,
        broker::ranked_candidates(facts, req),
        broker::observations(facts.observations@),
    );
}

/// A target shows the candidate that was selected at its place.
pub proof fn law_targets_are_the_selected_candidates(items: Seq<CandidateView>, i: int)
    requires
        0 <= i < items.len(),
    ensures
        broker::targets_of(items).len() == items.len(),
        ({
            let target = broker::targets_of(items)[i];
            &&& target.canonical_path == items[i].canonical_path
            &&& target.canonical_symbol_key == items[i].canonical_symbol_key
            &&& target.display_name == items[i].display_name
            &&& target.symbol_kind == items[i].symbol_kind
            &&& target.score == items[i].score
            &&& target.relationship_distance == items[i].distance
            &&& target.preferred_semantic == items[i].preferred_semantic
        }),
{
}

} // verus!
