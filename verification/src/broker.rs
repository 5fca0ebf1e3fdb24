//! The bounded, deterministic Context Broker.
//!
//! A task request is answered with a Context Packet: the files and symbols that
//! matter most to the task, within the budgets that the request sets. Scoring is
//! fixed and inspectable. Candidates are seeded from what the request names and
//! from what its text mentions, widened by one hop along recorded relationships,
//! ranked, and then selected in rank order until a budget is spent.
//!
//! The rows that the catalogue holds and the files that are read on the way come
//! in as plain values; everything decided about them is decided here.
use vstd::prelude::*;

use crate::digest;
use crate::digest::hash_of_text;
use crate::sorted;
use crate::sorted::{rank_list, sort_list, Ranked};
use crate::text;
use crate::text::{
    append_signed, clone_opt_text, file_name_of, has_text, join2, join_texts, text_contains,
    text_eq, to_ascii_lower, trim, trim_suffixes,
};

verus! {

pub const RANKING_POLICY_VERSION: &'static str = "1.0.0";

/// The share of the record budget kept for uncertainty and omission records.
pub const UNCERTAINTY_RESERVE_PCT: i64 = 10;

/// The most unselected candidates that an audit lists.
pub const MAX_ALTERNATIVES: usize = 50;

/// How much a packet shows: targets only, verified source with them, or also the
/// alternatives, conflicts and coverage.
#[derive(Debug, Clone, Copy, PartialEq, Eq, Structural)]
pub enum BrokerMode {
    MapOnly,
    Change,
    Audit,
}

impl BrokerMode {
    /// The mode's wire name.
    pub open spec fn name(self) -> Seq<char> {
        match self {
            BrokerMode::MapOnly => "map"@,
            BrokerMode::Change => "change"@,
            BrokerMode::Audit => "audit"@,
        }
    }

    /// The packet carries verified source.
    pub open spec fn with_source(self) -> bool {
        self == BrokerMode::Change || self == BrokerMode::Audit
    }

    pub fn as_str(&self) -> (r: &'static str)
        ensures
            r@ == self.name(),
    {
        match self {
            BrokerMode::MapOnly => "map",
            BrokerMode::Change => "change",
            BrokerMode::Audit => "audit",
        }
    }

    pub fn parse(s: &str) -> (r: Option<Self>)
        ensures
            r == (if s@ == "map"@ {
                Some(BrokerMode::MapOnly)
            } else if s@ == "change"@ {
                Some(BrokerMode::Change)
            } else if s@ == "audit"@ {
                Some(BrokerMode::Audit)
            } else {
                None
            }),
    {
        if text_eq(s, "map") {
            Some(BrokerMode::MapOnly)
        } else if text_eq(s, "change") {
            Some(BrokerMode::Change)
        } else if text_eq(s, "audit") {
            Some(BrokerMode::Audit)
        } else {
            None
        }
    }

    /// A mode's wire name is read back as that mode.
    pub proof fn law_name_round_trip(self)
        ensures
            (if self.name() == "map"@ {
                Some(BrokerMode::MapOnly)
            } else if self.name() == "change"@ {
                Some(BrokerMode::Change)
            } else if self.name() == "audit"@ {
                Some(BrokerMode::Audit)
            } else {
                None
            }) == Some(self),
    {
        reveal_strlit("map");
        reveal_strlit("change");
        reveal_strlit("audit");
        assert("map"@[0] != "change"@[0]);
        assert("map"@[0] != "audit"@[0]);
        assert("change"@[0] != "audit"@[0]);
    }
}

/// A request for a bounded Context Packet.
#[derive(Debug, Clone)]
pub struct TaskRequest {
    pub task: String,
    pub mode: BrokerMode,
    pub known_paths: Vec<String>,
    pub known_symbols: Vec<String>,
    pub max_records: i64,
    pub max_source_bytes: i64,
    pub max_token_estimate: i64,
}

/// The values of a task request.
pub ghost struct TaskRequestView {
    pub task: Seq<char>,
    pub mode: BrokerMode,
    pub known_paths: Seq<Seq<char>>,
    pub known_symbols: Seq<Seq<char>>,
    pub max_records: int,
    pub max_source_bytes: int,
    pub max_token_estimate: int,
}

impl View for TaskRequest {
    type V = TaskRequestView;

    open spec fn view(&self) -> TaskRequestView {
        TaskRequestView {
            task: self.task@,
            mode: self.mode,
            known_paths: text::texts(self.known_paths@),
            known_symbols: text::texts(self.known_symbols@),
            max_records: self.max_records as int,
            max_source_bytes: self.max_source_bytes as int,
            max_token_estimate: self.max_token_estimate as int,
        }
    }
}

/// The character between the fields of a hashed line.
pub open spec fn unit_separator() -> Seq<char> {
    "\u{1f}"@
}

impl TaskRequestView {
    /// The request in one line: lists sorted, surrounding white space of the task
    /// dropped.
    pub open spec fn canonical(self) -> Seq<char> {
        let sep = unit_separator();
        text::trimmed(self.task) + sep + self.mode.name() + sep + text::joined(
            sorted::ranked_list::<String>(self.known_paths),
            ","@,
        ) + sep + text::joined(sorted::ranked_list::<String>(self.known_symbols), ","@) + sep
            + text::signed_decimal(self.max_records) + sep + text::signed_decimal(
            self.max_source_bytes,
        ) + sep + text::signed_decimal(self.max_token_estimate)
    }

    /// The digest that identifies the request.
    pub open spec fn request_hash(self) -> Seq<char> {
        digest::content_hash(digest::text_field(self.canonical()))
    }

    /// Nine tenths of the record budget, rounded down; none of a negative one.
    pub open spec fn usable_records(self) -> int {
        if self.max_records <= 0 {
            0
        } else {
            self.max_records * 9 / 10
        }
    }
}

proof fn lemma_text_ranks_are_unique(a: Seq<Seq<char>>, b: Seq<Seq<char>>)
    requires
        sorted::in_rank_order::<String>(a),
        sorted::in_rank_order::<String>(b),
        a.to_multiset() == b.to_multiset(),
    ensures
        a == b,
    decreases a.len(),
{
    broadcast use vstd::seq_lib::group_to_multiset_ensures;

    a.to_multiset_ensures();
    b.to_multiset_ensures();
    if a.len() > 0 {
        let x = a.last();
        let y = b.last();
        assert(a.contains(x));
        assert(b.contains(y));
        assert(b.to_multiset().contains(x));
        assert(a.to_multiset().contains(y));
        let i = choose|i: int| 0 <= i < b.len() && b[i] == x;
        let j = choose|j: int| 0 <= j < a.len() && a[j] == y;
        text::lemma_text_lt_total(x, y);
        assert(x == y) by {
            if text::text_lt(x, y) {
                assert(!text::text_lt(a[a.len() - 1], a[j]) || j == a.len() - 1);
                text::lemma_text_lt_irreflexive(x);
            } else if text::text_lt(y, x) {
                assert(!text::text_lt(b[b.len() - 1], b[i]) || i == b.len() - 1);
                text::lemma_text_lt_irreflexive(x);
            }
        }
        assert(a =~= a.drop_last().push(x));
        assert(b =~= b.drop_last().push(x));
        assert(a.drop_last().to_multiset() =~= a.to_multiset().remove(x));
        assert(b.drop_last().to_multiset() =~= b.to_multiset().remove(x));
        lemma_text_ranks_are_unique(a.drop_last(), b.drop_last());
    } else {
        assert(a =~= b);
    }
}

/// Two requests that name the same paths and symbols in different orders, and
/// whose tasks differ in surrounding white space at most, have the same digest.
pub proof fn law_request_hash_ignores_order(a: TaskRequestView, b: TaskRequestView)
    requires
        text::trimmed(a.task) == text::trimmed(b.task),
        a.mode == b.mode,
        a.known_paths.to_multiset() == b.known_paths.to_multiset(),
        a.known_symbols.to_multiset() == b.known_symbols.to_multiset(),
        a.max_records == b.max_records,
        a.max_source_bytes == b.max_source_bytes,
        a.max_token_estimate == b.max_token_estimate,
    ensures
        a.request_hash() == b.request_hash(),
{
    sorted::law_ranking_sorts::<String>(a.known_paths);
    sorted::law_ranking_sorts::<String>(b.known_paths);
    sorted::law_ranking_sorts::<String>(a.known_symbols);
    sorted::law_ranking_sorts::<String>(b.known_symbols);
    lemma_text_ranks_are_unique(
        sorted::ranked_list::<String>(a.known_paths),
        sorted::ranked_list::<String>(b.known_paths),
    );
    lemma_text_ranks_are_unique(
        sorted::ranked_list::<String>(a.known_symbols),
        sorted::ranked_list::<String>(b.known_symbols),
    );
}

fn sorted_copy(items: &Vec<String>) -> (r: Vec<String>)
    ensures
        text::texts(r@) == sorted::ranked_list::<String>(text::texts(items@)),
{
    let copy = text::clone_texts(items);
    assert(sorted::rank_views::<String>(copy@) =~= text::texts(items@));
    let out = rank_list(copy);
    assert(sorted::rank_views::<String>(out@) =~= text::texts(out@));
    out
}

impl TaskRequest {
    /// The digest that identifies the request: the fields in one line, with the
    /// lists sorted because their order means nothing.
    pub fn normalized_request_hash(&self) -> (r: String)
        ensures
            r@ == self@.request_hash(),
            text::hex64(r@),
    {
        let paths = sorted_copy(&self.known_paths);
        let symbols = sorted_copy(&self.known_symbols);
        let sep = "\u{1f}";
        let mut line = trim(self.task.as_str());
        line.append(sep);
        line.append(self.mode.as_str());
        line.append(sep);
        line.append(join_texts(&paths, ",").as_str());
        line.append(sep);
        line.append(join_texts(&symbols, ",").as_str());
        line.append(sep);
        append_signed(&mut line, self.max_records);
        line.append(sep);
        append_signed(&mut line, self.max_source_bytes);
        line.append(sep);
        append_signed(&mut line, self.max_token_estimate);
        assert(line@ == self@.canonical());
        hash_of_text(line.as_str())
    }
}

/// A file or symbol that may matter to the task, with its score so far. The key
/// tells candidates apart.
#[derive(Debug)]
pub struct ScoredCandidate {
    pub key: String,
    pub canonical_path: String,
    pub canonical_symbol_key: Option<String>,
    pub display_name: Option<String>,
    pub symbol_kind: Option<String>,
    pub score: u64,
    pub distance: i64,
    pub preferred_semantic: bool,
}

/// The values of a scored candidate.
pub ghost struct CandidateView {
    pub key: Seq<char>,
    pub canonical_path: Seq<char>,
    pub canonical_symbol_key: Option<Seq<char>>,
    pub display_name: Option<Seq<char>>,
    pub symbol_kind: Option<Seq<char>>,
    pub score: int,
    pub distance: int,
    pub preferred_semantic: bool,
}

impl View for ScoredCandidate {
    type V = CandidateView;

    open spec fn view(&self) -> CandidateView {
        CandidateView {
            key: self.key@,
            canonical_path: self.canonical_path@,
            canonical_symbol_key: text::opt_text(self.canonical_symbol_key),
            display_name: text::opt_text(self.display_name),
            symbol_kind: text::opt_text(self.symbol_kind),
            score: self.score as int,
            distance: self.distance as int,
            preferred_semantic: self.preferred_semantic,
        }
    }
}

impl CandidateView {
    /// The symbol key, or the empty text for a file.
    pub open spec fn symbol_or_empty(self) -> Seq<char> {
        match self.canonical_symbol_key {
            Some(key) => key,
            None => Seq::empty(),
        }
    }

    /// The candidate with its score raised.
    pub open spec fn bumped(self, bump: int) -> CandidateView {
        CandidateView {
            score: if self.score + bump <= u64::MAX {
                self.score + bump
            } else {
                u64::MAX as int
            },
            ..self
        }
    }
}

impl Ranked for ScoredCandidate {
    /// Higher scores first, then nearer candidates, then paths, then symbol keys
    /// in text order.
    open spec fn ahead(a: CandidateView, b: CandidateView) -> bool {
        if a.score != b.score {
            a.score > b.score
        } else if a.distance != b.distance {
            a.distance < b.distance
        } else if a.canonical_path != b.canonical_path {
            text::text_lt(a.canonical_path, b.canonical_path)
        } else {
            text::text_lt(a.symbol_or_empty(), b.symbol_or_empty())
        }
    }

    proof fn ahead_asymmetric(a: CandidateView, b: CandidateView) {
        if Self::ahead(b, a) {
            if a.canonical_path != b.canonical_path {
                text::lemma_text_lt_transitive(
                    a.canonical_path,
                    b.canonical_path,
                    a.canonical_path,
                );
                text::lemma_text_lt_irreflexive(a.canonical_path);
            } else {
                text::lemma_text_lt_transitive(
                    a.symbol_or_empty(),
                    b.symbol_or_empty(),
                    a.symbol_or_empty(),
                );
                text::lemma_text_lt_irreflexive(a.symbol_or_empty());
            }
        }
    }

    proof fn ahead_connected(a: CandidateView, b: CandidateView, c: CandidateView) {
        text::lemma_text_lt_total(a.canonical_path, b.canonical_path);
        text::lemma_text_lt_total(b.canonical_path, c.canonical_path);
        text::lemma_text_lt_total(a.symbol_or_empty(), b.symbol_or_empty());
        text::lemma_text_lt_total(b.symbol_or_empty(), c.symbol_or_empty());
        if Self::ahead(c, a) && c.score == a.score && c.distance == a.distance {
            if c.canonical_path != a.canonical_path {
                if text::text_lt(a.canonical_path, b.canonical_path) {
                    text::lemma_text_lt_transitive(
                        c.canonical_path,
                        a.canonical_path,
                        b.canonical_path,
                    );
                    if b.canonical_path != c.canonical_path {
                        text::lemma_text_lt_transitive(
                            b.canonical_path,
                            c.canonical_path,
                            b.canonical_path,
                        );
                    }
                    text::lemma_text_lt_irreflexive(b.canonical_path);
                }
            } else {
                if a.canonical_path != b.canonical_path {
                    text::lemma_text_lt_transitive(
                        a.canonical_path,
                        b.canonical_path,
                        a.canonical_path,
                    );
                    text::lemma_text_lt_irreflexive(a.canonical_path);
                }
                if text::text_lt(a.symbol_or_empty(), b.symbol_or_empty()) {
                    text::lemma_text_lt_transitive(
                        c.symbol_or_empty(),
                        a.symbol_or_empty(),
                        b.symbol_or_empty(),
                    );
                }
            }
        }
    }

    fn ranks_ahead(&self, other: &Self) -> (r: bool) {
        if self.score != other.score {
            self.score > other.score
        } else if self.distance != other.distance {
            self.distance < other.distance
        } else if !text_eq(self.canonical_path.as_str(), other.canonical_path.as_str()) {
            text::text_less(self.canonical_path.as_str(), other.canonical_path.as_str())
        } else {
            let mine = or_empty(&self.canonical_symbol_key);
            let theirs = or_empty(&other.canonical_symbol_key);
            text::text_less(mine.as_str(), theirs.as_str())
        }
    }
}

fn or_empty(value: &Option<String>) -> (r: String)
    ensures
        r@ == (match text::opt_text(*value) {
            Some(key) => key,
            None => Seq::empty(),
        }),
{
    match value {
        Some(key) => key.clone(),
        None => String::new(),
    }
}

/// The views of a list of candidates.
pub open spec fn candidates(items: Seq<ScoredCandidate>) -> Seq<CandidateView> {
    sorted::rank_views::<ScoredCandidate>(items)
}

/// The key of a file's candidate.
pub open spec fn path_key(path: Seq<char>) -> Seq<char> {
    "path:"@ + path
}

pub fn key_for_path(path: &str) -> (r: String)
    ensures
        r@ == path_key(path@),
{
    join2("path:", path)
}

/// The place of a key in a list of candidates; the list's length where it is new.
pub open spec fn place_of(items: Seq<CandidateView>, key: Seq<char>) -> int
    decreases items.len(),
{
    if items.len() == 0 {
        0
    } else if place_of(items.drop_last(), key) < items.len() - 1 {
        place_of(items.drop_last(), key)
    } else if items.last().key == key {
        items.len() - 1
    } else {
        items.len() as int
    }
}

/// The list with the score of a candidate's key raised; a key that is new enters
/// at the end as that candidate.
pub open spec fn add_or_bumped(
    items: Seq<CandidateView>,
    candidate: CandidateView,
    bump: int,
) -> Seq<CandidateView> {
    let at = place_of(items, candidate.key);
    if at < items.len() {
        items.update(at, items[at].bumped(bump))
    } else {
        items.push(candidate.bumped(bump))
    }
}

proof fn lemma_place_of(items: Seq<CandidateView>, key: Seq<char>, at: int)
    requires
        0 <= at <= items.len(),
        forall|i: int| 0 <= i < at ==> (#[trigger] items[i]).key != key,
        at < items.len() ==> items[at].key == key,
    ensures
        place_of(items, key) == at,
    decreases items.len(),
{
    if items.len() > 0 {
        let init = items.drop_last();
        if at < items.len() {
            if at < init.len() {
                lemma_place_of(init, key, at);
            } else {
                lemma_place_of(init, key, init.len() as int);
            }
        } else {
            lemma_place_of(init, key, init.len() as int);
        }
    }
}

/// Raises the score of the candidate's key; a key that is new enters at the end.
pub fn add_or_bump(items: &mut Vec<ScoredCandidate>, candidate: ScoredCandidate, bump: u64)
    ensures
        candidates(final(items)@) == add_or_bumped(
            candidates(old(items)@),
            candidate@,
            bump as int,
        ),
{
    let ghost before = candidates(items@);
    let mut at: usize = 0;
    while at < items.len() && !text_eq(items[at].key.as_str(), candidate.key.as_str())
        invariant
            before == candidates(items@),
            *items == *old(items),
            at <= items@.len(),
            forall|i: int| 0 <= i < at ==> (#[trigger] before[i]).key != candidate@.key,
        ensures
            before == candidates(items@),
            *items == *old(items),
            at <= items@.len(),
            forall|i: int| 0 <= i < at ==> (#[trigger] before[i]).key != candidate@.key,
            at < items@.len() ==> before[at as int].key == candidate@.key,
        decreases items@.len() - at,
    {
        at = at + 1;
    }
    proof {
        lemma_place_of(before, candidate@.key, at as int);
    }
    if at < items.len() {
        let raised: u64 = match items[at].score.checked_add(bump) {
            Some(sum) => sum,
            None => u64::MAX,
        };
        let mut entry = items.remove(at);
        entry.score = raised;
        items.insert(at, entry);
        assert(candidates(items@) =~= add_or_bumped(before, candidate@, bump as int));
    } else {
        let raised: u64 = match candidate.score.checked_add(bump) {
            Some(sum) => sum,
            None => u64::MAX,
        };
        let ghost given = candidate@;
        let mut entry = candidate;
        entry.score = raised;
        items.push(entry);
        assert(candidates(items@) =~= add_or_bumped(before, given, bump as int));
    }
}

/// A symbol of the active generation, as the catalogue lists it.
#[derive(Debug, Clone)]
pub struct SymbolRow {
    pub canonical_path: String,
    pub canonical_symbol_key: String,
    pub display_name: String,
    pub symbol_kind: String,
    pub evidence_method: String,
}

/// The values of a symbol row.
pub ghost struct SymbolRowView {
    pub canonical_path: Seq<char>,
    pub canonical_symbol_key: Seq<char>,
    pub display_name: Seq<char>,
    pub symbol_kind: Seq<char>,
    pub evidence_method: Seq<char>,
}

impl View for SymbolRow {
    type V = SymbolRowView;

    open spec fn view(&self) -> SymbolRowView {
        SymbolRowView {
            canonical_path: self.canonical_path@,
            canonical_symbol_key: self.canonical_symbol_key@,
            display_name: self.display_name@,
            symbol_kind: self.symbol_kind@,
            evidence_method: self.evidence_method@,
        }
    }
}

/// The values of a list of symbol rows.
pub open spec fn symbol_rows(rows: Seq<SymbolRow>) -> Seq<SymbolRowView> {
    Seq::new(rows.len(), |i: int| rows[i]@)
}

/// What the catalogue knows of a symbol that the request names.
#[derive(Debug, Clone)]
pub struct ResolvedSymbol {
    pub canonical_path: String,
    pub symbol_kind: String,
    pub display_name: String,
    pub evidence_method: String,
}

/// The values of a resolved symbol.
pub ghost struct ResolvedSymbolView {
    pub canonical_path: Seq<char>,
    pub symbol_kind: Seq<char>,
    pub display_name: Seq<char>,
    pub evidence_method: Seq<char>,
}

/// The values of an optional resolved symbol.
pub open spec fn resolved_view(value: Option<ResolvedSymbol>) -> Option<ResolvedSymbolView> {
    match value {
        Some(found) => Some(
            ResolvedSymbolView {
                canonical_path: found.canonical_path@,
                symbol_kind: found.symbol_kind@,
                display_name: found.display_name@,
                evidence_method: found.evidence_method@,
            },
        ),
        None => None,
    }
}

/// The values of a list of optional resolved symbols.
pub open spec fn resolved_views(
    items: Seq<Option<ResolvedSymbol>>,
) -> Seq<Option<ResolvedSymbolView>> {
    Seq::new(items.len(), |i: int| resolved_view(items[i]))
}

/// The evidence comes from a semantic extractor.
pub open spec fn is_semantic(evidence_method: Seq<char>) -> bool {
    evidence_method == "semantic"@
}

/// A file as a candidate, not yet scored.
pub open spec fn path_candidate(path: Seq<char>, distance: int) -> CandidateView {
    CandidateView {
        key: path_key(path),
        canonical_path: path,
        canonical_symbol_key: None,
        display_name: None,
        symbol_kind: None,
        score: 0,
        distance,
        preferred_semantic: false,
    }
}

/// A symbol as a candidate, not yet scored.
pub open spec fn symbol_candidate(
    key: Seq<char>,
    path: Seq<char>,
    name: Seq<char>,
    kind: Seq<char>,
    semantic: bool,
) -> CandidateView {
    CandidateView {
        key,
        canonical_path: path,
        canonical_symbol_key: Some(key),
        display_name: Some(name),
        symbol_kind: Some(kind),
        score: 0,
        distance: 0,
        preferred_semantic: semantic,
    }
}

fn new_path_candidate(path: &str, distance: i64) -> (r: ScoredCandidate)
    ensures
        r@ == path_candidate(path@, distance as int),
{
    ScoredCandidate {
        key: key_for_path(path),
        canonical_path: path.to_string(),
        canonical_symbol_key: None,
        display_name: None,
        symbol_kind: None,
        score: 0,
        distance,
        preferred_semantic: false,
    }
}

fn new_symbol_candidate(
    key: &str,
    path: &str,
    name: &str,
    kind: &str,
    semantic: bool,
) -> (r: ScoredCandidate)
    ensures
        r@ == symbol_candidate(key@, path@, name@, kind@, semantic),
{
    ScoredCandidate {
        key: key.to_string(),
        canonical_path: path.to_string(),
        canonical_symbol_key: Some(key.to_string()),
        display_name: Some(name.to_string()),
        symbol_kind: Some(kind.to_string()),
        score: 0,
        distance: 0,
        preferred_semantic: semantic,
    }
}

/// The candidates once the named paths have been scored: 100 for each mention.
pub open spec fn with_known_paths(
    acc: Seq<CandidateView>,
    paths: Seq<Seq<char>>,
) -> Seq<CandidateView>
    decreases paths.len(),
{
    if paths.len() == 0 {
        acc
    } else {
        add_or_bumped(
            with_known_paths(acc, paths.drop_last()),
            path_candidate(paths.last(), 0),
            100,
        )
    }
}

/// The candidates once the named symbols that the catalogue knows have been
/// scored: 115 on semantic evidence, 100 on any other.
pub open spec fn with_known_symbols(
    acc: Seq<CandidateView>,
    symbols: Seq<Seq<char>>,
    resolved: Seq<Option<ResolvedSymbolView>>,
) -> Seq<CandidateView>
    decreases symbols.len(),
{
    if symbols.len() == 0 {
        acc
    } else {
        let before = with_known_symbols(acc, symbols.drop_last(), resolved);
        let at = symbols.len() - 1;
        if at < resolved.len() && resolved[at] is Some {
            let found = resolved[at]->0;
            let semantic = is_semantic(found.evidence_method);
            add_or_bumped(
                before,
                symbol_candidate(
                    symbols.last(),
                    found.canonical_path,
                    found.display_name,
                    found.symbol_kind,
                    semantic,
                ),
                if semantic { 115 } else { 100 },
            )
        } else {
            before
        }
    }
}

/// The candidates once a symbol row has been held against the task: its name
/// scores 95 on semantic evidence and 80 on any other, its file's name 70.
pub open spec fn with_mention(
    acc: Seq<CandidateView>,
    task_lower: Seq<char>,
    row: SymbolRowView,
) -> Seq<CandidateView> {
    let semantic = is_semantic(row.evidence_method);
    let named = if row.display_name.len() > 0 && text::contains_text(
        task_lower,
        text::ascii_lower(row.display_name),
    ) {
        add_or_bumped(
            acc,
            symbol_candidate(
                row.canonical_symbol_key,
                row.canonical_path,
                row.display_name,
                row.symbol_kind,
                semantic,
            ),
            if semantic { 95 } else { 80 },
        )
    } else {
        acc
    };
    if text::contains_text(task_lower, text::ascii_lower(text::file_name(row.canonical_path))) {
        add_or_bumped(named, path_candidate(row.canonical_path, 0), 70)
    } else {
        named
    }
}

/// The candidates once every symbol row has been held against the task.
pub open spec fn with_mentions(
    acc: Seq<CandidateView>,
    task_lower: Seq<char>,
    rows: Seq<SymbolRowView>,
) -> Seq<CandidateView>
    decreases rows.len(),
{
    if rows.len() == 0 {
        acc
    } else {
        with_mention(with_mentions(acc, task_lower, rows.drop_last()), task_lower, rows.last())
    }
}

/// The candidates that the request itself and its text name.
pub open spec fn seeds(
    req: TaskRequestView,
    resolved: Seq<Option<ResolvedSymbolView>>,
    rows: Seq<SymbolRowView>,
) -> Seq<CandidateView> {
    with_mentions(
        with_known_symbols(
            with_known_paths(Seq::empty(), req.known_paths),
            req.known_symbols,
            resolved,
        ),
        text::ascii_lower(req.task),
        rows,
    )
}

fn score_mention(items: &mut Vec<ScoredCandidate>, task_lower: &str, row: &SymbolRow)
    ensures
        candidates(final(items)@) == with_mention(candidates(old(items)@), task_lower@, row@),
{
    let semantic = text_eq(row.evidence_method.as_str(), "semantic");
    let name_lower = to_ascii_lower(row.display_name.as_str());
    if !row.display_name.as_str().is_empty() && text_contains(task_lower, name_lower.as_str()) {
        let bump: u64 = if semantic { 95 } else { 80 };
        add_or_bump(
            items,
            new_symbol_candidate(
                row.canonical_symbol_key.as_str(),
                row.canonical_path.as_str(),
                row.display_name.as_str(),
                row.symbol_kind.as_str(),
                semantic,
            ),
            bump,
        );
    }
    let file_lower = to_ascii_lower(file_name_of(row.canonical_path.as_str()).as_str());
    if text_contains(task_lower, file_lower.as_str()) {
        add_or_bump(items, new_path_candidate(row.canonical_path.as_str(), 0), 70);
    }
}

/// The candidates that the request itself and its text name. `resolved` answers
/// the request's symbols one for one; `rows` lists the generation's symbols.
pub fn seed_candidates(
    req: &TaskRequest,
    resolved: &Vec<Option<ResolvedSymbol>>,
    rows: &Vec<SymbolRow>,
) -> (r: Vec<ScoredCandidate>)
    ensures
        candidates(r@) == seeds(req@, resolved_views(resolved@), symbol_rows(rows@)),
{
    let mut out: Vec<ScoredCandidate> = Vec::new();
    let ghost paths = req@.known_paths;
    assert(candidates(out@) =~= with_known_paths(Seq::empty(), paths.take(0)));
    for i in 0..req.known_paths.len()
        invariant
            paths == text::texts(req.known_paths@),
            candidates(out@) == with_known_paths(Seq::empty(), paths.take(i as int)),
    {
        add_or_bump(&mut out, new_path_candidate(req.known_paths[i].as_str(), 0), 100);
        proof {
            assert(paths.take(i + 1).drop_last() =~= paths.take(i as int));
            assert(paths.take(i + 1).last() == req.known_paths@[i as int]@);
        }
    }
    let ghost named = with_known_paths(Seq::empty(), paths);
    let ghost symbols = req@.known_symbols;
    let ghost answers = resolved_views(resolved@);
    proof {
        assert(paths.take(paths.len() as int) =~= paths);
        assert(candidates(out@) == with_known_symbols(named, symbols.take(0), answers));
    }
    for i in 0..req.known_symbols.len()
        invariant
            symbols == text::texts(req.known_symbols@),
            answers == resolved_views(resolved@),
            candidates(out@) == with_known_symbols(named, symbols.take(i as int), answers),
    {
        proof {
            assert(symbols.take(i + 1).drop_last() =~= symbols.take(i as int));
            assert(symbols.take(i + 1).last() == req.known_symbols@[i as int]@);
        }
        if i < resolved.len() {
            assert(answers[i as int] == resolved_view(resolved@[i as int]));
            if let Some(found) = &resolved[i] {
                let semantic = text_eq(found.evidence_method.as_str(), "semantic");
                let bump: u64 = if semantic { 115 } else { 100 };
                add_or_bump(
                    &mut out,
                    new_symbol_candidate(
                        req.known_symbols[i].as_str(),
                        found.canonical_path.as_str(),
                        found.display_name.as_str(),
                        found.symbol_kind.as_str(),
                        semantic,
                    ),
                    bump,
                );
            }
        }
    }
    let ghost known = with_known_symbols(named, symbols, answers);
    let ghost all = symbol_rows(rows@);
    let task_lower = to_ascii_lower(req.task.as_str());
    proof {
        assert(symbols.take(symbols.len() as int) =~= symbols);
        assert(candidates(out@) == with_mentions(known, task_lower@, all.take(0)));
    }
    for i in 0..rows.len()
        invariant
            all == symbol_rows(rows@),
            candidates(out@) == with_mentions(known, task_lower@, all.take(i as int)),
    {
        score_mention(&mut out, task_lower.as_str(), &rows[i]);
        proof {
            assert(all.take(i + 1).drop_last() =~= all.take(i as int));
            assert(all.take(i + 1).last() == rows@[i as int]@);
        }
    }
    assert(all.take(rows@.len() as int) =~= all);
    out
}

/// The paths of a list of candidates, in their order.
pub open spec fn paths_of(items: Seq<CandidateView>) -> Seq<Seq<char>> {
    Seq::new(items.len(), |i: int| items[i].canonical_path)
}

/// The paths from which relationships are followed and tests are looked for.
pub fn seed_paths(items: &Vec<ScoredCandidate>) -> (r: Vec<String>)
    ensures
        text::texts(r@) == paths_of(candidates(items@)),
{
    let mut out: Vec<String> = Vec::new();
    for i in 0..items.len()
        invariant
            out@.len() == i,
            forall|j: int| 0 <= j < i ==> out@[j]@ == items@[j]@.canonical_path,
    {
        out.push(items[i].canonical_path.clone());
    }
    assert(text::texts(out@) =~= paths_of(candidates(items@)));
    out
}

/// A recorded relationship that starts at a seed path.
#[derive(Debug, Clone)]
pub struct RelationshipRow {
    pub relationship_type: String,
    pub target_ref_kind: String,
    pub target_ref_value: String,
}

/// The values of a relationship row.
pub ghost struct RelationshipRowView {
    pub relationship_type: Seq<char>,
    pub target_ref_kind: Seq<char>,
    pub target_ref_value: Seq<char>,
}

impl View for RelationshipRow {
    type V = RelationshipRowView;

    open spec fn view(&self) -> RelationshipRowView {
        RelationshipRowView {
            relationship_type: self.relationship_type@,
            target_ref_kind: self.target_ref_kind@,
            target_ref_value: self.target_ref_value@,
        }
    }
}

/// The values of a list of relationship rows.
pub open spec fn relationship_rows(rows: Seq<RelationshipRow>) -> Seq<RelationshipRowView> {
    Seq::new(rows.len(), |i: int| rows[i]@)
}

/// The values of one list of relationship rows per seed path.
pub open spec fn relationship_lists(
    lists: Seq<Vec<RelationshipRow>>,
) -> Seq<Seq<RelationshipRowView>> {
    Seq::new(lists.len(), |i: int| relationship_rows(lists[i]@))
}

/// What a relationship adds to the score of its target.
pub open spec fn relationship_bump(kind: Seq<char>) -> int {
    if kind == "calls"@ {
        50
    } else if kind == "imports"@ {
        40
    } else {
        20
    }
}

/// Candidates together with the paths that have been met.
pub ghost struct Frontier {
    pub items: Seq<CandidateView>,
    pub seen: Seq<Seq<char>>,
}

impl Frontier {
    /// A file that is met for the first time enters at distance one.
    pub open spec fn followed(self, row: RelationshipRowView) -> Frontier {
        if row.target_ref_kind == "path"@ && !self.seen.contains(row.target_ref_value) {
            Frontier {
                items: add_or_bumped(
                    self.items,
                    path_candidate(row.target_ref_value, 1),
                    relationship_bump(row.relationship_type),
                ),
                seen: self.seen.push(row.target_ref_value),
            }
        } else {
            self
        }
    }

    /// The rows of one seed, followed in order.
    pub open spec fn followed_all(self, rows: Seq<RelationshipRowView>) -> Frontier
        decreases rows.len(),
    {
        if rows.len() == 0 {
            self
        } else {
            self.followed_all(rows.drop_last()).followed(rows.last())
        }
    }

    /// The rows of every seed, followed in order.
    pub open spec fn expanded(self, lists: Seq<Seq<RelationshipRowView>>) -> Frontier
        decreases lists.len(),
    {
        if lists.len() == 0 {
            self
        } else {
            self.expanded(lists.drop_last()).followed_all(lists.last())
        }
    }
}

/// The candidates widened by one hop along the relationships of each seed.
pub open spec fn neighbours(
    items: Seq<CandidateView>,
    lists: Seq<Seq<RelationshipRowView>>,
) -> Seq<CandidateView> {
    (Frontier { items, seen: paths_of(items) }).expanded(lists).items
}

fn follow(items: &mut Vec<ScoredCandidate>, seen: &mut Vec<String>, row: &RelationshipRow)
    ensures
        (Frontier { items: candidates(final(items)@), seen: text::texts(final(seen)@) }) == (
        Frontier { items: candidates(old(items)@), seen: text::texts(old(seen)@) }).followed(row@),
{
    if text_eq(row.target_ref_kind.as_str(), "path") && !has_text(
        seen,
        row.target_ref_value.as_str(),
    ) {
        let bump: u64 = if text_eq(row.relationship_type.as_str(), "calls") {
            50
        } else if text_eq(row.relationship_type.as_str(), "imports") {
            40
        } else {
            20
        };
        add_or_bump(items, new_path_candidate(row.target_ref_value.as_str(), 1), bump);
        seen.push(row.target_ref_value.clone());
        assert(text::texts(seen@) =~= text::texts(old(seen)@).push(row@.target_ref_value));
    }
}

/// The candidates widened by one hop. `lists` holds the relationships of each seed
/// path in turn.
pub fn expand_candidates(
    items: Vec<ScoredCandidate>,
    lists: &Vec<Vec<RelationshipRow>>,
) -> (r: Vec<ScoredCandidate>)
    ensures
        candidates(r@) == neighbours(candidates(items@), relationship_lists(lists@)),
{
    let mut seen = seed_paths(&items);
    let mut out = items;
    let ghost start = Frontier { items: candidates(out@), seen: text::texts(seen@) };
    let ghost all = relationship_lists(lists@);
    assert(all.take(0) =~= Seq::empty());
    for i in 0..lists.len()
        invariant
            all == relationship_lists(lists@),
            (Frontier { items: candidates(out@), seen: text::texts(seen@) }) == start.expanded(
                all.take(i as int),
            ),
    {
        let list: &Vec<RelationshipRow> = &lists[i];
        let ghost rows = relationship_rows(list@);
        let ghost so_far = start.expanded(all.take(i as int));
        assert(rows.take(0) =~= Seq::empty());
        for j in 0..list.len()
            invariant
                rows == relationship_rows(list@),
                (Frontier { items: candidates(out@), seen: text::texts(seen@) })
                    == so_far.followed_all(rows.take(j as int)),
        {
            follow(&mut out, &mut seen, &list[j]);
            proof {
                assert(rows.take(j + 1).drop_last() =~= rows.take(j as int));
                assert(rows.take(j + 1).last() == list@[j as int]@);
            }
        }
        proof {
            assert(rows.take(rows.len() as int) =~= rows);
            assert(all.take(i + 1).drop_last() =~= all.take(i as int));
            assert(all.take(i + 1).last() == rows);
        }
    }
    assert(all.take(lists@.len() as int) =~= all);
    out
}

/// The name under which the tests of a seed path are looked for.
pub open spec fn test_base(seed: Seq<char>) -> Seq<char> {
    text::without_suffixes(text::file_name(seed), ".ts"@)
}

/// The two `LIKE` patterns that find the tests of a seed path: `test` before its
/// name, or after it.
pub fn test_patterns(seed: &str) -> (r: (String, String))
    ensures
        r.0@ == "%test%"@ + test_base(seed@) + "%"@,
        r.1@ == "%"@ + test_base(seed@) + "%test%"@,
{
    proof {
        reveal_strlit(".ts");
    }
    let base = trim_suffixes(file_name_of(seed).as_str(), ".ts");
    let mut before = join2("%test%", base.as_str());
    before.append("%");
    let mut after = join2("%", base.as_str());
    after.append("%test%");
    (before, after)
}

/// All the texts of a list of lists, in order.
pub open spec fn all_texts(lists: Seq<Vec<String>>) -> Seq<Seq<char>>
    decreases lists.len(),
{
    if lists.len() == 0 {
        Seq::empty()
    } else {
        all_texts(lists.drop_last()) + text::texts(lists.last()@)
    }
}

/// The test files found for the seeds, sorted, each once.
pub fn merge_test_paths(found: &Vec<Vec<String>>) -> (r: Vec<String>)
    ensures
        text::texts(r@) == sorted::sorted_list::<String>(all_texts(found@)),
{
    let mut all: Vec<String> = Vec::new();
    assert(text::texts(all@) =~= all_texts(found@.take(0)));
    for i in 0..found.len()
        invariant
            text::texts(all@) == all_texts(found@.take(i as int)),
    {
        let ghost before = text::texts(all@);
        let mut more = text::clone_texts(&found[i]);
        let ghost added = text::texts(more@);
        all.append(&mut more);
        proof {
            assert(text::texts(all@) =~= before + added);
            assert(found@.take(i + 1).drop_last() =~= found@.take(i as int));
            assert(found@.take(i + 1).last() == found@[i as int]);
        }
    }
    assert(found@.take(found@.len() as int) =~= found@);
    assert(sorted::views::<String>(all@) =~= text::texts(all@));
    let out = sort_list(all.as_slice());
    assert(sorted::views::<String>(out@) =~= text::texts(out@));
    out
}

/// What was found when the source of a candidate was looked up: the digest that
/// the catalogue holds of it, the digest of the file as it is, and its text. Each
/// is missing where it could not be had.
#[derive(Debug, Clone)]
pub struct SourceObservation {
    pub indexed_hash: Option<String>,
    pub observed_hash: Option<String>,
    pub text: Option<String>,
}

/// The values of a source observation.
pub ghost struct ObservationView {
    pub indexed_hash: Option<Seq<char>>,
    pub observed_hash: Option<Seq<char>>,
    pub text: Option<Seq<char>>,
}

impl View for SourceObservation {
    type V = ObservationView;

    open spec fn view(&self) -> ObservationView {
        ObservationView {
            indexed_hash: text::opt_text(self.indexed_hash),
            observed_hash: text::opt_text(self.observed_hash),
            text: text::opt_text(self.text),
        }
    }
}

impl ObservationView {
    /// Nothing was found.
    pub open spec fn nothing() -> ObservationView {
        ObservationView { indexed_hash: None, observed_hash: None, text: None }
    }

    /// The file is as it was indexed, and its text is at hand.
    pub open spec fn verified(self) -> bool {
        self.indexed_hash is Some && self.observed_hash == self.indexed_hash && self.text is Some
    }
}

/// The values of a list of source observations.
pub open spec fn observations(items: Seq<SourceObservation>) -> Seq<ObservationView> {
    Seq::new(items.len(), |i: int| items[i]@)
}

impl SourceObservation {
    /// Nothing was found.
    pub fn nothing() -> (r: Self)
        ensures
            r@ == ObservationView::nothing(),
    {
        SourceObservation { indexed_hash: None, observed_hash: None, text: None }
    }
}

/// The source of a selected candidate, with the outcome of checking it against
/// the catalogue: `verified`, `hash_mismatch` or `read_failed`.
#[derive(Debug, Clone)]
pub struct ExactExcerpt {
    pub canonical_path: String,
    pub indexed_content_hash: String,
    pub observed_content_hash: String,
    pub status: String,
    pub excerpt_hash: Option<String>,
    pub text: Option<String>,
}

/// The values of an exact excerpt.
pub ghost struct ExcerptView {
    pub canonical_path: Seq<char>,
    pub indexed_content_hash: Seq<char>,
    pub observed_content_hash: Seq<char>,
    pub status: Seq<char>,
    pub excerpt_hash: Option<Seq<char>>,
    pub text: Option<Seq<char>>,
}

impl View for ExactExcerpt {
    type V = ExcerptView;

    open spec fn view(&self) -> ExcerptView {
        ExcerptView {
            canonical_path: self.canonical_path@,
            indexed_content_hash: self.indexed_content_hash@,
            observed_content_hash: self.observed_content_hash@,
            status: self.status@,
            excerpt_hash: text::opt_text(self.excerpt_hash),
            text: text::opt_text(self.text),
        }
    }
}

/// The values of a list of excerpts.
pub open spec fn excerpts(items: Seq<ExactExcerpt>) -> Seq<ExcerptView> {
    Seq::new(items.len(), |i: int| items[i]@)
}

/// The length of a text in bytes.
pub open spec fn byte_len(s: Seq<char>) -> int {
    digest::text_field(s).len() as int
}

/// The excerpt that an observation of an indexed file gives.
pub open spec fn excerpt_of(path: Seq<char>, found: ObservationView) -> ExcerptView {
    let observed = match found.observed_hash {
        Some(hash) => hash,
        None => Seq::empty(),
    };
    ExcerptView {
        canonical_path: path,
        indexed_content_hash: found.indexed_hash->0,
        observed_content_hash: observed,
        status: if found.verified() {
            "verified"@
        } else if found.observed_hash is Some && found.observed_hash != found.indexed_hash {
            "hash_mismatch"@
        } else {
            "read_failed"@
        },
        excerpt_hash: if found.verified() {
            Some(digest::content_hash(digest::text_field(found.text->0)))
        } else {
            None
        },
        text: if found.verified() {
            found.text
        } else {
            None
        },
    }
}

/// How far a selection has come.
pub ghost struct SelectionView {
    pub selected: Seq<CandidateView>,
    pub unselected: Seq<CandidateView>,
    pub excerpts: Seq<ExcerptView>,
    pub used_source_bytes: int,
}

impl SelectionView {
    /// Nothing has been offered.
    pub open spec fn start() -> SelectionView {
        SelectionView {
            selected: Seq::empty(),
            unselected: Seq::empty(),
            excerpts: Seq::empty(),
            used_source_bytes: 0,
        }
    }

    /// The next candidate's source will decide whether it is selected.
    pub open spec fn wants_source(self, req: TaskRequestView) -> bool {
        self.selected.len() < req.usable_records() && req.mode.with_source()
    }

    /// This much more source would go past one of the two source limits.
    pub open spec fn over_limit(self, req: TaskRequestView, bytes: int) -> bool {
        self.used_source_bytes + bytes > req.max_source_bytes || (self.used_source_bytes + bytes)
            / 4 > req.max_token_estimate
    }

    /// The selection after one more candidate. It is passed over when the record
    /// budget is spent or when its verified text does not fit the source limits.
    pub open spec fn offered(
        self,
        req: TaskRequestView,
        candidate: CandidateView,
        found: ObservationView,
    ) -> SelectionView {
        if self.selected.len() >= req.usable_records() {
            SelectionView { unselected: self.unselected.push(candidate), ..self }
        } else if !req.mode.with_source() || found.indexed_hash is None {
            SelectionView { selected: self.selected.push(candidate), ..self }
        } else if found.verified() {
            let bytes = byte_len(found.text->0);
            if self.over_limit(req, bytes) {
                SelectionView { unselected: self.unselected.push(candidate), ..self }
            } else {
                SelectionView {
                    selected: self.selected.push(candidate),
                    excerpts: self.excerpts.push(excerpt_of(candidate.canonical_path, found)),
                    used_source_bytes: self.used_source_bytes + bytes,
                    ..self
                }
            }
        } else {
            SelectionView {
                selected: self.selected.push(candidate),
                excerpts: self.excerpts.push(excerpt_of(candidate.canonical_path, found)),
                ..self
            }
        }
    }
}

/// The observation of a candidate; nothing where the list is too short.
pub open spec fn observation_at(found: Seq<ObservationView>, at: int) -> ObservationView {
    if at < found.len() {
        found[at]
    } else {
        ObservationView::nothing()
    }
}

/// The selection from a ranked list, each candidate with its observation.
pub open spec fn selection_of(
    req: TaskRequestView,
    ranked: Seq<CandidateView>,
    found: Seq<ObservationView>,
) -> SelectionView
    decreases ranked.len(),
{
    if ranked.len() == 0 {
        SelectionView::start()
    } else {
        selection_of(req, ranked.drop_last(), found).offered(
            req,
            ranked.last(),
            observation_at(found, ranked.len() - 1),
        )
    }
}

/// The bytes of source that a list of excerpts carries.
pub open spec fn source_bytes(items: Seq<ExcerptView>) -> int
    decreases items.len(),
{
    if items.len() == 0 {
        0
    } else {
        source_bytes(items.drop_last()) + match items.last().text {
            Some(t) => byte_len(t),
            None => 0,
        }
    }
}

/// Every candidate is either selected or passed over; the selected ones stay
/// within the record budget; the source that is carried is what is accounted for,
/// and wherever any is carried it is within both source limits. Without source
/// there are no excerpts.
pub proof fn law_selection_respects_budgets(
    req: TaskRequestView,
    ranked: Seq<CandidateView>,
    found: Seq<ObservationView>,
)
    ensures
        ({
            let r = selection_of(req, ranked, found);
            &&& r.selected.len() + r.unselected.len() == ranked.len()
            &&& r.selected.len() <= req.usable_records()
            &&& r.excerpts.len() <= r.selected.len()
            &&& source_bytes(r.excerpts) == r.used_source_bytes
            &&& r.used_source_bytes >= 0
            &&& r.used_source_bytes > 0 ==> r.used_source_bytes <= req.max_source_bytes
                && r.used_source_bytes / 4 <= req.max_token_estimate
            &&& !req.mode.with_source() ==> r.excerpts.len() == 0
        }),
    decreases ranked.len(),
{
    if ranked.len() > 0 {
        law_selection_respects_budgets(req, ranked.drop_last(), found);
        let before = selection_of(req, ranked.drop_last(), found);
        let seen = observation_at(found, ranked.len() - 1);
        let e = excerpt_of(ranked.last().canonical_path, seen);
        assert(before.excerpts.push(e).drop_last() =~= before.excerpts);
    }
}

/// The candidates that a selection has taken and passed over.
#[derive(Debug)]
pub struct Selection {
    pub selected: Vec<ScoredCandidate>,
    pub unselected: Vec<ScoredCandidate>,
    pub excerpts: Vec<ExactExcerpt>,
    pub used_source_bytes: i64,
}

impl View for Selection {
    type V = SelectionView;

    open spec fn view(&self) -> SelectionView {
        SelectionView {
            selected: candidates(self.selected@),
            unselected: candidates(self.unselected@),
            excerpts: excerpts(self.excerpts@),
            used_source_bytes: self.used_source_bytes as int,
        }
    }
}

/// Nine tenths of a record budget, rounded down; none of a negative one.
pub fn usable_records(max_records: i64) -> (r: i64)
    ensures
        r == (if max_records <= 0 {
            0
        } else {
            max_records * 9 / 10
        }),
{
    if max_records <= 0 {
        0
    } else {
        let tens: i64 = max_records / 10;
        let ones: i64 = max_records % 10;
        assert(max_records * 9 / 10 == tens * 9 + ones * 9 / 10) by (nonlinear_arith)
            requires
                max_records > 0,
                tens == max_records / 10,
                ones == max_records % 10,
        ;
        tens * 9 + ones * 9 / 10
    }
}

fn fewer_than(count: usize, limit: i64) -> (r: bool)
    ensures
        r == (count < limit),
{
    limit > 0 && (count as u64) < (limit as u64)
}

fn new_excerpt(path: &str, found: &SourceObservation, indexed: &str) -> (r: ExactExcerpt)
    requires
        found@.indexed_hash == Some(indexed@),
    ensures
        r@ == excerpt_of(path@, found@),
{
    let (observed, matching): (String, bool) = match &found.observed_hash {
        Some(hash) => (hash.clone(), text_eq(hash.as_str(), indexed)),
        None => (String::new(), false),
    };
    let mut excerpt_hash: Option<String> = None;
    let mut body: Option<String> = None;
    let mut status: &str = "read_failed";
    if matching {
        if let Some(content) = &found.text {
            excerpt_hash = Some(hash_of_text(content.as_str()));
            body = Some(content.clone());
            status = "verified";
        }
    } else if found.observed_hash.is_some() {
        status = "hash_mismatch";
    }
    ExactExcerpt {
        canonical_path: path.to_string(),
        indexed_content_hash: indexed.to_string(),
        observed_content_hash: observed,
        status: status.to_string(),
        excerpt_hash,
        text: body,
    }
}

impl Selection {
    /// The used source is a count of bytes.
    pub open spec fn well_formed(self) -> bool {
        self.used_source_bytes >= 0
    }

    /// A selection to which nothing has been offered.
    pub fn start() -> (r: Self)
        ensures
            r.well_formed(),
            r@ == SelectionView::start(),
    {
        let r = Selection {
            selected: Vec::new(),
            unselected: Vec::new(),
            excerpts: Vec::new(),
            used_source_bytes: 0,
        };
        assert(r@.selected =~= SelectionView::start().selected);
        assert(r@.unselected =~= SelectionView::start().unselected);
        assert(r@.excerpts =~= SelectionView::start().excerpts);
        r
    }

    /// Whether the source of the next candidate has to be looked up.
    pub fn wants_source(&self, req: &TaskRequest) -> (r: bool)
        ensures
            r == self@.wants_source(req@),
    {
        fewer_than(self.selected.len(), usable_records(req.max_records)) && (req.mode
            == BrokerMode::Change || req.mode == BrokerMode::Audit)
    }

    fn take(&mut self, candidate: ScoredCandidate)
        ensures
            final(self)@ == (SelectionView {
                selected: old(self)@.selected.push(candidate@),
                ..old(self)@
            }),
            final(self).well_formed() == old(self).well_formed(),
    {
        let ghost given = candidate@;
        self.selected.push(candidate);
        assert(self@.selected =~= old(self)@.selected.push(given));
    }

    fn pass_over(&mut self, candidate: ScoredCandidate)
        ensures
            final(self)@ == (SelectionView {
                unselected: old(self)@.unselected.push(candidate@),
                ..old(self)@
            }),
            final(self).well_formed() == old(self).well_formed(),
    {
        let ghost given = candidate@;
        self.unselected.push(candidate);
        assert(self@.unselected =~= old(self)@.unselected.push(given));
    }

    fn show(&mut self, excerpt: ExactExcerpt)
        ensures
            final(self)@ == (SelectionView {
                excerpts: old(self)@.excerpts.push(excerpt@),
                ..old(self)@
            }),
            final(self).well_formed() == old(self).well_formed(),
    {
        let ghost given = excerpt@;
        self.excerpts.push(excerpt);
        assert(self@.excerpts =~= old(self)@.excerpts.push(given));
    }

    /// Offers the next candidate with what was found of its source.
    pub fn offer(
        &mut self,
        req: &TaskRequest,
        candidate: ScoredCandidate,
        found: &SourceObservation,
    )
        requires
            old(self).well_formed(),
        ensures
            final(self).well_formed(),
            final(self)@ == old(self)@.offered(req@, candidate@, found@),
    {
        if !fewer_than(self.selected.len(), usable_records(req.max_records)) {
            self.pass_over(candidate);
            return;
        }
        if !(req.mode == BrokerMode::Change || req.mode == BrokerMode::Audit) {
            self.take(candidate);
            return;
        }
        let indexed = match &found.indexed_hash {
            Some(hash) => hash,
            None => {
                self.take(candidate);
                return;
            },
        };
        let excerpt = new_excerpt(candidate.canonical_path.as_str(), found, indexed.as_str());
        if let Some(content) = &excerpt.text {
            let bytes: usize = content.as_str().as_bytes().len();
            let room: u64 = if req.max_source_bytes >= self.used_source_bytes {
                (req.max_source_bytes - self.used_source_bytes) as u64
            } else {
                0
            };
            if req.max_source_bytes < self.used_source_bytes || bytes as u64 > room {
                self.pass_over(candidate);
                return;
            }
            let next: i64 = self.used_source_bytes + bytes as i64;
            if next / 4 > req.max_token_estimate {
                self.pass_over(candidate);
                return;
            }
            self.used_source_bytes = next;
        }
        self.show(excerpt);
        self.take(candidate);
    }
}

/// The selection from a ranked list. `found` holds the observation of each
/// candidate in turn.
pub fn select_candidates(
    req: &TaskRequest,
    ranked: Vec<ScoredCandidate>,
    found: &Vec<SourceObservation>,
) -> (r: Selection)
    ensures
        r.well_formed(),
        r@ == selection_of(req@, candidates(ranked@), observations(found@)),
{
    let ghost all = candidates(ranked@);
    let ghost seen = observations(found@);
    let total: usize = ranked.len();
    let mut rest = ranked;
    let mut reversed: Vec<ScoredCandidate> = Vec::new();
    while rest.len() > 0
        invariant
            all.len() == rest@.len() + reversed@.len(),
            forall|i: int| 0 <= i < rest@.len() ==> rest@[i]@ == all[i],
            forall|i: int|
                0 <= i < reversed@.len() ==> (#[trigger] reversed@[i])@ == all[all.len() - 1 - i],
        decreases rest@.len(),
    {
        if let Some(item) = rest.pop() {
            reversed.push(item);
        }
    }
    let mut out = Selection::start();
    let nothing = SourceObservation::nothing();
    let mut at: usize = 0;
    assert(all.take(0) =~= Seq::empty());
    while reversed.len() > 0
        invariant
            out.well_formed(),
            seen == observations(found@),
            nothing@ == ObservationView::nothing(),
            at + reversed@.len() == all.len(),
            all.len() == total,
            forall|i: int|
                0 <= i < reversed@.len() ==> (#[trigger] reversed@[i])@ == all[all.len() - 1 - i],
            out@ == selection_of(req@, all.take(at as int), seen),
        decreases reversed@.len(),
    {
        if let Some(item) = reversed.pop() {
            proof {
                assert(item@ == all[at as int]);
                assert(all.take(at + 1).drop_last() =~= all.take(at as int));
                assert(all.take(at + 1).last() == all[at as int]);
            }
            if at < found.len() {
                assert(seen[at as int] == found@[at as int]@);
                out.offer(req, item, &found[at]);
            } else {
                out.offer(req, item, &nothing);
            }
            at = at + 1;
        }
    }
    assert(all.take(all.len() as int) =~= all);
    out
}

/// A file or symbol as a packet lists it. `preferred_semantic` says that a
/// semantic extractor produced the evidence.
#[derive(Debug, Clone)]
pub struct PrimaryTarget {
    pub canonical_path: String,
    pub canonical_symbol_key: Option<String>,
    pub display_name: Option<String>,
    pub symbol_kind: Option<String>,
    pub score: u64,
    pub relationship_distance: i64,
    pub preferred_semantic: bool,
}

/// The values of a primary target.
pub ghost struct TargetView {
    pub canonical_path: Seq<char>,
    pub canonical_symbol_key: Option<Seq<char>>,
    pub display_name: Option<Seq<char>>,
    pub symbol_kind: Option<Seq<char>>,
    pub score: int,
    pub relationship_distance: int,
    pub preferred_semantic: bool,
}

impl View for PrimaryTarget {
    type V = TargetView;

    open spec fn view(&self) -> TargetView {
        TargetView {
            canonical_path: self.canonical_path@,
            canonical_symbol_key: text::opt_text(self.canonical_symbol_key),
            display_name: text::opt_text(self.display_name),
            symbol_kind: text::opt_text(self.symbol_kind),
            score: self.score as int,
            relationship_distance: self.relationship_distance as int,
            preferred_semantic: self.preferred_semantic,
        }
    }
}

impl TargetView {
    /// What stands for the target in the packet's digest: its symbol key, or its
    /// path where it has none.
    pub open spec fn identity(self) -> Seq<char> {
        match self.canonical_symbol_key {
            Some(key) => key,
            None => self.canonical_path,
        }
    }
}

/// The values of a list of targets.
pub open spec fn target_views(items: Seq<PrimaryTarget>) -> Seq<TargetView> {
    Seq::new(items.len(), |i: int| items[i]@)
}

/// A candidate as a packet lists it.
pub open spec fn target_of(c: CandidateView) -> TargetView {
    TargetView {
        canonical_path: c.canonical_path,
        canonical_symbol_key: c.canonical_symbol_key,
        display_name: c.display_name,
        symbol_kind: c.symbol_kind,
        score: c.score,
        relationship_distance: c.distance,
        preferred_semantic: c.preferred_semantic,
    }
}

/// A list of candidates as a packet lists them.
pub open spec fn targets_of(items: Seq<CandidateView>) -> Seq<TargetView> {
    Seq::new(items.len(), |i: int| target_of(items[i]))
}

fn first_targets(items: &Vec<ScoredCandidate>, most: usize) -> (r: Vec<PrimaryTarget>)
    ensures
        target_views(r@) == targets_of(
            candidates(items@).take(
                if most < items@.len() {
                    most as int
                } else {
                    items@.len() as int
                },
            ),
        ),
{
    let count: usize = if most < items.len() {
        most
    } else {
        items.len()
    };
    let mut out: Vec<PrimaryTarget> = Vec::new();
    for i in 0..count
        invariant
            count <= items@.len(),
            out@.len() == i,
            forall|j: int| 0 <= j < i ==> (#[trigger] out@[j])@ == target_of(items@[j]@),
    {
        let c = &items[i];
        out.push(
            PrimaryTarget {
                canonical_path: c.canonical_path.clone(),
                canonical_symbol_key: clone_opt_text(&c.canonical_symbol_key),
                display_name: clone_opt_text(&c.display_name),
                symbol_kind: clone_opt_text(&c.symbol_kind),
                score: c.score,
                relationship_distance: c.distance,
                preferred_semantic: c.preferred_semantic,
            },
        );
    }
    assert(target_views(out@) =~= targets_of(candidates(items@).take(count as int)));
    out
}

/// What was considered and what was left out.
#[derive(Debug, Clone, Copy, PartialEq, Eq, Structural)]
pub struct OmissionSummary {
    pub total_candidates_considered: i64,
    pub selected_count: i64,
    pub omitted_by_budget: i64,
    pub unsupported_in_scope: i64,
    pub excluded_in_scope: i64,
}

/// The budgets of the request and what the packet used of them.
#[derive(Debug, Clone, Copy, PartialEq, Eq, Structural)]
pub struct BudgetReport {
    pub max_records: i64,
    pub max_source_bytes: i64,
    pub max_token_estimate: i64,
    pub used_records: i64,
    pub used_source_bytes: i64,
    pub estimated_tokens: i64,
    pub uncertainty_reserve_pct: i64,
}

/// A conflict between pieces of evidence that an audit shows.
#[derive(Debug, Clone)]
pub struct ConflictSummary {
    pub subject_kind: String,
    pub subject_key: String,
    pub conflict_type: String,
    pub status: String,
    pub explanation: String,
}

/// A coverage record that an audit shows.
#[derive(Debug, Clone)]
pub struct CoverageRow {
    pub scope_kind: String,
    pub scope_key: String,
    pub status: String,
}

/// A bounded answer to a task request. Alternatives, conflicts and coverage are
/// filled by an audit only.
#[derive(Debug, Clone)]
pub struct ContextPacket {
    pub schema_version: String,
    pub packet_id: String,
    pub created_at: String,
    pub workspace_id: String,
    pub active_generation_id: Option<String>,
    pub mode: String,
    pub normalized_task: String,
    pub ranking_policy_version: String,
    pub primary_targets: Vec<PrimaryTarget>,
    pub supporting_relationships: Vec<String>,
    pub tests: Vec<String>,
    pub exact_excerpts: Vec<ExactExcerpt>,
    pub unresolved: Vec<String>,
    pub omissions: OmissionSummary,
    pub budget: BudgetReport,
    pub alternatives: Vec<PrimaryTarget>,
    pub conflicts: Vec<ConflictSummary>,
    pub coverage: Vec<CoverageRow>,
    pub packet_hash: String,
    pub status: String,
}

/// The values of a packet.
pub ghost struct PacketView {
    pub schema_version: Seq<char>,
    pub packet_id: Seq<char>,
    pub created_at: Seq<char>,
    pub workspace_id: Seq<char>,
    pub active_generation_id: Option<Seq<char>>,
    pub mode: Seq<char>,
    pub normalized_task: Seq<char>,
    pub ranking_policy_version: Seq<char>,
    pub primary_targets: Seq<TargetView>,
    pub supporting_relationships: Seq<Seq<char>>,
    pub tests: Seq<Seq<char>>,
    pub exact_excerpts: Seq<ExcerptView>,
    pub unresolved: Seq<Seq<char>>,
    pub omissions: OmissionSummary,
    pub budget: BudgetReport,
    pub alternatives: Seq<TargetView>,
    pub conflicts: Seq<ConflictSummary>,
    pub coverage: Seq<CoverageRow>,
    pub packet_hash: Seq<char>,
    pub status: Seq<char>,
}

impl View for ContextPacket {
    type V = PacketView;

    open spec fn view(&self) -> PacketView {
        PacketView {
            schema_version: self.schema_version@,
            packet_id: self.packet_id@,
            created_at: self.created_at@,
            workspace_id: self.workspace_id@,
            active_generation_id: text::opt_text(self.active_generation_id),
            mode: self.mode@,
            normalized_task: self.normalized_task@,
            ranking_policy_version: self.ranking_policy_version@,
            primary_targets: target_views(self.primary_targets@),
            supporting_relationships: text::texts(self.supporting_relationships@),
            tests: text::texts(self.tests@),
            exact_excerpts: excerpts(self.exact_excerpts@),
            unresolved: text::texts(self.unresolved@),
            omissions: self.omissions,
            budget: self.budget,
            alternatives: target_views(self.alternatives@),
            conflicts: self.conflicts@,
            coverage: self.coverage@,
            packet_hash: self.packet_hash@,
            status: self.status@,
        }
    }
}

/// What stands for each target in the packet's digest.
pub open spec fn identities(items: Seq<TargetView>) -> Seq<Seq<char>> {
    Seq::new(items.len(), |i: int| items[i].identity())
}

impl PacketView {
    /// The packet in one line: where it comes from, which request it answers under
    /// which policy, and its targets in order.
    pub open spec fn canonical(self, request_hash: Seq<char>) -> Seq<char> {
        let sep = unit_separator();
        let generation = match self.active_generation_id {
            Some(id) => id,
            None => Seq::empty(),
        };
        self.workspace_id + sep + generation + sep + request_hash + sep
            + self.ranking_policy_version + sep + text::joined(
            identities(self.primary_targets),
            ","@,
        )
    }

    /// The packet with its digest filled in.
    pub open spec fn sealed(self, request_hash: Seq<char>) -> PacketView {
        PacketView {
            packet_hash: digest::content_hash(digest::text_field(self.canonical(request_hash))),
            ..self
        }
    }
}

/// Fills in the packet's digest.
pub fn finalize_packet_hash(packet: ContextPacket, request_hash: &str) -> (r: ContextPacket)
    ensures
        r@ == packet@.sealed(request_hash@),
{
    let mut names: Vec<String> = Vec::new();
    for i in 0..packet.primary_targets.len()
        invariant
            names@.len() == i,
            forall|j: int|
                0 <= j < i ==> (#[trigger] names@[j])@ == packet.primary_targets@[j]@.identity(),
    {
        let target = &packet.primary_targets[i];
        match &target.canonical_symbol_key {
            Some(key) => {
                names.push(key.clone());
            },
            None => {
                names.push(target.canonical_path.clone());
            },
        }
    }
    assert(text::texts(names@) =~= identities(packet@.primary_targets));
    let sep = "\u{1f}";
    let mut line = packet.workspace_id.clone();
    line.append(sep);
    line.append(or_empty(&packet.active_generation_id).as_str());
    line.append(sep);
    line.append(request_hash);
    line.append(sep);
    line.append(packet.ranking_policy_version.as_str());
    line.append(sep);
    line.append(join_texts(&names, ",").as_str());
    assert(line@ == packet@.canonical(request_hash@));
    let mut out = packet;
    out.packet_hash = hash_of_text(line.as_str());
    out
}

/// The workspace that a packet is about and the time at which it is made.
#[derive(Debug, Clone)]
pub struct PacketScope {
    pub workspace_id: String,
    pub active_generation_id: Option<String>,
    pub created_at: String,
}

/// What the catalogue and the files hold for a request: the request's symbols
/// resolved one for one, the generation's symbols, the relationships and test
/// files of each seed path, the observation of each ranked candidate, and the
/// conflicts and coverage of the generation.
#[derive(Debug, Clone)]
pub struct GenerationFacts {
    pub resolved: Vec<Option<ResolvedSymbol>>,
    pub symbols: Vec<SymbolRow>,
    pub relationships: Vec<Vec<RelationshipRow>>,
    pub test_paths: Vec<Vec<String>>,
    pub observations: Vec<SourceObservation>,
    pub conflicts: Vec<ConflictSummary>,
    pub coverage: Vec<CoverageRow>,
}

/// A count as a signed number, at most the largest one.
pub open spec fn as_count(n: int) -> i64 {
    if n > i64::MAX {
        i64::MAX
    } else {
        n as i64
    }
}

fn signed_count(n: usize) -> (r: i64)
    ensures
        r == as_count(n as int),
{
    if n as u64 > i64::MAX as u64 {
        i64::MAX
    } else {
        n as i64
    }
}

/// The candidates of a request in rank order.
pub open spec fn ranked_candidates(
    facts: GenerationFacts,
    req: TaskRequestView,
) -> Seq<CandidateView> {
    sorted::ranked_list::<ScoredCandidate>(
        neighbours(
            seeds(req, resolved_views(facts.resolved@), symbol_rows(facts.symbols@)),
            relationship_lists(facts.relationships@),
        ),
    )
}

/// Some source could not be verified, or something was passed over.
pub open spec fn incomplete(s: SelectionView) -> bool {
    s.unselected.len() > 0 || exists|i: int|
        0 <= i < s.excerpts.len() && (#[trigger] s.excerpts[i]).status != "verified"@
}

/// The packet of a workspace without an active generation, before its digest.
pub open spec fn blocked_packet(scope: PacketScope, req: TaskRequestView) -> PacketView {
    PacketView {
        schema_version: "1.0.0"@,
        packet_id: "pkt_"@ + req.request_hash().take(32),
        created_at: scope.created_at@,
        workspace_id: scope.workspace_id@,
        active_generation_id: None,
        mode: req.mode.name(),
        normalized_task: req.task,
        ranking_policy_version: RANKING_POLICY_VERSION@,
        primary_targets: Seq::empty(),
        supporting_relationships: Seq::empty(),
        tests: Seq::empty(),
        exact_excerpts: Seq::empty(),
        unresolved: Seq::empty(),
        omissions: OmissionSummary {
            total_candidates_considered: 0,
            selected_count: 0,
            omitted_by_budget: 0,
            unsupported_in_scope: 0,
            excluded_in_scope: 0,
        },
        budget: BudgetReport {
            max_records: req.max_records as i64,
            max_source_bytes: req.max_source_bytes as i64,
            max_token_estimate: req.max_token_estimate as i64,
            used_records: 0,
            used_source_bytes: 0,
            estimated_tokens: 0,
            uncertainty_reserve_pct: UNCERTAINTY_RESERVE_PCT,
        },
        alternatives: Seq::empty(),
        conflicts: Seq::empty(),
        coverage: Seq::empty(),
        packet_hash: Seq::empty(),
        status: "blocked"@,
    }
}

/// The packet of a workspace with an active generation, before its digest.
pub open spec fn filled_packet(
    scope: PacketScope,
    facts: GenerationFacts,
    req: TaskRequestView,
) -> PacketView {
    let ranked = ranked_candidates(facts, req);
    let s = selection_of(req, ranked, observations(facts.observations@));
    let audit = req.mode == BrokerMode::Audit;
    let shown = if MAX_ALTERNATIVES < s.unselected.len() {
        MAX_ALTERNATIVES as int
    } else {
        s.unselected.len() as int
    };
    let rows = facts.symbols@.len() as int;
    PacketView {
        active_generation_id: text::opt_text(scope.active_generation_id),
        primary_targets: targets_of(s.selected),
        tests: sorted::sorted_list::<String>(all_texts(facts.test_paths@)),
        exact_excerpts: s.excerpts,
        omissions: OmissionSummary {
            total_candidates_considered: as_count(ranked.len() as int),
            selected_count: as_count(s.selected.len() as int),
            omitted_by_budget: as_count(s.unselected.len() as int),
            unsupported_in_scope: 0,
            excluded_in_scope: as_count(
                if rows > ranked.len() {
                    rows - ranked.len()
                } else {
                    0
                },
            ),
        },
        budget: BudgetReport {
            max_records: req.max_records as i64,
            max_source_bytes: req.max_source_bytes as i64,
            max_token_estimate: req.max_token_estimate as i64,
            used_records: as_count(s.selected.len() as int),
            used_source_bytes: s.used_source_bytes as i64,
            estimated_tokens: (s.used_source_bytes / 4) as i64,
            uncertainty_reserve_pct: UNCERTAINTY_RESERVE_PCT,
        },
        alternatives: if audit {
            targets_of(s.unselected.take(shown))
        } else {
            Seq::empty()
        },
        conflicts: if audit {
            facts.conflicts@
        } else {
            Seq::empty()
        },
        coverage: if audit {
            facts.coverage@
        } else {
            Seq::empty()
        },
        status: if incomplete(s) {
            "partial"@
        } else {
            "complete"@
        },
        ..blocked_packet(scope, req)
    }
}

/// The packet that answers a request.
pub open spec fn packet_of(
    scope: PacketScope,
    facts: GenerationFacts,
    req: TaskRequestView,
) -> PacketView {
    (if scope.active_generation_id is Some {
        filled_packet(scope, facts, req)
    } else {
        blocked_packet(scope, req)
    }).sealed(req.request_hash())
}

fn any_unverified(items: &Vec<ExactExcerpt>) -> (r: bool)
    ensures
        r == exists|i: int|
            0 <= i < excerpts(items@).len() && (#[trigger] excerpts(items@)[i]).status
                != "verified"@,
{
    for i in 0..items.len()
        invariant
            forall|j: int|
                0 <= j < i ==> (#[trigger] excerpts(items@)[j]).status == "verified"@,
    {
        if !text_eq(items[i].status.as_str(), "verified") {
            assert(excerpts(items@)[i as int].status != "verified"@);
            return true;
        }
    }
    false
}

fn new_packet(scope: &PacketScope, req: &TaskRequest, request_hash: &str) -> (r: ContextPacket)
    requires
        request_hash@ == req@.request_hash(),
        text::hex64(request_hash@),
    ensures
        r@ == blocked_packet(*scope, req@),
{
    let chars = text::chars_of(request_hash);
    let prefix = text::text_of_range(&chars, 0, 32);
    assert(request_hash@.subrange(0, 32) =~= request_hash@.take(32));
    let r = ContextPacket {
        schema_version: "1.0.0".to_string(),
        packet_id: join2("pkt_", prefix.as_str()),
        created_at: scope.created_at.clone(),
        workspace_id: scope.workspace_id.clone(),
        active_generation_id: None,
        mode: req.mode.as_str().to_string(),
        normalized_task: req.task.clone(),
        ranking_policy_version: RANKING_POLICY_VERSION.to_string(),
        primary_targets: Vec::new(),
        supporting_relationships: Vec::new(),
        tests: Vec::new(),
        exact_excerpts: Vec::new(),
        unresolved: Vec::new(),
        omissions: OmissionSummary {
            total_candidates_considered: 0,
            selected_count: 0,
            omitted_by_budget: 0,
            unsupported_in_scope: 0,
            excluded_in_scope: 0,
        },
        budget: BudgetReport {
            max_records: req.max_records,
            max_source_bytes: req.max_source_bytes,
            max_token_estimate: req.max_token_estimate,
            used_records: 0,
            used_source_bytes: 0,
            estimated_tokens: 0,
            uncertainty_reserve_pct: UNCERTAINTY_RESERVE_PCT,
        },
        alternatives: Vec::new(),
        conflicts: Vec::new(),
        coverage: Vec::new(),
        packet_hash: String::new(),
        status: "blocked".to_string(),
    };
    proof {
        let v = blocked_packet(*scope, req@);
        assert(r@.primary_targets =~= v.primary_targets);
        assert(r@.supporting_relationships =~= v.supporting_relationships);
        assert(r@.tests =~= v.tests);
        assert(r@.exact_excerpts =~= v.exact_excerpts);
        assert(r@.unresolved =~= v.unresolved);
        assert(r@.alternatives =~= v.alternatives);
        assert(r@.conflicts =~= v.conflicts);
        assert(r@.coverage =~= v.coverage);
        assert(r@.packet_hash =~= v.packet_hash);
    }
    r
}

/// The candidates of a request in rank order.
pub fn rank_candidates(facts: &GenerationFacts, req: &TaskRequest) -> (r: Vec<ScoredCandidate>)
    ensures
        candidates(r@) == ranked_candidates(*facts, req@),
{
    let seeded = seed_candidates(req, &facts.resolved, &facts.symbols);
    rank_list(expand_candidates(seeded, &facts.relationships))
}

/// The packet that answers a request.
pub fn build_packet(scope: &PacketScope, facts: GenerationFacts, req: &TaskRequest) -> (r:
    ContextPacket)
    ensures
        r@ == packet_of(*scope, facts, req@),
{
    let request_hash = req.normalized_request_hash();
    let mut packet = new_packet(scope, req, request_hash.as_str());
    if scope.active_generation_id.is_some() {
        let ghost given = facts;
        let tests = merge_test_paths(&facts.test_paths);
        let ranked = rank_candidates(&facts, req);
        let considered: usize = ranked.len();
        let rows: usize = facts.symbols.len();
        let chosen = select_candidates(req, ranked, &facts.observations);
        let excluded: usize = if rows > considered {
            rows - considered
        } else {
            0
        };
        packet.active_generation_id = clone_opt_text(&scope.active_generation_id);
        packet.primary_targets = first_targets(&chosen.selected, chosen.selected.len());
        proof {
            assert(chosen@.selected.take(chosen@.selected.len() as int) =~= chosen@.selected);
        }
        packet.tests = tests;
        packet.omissions = OmissionSummary {
            total_candidates_considered: signed_count(considered),
            selected_count: signed_count(chosen.selected.len()),
            omitted_by_budget: signed_count(chosen.unselected.len()),
            unsupported_in_scope: 0,
            excluded_in_scope: signed_count(excluded),
        };
        packet.budget = BudgetReport {
            max_records: req.max_records,
            max_source_bytes: req.max_source_bytes,
            max_token_estimate: req.max_token_estimate,
            used_records: signed_count(chosen.selected.len()),
            used_source_bytes: chosen.used_source_bytes,
            estimated_tokens: chosen.used_source_bytes / 4,
            uncertainty_reserve_pct: UNCERTAINTY_RESERVE_PCT,
        };
        let partial = any_unverified(&chosen.excerpts) || chosen.unselected.len() > 0;
        packet.status = if partial {
            "partial".to_string()
        } else {
            "complete".to_string()
        };
        if req.mode == BrokerMode::Audit {
            packet.alternatives = first_targets(&chosen.unselected, MAX_ALTERNATIVES);
            packet.conflicts = facts.conflicts;
            packet.coverage = facts.coverage;
        }
        packet.exact_excerpts = chosen.excerpts;
        assert(packet@ == filled_packet(*scope, given, req@));
    }
    finalize_packet_hash(packet, request_hash.as_str())
}

/// A map carries no source, no alternatives, no conflicts and no coverage, a
/// change no alternatives, conflicts or coverage; an audit shows at most fifty
/// alternatives.
pub proof fn law_modes_bound_what_is_shown(
    scope: PacketScope,
    facts: GenerationFacts,
    req: TaskRequestView,
)
    ensures
        ({
            let p = packet_of(scope, facts, req);
            &&& req.mode == BrokerMode::MapOnly ==> p.exact_excerpts.len() == 0
            &&& req.mode != BrokerMode::Audit ==> p.alternatives.len() == 0 && p.conflicts.len()
                == 0 && p.coverage.len() == 0
            &&& p.alternatives.len() <= MAX_ALTERNATIVES
        }),
{
    law_selection_respects_budgets(
        req,
        ranked_candidates(facts, req),
        observations(facts.observations@),
    );
}

/// A packet's targets are within the record budget less the uncertainty reserve,
/// the source it carries is what its budget report says, and what it carries is
/// within the limits of the request.
pub proof fn law_packets_keep_their_budget(
    scope: PacketScope,
    facts: GenerationFacts,
    req: TaskRequestView,
)
    ensures
        ({
            let p = packet_of(scope, facts, req);
            let used = source_bytes(p.exact_excerpts);
            &&& p.primary_targets.len() <= req.usable_records()
            &&& used <= i64::MAX && req.max_source_bytes <= i64::MAX ==> p.budget.used_source_bytes
                == used && p.budget.estimated_tokens == used / 4
            &&& used > 0 ==> used <= req.max_source_bytes && used / 4 <= req.max_token_estimate
        }),
{
    law_selection_respects_budgets(
        req,
        ranked_candidates(facts, req),
        observations(facts.observations@),
    );
}

/// Candidates are listed by falling score; at equal score the nearer one comes
/// first, then the one with the lesser path, then the one with the lesser symbol; and
/// no candidate is lost or invented on the way.
pub proof fn law_candidates_are_ranked(facts: GenerationFacts, req: TaskRequestView)
    ensures
        ({
            let r = ranked_candidates(facts, req);
            &&& forall|i: int, j: int|
                #![trigger r[i], r[j]]
                0 <= i < j < r.len() ==> {
                    &&& r[i].score >= r[j].score
                    &&& r[i].score == r[j].score ==> r[i].distance <= r[j].distance
                    &&& r[i].score == r[j].score && r[i].distance == r[j].distance
                        ==> r[i].canonical_path == r[j].canonical_path || text::text_lt(
                        r[i].canonical_path,
                        r[j].canonical_path,
                    )
                    &&& r[i].score == r[j].score && r[i].distance == r[j].distance
                        && r[i].canonical_path == r[j].canonical_path ==> r[i].symbol_or_empty()
                        == r[j].symbol_or_empty() || text::text_lt(
                        r[i].symbol_or_empty(),
                        r[j].symbol_or_empty(),
                    )
                }
            &&& r.to_multiset() == neighbours(
                seeds(req, resolved_views(facts.resolved@), symbol_rows(facts.symbols@)),
                relationship_lists(facts.relationships@),
            ).to_multiset()
        }),
{
    let items = neighbours(
        seeds(req, resolved_views(facts.resolved@), symbol_rows(facts.symbols@)),
        relationship_lists(facts.relationships@),
    );
    sorted::law_ranking_sorts::<ScoredCandidate>(items);
    let r = ranked_candidates(facts, req);
    assert forall|i: int, j: int|
        #![trigger r[i], r[j]]
        0 <= i < j < r.len() implies {
        &&& r[i].score >= r[j].score
        &&& r[i].score == r[j].score ==> r[i].distance <= r[j].distance
        &&& r[i].score == r[j].score && r[i].distance == r[j].distance ==> r[i].canonical_path
            == r[j].canonical_path || text::text_lt(r[i].canonical_path, r[j].canonical_path)
        &&& r[i].score == r[j].score && r[i].distance == r[j].distance && r[i].canonical_path
            == r[j].canonical_path ==> r[i].symbol_or_empty() == r[j].symbol_or_empty()
            || text::text_lt(r[i].symbol_or_empty(), r[j].symbol_or_empty())
    } by {
        assert(!ScoredCandidate::ahead(r[j], r[i]));
        text::lemma_text_lt_total(r[i].canonical_path, r[j].canonical_path);
        text::lemma_text_lt_total(r[i].symbol_or_empty(), r[j].symbol_or_empty());
    }
}

} // verus!
