//! Paged reads of stored Context IR documents.
//!
//! A page is stable: its cursor captures a watermark of the stored rows, and a
//! cursor whose rows have changed since is stale. Every document is checked before
//! it is shown.
use vstd::prelude::*;

use crate::application_cursor;
use crate::application_cursor::{
    encode_application_cursor, ApplicationCursorBinding, ApplicationCursorError,
    ApplicationCursorFilter, ApplicationCursorOperation, ApplicationSnapshotHasher, CursorContent,
    CursorScope,
};
use crate::application_error;
use crate::application_error::{refuse, CatalogueContextApplicationError};
use crate::context_ir::{ContextIr, CONTEXT_SCHEMA_VERSION};
use crate::context_route::{
    DEFAULT_APPLICATION_PAGE_LIMIT, MAX_APPLICATION_JSON_DEPTH, MAX_APPLICATION_NESTED_VECTOR_ITEMS,
    MAX_APPLICATION_PAGE_LIMIT, MAX_APPLICATION_STRING_BYTES, MAX_COMPILED_CONTEXT_DOCUMENT_BYTES,
};
use crate::digest;
use crate::error;
use crate::error::AtlasError;
use crate::json;
use crate::json::append_quoted;
use crate::json_tree;
use crate::json_tree::{canonical_hash, read_json, JsonTree};
use crate::text;
use crate::text::{append_signed, text_eq, text_less};

pub use crate::json_tree::JsonValue;

verus! {

/// A request for stored documents: one by its identity, or those of a session.
#[derive(Debug)]
pub struct CompiledContextShowRequest {
    pub context_id: Option<String>,
    pub task_session_id: Option<String>,
    pub limit: Option<usize>,
    pub cursor: Option<String>,
}

/// What a request comes to.
#[derive(Debug)]
pub enum CompiledContextShowPlan {
    Context { context_id: String },
    Session { task_session_id: String, limit: usize, cursor: Option<String> },
}

/// The limit of a request.
pub open spec fn page_limit(request: CompiledContextShowRequest) -> int {
    match request.limit {
        Some(limit) => limit as int,
        None => DEFAULT_APPLICATION_PAGE_LIMIT as int,
    }
}

/// What a request comes to: exactly one identity, no cursor with a single document,
/// and a limit within what is advertised.
pub fn plan_compiled_context(request: CompiledContextShowRequest) -> (r: Result<
    CompiledContextShowPlan,
    CatalogueContextApplicationError,
>)
    ensures
        if (request.context_id is Some) == (request.task_session_id is Some) {
            application_error::refused(
                r,
                "exactly one context_id or task_session_id is required"@,
            )
        } else if request.context_id is Some && request.cursor is Some {
            r matches Err(CatalogueContextApplicationError::Cursor(e)) && e is Invalid
        } else if !(1 <= page_limit(request) <= MAX_APPLICATION_PAGE_LIMIT) {
            application_error::refused(r, "limit must be within 1..=200"@)
        } else if request.context_id is Some {
            r == Ok::<CompiledContextShowPlan, CatalogueContextApplicationError>(
                CompiledContextShowPlan::Context { context_id: request.context_id->0 },
            )
        } else {
            r == Ok::<CompiledContextShowPlan, CatalogueContextApplicationError>(
                CompiledContextShowPlan::Session {
                    task_session_id: request.task_session_id->0,
                    limit: page_limit(request) as usize,
                    cursor: request.cursor,
                },
            )
        },
{
    if request.context_id.is_some() == request.task_session_id.is_some() {
        return Err(refuse("exactly one context_id or task_session_id is required"));
    }
    if request.context_id.is_some() && request.cursor.is_some() {
        return Err(CatalogueContextApplicationError::Cursor(ApplicationCursorError::Invalid));
    }
    let limit: usize = match request.limit {
        Some(limit) => limit,
        None => DEFAULT_APPLICATION_PAGE_LIMIT,
    };
    if limit == 0 || limit > MAX_APPLICATION_PAGE_LIMIT {
        return Err(refuse("limit must be within 1..=200"));
    }
    match (request.context_id, request.task_session_id) {
        (Some(context_id), _) => Ok(CompiledContextShowPlan::Context { context_id }),
        (None, Some(task_session_id)) => Ok(
            CompiledContextShowPlan::Session { task_session_id, limit, cursor: request.cursor },
        ),
        (None, None) => Err(refuse("exactly one context_id or task_session_id is required")),
    }
}

// ---------------------------------------------------------------------------
// Document checks
// ---------------------------------------------------------------------------

/// The text is too long for a stored document.
pub open spec fn over_long(s: Seq<char>) -> bool {
    digest::text_field(s).len() > MAX_APPLICATION_STRING_BYTES
}

/// What exceeds the bounds of a stored document in a tree at a depth.
pub open spec fn json_fault(tree: JsonTree, depth: int) -> Option<Seq<char>>
    decreases 65 - depth, 0int,
{
    if depth > MAX_APPLICATION_JSON_DEPTH {
        Some("stored Context IR exceeds the nested depth bound"@)
    } else {
        match tree {
            JsonTree::Text(s) => if over_long(s) {
                Some("stored Context IR exceeds the string bound"@)
            } else {
                None
            },
            JsonTree::List(items) => if items.len() > MAX_APPLICATION_NESTED_VECTOR_ITEMS {
                Some("stored Context IR exceeds the nested vector bound"@)
            } else {
                items_fault(items, 0, depth + 1)
            },
            JsonTree::Record(fields) => if fields.len() > MAX_APPLICATION_NESTED_VECTOR_ITEMS {
                Some("stored Context IR exceeds the nested object bound"@)
            } else {
                fields_fault(fields, 0, depth + 1)
            },
            _ => None,
        }
    }
}

/// What exceeds the bounds in a list, from `from` on.
pub open spec fn items_fault(items: Seq<JsonTree>, from: int, depth: int) -> Option<Seq<char>>
    decreases 65 - depth, items.len() - from + 1,
{
    if from < 0 || from >= items.len() {
        None
    } else if json_fault(items[from], depth) is Some {
        json_fault(items[from], depth)
    } else {
        items_fault(items, from + 1, depth)
    }
}

/// What exceeds the bounds in a list of fields, from `from` on.
pub open spec fn fields_fault(fields: Seq<(Seq<char>, JsonTree)>, from: int, depth: int) -> Option<
    Seq<char>,
>
    decreases 65 - depth, fields.len() - from + 1,
{
    if from < 0 || from >= fields.len() {
        None
    } else if over_long(fields[from].0) {
        Some("stored Context IR exceeds the string bound"@)
    } else if json_fault(fields[from].1, depth) is Some {
        json_fault(fields[from].1, depth)
    } else {
        fields_fault(fields, from + 1, depth)
    }
}

fn bound_error(message: &str) -> (r: Result<(), AtlasError>)
    ensures
        error::refused_as_invalid(r, message@),
{
    Err(AtlasError::InvalidConfig(message.to_string()))
}

/// Checks a value at a depth against the bounds of stored documents.
pub fn validate_json_bounds(value: &JsonValue, depth: usize) -> (r: Result<(), AtlasError>)
    ensures
        match json_fault(value.tree(), depth as int) {
            Some(message) => error::refused_as_invalid(r, message),
            None => r is Ok,
        },
    decreases 65 - depth,
{
    if depth > MAX_APPLICATION_JSON_DEPTH {
        return bound_error("stored Context IR exceeds the nested depth bound");
    }
    match value {
        JsonValue::Text(s) => {
            if s.as_str().as_bytes().len() > MAX_APPLICATION_STRING_BYTES {
                return bound_error("stored Context IR exceeds the string bound");
            }
            Ok(())
        },
        JsonValue::Array(items) => {
            let ghost trees = json_tree::item_trees(items@);
            proof {
                json_tree::lemma_item_trees(items@);
            }
            if items.len() > MAX_APPLICATION_NESTED_VECTOR_ITEMS {
                return bound_error("stored Context IR exceeds the nested vector bound");
            }
            for i in 0..items.len()
                invariant
                    depth <= MAX_APPLICATION_JSON_DEPTH,
                    trees.len() == items@.len(),
                    forall|j: int|
                        0 <= j < items@.len() ==> #[trigger] trees[j] == items@[j].tree(),
                    json_fault(value.tree(), depth as int) == items_fault(
                        trees,
                        i as int,
                        depth as int + 1,
                    ),
            {
                match validate_json_bounds(&items[i], depth + 1) {
                    Ok(()) => {},
                    Err(problem) => return Err(problem),
                }
            }
            Ok(())
        },
        JsonValue::Object(fields) => {
            let ghost trees = json_tree::field_trees(fields@);
            proof {
                json_tree::lemma_field_trees(fields@);
            }
            if fields.len() > MAX_APPLICATION_NESTED_VECTOR_ITEMS {
                return bound_error("stored Context IR exceeds the nested object bound");
            }
            for i in 0..fields.len()
                invariant
                    depth <= MAX_APPLICATION_JSON_DEPTH,
                    trees.len() == fields@.len(),
                    forall|j: int|
                        0 <= j < fields@.len() ==> #[trigger] trees[j] == (
                            fields@[j].0@,
                            fields@[j].1.tree(),
                        ),
                    json_fault(value.tree(), depth as int) == fields_fault(
                        trees,
                        i as int,
                        depth as int + 1,
                    ),
            {
                if fields[i].0.as_str().as_bytes().len() > MAX_APPLICATION_STRING_BYTES {
                    return bound_error("stored Context IR exceeds the string bound");
                }
                match validate_json_bounds(&fields[i].1, depth + 1) {
                    Ok(()) => {},
                    Err(problem) => return Err(problem),
                }
            }
            Ok(())
        },
        _ => Ok(()),
    }
}

/// Checks the stored length of a document.
pub fn check_stored_length(length: i64) -> (r: Result<(), AtlasError>)
    ensures
        if 0 <= length <= MAX_COMPILED_CONTEXT_DOCUMENT_BYTES {
            r is Ok
        } else {
            error::refused_as_invalid(
                r,
                "stored Context IR exceeds the serialized document bound"@,
            )
        },
{
    if length < 0 || length as u64 > MAX_COMPILED_CONTEXT_DOCUMENT_BYTES as u64 {
        return bound_error("stored Context IR exceeds the serialized document bound");
    }
    Ok(())
}

/// What a stored document is held against.
#[derive(Debug, Clone, Copy)]
pub struct ExpectedContext<'a> {
    pub stored_hash: &'a str,
    pub workspace_id: &'a str,
    pub context_id: &'a str,
    pub task_session_id: Option<&'a str>,
}

pub ghost struct ExpectedView {
    pub stored_hash: Seq<char>,
    pub workspace_id: Seq<char>,
    pub context_id: Seq<char>,
    pub task_session_id: Option<Seq<char>>,
}

impl<'a> View for ExpectedContext<'a> {
    type V = ExpectedView;

    open spec fn view(&self) -> ExpectedView {
        ExpectedView {
            stored_hash: self.stored_hash@,
            workspace_id: self.workspace_id@,
            context_id: self.context_id@,
            task_session_id: match self.task_session_id {
                Some(session) => Some(session@),
                None => None,
            },
        }
    }
}

/// The document is the stored one: its version, identities and digest are as
/// recorded, and it is written canonically.
pub open spec fn contract_holds(
    context: ContextIr,
    document: Seq<char>,
    expected: ExpectedView,
) -> bool {
    &&& context.schema_version@ == CONTEXT_SCHEMA_VERSION@
    &&& context.context_id@ == expected.context_id
    &&& context.workspace.workspace_id@ == expected.workspace_id
    &&& (expected.task_session_id matches Some(session) ==> context.task.task_session_id@
        == session)
    &&& context.context_hash@ == expected.stored_hash
    &&& json_tree::tree_text(context.tree()) == document
}

/// What the check of a stored document comes to: the document itself, or the first
/// thing that is wrong with it. `parsed` is what the parser made of the document, or
/// why it refused to.
pub open spec fn checks_out(
    r: Result<ContextIr, AtlasError>,
    document: Seq<char>,
    expected: ExpectedView,
    parsed: Result<ContextIr, String>,
) -> bool {
    if digest::text_field(document).len() > MAX_COMPILED_CONTEXT_DOCUMENT_BYTES {
        error::refused_as_invalid(r, "stored Context IR exceeds the serialized document bound"@)
    } else {
        match json_tree::json_reading(document) {
            Err(problem) => r matches Err(AtlasError::Serde(m)) && m@ == problem,
            Ok(tree) => if json_fault(tree, 1) is Some {
                error::refused_as_invalid(r, json_fault(tree, 1)->0)
            } else {
                match parsed {
                    Err(problem) => r matches Err(AtlasError::Serde(m)) && m == problem,
                    Ok(context) => if !contract_holds(context, document, expected) {
                        error::refused_as_invalid(
                            r,
                            "stored Context IR canonical contract is invalid"@,
                        )
                    } else if json_tree::canonical_digest(context.identity_tree())
                        != context.context_hash@ {
                        error::refused_as_invalid(
                            r,
                            "stored Context IR hash integrity is invalid"@,
                        )
                    } else {
                        r == Ok::<ContextIr, AtlasError>(context)
                    },
                }
            },
        }
    }
}

/// Checks a stored document before it is shown.
pub fn validated_legacy_context_ir(
    document: &str,
    expected: ExpectedContext<'_>,
    parsed: Result<ContextIr, String>,
) -> (r: Result<ContextIr, AtlasError>)
    ensures
        checks_out(r, document@, expected@, parsed),
{
    if document.as_bytes().len() > MAX_COMPILED_CONTEXT_DOCUMENT_BYTES {
        return Err(
            AtlasError::InvalidConfig(
                "stored Context IR exceeds the serialized document bound".to_string(),
            ),
        );
    }
    let value = match read_json(document) {
        Ok(value) => value,
        Err(problem) => return Err(AtlasError::Serde(problem)),
    };
    match validate_json_bounds(&value, 1) {
        Ok(()) => {},
        Err(problem) => return Err(problem),
    }
    let context = match parsed {
        Ok(context) => context,
        Err(problem) => return Err(AtlasError::Serde(problem)),
    };
    let session_matches = match expected.task_session_id {
        Some(session) => text_eq(context.task.task_session_id.as_str(), session),
        None => true,
    };
    if !text_eq(context.schema_version.as_str(), CONTEXT_SCHEMA_VERSION) || !text_eq(
        context.context_id.as_str(),
        expected.context_id,
    ) || !text_eq(context.workspace.workspace_id.as_str(), expected.workspace_id)
        || !session_matches || !text_eq(context.context_hash.as_str(), expected.stored_hash)
        || !text_eq(context.json_text().as_str(), document) {
        return Err(
            AtlasError::InvalidConfig(
                "stored Context IR canonical contract is invalid".to_string(),
            ),
        );
    }
    let resealed = canonical_hash(&context.identity_json());
    if !text_eq(resealed.as_str(), context.context_hash.as_str()) {
        return Err(
            AtlasError::InvalidConfig("stored Context IR hash integrity is invalid".to_string()),
        );
    }
    Ok(context)
}

// ---------------------------------------------------------------------------
// Snapshots and pages
// ---------------------------------------------------------------------------

/// A stored row.
#[derive(Debug)]
pub struct CompiledContextRow {
    pub rowid: i64,
    pub canonical_json: String,
    pub context_hash: String,
    pub context_id: String,
    pub created_at: String,
}

/// The position of a row: rows are ordered by time, then by identity.
#[derive(Debug)]
pub struct CompiledContextOrderingKey {
    pub created_at: String,
    pub context_id: String,
}

/// The values of a position.
pub ghost struct ContextKeyView {
    pub created_at: Seq<char>,
    pub context_id: Seq<char>,
}

impl View for CompiledContextOrderingKey {
    type V = ContextKeyView;

    open spec fn view(&self) -> ContextKeyView {
        ContextKeyView { created_at: self.created_at@, context_id: self.context_id@ }
    }
}

impl ContextKeyView {
    /// The position as a cursor carries it.
    pub open spec fn json_text(self) -> Seq<char> {
        "{\"created_at\":"@ + json::quoted(self.created_at) + ",\"context_id\":"@ + json::quoted(
            self.context_id,
        ) + "}"@
    }
}

impl CompiledContextRow {
    /// The row as canonical JSON.
    pub open spec fn json_text(self) -> Seq<char> {
        "["@ + text::signed_decimal(self.rowid as int) + ","@ + json::quoted(self.canonical_json@)
            + ","@ + json::quoted(self.context_hash@) + ","@ + json::quoted(self.context_id@) + ","@
            + json::quoted(self.created_at@) + "]"@
    }

    /// The position of the row.
    pub open spec fn key(self) -> ContextKeyView {
        ContextKeyView { created_at: self.created_at@, context_id: self.context_id@ }
    }
}

/// The records of a list of rows.
pub open spec fn row_records(rows: Seq<CompiledContextRow>) -> Seq<Seq<u8>> {
    Seq::new(rows.len(), |i: int| digest::text_field(rows[i].json_text()))
}

/// The digest of a list of rows.
pub open spec fn rows_digest(rows: Seq<CompiledContextRow>) -> Seq<char> {
    application_cursor::snapshot_digest(
        digest::text_field("compiled-context"@),
        row_records(rows),
    )
}

/// The position of the last row.
pub open spec fn last_key(rows: Seq<CompiledContextRow>) -> Option<ContextKeyView> {
    if rows.len() == 0 {
        None
    } else {
        Some(rows.last().key())
    }
}

/// One position is before another.
pub open spec fn key_lt(a: ContextKeyView, b: ContextKeyView) -> bool {
    text::text_lt(a.created_at, b.created_at) || (a.created_at == b.created_at && text::text_lt(
        a.context_id,
        b.context_id,
    ))
}

/// The row is among those up to a row number and, if one is given, a position.
pub open spec fn keeps(
    row: CompiledContextRow,
    max_rowid: i64,
    through: Option<ContextKeyView>,
) -> bool {
    row.rowid <= max_rowid && (through matches Some(key) ==> key_lt(row.key(), key) || row.key()
        == key)
}

/// The rows up to a row number and, if one is given, a position, in order.
pub open spec fn selected(
    rows: Seq<CompiledContextRow>,
    max_rowid: i64,
    through: Option<ContextKeyView>,
) -> Seq<CompiledContextRow>
    decreases rows.len(),
{
    if rows.len() == 0 {
        Seq::empty()
    } else {
        let front = selected(rows.drop_last(), max_rowid, through);
        if keeps(rows.last(), max_rowid, through) {
            front.push(rows.last())
        } else {
            front
        }
    }
}

impl CompiledContextRow {
    fn is_before(&self, key: &CompiledContextOrderingKey) -> (r: bool)
        ensures
            r == key_lt(self.key(), key@),
    {
        text_less(self.created_at.as_str(), key.created_at.as_str()) || (text_eq(
            self.created_at.as_str(),
            key.created_at.as_str(),
        ) && text_less(self.context_id.as_str(), key.context_id.as_str()))
    }

    fn is_behind(&self, key: &CompiledContextOrderingKey) -> (r: bool)
        ensures
            r == key_lt(key@, self.key()),
    {
        text_less(key.created_at.as_str(), self.created_at.as_str()) || (text_eq(
            key.created_at.as_str(),
            self.created_at.as_str(),
        ) && text_less(key.context_id.as_str(), self.context_id.as_str()))
    }

    fn is_at(&self, key: &CompiledContextOrderingKey) -> (r: bool)
        ensures
            r == (self.key() == key@),
    {
        text_eq(self.created_at.as_str(), key.created_at.as_str()) && text_eq(
            self.context_id.as_str(),
            key.context_id.as_str(),
        )
    }

    fn ordering_key(&self) -> (r: CompiledContextOrderingKey)
        ensures
            r@ == self.key(),
    {
        CompiledContextOrderingKey {
            created_at: self.created_at.clone(),
            context_id: self.context_id.clone(),
        }
    }

    /// The row as canonical JSON.
    fn json_line(&self) -> (r: String)
        ensures
            r@ == self.json_text(),
    {
        let mut line = String::new();
        line.append("[");
        append_signed(&mut line, self.rowid);
        line.append(",");
        append_quoted(&mut line, self.canonical_json.as_str());
        line.append(",");
        append_quoted(&mut line, self.context_hash.as_str());
        line.append(",");
        append_quoted(&mut line, self.context_id.as_str());
        line.append(",");
        append_quoted(&mut line, self.created_at.as_str());
        line.append("]");
        assert(line@ =~= self.json_text());
        line
    }
}

/// The digest of a list of rows, their number, and the position of the last one.
#[derive(Debug)]
pub struct SnapshotSummary {
    pub digest: String,
    pub count: usize,
    pub last: Option<CompiledContextOrderingKey>,
}

/// The summary is that of these rows.
pub open spec fn summarizes(summary: SnapshotSummary, rows: Seq<CompiledContextRow>) -> bool {
    &&& summary.digest@ == rows_digest(rows)
    &&& summary.count == rows.len()
    &&& match summary.last {
        Some(key) => last_key(rows) == Some(key@),
        None => last_key(rows) is None,
    }
}

/// Summarizes the rows of a session up to a row number and, if one is given, a
/// position. The rows are given in order.
pub fn compiled_context_snapshot_digest(
    rows: &Vec<CompiledContextRow>,
    max_rowid: i64,
    through: Option<&CompiledContextOrderingKey>,
) -> (r: SnapshotSummary)
    ensures
        summarizes(
            r,
            selected(
                rows@,
                max_rowid,
                match through {
                    Some(key) => Some(key@),
                    None => None,
                },
            ),
        ),
{
    let ghost limit = match through {
        Some(key) => Some(key@),
        None => None,
    };
    let mut hasher = ApplicationSnapshotHasher::new("compiled-context");
    let mut count: usize = 0;
    let mut last: Option<CompiledContextOrderingKey> = None;
    assert(row_records(selected(rows@.take(0), max_rowid, limit)) =~= Seq::empty());
    for i in 0..rows.len()
        invariant
            limit == (match through {
                Some(key) => Some(key@),
                None => None,
            }),
            hasher.domain() == digest::text_field("compiled-context"@),
            hasher.records() == row_records(selected(rows@.take(i as int), max_rowid, limit)),
            count == selected(rows@.take(i as int), max_rowid, limit).len(),
            count <= i,
            match last {
                Some(key) => last_key(selected(rows@.take(i as int), max_rowid, limit)) == Some(
                    key@,
                ),
                None => last_key(selected(rows@.take(i as int), max_rowid, limit)) is None,
            },
    {
        let row = &rows[i];
        assert(rows@.take(i + 1).drop_last() =~= rows@.take(i as int));
        assert(rows@.take(i + 1).last() == row);
        let kept = row.rowid <= max_rowid && (match through {
            Some(key) => row.is_before(key) || row.is_at(key),
            None => true,
        });
        if kept {
            let ghost before = selected(rows@.take(i as int), max_rowid, limit);
            hasher.record(&digest::bytes_of_text(row.json_line().as_str()));
            count = count + 1;
            last = Some(row.ordering_key());
            assert(row_records(before.push(*row)) =~= row_records(before).push(
                digest::text_field(row.json_text()),
            ));
        }
    }
    assert(rows@.take(rows@.len() as int) =~= rows@);
    SnapshotSummary { digest: hasher.finish(), count, last }
}

/// The state of the stored rows that a cursor captures.
#[derive(Debug)]
pub struct CompiledContextWatermark {
    pub max_rowid: i64,
    pub row_count: i64,
    pub snapshot_digest: String,
    pub prefix_digest: String,
}

/// A watermark with a prefix digest, as a cursor carries it.
pub open spec fn watermark_json(
    watermark: CompiledContextWatermark,
    prefix_digest: Seq<char>,
) -> Seq<char> {
    "{\"max_rowid\":"@ + text::signed_decimal(watermark.max_rowid as int) + ",\"row_count\":"@
        + text::signed_decimal(watermark.row_count as int) + ",\"snapshot_digest\":"@
        + json::quoted(watermark.snapshot_digest@) + ",\"prefix_digest\":"@ + json::quoted(
        prefix_digest,
    ) + "}"@
}

fn counts_match(count: usize, expected: i64) -> (r: bool)
    ensures
        r == (count == expected),
{
    expected >= 0 && count as u64 == expected as u64
}

fn last_is(last: &Option<CompiledContextOrderingKey>, key: &CompiledContextOrderingKey) -> (r: bool)
    ensures
        r == (last matches Some(found) && found@ == key@),
{
    match last {
        Some(found) => text_eq(found.created_at.as_str(), key.created_at.as_str()) && text_eq(
            found.context_id.as_str(),
            key.context_id.as_str(),
        ),
        None => false,
    }
}

/// Where a page of a session's documents starts: at the first one, with the number
/// of the last row and the number of rows; or where a cursor says, if its state and
/// its position could be read.
#[derive(Debug)]
pub enum SessionStart {
    First { max_rowid: i64, row_count: i64 },
    Resumed {
        watermark: Option<CompiledContextWatermark>,
        ordering: Option<CompiledContextOrderingKey>,
    },
}

/// A page of a session's documents before they are read: the state of the rows and
/// the places of the documents, one more than the limit where there are more.
#[derive(Debug)]
pub struct SessionPagePlan {
    pub watermark: CompiledContextWatermark,
    pub places: Vec<usize>,
}

/// The place before every document.
pub open spec fn first_key() -> ContextKeyView {
    ContextKeyView { created_at: Seq::empty(), context_id: Seq::empty() }
}

/// The places of the rows behind a position, up to a row number.
pub open spec fn following(
    rows: Seq<CompiledContextRow>,
    max_rowid: i64,
    ordering: ContextKeyView,
) -> Seq<usize>
    decreases rows.len(),
{
    if rows.len() == 0 {
        Seq::empty()
    } else {
        let front = following(rows.drop_last(), max_rowid, ordering);
        if rows.last().rowid <= max_rowid && key_lt(ordering, rows.last().key()) {
            front.push((rows.len() - 1) as usize)
        } else {
            front
        }
    }
}

/// The places that a page looks at: one more than the limit where there are more.
pub open spec fn page_places(
    rows: Seq<CompiledContextRow>,
    max_rowid: i64,
    ordering: ContextKeyView,
    limit: int,
) -> Seq<usize> {
    let all = following(rows, max_rowid, ordering);
    if all.len() <= limit + 1 {
        all
    } else {
        all.take(limit + 1)
    }
}

fn find_places(
    rows: &Vec<CompiledContextRow>,
    max_rowid: i64,
    ordering: &CompiledContextOrderingKey,
    limit: usize,
) -> (r: Vec<usize>)
    requires
        limit <= MAX_APPLICATION_PAGE_LIMIT,
    ensures
        r@ == page_places(rows@, max_rowid, ordering@, limit as int),
        forall|i: int| 0 <= i < r@.len() ==> (#[trigger] r@[i]) < rows@.len(),
{
    let mut out: Vec<usize> = Vec::new();
    for i in 0..rows.len()
        invariant
            limit <= MAX_APPLICATION_PAGE_LIMIT,
            out@ == page_places(rows@.take(i as int), max_rowid, ordering@, limit as int),
            forall|j: int| 0 <= j < out@.len() ==> (#[trigger] out@[j]) < rows@.len(),
    {
        assert(rows@.take(i + 1).drop_last() =~= rows@.take(i as int));
        let ghost all = following(rows@.take(i as int), max_rowid, ordering@);
        if rows[i].rowid <= max_rowid && rows[i].is_behind(ordering) {
            assert(following(rows@.take(i + 1), max_rowid, ordering@) == all.push(i));
            if out.len() < limit + 1 {
                out.push(i);
            } else {
                assert(all.push(i).take(limit + 1) =~= out@);
            }
            assert(out@ =~= page_places(rows@.take(i + 1), max_rowid, ordering@, limit as int));
        }
    }
    assert(rows@.take(rows@.len() as int) =~= rows@);
    out
}

/// The state that a cursor captured is that of these rows, and its position is that
/// of one of them.
pub open spec fn still_current(
    rows: Seq<CompiledContextRow>,
    watermark: CompiledContextWatermark,
    key: ContextKeyView,
) -> bool {
    let snapshot = selected(rows, watermark.max_rowid, None);
    let prefix = selected(rows, watermark.max_rowid, Some(key));
    snapshot.len() == watermark.row_count && rows_digest(snapshot) == watermark.snapshot_digest@
        && rows_digest(prefix) == watermark.prefix_digest@ && last_key(prefix) == Some(key)
}

/// Plans a page of a session's documents, given its rows in order. A cursor that
/// cannot be read is invalid; one whose rows have changed is stale, and so is a first
/// page whose rows changed while they were counted.
pub fn plan_session_page(rows: &Vec<CompiledContextRow>, limit: usize, start: SessionStart) -> (r:
    Result<SessionPagePlan, ApplicationCursorError>)
    requires
        limit <= MAX_APPLICATION_PAGE_LIMIT,
    ensures
        match start {
            SessionStart::First { max_rowid, row_count } => if selected(
                rows@,
                max_rowid,
                None,
            ).len() == row_count {
                r matches Ok(plan) && plan.watermark.max_rowid == max_rowid
                    && plan.watermark.row_count == row_count && plan.watermark.snapshot_digest@
                    == rows_digest(selected(rows@, max_rowid, None))
                    && plan.watermark.prefix_digest@.len() == 0 && plan.places@ == page_places(
                    rows@,
                    max_rowid,
                    first_key(),
                    limit as int,
                )
            } else {
                r matches Err(e) && e is Stale
            },
            SessionStart::Resumed { watermark: Some(watermark), ordering: Some(key) } =>
                if still_current(rows@, watermark, key@) {
                r matches Ok(plan) && plan.watermark == watermark && plan.places@ == page_places(
                    rows@,
                    watermark.max_rowid,
                    key@,
                    limit as int,
                )
            } else {
                r matches Err(e) && e is Stale
            },
            _ => r matches Err(e) && e is Invalid,
        },
        r matches Ok(plan) ==> forall|i: int|
            0 <= i < plan.places@.len() ==> (#[trigger] plan.places@[i]) < rows@.len(),
{
    match start {
        SessionStart::First { max_rowid, row_count } => {
            let summary = compiled_context_snapshot_digest(rows, max_rowid, None);
            if !counts_match(summary.count, row_count) {
                return Err(ApplicationCursorError::Stale);
            }
            let ordering = CompiledContextOrderingKey {
                created_at: String::new(),
                context_id: String::new(),
            };
            assert(ordering@.created_at =~= Seq::empty());
            assert(ordering@.context_id =~= Seq::empty());
            let places = find_places(rows, max_rowid, &ordering, limit);
            Ok(
                SessionPagePlan {
                    watermark: CompiledContextWatermark {
                        max_rowid,
                        row_count,
                        snapshot_digest: summary.digest,
                        prefix_digest: String::new(),
                    },
                    places,
                },
            )
        },
        SessionStart::Resumed { watermark, ordering } => {
            let watermark = match watermark {
                Some(watermark) => watermark,
                None => return Err(ApplicationCursorError::Invalid),
            };
            let key = match ordering {
                Some(key) => key,
                None => return Err(ApplicationCursorError::Invalid),
            };
            let snapshot = compiled_context_snapshot_digest(rows, watermark.max_rowid, None);
            let prefix = compiled_context_snapshot_digest(rows, watermark.max_rowid, Some(&key));
            if !counts_match(snapshot.count, watermark.row_count) || !text_eq(
                snapshot.digest.as_str(),
                watermark.snapshot_digest.as_str(),
            ) || !text_eq(prefix.digest.as_str(), watermark.prefix_digest.as_str()) || !last_is(
                &prefix.last,
                &key,
            ) {
                return Err(ApplicationCursorError::Stale);
            }
            let places = find_places(rows, watermark.max_rowid, &key, limit);
            Ok(SessionPagePlan { watermark, places })
        },
    }
}

/// A page of stored documents.
#[derive(Debug)]
pub struct CompiledContextShowPage {
    pub contexts: Vec<ContextIr>,
    pub next_cursor: Option<String>,
}

/// The cursor binding of a session's documents.
pub fn compiled_context_binding<'a>(
    workspace_id: &'a str,
    task_session_id: &'a str,
    captured_state: &'a str,
) -> (r: ApplicationCursorBinding<'a>)
    ensures
        r.workspace_id@ == workspace_id@,
        r.operation == ApplicationCursorOperation::CompiledContextShow,
        r.contract_version@ == CONTEXT_SCHEMA_VERSION@,
        r.filter == (ApplicationCursorFilter::TaskSession { task_session_id }),
        r.captured_state@ == captured_state@,
{
    ApplicationCursorBinding {
        workspace_id,
        operation: ApplicationCursorOperation::CompiledContextShow,
        contract_version: CONTEXT_SCHEMA_VERSION,
        filter: ApplicationCursorFilter::TaskSession { task_session_id },
        captured_state,
    }
}

/// The values under the token of a session's next page.
pub open spec fn next_page_values(
    scope: CursorScope<'_>,
    task_session_id: Seq<char>,
    state: Seq<char>,
    position: Seq<char>,
) -> Seq<Seq<char>> {
    seq![
        state,
        digest::content_hash(digest::text_field(scope.catalogue_identity@)),
        CONTEXT_SCHEMA_VERSION@,
        digest::content_hash(
            digest::text_field(
                "{\"kind\":\"task_session\",\"task_session_id\":"@ + json::quoted(task_session_id)
                    + "}"@,
            ),
        ),
        "compiled_context_show"@,
        position,
        application_cursor::APPLICATION_CURSOR_VERSION@,
        digest::content_hash(digest::text_field(scope.workspace_id@)),
    ]
}

/// The token of a session's next page.
pub open spec fn next_page_token(
    scope: CursorScope<'_>,
    task_session_id: Seq<char>,
    state: Seq<char>,
    position: Seq<char>,
) -> Seq<char> {
    application_cursor::token_of(
        digest::text_field(
            json::record_text(
                application_cursor::cursor_labels(),
                next_page_values(scope, task_session_id, state, position),
            ),
        ),
    )
}

/// The position can be carried by a cursor and the token is not too long.
pub open spec fn next_page_fits(token: Seq<char>, position: Seq<char>) -> bool {
    application_cursor::plain_key(position) && digest::text_field(position).len()
        <= crate::context_route::MAX_APPLICATION_CURSOR_BYTES / 2 && digest::text_field(token).len()
        <= crate::context_route::MAX_APPLICATION_CURSOR_BYTES
}

/// The page of a session's documents that was planned, once they are read and
/// checked. A next page has a cursor behind the last document shown; it captures the
/// rows up to there, which must end with that document.
pub fn finish_session_page(
    scope: &CursorScope<'_>,
    task_session_id: &str,
    limit: usize,
    plan: &SessionPagePlan,
    rows: &Vec<CompiledContextRow>,
    contexts: Vec<ContextIr>,
) -> (r: Result<CompiledContextShowPage, CatalogueContextApplicationError>)
    requires
        contexts@.len() == plan.places@.len(),
        forall|i: int| 0 <= i < plan.places@.len() ==> (#[trigger] plan.places@[i]) < rows@.len(),
        1 <= limit,
    ensures
        ({
            let key = rows@[plan.places@[limit - 1] as int].key();
            let prefix = selected(rows@, plan.watermark.max_rowid, Some(key));
            let state = watermark_json(plan.watermark, rows_digest(prefix));
            let token = next_page_token(*scope, task_session_id@, state, key.json_text());
            if contexts@.len() <= limit {
                r matches Ok(page) && page.contexts == contexts && page.next_cursor is None
            } else if last_key(prefix) != Some(key) {
                r matches Err(CatalogueContextApplicationError::Cursor(e)) && e is Stale
            } else if next_page_fits(token, key.json_text()) {
                r matches Ok(page) && page.contexts@ == contexts@.take(limit as int)
                    && text::opt_text(page.next_cursor) == Some(token)
            } else {
                r matches Err(CatalogueContextApplicationError::Cursor(e)) && e is Invalid
            }
        }),
{
    if contexts.len() <= limit {
        return Ok(CompiledContextShowPage { contexts, next_cursor: None });
    }
    let place: usize = plan.places[limit - 1];
    let last = rows[place].ordering_key();
    let prefix = compiled_context_snapshot_digest(rows, plan.watermark.max_rowid, Some(&last));
    if !last_is(&prefix.last, &last) {
        return Err(CatalogueContextApplicationError::Cursor(ApplicationCursorError::Stale));
    }
    let mut state = String::new();
    state.append("{\"max_rowid\":");
    append_signed(&mut state, plan.watermark.max_rowid);
    state.append(",\"row_count\":");
    append_signed(&mut state, plan.watermark.row_count);
    state.append(",\"snapshot_digest\":");
    append_quoted(&mut state, plan.watermark.snapshot_digest.as_str());
    state.append(",\"prefix_digest\":");
    append_quoted(&mut state, prefix.digest.as_str());
    state.append("}");
    assert(state@ =~= watermark_json(plan.watermark, prefix.digest@));
    let mut position = String::new();
    position.append("{\"created_at\":");
    append_quoted(&mut position, last.created_at.as_str());
    position.append(",\"context_id\":");
    append_quoted(&mut position, last.context_id.as_str());
    position.append("}");
    assert(position@ =~= last@.json_text());
    let binding = compiled_context_binding(scope.workspace_id, task_session_id, state.as_str());
    proof {
        let content = CursorContent { captured_state: state@, ordering_key: position@ };
        assert(application_cursor::cursor_values(*scope, binding, content) =~= next_page_values(
            *scope,
            task_session_id@,
            state@,
            position@,
        ));
        assert(application_cursor::cursor_token(*scope, binding, content) == next_page_token(
            *scope,
            task_session_id@,
            state@,
            position@,
        ));
    }
    match encode_application_cursor(scope, &binding, position.as_str()) {
        Ok(token) => {
            let mut shown = contexts;
            shown.truncate(limit);
            assert(shown@ =~= contexts@.take(limit as int));
            Ok(CompiledContextShowPage { contexts: shown, next_cursor: Some(token) })
        },
        Err(problem) => Err(CatalogueContextApplicationError::Cursor(problem)),
    }
}

/// The labels of a position as a cursor carries it.
pub open spec fn key_labels() -> Seq<Seq<char>> {
    seq!["{\"created_at\":\""@, ",\"context_id\":\""@]
}

#[verifier::spinoff_prover]
proof fn lemma_position_is_read_back(key: ContextKeyView)
    ensures
        json::parsed_record(key.json_text(), key_labels()) == Some(
            seq![key.created_at, key.context_id],
        ),
{
    let parts = seq![key.created_at, key.context_id];
    let labels = key_labels();
    json::law_record_round_trip(labels, parts);
    assert(json::record_text(labels, parts) =~= key.json_text()) by {
        reveal_strlit("{\"created_at\":");
        reveal_strlit(",\"context_id\":");
        reveal_strlit("{\"created_at\":\"");
        reveal_strlit(",\"context_id\":\"");
        reveal_strlit("}");
        assert(labels.drop_first().drop_first() =~= Seq::empty());
        assert(labels.drop_first()[0] == labels[1]);
        assert(parts.drop_first()[0] == parts[1]);
        reveal_with_fuel(json::record_text, 3);
        assert("{\"created_at\":\""@ =~= "{\"created_at\":"@ + seq!['"']);
        assert(",\"context_id\":\""@ =~= ",\"context_id\":"@ + seq!['"']);
    }
}

/// The token of a next page gives back the state that was captured and the position
/// behind which the page starts.
#[verifier::spinoff_prover]
#[verifier::rlimit(40)]
pub proof fn law_next_page_starts_behind_the_last_document(
    scope: CursorScope<'_>,
    task_session_id: Seq<char>,
    state: Seq<char>,
    key: ContextKeyView,
)
    requires
        next_page_fits(
            next_page_token(scope, task_session_id, state, key.json_text()),
            key.json_text(),
        ),
    ensures
        application_cursor::token_values(
            next_page_token(scope, task_session_id, state, key.json_text()),
        ) == Some(next_page_values(scope, task_session_id, state, key.json_text())),
        json::parsed_record(key.json_text(), key_labels()) == Some(
            seq![key.created_at, key.context_id],
        ),
{
    let values = next_page_values(scope, task_session_id, state, key.json_text());
    let record = json::record_text(application_cursor::cursor_labels(), values);
    application_cursor::law_token_round_trip(digest::text_field(record));
    vstd::utf8::encode_utf8_valid_utf8(record);
    vstd::utf8::encode_utf8_decode_utf8(record);
    json::law_record_round_trip(application_cursor::cursor_labels(), values);
    lemma_position_is_read_back(key);
}

/// Each row is strictly before the next.
pub open spec fn in_order(rows: Seq<CompiledContextRow>) -> bool {
    forall|i: int, j: int|
        0 <= i < j < rows.len() ==> key_lt((#[trigger] rows[i]).key(), (#[trigger] rows[j]).key())
}

proof fn lemma_key_lt_transitive(a: ContextKeyView, b: ContextKeyView, c: ContextKeyView)
    requires
        key_lt(a, b),
        key_lt(b, c),
    ensures
        key_lt(a, c),
{
    text::lemma_text_lt_irreflexive(a.created_at);
    if text::text_lt(a.created_at, b.created_at) && text::text_lt(b.created_at, c.created_at) {
        text::lemma_text_lt_transitive(a.created_at, b.created_at, c.created_at);
    }
    if a.created_at == b.created_at && b.created_at == c.created_at {
        text::lemma_text_lt_transitive(a.context_id, b.context_id, c.context_id);
    }
}

proof fn lemma_key_lt_asymmetric(a: ContextKeyView, b: ContextKeyView)
    requires
        key_lt(a, b),
    ensures
        !key_lt(b, a),
        a != b,
{
    if key_lt(b, a) {
        lemma_key_lt_transitive(a, b, a);
    }
    text::lemma_text_lt_irreflexive(a.created_at);
    text::lemma_text_lt_irreflexive(a.context_id);
}

proof fn lemma_following_places(
    rows: Seq<CompiledContextRow>,
    max_rowid: i64,
    ordering: ContextKeyView,
)
    requires
        rows.len() <= usize::MAX,
    ensures
        forall|i: int|
            0 <= i < following(rows, max_rowid, ordering).len() ==> (#[trigger] following(
                rows,
                max_rowid,
                ordering,
            )[i]) < rows.len(),
        forall|i: int, j: int|
            0 <= i < j < following(rows, max_rowid, ordering).len() ==> (#[trigger] following(
                rows,
                max_rowid,
                ordering,
            )[i]) < (#[trigger] following(rows, max_rowid, ordering)[j]),
        forall|i: int|
            0 <= i < following(rows, max_rowid, ordering).len() ==> key_lt(
                ordering,
                rows[#[trigger] following(rows, max_rowid, ordering)[i] as int].key(),
            ) && rows[following(rows, max_rowid, ordering)[i] as int].rowid <= max_rowid,
    decreases rows.len(),
{
    if rows.len() > 0 {
        lemma_following_places(rows.drop_last(), max_rowid, ordering);
        let front = following(rows.drop_last(), max_rowid, ordering);
        assert forall|i: int| 0 <= i < front.len() implies rows[#[trigger] front[i] as int]
            == rows.drop_last()[front[i] as int] by {}
    }
}

/// Behind the row at `m`, the rows that follow an earlier position are those that
/// follow the row itself.
proof fn lemma_following_splits(
    rows: Seq<CompiledContextRow>,
    max_rowid: i64,
    ordering: ContextKeyView,
    m: int,
    n: int,
)
    requires
        rows.len() <= usize::MAX,
        in_order(rows),
        0 <= m < n <= rows.len(),
        key_lt(ordering, rows[m].key()),
    ensures
        following(rows.take(n), max_rowid, ordering) == following(
            rows.take(m + 1),
            max_rowid,
            ordering,
        ) + following(rows.take(n), max_rowid, rows[m].key()),
        forall|i: int|
            0 <= i < following(rows.take(n), max_rowid, rows[m].key()).len() ==> (
            #[trigger] following(rows.take(n), max_rowid, rows[m].key())[i]) > m,
    decreases n,
{
    let l = rows[m].key();
    if n == m + 1 {
        lemma_nothing_follows(rows, max_rowid, m, n);
        assert(following(rows.take(n), max_rowid, l) =~= Seq::empty());
        assert(following(rows.take(n), max_rowid, ordering) =~= following(
            rows.take(m + 1),
            max_rowid,
            ordering,
        ) + following(rows.take(n), max_rowid, l));
    } else {
        lemma_following_splits(rows, max_rowid, ordering, m, n - 1);
        assert(rows.take(n).drop_last() =~= rows.take(n - 1));
        assert(rows.take(n).last() == rows[n - 1]);
        assert(key_lt(l, rows[n - 1].key()));
        lemma_key_lt_transitive(ordering, l, rows[n - 1].key());
        assert(following(rows.take(n), max_rowid, ordering) =~= following(
            rows.take(m + 1),
            max_rowid,
            ordering,
        ) + following(rows.take(n), max_rowid, l));
    }
}

proof fn lemma_nothing_follows(rows: Seq<CompiledContextRow>, max_rowid: i64, m: int, n: int)
    requires
        in_order(rows),
        0 <= n <= m + 1 <= rows.len(),
    ensures
        following(rows.take(n), max_rowid, rows[m].key()).len() == 0,
    decreases n,
{
    if n > 0 {
        lemma_nothing_follows(rows, max_rowid, m, n - 1);
        assert(rows.take(n).drop_last() =~= rows.take(n - 1));
        assert(rows.take(n).last() == rows[n - 1]);
        if n - 1 < m {
            lemma_key_lt_asymmetric(rows[n - 1].key(), rows[m].key());
        } else {
            text::lemma_text_lt_irreflexive(rows[m].key().created_at);
            text::lemma_text_lt_irreflexive(rows[m].key().context_id);
        }
    }
}

/// Pages follow each other without a gap or a repeat: behind the last document of a
/// page come exactly the documents that the page left over.
pub proof fn law_pages_follow_each_other(
    rows: Seq<CompiledContextRow>,
    max_rowid: i64,
    ordering: ContextKeyView,
    limit: int,
)
    requires
        rows.len() <= usize::MAX,
        in_order(rows),
        1 <= limit <= following(rows, max_rowid, ordering).len(),
    ensures
        ({
            let all = following(rows, max_rowid, ordering);
            let last = rows[all[limit - 1] as int].key();
            following(rows, max_rowid, last) == all.skip(limit)
        }),
{
    let all = following(rows, max_rowid, ordering);
    lemma_following_places(rows, max_rowid, ordering);
    let m = all[limit - 1] as int;
    let l = rows[m].key();
    let n = rows.len() as int;
    lemma_following_splits(rows, max_rowid, ordering, m, n);
    assert(rows.take(n) =~= rows);
    let head = following(rows.take(m + 1), max_rowid, ordering);
    let tail = following(rows, max_rowid, l);
    assert(all == head + tail);
    assert(rows.take(m + 1).last() == rows[m]);
    assert(head.last() == m as usize);
    lemma_following_places(rows.take(m + 1), max_rowid, ordering);
    assert(all[head.len() - 1] == m as usize);
    assert(head.len() == limit) by {
        if head.len() - 1 < limit - 1 {
            assert(all[head.len() - 1] < all[limit - 1]);
        } else if head.len() - 1 > limit - 1 {
            assert(all[limit - 1] < all[head.len() - 1]);
        }
    }
    assert(all.skip(limit) =~= tail);
}

proof fn lemma_selected_last(rows: Seq<CompiledContextRow>, max_rowid: i64, m: int, n: int)
    requires
        in_order(rows),
        0 <= m < n <= rows.len(),
        rows[m].rowid <= max_rowid,
    ensures
        last_key(selected(rows.take(n), max_rowid, Some(rows[m].key()))) == Some(rows[m].key()),
    decreases n,
{
    let l = rows[m].key();
    assert(rows.take(n).drop_last() =~= rows.take(n - 1));
    assert(rows.take(n).last() == rows[n - 1]);
    if n - 1 > m {
        lemma_selected_last(rows, max_rowid, m, n - 1);
        lemma_key_lt_asymmetric(l, rows[n - 1].key());
    }
}

/// The cursor behind a row captures the state of the rows, and is current as long as
/// they are the same.
pub proof fn law_a_new_cursor_is_current(
    rows: Seq<CompiledContextRow>,
    watermark: CompiledContextWatermark,
    place: int,
)
    requires
        in_order(rows),
        0 <= place < rows.len(),
        rows[place].rowid <= watermark.max_rowid,
        selected(rows, watermark.max_rowid, None).len() == watermark.row_count,
        rows_digest(selected(rows, watermark.max_rowid, None)) == watermark.snapshot_digest@,
        rows_digest(selected(rows, watermark.max_rowid, Some(rows[place].key())))
            == watermark.prefix_digest@,
    ensures
        still_current(rows, watermark, rows[place].key()),
{
    lemma_selected_last(rows, watermark.max_rowid, place, rows.len() as int);
    assert(rows.take(rows.len() as int) =~= rows);
}

proof fn lemma_selected_twice(
    rows: Seq<CompiledContextRow>,
    max_rowid: i64,
    through: Option<ContextKeyView>,
)
    ensures
        selected(selected(rows, max_rowid, None), max_rowid, through) == selected(
            rows,
            max_rowid,
            through,
        ),
    decreases rows.len(),
{
    if rows.len() > 0 {
        let front = selected(rows.drop_last(), max_rowid, None);
        lemma_selected_twice(rows.drop_last(), max_rowid, through);
        assert(front.push(rows.last()).drop_last() =~= front);
    }
}

/// Rows that are stored later never make a cursor stale: it is current as long as
/// the rows up to its watermark are the same.
pub proof fn law_later_rows_keep_cursors_current(
    rows: Seq<CompiledContextRow>,
    later: Seq<CompiledContextRow>,
    watermark: CompiledContextWatermark,
    key: ContextKeyView,
)
    requires
        selected(later, watermark.max_rowid, None) == selected(rows, watermark.max_rowid, None),
    ensures
        still_current(later, watermark, key) == still_current(rows, watermark, key),
{
    lemma_selected_twice(rows, watermark.max_rowid, Some(key));
    lemma_selected_twice(later, watermark.max_rowid, Some(key));
}

} // verus!
