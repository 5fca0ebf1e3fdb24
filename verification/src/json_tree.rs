//! JSON documents of any shape: the tree that a document stands for, its compact
//! text, and the law that the text of a document determines its tree.
use vstd::prelude::*;

use crate::digest;
use crate::digest::hash_of_text;
use crate::json;
use crate::json::append_quoted;
use crate::text;
use crate::text::{append_decimal, append_signed};

verus! {

/// A JSON value.
#[derive(Debug)]
pub enum JsonValue {
    Null,
    Bool(bool),
    Number(String),
    Text(String),
    Array(Vec<JsonValue>),
    Object(Vec<(String, JsonValue)>),
}

/// What a JSON document stands for. A number is its numeral.
pub ghost enum JsonTree {
    Null,
    Bool(bool),
    Number(Seq<char>),
    Text(Seq<char>),
    List(Seq<JsonTree>),
    Record(Seq<(Seq<char>, JsonTree)>),
}

impl JsonValue {
    /// The tree of a value.
    pub open spec fn tree(self) -> JsonTree
        decreases self,
    {
        match self {
            JsonValue::Null => JsonTree::Null,
            JsonValue::Bool(b) => JsonTree::Bool(b),
            JsonValue::Number(s) => JsonTree::Number(s@),
            JsonValue::Text(s) => JsonTree::Text(s@),
            JsonValue::Array(items) => JsonTree::List(item_trees(items@)),
            JsonValue::Object(fields) => JsonTree::Record(field_trees(fields@)),
        }
    }
}

/// The trees of a list of values.
pub open spec fn item_trees(items: Seq<JsonValue>) -> Seq<JsonTree>
    decreases items,
{
    if items.len() == 0 {
        Seq::empty()
    } else {
        item_trees(items.drop_last()).push(items.last().tree())
    }
}

/// The trees of a list of named values.
pub open spec fn field_trees(fields: Seq<(String, JsonValue)>) -> Seq<(Seq<char>, JsonTree)>
    decreases fields,
{
    if fields.len() == 0 {
        Seq::empty()
    } else {
        field_trees(fields.drop_last()).push((fields.last().0@, fields.last().1.tree()))
    }
}

/// A document as `serde_json` holds it.
#[verifier::external_type_specification]
#[verifier::external_body]
pub struct ExJsonDocument(serde_json::Value);

/// What `serde_json::from_str` reads: the tree of the document, or why the text is
/// none.
pub uninterp spec fn json_reading(raw: Seq<char>) -> Result<JsonTree, Seq<char>>;

/// A `serde_json::Value` as a value of the library: each kind as its own, a number by
/// its numeral. Nothing is promised of it here; `read_json` says what comes of a text.
#[verifier::external_body]
fn json_value(value: serde_json::Value) -> (r: JsonValue) {
    match value {
        serde_json::Value::Null => JsonValue::Null,
        serde_json::Value::Bool(b) => JsonValue::Bool(b),
        serde_json::Value::Number(number) => JsonValue::Number(number.to_string()),
        serde_json::Value::String(text) => JsonValue::Text(text),
        serde_json::Value::Array(items) => JsonValue::Array(
            items.into_iter().map(json_value).collect(),
        ),
        serde_json::Value::Object(fields) => JsonValue::Object(
            fields.into_iter().map(|field| (field.0, json_value(field.1))).collect(),
        ),
    }
}

/// Calls `serde_json::from_str` for a `serde_json::Value`. What it reads is decided by
/// the text alone.
#[verifier::external_body]
pub(crate) fn read_json(raw: &str) -> (r: Result<JsonValue, String>)
    ensures
        match r {
            Ok(value) => json_reading(raw@) == Ok::<JsonTree, Seq<char>>(value.tree()),
            Err(message) => json_reading(raw@) == Err::<JsonTree, Seq<char>>(message@),
        },
{
    match serde_json::from_str::<serde_json::Value>(raw) {
        Ok(value) => Ok(json_value(value)),
        Err(error) => Err(error.to_string()),
    }
}

/// The text of a field of a record; none where the tree is no record, has no such
/// field, or the field is no text.
pub open spec fn text_field_of(tree: JsonTree, name: Seq<char>) -> Option<Seq<char>> {
    match tree {
        JsonTree::Record(fields) => text_among(fields, name, 0),
        _ => None,
    }
}

/// The text of the first field of that name from `from` on.
pub open spec fn text_among(
    fields: Seq<(Seq<char>, JsonTree)>,
    name: Seq<char>,
    from: int,
) -> Option<Seq<char>>
    decreases fields.len() - from,
{
    if from < 0 || from >= fields.len() {
        None
    } else if fields[from].0 == name {
        match fields[from].1 {
            JsonTree::Text(s) => Some(s),
            _ => None,
        }
    } else {
        text_among(fields, name, from + 1)
    }
}

/// The trees of a list are those of its values, place by place.
pub proof fn lemma_item_trees(items: Seq<JsonValue>)
    ensures
        item_trees(items).len() == items.len(),
        forall|i: int| 0 <= i < items.len() ==> #[trigger] item_trees(items)[i] == items[i].tree(),
    decreases items.len(),
{
    if items.len() > 0 {
        lemma_item_trees(items.drop_last());
    }
}

/// The fields of a record are those of its values, place by place.
pub proof fn lemma_field_trees(fields: Seq<(String, JsonValue)>)
    ensures
        field_trees(fields).len() == fields.len(),
        forall|i: int|
            0 <= i < fields.len() ==> #[trigger] field_trees(fields)[i] == (
                fields[i].0@,
                fields[i].1.tree(),
            ),
    decreases fields.len(),
{
    if fields.len() > 0 {
        lemma_field_trees(fields.drop_last());
    }
}

/// The text of a field of a record.
pub fn text_field(value: &JsonValue, name: &str) -> (r: Option<String>)
    ensures
        text::opt_text(r) == text_field_of(value.tree(), name@),
{
    match value {
        JsonValue::Object(fields) => {
            let ghost trees = field_trees(fields@);
            proof {
                lemma_field_trees(fields@);
            }
            for i in 0..fields.len()
                invariant
                    trees.len() == fields@.len(),
                    forall|j: int|
                        0 <= j < fields@.len() ==> #[trigger] trees[j] == (
                            fields@[j].0@,
                            fields@[j].1.tree(),
                        ),
                    value.tree() == JsonTree::Record(trees),
                    text_field_of(value.tree(), name@) == text_among(trees, name@, i as int),
            {
                if text::text_eq(fields[i].0.as_str(), name) {
                    return match &fields[i].1 {
                        JsonValue::Text(s) => Some(s.as_str().to_string()),
                        _ => None,
                    };
                }
            }
            None
        },
        _ => None,
    }
}

impl Clone for JsonValue {
    fn clone(&self) -> (r: Self)
        ensures
            r.tree() == self.tree(),
        decreases self,
    {
        match self {
            JsonValue::Null => JsonValue::Null,
            JsonValue::Bool(b) => JsonValue::Bool(*b),
            JsonValue::Number(s) => JsonValue::Number(s.as_str().to_string()),
            JsonValue::Text(s) => JsonValue::Text(s.as_str().to_string()),
            JsonValue::Array(items) => {
                let mut copied: Vec<JsonValue> = Vec::new();
                for i in 0..items.len()
                    invariant
                        *self == JsonValue::Array(*items),
                        item_trees(copied@) == item_trees(items@.take(i as int)),
                {
                    proof {
                        assert(decreases_to!(*self => self->Array_0));
                        assert(decreases_to!(*items => items@));
                        assert(decreases_to!(items@ => items@[i as int]));
                    }
                    let item = items[i].clone();
                    let ghost so_far = copied@;
                    copied.push(item);
                    proof {
                        lemma_item_trees_push(so_far, item);
                        lemma_item_trees_push(items@.take(i as int), items@[i as int]);
                        assert(items@.take(i + 1) =~= items@.take(i as int).push(items@[i as int]));
                    }
                }
                assert(items@.take(items@.len() as int) =~= items@);
                JsonValue::Array(copied)
            },
            JsonValue::Object(fields) => {
                let mut copied: Vec<(String, JsonValue)> = Vec::new();
                for i in 0..fields.len()
                    invariant
                        *self == JsonValue::Object(*fields),
                        field_trees(copied@) == field_trees(fields@.take(i as int)),
                {
                    proof {
                        assert(decreases_to!(*self => self->Object_0));
                        assert(decreases_to!(*fields => fields@));
                        assert(decreases_to!(fields@ => fields@[i as int]));
                        assert(decreases_to!(fields@[i as int] => fields@[i as int].1));
                    }
                    let value = fields[i].1.clone();
                    let name = fields[i].0.as_str().to_string();
                    let ghost so_far = copied@;
                    let ghost pair = (name, value);
                    copied.push((name, value));
                    proof {
                        lemma_field_trees_push(so_far, pair);
                        lemma_field_trees_push(fields@.take(i as int), fields@[i as int]);
                        assert(fields@.take(i + 1) =~= fields@.take(i as int).push(
                            fields@[i as int],
                        ));
                    }
                }
                assert(fields@.take(fields@.len() as int) =~= fields@);
                JsonValue::Object(copied)
            },
        }
    }
}

proof fn lemma_item_trees_push(items: Seq<JsonValue>, item: JsonValue)
    ensures
        item_trees(items.push(item)) == item_trees(items).push(item.tree()),
{
    assert(items.push(item).drop_last() =~= items);
}

proof fn lemma_field_trees_push(fields: Seq<(String, JsonValue)>, field: (String, JsonValue))
    ensures
        field_trees(fields.push(field)) == field_trees(fields).push((field.0@, field.1.tree())),
{
    assert(fields.push(field).drop_last() =~= fields);
}

/// The compact text of a tree, with its fields in their order.
pub open spec fn tree_text(t: JsonTree) -> Seq<char>
    decreases t,
{
    match t {
        JsonTree::Null => seq!['n', 'u', 'l', 'l'],
        JsonTree::Bool(b) => if b {
            seq!['t', 'r', 'u', 'e']
        } else {
            seq!['f', 'a', 'l', 's', 'e']
        },
        JsonTree::Number(s) => s,
        JsonTree::Text(s) => json::quoted(s),
        JsonTree::List(items) => seq!['['] + items_text(items) + seq![']'],
        JsonTree::Record(fields) => seq!['{'] + fields_text(fields) + seq!['}'],
    }
}

/// The items of a list, between its brackets.
pub open spec fn items_text(items: Seq<JsonTree>) -> Seq<char>
    decreases items,
{
    if items.len() == 0 {
        Seq::empty()
    } else if items.len() == 1 {
        tree_text(items[0])
    } else {
        items_text(items.drop_last()) + seq![','] + tree_text(items.last())
    }
}

/// A named value as it stands in a record.
pub open spec fn field_text(field: (Seq<char>, JsonTree)) -> Seq<char>
    decreases field,
{
    json::quoted(field.0) + seq![':'] + tree_text(field.1)
}

/// The fields of a record, between its braces.
pub open spec fn fields_text(fields: Seq<(Seq<char>, JsonTree)>) -> Seq<char>
    decreases fields,
{
    if fields.len() == 0 {
        Seq::empty()
    } else if fields.len() == 1 {
        field_text(fields[0])
    } else {
        fields_text(fields.drop_last()) + seq![','] + field_text(fields.last())
    }
}

/// Appends the compact text of a value.
fn append_value(out: &mut String, value: &JsonValue)
    ensures
        final(out)@ == old(out)@ + tree_text(value.tree()),
    decreases value,
{
    let ghost before = out@;
    match value {
        JsonValue::Null => {
            proof {
                reveal_strlit("null");
            }
            out.append("null");
            assert(out@ =~= before + tree_text(value.tree()));
        },
        JsonValue::Bool(b) => {
            append_bool(out, *b);
        },
        JsonValue::Number(s) => {
            out.append(s.as_str());
        },
        JsonValue::Text(s) => {
            append_quoted(out, s.as_str());
        },
        JsonValue::Array(items) => {
            out.push('[');
            for i in 0..items.len()
                invariant
                    *value == JsonValue::Array(*items),
                    out@ == before + seq!['['] + items_text(item_trees(items@.take(i as int))),
                    item_trees(items@.take(i as int)).len() == i,
            {
                let ghost head = items@.take(i as int);
                proof {
                    assert(decreases_to!(*value => value->Array_0));
                    assert(decreases_to!(*items => items@));
                    assert(decreases_to!(items@ => items@[i as int]));
                }
                if i > 0 {
                    out.push(',');
                }
                append_value(out, &items[i]);
                proof {
                    let longer = items@.take(i + 1);
                    assert(longer.drop_last() =~= head);
                    let trees = item_trees(longer);
                    assert(trees.drop_last() =~= item_trees(head));
                    assert(trees.last() == items@[i as int].tree());
                    if i == 0 {
                        assert(trees[0] == items@[0].tree());
                        assert(out@ =~= before + seq!['['] + items_text(trees));
                    } else {
                        assert(out@ =~= before + seq!['['] + items_text(trees));
                    }
                }
            }
            assert(items@.take(items@.len() as int) =~= items@);
            out.push(']');
            assert(out@ =~= before + tree_text(value.tree()));
        },
        JsonValue::Object(fields) => {
            out.push('{');
            for i in 0..fields.len()
                invariant
                    *value == JsonValue::Object(*fields),
                    out@ == before + seq!['{'] + fields_text(field_trees(fields@.take(i as int))),
                    field_trees(fields@.take(i as int)).len() == i,
            {
                let ghost head = fields@.take(i as int);
                let ghost step = out@;
                proof {
                    assert(decreases_to!(*value => value->Object_0));
                    assert(decreases_to!(*fields => fields@));
                    assert(decreases_to!(fields@ => fields@[i as int]));
                    assert(decreases_to!(fields@[i as int] => fields@[i as int].1));
                }
                if i > 0 {
                    out.push(',');
                }
                append_quoted(out, fields[i].0.as_str());
                out.push(':');
                append_value(out, &fields[i].1);
                proof {
                    let longer = fields@.take(i + 1);
                    assert(longer.drop_last() =~= head);
                    let trees = field_trees(longer);
                    let last = (fields@[i as int].0@, fields@[i as int].1.tree());
                    assert(trees.drop_last() =~= field_trees(head));
                    assert(trees.last() == last);
                    let written = field_text(last);
                    if i == 0 {
                        assert(trees[0] == last);
                        assert(fields_text(trees) == written);
                        assert(out@ =~= step + written);
                        assert(step =~= before + seq!['{']);
                    } else {
                        assert(fields_text(trees) == fields_text(field_trees(head)) + seq![',']
                            + written);
                        assert(out@ =~= step + seq![','] + written);
                        assert(out@ =~= before + seq!['{'] + fields_text(trees));
                    }
                }
            }
            assert(fields@.take(fields@.len() as int) =~= fields@);
            out.push('}');
            assert(out@ =~= before + tree_text(value.tree()));
        },
    }
}

fn append_bool(out: &mut String, b: bool)
    ensures
        final(out)@ == old(out)@ + tree_text(JsonTree::Bool(b)),
{
    proof {
        reveal_strlit("true");
        reveal_strlit("false");
    }
    if b {
        out.append("true");
    } else {
        out.append("false");
    }
    assert(out@ =~= old(out)@ + tree_text(JsonTree::Bool(b)));
}

/// The text of a JSON value on its own.
pub fn value_text(value: &JsonValue) -> (r: String)
    ensures
        r@ == tree_text(value.tree()),
{
    let mut out = String::new();
    append_value(&mut out, value);
    assert(out@ =~= tree_text(value.tree()));
    out
}


// ---------------------------------------------------------------------------
// The canonical form
// ---------------------------------------------------------------------------

/// The fields with one more, kept in the order of their names; behind those of the
/// same name.
pub open spec fn with_field(
    fields: Seq<(Seq<char>, JsonTree)>,
    field: (Seq<char>, JsonTree),
) -> Seq<(Seq<char>, JsonTree)>
    decreases fields.len(),
{
    if fields.len() == 0 || !text::text_lt(field.0, fields.last().0) {
        fields.push(field)
    } else {
        with_field(fields.drop_last(), field).push(fields.last())
    }
}

/// The document with the fields of each record in the order of their names.
pub open spec fn canonical(t: JsonTree) -> JsonTree
    decreases t,
{
    match t {
        JsonTree::List(items) => JsonTree::List(canonical_items(items)),
        JsonTree::Record(fields) => JsonTree::Record(canonical_fields(fields)),
        _ => t,
    }
}

/// The items in their canonical form.
pub open spec fn canonical_items(items: Seq<JsonTree>) -> Seq<JsonTree>
    decreases items,
{
    if items.len() == 0 {
        Seq::empty()
    } else {
        canonical_items(items.drop_last()).push(canonical(items.last()))
    }
}

/// The fields in their canonical form and order.
pub open spec fn canonical_fields(fields: Seq<(Seq<char>, JsonTree)>) -> Seq<
    (Seq<char>, JsonTree),
>
    decreases fields,
{
    if fields.len() == 0 {
        Seq::empty()
    } else {
        with_field(
            canonical_fields(fields.drop_last()),
            (fields.last().0, canonical(fields.last().1)),
        )
    }
}

fn insert_field(fields: Vec<(String, JsonValue)>, field: (String, JsonValue)) -> (r: Vec<
    (String, JsonValue),
>)
    ensures
        field_trees(r@) == with_field(field_trees(fields@), (field.0@, field.1.tree())),
    decreases fields@.len(),
{
    let mut fields = fields;
    let ghost given = fields@;
    let last = fields.pop();
    match last {
        None => {
            let ghost so_far = fields@;
            proof {
                lemma_field_trees_push(so_far, field);
                assert(given =~= so_far);
            }
            fields.push(field);
            fields
        },
        Some(last) => {
            let ghost shorter = fields@;
            proof {
                assert(given =~= shorter.push(last));
                lemma_field_trees_push(shorter, last);
                assert(field_trees(given).drop_last() =~= field_trees(shorter));
            }
            if !text::text_less(field.0.as_str(), last.0.as_str()) {
                fields.push(last);
                proof {
                    assert(fields@ =~= given);
                    lemma_field_trees_push(given, field);
                }
                fields.push(field);
                fields
            } else {
                let mut longer = insert_field(fields, field);
                proof {
                    lemma_field_trees_push(longer@, last);
                }
                longer.push(last);
                longer
            }
        },
    }
}

/// The value with the fields of each record in the order of their names.
pub fn canonical_value(value: &JsonValue) -> (r: JsonValue)
    ensures
        r.tree() == canonical(value.tree()),
    decreases value,
{
    match value {
        JsonValue::Array(items) => {
            let mut ordered: Vec<JsonValue> = Vec::new();
            for i in 0..items.len()
                invariant
                    *value == JsonValue::Array(*items),
                    item_trees(ordered@) == canonical_items(item_trees(items@.take(i as int))),
            {
                proof {
                    assert(decreases_to!(*value => value->Array_0));
                    assert(decreases_to!(*items => items@));
                    assert(decreases_to!(items@ => items@[i as int]));
                    lemma_item_trees_push(items@.take(i as int), items@[i as int]);
                    assert(items@.take(i + 1) =~= items@.take(i as int).push(items@[i as int]));
                    let trees = item_trees(items@.take(i + 1));
                    assert(trees.drop_last() =~= item_trees(items@.take(i as int)));
                }
                let item = canonical_value(&items[i]);
                proof {
                    lemma_item_trees_push(ordered@, item);
                }
                ordered.push(item);
            }
            assert(items@.take(items@.len() as int) =~= items@);
            JsonValue::Array(ordered)
        },
        JsonValue::Object(fields) => {
            let mut ordered: Vec<(String, JsonValue)> = Vec::new();
            for i in 0..fields.len()
                invariant
                    *value == JsonValue::Object(*fields),
                    field_trees(ordered@) == canonical_fields(
                        field_trees(fields@.take(i as int)),
                    ),
            {
                proof {
                    assert(decreases_to!(*value => value->Object_0));
                    assert(decreases_to!(*fields => fields@));
                    assert(decreases_to!(fields@ => fields@[i as int]));
                    assert(decreases_to!(fields@[i as int] => fields@[i as int].1));
                    lemma_field_trees_push(fields@.take(i as int), fields@[i as int]);
                    assert(fields@.take(i + 1) =~= fields@.take(i as int).push(fields@[i as int]));
                    let trees = field_trees(fields@.take(i + 1));
                    assert(trees.drop_last() =~= field_trees(fields@.take(i as int)));
                }
                let inner = canonical_value(&fields[i].1);
                ordered = insert_field(ordered, (fields[i].0.as_str().to_string(), inner));
            }
            assert(fields@.take(fields@.len() as int) =~= fields@);
            JsonValue::Object(ordered)
        },
        _ => value.clone(),
    }
}

/// The digest of a document in its canonical form.
pub open spec fn canonical_digest(t: JsonTree) -> Seq<char> {
    digest::content_hash(digest::text_field(tree_text(canonical(t))))
}

/// The digest of a document in its canonical form.
pub fn canonical_hash(value: &JsonValue) -> (r: String)
    ensures
        r@ == canonical_digest(value.tree()),
        text::hex64(r@),
{
    hash_of_text(value_text(&canonical_value(value)).as_str())
}

// ---------------------------------------------------------------------------
// Putting documents together field by field
// ---------------------------------------------------------------------------

/// A number as a tree.
pub open spec fn number_tree(n: int) -> JsonTree {
    JsonTree::Number(text::signed_decimal(n))
}

/// A number that may be absent.
pub open spec fn as_int(n: Option<u64>) -> Option<int> {
    match n {
        Some(n) => Some(n as int),
        None => None,
    }
}

/// A signed number that may be absent.
pub open spec fn as_signed_int(n: Option<i64>) -> Option<int> {
    match n {
        Some(n) => Some(n as int),
        None => None,
    }
}

/// A truth value that may be absent, as a tree.
pub open spec fn opt_flag_tree(b: Option<bool>) -> JsonTree {
    match b {
        Some(b) => JsonTree::Bool(b),
        None => JsonTree::Null,
    }
}

/// A number that may be absent, as a tree.
pub open spec fn opt_number_tree(n: Option<int>) -> JsonTree {
    match n {
        Some(n) => number_tree(n),
        None => JsonTree::Null,
    }
}

/// A text that may be absent, as a tree.
pub open spec fn opt_text_tree(s: Option<Seq<char>>) -> JsonTree {
    match s {
        Some(s) => JsonTree::Text(s),
        None => JsonTree::Null,
    }
}

/// A list of texts as a tree.
pub open spec fn texts_tree(items: Seq<Seq<char>>) -> JsonTree {
    JsonTree::List(items.map_values(|s: Seq<char>| JsonTree::Text(s)))
}

/// A list that is being put together.
pub(crate) struct ListBuilder {
    items: Vec<JsonValue>,
}

impl ListBuilder {
    /// The items so far.
    pub closed spec fn items(self) -> Seq<JsonTree> {
        item_trees(self.items@)
    }

    /// A list without items.
    pub fn new() -> (r: Self)
        ensures
            r.items() == Seq::<JsonTree>::empty(),
    {
        ListBuilder { items: Vec::new() }
    }

    /// The list with one more item.
    pub fn item(self, value: JsonValue) -> (r: Self)
        ensures
            r.items() == self.items().push(value.tree()),
    {
        proof {
            lemma_item_trees_push(self.items@, value);
        }
        let mut items = self.items;
        items.push(value);
        ListBuilder { items }
    }

    /// The list as a value.
    pub fn finish(self) -> (r: JsonValue)
        ensures
            r.tree() == JsonTree::List(self.items()),
    {
        JsonValue::Array(self.items)
    }
}

/// A record that is being put together.
pub(crate) struct RecordBuilder {
    fields: Vec<(String, JsonValue)>,
}

impl RecordBuilder {
    /// The fields so far.
    pub closed spec fn fields(self) -> Seq<(Seq<char>, JsonTree)> {
        field_trees(self.fields@)
    }

    /// A record without fields.
    pub fn new() -> (r: Self)
        ensures
            r.fields() == Seq::<(Seq<char>, JsonTree)>::empty(),
    {
        RecordBuilder { fields: Vec::new() }
    }

    /// The record with one more field.
    pub fn field(self, name: &str, value: JsonValue) -> (r: Self)
        ensures
            r.fields() == self.fields().push((name@, value.tree())),
    {
        let key = name.to_string();
        proof {
            lemma_field_trees_push(self.fields@, (key, value));
        }
        let mut fields = self.fields;
        fields.push((key, value));
        RecordBuilder { fields }
    }

    /// The record with one more field: a text.
    pub fn text(self, name: &str, value: &str) -> (r: Self)
        ensures
            r.fields() == self.fields().push((name@, JsonTree::Text(value@))),
    {
        self.field(name, JsonValue::Text(value.to_string()))
    }

    /// The record with one more field: a text that may be absent.
    pub fn opt_text(self, name: &str, value: &Option<String>) -> (r: Self)
        ensures
            r.fields() == self.fields().push((name@, opt_text_tree(text::opt_text(*value)))),
    {
        match value {
            Some(s) => self.text(name, s.as_str()),
            None => self.field(name, JsonValue::Null),
        }
    }

    /// The record with one more field: a number.
    pub fn count(self, name: &str, value: u64) -> (r: Self)
        ensures
            r.fields() == self.fields().push((name@, number_tree(value as int))),
    {
        let mut numeral = String::new();
        append_decimal(&mut numeral, value);
        assert(numeral@ =~= text::signed_decimal(value as int));
        self.field(name, JsonValue::Number(numeral))
    }

    /// The record with one more field: a number that may be absent.
    pub fn opt_count(self, name: &str, value: Option<u64>) -> (r: Self)
        ensures
            r.fields() == self.fields().push((name@, opt_number_tree(as_int(value)))),
    {
        match value {
            Some(n) => self.count(name, n),
            None => self.field(name, JsonValue::Null),
        }
    }

    /// The record with one more field: a signed number.
    pub fn signed(self, name: &str, value: i64) -> (r: Self)
        ensures
            r.fields() == self.fields().push((name@, number_tree(value as int))),
    {
        let mut numeral = String::new();
        append_signed(&mut numeral, value);
        assert(numeral@ =~= text::signed_decimal(value as int));
        self.field(name, JsonValue::Number(numeral))
    }

    /// The record with one more field: a signed number that may be absent.
    pub fn opt_signed(self, name: &str, value: Option<i64>) -> (r: Self)
        ensures
            r.fields() == self.fields().push((name@, opt_number_tree(as_signed_int(value)))),
    {
        match value {
            Some(n) => self.signed(name, n),
            None => self.field(name, JsonValue::Null),
        }
    }

    /// The record with one more field: a truth value.
    pub fn flag(self, name: &str, value: bool) -> (r: Self)
        ensures
            r.fields() == self.fields().push((name@, JsonTree::Bool(value))),
    {
        self.field(name, JsonValue::Bool(value))
    }

    /// The record with one more field: a truth value that may be absent.
    pub fn opt_flag(self, name: &str, value: Option<bool>) -> (r: Self)
        ensures
            r.fields() == self.fields().push((name@, opt_flag_tree(value))),
    {
        match value {
            Some(b) => self.field(name, JsonValue::Bool(b)),
            None => self.field(name, JsonValue::Null),
        }
    }

    /// The record with one more field: a list of texts.
    pub fn texts(self, name: &str, values: &Vec<String>) -> (r: Self)
        ensures
            r.fields() == self.fields().push((name@, texts_tree(text::texts(values@)))),
    {
        let mut list = ListBuilder::new();
        let ghost all = text::texts(values@).map_values(|s: Seq<char>| JsonTree::Text(s));
        for i in 0..values.len()
            invariant
                all == text::texts(values@).map_values(|s: Seq<char>| JsonTree::Text(s)),
                list.items() == all.take(i as int),
        {
            list = list.item(JsonValue::Text(values[i].as_str().to_string()));
            assert(all.take(i + 1) =~= all.take(i as int).push(all[i as int]));
        }
        assert(all.take(values@.len() as int) =~= all);
        self.field(name, list.finish())
    }

    /// The record as a value.
    pub fn finish(self) -> (r: JsonValue)
        ensures
            r.tree() == JsonTree::Record(self.fields()),
    {
        JsonValue::Object(self.fields)
    }
}

// ---------------------------------------------------------------------------
// The text determines the tree
// ---------------------------------------------------------------------------

/// A character that stands in a numeral.
pub open spec fn numeral_char(c: char) -> bool {
    ('0' <= c && c <= '9') || c == '-' || c == '+' || c == '.' || c == 'e' || c == 'E'
}

/// A numeral: it begins with a digit or a minus sign.
pub open spec fn is_numeral(s: Seq<char>) -> bool {
    &&& s.len() > 0
    &&& (('0' <= s[0] && s[0] <= '9') || s[0] == '-')
    &&& forall|i: int| 0 <= i < s.len() ==> numeral_char(#[trigger] s[i])
}

/// Every number in the tree is a numeral.
pub open spec fn well_formed(t: JsonTree) -> bool
    decreases t,
{
    match t {
        JsonTree::Number(s) => is_numeral(s),
        JsonTree::List(items) => items_well_formed(items),
        JsonTree::Record(fields) => fields_well_formed(fields),
        _ => true,
    }
}

/// Every item is well formed.
pub open spec fn items_well_formed(items: Seq<JsonTree>) -> bool
    decreases items,
{
    items.len() == 0 || (well_formed(items[0]) && items_well_formed(items.drop_first()))
}

/// Every field is well formed.
pub open spec fn fields_well_formed(fields: Seq<(Seq<char>, JsonTree)>) -> bool
    decreases fields,
{
    fields.len() == 0 || (well_formed(fields[0].1) && fields_well_formed(fields.drop_first()))
}

/// The items that follow the first one, each behind its comma.
spec fn item_chain(items: Seq<JsonTree>) -> Seq<char>
    decreases items,
{
    if items.len() == 0 {
        Seq::empty()
    } else {
        seq![','] + tree_text(items[0]) + item_chain(items.drop_first())
    }
}

/// The fields that follow the first one, each behind its comma.
spec fn field_chain(fields: Seq<(Seq<char>, JsonTree)>) -> Seq<char>
    decreases fields,
{
    if fields.len() == 0 {
        Seq::empty()
    } else {
        seq![','] + field_text(fields[0]) + field_chain(fields.drop_first())
    }
}

proof fn lemma_item_chain_push(items: Seq<JsonTree>, last: JsonTree)
    ensures
        item_chain(items.push(last)) == item_chain(items) + seq![','] + tree_text(last),
    decreases items.len(),
{
    let longer = items.push(last);
    if items.len() == 0 {
        assert(longer.drop_first() =~= Seq::empty());
        assert(item_chain(longer.drop_first()) =~= Seq::empty());
        assert(item_chain(items) =~= Seq::empty());
        assert(longer[0] == last);
        assert(item_chain(longer) =~= item_chain(items) + seq![','] + tree_text(last));
    } else {
        lemma_item_chain_push(items.drop_first(), last);
        assert(longer.drop_first() =~= items.drop_first().push(last));
        assert(longer[0] == items[0]);
        assert(item_chain(longer) =~= item_chain(items) + seq![','] + tree_text(last));
    }
}

proof fn lemma_field_chain_push(
    fields: Seq<(Seq<char>, JsonTree)>,
    last: (Seq<char>, JsonTree),
)
    ensures
        field_chain(fields.push(last)) == field_chain(fields) + seq![','] + field_text(last),
    decreases fields.len(),
{
    let longer = fields.push(last);
    if fields.len() == 0 {
        assert(longer.drop_first() =~= Seq::empty());
        assert(field_chain(longer.drop_first()) =~= Seq::empty());
        assert(field_chain(fields) =~= Seq::empty());
        assert(longer[0] == last);
        assert(field_chain(longer) =~= field_chain(fields) + seq![','] + field_text(last));
    } else {
        lemma_field_chain_push(fields.drop_first(), last);
        assert(longer.drop_first() =~= fields.drop_first().push(last));
        assert(longer[0] == fields[0]);
        assert(field_chain(longer) =~= field_chain(fields) + seq![','] + field_text(last));
    }
}

proof fn lemma_items_from_front(items: Seq<JsonTree>)
    requires
        items.len() > 0,
    ensures
        items_text(items) == tree_text(items[0]) + item_chain(items.drop_first()),
    decreases items.len(),
{
    if items.len() == 1 {
        assert(items.drop_first() =~= Seq::empty());
        assert(items_text(items) =~= tree_text(items[0]) + item_chain(items.drop_first()));
    } else {
        let shorter = items.drop_last();
        lemma_items_from_front(shorter);
        lemma_item_chain_push(shorter.drop_first(), items.last());
        assert(items.drop_first() =~= shorter.drop_first().push(items.last()));
        assert(items_text(items) =~= tree_text(items[0]) + item_chain(items.drop_first()));
    }
}

proof fn lemma_fields_from_front(fields: Seq<(Seq<char>, JsonTree)>)
    requires
        fields.len() > 0,
    ensures
        fields_text(fields) == field_text(fields[0]) + field_chain(fields.drop_first()),
    decreases fields.len(),
{
    if fields.len() == 1 {
        assert(fields.drop_first() =~= Seq::empty());
        assert(fields_text(fields) =~= field_text(fields[0]) + field_chain(fields.drop_first()));
    } else {
        let shorter = fields.drop_last();
        lemma_fields_from_front(shorter);
        lemma_field_chain_push(shorter.drop_first(), fields.last());
        assert(fields.drop_first() =~= shorter.drop_first().push(fields.last()));
        assert(fields_text(fields) =~= field_text(fields[0]) + field_chain(fields.drop_first()));
    }
}

/// What follows a value: nothing, or a comma or closing bracket.
spec fn ends_value(s: Seq<char>) -> bool {
    s.len() == 0 || s[0] == ',' || s[0] == ']' || s[0] == '}'
}

/// What follows the same beginning is the same.
pub proof fn lemma_same_tail(p: Seq<char>, x: Seq<char>, y: Seq<char>)
    requires
        p + x == p + y,
    ensures
        x == y,
{
    assert(x =~= (p + x).skip(p.len() as int));
    assert(y =~= (p + y).skip(p.len() as int));
}

/// A quoted text at the beginning can be told from what follows it.
pub proof fn lemma_quoted_prefix(a: Seq<char>, b: Seq<char>, x: Seq<char>, y: Seq<char>)
    requires
        json::quoted(a) + x == json::quoted(b) + y,
    ensures
        a == b,
        x == y,
{
    let whole = json::quoted(a) + x;
    let t = whole.skip(1);
    assert(t =~= json::escaped(a) + seq!['"'] + x);
    assert(t =~= json::escaped(b) + seq!['"'] + y) by {
        assert((json::quoted(b) + y).skip(1) =~= json::escaped(b) + seq!['"'] + y);
    }
    assert(t.take(json::escaped(a).len() as int + 1) =~= json::escaped(a) + seq!['"']);
    assert(t.take(json::escaped(b).len() as int + 1) =~= json::escaped(b) + seq!['"']);
    json::lemma_string_rest_complete(t, a);
    json::lemma_string_rest_complete(t, b);
    lemma_same_tail(json::quoted(a), x, y);
}

proof fn lemma_numeral_prefix(a: Seq<char>, b: Seq<char>, x: Seq<char>, y: Seq<char>)
    requires
        is_numeral(a),
        is_numeral(b),
        ends_value(x),
        ends_value(y),
        a + x == b + y,
    ensures
        a == b,
        x == y,
{
    let whole = a + x;
    if a.len() < b.len() {
        assert(whole[a.len() as int] == (b + y)[a.len() as int]);
        assert(numeral_char(b[a.len() as int]));
        assert(x.len() > 0 && x[0] == whole[a.len() as int]);
    }
    if b.len() < a.len() {
        assert(whole[b.len() as int] == (b + y)[b.len() as int]);
        assert(numeral_char(a[b.len() as int]));
        assert(y.len() > 0 && y[0] == whole[b.len() as int]);
    }
    assert(a =~= whole.take(a.len() as int));
    assert(b =~= (b + y).take(b.len() as int));
    lemma_same_tail(a, x, y);
}

proof fn lemma_first_char(t: JsonTree)
    requires
        well_formed(t),
    ensures
        tree_text(t).len() > 0,
        match t {
            JsonTree::Null => tree_text(t)[0] == 'n',
            JsonTree::Bool(b) => tree_text(t)[0] == (if b {
                't'
            } else {
                'f'
            }),
            JsonTree::Number(_) => tree_text(t)[0] == '-' || ('0' <= tree_text(t)[0]
                && tree_text(t)[0] <= '9'),
            JsonTree::Text(_) => tree_text(t)[0] == '"',
            JsonTree::List(_) => tree_text(t)[0] == '[',
            JsonTree::Record(_) => tree_text(t)[0] == '{',
        },
{
}

proof fn lemma_tree_prefix(a: JsonTree, b: JsonTree, x: Seq<char>, y: Seq<char>)
    requires
        well_formed(a),
        well_formed(b),
        ends_value(x),
        ends_value(y),
        tree_text(a) + x == tree_text(b) + y,
    ensures
        a == b,
        x == y,
    decreases a,
{
    lemma_first_char(a);
    lemma_first_char(b);
    assert((tree_text(a) + x)[0] == tree_text(a)[0]);
    assert((tree_text(b) + y)[0] == tree_text(b)[0]);
    match (a, b) {
        (JsonTree::Number(s), JsonTree::Number(u)) => {
            lemma_numeral_prefix(s, u, x, y);
        },
        (JsonTree::Text(s), JsonTree::Text(u)) => {
            lemma_quoted_prefix(s, u, x, y);
        },
        (JsonTree::List(items), JsonTree::List(others)) => {
            lemma_list_prefix(items, others, x, y);
        },
        (JsonTree::Record(fields), JsonTree::Record(others)) => {
            lemma_record_prefix(fields, others, x, y);
        },
        _ => {
            assert(a == b);
            lemma_same_tail(tree_text(a), x, y);
        },
    }
}

proof fn lemma_list_prefix(
    a: Seq<JsonTree>,
    b: Seq<JsonTree>,
    x: Seq<char>,
    y: Seq<char>,
)
    requires
        items_well_formed(a),
        items_well_formed(b),
        seq!['['] + items_text(a) + seq![']'] + x == seq!['['] + items_text(b) + seq![']'] + y,
    ensures
        a == b,
        x == y,
    decreases a,
{
    let left = items_text(a) + seq![']'] + x;
    let right = items_text(b) + seq![']'] + y;
    assert(seq!['['] + items_text(a) + seq![']'] + x =~= seq!['['] + left);
    assert(seq!['['] + items_text(b) + seq![']'] + y =~= seq!['['] + right);
    lemma_same_tail(seq!['['], left, right);
    if a.len() > 0 {
        lemma_items_from_front(a);
        lemma_first_char(a[0]);
        assert(left[0] == tree_text(a[0])[0]);
    } else {
        assert(left[0] == ']');
    }
    if b.len() > 0 {
        lemma_items_from_front(b);
        lemma_first_char(b[0]);
        assert(right[0] == tree_text(b[0])[0]);
    } else {
        assert(right[0] == ']');
    }
    if a.len() > 0 && b.len() > 0 {
        let after = item_chain(a.drop_first()) + seq![']'] + x;
        let other = item_chain(b.drop_first()) + seq![']'] + y;
        assert(left =~= tree_text(a[0]) + after);
        assert(right =~= tree_text(b[0]) + other);
        assert(ends_value(after) && ends_value(other));
        lemma_tree_prefix(a[0], b[0], after, other);
        lemma_item_chain_prefix(a.drop_first(), b.drop_first(), x, y);
        assert(a =~= seq![a[0]] + a.drop_first());
        assert(b =~= seq![b[0]] + b.drop_first());
    } else {
        assert(a =~= b);
        assert(left =~= seq![']'] + x);
        assert(right =~= seq![']'] + y);
        lemma_same_tail(seq![']'], x, y);
    }
}

proof fn lemma_item_chain_prefix(
    a: Seq<JsonTree>,
    b: Seq<JsonTree>,
    x: Seq<char>,
    y: Seq<char>,
)
    requires
        items_well_formed(a),
        items_well_formed(b),
        item_chain(a) + seq![']'] + x == item_chain(b) + seq![']'] + y,
    ensures
        a == b,
        x == y,
    decreases a,
{
    let left = item_chain(a) + seq![']'] + x;
    let right = item_chain(b) + seq![']'] + y;
    assert(left[0] == (if a.len() > 0 {
        ','
    } else {
        ']'
    }));
    assert(right[0] == (if b.len() > 0 {
        ','
    } else {
        ']'
    }));
    if a.len() > 0 {
        let after = item_chain(a.drop_first()) + seq![']'] + x;
        let other = item_chain(b.drop_first()) + seq![']'] + y;
        assert(left =~= seq![','] + (tree_text(a[0]) + after));
        assert(right =~= seq![','] + (tree_text(b[0]) + other));
        lemma_same_tail(seq![','], tree_text(a[0]) + after, tree_text(b[0]) + other);
        assert(ends_value(after) && ends_value(other));
        lemma_tree_prefix(a[0], b[0], after, other);
        lemma_item_chain_prefix(a.drop_first(), b.drop_first(), x, y);
        assert(a =~= seq![a[0]] + a.drop_first());
        assert(b =~= seq![b[0]] + b.drop_first());
    } else {
        assert(a =~= b);
        assert(left =~= seq![']'] + x);
        assert(right =~= seq![']'] + y);
        lemma_same_tail(seq![']'], x, y);
    }
}

proof fn lemma_field_prefix(
    a: (Seq<char>, JsonTree),
    b: (Seq<char>, JsonTree),
    x: Seq<char>,
    y: Seq<char>,
)
    requires
        well_formed(a.1),
        well_formed(b.1),
        ends_value(x),
        ends_value(y),
        field_text(a) + x == field_text(b) + y,
    ensures
        a == b,
        x == y,
    decreases a,
{
    let after = seq![':'] + (tree_text(a.1) + x);
    let other = seq![':'] + (tree_text(b.1) + y);
    assert(field_text(a) + x =~= json::quoted(a.0) + after);
    assert(field_text(b) + y =~= json::quoted(b.0) + other);
    lemma_quoted_prefix(a.0, b.0, after, other);
    lemma_same_tail(seq![':'], tree_text(a.1) + x, tree_text(b.1) + y);
    lemma_tree_prefix(a.1, b.1, x, y);
}

proof fn lemma_record_prefix(
    a: Seq<(Seq<char>, JsonTree)>,
    b: Seq<(Seq<char>, JsonTree)>,
    x: Seq<char>,
    y: Seq<char>,
)
    requires
        fields_well_formed(a),
        fields_well_formed(b),
        seq!['{'] + fields_text(a) + seq!['}'] + x == seq!['{'] + fields_text(b) + seq!['}'] + y,
    ensures
        a == b,
        x == y,
    decreases a,
{
    let left = fields_text(a) + seq!['}'] + x;
    let right = fields_text(b) + seq!['}'] + y;
    assert(seq!['{'] + fields_text(a) + seq!['}'] + x =~= seq!['{'] + left);
    assert(seq!['{'] + fields_text(b) + seq!['}'] + y =~= seq!['{'] + right);
    lemma_same_tail(seq!['{'], left, right);
    if a.len() > 0 {
        lemma_fields_from_front(a);
        assert(left[0] == '"');
    } else {
        assert(left[0] == '}');
    }
    if b.len() > 0 {
        lemma_fields_from_front(b);
        assert(right[0] == '"');
    } else {
        assert(right[0] == '}');
    }
    if a.len() > 0 && b.len() > 0 {
        let after = field_chain(a.drop_first()) + seq!['}'] + x;
        let other = field_chain(b.drop_first()) + seq!['}'] + y;
        assert(left =~= field_text(a[0]) + after);
        assert(right =~= field_text(b[0]) + other);
        assert(ends_value(after) && ends_value(other));
        lemma_field_prefix(a[0], b[0], after, other);
        lemma_field_chain_prefix(a.drop_first(), b.drop_first(), x, y);
        assert(a =~= seq![a[0]] + a.drop_first());
        assert(b =~= seq![b[0]] + b.drop_first());
    } else {
        assert(a =~= b);
        assert(left =~= seq!['}'] + x);
        assert(right =~= seq!['}'] + y);
        lemma_same_tail(seq!['}'], x, y);
    }
}

proof fn lemma_field_chain_prefix(
    a: Seq<(Seq<char>, JsonTree)>,
    b: Seq<(Seq<char>, JsonTree)>,
    x: Seq<char>,
    y: Seq<char>,
)
    requires
        fields_well_formed(a),
        fields_well_formed(b),
        field_chain(a) + seq!['}'] + x == field_chain(b) + seq!['}'] + y,
    ensures
        a == b,
        x == y,
    decreases a,
{
    let left = field_chain(a) + seq!['}'] + x;
    let right = field_chain(b) + seq!['}'] + y;
    assert(left[0] == (if a.len() > 0 {
        ','
    } else {
        '}'
    }));
    assert(right[0] == (if b.len() > 0 {
        ','
    } else {
        '}'
    }));
    if a.len() > 0 {
        let after = field_chain(a.drop_first()) + seq!['}'] + x;
        let other = field_chain(b.drop_first()) + seq!['}'] + y;
        assert(left =~= seq![','] + (field_text(a[0]) + after));
        assert(right =~= seq![','] + (field_text(b[0]) + other));
        lemma_same_tail(seq![','], field_text(a[0]) + after, field_text(b[0]) + other);
        assert(ends_value(after) && ends_value(other));
        lemma_field_prefix(a[0], b[0], after, other);
        lemma_field_chain_prefix(a.drop_first(), b.drop_first(), x, y);
        assert(a =~= seq![a[0]] + a.drop_first());
        assert(b =~= seq![b[0]] + b.drop_first());
    } else {
        assert(a =~= b);
        assert(left =~= seq!['}'] + x);
        assert(right =~= seq!['}'] + y);
        lemma_same_tail(seq!['}'], x, y);
    }
}

/// Two documents with the same text are the same document.
pub proof fn law_text_determines_document(a: JsonTree, b: JsonTree)
    requires
        well_formed(a),
        well_formed(b),
        tree_text(a) == tree_text(b),
    ensures
        a == b,
{
    assert(tree_text(a) + Seq::empty() =~= tree_text(b) + Seq::empty());
    lemma_tree_prefix(a, b, Seq::empty(), Seq::empty());
}


/// The numeral of an integer is a numeral, and integers with the same one are the
/// same.
pub proof fn lemma_numbers(a: int, b: int)
    ensures
        well_formed(number_tree(a)),
        number_tree(a) == number_tree(b) ==> a == b,
{
    let magnitude: nat = if a < 0 {
        (-a) as nat
    } else {
        a as nat
    };
    text::lemma_decimal_digits(magnitude);
    let s = text::signed_decimal(a);
    assert forall|i: int| 0 <= i < s.len() implies numeral_char(#[trigger] s[i]) by {
        if a < 0 {
            if i > 0 {
                assert(s[i] == text::decimal(magnitude)[i - 1]);
            }
        }
    }
    if number_tree(a) == number_tree(b) {
        text::lemma_signed_decimal_injective(a, b);
    }
}

/// A record is well formed where each of its fields is.
pub proof fn lemma_fields_well_formed(fields: Seq<(Seq<char>, JsonTree)>)
    requires
        forall|i: int| 0 <= i < fields.len() ==> well_formed((#[trigger] fields[i]).1),
    ensures
        fields_well_formed(fields),
    decreases fields.len(),
{
    if fields.len() > 0 {
        let rest = fields.drop_first();
        assert forall|i: int| 0 <= i < rest.len() implies well_formed((#[trigger] rest[i]).1) by {
            assert(rest[i] == fields[i + 1]);
        }
        lemma_fields_well_formed(rest);
    }
}

/// A list is well formed where each of its items is.
pub proof fn lemma_items_well_formed(items: Seq<JsonTree>)
    requires
        forall|i: int| 0 <= i < items.len() ==> well_formed(#[trigger] items[i]),
    ensures
        items_well_formed(items),
    decreases items.len(),
{
    if items.len() > 0 {
        let rest = items.drop_first();
        assert forall|i: int| 0 <= i < rest.len() implies well_formed(#[trigger] rest[i]) by {
            assert(rest[i] == items[i + 1]);
        }
        lemma_items_well_formed(rest);
    }
}

/// Lists of texts are well formed, and those with the same tree are the same.
pub proof fn lemma_texts(a: Seq<Seq<char>>, b: Seq<Seq<char>>)
    ensures
        well_formed(texts_tree(a)),
        texts_tree(a) == texts_tree(b) ==> a == b,
{
    let left = a.map_values(|s: Seq<char>| JsonTree::Text(s));
    let right = b.map_values(|s: Seq<char>| JsonTree::Text(s));
    lemma_items_well_formed(left);
    if texts_tree(a) == texts_tree(b) {
        assert(left == right);
        assert(a.len() == left.len() && b.len() == right.len());
        assert forall|i: int| 0 <= i < a.len() implies a[i] == b[i] by {
            assert(left[i] == JsonTree::Text(a[i]));
            assert(right[i] == JsonTree::Text(b[i]));
        }
        assert(a =~= b);
    }
}

/// Texts and numbers that may be absent are well formed.
pub proof fn lemma_optional(a: Option<int>, b: Option<int>)
    ensures
        well_formed(opt_number_tree(a)),
        opt_number_tree(a) == opt_number_tree(b) ==> a == b,
{
    if a is Some && b is Some {
        lemma_numbers(a->0, b->0);
    }
    if a is Some {
        lemma_numbers(a->0, a->0);
    }
}


// ---------------------------------------------------------------------------
// The order of fields does not matter
// ---------------------------------------------------------------------------

proof fn lemma_with_field_commutes(
    fields: Seq<(Seq<char>, JsonTree)>,
    a: (Seq<char>, JsonTree),
    b: (Seq<char>, JsonTree),
)
    requires
        text::text_lt(a.0, b.0),
    ensures
        with_field(with_field(fields, a), b) == with_field(with_field(fields, b), a),
    decreases fields.len(),
{
    lemma_text_order(a.0, b.0);
    let first = with_field(fields, a);
    let second = with_field(fields, b);
    if fields.len() == 0 {
        assert(second.drop_last() =~= fields);
        assert(first.push(b) =~= with_field(second, a));
    } else {
        let last = fields.last();
        let shorter = fields.drop_last();
        if text::text_lt(b.0, last.0) {
            text::lemma_text_lt_transitive(a.0, b.0, last.0);
            lemma_with_field_commutes(shorter, a, b);
            assert(first.drop_last() =~= with_field(shorter, a));
            assert(second.drop_last() =~= with_field(shorter, b));
        } else {
            assert(second == fields.push(b));
            assert(second.drop_last() =~= fields);
            assert(with_field(second, a) == with_field(fields, a).push(b));
            if text::text_lt(a.0, last.0) {
                assert(first.last() == last);
            } else {
                assert(first.last() == a);
            }
            assert(with_field(first, b) == first.push(b));
        }
    }
}

proof fn lemma_text_order(a: Seq<char>, b: Seq<char>)
    requires
        text::text_lt(a, b),
    ensures
        !text::text_lt(b, a),
{
    if text::text_lt(b, a) {
        text::lemma_text_lt_transitive(a, b, a);
        text::lemma_text_lt_irreflexive(a);
    }
}

/// Two neighbouring fields of a record may change places without a change of its
/// canonical form, so the order in which fields are given does not matter.
pub proof fn law_field_order_is_irrelevant(
    before: Seq<(Seq<char>, JsonTree)>,
    a: (Seq<char>, JsonTree),
    b: (Seq<char>, JsonTree),
    behind: Seq<(Seq<char>, JsonTree)>,
)
    requires
        a.0 != b.0,
    ensures
        canonical(JsonTree::Record(before + seq![a, b] + behind)) == canonical(
            JsonTree::Record(before + seq![b, a] + behind),
        ),
{
    lemma_fields_swap(before, a, b, behind);
}

proof fn lemma_fields_swap(
    before: Seq<(Seq<char>, JsonTree)>,
    a: (Seq<char>, JsonTree),
    b: (Seq<char>, JsonTree),
    behind: Seq<(Seq<char>, JsonTree)>,
)
    requires
        a.0 != b.0,
    ensures
        canonical_fields(before + seq![a, b] + behind) == canonical_fields(
            before + seq![b, a] + behind,
        ),
    decreases behind.len(),
{
    let left = before + seq![a, b] + behind;
    let right = before + seq![b, a] + behind;
    if behind.len() == 0 {
        let x = (a.0, canonical(a.1));
        let y = (b.0, canonical(b.1));
        assert(left.drop_last() =~= before.push(a));
        assert(before.push(a).drop_last() =~= before);
        assert(right.drop_last() =~= before.push(b));
        assert(before.push(b).drop_last() =~= before);
        assert(left.last() == b && right.last() == a);
        let earlier = canonical_fields(before);
        assert(canonical_fields(before.push(a)) == with_field(earlier, x));
        assert(canonical_fields(before.push(b)) == with_field(earlier, y));
        text::lemma_text_lt_total(a.0, b.0);
        if text::text_lt(a.0, b.0) {
            lemma_with_field_commutes(earlier, x, y);
        } else {
            lemma_with_field_commutes(earlier, y, x);
        }
    } else {
        lemma_fields_swap(before, a, b, behind.drop_last());
        assert(left.drop_last() =~= before + seq![a, b] + behind.drop_last());
        assert(right.drop_last() =~= before + seq![b, a] + behind.drop_last());
        assert(left.last() == behind.last() && right.last() == behind.last());
    }
}

} // verus!
