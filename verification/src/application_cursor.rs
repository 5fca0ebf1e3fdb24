//! Cursors of paged application reads, and digests of the snapshots they page
//! through.
//!
//! A cursor is an opaque token that binds a position to the workspace, catalogue,
//! operation, contract and filter it was made for and to the state of the data at
//! that time. It is a canonical JSON record in hexadecimal, a dot, and a checksum
//! of the record.
use vstd::prelude::*;

use crate::context_route::MAX_APPLICATION_CURSOR_BYTES;
use crate::digest;
use crate::digest::{content_hash_of_bytes, hash_of_text, hex_decode, hex_encode, text_of_bytes};
use crate::error::AtlasError;
use crate::json;
use crate::json::{append_quoted, read_record, write_record};
use crate::json_tree;
use crate::text;
use crate::text::{chars_of, text_eq, text_of_range};

verus! {

pub const APPLICATION_CURSOR_VERSION: &'static str = "application-cursor-v1.0.0";

/// The paged operation that a cursor belongs to.
#[derive(Debug, Clone, Copy, PartialEq, Eq, Structural)]
pub enum ApplicationCursorOperation {
    TaskShow,
    CompiledContextShow,
    ContextYieldShow,
    ServingStatus,
    RetentionStatus,
    RetentionCompactPreview,
    UnregisterPreview,
}

impl ApplicationCursorOperation {
    /// The operation's wire name.
    pub open spec fn name(self) -> Seq<char> {
        match self {
            ApplicationCursorOperation::TaskShow => "task_show"@,
            ApplicationCursorOperation::CompiledContextShow => "compiled_context_show"@,
            ApplicationCursorOperation::ContextYieldShow => "context_yield_show"@,
            ApplicationCursorOperation::ServingStatus => "serving_status"@,
            ApplicationCursorOperation::RetentionStatus => "retention_status"@,
            ApplicationCursorOperation::RetentionCompactPreview => "retention_compact_preview"@,
            ApplicationCursorOperation::UnregisterPreview => "unregister_preview"@,
        }
    }

    pub fn as_str(&self) -> (r: &'static str)
        ensures
            r@ == self.name(),
    {
        match self {
            ApplicationCursorOperation::TaskShow => "task_show",
            ApplicationCursorOperation::CompiledContextShow => "compiled_context_show",
            ApplicationCursorOperation::ContextYieldShow => "context_yield_show",
            ApplicationCursorOperation::ServingStatus => "serving_status",
            ApplicationCursorOperation::RetentionStatus => "retention_status",
            ApplicationCursorOperation::RetentionCompactPreview => "retention_compact_preview",
            ApplicationCursorOperation::UnregisterPreview => "unregister_preview",
        }
    }
}

/// What a paged operation selects.
#[derive(Debug, Clone, Copy)]
pub enum ApplicationCursorFilter<'a> {
    TaskSession { task_session_id: &'a str },
    ServingPolicy { serving_schema_version: &'a str, projection_policy_version: &'a str },
    Retention {},
    Unregister {},
}

impl<'a> ApplicationCursorFilter<'a> {
    /// The filter as canonical JSON.
    pub open spec fn json_text(self) -> Seq<char> {
        match self {
            ApplicationCursorFilter::TaskSession { task_session_id } => {
                "{\"kind\":\"task_session\",\"task_session_id\":"@ + json::quoted(task_session_id@)
                    + "}"@
            },
            ApplicationCursorFilter::ServingPolicy {
                serving_schema_version,
                projection_policy_version,
            } => {
                "{\"kind\":\"serving_policy\",\"projection_policy_version\":"@ + json::quoted(
                    projection_policy_version@,
                ) + ",\"serving_schema_version\":"@ + json::quoted(serving_schema_version@) + "}"@
            },
            ApplicationCursorFilter::Retention {  } => "{\"kind\":\"retention\"}"@,
            ApplicationCursorFilter::Unregister {  } => "{\"kind\":\"unregister\"}"@,
        }
    }
}

/// The digest of a filter.
pub fn application_cursor_filter_hash(filter: &ApplicationCursorFilter<'_>) -> (r: String)
    ensures
        r@ == digest::content_hash(digest::text_field(filter.json_text())),
{
    let mut line = String::new();
    match filter {
        ApplicationCursorFilter::TaskSession { task_session_id } => {
            line.append("{\"kind\":\"task_session\",\"task_session_id\":");
            append_quoted(&mut line, task_session_id);
            line.append("}");
        },
        ApplicationCursorFilter::ServingPolicy {
            serving_schema_version,
            projection_policy_version,
        } => {
            line.append("{\"kind\":\"serving_policy\",\"projection_policy_version\":");
            append_quoted(&mut line, projection_policy_version);
            line.append(",\"serving_schema_version\":");
            append_quoted(&mut line, serving_schema_version);
            line.append("}");
        },
        ApplicationCursorFilter::Retention {  } => {
            line.append("{\"kind\":\"retention\"}");
        },
        ApplicationCursorFilter::Unregister {  } => {
            line.append("{\"kind\":\"unregister\"}");
        },
    }
    assert(line@ =~= filter.json_text());
    hash_of_text(line.as_str())
}

/// What a cursor is bound to.
#[derive(Debug, Clone, Copy)]
pub struct ApplicationCursorBinding<'a> {
    pub workspace_id: &'a str,
    pub operation: ApplicationCursorOperation,
    pub contract_version: &'a str,
    pub filter: ApplicationCursorFilter<'a>,
    pub captured_state: &'a str,
}

/// The workspace that is open and the identity of its catalogue.
#[derive(Debug, Clone, Copy)]
pub struct CursorScope<'a> {
    pub workspace_id: &'a str,
    pub catalogue_identity: &'a str,
}

/// The identity of a catalogue: the file that the connection has open, or the
/// registered path where the connection names none.
pub fn catalogue_identity<'a>(database_path: Option<&'a str>, registered_path: &'a str) -> (r:
    &'a str)
    ensures
        r@ == (match database_path {
            Some(path) => if path@.len() > 0 {
                path@
            } else {
                registered_path@
            },
            None => registered_path@,
        }),
{
    match database_path {
        Some(path) => if !path.is_empty() {
            path
        } else {
            registered_path
        },
        None => registered_path,
    }
}

/// Why a cursor is refused. Storage errors are carried by their message.
#[derive(Debug)]
pub enum ApplicationCursorError {
    Invalid,
    Stale,
    Atlas(AtlasError),
    Sqlite(String),
}

/// What an accepted cursor holds.
#[derive(Debug, Clone, PartialEq, Eq)]
pub struct DecodedApplicationCursor {
    pub captured_state: String,
    pub ordering_key: String,
}

/// The position and the state that an accepted cursor holds.
pub ghost struct CursorContent {
    pub captured_state: Seq<char>,
    pub ordering_key: Seq<char>,
}

/// The labels of the cursor record, in key order.
pub open spec fn cursor_labels() -> Seq<Seq<char>> {
    seq![
        "{\"captured_state\":\""@,
        ",\"catalogue_hash\":\""@,
        ",\"contract_version\":\""@,
        ",\"filter_hash\":\""@,
        ",\"operation\":\""@,
        ",\"ordering_key\":\""@,
        ",\"version\":\""@,
        ",\"workspace_hash\":\""@,
    ]
}

fn labels() -> (r: Vec<&'static str>)
    ensures
        json::label_texts(r@) == cursor_labels(),
{
    let mut out: Vec<&'static str> = Vec::new();
    out.push("{\"captured_state\":\"");
    out.push(",\"catalogue_hash\":\"");
    out.push(",\"contract_version\":\"");
    out.push(",\"filter_hash\":\"");
    out.push(",\"operation\":\"");
    out.push(",\"ordering_key\":\"");
    out.push(",\"version\":\"");
    out.push(",\"workspace_hash\":\"");
    assert(json::label_texts(out@) =~= cursor_labels());
    out
}

/// The values of the cursor record, in key order.
pub open spec fn cursor_values(
    scope: CursorScope<'_>,
    binding: ApplicationCursorBinding<'_>,
    content: CursorContent,
) -> Seq<Seq<char>> {
    seq![
        content.captured_state,
        digest::content_hash(digest::text_field(scope.catalogue_identity@)),
        binding.contract_version@,
        digest::content_hash(digest::text_field(binding.filter.json_text())),
        binding.operation.name(),
        content.ordering_key,
        APPLICATION_CURSOR_VERSION@,
        digest::content_hash(digest::text_field(scope.workspace_id@)),
    ]
}

/// What precedes a record when its checksum is taken.
pub open spec fn checksum_prefix() -> Seq<u8> {
    digest::text_field("workspace-atlas/application-cursor-v1\u{0}"@)
}

/// The checksum of a record.
pub open spec fn cursor_checksum(bytes: Seq<u8>) -> Seq<char> {
    digest::content_hash(checksum_prefix() + bytes)
}

/// The checksum of a record.
pub fn application_cursor_checksum(bytes: &Vec<u8>) -> (r: String)
    ensures
        r@ == cursor_checksum(bytes@),
        text::hex64(r@),
{
    let mut input = digest::bytes_of_text("workspace-atlas/application-cursor-v1\u{0}");
    digest::push_bytes(&mut input, bytes.as_slice());
    content_hash_of_bytes(&input)
}

/// The token of a record: the record in hexadecimal, a dot and its checksum.
pub open spec fn token_of(bytes: Seq<u8>) -> Seq<char> {
    digest::hex_text(bytes) + seq!['.'] + cursor_checksum(bytes)
}

/// The token of a cursor.
pub open spec fn cursor_token(
    scope: CursorScope<'_>,
    binding: ApplicationCursorBinding<'_>,
    content: CursorContent,
) -> Seq<char> {
    token_of(
        digest::text_field(
            json::record_text(cursor_labels(), cursor_values(scope, binding, content)),
        ),
    )
}

/// A text of printable ASCII characters, at least one.
pub open spec fn plain_key(s: Seq<char>) -> bool {
    s.len() > 0 && forall|i: int| 0 <= i < s.len() ==> ' ' <= #[trigger] s[i] && s[i] <= '~'
}

/// Whether a text is printable ASCII and not empty.
pub fn is_plain_key(s: &str) -> (r: bool)
    ensures
        r == plain_key(s@),
{
    let chars = chars_of(s);
    if chars.len() == 0 {
        return false;
    }
    for i in 0..chars.len()
        invariant
            chars@ == s@,
            forall|j: int| 0 <= j < i ==> ' ' <= #[trigger] s@[j] && s@[j] <= '~',
    {
        let c: char = chars[i];
        if !(' ' <= c && c <= '~') {
            assert(!(' ' <= s@[i as int] && s@[i as int] <= '~'));
            return false;
        }
    }
    true
}

/// The cursor can be made: it is for the open workspace, its position is
/// printable ASCII of at most half a token, and its token is not too long.
pub open spec fn encodable(
    scope: CursorScope<'_>,
    binding: ApplicationCursorBinding<'_>,
    ordering_key: Seq<char>,
) -> bool {
    &&& binding.workspace_id@ == scope.workspace_id@
    &&& plain_key(ordering_key)
    &&& digest::text_field(ordering_key).len() <= MAX_APPLICATION_CURSOR_BYTES / 2
    &&& digest::text_field(
        cursor_token(
            scope,
            binding,
            CursorContent { captured_state: binding.captured_state@, ordering_key },
        ),
    ).len() <= MAX_APPLICATION_CURSOR_BYTES
}

fn fields(
    scope: &CursorScope<'_>,
    binding: &ApplicationCursorBinding<'_>,
    ordering_key: &str,
) -> (r: Vec<String>)
    ensures
        text::texts(r@) == cursor_values(
            *scope,
            *binding,
            CursorContent { captured_state: binding.captured_state@, ordering_key: ordering_key@ },
        ),
{
    let mut out: Vec<String> = Vec::new();
    out.push(binding.captured_state.to_string());
    out.push(hash_of_text(scope.catalogue_identity));
    out.push(binding.contract_version.to_string());
    out.push(application_cursor_filter_hash(&binding.filter));
    out.push(binding.operation.as_str().to_string());
    out.push(ordering_key.to_string());
    out.push(APPLICATION_CURSOR_VERSION.to_string());
    out.push(hash_of_text(scope.workspace_id));
    proof {
        let v = cursor_values(
            *scope,
            *binding,
            CursorContent { captured_state: binding.captured_state@, ordering_key: ordering_key@ },
        );
        assert(text::texts(out@) =~= v);
    }
    out
}

/// The token of a cursor at a position.
pub fn encode_application_cursor(
    scope: &CursorScope<'_>,
    binding: &ApplicationCursorBinding<'_>,
    ordering_key: &str,
) -> (r: Result<String, ApplicationCursorError>)
    ensures
        r is Ok <==> encodable(*scope, *binding, ordering_key@),
        r matches Ok(token) ==> token@ == cursor_token(
            *scope,
            *binding,
            CursorContent { captured_state: binding.captured_state@, ordering_key: ordering_key@ },
        ),
        r matches Err(e) ==> e is Invalid,
{
    if !text_eq(binding.workspace_id, scope.workspace_id) || !is_plain_key(ordering_key)
        || ordering_key.as_bytes().len() > MAX_APPLICATION_CURSOR_BYTES / 2 {
        return Err(ApplicationCursorError::Invalid);
    }
    let names = labels();
    let values = fields(scope, binding, ordering_key);
    proof {
        assert(json::label_texts(names@).len() == 8);
        assert(text::texts(values@).len() == 8);
    }
    let record = write_record(&names, &values);
    let bytes = digest::bytes_of_text(record.as_str());
    let mut token = hex_encode(&bytes);
    token.push('.');
    token.append(application_cursor_checksum(&bytes).as_str());
    proof {
        assert(token@ =~= token_of(bytes@));
    }
    if token.as_str().as_bytes().len() > MAX_APPLICATION_CURSOR_BYTES {
        return Err(ApplicationCursorError::Invalid);
    }
    Ok(token)
}

/// The place of the first dot; the text's length where there is none.
pub open spec fn first_dot(s: Seq<char>) -> int
    decreases s.len(),
{
    if s.len() == 0 || s[0] == '.' {
        0
    } else {
        1 + first_dot(s.drop_first())
    }
}

proof fn lemma_first_dot(s: Seq<char>, at: int)
    requires
        0 <= at <= s.len(),
        forall|i: int| 0 <= i < at ==> s[i] != '.',
        at < s.len() ==> s[at] == '.',
    ensures
        first_dot(s) == at,
    decreases s.len(),
{
    if s.len() > 0 && at > 0 {
        lemma_first_dot(s.drop_first(), at - 1);
    }
}

/// The record that a token carries; none where the token is too long, has no dot,
/// or is not the hexadecimal form of a record with its checksum.
pub open spec fn token_bytes(token: Seq<char>) -> Option<Seq<u8>> {
    let at = first_dot(token);
    if digest::text_field(token).len() > MAX_APPLICATION_CURSOR_BYTES || at >= token.len() {
        None
    } else {
        match digest::hex_bytes(token.take(at)) {
            Some(bytes) => if cursor_checksum(bytes) == token.skip(at + 1) {
                Some(bytes)
            } else {
                None
            },
            None => None,
        }
    }
}

/// The values of the cursor record that a token carries.
pub open spec fn token_values(token: Seq<char>) -> Option<Seq<Seq<char>>> {
    match token_bytes(token) {
        Some(bytes) => if vstd::utf8::valid_utf8(bytes) {
            json::parsed_record(vstd::utf8::decode_utf8(bytes), cursor_labels())
        } else {
            None
        },
        None => None,
    }
}

/// What a token holds for a scope and a binding; none where it was made for
/// another workspace, catalogue, operation, contract or filter, or holds no
/// position.
pub open spec fn accepted(
    scope: CursorScope<'_>,
    binding: ApplicationCursorBinding<'_>,
    token: Seq<char>,
) -> Option<CursorContent> {
    match token_values(token) {
        Some(v) => {
            let content = CursorContent { captured_state: v[0], ordering_key: v[5] };
            if binding.workspace_id@ == scope.workspace_id@ && v == cursor_values(
                scope,
                binding,
                content,
            ) && plain_key(content.ordering_key) {
                Some(content)
            } else {
                None
            }
        },
        None => None,
    }
}

fn token_record(token: &str) -> (r: Option<Vec<u8>>)
    ensures
        match token_bytes(token@) {
            Some(bytes) => r matches Some(got) && got@ == bytes,
            None => r is None,
        },
{
    if token.as_bytes().len() > MAX_APPLICATION_CURSOR_BYTES {
        return None;
    }
    let chars = chars_of(token);
    let mut at: usize = 0;
    while at < chars.len() && chars[at] != '.'
        invariant
            chars@ == token@,
            at <= chars@.len(),
            forall|i: int| 0 <= i < at ==> token@[i] != '.',
        ensures
            chars@ == token@,
            at <= chars@.len(),
            forall|i: int| 0 <= i < at ==> token@[i] != '.',
            at < chars@.len() ==> token@[at as int] == '.',
        decreases chars@.len() - at,
    {
        at = at + 1;
    }
    proof {
        lemma_first_dot(token@, at as int);
    }
    if at >= chars.len() {
        return None;
    }
    let encoded = text_of_range(&chars, 0, at);
    let checksum = text_of_range(&chars, at + 1, chars.len());
    proof {
        assert(encoded@ =~= token@.take(at as int));
        assert(checksum@ =~= token@.skip(at + 1));
    }
    match hex_decode(encoded.as_str()) {
        Some(bytes) => if text_eq(application_cursor_checksum(&bytes).as_str(), checksum.as_str()) {
            Some(bytes)
        } else {
            None
        },
        None => None,
    }
}

fn token_fields(token: &str) -> (r: Option<Vec<String>>)
    ensures
        match token_values(token@) {
            Some(v) => r matches Some(got) && text::texts(got@) == v && got@.len() == 8,
            None => r is None,
        },
{
    match token_record(token) {
        Some(bytes) => match text_of_bytes(bytes) {
            Some(record) => {
                let names = labels();
                proof {
                    json::lemma_parsed_record_sound(record@, cursor_labels());
                }
                let got = read_record(&names, record.as_str());
                proof {
                    if got is Some {
                        assert(text::texts(got->0@).len() == 8);
                    }
                }
                got
            },
            None => None,
        },
        None => None,
    }
}

/// What a token holds, whatever state of the data it was made in.
pub fn decode_application_cursor_snapshot(
    scope: &CursorScope<'_>,
    binding: &ApplicationCursorBinding<'_>,
    token: &str,
) -> (r: Result<DecodedApplicationCursor, ApplicationCursorError>)
    ensures
        match accepted(*scope, *binding, token@) {
            Some(content) => r matches Ok(got) && got.captured_state@ == content.captured_state
                && got.ordering_key@ == content.ordering_key,
            None => r matches Err(e) && e is Invalid,
        },
{
    let values = match token_fields(token) {
        Some(values) => values,
        None => return Err(ApplicationCursorError::Invalid),
    };
    let ghost v = text::texts(values@);
    let ordering_key = values[5].clone();
    let captured_state = values[0].clone();
    let expected_binding = ApplicationCursorBinding {
        captured_state: captured_state.as_str(),
        ..*binding
    };
    let expected = fields(scope, &expected_binding, ordering_key.as_str());
    proof {
        assert(v[0] == values@[0]@);
        assert(v[5] == values@[5]@);
    }
    if !text_eq(binding.workspace_id, scope.workspace_id) || !text::texts_eq(&values, &expected)
        || !is_plain_key(ordering_key.as_str()) {
        return Err(ApplicationCursorError::Invalid);
    }
    Ok(DecodedApplicationCursor { captured_state, ordering_key })
}

/// The position that a token holds for data in the state that the binding
/// captures.
pub fn decode_application_cursor(
    scope: &CursorScope<'_>,
    binding: &ApplicationCursorBinding<'_>,
    token: &str,
) -> (r: Result<String, ApplicationCursorError>)
    ensures
        match accepted(*scope, *binding, token@) {
            Some(content) => if content.captured_state == binding.captured_state@ {
                r matches Ok(key) && key@ == content.ordering_key
            } else {
                r matches Err(e) && e is Stale
            },
            None => r matches Err(e) && e is Invalid,
        },
{
    match decode_application_cursor_snapshot(scope, binding, token) {
        Ok(cursor) => if text_eq(cursor.captured_state.as_str(), binding.captured_state) {
            Ok(cursor.ordering_key)
        } else {
            Err(ApplicationCursorError::Stale)
        },
        Err(problem) => Err(problem),
    }
}

proof fn lemma_hex_text_has_no_dot(data: Seq<u8>, i: int)
    requires
        0 <= i < digest::hex_text(data).len(),
    ensures
        digest::hex_text(data)[i] != '.',
{
    let d = if i % 2 == 0 {
        data[i / 2] as int / 16
    } else {
        data[i / 2] as int % 16
    };
    assert(0 <= d < 16);
    assert(digest::hex_text(data)[i] == digest::hex_digit(d));
}

/// A token carries the record that it was made from.
pub proof fn law_token_round_trip(bytes: Seq<u8>)
    requires
        digest::text_field(token_of(bytes)).len() <= MAX_APPLICATION_CURSOR_BYTES,
    ensures
        token_bytes(token_of(bytes)) == Some(bytes),
{
    let token = token_of(bytes);
    let n = digest::hex_text(bytes).len() as int;
    assert forall|i: int| 0 <= i < n implies token[i] != '.' by {
        lemma_hex_text_has_no_dot(bytes, i);
        assert(token[i] == digest::hex_text(bytes)[i]);
    }
    assert(token[n] == '.');
    lemma_first_dot(token, n);
    assert(token.take(n) =~= digest::hex_text(bytes));
    assert(token.skip(n + 1) =~= cursor_checksum(bytes));
    digest::law_hex_round_trip(bytes);
}

/// A cursor that could be made is accepted for what it was made for and gives back
/// the position and the state that it was made with.
pub proof fn law_cursor_round_trip(
    scope: CursorScope<'_>,
    binding: ApplicationCursorBinding<'_>,
    ordering_key: Seq<char>,
)
    requires
        encodable(scope, binding, ordering_key),
    ensures
        ({
            let content = CursorContent { captured_state: binding.captured_state@, ordering_key };
            accepted(scope, binding, cursor_token(scope, binding, content)) == Some(content)
        }),
{
    let content = CursorContent { captured_state: binding.captured_state@, ordering_key };
    let values = cursor_values(scope, binding, content);
    let record = json::record_text(cursor_labels(), values);
    let bytes = digest::text_field(record);
    law_token_round_trip(bytes);
    vstd::utf8::encode_utf8_valid_utf8(record);
    vstd::utf8::encode_utf8_decode_utf8(record);
    json::law_record_round_trip(cursor_labels(), values);
    assert(values[0] == content.captured_state);
    assert(values[5] == content.ordering_key);
}

/// Whatever token is accepted, it was made for the operation and the contract of
/// the binding and for an open workspace and catalogue and a filter with the same
/// digests, and its position is printable.
pub proof fn law_accepted_cursors_are_bound(
    scope: CursorScope<'_>,
    binding: ApplicationCursorBinding<'_>,
    other_scope: CursorScope<'_>,
    other: ApplicationCursorBinding<'_>,
    ordering_key: Seq<char>,
)
    requires
        encodable(other_scope, other, ordering_key),
        accepted(
            scope,
            binding,
            cursor_token(
                other_scope,
                other,
                CursorContent { captured_state: other.captured_state@, ordering_key },
            ),
        ) is Some,
    ensures
        binding.operation.name() == other.operation.name(),
        binding.contract_version@ == other.contract_version@,
        digest::content_hash(digest::text_field(scope.workspace_id@)) == digest::content_hash(
            digest::text_field(other_scope.workspace_id@),
        ),
        digest::content_hash(digest::text_field(scope.catalogue_identity@))
            == digest::content_hash(digest::text_field(other_scope.catalogue_identity@)),
        digest::content_hash(digest::text_field(binding.filter.json_text()))
            == digest::content_hash(digest::text_field(other.filter.json_text())),
{
    let content = CursorContent { captured_state: other.captured_state@, ordering_key };
    let made = cursor_values(other_scope, other, content);
    let record = json::record_text(cursor_labels(), made);
    law_token_round_trip(digest::text_field(record));
    vstd::utf8::encode_utf8_valid_utf8(record);
    vstd::utf8::encode_utf8_decode_utf8(record);
    json::law_record_round_trip(cursor_labels(), made);
    let read = cursor_values(
        scope,
        binding,
        CursorContent { captured_state: made[0], ordering_key: made[5] },
    );
    assert(made == read);
    assert(made[1] == read[1] && made[2] == read[2] && made[3] == read[3] && made[4] == read[4]
        && made[7] == read[7]);
}

impl ApplicationCursorOperation {
    /// Operations have different names.
    proof fn lemma_names_differ(self, other: Self)
        requires
            self.name() == other.name(),
        ensures
            self == other,
    {
        reveal_strlit("task_show");
        reveal_strlit("compiled_context_show");
        reveal_strlit("context_yield_show");
        reveal_strlit("serving_status");
        reveal_strlit("retention_status");
        reveal_strlit("retention_compact_preview");
        reveal_strlit("unregister_preview");
        assert("context_yield_show"@[0] == 'c' && "unregister_preview"@[0] == 'u');
        assert("task_show"@.len() == 9 && "compiled_context_show"@.len() == 21
            && "context_yield_show"@.len() == 18 && "serving_status"@.len() == 14
            && "retention_status"@.len() == 16 && "retention_compact_preview"@.len() == 25
            && "unregister_preview"@.len() == 18);
    }
}

/// A cursor is refused under another workspace, operation or contract, or under a
/// filter with another digest. Under the same binding in another state of the data it
/// is accepted with the state that it was made in, which tells that it is stale.
pub proof fn law_changed_bindings_are_refused(
    scope: CursorScope<'_>,
    made: ApplicationCursorBinding<'_>,
    read: ApplicationCursorBinding<'_>,
    ordering_key: Seq<char>,
)
    requires
        encodable(scope, made, ordering_key),
    ensures
        ({
            let content = CursorContent { captured_state: made.captured_state@, ordering_key };
            let token = cursor_token(scope, made, content);
            let same_filter = digest::content_hash(digest::text_field(read.filter.json_text()))
                == digest::content_hash(digest::text_field(made.filter.json_text()));
            &&& read.workspace_id@ == made.workspace_id@ && read.operation == made.operation
                && read.contract_version@ == made.contract_version@ && same_filter ==> accepted(
                scope,
                read,
                token,
            ) == Some(content)
            &&& read.workspace_id@ != made.workspace_id@ || read.operation != made.operation
                || read.contract_version@ != made.contract_version@ || !same_filter ==> accepted(
                scope,
                read,
                token,
            ) is None
        }),
{
    let content = CursorContent { captured_state: made.captured_state@, ordering_key };
    let token = cursor_token(scope, made, content);
    law_cursor_round_trip(scope, made, ordering_key);
    let written = cursor_values(scope, made, content);
    assert(cursor_values(scope, read, content).len() == 8);
    if accepted(scope, read, token) is Some {
        law_accepted_cursors_are_bound(scope, read, scope, made, ordering_key);
        read.operation.lemma_names_differ(made.operation);
    }
    if read.operation == made.operation && read.contract_version@ == made.contract_version@
        && digest::content_hash(digest::text_field(read.filter.json_text()))
        == digest::content_hash(digest::text_field(made.filter.json_text())) {
        assert(cursor_values(scope, read, content) =~= written);
    }
}

/// A token that is too long, has no dot, or whose checksum is not that of its record
/// is refused for every binding.
pub proof fn law_damaged_tokens_are_refused(
    scope: CursorScope<'_>,
    binding: ApplicationCursorBinding<'_>,
    token: Seq<char>,
    bytes: Seq<u8>,
    checksum: Seq<char>,
)
    ensures
        digest::text_field(token).len() > MAX_APPLICATION_CURSOR_BYTES ==> accepted(
            scope,
            binding,
            token,
        ) is None,
        !token.contains('.') ==> accepted(scope, binding, token) is None,
        checksum != cursor_checksum(bytes) ==> accepted(
            scope,
            binding,
            digest::hex_text(bytes) + seq!['.'] + checksum,
        ) is None,
{
    if !token.contains('.') {
        assert forall|i: int| 0 <= i < token.len() implies token[i] != '.' by {
            assert(token.contains(token[i]));
        }
        lemma_first_dot(token, token.len() as int);
    }
    let damaged = digest::hex_text(bytes) + seq!['.'] + checksum;
    let n = digest::hex_text(bytes).len() as int;
    assert forall|i: int| 0 <= i < n implies damaged[i] != '.' by {
        lemma_hex_text_has_no_dot(bytes, i);
        assert(damaged[i] == digest::hex_text(bytes)[i]);
    }
    assert(damaged[n] == '.');
    lemma_first_dot(damaged, n);
    assert(damaged.take(n) =~= digest::hex_text(bytes));
    assert(damaged.skip(n + 1) =~= checksum);
    digest::law_hex_round_trip(bytes);
}

/// The two filters select the same.
pub open spec fn same_filter(a: ApplicationCursorFilter<'_>, b: ApplicationCursorFilter<'_>) -> bool {
    match (a, b) {
        (
            ApplicationCursorFilter::TaskSession { task_session_id: x },
            ApplicationCursorFilter::TaskSession { task_session_id: y },
        ) => x@ == y@,
        (
            ApplicationCursorFilter::ServingPolicy {
                serving_schema_version: x,
                projection_policy_version: p,
            },
            ApplicationCursorFilter::ServingPolicy {
                serving_schema_version: y,
                projection_policy_version: q,
            },
        ) => x@ == y@ && p@ == q@,
        (ApplicationCursorFilter::Retention {  }, ApplicationCursorFilter::Retention {  }) => true,
        (ApplicationCursorFilter::Unregister {  }, ApplicationCursorFilter::Unregister {  }) => true,
        _ => false,
    }
}

/// Filters that select differently have different texts under their digests.
pub proof fn law_filters_have_their_own_text(
    a: ApplicationCursorFilter<'_>,
    b: ApplicationCursorFilter<'_>,
)
    ensures
        a.json_text() == b.json_text() <==> same_filter(a, b),
{
    reveal_strlit("{\"kind\":\"task_session\",\"task_session_id\":");
    reveal_strlit("{\"kind\":\"serving_policy\",\"projection_policy_version\":");
    reveal_strlit("{\"kind\":\"retention\"}");
    reveal_strlit("{\"kind\":\"unregister\"}");
    if a.json_text() == b.json_text() {
        assert(a.json_text()[9] == b.json_text()[9]);
        match (a, b) {
            (
                ApplicationCursorFilter::TaskSession { task_session_id: x },
                ApplicationCursorFilter::TaskSession { task_session_id: y },
            ) => {
                let head = "{\"kind\":\"task_session\",\"task_session_id\":"@;
                let (s, t) = (json::quoted(x@) + "}"@, json::quoted(y@) + "}"@);
                assert(a.json_text() =~= head + s && b.json_text() =~= head + t);
                json_tree::lemma_same_tail(head, s, t);
                json_tree::lemma_quoted_prefix(x@, y@, "}"@, "}"@);
            },
            (
                ApplicationCursorFilter::ServingPolicy {
                    serving_schema_version: x,
                    projection_policy_version: p,
                },
                ApplicationCursorFilter::ServingPolicy {
                    serving_schema_version: y,
                    projection_policy_version: q,
                },
            ) => {
                let head = "{\"kind\":\"serving_policy\",\"projection_policy_version\":"@;
                let middle = ",\"serving_schema_version\":"@;
                let (u, v) = (json::quoted(x@) + "}"@, json::quoted(y@) + "}"@);
                let (s, t) = (json::quoted(p@) + (middle + u), json::quoted(q@) + (middle + v));
                assert(a.json_text() =~= head + s && b.json_text() =~= head + t);
                json_tree::lemma_same_tail(head, s, t);
                json_tree::lemma_quoted_prefix(p@, q@, middle + u, middle + v);
                json_tree::lemma_same_tail(middle, u, v);
                json_tree::lemma_quoted_prefix(x@, y@, "}"@, "}"@);
            },
            _ => {},
        }
    }
}

/// What precedes the fields of a snapshot when its digest is taken.
pub open spec fn snapshot_prefix() -> Seq<u8> {
    digest::text_field("workspace-atlas/application-snapshot-v1\u{0}"@)
}

/// The digest of a snapshot: its domain and its records in order.
pub open spec fn snapshot_digest(domain: Seq<u8>, records: Seq<Seq<u8>>) -> Seq<char> {
    digest::content_hash(snapshot_prefix() + digest::framed_all(seq![domain] + records))
}

/// Takes the digest of a snapshot record by record.
pub struct ApplicationSnapshotHasher {
    written: Vec<u8>,
    domain: Ghost<Seq<u8>>,
    records: Ghost<Seq<Seq<u8>>>,
}

impl ApplicationSnapshotHasher {
    #[verifier::type_invariant]
    spec fn inv(self) -> bool {
        self.written@ == snapshot_prefix() + digest::framed_all(
            seq![self.domain@] + self.records@,
        )
    }

    /// The kind of snapshot.
    pub closed spec fn domain(self) -> Seq<u8> {
        self.domain@
    }

    /// The records so far.
    pub closed spec fn records(self) -> Seq<Seq<u8>> {
        self.records@
    }

    /// A hasher without records.
    pub fn new(domain: &str) -> (r: Self)
        ensures
            r.domain() == digest::text_field(domain@),
            r.records() == Seq::<Seq<u8>>::empty(),
    {
        let mut written = digest::bytes_of_text("workspace-atlas/application-snapshot-v1\u{0}");
        let bytes = digest::bytes_of_text(domain);
        let ghost fields = seq![bytes@] + Seq::<Seq<u8>>::empty();
        digest::push_be64(&mut written, bytes.len() as u64);
        digest::push_bytes(&mut written, bytes.as_slice());
        proof {
            assert(fields.drop_last() =~= Seq::empty());
            assert(digest::framed_all(fields.drop_last()) =~= Seq::empty());
            assert(digest::framed_all(fields) =~= digest::framed(bytes@));
            assert(written@ =~= snapshot_prefix() + digest::framed_all(fields));
        }
        ApplicationSnapshotHasher {
            written,
            domain: Ghost(bytes@),
            records: Ghost(Seq::empty()),
        }
    }

    /// Adds a record, given as its canonical JSON.
    pub fn record(&mut self, bytes: &Vec<u8>)
        ensures
            final(self).domain() == old(self).domain(),
            final(self).records() == old(self).records().push(bytes@),
    {
        proof {
            use_type_invariant(&*self);
        }
        let mut written: Vec<u8> = Vec::new();
        digest::push_bytes(&mut written, self.written.as_slice());
        digest::push_be64(&mut written, bytes.len() as u64);
        digest::push_bytes(&mut written, bytes.as_slice());
        let ghost before = seq![self.domain@] + self.records@;
        let ghost records = self.records@.push(bytes@);
        proof {
            let after = seq![self.domain@] + records;
            assert(after.drop_last() =~= before);
            assert(after.last() == bytes@);
            assert(written@ =~= snapshot_prefix() + digest::framed_all(after));
        }
        let domain: Ghost<Seq<u8>> = self.domain;
        *self = ApplicationSnapshotHasher { written, domain, records: Ghost(records) };
    }

    /// The digest of the records.
    pub fn finish(self) -> (r: String)
        ensures
            r@ == snapshot_digest(self.domain(), self.records()),
    {
        proof {
            use_type_invariant(&self);
        }
        content_hash_of_bytes(&self.written)
    }
}

} // verus!
