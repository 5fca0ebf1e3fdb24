use workspace_atlas::digest::hash_of_text;
use workspace_atlas::json_tree::{canonical_hash, canonical_value, value_text, JsonValue};

fn text(s: &str) -> JsonValue {
    JsonValue::Text(s.to_string())
}

fn record(fields: Vec<(&str, JsonValue)>) -> JsonValue {
    JsonValue::Object(
        fields
            .into_iter()
            .map(|(name, value)| (name.to_string(), value))
            .collect(),
    )
}

fn sample() -> JsonValue {
    record(vec![
        ("zeta", JsonValue::Array(vec![])),
        ("alpha", text("tab\t quote\" slash\\ bell\u{7} \u{1f} é 字")),
        (
            "beta",
            JsonValue::Array(vec![
                JsonValue::Null,
                JsonValue::Bool(true),
                JsonValue::Bool(false),
                JsonValue::Number("-12".to_string()),
                record(vec![("b", text("")), ("a", JsonValue::Number("0.5".to_string()))]),
            ]),
        ),
        ("", record(vec![])),
    ])
}

#[test]
fn values_are_written_compactly_in_their_order() {
    assert_eq!(
        value_text(&sample()),
        "{\"zeta\":[],\"alpha\":\"tab\\t quote\\\" slash\\\\ bell\\u0007 \\u001f é 字\",\
         \"beta\":[null,true,false,-12,{\"b\":\"\",\"a\":0.5}],\"\":{}}"
    );
}

#[test]
fn the_canonical_form_orders_the_fields_of_each_record() {
    let canonical = value_text(&canonical_value(&sample()));
    assert_eq!(
        canonical,
        "{\"\":{},\"alpha\":\"tab\\t quote\\\" slash\\\\ bell\\u0007 \\u001f é 字\",\
         \"beta\":[null,true,false,-12,{\"a\":0.5,\"b\":\"\"}],\"zeta\":[]}"
    );
    // A parser that keeps its keys in order writes the same text.
    let parsed: serde_json::Value = serde_json::from_str(&value_text(&sample())).unwrap();
    assert_eq!(serde_json::to_string(&parsed).unwrap(), canonical);
    assert_eq!(canonical_hash(&sample()), hash_of_text(&canonical));
}

#[test]
fn the_order_of_fields_does_not_matter() {
    let one = record(vec![("a", JsonValue::Null), ("b", text("x")), ("c", text("y"))]);
    let other = record(vec![("c", text("y")), ("a", JsonValue::Null), ("b", text("x"))]);
    assert_ne!(value_text(&one), value_text(&other));
    assert_eq!(canonical_hash(&one), canonical_hash(&other));
    let changed = record(vec![("c", text("x")), ("a", JsonValue::Null), ("b", text("y"))]);
    assert_ne!(canonical_hash(&one), canonical_hash(&changed));
}

#[test]
fn a_copy_is_written_the_same() {
    assert_eq!(value_text(&sample().clone()), value_text(&sample()));
}
