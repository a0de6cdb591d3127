use michel_core::document::{to_guest, to_host};
use michel_core::host_api::hi;
use michel_core::value::{value_from_host, value_to_host};
use michel_core::{BridgeError, ConversionError, Document, Field, HostValue, PersistedDocument, Value};

fn s(x: &str) -> String {
    x.to_string()
}

fn persisted(entries: Vec<(&str, HostValue)>) -> PersistedDocument {
    let mut p = PersistedDocument::new();
    for (k, v) in entries {
        p.insert(s(k), v);
    }
    p
}

#[test]
fn value_to_host_maps_each_variant() {
    assert_eq!(value_to_host(Value::Text(s("a"))), HostValue::Text(s("a")));
    assert_eq!(value_to_host(Value::Datetime(s("2023-01-01"))), HostValue::Text(s("2023-01-01")));
    assert_eq!(value_to_host(Value::Number(7)), HostValue::Unsigned(7));
    assert_eq!(value_to_host(Value::Boolean(true)), HostValue::Bool(true));
}

#[test]
fn value_from_host_accepts_representable_values() {
    assert_eq!(value_from_host(&HostValue::Bool(false)), Ok(Value::Boolean(false)));
    assert_eq!(value_from_host(&HostValue::Unsigned(4294967295)), Ok(Value::Number(u32::MAX)));
    assert_eq!(value_from_host(&HostValue::Text(s("x"))), Ok(Value::Text(s("x"))));
}

#[test]
fn value_from_host_rejects_the_rest() {
    assert_eq!(value_from_host(&HostValue::Unsigned(4294967296)), Err(ConversionError::NumberOutOfRange));
    assert_eq!(value_from_host(&HostValue::Negative(-1)), Err(ConversionError::NotAnUnsignedNumber));
    assert_eq!(value_from_host(&HostValue::Fractional), Err(ConversionError::NotAnUnsignedNumber));
    assert_eq!(value_from_host(&HostValue::Null), Err(ConversionError::UnsupportedType));
    assert_eq!(value_from_host(&HostValue::Array), Err(ConversionError::UnsupportedType));
    assert_eq!(value_from_host(&HostValue::Object), Err(ConversionError::UnsupportedType));
}

#[test]
fn to_host_puts_identifier_under_id() {
    let doc = Document {
        identifier: s("1"),
        fields: vec![
            Field { name: s("title"), value: Value::Text(s("Hello")) },
            Field { name: s("count"), value: Value::Number(3) },
        ],
    };
    let p = to_host(&doc);
    assert_eq!(p.len(), 3);
    assert_eq!(p.get(&s("id")), Some(&HostValue::Text(s("1"))));
    assert_eq!(p.get(&s("title")), Some(&HostValue::Text(s("Hello"))));
    assert_eq!(p.get(&s("count")), Some(&HostValue::Unsigned(3)));
}

#[test]
fn to_host_later_field_overrides_earlier() {
    let doc = Document {
        identifier: s("1"),
        fields: vec![
            Field { name: s("a"), value: Value::Number(1) },
            Field { name: s("a"), value: Value::Number(2) },
        ],
    };
    let p = to_host(&doc);
    assert_eq!(p.len(), 2);
    assert_eq!(p.get(&s("a")), Some(&HostValue::Unsigned(2)));
}

#[test]
fn to_guest_reads_identifier_and_fields_in_order() {
    let p = persisted(vec![
        ("title", HostValue::Text(s("Hello"))),
        ("id", HostValue::Text(s("1"))),
        ("done", HostValue::Bool(true)),
    ]);
    let d = to_guest(&p).unwrap();
    assert_eq!(d.identifier, s("1"));
    assert_eq!(
        d.fields,
        vec![
            Field { name: s("title"), value: Value::Text(s("Hello")) },
            Field { name: s("done"), value: Value::Boolean(true) },
        ]
    );
}

#[test]
fn to_guest_drops_fields_that_do_not_convert() {
    let p = persisted(vec![
        ("id", HostValue::Text(s("9"))),
        ("score", HostValue::Fractional),
        ("tags", HostValue::Array),
        ("n", HostValue::Unsigned(5)),
    ]);
    let d = to_guest(&p).unwrap();
    assert_eq!(d.fields, vec![Field { name: s("n"), value: Value::Number(5) }]);
}

#[test]
fn to_guest_without_identifier_fails() {
    let p = persisted(vec![("title", HostValue::Text(s("x")))]);
    assert_eq!(to_guest(&p), Err(BridgeError::MissingIdentifier));
}

#[test]
fn to_guest_with_non_text_identifier_fails() {
    let p = persisted(vec![("id", HostValue::Unsigned(1))]);
    assert_eq!(to_guest(&p), Err(BridgeError::IdentifierNotText));
}

#[test]
fn persisted_round_trip_keeps_every_pair() {
    let p = persisted(vec![
        ("id", HostValue::Text(s("42"))),
        ("title", HostValue::Text(s("Hello"))),
        ("count", HostValue::Unsigned(10)),
        ("flag", HostValue::Bool(false)),
    ]);
    let back = to_host(&to_guest(&p).unwrap());
    assert_eq!(back.len(), p.len());
    for (k, v) in p.entries() {
        assert_eq!(back.get(k), Some(v));
    }
}

#[test]
fn guest_round_trip_keeps_identifier_and_fields() {
    let doc = Document {
        identifier: s("7"),
        fields: vec![
            Field { name: s("title"), value: Value::Text(s("t")) },
            Field { name: s("n"), value: Value::Number(1) },
        ],
    };
    let back = to_guest(&to_host(&doc)).unwrap();
    assert_eq!(back, doc);
}

#[test]
fn datetime_comes_back_as_text() {
    let doc = Document {
        identifier: s("7"),
        fields: vec![Field { name: s("at"), value: Value::Datetime(s("2024-05-01T00:00:00Z")) }],
    };
    let back = to_guest(&to_host(&doc)).unwrap();
    assert_eq!(back.fields, vec![Field { name: s("at"), value: Value::Text(s("2024-05-01T00:00:00Z")) }]);
}

#[test]
fn handshake_answers_yo() {
    assert_eq!(hi(s("anyone")), s("yo"));
}
