use michel_core::host_api::{init_index, new_document_for_index, search_in_index};
use michel_core::memory::text_contains;
use michel_core::{
    Document, Field, HostApiError, HostValue, Index, MemoryPersistence, MichelPersistence,
    PersistedDocument, PersistenceError, Value,
};

fn s(x: &str) -> String {
    x.to_string()
}

fn idx(name: &str) -> Index {
    Index { name: s(name) }
}

fn doc(id: &str, title: &str) -> PersistedDocument {
    let mut p = PersistedDocument::new();
    p.insert(s("id"), HostValue::Text(s(id)));
    p.insert(s("title"), HostValue::Text(s(title)));
    p
}

#[test]
fn notes_scenario() {
    let mut port = MemoryPersistence::new();
    assert_eq!(port.init_index(s("notes")), Ok(()));
    assert_eq!(port.add_document(idx("notes"), doc("1", "Hello")), Ok(()));
    let found = port.search_document(idx("notes"), s("Hello"), Some(10)).unwrap();
    assert_eq!(found.len(), 1);
    assert_eq!(found[0].get(&s("id")), Some(&HostValue::Text(s("1"))));
    assert_eq!(port.init_index(s("notes")), Err(PersistenceError::AlreadyExists));
    assert!(matches!(
        port.search_document(idx("missing"), s("Hello"), Some(10)),
        Err(PersistenceError::NotFound)
    ));
}

#[test]
fn add_to_uninitialized_index_is_not_found_and_writes_nothing() {
    let mut port = MemoryPersistence::new();
    assert_eq!(port.add_document(idx("ghost"), doc("1", "Hello")), Err(PersistenceError::NotFound));
    assert_eq!(port.init_index(s("ghost")), Ok(()));
    let found = port.search_document(idx("ghost"), s(""), None).unwrap();
    assert_eq!(found.len(), 0);
}

#[test]
fn second_init_leaves_first_index_untouched() {
    let mut port = MemoryPersistence::new();
    port.init_index(s("notes")).unwrap();
    port.add_document(idx("notes"), doc("1", "Hello")).unwrap();
    assert_eq!(port.init_index(s("notes")), Err(PersistenceError::AlreadyExists));
    let found = port.search_document(idx("notes"), s(""), None).unwrap();
    assert_eq!(found.len(), 1);
}

#[test]
fn add_documents_adds_all_or_fails_when_missing() {
    let mut port = MemoryPersistence::new();
    assert_eq!(
        port.add_documents(idx("a"), vec![doc("1", "x")]),
        Err(PersistenceError::NotFound)
    );
    port.init_index(s("a")).unwrap();
    port.add_documents(idx("a"), vec![doc("1", "one"), doc("2", "two"), doc("3", "three")]).unwrap();
    let found = port.search_document(idx("a"), s(""), None).unwrap();
    assert_eq!(found.len(), 3);
    assert_eq!(found[2].get(&s("id")), Some(&HostValue::Text(s("3"))));
}

#[test]
fn search_respects_limit_and_index() {
    let mut port = MemoryPersistence::new();
    port.init_index(s("a")).unwrap();
    port.init_index(s("b")).unwrap();
    port.add_document(idx("a"), doc("1", "red apple")).unwrap();
    port.add_document(idx("b"), doc("2", "red car")).unwrap();
    port.add_document(idx("a"), doc("3", "green apple")).unwrap();
    port.add_document(idx("a"), doc("4", "red wine")).unwrap();
    let red = port.search_document(idx("a"), s("red"), None).unwrap();
    assert_eq!(red.len(), 2);
    assert_eq!(red[0].get(&s("id")), Some(&HostValue::Text(s("1"))));
    assert_eq!(red[1].get(&s("id")), Some(&HostValue::Text(s("4"))));
    let one = port.search_document(idx("a"), s("apple"), Some(1)).unwrap();
    assert_eq!(one.len(), 1);
    assert_eq!(one[0].get(&s("id")), Some(&HostValue::Text(s("1"))));
    let none = port.search_document(idx("a"), s("apple"), Some(0)).unwrap();
    assert_eq!(none.len(), 0);
}

#[test]
fn substring_search_handles_multibyte_text() {
    assert!(text_contains(&s("crème brûlée"), &s("brû")));
    assert!(!text_contains(&s("crème"), &s("creme")));
    assert!(text_contains(&s("abc"), &s("")));
    assert!(!text_contains(&s("ab"), &s("abc")));
    assert!(text_contains(&s("abc"), &s("abc")));
}

#[test]
fn host_api_round_trip_through_port() {
    let mut port = MemoryPersistence::new();
    assert_eq!(init_index(&mut port, s("notes")), Ok(()));
    let d = Document {
        identifier: s("1"),
        fields: vec![Field { name: s("title"), value: Value::Text(s("Hello")) }],
    };
    assert_eq!(new_document_for_index(&mut port, s("notes"), &d), Ok(()));
    let found = search_in_index(&port, s("notes"), s("Hello")).unwrap();
    assert_eq!(found, vec![d]);
}

#[test]
fn host_api_surfaces_port_errors() {
    let mut port = MemoryPersistence::new();
    let d = Document { identifier: s("1"), fields: vec![] };
    assert_eq!(
        new_document_for_index(&mut port, s("nope"), &d),
        Err(HostApiError::Persistence(PersistenceError::NotFound))
    );
    assert_eq!(
        search_in_index(&port, s("nope"), s("x")),
        Err(HostApiError::Persistence(PersistenceError::NotFound))
    );
    init_index(&mut port, s("notes")).unwrap();
    assert_eq!(
        init_index(&mut port, s("notes")),
        Err(HostApiError::Persistence(PersistenceError::AlreadyExists))
    );
}

#[test]
fn host_api_reports_unconvertible_results() {
    let mut port = MemoryPersistence::new();
    port.init_index(s("notes")).unwrap();
    let mut bad = PersistedDocument::new();
    bad.insert(s("title"), HostValue::Text(s("Hello")));
    port.add_document(idx("notes"), bad).unwrap();
    assert_eq!(
        search_in_index(&port, s("notes"), s("Hello")),
        Err(HostApiError::Conversion(michel_core::BridgeError::MissingIdentifier))
    );
}
