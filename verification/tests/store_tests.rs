use glyphos::store::{GlyphRecord, GlyphStore};
use serde_json::Value;

fn record(id: &str, content: &str, metadata: Value, commit_id: Option<&str>) -> GlyphRecord {
    GlyphRecord {
        id: id.to_string(),
        content: content.to_string(),
        metadata,
        commit_id: commit_id.map(|c| c.to_string()),
    }
}

fn meta(text: &str) -> Value {
    let mut map = serde_json::Map::new();
    map.insert("note".to_string(), Value::String(text.to_string()));
    Value::Object(map)
}

#[test]
fn round_trip_create_then_query() {
    let mut store = GlyphStore::new();
    let metadata = meta("m");
    let (id, commit_id) = store.create("x".to_string(), metadata.clone());
    let found = store.get(&id).expect("created record must be retrievable");
    assert_eq!(found.id, id);
    assert_eq!(found.content, "x");
    assert_eq!(found.metadata, metadata);
    assert_eq!(found.commit_id, Some(commit_id));
}

#[test]
fn scenario_a_query_of_unknown_identifier_is_not_found() {
    let mut store = GlyphStore::new();
    let (id, _) = store.create("a".to_string(), Value::Null);
    let found = store.get(&id).expect("created record must be retrievable");
    assert_eq!(found.content, "a");
    assert!(store.get(&"bogus".to_string()).is_none());
}

#[test]
fn empty_store_finds_nothing() {
    let store = GlyphStore::new();
    assert!(store.get(&String::new()).is_none());
    assert!(store.get(&"anything".to_string()).is_none());
}

#[test]
fn colliding_identifier_silently_overwrites() {
    let mut store = GlyphStore::new();
    store.put(record("k", "old", Value::Null, None));
    store.put(record("k", "new", meta("fresh"), Some("commit_1")));
    let found = store.get(&"k".to_string()).expect("record must be present");
    assert_eq!(found.content, "new");
    assert_eq!(found.metadata, meta("fresh"));
    assert_eq!(found.commit_id, Some("commit_1".to_string()));
}

#[test]
fn puts_on_disjoint_identifiers_are_independent() {
    let mut store = GlyphStore::new();
    store.put(record("a", "first", Value::Null, None));
    store.put(record("b", "second", Value::Null, None));
    assert_eq!(store.get(&"a".to_string()).unwrap().content, "first");
    assert_eq!(store.get(&"b".to_string()).unwrap().content, "second");

    let mut reversed = GlyphStore::new();
    reversed.put(record("b", "second", Value::Null, None));
    reversed.put(record("a", "first", Value::Null, None));
    assert_eq!(reversed.get(&"a".to_string()).unwrap().content, "first");
    assert_eq!(reversed.get(&"b".to_string()).unwrap().content, "second");
}

#[test]
fn create_at_mints_identifier_and_marker_from_timestamp() {
    let mut store = GlyphStore::new();
    let (id, commit_id) = store.create_at("c".to_string(), Value::Null, 1);
    let mut expected_id = "0".repeat(63);
    expected_id.push('1');
    assert_eq!(id, expected_id);
    assert_eq!(commit_id, "commit_0000000000000001");
    let found = store.get(&id).expect("record must be present");
    assert_eq!(found.content, "c");
}

#[test]
fn metadata_comes_back_equal_not_shared() {
    // The stored record is a copy: mutating the original value afterwards
    // must not change what the store returns.
    let mut store = GlyphStore::new();
    let mut metadata = meta("before");
    let (id, _) = store.create("x".to_string(), metadata.clone());
    if let Value::Object(map) = &mut metadata {
        map.insert("note".to_string(), Value::String("after".to_string()));
    }
    let found = store.get(&id).expect("record must be present");
    assert_eq!(found.metadata, meta("before"));
}
