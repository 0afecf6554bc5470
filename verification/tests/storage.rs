use lumen::browser::storage::{
    file_for, parse_map, serialize_map, slug, WebStorage, MAX_STORAGE_BYTES,
};
use lumen::browser::string_map::StringMap;

fn map(pairs: &[(&str, &str)]) -> StringMap {
    let mut map = StringMap::new();
    for (key, value) in pairs {
        map.insert(key.to_string(), value.to_string());
    }
    map
}

fn pairs(map: &StringMap) -> Vec<(String, String)> {
    (0..map.len()).map(|i| (map.key(i).unwrap().clone(), map.value(i).unwrap().clone())).collect()
}

#[test]
fn serialize_round_trips_arbitrary_strings() {
    let map = map(&[
        ("plain", "değer"),
        ("quo\"te", "sla\\sh"),
        ("new\nline", "tab\there"),
        ("", ""),
    ]);
    let text = serialize_map(&map);
    assert_eq!(pairs(&parse_map(&text).unwrap()), pairs(&map));
}

#[test]
fn corrupt_files_are_rejected() {
    assert!(parse_map("not json").is_err());
    assert!(parse_map(r#"{"a": 1}"#).is_err());
    assert!(parse_map(r#"{"a": "b""#).is_err());
    assert!(parse_map(r#"{"a": "b"} trailing"#).is_err());
    assert_eq!(pairs(&parse_map("{}").unwrap()), Vec::new());
}

#[test]
fn save_then_load_persists_across_instances() {
    let origin = "https://a.test";
    let mut first = WebStorage::new(false);
    first.set_root();
    let file = first.save(origin, &map(&[("k", "v")])).expect("a file to write");

    let mut second = WebStorage::new(false);
    second.set_root();
    assert!(second.needs_file(origin));
    assert_eq!(second.load(origin, Some(&file)).get("k"), Some(&"v".to_string()));
    // The second read is served from memory.
    assert!(!second.needs_file(origin));
}

#[test]
fn origins_map_to_distinct_safe_files() {
    assert_eq!(slug("https://a.test"), "https___a.test");
    assert_eq!(slug("https://a.test:8443"), "https___a.test_8443");
    assert_eq!(slug("file://"), "file___");
    assert_eq!(file_for("https://a.test"), "https___a.test.json");
}

#[test]
fn oversized_maps_stay_in_memory_only() {
    let origin = "https://big.test";
    let huge = "x".repeat(MAX_STORAGE_BYTES);
    let mut storage = WebStorage::new(false);
    storage.set_root();
    // Nothing is written to disk.
    assert!(storage.save(origin, &map(&[("huge", &huge)])).is_none());
    // In memory the value is there.
    assert_eq!(
        storage.load(origin, None).get("huge").map(String::len),
        Some(MAX_STORAGE_BYTES)
    );
}
