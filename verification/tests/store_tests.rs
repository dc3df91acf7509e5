//! The bottle record store: creation, lookup, update, removal, listing.

use silicon_alloy::name::BottleName;
use silicon_alloy::runtime::WineRuntime;
use silicon_alloy::store::BottleStore;
use silicon_alloy::AlloyError;

fn test_runtime() -> WineRuntime {
    WineRuntime {
        label: "wine x86_64 7.0".to_string(),
        wine64_path: "/runtimes/wine-x86_64-7.0/bin/wine64".to_string(),
        version: "7.0".to_string(),
        channel: Some("rossetta".to_string()),
    }
}

#[test]
fn create_then_record_round_trips() {
    let mut store = BottleStore::with_root("/data/bottles".to_string());
    let record = store.create("Alpha", test_runtime()).unwrap();
    assert_eq!(record.name, "alpha");
    assert!(record.environment.is_empty());
    let looked_up = store.record(record.id.as_str()).unwrap();
    assert_eq!(looked_up.id, record.id);
    assert_eq!(looked_up.name, "alpha");
    assert_eq!(looked_up.wine_runtime.version, "7.0");
    assert_eq!(looked_up.wine_runtime.label, "wine x86_64 7.0");
    assert!(looked_up.environment.is_empty());
}

#[test]
fn remove_then_record_fails_not_found() {
    let mut store = BottleStore::with_root("/data/bottles".to_string());
    let record = store.create("Beta", test_runtime()).unwrap();
    store.remove(record.id.as_str()).unwrap();
    let err = store.record(record.id.as_str()).unwrap_err();
    assert!(matches!(err, AlloyError::NotFound(_)));
}

#[test]
fn remove_missing_fails_not_found() {
    let mut store = BottleStore::with_root("/data/bottles".to_string());
    let err = store.remove("no-such-bottle").unwrap_err();
    assert!(matches!(err, AlloyError::NotFound(_)));
}

#[test]
fn record_missing_fails_not_found() {
    let store = BottleStore::with_root("/data/bottles".to_string());
    let err = store.record("missing").unwrap_err();
    assert!(matches!(err, AlloyError::NotFound(_)));
}

#[test]
fn update_missing_never_creates() {
    let mut store = BottleStore::with_root("/data/bottles".to_string());
    let record = store.create("Gamma", test_runtime()).unwrap();
    let id = record.id.clone();
    store.remove(id.as_str()).unwrap();
    let err = store.update_record(id.as_str(), &record).unwrap_err();
    assert!(matches!(err, AlloyError::NotFound(_)));
    assert!(store.record(id.as_str()).is_err());
}

#[test]
fn update_overwrites_in_place() {
    let mut store = BottleStore::with_root("/data/bottles".to_string());
    let mut record = store.create("Delta", test_runtime()).unwrap();
    record.environment.push(("WINEESYNC".to_string(), "1".to_string()));
    store.update_record(record.id.as_str(), &record).unwrap();
    let looked_up = store.record(record.id.as_str()).unwrap();
    assert_eq!(looked_up.environment, vec![("WINEESYNC".to_string(), "1".to_string())]);
}

#[test]
fn list_sorts_by_name() {
    let mut store = BottleStore::with_root("/data/bottles".to_string());
    store.create("zeta", test_runtime()).unwrap();
    store.create("alpha", test_runtime()).unwrap();
    store.create("midway", test_runtime()).unwrap();
    let listed = store.list();
    let names: Vec<&str> = listed.iter().map(|b| b.name.as_str()).collect();
    assert_eq!(names, vec!["alpha", "midway", "zeta"]);
}

#[test]
fn bottle_prefix_is_pure_path_computation() {
    let store = BottleStore::with_root("/data/bottles".to_string());
    assert_eq!(store.bottle_prefix("abc-123"), "/data/bottles/abc-123/prefix");
}

#[test]
fn create_stores_the_name_as_a_slug() {
    let mut store = BottleStore::with_root("/data/bottles".to_string());
    let record = store.create("My Fancy App 2", test_runtime()).unwrap();
    assert_eq!(record.name, "my-fancy-app-2");
    let looked_up = store.record(record.id.as_str()).unwrap();
    assert_eq!(looked_up.name, "my-fancy-app-2");
}

#[test]
fn create_rejects_a_name_with_no_usable_characters() {
    let mut store = BottleStore::with_root("/data/bottles".to_string());
    let err = store.create("!!!", test_runtime()).unwrap_err();
    assert!(matches!(err, AlloyError::InvalidInput(_)));
    assert!(store.list().is_empty());
}

#[test]
fn end_to_end_create_list_delete() {
    let name = "My Game".parse::<BottleName>().unwrap();
    assert_eq!(name.as_str(), "my-game");
    let mut store = BottleStore::with_root("/data/bottles".to_string());
    let record = store.create("My Game", test_runtime()).unwrap();
    assert_eq!(record.name, "my-game");
    let listed = store.list();
    assert_eq!(listed.len(), 1);
    assert_eq!(listed[0].name, "my-game");
    store.remove(record.id.as_str()).unwrap();
    assert!(store.list().is_empty());
}
