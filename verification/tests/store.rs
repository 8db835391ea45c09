use qrstats::error::Error;
use qrstats::record::Target;
use qrstats::store::{CounterStore, RecordStore};
use qrstats::table::Table;

#[test]
fn table_binds_and_rebinds_keys() {
    let mut table: Table<u32> = Table::new();
    assert_eq!(table.get("a"), None);
    assert!(!table.contains("a"));
    assert!(table.insert_new("a".to_string(), 1));
    assert!(table.insert_new("b".to_string(), 2));
    assert!(!table.insert_new("a".to_string(), 3));
    assert_eq!(table.get("a"), Some(&1));
    assert_eq!(table.get("b"), Some(&2));
    table.set("a".to_string(), 4);
    table.set("c".to_string(), 5);
    assert_eq!(table.get("a"), Some(&4));
    assert_eq!(table.get("b"), Some(&2));
    assert_eq!(table.get("c"), Some(&5));
    assert!(table.contains("c"));
    assert!(!table.contains(""));
}

#[test]
fn record_is_returned_whole() {
    let mut records = RecordStore::new();
    let open = Target { url: "http://example.com".to_string(), pw_hash: None };
    let gated = Target { url: "http://x.com".to_string(), pw_hash: Some("s$00".to_string()) };
    assert_eq!(records.put("a1b2c3d4".to_string(), open.clone()), Ok(()));
    assert_eq!(records.put("deadbeef".to_string(), gated.clone()), Ok(()));
    assert_eq!(records.get("a1b2c3d4"), Some(open));
    assert_eq!(records.get("deadbeef"), Some(gated));
    assert_eq!(records.get("ffffffff"), None);
    assert!(records.contains("deadbeef"));
    assert!(!records.contains("DEADBEEF"));
}

#[test]
fn record_is_never_overwritten() {
    let mut records = RecordStore::new();
    let first = Target { url: "http://first.example".to_string(), pw_hash: None };
    let second = Target { url: "http://second.example".to_string(), pw_hash: None };
    assert_eq!(records.put("a1b2c3d4".to_string(), first.clone()), Ok(()));
    assert_eq!(records.put("a1b2c3d4".to_string(), second), Err(Error::Store));
    assert_eq!(records.get("a1b2c3d4"), Some(first));
}

#[test]
fn counter_starts_at_zero_and_counts_each_increment() {
    let mut counters = CounterStore::new();
    assert_eq!(counters.get("a1b2c3d4"), 0);
    counters.increment("a1b2c3d4");
    assert_eq!(counters.get("a1b2c3d4"), 1);
    for _ in 0..11 {
        counters.increment("a1b2c3d4");
    }
    assert_eq!(counters.get("a1b2c3d4"), 12);
    assert_eq!(counters.get("deadbeef"), 0);
    counters.increment("deadbeef");
    assert_eq!(counters.get("deadbeef"), 1);
    assert_eq!(counters.get("a1b2c3d4"), 12);
}
