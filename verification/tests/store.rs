//! The store against a real sled tree: registry semantics, progress merging,
//! migration, and the fail-open handling of the batch key.

use rocketlaunch_bot::db::Store;
use rocketlaunch_bot::types::RLError;

fn progress_for(store: &Store, chat_id: i64) -> Option<Vec<(u64, i64)>> {
    let rows = store.iter().expect("iter failed");
    for (c, pairs) in rows {
        if c == chat_id {
            let mut sorted = pairs.clone();
            sorted.sort();
            return Some(sorted);
        }
    }
    None
}

#[test]
fn subscribe_creates_empty_progress() {
    let mut store = Store::open_temporary("/tmp/rlbot_test_sub_empty").unwrap();
    store.subscribe(11).unwrap();
    assert_eq!(progress_for(&store, 11), Some(vec![]));
    assert_eq!(store.subscribers_count().unwrap(), 1);
}

#[test]
fn subscribe_twice_keeps_progress() {
    let mut store = Store::open_temporary("/tmp/rlbot_test_sub_idem").unwrap();
    store.subscribe(5).unwrap();
    store.record_notification(5, 7, 100).unwrap();
    store.subscribe(5).unwrap();
    assert_eq!(progress_for(&store, 5), Some(vec![(7, 100)]));
    assert_eq!(store.subscribers_count().unwrap(), 1);
}

#[test]
fn unsubscribe_removes_everything() {
    let mut store = Store::open_temporary("/tmp/rlbot_test_unsub").unwrap();
    store.subscribe(5).unwrap();
    store.record_notification(5, 7, 100).unwrap();
    store.unsubscribe(5).unwrap();
    assert_eq!(progress_for(&store, 5), None);
    assert_eq!(store.subscribers_count().unwrap(), 0);
}

#[test]
fn unsubscribe_absent_is_noop() {
    let mut store = Store::open_temporary("/tmp/rlbot_test_unsub_absent").unwrap();
    store.subscribe(1).unwrap();
    let before = store.subscribers_count().unwrap();
    let r = store.unsubscribe(42);
    assert!(r.is_ok());
    assert_eq!(store.subscribers_count().unwrap(), before);
}

#[test]
fn record_notification_unions_events() {
    let mut store = Store::open_temporary("/tmp/rlbot_test_union").unwrap();
    store.subscribe(9).unwrap();
    store.record_notification(9, 1, 300).unwrap();
    store.record_notification(9, 2, 400).unwrap();
    assert_eq!(progress_for(&store, 9), Some(vec![(1, 300), (2, 400)]));
}

#[test]
fn record_notification_overwrites_same_event() {
    let mut store = Store::open_temporary("/tmp/rlbot_test_overwrite").unwrap();
    store.subscribe(9).unwrap();
    store.record_notification(9, 1, 86340).unwrap();
    store.record_notification(9, 1, 3500).unwrap();
    assert_eq!(progress_for(&store, 9), Some(vec![(1, 3500)]));
}

#[test]
fn record_notification_without_subscribe_creates_record() {
    let mut store = Store::open_temporary("/tmp/rlbot_test_rec_fresh").unwrap();
    store.record_notification(3, 8, 50).unwrap();
    assert_eq!(progress_for(&store, 3), Some(vec![(8, 50)]));
}

#[test]
fn migrate_moves_and_unions() {
    let mut store = Store::open_temporary("/tmp/rlbot_test_migrate").unwrap();
    store.record_notification(10, 1, 100).unwrap();
    store.record_notification(10, 2, 50).unwrap();
    store.record_notification(20, 3, 10).unwrap();
    let moved = store.replace_chat_id(10, 20).unwrap();
    assert!(moved);
    assert_eq!(progress_for(&store, 10), None);
    assert_eq!(progress_for(&store, 20), Some(vec![(1, 100), (2, 50), (3, 10)]));
    assert_eq!(store.subscribers_count().unwrap(), 1);
}

#[test]
fn migrate_into_fresh_chat() {
    let mut store = Store::open_temporary("/tmp/rlbot_test_migrate_fresh").unwrap();
    store.record_notification(10, 1, 100).unwrap();
    let moved = store.replace_chat_id(10, 30).unwrap();
    assert!(moved);
    assert_eq!(progress_for(&store, 10), None);
    assert_eq!(progress_for(&store, 30), Some(vec![(1, 100)]));
}

#[test]
fn migrate_absent_source_is_noop() {
    let mut store = Store::open_temporary("/tmp/rlbot_test_migrate_absent").unwrap();
    store.subscribe(1).unwrap();
    let moved = store.replace_chat_id(99, 1).unwrap();
    assert!(!moved);
    assert_eq!(progress_for(&store, 1), Some(vec![]));
    assert_eq!(store.subscribers_count().unwrap(), 1);
}

#[test]
fn batch_roundtrip_and_registry_untouched() {
    let mut store = Store::open_temporary("/tmp/rlbot_test_batch").unwrap();
    store.subscribe(4).unwrap();
    assert_eq!(store.get_launches().unwrap(), None);
    store.set_launches(&vec![1u8, 2, 3]).unwrap();
    assert_eq!(store.get_launches().unwrap(), Some(vec![1u8, 2, 3]));
    store.set_launches(&vec![9u8]).unwrap();
    assert_eq!(store.get_launches().unwrap(), Some(vec![9u8]));
    // The reserved batch key is no subscriber record and is never listed.
    assert_eq!(store.subscribers_count().unwrap(), 1);
    assert_eq!(progress_for(&store, 4), Some(vec![]));
}

#[test]
fn open_failure_is_storage_error() {
    let r = Store::open("/dev/null/not_a_directory");
    assert!(matches!(r, Err(RLError::Storage)));
}

#[test]
fn persisted_bytes_survive_reopen() {
    // The same path, two handles in turn: what one wrote, the next reads.
    let path = "/tmp/rlbot_test_reopen";
    {
        let mut store = Store::open(path).unwrap();
        store.record_notification(77, 5, 123).unwrap();
    }
    {
        let mut store = Store::open(path).unwrap();
        assert_eq!(progress_for(&store, 77), Some(vec![(5, 123)]));
        // Leave nothing behind for the next run.
        store.unsubscribe(77).unwrap();
        assert_eq!(store.subscribers_count().unwrap(), 0);
    }
}
