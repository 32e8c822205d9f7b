//! The periodic expiry sweep.

use clipstash::field::Time;
use clipstash::maintenance::Maintenance;
use clipstash::store::{MemoryStore, StoredClip};
use clipstash::ShortCode;

fn expiring_row(code: &str, expires: Option<u64>) -> StoredClip {
    StoredClip {
        shortcode: ShortCode::from_raw(code),
        content: "body".to_string(),
        title: None,
        posted: Time::from_seconds(0),
        expires: expires.map(Time::from_seconds),
        password: None,
        hits: 0,
    }
}

#[test]
fn sweep_boundary_is_inclusive() {
    // Clips expiring at t-1, t and t+1 relative to a sweep at t: exactly
    // the first two go, the third stays.
    let t: u64 = 100;
    let mut store = MemoryStore::new();
    store.save_clip(expiring_row("before0000", Some(t - 1))).unwrap();
    store.save_clip(expiring_row("attime0000", Some(t))).unwrap();
    store.save_clip(expiring_row("after00000", Some(t + 1))).unwrap();

    let removed = Maintenance::sweep(&mut store, t);
    assert_eq!(removed, 2);
    assert_eq!(store.len(), 1);
    assert!(store.get(&ShortCode::from_raw("before0000")).is_none());
    assert!(store.get(&ShortCode::from_raw("attime0000")).is_none());
    assert!(store.get(&ShortCode::from_raw("after00000")).is_some());
}

#[test]
fn sweep_spares_clips_without_expiry() {
    let mut store = MemoryStore::new();
    store.save_clip(expiring_row("forever000", None)).unwrap();
    store.save_clip(expiring_row("doomed0000", Some(5))).unwrap();
    let removed = Maintenance::sweep(&mut store, u64::MAX);
    assert_eq!(removed, 1);
    assert!(store.get(&ShortCode::from_raw("forever000")).is_some());
}

#[test]
fn sweep_of_nothing_removes_nothing() {
    let mut store = MemoryStore::new();
    assert_eq!(Maintenance::sweep(&mut store, 10), 0);
    assert_eq!(store.len(), 0);
}

#[test]
fn sweep_leaves_hit_tallies_and_transactions_alone() {
    let mut store = MemoryStore::new();
    let mut row = expiring_row("stays00000", Some(1000));
    row.hits = 42;
    store.save_clip(row).unwrap();
    store.save_clip(expiring_row("goes000000", Some(1))).unwrap();

    let removed = Maintenance::sweep(&mut store, 500);
    assert_eq!(removed, 1);
    assert_eq!(store.get(&ShortCode::from_raw("stays00000")).unwrap().hits, 42);
    assert_eq!(store.txs_begun(), 0);
    assert_eq!(store.txs_committed(), 0);
}

#[test]
fn repeated_sweeps_are_idempotent() {
    let mut store = MemoryStore::new();
    store.save_clip(expiring_row("gone000000", Some(3))).unwrap();
    assert_eq!(Maintenance::sweep(&mut store, 10), 1);
    assert_eq!(Maintenance::sweep(&mut store, 10), 0);
    assert_eq!(store.len(), 0);
}
