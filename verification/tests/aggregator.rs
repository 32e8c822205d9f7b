//! The hit aggregator: submission, merging, flushing, and its failure
//! tolerance.

use clipstash::hit_counter::{
    flush_hits, worker_step, HitCounter, HitMsg, RecvOutcome, WorkerAction,
};
use clipstash::store::{MemoryStore, StoreError, StoredClip};
use clipstash::tally::Tally;
use clipstash::field::Time;
use clipstash::ShortCode;

fn plain_row(code: &str) -> StoredClip {
    StoredClip {
        shortcode: ShortCode::from_raw(code),
        content: "some content".to_string(),
        title: None,
        posted: Time::from_seconds(0),
        expires: None,
        password: None,
        hits: 0,
    }
}

fn hits_of(store: &MemoryStore, code: &str) -> u64 {
    store.get(&ShortCode::from_raw(code)).expect("clip must exist").hits
}

#[test]
fn hits_for_one_clip_accumulate() {
    let mut tally = Tally::new();
    let id = ShortCode::from_raw("abcd123456");
    tally.add(&id, 1);
    tally.add(&id, 2);
    tally.add(&id, 3);
    assert_eq!(tally.get(&id), Some(6));
    assert_eq!(tally.get(&ShortCode::from_raw("other00000")), None);
}

#[test]
fn merge_order_does_not_matter() {
    let a = ShortCode::from_raw("aaaa111111");
    let b = ShortCode::from_raw("bbbb222222");

    let mut one = Tally::new();
    one.add(&a, 5);
    one.add(&b, 2);
    one.add(&a, 7);

    let mut two = Tally::new();
    two.add(&b, 2);
    two.add(&a, 7);
    two.add(&a, 5);

    assert_eq!(one.get(&a), two.get(&a));
    assert_eq!(one.get(&b), two.get(&b));
    assert_eq!(one.get(&a), Some(12));
    assert_eq!(one.get(&b), Some(2));
}

#[test]
fn drain_leaves_nothing_behind() {
    let mut tally = Tally::new();
    let a = ShortCode::from_raw("aaaa111111");
    tally.add(&a, 4);
    assert!(!tally.is_empty());
    let snapshot = tally.drain();
    assert_eq!(snapshot.len(), 1);
    assert!(tally.is_empty());
    assert_eq!(tally.get(&a), None);
}

#[test]
fn flush_persists_summed_hits() {
    // Submit Hit("abcd123456", 1) three times, then force a flush.
    let (counter, mut worker) = HitCounter::new();
    for _ in 0..3 {
        counter.hit(ShortCode::from_raw("abcd123456"), 1);
    }
    for _ in 0..3 {
        assert!(matches!(worker.poll(), WorkerAction::Continue));
    }
    assert_eq!(worker.pending_count(&ShortCode::from_raw("abcd123456")), Some(3));

    worker.request_flush();
    let snapshot = match worker.poll() {
        WorkerAction::RunFlush(snapshot) => snapshot,
        _ => panic!("a flush was queued"),
    };
    assert_eq!(worker.pending_count(&ShortCode::from_raw("abcd123456")), None);

    let mut store = MemoryStore::new();
    store.save_clip(plain_row("abcd123456")).unwrap();
    let applied = flush_hits(&mut store, &snapshot);
    assert_eq!(applied, 1);
    assert_eq!(hits_of(&store, "abcd123456"), 3);
    assert_eq!(store.txs_begun(), 1);
    assert_eq!(store.txs_committed(), 1);
}

#[test]
fn two_callers_are_never_lost_or_double_counted() {
    // Hit("AAAA000001", 5) and Hit("BBBB000002", 2) from two callers.
    let (counter, mut worker) = HitCounter::new();
    let first_caller = &counter;
    let second_caller = &counter;
    first_caller.hit(ShortCode::from_raw("AAAA000001"), 5);
    second_caller.hit(ShortCode::from_raw("BBBB000002"), 2);
    assert!(matches!(worker.poll(), WorkerAction::Continue));
    assert!(matches!(worker.poll(), WorkerAction::Continue));

    // The pre-flush tally holds exactly the submitted sums.
    assert_eq!(worker.pending_count(&ShortCode::from_raw("AAAA000001")), Some(5));
    assert_eq!(worker.pending_count(&ShortCode::from_raw("BBBB000002")), Some(2));

    worker.request_flush();
    let snapshot = match worker.poll() {
        WorkerAction::RunFlush(snapshot) => snapshot,
        _ => panic!("a flush was queued"),
    };
    let mut store = MemoryStore::new();
    store.save_clip(plain_row("AAAA000001")).unwrap();
    store.save_clip(plain_row("BBBB000002")).unwrap();
    flush_hits(&mut store, &snapshot);
    assert_eq!(hits_of(&store, "AAAA000001"), 5);
    assert_eq!(hits_of(&store, "BBBB000002"), 2);
}

#[test]
fn submitting_after_worker_is_gone_is_silent() {
    // Close the consuming side, then submit: the call returns, nothing
    // panics, and no flush can follow.
    let (counter, worker) = HitCounter::new();
    drop(worker);
    counter.hit(ShortCode::from_raw("abcd123456"), 1);
}

#[test]
fn disconnected_channel_stops_the_worker() {
    let mut tally = Tally::new();
    tally.add(&ShortCode::from_raw("aaaa111111"), 9);
    let action = worker_step(&mut tally, RecvOutcome::Disconnected);
    assert!(matches!(action, WorkerAction::Stop));
    // Unflushed hits stay pending; nothing drained them.
    assert_eq!(tally.get(&ShortCode::from_raw("aaaa111111")), Some(9));
}

#[test]
fn empty_queue_asks_for_the_idle_wait() {
    let mut tally = Tally::new();
    let action = worker_step(&mut tally, RecvOutcome::Empty);
    assert!(matches!(action, WorkerAction::IdleWait));
}

#[test]
fn flush_on_empty_tally_performs_no_transaction() {
    let mut tally = Tally::new();
    let action = worker_step(&mut tally, RecvOutcome::Msg(HitMsg::Flush));
    assert!(matches!(action, WorkerAction::Continue));

    let mut store = MemoryStore::new();
    store.save_clip(plain_row("abcd123456")).unwrap();
    let empty: Vec<(ShortCode, u64)> = Vec::new();
    let applied = flush_hits(&mut store, &empty);
    assert_eq!(applied, 0);
    assert_eq!(store.txs_begun(), 0);
    assert_eq!(store.txs_committed(), 0);
    assert_eq!(hits_of(&store, "abcd123456"), 0);
}

#[test]
fn failed_entry_is_skipped_but_the_rest_commit() {
    // One entry's increment fails (its clip is missing); the other's is
    // still committed.
    let mut tally = Tally::new();
    tally.add(&ShortCode::from_raw("exists0000"), 4);
    tally.add(&ShortCode::from_raw("missing000"), 9);
    let snapshot = tally.drain();

    let mut store = MemoryStore::new();
    store.save_clip(plain_row("exists0000")).unwrap();
    let applied = flush_hits(&mut store, &snapshot);
    assert_eq!(applied, 1);
    assert_eq!(hits_of(&store, "exists0000"), 4);
    assert_eq!(store.txs_begun(), 1);
    assert_eq!(store.txs_committed(), 1);
}

#[test]
fn entries_arriving_after_the_snapshot_remain() {
    let (counter, mut worker) = HitCounter::new();
    counter.hit(ShortCode::from_raw("aaaa111111"), 1);
    assert!(matches!(worker.poll(), WorkerAction::Continue));
    worker.request_flush();
    counter.hit(ShortCode::from_raw("bbbb222222"), 2);

    // The flush trigger was queued before the second hit, so the
    // snapshot holds only the first clip.
    let snapshot = match worker.poll() {
        WorkerAction::RunFlush(snapshot) => snapshot,
        _ => panic!("a flush was queued"),
    };
    assert_eq!(snapshot.len(), 1);
    assert_eq!(worker.pending_count(&ShortCode::from_raw("aaaa111111")), None);

    assert!(matches!(worker.poll(), WorkerAction::Continue));
    assert_eq!(worker.pending_count(&ShortCode::from_raw("bbbb222222")), Some(2));
}

#[test]
fn counts_saturate_instead_of_wrapping() {
    let mut tally = Tally::new();
    let id = ShortCode::from_raw("aaaa111111");
    tally.add(&id, u32::MAX);
    tally.add(&id, u32::MAX);
    assert_eq!(tally.get(&id), Some(u32::MAX as u64 * 2));

    let mut store = MemoryStore::new();
    let mut row = plain_row("aaaa111111");
    row.hits = u64::MAX - 1;
    store.save_clip(row).unwrap();
    let snapshot = tally.drain();
    flush_hits(&mut store, &snapshot);
    assert_eq!(hits_of(&store, "aaaa111111"), u64::MAX);
}

#[test]
fn increment_on_missing_clip_reports_it() {
    let mut store = MemoryStore::new();
    let tx = store.begin_transaction();
    let r = store.increment_hit_count(&ShortCode::from_raw("none000000"), 1, &tx);
    assert_eq!(r, Err(StoreError::MissingClip));
    store.commit(tx);
    assert_eq!(store.txs_begun(), 1);
    assert_eq!(store.txs_committed(), 1);
}
