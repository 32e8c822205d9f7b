//! The hit-count aggregator: request handlers submit per-clip view counts
//! over a channel, a single worker merges them into a tally, and on an
//! idle-triggered flush the tally is drained as one snapshot and persisted
//! in a single transaction.

use vstd::prelude::*;

use crate::shortcode::ShortCode;
use crate::store::{has_clip, rec_with_hits, ClipRec, MemoryStore};
use crate::tally::{bumped, entries_map, sat_add_u64, unique_keys, Tally};

verus! {

/// What travels over the submission channel: a batch of views for one
/// clip, or the worker's own debounced flush trigger (never sent by
/// outside callers).
pub enum HitMsg {
    Hit(ShortCode, u32),
    Flush,
}

/// What one attempt to receive from the channel produced.
pub enum RecvOutcome {
    /// A message was queued.
    Msg(HitMsg),
    /// The queue is empty but senders remain.
    Empty,
    /// The queue is empty and every sender is gone.
    Disconnected,
}

/// What the worker should do next after handling one receive outcome.
pub enum WorkerAction {
    /// Go straight back to receiving; bursts are drained without delay.
    Continue,
    /// The queue was empty: wait for the idle threshold, queue a `Flush`
    /// to yourself, then resume receiving.
    IdleWait,
    /// Persist this snapshot (the whole tally, drained atomically) in one
    /// transaction, then resume receiving.
    RunFlush(Vec<(ShortCode, u64)>),
    /// The channel is closed for good: leave the loop permanently.
    Stop,
}

/// How one worker step relates the tally before, the receive outcome, the
/// tally after, and the chosen action:
/// - a `Hit` merges into the tally and the loop continues at once;
/// - a `Flush` on a non-empty tally hands the whole tally out as the
///   snapshot and leaves no entry behind;
/// - a `Flush` on an empty tally does nothing (so no transaction is ever
///   opened for it);
/// - an empty queue leaves the tally alone and asks for the idle wait;
/// - a disconnected channel leaves the tally alone and stops the worker.
pub open spec fn step_spec(
    pre: Map<Seq<char>, u64>,
    outcome: RecvOutcome,
    post: Map<Seq<char>, u64>,
    action: WorkerAction,
) -> bool {
    match outcome {
        RecvOutcome::Msg(HitMsg::Hit(id, c)) => post == pre.insert(id@, bumped(pre, id@, c))
            && action is Continue,
        RecvOutcome::Msg(HitMsg::Flush) => if pre == Map::<Seq<char>, u64>::empty() {
            post == pre && action is Continue
        } else {
            (action matches WorkerAction::RunFlush(snap) && unique_keys(snap@) && entries_map(snap@)
                == pre && post == Map::<Seq<char>, u64>::empty())
        },
        RecvOutcome::Empty => post == pre && action is IdleWait,
        RecvOutcome::Disconnected => post == pre && action is Stop,
    }
}

/// The worker's whole decision logic for one receive outcome.
pub fn worker_step(tally: &mut Tally, outcome: RecvOutcome) -> (action: WorkerAction)
    ensures
        step_spec(old(tally)@, outcome, final(tally)@, action),
{
    match outcome {
        RecvOutcome::Msg(HitMsg::Hit(id, c)) => {
            tally.add(&id, c);
            WorkerAction::Continue
        },
        RecvOutcome::Msg(HitMsg::Flush) => {
            if tally.is_empty() {
                WorkerAction::Continue
            } else {
                WorkerAction::RunFlush(tally.drain())
            }
        },
        RecvOutcome::Empty => WorkerAction::IdleWait,
        RecvOutcome::Disconnected => WorkerAction::Stop,
    }
}

/// What a flush adds to the clip with shortcode `id`: its snapshot entry,
/// or nothing when the snapshot has none.
pub open spec fn snapshot_count(snap: Seq<(ShortCode, u64)>, id: Seq<char>) -> u64 {
    if entries_map(snap).contains_key(id) {
        entries_map(snap)[id]
    } else {
        0
    }
}

/// How many snapshot entries find their clip among `recs`.
pub open spec fn present_count(snap: Seq<(ShortCode, u64)>, recs: Seq<ClipRec>) -> int
    decreases snap.len(),
{
    if snap.len() == 0 {
        0
    } else {
        present_count(snap.drop_last(), recs) + (if has_clip(recs, snap.last().0@) {
            1int
        } else {
            0int
        })
    }
}

proof fn lemma_has_clip_same_keys(a: Seq<ClipRec>, b: Seq<ClipRec>, id: Seq<char>)
    requires
        a.len() == b.len(),
        forall|k: int| 0 <= k < a.len() ==> (#[trigger] a[k]).shortcode == b[k].shortcode,
    ensures
        has_clip(a, id) == has_clip(b, id),
{
    if has_clip(a, id) {
        let k = choose|k: int| 0 <= k < a.len() && a[k].shortcode == id;
        assert(b[k].shortcode == id);
    }
    if has_clip(b, id) {
        let k = choose|k: int| 0 <= k < b.len() && b[k].shortcode == id;
        assert(a[k].shortcode == id);
    }
}

/// Persist one snapshot: on a non-empty snapshot, open one transaction,
/// add each entry's count to its clip — an entry whose clip is missing is
/// skipped, the rest still go through — and commit. An empty snapshot
/// touches nothing: no transaction is opened. Returns how many entries
/// found their clip.
pub fn flush_hits(store: &mut MemoryStore, snapshot: &Vec<(ShortCode, u64)>) -> (applied: usize)
    requires
        unique_keys(snapshot@),
    ensures
        final(store)@.len() == old(store)@.len(),
        forall|k: int| 0 <= k < old(store)@.len() ==> final(store)@[k] == rec_with_hits(
            (#[trigger] old(store)@[k]),
            sat_add_u64(old(store)@[k].hits, snapshot_count(snapshot@, old(store)@[k].shortcode)),
        ),
        snapshot@.len() == 0 ==> final(store)@ == old(store)@ && final(store).spec_txs_begun()
            == old(store).spec_txs_begun() && final(store).spec_txs_committed() == old(
            store,
        ).spec_txs_committed(),
        snapshot@.len() > 0 ==> final(store).spec_txs_begun() == sat_add_u64(
            old(store).spec_txs_begun(),
            1,
        ) && final(store).spec_txs_committed() == sat_add_u64(old(store).spec_txs_committed(), 1),
        applied == present_count(snapshot@, old(store)@),
{
    proof {
        use_type_invariant(&*store);
    }
    let ghost s0 = store@;
    let ghost snap = snapshot@;
    if snapshot.len() == 0 {
        proof {
            assert(forall|k: int| 0 <= k < s0.len() ==> (#[trigger] s0[k]) == rec_with_hits(
                s0[k],
                sat_add_u64(s0[k].hits, snapshot_count(snap, s0[k].shortcode)),
            ));
        }
        return 0;
    }
    let tx = store.begin_transaction();
    let mut applied: usize = 0;
    let mut i: usize = 0;
    while i < snapshot.len()
        invariant
            snapshot@ == snap,
            unique_keys(snap),
            crate::store::unique_rec_keys(s0),
            0 <= i <= snap.len(),
            store@.len() == s0.len(),
            forall|k: int| 0 <= k < s0.len() ==> store@[k] == rec_with_hits(
                (#[trigger] s0[k]),
                sat_add_u64(s0[k].hits, snapshot_count(snap.take(i as int), s0[k].shortcode)),
            ),
            store.spec_txs_begun() == sat_add_u64(old(store).spec_txs_begun(), 1),
            store.spec_txs_committed() == old(store).spec_txs_committed(),
            applied == present_count(snap.take(i as int), s0),
            applied <= i,
        decreases snap.len() - i,
    {
        let ghost pre = store@;
        let ghost key = snap[i as int].0@;
        proof {
            // The i-th entry's key is new to the processed prefix, so no
            // row has been bumped for it yet.
            crate::tally::lemma_entries_map_contains(snap.take(i as int), key);
            assert(!entries_map(snap.take(i as int)).contains_key(key));
            assert(snap.take(i as int + 1).drop_last() =~= snap.take(i as int));
            assert(snap.take(i as int + 1).last() == snap[i as int]);
            assert(forall|k: int| 0 <= k < s0.len() ==> (#[trigger] pre[k]).shortcode
                == s0[k].shortcode);
            lemma_has_clip_same_keys(pre, s0, key);
        }
        let r = store.increment_hit_count(&snapshot[i].0, snapshot[i].1, &tx);
        proof {
            let m1 = entries_map(snap.take(i as int + 1));
            assert(m1 == entries_map(snap.take(i as int)).insert(key, snap[i as int].1));
            if has_clip(pre, key) {
                let w = choose|w: int|
                    0 <= w < pre.len() && (#[trigger] pre[w]).shortcode == key && store@
                        == pre.update(
                        w,
                        rec_with_hits(pre[w], sat_add_u64(pre[w].hits, snap[i as int].1)),
                    );
                assert(snapshot_count(snap.take(i as int), s0[w].shortcode) == 0);
                assert(sat_add_u64(s0[w].hits, 0) == s0[w].hits);
                assert(pre[w].hits == s0[w].hits);
                assert(s0[w].shortcode == key);
                assert forall|k: int| 0 <= k < s0.len() && k != w implies (
                #[trigger] s0[k]).shortcode != key by {
                    if k < w {
                        assert(s0[k].shortcode != s0[w].shortcode);
                    } else {
                        assert(s0[w].shortcode != s0[k].shortcode);
                    }
                }
                assert(store@[w] == rec_with_hits(
                    s0[w],
                    sat_add_u64(s0[w].hits, snapshot_count(snap.take(i as int + 1), key)),
                ));
                assert(forall|k: int| 0 <= k < s0.len() && k != w ==> store@[k] == (
                #[trigger] pre[k]));
                assert(forall|k: int|
                    0 <= k < s0.len() && k != w ==> snapshot_count(
                        snap.take(i as int + 1),
                        (#[trigger] s0[k]).shortcode,
                    ) == snapshot_count(snap.take(i as int), s0[k].shortcode));
            } else {
                assert(store@ == pre);
                assert(forall|k: int| 0 <= k < s0.len() ==> (#[trigger] s0[k]).shortcode != key);
                assert(forall|k: int|
                    0 <= k < s0.len() ==> snapshot_count(
                        snap.take(i as int + 1),
                        (#[trigger] s0[k]).shortcode,
                    ) == snapshot_count(snap.take(i as int), s0[k].shortcode));
            }
        }
        if r.is_ok() {
            applied = applied + 1;
        }
        i += 1;
    }
    proof {
        assert(snap.take(snap.len() as int) =~= snap);
    }
    store.commit(tx);
    applied
}

#[verifier::external_type_specification]
#[verifier::external_body]
#[verifier::reject_recursive_types(T)]
pub struct ExSender<T>(crossbeam_channel::Sender<T>);

#[verifier::external_type_specification]
#[verifier::external_body]
#[verifier::reject_recursive_types(T)]
pub struct ExReceiver<T>(crossbeam_channel::Receiver<T>);

/// Relies on `crossbeam_channel::unbounded`: creates the two connected
/// ends of a fresh unbounded multi-producer channel.
#[verifier::external_body]
fn hit_channel() -> (crossbeam_channel::Sender<HitMsg>, crossbeam_channel::Receiver<HitMsg>) {
    crossbeam_channel::unbounded()
}

/// Relies on `crossbeam_channel::Sender::clone`: the clone feeds the same
/// queue as the original.
#[verifier::external_body]
fn clone_sender(tx: &crossbeam_channel::Sender<HitMsg>) -> crossbeam_channel::Sender<HitMsg> {
    tx.clone()
}

/// Relies on `crossbeam_channel::Sender::send`: it never blocks on an
/// unbounded channel, fails exactly when every receiver is gone, and a
/// failure hands the message back inside the error.
#[verifier::external_body]
fn send_hit_msg(tx: &crossbeam_channel::Sender<HitMsg>, msg: HitMsg) -> (r: Result<(), HitMsg>)
    ensures
        r matches Err(m) ==> m == msg,
{
    match tx.send(msg) {
        Ok(()) => Ok(()),
        Err(crossbeam_channel::SendError(m)) => Err(m),
    }
}

/// Relies on `crossbeam_channel::Receiver::try_recv`: without blocking it
/// yields a queued message, or reports the queue empty, or reports every
/// sender gone. Which of the three comes back depends on what other
/// threads have sent, so nothing is promised about it; the worker's step
/// function covers every outcome.
#[verifier::external_body]
fn try_recv_hit_msg(rx: &crossbeam_channel::Receiver<HitMsg>) -> RecvOutcome {
    match rx.try_recv() {
        Ok(m) => RecvOutcome::Msg(m),
        Err(crossbeam_channel::TryRecvError::Empty) => RecvOutcome::Empty,
        Err(crossbeam_channel::TryRecvError::Disconnected) => RecvOutcome::Disconnected,
    }
}

/// The handle request handlers keep: its only power is to enqueue hit
/// messages, never to touch the tally.
pub struct HitCounter {
    tx: crossbeam_channel::Sender<HitMsg>,
}

/// The consuming end: exactly one of these exists per aggregator, so the
/// tally has a single writer by construction.
pub struct HitWorker {
    rx: crossbeam_channel::Receiver<HitMsg>,
    flush_tx: crossbeam_channel::Sender<HitMsg>,
    tally: Tally,
}

impl HitCounter {
    /// A fresh aggregator: the submission handle and its worker, whose
    /// tally starts empty. The caller gives the worker its own loop (and
    /// its sleeps); the library decides each step of it.
    pub fn new() -> (r: (HitCounter, HitWorker))
        ensures
            r.1.pending() == Map::<Seq<char>, u64>::empty(),
    {
        let (tx, rx) = hit_channel();
        let flush_tx = clone_sender(&tx);
        (HitCounter { tx }, HitWorker { rx, flush_tx, tally: Tally::new() })
    }

    /// Fire-and-forget submission of `count` views of one clip: it only
    /// enqueues, so it never blocks and never panics; once the worker is
    /// gone the message is quietly dropped, and the caller is unaffected
    /// either way.
    pub fn hit(&self, shortcode: ShortCode, count: u32) {
        let _ = send_hit_msg(&self.tx, HitMsg::Hit(shortcode, count));
    }
}

impl HitWorker {
    /// The counts merged so far and not yet flushed.
    pub closed spec fn pending(&self) -> Map<Seq<char>, u64> {
        self.tally@
    }

    /// The pending count for one clip, if any.
    pub fn pending_count(&self, shortcode: &ShortCode) -> (c: Option<u64>)
        ensures
            c == (if self.pending().contains_key(shortcode@) {
                Some(self.pending()[shortcode@])
            } else {
                None::<u64>
            }),
    {
        self.tally.get(shortcode)
    }

    /// One turn of the message loop: ask the channel once and take the
    /// step the outcome dictates. Whatever the channel held, the tally and
    /// the returned action stand in the step relation.
    pub fn poll(&mut self) -> (action: WorkerAction)
        ensures
            exists|o: RecvOutcome|
                step_spec(old(self).pending(), o, final(self).pending(), action),
    {
        let outcome = try_recv_hit_msg(&self.rx);
        let ghost o = outcome;
        let action = worker_step(&mut self.tally, outcome);
        proof {
            assert(step_spec(old(self).pending(), o, self.pending(), action));
        }
        action
    }

    /// Queue the debounced flush trigger to yourself; done after each
    /// idle wait. Once every sender is gone this quietly does nothing.
    pub fn request_flush(&self) {
        let _ = send_hit_msg(&self.flush_tx, HitMsg::Flush);
    }
}

} // verus!
