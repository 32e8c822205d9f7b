//! The periodic expiry sweep: on a fixed schedule, independent of the hit
//! aggregator, delete every clip already past its expiry time. The caller
//! owns the timer; each tick is one `sweep`. A failed tick would simply be
//! retried on the next one; the sweep itself never stops the schedule.

use vstd::prelude::*;

use crate::store::{live_recs, MemoryStore};

verus! {

/// The expiry sweep task.
pub struct Maintenance;

impl Maintenance {
    /// One scheduled tick: deletes exactly the clips whose expiry time is
    /// at or before `now` (the boundary is inclusive) and reports how
    /// many went. It touches neither hit counters of surviving rows nor
    /// any transaction bookkeeping.
    pub fn sweep(store: &mut MemoryStore, now: u64) -> (removed: u64)
        ensures
            final(store)@ == live_recs(old(store)@, now),
            removed == old(store)@.len() - live_recs(old(store)@, now).len(),
            final(store).spec_txs_begun() == old(store).spec_txs_begun(),
            final(store).spec_txs_committed() == old(store).spec_txs_committed(),
    {
        store.delete_expired(now)
    }
}

} // verus!
