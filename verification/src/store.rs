//! An in-memory model of the persistence layer, offering exactly the
//! narrow contract the background subsystems need: begin a transaction,
//! increment a clip's hit count inside it, commit, and delete expired
//! rows in bulk.

use vstd::prelude::*;

use crate::field::Time;
use crate::shortcode::ShortCode;
use crate::tally::sat_add_u64;

verus! {

/// The mathematical image of one stored clip row.
pub ghost struct ClipRec {
    pub shortcode: Seq<char>,
    pub content: Seq<char>,
    pub title: Option<Seq<char>>,
    pub posted: u64,
    pub expires: Option<u64>,
    pub password: Option<Seq<char>>,
    pub hits: u64,
}

/// One persisted clip row, held as plain values.
pub struct StoredClip {
    pub shortcode: ShortCode,
    pub content: String,
    pub title: Option<String>,
    pub posted: Time,
    pub expires: Option<Time>,
    pub password: Option<String>,
    pub hits: u64,
}

impl StoredClip {
    pub open spec fn rec(&self) -> ClipRec {
        ClipRec {
            shortcode: self.shortcode@,
            content: self.content@,
            title: match self.title {
                Some(t) => Some(t@),
                None => None,
            },
            posted: self.posted.spec_seconds(),
            expires: match self.expires {
                Some(t) => Some(t.spec_seconds()),
                None => None,
            },
            password: match self.password {
                Some(p) => Some(p@),
                None => None,
            },
            hits: self.hits,
        }
    }
}

impl Clone for StoredClip {
    fn clone(&self) -> (r: Self)
        ensures
            r.rec() == self.rec(),
    {
        StoredClip {
            shortcode: self.shortcode.clone(),
            content: self.content.clone(),
            title: match &self.title {
                Some(t) => Some(t.clone()),
                None => None,
            },
            posted: self.posted,
            expires: self.expires,
            password: match &self.password {
                Some(p) => Some(p.clone()),
                None => None,
            },
            hits: self.hits,
        }
    }
}

/// The same row with a different hit counter.
pub open spec fn rec_with_hits(r: ClipRec, h: u64) -> ClipRec {
    ClipRec { hits: h, ..r }
}

/// The same row with its user-editable fields rewritten; identity, hit
/// counter and posting time stay.
pub open spec fn rec_with_fields(
    r: ClipRec,
    content: Seq<char>,
    title: Option<Seq<char>>,
    expires: Option<u64>,
    password: Option<Seq<char>>,
) -> ClipRec {
    ClipRec { content, title, expires, password, ..r }
}

/// Whether some row carries the given shortcode.
pub open spec fn has_clip(s: Seq<ClipRec>, id: Seq<char>) -> bool {
    exists|i: int| 0 <= i < s.len() && (#[trigger] s[i]).shortcode == id
}

/// No two rows share a shortcode.
pub open spec fn unique_rec_keys(s: Seq<ClipRec>) -> bool {
    forall|i: int, j: int|
        0 <= i < j < s.len() ==> (#[trigger] s[i]).shortcode != (#[trigger] s[j]).shortcode
}

/// Whether a row survives a sweep performed at time `now`: rows expiring
/// at or before `now` are removed, later or never-expiring rows stay.
pub open spec fn live_at(r: ClipRec, now: u64) -> bool {
    match r.expires {
        Some(e) => e > now,
        None => true,
    }
}

/// The rows that a sweep at time `now` leaves behind, in their original
/// order.
pub open spec fn live_recs(s: Seq<ClipRec>, now: u64) -> Seq<ClipRec>
    decreases s.len(),
{
    if s.len() == 0 {
        Seq::empty()
    } else if live_at(s.last(), now) {
        live_recs(s.drop_last(), now).push(s.last())
    } else {
        live_recs(s.drop_last(), now)
    }
}

/// Every survivor of a sweep was already a row before it.
pub proof fn lemma_live_recs_sub(s: Seq<ClipRec>, now: u64)
    ensures
        forall|x: ClipRec| live_recs(s, now).contains(x) ==> s.contains(x),
        live_recs(s, now).len() <= s.len(),
    decreases s.len(),
{
    if s.len() > 0 {
        lemma_live_recs_sub(s.drop_last(), now);
        let l = live_recs(s, now);
        let prev = live_recs(s.drop_last(), now);
        assert forall|x: ClipRec| l.contains(x) implies s.contains(x) by {
            let i = choose|i: int| 0 <= i < l.len() && l[i] == x;
            if live_at(s.last(), now) && i == l.len() - 1 {
                assert(s[s.len() - 1] == x);
            } else {
                assert(prev[i] == x);
                assert(prev.contains(x));
                assert(s.drop_last().contains(x));
                let a = choose|a: int| 0 <= a < s.drop_last().len() && s.drop_last()[a] == x;
                assert(s[a] == x);
            }
        }
    }
}

/// A sweep keeps shortcodes unique.
pub proof fn lemma_live_recs_unique(s: Seq<ClipRec>, now: u64)
    requires
        unique_rec_keys(s),
    ensures
        unique_rec_keys(live_recs(s, now)),
    decreases s.len(),
{
    if s.len() > 0 {
        assert(unique_rec_keys(s.drop_last()));
        lemma_live_recs_unique(s.drop_last(), now);
        lemma_live_recs_sub(s.drop_last(), now);
        let l = live_recs(s, now);
        if live_at(s.last(), now) {
            let prev = live_recs(s.drop_last(), now);
            assert forall|i: int, j: int|
                0 <= i < j < l.len() implies (#[trigger] l[i]).shortcode != (
            #[trigger] l[j]).shortcode by {
                if j == l.len() - 1 {
                    assert(l[i] == prev[i]);
                    assert(prev.contains(prev[i]));
                    assert(s.drop_last().contains(prev[i]));
                    let a = choose|a: int|
                        0 <= a < s.drop_last().len() && s.drop_last()[a] == prev[i];
                    assert(s[a] == prev[i]);
                    assert(l[j] == s.last());
                    assert(s[a].shortcode != s[s.len() - 1].shortcode);
                } else {
                    assert(l[i] == prev[i] && l[j] == prev[j]);
                }
            }
        }
    }
}

/// An opaque token proving a transaction is open; only
/// `MemoryStore::begin_transaction` creates one.
pub struct StoreTx {
    marker: bool,
}

/// Why a storage operation failed.
#[derive(Clone, Copy, Debug, PartialEq, Eq, Structural)]
pub enum StoreError {
    /// No row carries the given shortcode.
    MissingClip,
    /// A row with this shortcode already exists.
    DuplicateShortcode,
}

/// The sequence of row images a row vector denotes.
pub open spec fn rows_recs(s: Seq<StoredClip>) -> Seq<ClipRec> {
    s.map_values(|r: StoredClip| r.rec())
}

/// The in-memory store: clip rows plus counters of how many transactions
/// were opened and committed against it.
pub struct MemoryStore {
    rows: Vec<StoredClip>,
    txs_begun: u64,
    txs_committed: u64,
}

impl View for MemoryStore {
    type V = Seq<ClipRec>;

    closed spec fn view(&self) -> Seq<ClipRec> {
        rows_recs(self.rows@)
    }
}

impl MemoryStore {
    #[verifier::type_invariant]
    pub open spec fn wf(&self) -> bool {
        unique_rec_keys(self@)
    }

    pub closed spec fn spec_txs_begun(&self) -> u64 {
        self.txs_begun
    }

    pub closed spec fn spec_txs_committed(&self) -> u64 {
        self.txs_committed
    }

    /// How many transactions have been opened against this store.
    pub fn txs_begun(&self) -> (n: u64)
        ensures
            n == self.spec_txs_begun(),
    {
        self.txs_begun
    }

    /// How many transactions have been committed against this store.
    pub fn txs_committed(&self) -> (n: u64)
        ensures
            n == self.spec_txs_committed(),
    {
        self.txs_committed
    }

    /// A store with no rows and no transactions yet.
    pub fn new() -> (s: MemoryStore)
        ensures
            s@ == Seq::<ClipRec>::empty(),
            s.spec_txs_begun() == 0,
            s.spec_txs_committed() == 0,
    {
        MemoryStore { rows: Vec::new(), txs_begun: 0, txs_committed: 0 }
    }

    pub fn len(&self) -> (n: usize)
        ensures
            n == self@.len(),
    {
        self.rows.len()
    }

    /// Opens a transaction, as the gateway requires before any increment.
    pub fn begin_transaction(&mut self) -> (tx: StoreTx)
        ensures
            final(self)@ == old(self)@,
            final(self).spec_txs_begun() == sat_add_u64(old(self).spec_txs_begun(), 1),
            final(self).spec_txs_committed() == old(self).spec_txs_committed(),
    {
        proof {
            use_type_invariant(&*self);
        }
        let nv = if self.txs_begun > u64::MAX - 1 {
            u64::MAX
        } else {
            self.txs_begun + 1
        };
        self.txs_begun = nv;
        StoreTx { marker: true }
    }

    /// Commits an open transaction.
    pub fn commit(&mut self, tx: StoreTx)
        ensures
            final(self)@ == old(self)@,
            final(self).spec_txs_begun() == old(self).spec_txs_begun(),
            final(self).spec_txs_committed() == sat_add_u64(old(self).spec_txs_committed(), 1),
    {
        let _ = tx;
        proof {
            use_type_invariant(&*self);
        }
        let nv = if self.txs_committed > u64::MAX - 1 {
            u64::MAX
        } else {
            self.txs_committed + 1
        };
        self.txs_committed = nv;
    }

    /// Inserts a new clip row; refused when its shortcode is taken.
    pub fn save_clip(&mut self, row: StoredClip) -> (r: Result<(), StoreError>)
        ensures
            final(self).spec_txs_begun() == old(self).spec_txs_begun(),
            final(self).spec_txs_committed() == old(self).spec_txs_committed(),
            has_clip(old(self)@, row.rec().shortcode) ==> r
                == Err::<(), StoreError>(StoreError::DuplicateShortcode) && final(self)@ == old(
                self,
            )@,
            !has_clip(old(self)@, row.rec().shortcode) ==> r == Ok::<(), StoreError>(())
                && final(self)@ == old(self)@.push(row.rec()),
    {
        proof {
            use_type_invariant(&*self);
        }
        let mut rows: Vec<StoredClip> = Vec::new();
        core::mem::swap(&mut rows, &mut self.rows);
        let ghost s0 = rows_recs(rows@);
        let mut i: usize = 0;
        let mut taken = false;
        while i < rows.len()
            invariant
                rows_recs(rows@) == s0,
                0 <= i <= rows@.len(),
                s0.len() == rows@.len(),
                taken ==> has_clip(s0, row.rec().shortcode),
                !taken ==> forall|j: int|
                    0 <= j < i ==> (#[trigger] s0[j]).shortcode != row.rec().shortcode,
            decreases rows@.len() - i,
        {
            if rows[i].shortcode == row.shortcode {
                taken = true;
                proof {
                    assert(s0[i as int].shortcode == row.rec().shortcode);
                }
            }
            i += 1;
        }
        let r = if taken {
            Err(StoreError::DuplicateShortcode)
        } else {
            proof {
                assert(!has_clip(s0, row.rec().shortcode));
            }
            rows.push(row);
            proof {
                assert(rows_recs(rows@) =~= s0.push(rows@.last().rec()));
                assert(unique_rec_keys(rows_recs(rows@)));
            }
            Ok(())
        };
        core::mem::swap(&mut rows, &mut self.rows);
        r
    }

    /// Looks a clip up by shortcode.
    pub fn get(&self, shortcode: &ShortCode) -> (r: Option<&StoredClip>)
        ensures
            r is Some <==> has_clip(self@, shortcode@),
            r matches Some(row) ==> (exists|i: int| 0 <= i < self@.len() && self@[i] == row.rec())
                && row.rec().shortcode == shortcode@,
    {
        let mut i: usize = 0;
        while i < self.rows.len()
            invariant
                0 <= i <= self@.len(),
                self@.len() == self.rows@.len(),
                forall|j: int| 0 <= j < i ==> (#[trigger] self@[j]).shortcode != shortcode@,
            decreases self.rows@.len() - i,
        {
            if self.rows[i].shortcode == *shortcode {
                proof {
                    assert(self@[i as int] == self.rows@[i as int].rec());
                }
                return Some(&self.rows[i]);
            }
            i += 1;
        }
        None
    }

    /// Adds `count` to one clip's hit counter inside an open transaction;
    /// fails, changing nothing, when no row carries the shortcode.
    pub fn increment_hit_count(&mut self, shortcode: &ShortCode, count: u64, tx: &StoreTx) -> (r:
        Result<(), StoreError>)
        ensures
            final(self).spec_txs_begun() == old(self).spec_txs_begun(),
            final(self).spec_txs_committed() == old(self).spec_txs_committed(),
            !has_clip(old(self)@, shortcode@) ==> r == Err::<(), StoreError>(
                StoreError::MissingClip,
            ) && final(self)@ == old(self)@,
            has_clip(old(self)@, shortcode@) ==> r == Ok::<(), StoreError>(()) && exists|i: int|
                0 <= i < old(self)@.len() && (#[trigger] old(self)@[i]).shortcode == shortcode@
                && final(self)@ == old(self)@.update(
                    i,
                    rec_with_hits(old(self)@[i], sat_add_u64(old(self)@[i].hits, count)),
                ),
    {
        let _ = tx;
        proof {
            use_type_invariant(&*self);
        }
        let mut rows: Vec<StoredClip> = Vec::new();
        core::mem::swap(&mut rows, &mut self.rows);
        let ghost s0 = rows_recs(rows@);
        let mut idx: Option<usize> = None;
        let mut i: usize = 0;
        while i < rows.len()
            invariant
                rows_recs(rows@) == s0,
                0 <= i <= rows@.len(),
                s0.len() == rows@.len(),
                idx matches Some(j) ==> j < i && s0[j as int].shortcode == shortcode@,
                idx is None ==> forall|j: int|
                    0 <= j < i ==> (#[trigger] s0[j]).shortcode != shortcode@,
            decreases rows@.len() - i,
        {
            if idx.is_none() && rows[i].shortcode == *shortcode {
                idx = Some(i);
            }
            i += 1;
        }
        let r = match idx {
            Some(j) => {
                let cur = rows[j].hits;
                let nv = if cur > u64::MAX - count {
                    u64::MAX
                } else {
                    cur + count
                };
                rows[j].hits = nv;
                proof {
                    assert(rows@[j as int].rec() == rec_with_hits(s0[j as int], nv));
                    assert(rows_recs(rows@) =~= s0.update(
                        j as int,
                        rec_with_hits(s0[j as int], sat_add_u64(s0[j as int].hits, count)),
                    ));
                    assert(unique_rec_keys(rows_recs(rows@)));
                }
                Ok(())
            },
            None => Err(StoreError::MissingClip),
        };
        core::mem::swap(&mut rows, &mut self.rows);
        r
    }

    /// Rewrites the stored fields of one clip; fails, changing nothing,
    /// when no row carries the shortcode. The row's hit counter and
    /// posting time are untouched.
    pub fn update_clip_row(
        &mut self,
        shortcode: &ShortCode,
        content: String,
        title: Option<String>,
        expires: Option<Time>,
        password: Option<String>,
    ) -> (r: Result<(), StoreError>)
        ensures
            final(self).spec_txs_begun() == old(self).spec_txs_begun(),
            final(self).spec_txs_committed() == old(self).spec_txs_committed(),
            !has_clip(old(self)@, shortcode@) ==> r == Err::<(), StoreError>(
                StoreError::MissingClip,
            ) && final(self)@ == old(self)@,
            has_clip(old(self)@, shortcode@) ==> r == Ok::<(), StoreError>(()) && exists|i: int|
                0 <= i < old(self)@.len() && (#[trigger] old(self)@[i]).shortcode == shortcode@
                && final(self)@ == old(self)@.update(
                    i,
                    rec_with_fields(
                        old(self)@[i],
                        content@,
                        match title {
                            Some(t) => Some(t@),
                            None => None,
                        },
                        match expires {
                            Some(t) => Some(t.spec_seconds()),
                            None => None,
                        },
                        match password {
                            Some(p) => Some(p@),
                            None => None,
                        },
                    ),
                ),
    {
        proof {
            use_type_invariant(&*self);
        }
        let mut rows: Vec<StoredClip> = Vec::new();
        core::mem::swap(&mut rows, &mut self.rows);
        let ghost s0 = rows_recs(rows@);
        let mut idx: Option<usize> = None;
        let mut i: usize = 0;
        while i < rows.len()
            invariant
                rows_recs(rows@) == s0,
                0 <= i <= rows@.len(),
                s0.len() == rows@.len(),
                idx matches Some(j) ==> j < i && s0[j as int].shortcode == shortcode@,
                idx is None ==> forall|j: int|
                    0 <= j < i ==> (#[trigger] s0[j]).shortcode != shortcode@,
            decreases rows@.len() - i,
        {
            if idx.is_none() && rows[i].shortcode == *shortcode {
                idx = Some(i);
            }
            i += 1;
        }
        let r = match idx {
            Some(j) => {
                let sc = rows[j].shortcode.clone();
                let posted = rows[j].posted;
                let hits = rows[j].hits;
                let row = StoredClip { shortcode: sc, content, title, posted, expires, password, hits };
                let ghost nrec = row.rec();
                rows[j] = row;
                proof {
                    assert(rows@[j as int].rec() == nrec);
                    assert(rows_recs(rows@) =~= s0.update(j as int, nrec));
                    assert(unique_rec_keys(rows_recs(rows@)));
                }
                Ok(())
            },
            None => Err(StoreError::MissingClip),
        };
        core::mem::swap(&mut rows, &mut self.rows);
        r
    }

    /// Deletes every clip whose expiry time is at or before `now` and
    /// reports how many went; never-expiring clips always stay.
    pub fn delete_expired(&mut self, now: u64) -> (removed: u64)
        ensures
            final(self)@ == live_recs(old(self)@, now),
            removed == old(self)@.len() - live_recs(old(self)@, now).len(),
            final(self).spec_txs_begun() == old(self).spec_txs_begun(),
            final(self).spec_txs_committed() == old(self).spec_txs_committed(),
    {
        proof {
            use_type_invariant(&*self);
        }
        let mut rows: Vec<StoredClip> = Vec::new();
        core::mem::swap(&mut rows, &mut self.rows);
        let ghost s0 = rows_recs(rows@);
        let mut kept: Vec<StoredClip> = Vec::new();
        let mut i: usize = 0;
        while i < rows.len()
            invariant
                rows_recs(rows@) == s0,
                0 <= i <= rows@.len(),
                s0.len() == rows@.len(),
                rows_recs(kept@) == live_recs(s0.take(i as int), now),
                kept@.len() <= i,
            decreases rows@.len() - i,
        {
            let keep = match &rows[i].expires {
                Some(t) => t.seconds() > now,
                None => true,
            };
            proof {
                assert(keep == live_at(s0[i as int], now));
                assert(s0.take(i as int + 1).drop_last() =~= s0.take(i as int));
                assert(s0.take(i as int + 1).last() == s0[i as int]);
            }
            if keep {
                kept.push(rows[i].clone());
                proof {
                    assert(rows_recs(kept@) =~= live_recs(s0.take(i as int + 1), now));
                }
            }
            i += 1;
        }
        proof {
            assert(s0.take(s0.len() as int) =~= s0);
            lemma_live_recs_sub(s0, now);
            lemma_live_recs_unique(s0, now);
        }
        let removed = rows.len() - kept.len();
        core::mem::swap(&mut kept, &mut self.rows);
        removed as u64
    }
}

} // verus!
