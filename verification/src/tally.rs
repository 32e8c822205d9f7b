//! The in-memory tally of pending view counts, keyed by clip shortcode.
//! Its mathematical model is a finite map from shortcode characters to
//! accumulated counts; merging saturates at `u64::MAX` instead of
//! overflowing.

use vstd::prelude::*;

use crate::shortcode::ShortCode;

verus! {

/// Addition on counters that sticks at `u64::MAX` instead of wrapping.
pub open spec fn sat_add_u64(a: u64, b: u64) -> u64 {
    if a + b > u64::MAX {
        u64::MAX
    } else {
        (a + b) as u64
    }
}

/// The counter that merging `c` more hits for key `k` into tally `m`
/// leaves behind for `k`.
pub open spec fn bumped(m: Map<Seq<char>, u64>, k: Seq<char>, c: u32) -> u64 {
    if m.contains_key(k) {
        sat_add_u64(m[k], c as u64)
    } else {
        c as u64
    }
}

/// The map described by a sequence of (shortcode, count) entries; a later
/// entry for the same key would win, though well-formed tallies never
/// hold two entries with one key.
pub open spec fn entries_map(s: Seq<(ShortCode, u64)>) -> Map<Seq<char>, u64>
    decreases s.len(),
{
    if s.len() == 0 {
        Map::empty()
    } else {
        entries_map(s.drop_last()).insert(s.last().0@, s.last().1)
    }
}

/// No two entries share a shortcode.
pub open spec fn unique_keys(s: Seq<(ShortCode, u64)>) -> bool {
    forall|i: int, j: int| 0 <= i < j < s.len() ==> (#[trigger] s[i]).0@ != (#[trigger] s[j]).0@
}

/// A key is in the map of an entry sequence exactly when some entry
/// carries it.
pub proof fn lemma_entries_map_contains(s: Seq<(ShortCode, u64)>, k: Seq<char>)
    ensures
        entries_map(s).contains_key(k) <==> exists|i: int|
            0 <= i < s.len() && (#[trigger] s[i]).0@ == k,
    decreases s.len(),
{
    if s.len() > 0 {
        lemma_entries_map_contains(s.drop_last(), k);
        if k == s.last().0@ {
            assert(s[s.len() - 1].0@ == k);
        } else {
            if entries_map(s).contains_key(k) {
                let i = choose|i: int| 0 <= i < s.drop_last().len() && (#[trigger] s.drop_last()[i]).0@ == k;
                assert(s[i].0@ == k);
            }
            if exists|i: int| 0 <= i < s.len() && (#[trigger] s[i]).0@ == k {
                let i = choose|i: int| 0 <= i < s.len() && (#[trigger] s[i]).0@ == k;
                assert(i < s.len() - 1);
                assert(s.drop_last()[i].0@ == k);
            }
        }
    }
}

/// With unique keys, each entry's count is exactly what the map stores
/// for its key.
pub proof fn lemma_entries_map_value(s: Seq<(ShortCode, u64)>, i: int)
    requires
        unique_keys(s),
        0 <= i < s.len(),
    ensures
        entries_map(s).contains_key(s[i].0@),
        entries_map(s)[s[i].0@] == s[i].1,
    decreases s.len(),
{
    if i == s.len() - 1 {
    } else {
        assert(unique_keys(s.drop_last()));
        assert(s.drop_last()[i] == s[i]);
        lemma_entries_map_value(s.drop_last(), i);
        assert(s[i].0@ != s.last().0@);
    }
}

/// Replacing the entry that holds key `k` rewrites exactly `k`'s count.
pub proof fn lemma_entries_map_update(s: Seq<(ShortCode, u64)>, i: int, e: (ShortCode, u64))
    requires
        unique_keys(s),
        0 <= i < s.len(),
        e.0@ == s[i].0@,
    ensures
        entries_map(s.update(i, e)) == entries_map(s).insert(e.0@, e.1),
    decreases s.len(),
{
    let t = s.update(i, e);
    if i == s.len() - 1 {
        assert(t.drop_last() =~= s.drop_last());
        assert(t.last() == e);
        assert(entries_map(t) == entries_map(s.drop_last()).insert(e.0@, e.1));
        assert(entries_map(s.drop_last()).insert(e.0@, e.1) =~= entries_map(s).insert(e.0@, e.1));
    } else {
        assert(unique_keys(s.drop_last()));
        assert(t.drop_last() =~= s.drop_last().update(i, e));
        assert(t.last() == s.last());
        lemma_entries_map_update(s.drop_last(), i, e);
        assert(e.0@ != s.last().0@);
        assert(entries_map(t) == entries_map(s.drop_last()).insert(e.0@, e.1).insert(
            s.last().0@,
            s.last().1,
        ));
        assert(entries_map(s.drop_last()).insert(e.0@, e.1).insert(s.last().0@, s.last().1)
            =~= entries_map(s).insert(e.0@, e.1));
    }
}

/// The map of an entry sequence is empty exactly when the sequence is.
pub proof fn lemma_entries_map_empty(s: Seq<(ShortCode, u64)>)
    ensures
        (entries_map(s) == Map::<Seq<char>, u64>::empty()) <==> s.len() == 0,
{
    if s.len() > 0 {
        assert(entries_map(s).contains_key(s.last().0@));
        assert(!Map::<Seq<char>, u64>::empty().contains_key(s.last().0@));
    }
}

/// The pending view counts, owned exclusively by the aggregator's worker.
pub struct Tally {
    entries: Vec<(ShortCode, u64)>,
}

impl View for Tally {
    type V = Map<Seq<char>, u64>;

    closed spec fn view(&self) -> Map<Seq<char>, u64> {
        entries_map(self.entries@)
    }
}

impl Tally {
    #[verifier::type_invariant]
    spec fn wf(&self) -> bool {
        unique_keys(self.entries@)
    }

    /// The tally starts empty.
    pub fn new() -> (t: Tally)
        ensures
            t@ == Map::<Seq<char>, u64>::empty(),
    {
        Tally { entries: Vec::new() }
    }

    pub fn is_empty(&self) -> (b: bool)
        ensures
            b <==> self@ == Map::<Seq<char>, u64>::empty(),
    {
        proof {
            lemma_entries_map_empty(self.entries@);
        }
        self.entries.len() == 0
    }

    /// The count pending for one shortcode, if any.
    pub fn get(&self, id: &ShortCode) -> (c: Option<u64>)
        ensures
            c == (if self@.contains_key(id@) {
                Some(self@[id@])
            } else {
                None::<u64>
            }),
    {
        proof {
            use_type_invariant(&*self);
        }
        let ghost s0 = self.entries@;
        let mut i: usize = 0;
        while i < self.entries.len()
            invariant
                self.entries@ == s0,
                unique_keys(s0),
                0 <= i <= s0.len(),
                forall|j: int| 0 <= j < i ==> (#[trigger] s0[j]).0@ != id@,
            decreases s0.len() - i,
        {
            if self.entries[i].0 == *id {
                proof {
                    lemma_entries_map_value(s0, i as int);
                }
                return Some(self.entries[i].1);
            }
            i += 1;
        }
        proof {
            lemma_entries_map_contains(s0, id@);
        }
        None
    }

    /// Merge `count` more hits for `id` into the tally; an existing entry
    /// grows (saturating at `u64::MAX`), a missing one is created.
    pub fn add(&mut self, id: &ShortCode, count: u32)
        ensures
            final(self)@ == old(self)@.insert(id@, bumped(old(self)@, id@, count)),
    {
        proof {
            use_type_invariant(&*self);
        }
        let mut es: Vec<(ShortCode, u64)> = Vec::new();
        core::mem::swap(&mut es, &mut self.entries);
        let ghost s0 = es@;
        let mut idx: Option<usize> = None;
        let mut i: usize = 0;
        while i < es.len()
            invariant
                es@ == s0,
                unique_keys(s0),
                0 <= i <= s0.len(),
                idx matches Some(j) ==> j < i && s0[j as int].0@ == id@,
                idx is None ==> forall|j: int| 0 <= j < i ==> (#[trigger] s0[j]).0@ != id@,
            decreases s0.len() - i,
        {
            if idx.is_none() && es[i].0 == *id {
                idx = Some(i);
            }
            i += 1;
        }
        match idx {
            Some(j) => {
                let key = es[j].0.clone();
                let cur = es[j].1;
                let nv = if cur > u64::MAX - (count as u64) {
                    u64::MAX
                } else {
                    cur + (count as u64)
                };
                let ghost e = (key, nv);
                es[j] = (key, nv);
                proof {
                    lemma_entries_map_value(s0, j as int);
                    lemma_entries_map_update(s0, j as int, e);
                    assert(es@ == s0.update(j as int, e));
                    assert(unique_keys(es@)) by {
                        assert(forall|a: int, b: int|
                            0 <= a < b < s0.len() ==> (#[trigger] es@[a]).0@ != (
                            #[trigger] es@[b]).0@);
                    }
                }
            },
            None => {
                proof {
                    lemma_entries_map_contains(s0, id@);
                }
                es.push((id.clone(), count as u64));
                proof {
                    assert(es@.drop_last() =~= s0);
                    assert(unique_keys(es@)) by {
                        assert(forall|a: int, b: int|
                            0 <= a < b < es@.len() ==> (#[trigger] es@[a]).0@ != (
                            #[trigger] es@[b]).0@);
                    }
                }
            },
        }
        core::mem::swap(&mut es, &mut self.entries);
    }

    /// Atomically take the whole tally as a snapshot, leaving it empty:
    /// the drain-and-clear step of a flush. After it, no shortcode of the
    /// snapshot is still pending.
    pub fn drain(&mut self) -> (snapshot: Vec<(ShortCode, u64)>)
        ensures
            final(self)@ == Map::<Seq<char>, u64>::empty(),
            unique_keys(snapshot@),
            entries_map(snapshot@) == old(self)@,
    {
        proof {
            use_type_invariant(&*self);
        }
        let mut snapshot: Vec<(ShortCode, u64)> = Vec::new();
        core::mem::swap(&mut snapshot, &mut self.entries);
        snapshot
    }
}

} // verus!
