//! The global laws of hit accounting, stated over the model that the
//! executable contracts use: however hit submissions interleave, the
//! tally — and through a flush, the persisted counter — carries exactly
//! the sum of the counts submitted for each clip.

use vstd::prelude::*;

use crate::hit_counter::snapshot_count;
use crate::shortcode::ShortCode;
use crate::tally::{bumped, entries_map, sat_add_u64};

verus! {

/// The tally reached by merging `msgs` (each a shortcode and a count), in
/// order, into the starting tally `m0`. One merge step is exactly what
/// `Tally::add` promises, so a worker that starts from `Tally::new` and
/// merges a message sequence holds `tally_after(msgs, Map::empty())`.
pub open spec fn tally_after(
    msgs: Seq<(Seq<char>, u32)>,
    m0: Map<Seq<char>, u64>,
) -> Map<Seq<char>, u64>
    decreases msgs.len(),
{
    if msgs.len() == 0 {
        m0
    } else {
        let m = tally_after(msgs.drop_last(), m0);
        m.insert(msgs.last().0, bumped(m, msgs.last().0, msgs.last().1))
    }
}

/// The plain (uncapped) sum of the counts submitted for `id`.
pub open spec fn hit_sum(msgs: Seq<(Seq<char>, u32)>, id: Seq<char>) -> int
    decreases msgs.len(),
{
    if msgs.len() == 0 {
        0
    } else {
        hit_sum(msgs.drop_last(), id) + (if msgs.last().0 == id {
            msgs.last().1 as int
        } else {
            0
        })
    }
}

/// Whether any message submits hits for `id`.
pub open spec fn has_hit(msgs: Seq<(Seq<char>, u32)>, id: Seq<char>) -> bool {
    exists|i: int| 0 <= i < msgs.len() && (#[trigger] msgs[i]).0 == id
}

/// A sum capped at the counter's ceiling.
pub open spec fn capped(sum: int) -> int {
    if sum > u64::MAX as int {
        u64::MAX as int
    } else {
        sum
    }
}

/// Between flushes a pending count never decreases: one merge step
/// leaves every entry already in the tally at least as large as it was.
pub proof fn lemma_tally_monotonic(m: Map<Seq<char>, u64>, k: Seq<char>, c: u32, id: Seq<char>)
    requires
        m.contains_key(id),
    ensures
        m.insert(k, bumped(m, k, c)).contains_key(id),
        m.insert(k, bumped(m, k, c))[id] >= m[id],
{
}

proof fn lemma_hit_sum_nonneg(msgs: Seq<(Seq<char>, u32)>, id: Seq<char>)
    ensures
        hit_sum(msgs, id) >= 0,
    decreases msgs.len(),
{
    if msgs.len() > 0 {
        lemma_hit_sum_nonneg(msgs.drop_last(), id);
    }
}

proof fn lemma_no_hit_sum_zero(msgs: Seq<(Seq<char>, u32)>, id: Seq<char>)
    requires
        !has_hit(msgs, id),
    ensures
        hit_sum(msgs, id) == 0,
    decreases msgs.len(),
{
    if msgs.len() > 0 {
        assert(!has_hit(msgs.drop_last(), id)) by {
            if has_hit(msgs.drop_last(), id) {
                let i = choose|i: int|
                    0 <= i < msgs.drop_last().len() && msgs.drop_last()[i].0 == id;
                assert(msgs[i].0 == id);
            }
        }
        assert(msgs[msgs.len() - 1].0 != id);
        lemma_no_hit_sum_zero(msgs.drop_last(), id);
    }
}

/// For any sequence of hit submissions merged into an empty tally, the
/// tally holds an entry for `id` exactly when some submission named `id`,
/// and that entry is the sum of all the counts submitted for `id` (capped
/// at `u64::MAX`), no matter how submissions for other ids interleave.
pub proof fn lemma_hits_accumulate(msgs: Seq<(Seq<char>, u32)>, id: Seq<char>)
    ensures
        tally_after(msgs, Map::empty()).contains_key(id) <==> has_hit(msgs, id),
        has_hit(msgs, id) ==> tally_after(msgs, Map::empty())[id] as int == capped(
            hit_sum(msgs, id),
        ),
    decreases msgs.len(),
{
    lemma_hit_sum_nonneg(msgs, id);
    if msgs.len() > 0 {
        let dl = msgs.drop_last();
        let last = msgs.last();
        lemma_hits_accumulate(dl, id);
        lemma_hit_sum_nonneg(dl, id);
        let m = tally_after(dl, Map::empty());
        if last.0 == id {
            assert(msgs[msgs.len() - 1].0 == id);
            if !m.contains_key(id) {
                lemma_no_hit_sum_zero(dl, id);
            }
        } else {
            assert(has_hit(msgs, id) <==> has_hit(dl, id)) by {
                if has_hit(msgs, id) {
                    let i = choose|i: int| 0 <= i < msgs.len() && msgs[i].0 == id;
                    assert(dl[i].0 == id);
                }
                if has_hit(dl, id) {
                    let i = choose|i: int| 0 <= i < dl.len() && dl[i].0 == id;
                    assert(msgs[i].0 == id);
                }
            }
        }
    }
}

proof fn lemma_hit_sum_remove(s: Seq<(Seq<char>, u32)>, j: int, id: Seq<char>)
    requires
        0 <= j < s.len(),
    ensures
        hit_sum(s.remove(j), id) == hit_sum(s, id) - (if s[j].0 == id {
            s[j].1 as int
        } else {
            0
        }),
    decreases s.len(),
{
    if j == s.len() - 1 {
        assert(s.remove(j) =~= s.drop_last());
    } else {
        let dl = s.drop_last();
        assert(s.remove(j).drop_last() =~= dl.remove(j));
        assert(s.remove(j).last() == s.last());
        lemma_hit_sum_remove(dl, j, id);
    }
}

proof fn lemma_hit_sum_permutation(m1: Seq<(Seq<char>, u32)>, m2: Seq<(Seq<char>, u32)>, id: Seq<
    char,
>)
    requires
        m1.to_multiset() == m2.to_multiset(),
    ensures
        hit_sum(m1, id) == hit_sum(m2, id),
    decreases m1.len(),
{
    broadcast use vstd::seq_lib::group_to_multiset_ensures;

    if m1.len() == 0 {
        assert(m2.len() == m2.to_multiset().len());
    } else {
        let e = m1.last();
        assert(m1.contains(e));
        assert(m2.to_multiset().count(e) > 0);
        assert(m2.contains(e));
        let j = choose|j: int| 0 <= j < m2.len() && m2[j] == e;
        assert(m1.drop_last() =~= m1.remove(m1.len() - 1));
        assert(m1.remove(m1.len() - 1).to_multiset() == m1.to_multiset().remove(e));
        assert(m2.remove(j).to_multiset() == m2.to_multiset().remove(e));
        lemma_hit_sum_permutation(m1.drop_last(), m2.remove(j), id);
        lemma_hit_sum_remove(m2, j, id);
    }
}

proof fn lemma_has_hit_from_multiset(m1: Seq<(Seq<char>, u32)>, m2: Seq<(Seq<char>, u32)>, id: Seq<
    char,
>)
    requires
        m1.to_multiset() == m2.to_multiset(),
        has_hit(m1, id),
    ensures
        has_hit(m2, id),
{
    broadcast use vstd::seq_lib::group_to_multiset_ensures;

    let i = choose|i: int| 0 <= i < m1.len() && (#[trigger] m1[i]).0 == id;
    assert(m1.contains(m1[i]));
    assert(m2.to_multiset().count(m1[i]) > 0);
    assert(m2.contains(m1[i]));
    let j = choose|j: int| 0 <= j < m2.len() && m2[j] == m1[i];
    assert(m2[j].0 == id);
}

/// However concurrent submissions interleave — that is, for any two
/// arrival orders of the same multiset of hit messages — the tally they
/// build from empty is the same: nothing is lost and nothing is counted
/// twice.
pub proof fn lemma_tally_ignores_arrival_order(
    m1: Seq<(Seq<char>, u32)>,
    m2: Seq<(Seq<char>, u32)>,
)
    requires
        m1.to_multiset() == m2.to_multiset(),
    ensures
        tally_after(m1, Map::empty()) == tally_after(m2, Map::empty()),
{
    let t1 = tally_after(m1, Map::empty());
    let t2 = tally_after(m2, Map::empty());
    assert forall|k: Seq<char>| #[trigger] t1.contains_key(k) implies t2.contains_key(k) && t1[k]
        == t2[k] by {
        lemma_hits_accumulate(m1, k);
        lemma_hits_accumulate(m2, k);
        lemma_has_hit_from_multiset(m1, m2, k);
        lemma_hit_sum_permutation(m1, m2, k);
    }
    assert forall|k: Seq<char>| #[trigger] t2.contains_key(k) implies t1.contains_key(k) by {
        lemma_hits_accumulate(m1, k);
        lemma_hits_accumulate(m2, k);
        lemma_has_hit_from_multiset(m2, m1, k);
    }
    assert(t1 =~= t2);
}

/// The persisted increment of a flush, end to end: when the tally built
/// from `msgs` is drained into a snapshot and flushed, a stored clip with
/// shortcode `id` and `hits0` prior hits ends with exactly `hits0` plus
/// the sum of all counts submitted for `id` — provided that total stays
/// within the counter's range.
pub proof fn lemma_persisted_delta(
    msgs: Seq<(Seq<char>, u32)>,
    snap: Seq<(ShortCode, u64)>,
    id: Seq<char>,
    hits0: u64,
)
    requires
        entries_map(snap) == tally_after(msgs, Map::empty()),
        hits0 + hit_sum(msgs, id) <= u64::MAX,
    ensures
        sat_add_u64(hits0, snapshot_count(snap, id)) == hits0 + hit_sum(msgs, id),
{
    lemma_hits_accumulate(msgs, id);
    lemma_hit_sum_nonneg(msgs, id);
    if !has_hit(msgs, id) {
        lemma_no_hit_sum_zero(msgs, id);
    }
}

} // verus!
