//! The mathematical model of a sample history: a sequence of records in the
//! order in which they were accepted, the rule that admits a new record, the
//! rule that evicts the oldest one, and the selection of the records newer
//! than a threshold.

use vstd::prelude::*;

verus! {

/// A retained sample as contracts see it: the time it was taken, in
/// milliseconds since the epoch, and its encoded form.
pub ghost struct Record {
    pub timestamp: u64,
    pub payload: Seq<u8>,
}

/// Timestamps never decrease from one position to a later one.
pub open spec fn ascending(s: Seq<Record>) -> bool {
    forall|i: int, j: int| 0 <= i <= j < s.len() ==> s[i].timestamp <= s[j].timestamp
}

/// Timestamps grow from each position to every later one, so no two records
/// share a timestamp.
pub open spec fn strictly_ascending(s: Seq<Record>) -> bool {
    forall|i: int, j: int| 0 <= i < j < s.len() ==> s[i].timestamp < s[j].timestamp
}

/// A history that may be held under the limit `capacity`: strictly ascending
/// and no longer than the limit.
pub open spec fn valid_history(s: Seq<Record>, capacity: nat) -> bool {
    &&& strictly_ascending(s)
    &&& s.len() <= capacity
}

/// Whether a sample taken at `timestamp` is admitted after the history `s`:
/// the history is empty, or its latest record is strictly older.
pub open spec fn accepts(s: Seq<Record>, timestamp: u64) -> bool {
    s.len() == 0 || s.last().timestamp < timestamp
}

/// The history that follows `s` when `record` is offered under the limit
/// `capacity`. A record that is not admitted leaves the history as it is. An
/// admitted one goes to the tail, after the oldest record has left where the
/// history is full. A history limited to zero records retains nothing.
pub open spec fn appended(s: Seq<Record>, capacity: nat, record: Record) -> Seq<Record> {
    if !accepts(s, record.timestamp) || capacity == 0 {
        s
    } else if s.len() >= capacity {
        s.drop_first().push(record)
    } else {
        s.push(record)
    }
}

/// The history that follows `s` when the records of `batch` are offered one
/// after the other, first to last.
pub open spec fn replayed(s: Seq<Record>, capacity: nat, batch: Seq<Record>) -> Seq<Record>
    decreases batch.len(),
{
    if batch.len() == 0 {
        s
    } else {
        appended(replayed(s, capacity, batch.drop_last()), capacity, batch.last())
    }
}

/// The last `count` records of `s`, or all of `s` where it holds fewer.
pub open spec fn most_recent(s: Seq<Record>, count: nat) -> Seq<Record> {
    if s.len() <= count {
        s
    } else {
        s.subrange(s.len() - count, s.len() as int)
    }
}

/// The records of `s` taken after `threshold`, in the order of `s`.
pub open spec fn newer_than(s: Seq<Record>, threshold: u64) -> Seq<Record> {
    s.filter(|r: Record| r.timestamp > threshold)
}

/// Position `k` parts `s` into the records no newer than `threshold` and the
/// records newer than it.
pub open spec fn is_boundary(s: Seq<Record>, k: int, threshold: u64) -> bool {
    &&& 0 <= k <= s.len()
    &&& forall|i: int| 0 <= i < k ==> s[i].timestamp <= threshold
    &&& forall|i: int| k <= i < s.len() ==> s[i].timestamp > threshold
}

/// A strictly ascending history is ascending.
pub proof fn lemma_strict_is_ascending(s: Seq<Record>)
    requires
        strictly_ascending(s),
    ensures
        ascending(s),
{
}

/// Offering a record keeps a valid history valid.
pub proof fn lemma_appended_valid(s: Seq<Record>, capacity: nat, record: Record)
    requires
        valid_history(s, capacity),
    ensures
        valid_history(appended(s, capacity, record), capacity),
{
    let t = appended(s, capacity, record);
    if accepts(s, record.timestamp) && capacity > 0 {
        assert forall|i: int, j: int| 0 <= i < j < t.len() implies t[i].timestamp
            < t[j].timestamp by {
            let shift: int = if s.len() >= capacity {
                1
            } else {
                0
            };
            assert(t[i] == s[i + shift]);
            if j == t.len() - 1 {
                assert(s[i + shift].timestamp <= s.last().timestamp);
            } else {
                assert(t[j] == s[j + shift]);
            }
        }
    }
}

/// Where every record before position `k` is no newer than `threshold` and
/// every record from `k` on is newer, the records newer than `threshold` are
/// those from `k` on.
pub proof fn lemma_newer_than_suffix(s: Seq<Record>, k: int, threshold: u64)
    requires
        0 <= k <= s.len(),
        forall|i: int| 0 <= i < k ==> s[i].timestamp <= threshold,
        forall|i: int| k <= i < s.len() ==> s[i].timestamp > threshold,
    ensures
        newer_than(s, threshold) == s.skip(k),
    decreases s.len(),
{
    reveal(Seq::filter);
    if s.len() > 0 {
        let front = s.drop_last();
        if k == s.len() {
            lemma_newer_than_suffix(front, k - 1, threshold);
        } else {
            lemma_newer_than_suffix(front, k, threshold);
            assert(front.skip(k).push(s.last()) =~= s.skip(k));
        }
    }
}

/// The records newer than `threshold` in two histories laid end to end are
/// those of the first followed by those of the second.
pub proof fn lemma_newer_than_concat(a: Seq<Record>, b: Seq<Record>, threshold: u64)
    ensures
        newer_than(a + b, threshold) == newer_than(a, threshold) + newer_than(b, threshold),
{
    Seq::filter_distributes_over_add(a, b, |r: Record| r.timestamp > threshold);
}

/// An ascending history has a position that parts it at any threshold.
pub proof fn lemma_boundary_exists(s: Seq<Record>, threshold: u64)
    requires
        ascending(s),
    ensures
        exists|k: int| is_boundary(s, k, threshold),
    decreases s.len(),
{
    if s.len() == 0 {
        assert(is_boundary(s, 0, threshold));
    } else {
        let front = s.drop_last();
        assert forall|i: int, j: int| 0 <= i <= j < front.len() implies front[i].timestamp
            <= front[j].timestamp by {
            assert(front[i] == s[i] && front[j] == s[j]);
        }
        lemma_boundary_exists(front, threshold);
        let k = choose|k: int| is_boundary(front, k, threshold);
        if s.last().timestamp > threshold {
            assert forall|i: int| 0 <= i < k implies s[i].timestamp <= threshold by {
                assert(front[i] == s[i]);
            }
            assert forall|i: int| k <= i < s.len() implies s[i].timestamp > threshold by {
                if i < front.len() {
                    assert(front[i] == s[i]);
                }
            }
            assert(is_boundary(s, k, threshold));
        } else {
            assert forall|i: int| 0 <= i < s.len() implies s[i].timestamp <= threshold by {
                assert(s[i].timestamp <= s.last().timestamp);
            }
            assert(is_boundary(s, s.len() as int, threshold));
        }
    }
}

/// The records selected for a threshold are exactly the records of the
/// history taken after it, and no others; they form the tail of the history,
/// so they keep its order.
pub proof fn law_range_exact(s: Seq<Record>, threshold: u64)
    requires
        ascending(s),
    ensures
        forall|r: Record|
            newer_than(s, threshold).contains(r) <==> s.contains(r) && r.timestamp > threshold,
        newer_than(s, threshold).len() <= s.len(),
        newer_than(s, threshold) == s.skip(s.len() - newer_than(s, threshold).len()),
{
    let pred = |r: Record| r.timestamp > threshold;
    let selected = newer_than(s, threshold);
    broadcast use vstd::seq_lib::group_filter_ensures;

    assert forall|r: Record| selected.contains(r) <==> s.contains(r) && r.timestamp
        > threshold by {
        if selected.contains(r) {
            s.lemma_filter_contains_rev(pred, r);
        }
    }
    lemma_boundary_exists(s, threshold);
    let k = choose|k: int| is_boundary(s, k, threshold);
    lemma_newer_than_suffix(s, k, threshold);
}

/// A threshold that is not older than the latest record selects nothing, and
/// nothing is selected from an empty history.
pub proof fn law_range_at_latest(s: Seq<Record>, threshold: u64)
    requires
        ascending(s),
        s.len() == 0 || s.last().timestamp <= threshold,
    ensures
        newer_than(s, threshold) == Seq::<Record>::empty(),
{
    assert forall|i: int| 0 <= i < s.len() implies s[i].timestamp <= threshold by {
        assert(s[i].timestamp <= s.last().timestamp);
    }
    lemma_newer_than_suffix(s, s.len() as int, threshold);
    assert(s.skip(s.len() as int) =~= Seq::<Record>::empty());
}

/// Where no record carries the timestamp zero, the threshold zero selects
/// the whole history.
pub proof fn law_range_from_zero(s: Seq<Record>)
    requires
        forall|i: int| 0 <= i < s.len() ==> s[i].timestamp > 0,
    ensures
        newer_than(s, 0) == s,
{
    lemma_newer_than_suffix(s, 0, 0);
    assert(s.skip(0) =~= s);
}

/// Offering a record that is not newer than the latest one changes nothing:
/// the history keeps its length and its contents.
pub proof fn law_stale_record_dropped(s: Seq<Record>, capacity: nat, record: Record)
    requires
        s.len() > 0,
        record.timestamp <= s.last().timestamp,
    ensures
        appended(s, capacity, record) == s,
{
}

/// Offering, in order, records that continue a valid history in strictly
/// ascending order leaves the most recent `capacity` records of the history
/// followed by the batch.
pub proof fn law_replay_keeps_most_recent(s: Seq<Record>, capacity: nat, batch: Seq<Record>)
    requires
        valid_history(s, capacity),
        strictly_ascending(s + batch),
    ensures
        replayed(s, capacity, batch) == most_recent(s + batch, capacity),
        valid_history(replayed(s, capacity, batch), capacity),
    decreases batch.len(),
{
    let all = s + batch;
    if batch.len() == 0 {
        assert(all =~= s);
    } else {
        let earlier = batch.drop_last();
        let record = batch.last();
        let before = s + earlier;
        assert(before =~= all.drop_last());
        assert forall|i: int, j: int| 0 <= i < j < before.len() implies before[i].timestamp
            < before[j].timestamp by {
            assert(before[i] == all[i] && before[j] == all[j]);
        }
        law_replay_keeps_most_recent(s, capacity, earlier);
        let kept = most_recent(before, capacity);
        assert(all.last() == record);
        if kept.len() > 0 {
            assert(kept.last() == all[all.len() - 2]);
        }
        assert(accepts(kept, record.timestamp));
        assert(appended(kept, capacity, record) =~= most_recent(all, capacity));
        lemma_appended_valid(kept, capacity, record);
    }
}

/// Once at least `capacity` records have been offered in strictly ascending
/// order after a valid history, the history holds exactly `capacity` records,
/// and they are the last `capacity` records offered.
pub proof fn law_capacity_bound(s: Seq<Record>, capacity: nat, batch: Seq<Record>)
    requires
        valid_history(s, capacity),
        strictly_ascending(s + batch),
        batch.len() >= capacity,
    ensures
        replayed(s, capacity, batch).len() == capacity,
        replayed(s, capacity, batch) == batch.skip(batch.len() - capacity),
{
    law_replay_keeps_most_recent(s, capacity, batch);
    assert(most_recent(s + batch, capacity) =~= batch.skip(batch.len() - capacity));
}

/// After records with strictly increasing timestamps, none of them zero,
/// have been offered to an empty history, the threshold zero selects the
/// retained records in the order in which they were offered, which is
/// ascending by timestamp.
pub proof fn law_append_order(capacity: nat, batch: Seq<Record>)
    requires
        strictly_ascending(batch),
        forall|i: int| 0 <= i < batch.len() ==> batch[i].timestamp > 0,
    ensures
        newer_than(replayed(Seq::empty(), capacity, batch), 0) == most_recent(batch, capacity),
        strictly_ascending(most_recent(batch, capacity)),
{
    let start = Seq::<Record>::empty();
    assert(start + batch =~= batch);
    law_replay_keeps_most_recent(start, capacity, batch);
    let kept = most_recent(batch, capacity);
    assert forall|i: int| 0 <= i < kept.len() implies kept[i].timestamp > 0 by {
        if batch.len() > capacity {
            assert(kept[i] == batch[batch.len() - capacity + i]);
        }
    }
    law_range_from_zero(kept);
}

} // verus!
