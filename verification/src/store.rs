//! The time-series store: a history of encoded samples, ordered by
//! timestamp and held under a fixed limit, that one writer extends at the
//! tail and readers query by threshold.

use crate::entry::{records, Entry};
use crate::query::{range_query, response};
use crate::series::{
    accepts, appended, lemma_appended_valid, lemma_strict_is_ascending, valid_history, Record,
};
use std::collections::VecDeque;
use vstd::prelude::*;

verus! {

/// The number of samples retained unless another limit is chosen: a day of
/// samples taken once a minute.
pub const MAX_SNAPSHOTS: usize = 1440;

/// A bounded history of samples in the order of their timestamps.
pub struct Store {
    entries: VecDeque<Entry>,
    max_snapshots: usize,
}

impl View for Store {
    type V = Seq<Record>;

    /// The retained records, oldest first.
    closed spec fn view(&self) -> Seq<Record> {
        records(self.entries@)
    }
}

/// Calls `VecDeque::as_slices`.
///
/// Not proved here: the two slices returned hold, in order, the contents of
/// the deque, the first slice before the second.
#[verifier::external_body]
fn as_slices(entries: &VecDeque<Entry>) -> (runs: (&[Entry], &[Entry]))
    ensures
        runs.0@ + runs.1@ == entries@,
{
    entries.as_slices()
}

impl Store {
    /// The largest number of records that the store retains.
    pub closed spec fn limit(&self) -> nat {
        self.max_snapshots as nat
    }

    /// The invariant of the store: timestamps grow strictly from the oldest
    /// record to the latest, and the records are no more than the limit.
    #[verifier::type_invariant]
    pub open spec fn well_formed(&self) -> bool {
        valid_history(self@, self.limit())
    }

    /// An empty store that retains up to `MAX_SNAPSHOTS` samples.
    pub fn new() -> (store: Store)
        ensures
            store.well_formed(),
            store@ == Seq::<Record>::empty(),
            store.limit() == MAX_SNAPSHOTS,
    {
        Store::with_capacity(MAX_SNAPSHOTS)
    }

    /// An empty store that retains up to `max_snapshots` samples. With a
    /// limit of zero it retains none.
    pub fn with_capacity(max_snapshots: usize) -> (store: Store)
        ensures
            store.well_formed(),
            store@ == Seq::<Record>::empty(),
            store.limit() == max_snapshots,
    {
        let store = Store { entries: VecDeque::new(), max_snapshots };
        assert(store@ =~= Seq::<Record>::empty());
        store
    }

    /// The largest number of samples that the store retains.
    pub fn capacity(&self) -> (max_snapshots: usize)
        ensures
            max_snapshots == self.limit(),
    {
        self.max_snapshots
    }

    /// The number of samples retained now, which never exceeds the limit.
    pub fn len(&self) -> (count: usize)
        ensures
            count == self@.len(),
            count <= self.limit(),
    {
        proof {
            use_type_invariant(self);
        }
        self.entries.len()
    }

    /// Whether no sample is retained.
    pub fn is_empty(&self) -> (empty: bool)
        ensures
            empty == (self@.len() == 0),
    {
        self.entries.len() == 0
    }

    /// The timestamp of the latest sample retained, if there is one.
    pub fn latest_timestamp(&self) -> (latest: Option<u64>)
        ensures
            latest == if self@.len() == 0 {
                None
            } else {
                Some(self@.last().timestamp)
            },
    {
        let count = self.entries.len();
        if count == 0 {
            None
        } else {
            Some(self.entries[count - 1].timestamp)
        }
    }

    /// Offers a sample taken at `timestamp`. It is retained at the tail if
    /// the store is empty or `timestamp` is strictly greater than that of the
    /// latest sample; otherwise it is dropped and the store stays as it is.
    /// Where the store is full, the oldest sample leaves first. A store
    /// limited to zero samples drops every sample.
    pub fn append(&mut self, timestamp: u64, payload: Vec<u8>)
        ensures
            final(self).well_formed(),
            final(self).limit() == old(self).limit(),
            final(self)@ == appended(
                old(self)@,
                old(self).limit(),
                Record { timestamp, payload: payload@ },
            ),
            !accepts(old(self)@, timestamp) ==> final(self)@ == old(self)@,
    {
        let ghost before = self@;
        let ghost record = Record { timestamp, payload: payload@ };
        proof {
            use_type_invariant(&*self);
            lemma_appended_valid(before, self.limit(), record);
        }
        let count = self.entries.len();
        let admitted = count == 0 || self.entries[count - 1].timestamp < timestamp;
        if admitted && self.max_snapshots > 0 {
            let mut entries: VecDeque<Entry> = VecDeque::new();
            std::mem::swap(&mut entries, &mut self.entries);
            if count >= self.max_snapshots {
                let _ = entries.pop_front();
                assert(records(entries@) =~= before.drop_first());
            }
            let ghost kept = records(entries@);
            entries.push_back(Entry { timestamp, payload });
            assert(records(entries@) =~= kept.push(record));
            self.entries = entries;
        }
    }

    /// The samples taken after `threshold`, oldest first, as one JSON array:
    /// each payload as it was handed in, a comma between each two, within
    /// square brackets. Where no sample qualifies the array is empty.
    pub fn query_since(&self, threshold: u64) -> (body: Vec<u8>)
        ensures
            body@ == response(self@, threshold),
    {
        let (front, back) = as_slices(&self.entries);
        proof {
            use_type_invariant(self);
            assert(records(front@) + records(back@) =~= self@);
            lemma_strict_is_ascending(self@);
        }
        range_query(front, back, threshold)
    }
}

} // verus!
