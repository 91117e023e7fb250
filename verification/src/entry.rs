//! The stored form of a sample and its reading as a record of the model.

use crate::series::Record;
use vstd::prelude::*;

verus! {

/// A stored sample: the time it was taken, in milliseconds since the epoch,
/// and its encoded form, kept as it was handed in.
pub struct Entry {
    pub timestamp: u64,
    pub payload: Vec<u8>,
}

impl View for Entry {
    type V = Record;

    open spec fn view(&self) -> Record {
        Record { timestamp: self.timestamp, payload: self.payload@ }
    }
}

impl Entry {
    /// Pairs a timestamp with an encoded sample.
    pub fn new(timestamp: u64, payload: Vec<u8>) -> (entry: Entry)
        ensures
            entry.timestamp == timestamp,
            entry.payload == payload,
    {
        Entry { timestamp, payload }
    }
}

/// The records that a run of entries stands for, in the same order.
pub open spec fn records(entries: Seq<Entry>) -> Seq<Record> {
    entries.map_values(|e: Entry| e@)
}

} // verus!
