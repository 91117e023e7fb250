//! Binary search over a run of entries ordered by timestamp.

use crate::entry::Entry;
use superslice::Ext;
use vstd::prelude::*;

verus! {

/// Calls `superslice::Ext::lower_bound_by_key` on `run`, keyed by timestamp.
///
/// Not proved here: on a run whose timestamps never decrease, the call
/// returns the position of the first entry whose timestamp is not less than
/// `key`, or the length of the run where there is none. So every entry before
/// that position is older than `key` and every entry from it on is not.
#[verifier::external_body]
pub(crate) fn lower_bound_by_timestamp(run: &[Entry], key: u64) -> (index: usize)
    requires
        forall|i: int, j: int| 0 <= i <= j < run@.len() ==> run@[i].timestamp <= run@[j].timestamp,
    ensures
        index <= run@.len(),
        forall|i: int| 0 <= i < index ==> run@[i].timestamp < key,
        forall|i: int| index <= i < run@.len() ==> run@[i].timestamp >= key,
{
    run.lower_bound_by_key(&key, |entry| entry.timestamp)
}

} // verus!
