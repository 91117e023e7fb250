//! A store behind a reader-writer lock, for one writer and any number of
//! readers at a time. The lock admits only well-formed stores, so whatever a
//! reader finds under it is a whole, ordered history.

use crate::query::response;
use crate::series::{valid_history, Record};
use crate::store::Store;
use vstd::prelude::*;
use vstd::rwlock::{RwLock, RwLockPredicate};

verus! {

/// What the lock admits: a well-formed store with the limit `max_snapshots`.
struct Admitted {
    max_snapshots: usize,
}

impl RwLockPredicate<Store> for Admitted {
    closed spec fn inv(self, store: Store) -> bool {
        &&& store.well_formed()
        &&& store.limit() == self.max_snapshots
    }
}

/// A store that may be appended to and queried through a shared reference.
pub struct SharedStore {
    lock: RwLock<Store, Admitted>,
}

impl SharedStore {
    /// The largest number of records that the store retains.
    pub closed spec fn limit(&self) -> nat {
        self.lock.pred().max_snapshots as nat
    }

    /// Puts `store` behind a lock.
    pub fn new(store: Store) -> (shared: SharedStore)
        ensures
            shared.limit() == store.limit(),
    {
        proof {
            use_type_invariant(&store);
        }
        let max_snapshots = store.capacity();
        SharedStore { lock: RwLock::new(store, Ghost(Admitted { max_snapshots })) }
    }

    /// The largest number of samples that the store retains.
    pub fn capacity(&self) -> (max_snapshots: usize)
        ensures
            max_snapshots == self.limit(),
    {
        let guard = self.lock.acquire_read();
        let max_snapshots = guard.borrow().capacity();
        guard.release_read();
        max_snapshots
    }

    /// Offers a sample to the store as `Store::append` does, with every
    /// reader and any other writer kept out for the duration of the change.
    pub fn append(&self, timestamp: u64, payload: Vec<u8>) {
        let (mut store, guard) = self.lock.acquire_write();
        store.append(timestamp, payload);
        guard.release_write(store);
    }

    /// Answers a query as `Store::query_since` does, on the store as it
    /// stands while no writer is at work: the answer is that of one whole,
    /// well-formed history.
    pub fn query_since(&self, threshold: u64) -> (body: Vec<u8>)
        ensures
            exists|s: Seq<Record>|
                valid_history(s, self.limit()) && body@ == #[trigger] response(s, threshold),
    {
        let guard = self.lock.acquire_read();
        let body = guard.borrow().query_since(threshold);
        proof {
            let s = guard.view()@;
            assert(valid_history(s, self.limit()) && body@ == response(s, threshold));
        }
        guard.release_read();
        body
    }
}

} // verus!
