//! Rules that turn raw readings into the values a sample records.

use vstd::prelude::*;

verus! {

/// Space in use on a disk: what remains of `total` once `available` is taken
/// away, and zero where the reading of `available` exceeds `total`.
pub open spec fn used_space_of(total: u64, available: u64) -> u64 {
    if available <= total {
        (total - available) as u64
    } else {
        0
    }
}

/// Computes the space in use on a disk from its total and available space.
pub fn used_space(total: u64, available: u64) -> (used: u64)
    ensures
        used == used_space_of(total, available),
        used <= total,
{
    total.saturating_sub(available)
}

/// The timestamp of a sample: the milliseconds that have passed since the
/// epoch, cut to the 64 low bits, and zero where the clock reads a time before
/// the epoch.
pub open spec fn timestamp_of(elapsed_millis: Option<u128>) -> u64 {
    match elapsed_millis {
        Some(millis) => (millis % 0x1_0000_0000_0000_0000) as u64,
        None => 0,
    }
}

/// Computes the timestamp of a sample from the milliseconds since the epoch,
/// where the clock could give them.
pub fn timestamp_from_millis(elapsed_millis: Option<u128>) -> (timestamp: u64)
    ensures
        timestamp == timestamp_of(elapsed_millis),
{
    match elapsed_millis {
        Some(millis) => {
            let low: u128 = millis % 0x1_0000_0000_0000_0000;
            low as u64
        },
        None => 0,
    }
}

} // verus!
