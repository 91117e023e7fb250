//! Bounded, time-ordered history of encoded host-metrics samples.

pub mod entry;
pub mod producer;
pub mod query;
pub mod request;
pub mod sample;
pub mod search;
pub mod series;
pub mod shared;
pub mod store;
