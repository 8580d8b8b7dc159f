//! Fan-out of per-core CPU readings: a single writer publishes snapshots into a
//! latest-value cell, and any number of subscriptions read from it, each at its
//! own pace, always in publish order and always converging to the newest value.
pub mod publisher;
