//! Metrics over the neurons of a neuron store: counts and sums of stake,
//! maturity and voting power, broken out by neuron state and by dissolve
//! delay bucket.

pub mod neuron;
pub mod tally;
pub mod buckets;
pub mod subset_metrics;
pub mod heap;
pub mod metrics;
pub mod bucket_totals;
pub mod laws;
