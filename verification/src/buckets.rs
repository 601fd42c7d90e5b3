//! Per-bucket subtotals held in hash maps keyed by dissolve delay bucket.

use vstd::prelude::*;
use std::collections::HashMap;
use crate::tally::bucket_value;

verus! {

/// The value `buckets` holds at `bucket`, zero where it holds none.
fn value_at(buckets: &HashMap<u64, u64>, bucket: u64) -> (v: u64)
    ensures
        v == bucket_value(buckets@, bucket),
{
    match buckets.get(&bucket) {
        Some(v) => *v,
        None => 0,
    }
}

/// Adds one to the count held at `bucket`, starting from zero.
pub fn increment_count_bucket(buckets: &mut HashMap<u64, u64>, bucket: u64)
    requires
        bucket_value(old(buckets)@, bucket) < u64::MAX,
    ensures
        final(buckets)@ == old(buckets)@.insert(
            bucket,
            (bucket_value(old(buckets)@, bucket) + 1) as u64,
        ),
{
    let current: u64 = value_at(buckets, bucket);
    buckets.insert(bucket, current + 1);
}

/// Adds `increment` e8s to the sum held at `bucket`, starting from zero.
pub fn increment_e8s_bucket(buckets: &mut HashMap<u64, u64>, bucket: u64, increment: u64)
    requires
        bucket_value(old(buckets)@, bucket) + increment <= u64::MAX,
    ensures
        final(buckets)@ == old(buckets)@.insert(
            bucket,
            (bucket_value(old(buckets)@, bucket) + increment) as u64,
        ),
{
    let current: u64 = value_at(buckets, bucket);
    buckets.insert(bucket, current + increment);
}

/// Adds `amount` to the subtotal held at `bucket`, starting from zero and
/// stopping at `u64::MAX`.
pub fn increment_bucket_saturating(buckets: &mut HashMap<u64, u64>, bucket: u64, amount: u64)
    ensures
        final(buckets)@ == old(buckets)@.insert(
            bucket,
            if bucket_value(old(buckets)@, bucket) + amount <= u64::MAX {
                (bucket_value(old(buckets)@, bucket) + amount) as u64
            } else {
                u64::MAX
            },
        ),
{
    let current: u64 = value_at(buckets, bucket);
    buckets.insert(bucket, current.saturating_add(amount));
}

} // verus!
