# neuron_metrics

Metrics over the neurons of a neuron store: how many neurons are dissolving,
not dissolving or dissolved, how much stake, maturity and staked maturity they
hold, broken out by dissolve delay bucket (dissolve delay divided by six
months, rounded down), plus a saturating rollup over neurons whose controller
is not self-authenticating.

- `src/neuron.rs`: what the metrics read of a neuron, and the bucket width.
- `src/tally.rs`: sums over sequences of neurons, in whole and per bucket.
- `src/buckets.rs`: per-bucket subtotals held in hash maps.
- `src/subset_metrics.rs`: the saturating rollup.
- `src/heap.rs`: the heap neurons, a `BTreeMap` by neuron id, read in id order.
- `src/metrics.rs`: `NeuronMetrics`, `NeuronStore::compute_neuron_metrics`.
- `src/bucket_totals.rs`, `src/laws.rs`: properties proved of every result.
- `app/lib.rs`: the exported form, with e8s breakdowns as `f64`.
