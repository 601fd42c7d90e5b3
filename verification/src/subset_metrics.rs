//! Saturating rollups over a subset of the neurons.

use vstd::prelude::*;
use std::collections::HashMap;
use crate::neuron::{
    Neuron, bucket_of, dissolve_delay_bucket, staked_maturity_of, minted_stake, staked_maturity,
    maturity, voting_power,
};
use crate::tally::{
    bucket_keys, bucket_value, in_bucket, one, saturated, share, sum_of, tallies_saturating,
    lemma_bucket_keys_push, lemma_sum_of_push, lemma_sum_outside_keys,
};
use crate::buckets::increment_bucket_saturating;

verus! {

/// `a + b`, or `u64::MAX` where that is larger.
pub open spec fn sat_add(a: u64, b: u64) -> u64 {
    saturated(a + b) as u64
}

/// `m` with `amount` added at `bucket` (from zero, stopping at `u64::MAX`).
pub open spec fn bucket_sat_add(m: Map<u64, u64>, bucket: u64, amount: u64) -> Map<u64, u64> {
    m.insert(bucket, saturated(bucket_value(m, bucket) + amount) as u64)
}

/// Totals over a subset of the neurons, in whole and broken out by dissolve
/// delay bucket. Every total stops at `u64::MAX` rather than overflow.
#[derive(Clone, Debug)]
pub struct NeuronSubsetMetrics {
    pub count: u64,
    /// Staked = (most recently seen) balance - fees.
    pub total_staked_e8s: u64,
    pub total_staked_maturity_e8s_equivalent: u64,
    pub total_maturity_e8s_equivalent: u64,
    pub total_voting_power: u64,
    /// Broken out by dissolve delay bucket (dissolve delay divided by six
    /// months, rounded down): a neuron with a dissolve delay of 7 months
    /// counts under key 1.
    pub count_buckets: HashMap<u64, u64>,
    pub staked_e8s_buckets: HashMap<u64, u64>,
    pub staked_maturity_e8s_equivalent_buckets: HashMap<u64, u64>,
    pub maturity_e8s_equivalent_buckets: HashMap<u64, u64>,
    pub voting_power_buckets: HashMap<u64, u64>,
}

impl NeuronSubsetMetrics {
    /// All totals zero, every breakdown empty.
    pub open spec fn is_empty(self) -> bool {
        &&& self.count == 0
        &&& self.total_staked_e8s == 0
        &&& self.total_staked_maturity_e8s_equivalent == 0
        &&& self.total_maturity_e8s_equivalent == 0
        &&& self.total_voting_power == 0
        &&& self.count_buckets@ == Map::<u64, u64>::empty()
        &&& self.staked_e8s_buckets@ == Map::<u64, u64>::empty()
        &&& self.staked_maturity_e8s_equivalent_buckets@ == Map::<u64, u64>::empty()
        &&& self.maturity_e8s_equivalent_buckets@ == Map::<u64, u64>::empty()
        &&& self.voting_power_buckets@ == Map::<u64, u64>::empty()
    }

    /// `self` is `before` with neuron `n` counted once more.
    pub open spec fn counts_one_more(self, before: Self, n: Neuron) -> bool {
        let b = bucket_of(n);
        &&& self.count == sat_add(before.count, 1)
        &&& self.total_staked_e8s == sat_add(before.total_staked_e8s, n.minted_stake_e8s)
        &&& self.total_staked_maturity_e8s_equivalent == sat_add(
            before.total_staked_maturity_e8s_equivalent,
            staked_maturity_of(n),
        )
        &&& self.total_maturity_e8s_equivalent == sat_add(
            before.total_maturity_e8s_equivalent,
            n.maturity_e8s_equivalent,
        )
        &&& self.total_voting_power == sat_add(before.total_voting_power, n.voting_power)
        &&& self.count_buckets@ == bucket_sat_add(before.count_buckets@, b, 1)
        &&& self.staked_e8s_buckets@ == bucket_sat_add(
            before.staked_e8s_buckets@,
            b,
            n.minted_stake_e8s,
        )
        &&& self.staked_maturity_e8s_equivalent_buckets@ == bucket_sat_add(
            before.staked_maturity_e8s_equivalent_buckets@,
            b,
            staked_maturity_of(n),
        )
        &&& self.maturity_e8s_equivalent_buckets@ == bucket_sat_add(
            before.maturity_e8s_equivalent_buckets@,
            b,
            n.maturity_e8s_equivalent,
        )
        &&& self.voting_power_buckets@ == bucket_sat_add(
            before.voting_power_buckets@,
            b,
            n.voting_power,
        )
    }

    /// `self` holds the saturating totals of the neurons of `s` that
    /// `selected` picks.
    pub open spec fn describes(self, s: Seq<Neuron>, selected: spec_fn(Neuron) -> bool) -> bool {
        &&& self.count == saturated(sum_of(s, one(), selected))
        &&& self.total_staked_e8s == saturated(sum_of(s, minted_stake(), selected))
        &&& self.total_staked_maturity_e8s_equivalent == saturated(
            sum_of(s, staked_maturity(), selected),
        )
        &&& self.total_maturity_e8s_equivalent == saturated(sum_of(s, maturity(), selected))
        &&& self.total_voting_power == saturated(sum_of(s, voting_power(), selected))
        &&& tallies_saturating(self.count_buckets@, s, one(), selected)
        &&& tallies_saturating(self.staked_e8s_buckets@, s, minted_stake(), selected)
        &&& tallies_saturating(
            self.staked_maturity_e8s_equivalent_buckets@,
            s,
            staked_maturity(),
            selected,
        )
        &&& tallies_saturating(self.maturity_e8s_equivalent_buckets@, s, maturity(), selected)
        &&& tallies_saturating(self.voting_power_buckets@, s, voting_power(), selected)
    }

    /// `self` and `other` hold the same totals and the same breakdowns.
    pub open spec fn same_as(self, other: Self) -> bool {
        &&& self.count == other.count
        &&& self.total_staked_e8s == other.total_staked_e8s
        &&& self.total_staked_maturity_e8s_equivalent == other.total_staked_maturity_e8s_equivalent
        &&& self.total_maturity_e8s_equivalent == other.total_maturity_e8s_equivalent
        &&& self.total_voting_power == other.total_voting_power
        &&& self.count_buckets@ == other.count_buckets@
        &&& self.staked_e8s_buckets@ == other.staked_e8s_buckets@
        &&& self.staked_maturity_e8s_equivalent_buckets@
            == other.staked_maturity_e8s_equivalent_buckets@
        &&& self.maturity_e8s_equivalent_buckets@ == other.maturity_e8s_equivalent_buckets@
        &&& self.voting_power_buckets@ == other.voting_power_buckets@
    }

    /// Empty metrics.
    pub fn new() -> (m: Self)
        ensures
            m.is_empty(),
    {
        NeuronSubsetMetrics {
            count: 0,
            total_staked_e8s: 0,
            total_staked_maturity_e8s_equivalent: 0,
            total_maturity_e8s_equivalent: 0,
            total_voting_power: 0,
            count_buckets: HashMap::new(),
            staked_e8s_buckets: HashMap::new(),
            staked_maturity_e8s_equivalent_buckets: HashMap::new(),
            maturity_e8s_equivalent_buckets: HashMap::new(),
            voting_power_buckets: HashMap::new(),
        }
    }

    /// Counts `neuron`: one more neuron, its stake, staked maturity, maturity
    /// and voting power added to the totals and to the subtotals of its
    /// dissolve delay bucket, each stopping at `u64::MAX`.
    pub fn increment(&mut self, neuron: &Neuron)
        ensures
            final(self).counts_one_more(*old(self), *neuron),
    {
        let staked_e8s: u64 = neuron.minted_stake_e8s;
        let staked_maturity_e8s_equivalent: u64 = neuron.staked_maturity_e8s_equivalent.unwrap_or(
            0,
        );
        let maturity_e8s_equivalent: u64 = neuron.maturity_e8s_equivalent;
        let voting_power: u64 = neuron.voting_power;

        self.count = self.count.saturating_add(1);
        self.total_staked_e8s = self.total_staked_e8s.saturating_add(staked_e8s);
        self.total_staked_maturity_e8s_equivalent =
            self.total_staked_maturity_e8s_equivalent.saturating_add(
            staked_maturity_e8s_equivalent,
        );
        self.total_maturity_e8s_equivalent = self.total_maturity_e8s_equivalent.saturating_add(
            maturity_e8s_equivalent,
        );
        self.total_voting_power = self.total_voting_power.saturating_add(voting_power);

        // Increment metrics broken out by dissolve delay.
        let dissolve_delay_bucket: u64 = dissolve_delay_bucket(neuron.dissolve_delay_seconds);
        increment_bucket_saturating(&mut self.count_buckets, dissolve_delay_bucket, 1);
        increment_bucket_saturating(&mut self.staked_e8s_buckets, dissolve_delay_bucket, staked_e8s);
        increment_bucket_saturating(
            &mut self.staked_maturity_e8s_equivalent_buckets,
            dissolve_delay_bucket,
            staked_maturity_e8s_equivalent,
        );
        increment_bucket_saturating(
            &mut self.maturity_e8s_equivalent_buckets,
            dissolve_delay_bucket,
            maturity_e8s_equivalent,
        );
        increment_bucket_saturating(&mut self.voting_power_buckets, dissolve_delay_bucket, voting_power);
    }
}

impl Default for NeuronSubsetMetrics {
    fn default() -> (m: Self)
        ensures
            m.is_empty(),
    {
        Self::new()
    }
}

/// Empty metrics describe no neurons at all.
pub proof fn lemma_empty_describes(m: NeuronSubsetMetrics, selected: spec_fn(Neuron) -> bool)
    requires
        m.is_empty(),
    ensures
        m.describes(Seq::empty(), selected),
{
    assert(m.count_buckets@.dom() =~= bucket_keys(Seq::<Neuron>::empty(), selected));
}

/// Capping before adding a further amount caps the same as capping after.
proof fn lemma_saturated_add(a: int, v: u64)
    ensures
        saturated(saturated(a) + v) == saturated(a + v),
{
}

/// Adding a picked neuron's amount to its bucket, stopping at `u64::MAX`,
/// keeps a saturating tally exact.
proof fn lemma_tallies_saturating_push(
    m: Map<u64, u64>,
    s: Seq<Neuron>,
    x: Neuron,
    value: spec_fn(Neuron) -> nat,
    selected: spec_fn(Neuron) -> bool,
    amount: u64,
)
    requires
        tallies_saturating(m, s, value, selected),
        selected(x),
        value(x) == amount,
    ensures
        tallies_saturating(bucket_sat_add(m, bucket_of(x), amount), s.push(x), value, selected),
{
    broadcast use lemma_sum_of_push, lemma_bucket_keys_push;

    let b = bucket_of(x);
    let m2 = bucket_sat_add(m, b, amount);
    if !m.contains_key(b) {
        lemma_sum_outside_keys(s, value, selected, b);
    }
    lemma_saturated_add(sum_of(s, value, in_bucket(selected, b)), amount);
    assert(m2.dom() =~= bucket_keys(s.push(x), selected));
    assert forall|c: u64| #[trigger] m2.contains_key(c) implies m2[c] == saturated(
        sum_of(s.push(x), value, in_bucket(selected, c)),
    ) by {
        assert(sum_of(s.push(x), value, in_bucket(selected, c)) == sum_of(
            s,
            value,
            in_bucket(selected, c),
        ) + share(value, in_bucket(selected, c), x));
    }
}

/// A neuron that is not picked leaves a saturating tally exact unchanged.
proof fn lemma_tallies_saturating_skip(
    m: Map<u64, u64>,
    s: Seq<Neuron>,
    x: Neuron,
    value: spec_fn(Neuron) -> nat,
    selected: spec_fn(Neuron) -> bool,
)
    requires
        tallies_saturating(m, s, value, selected),
        !selected(x),
    ensures
        tallies_saturating(m, s.push(x), value, selected),
{
    broadcast use lemma_sum_of_push, lemma_bucket_keys_push;

    assert forall|c: u64| #[trigger] m.contains_key(c) implies m[c] == saturated(
        sum_of(s.push(x), value, in_bucket(selected, c)),
    ) by {
        assert(sum_of(s.push(x), value, in_bucket(selected, c)) == sum_of(
            s,
            value,
            in_bucket(selected, c),
        ) + share(value, in_bucket(selected, c), x));
    }
}

/// Counting a picked neuron once more turns metrics of `s` into metrics of
/// `s` followed by that neuron.
pub proof fn lemma_count_picked(
    before: NeuronSubsetMetrics,
    after: NeuronSubsetMetrics,
    s: Seq<Neuron>,
    x: Neuron,
    selected: spec_fn(Neuron) -> bool,
)
    requires
        before.describes(s, selected),
        after.counts_one_more(before, x),
        selected(x),
    ensures
        after.describes(s.push(x), selected),
{
    broadcast use lemma_sum_of_push;

    lemma_saturated_add(sum_of(s, one(), selected), 1);
    lemma_saturated_add(sum_of(s, minted_stake(), selected), x.minted_stake_e8s);
    lemma_saturated_add(sum_of(s, staked_maturity(), selected), staked_maturity_of(x));
    lemma_saturated_add(sum_of(s, maturity(), selected), x.maturity_e8s_equivalent);
    lemma_saturated_add(sum_of(s, voting_power(), selected), x.voting_power);
    lemma_tallies_saturating_push(before.count_buckets@, s, x, one(), selected, 1);
    lemma_tallies_saturating_push(
        before.staked_e8s_buckets@,
        s,
        x,
        minted_stake(),
        selected,
        x.minted_stake_e8s,
    );
    lemma_tallies_saturating_push(
        before.staked_maturity_e8s_equivalent_buckets@,
        s,
        x,
        staked_maturity(),
        selected,
        staked_maturity_of(x),
    );
    lemma_tallies_saturating_push(
        before.maturity_e8s_equivalent_buckets@,
        s,
        x,
        maturity(),
        selected,
        x.maturity_e8s_equivalent,
    );
    lemma_tallies_saturating_push(
        before.voting_power_buckets@,
        s,
        x,
        voting_power(),
        selected,
        x.voting_power,
    );
}

/// A neuron that is not picked leaves metrics of `s` metrics of `s` followed
/// by that neuron.
pub proof fn lemma_skip_unpicked(
    m: NeuronSubsetMetrics,
    s: Seq<Neuron>,
    x: Neuron,
    selected: spec_fn(Neuron) -> bool,
)
    requires
        m.describes(s, selected),
        !selected(x),
    ensures
        m.describes(s.push(x), selected),
{
    broadcast use lemma_sum_of_push;

    lemma_tallies_saturating_skip(m.count_buckets@, s, x, one(), selected);
    lemma_tallies_saturating_skip(m.staked_e8s_buckets@, s, x, minted_stake(), selected);
    lemma_tallies_saturating_skip(
        m.staked_maturity_e8s_equivalent_buckets@,
        s,
        x,
        staked_maturity(),
        selected,
    );
    lemma_tallies_saturating_skip(m.maturity_e8s_equivalent_buckets@, s, x, maturity(), selected);
    lemma_tallies_saturating_skip(m.voting_power_buckets@, s, x, voting_power(), selected);
}

/// `chain` starts from `chain[0]` and counts the neurons of `ns` one after
/// another: each entry is the one before with the next neuron counted once
/// more.
pub open spec fn counts_in_turn(chain: Seq<NeuronSubsetMetrics>, ns: Seq<Neuron>) -> bool {
    &&& chain.len() == ns.len() + 1
    &&& forall|i: int|
        #![trigger ns[i]]
        0 <= i < ns.len() ==> chain[i + 1].counts_one_more(chain[i], ns[i])
}

} // verus!
