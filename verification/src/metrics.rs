//! Metrics calculated from the neurons of a neuron store.

use vstd::prelude::*;
use std::collections::{BTreeMap, HashMap};
use crate::neuron::{
    Neuron, NeuronState, DISSOLVE_DELAY_BUCKET_SECONDS, bucket_of, dissolve_delay_bucket,
    minted_stake, cached_stake, staked_maturity, maturity,
};
use crate::tally::{
    every, one, sum_of, tallies, in_bucket, lemma_sum_of_push,
    lemma_sum_of_subset, lemma_sum_of_prefix, lemma_count_at_most_len,
    lemma_tally_next, lemma_bucket_at_most_total, lemma_tallies_push_selected,
    lemma_tallies_push_unselected,
};
use crate::heap::{heap_order, neurons_by_id};
use crate::buckets::{increment_count_bucket, increment_e8s_bucket};
use crate::subset_metrics::{NeuronSubsetMetrics, lemma_count_picked, lemma_skip_unpicked, lemma_empty_describes};

verus! {

// Which neurons a metric covers.

/// The neurons in state `st`.
pub open spec fn in_state(st: NeuronState) -> spec_fn(Neuron) -> bool {
    |n: Neuron| n.state == st
}

/// The seed neurons in state `st`.
pub open spec fn seed_in_state(st: NeuronState) -> spec_fn(Neuron) -> bool {
    |n: Neuron| n.state == st && n.is_seed_neuron
}

/// The ECT neurons in state `st` that are not also seed neurons.
pub open spec fn ect_in_state(st: NeuronState) -> spec_fn(Neuron) -> bool {
    |n: Neuron| n.state == st && !n.is_seed_neuron && n.is_ect_neuron
}

/// The neurons that may be garbage collected.
pub open spec fn inactive() -> spec_fn(Neuron) -> bool {
    |n: Neuron| n.is_inactive
}

/// The neurons with some stake, but less than `minimum_stake_e8s`.
pub open spec fn invalid_stake(minimum_stake_e8s: u64) -> spec_fn(Neuron) -> bool {
    |n: Neuron| 0 < n.cached_neuron_stake_e8s && n.cached_neuron_stake_e8s < minimum_stake_e8s
}

/// The neurons with a dissolve delay of less than six months.
pub open spec fn short_dissolve_delay() -> spec_fn(Neuron) -> bool {
    |n: Neuron| n.dissolve_delay_seconds < DISSOLVE_DELAY_BUCKET_SECONDS
}

/// The neurons that joined the community fund (at a time after zero).
pub open spec fn in_community_fund() -> spec_fn(Neuron) -> bool {
    |n: Neuron|
        match n.joined_community_fund_timestamp_seconds {
            Some(t) => t > 0,
            None => false,
        }
}

/// The seed neurons.
pub open spec fn seed() -> spec_fn(Neuron) -> bool {
    |n: Neuron| n.is_seed_neuron
}

/// The ECT neurons.
pub open spec fn ect() -> spec_fn(Neuron) -> bool {
    |n: Neuron| n.is_ect_neuron
}

/// The neurons whose controller is not self-authenticating (in practice,
/// neurons controlled by canisters).
pub open spec fn non_self_authenticating() -> spec_fn(Neuron) -> bool {
    |n: Neuron| !n.controller_is_self_authenticating
}

/// The metrics kept per state, over the neurons of `s` in state `st`:
/// their number, their minted stake and their staked maturity, in whole and
/// per dissolve delay bucket, and the minted stake of their seed neurons and
/// of their (other) ECT neurons per bucket.
pub open spec fn tallies_state(
    count: u64,
    e8s_buckets: Map<u64, u64>,
    count_buckets: Map<u64, u64>,
    staked_maturity_buckets: Map<u64, u64>,
    staked_maturity_sum: u64,
    seed_e8s_buckets: Map<u64, u64>,
    ect_e8s_buckets: Map<u64, u64>,
    s: Seq<Neuron>,
    st: NeuronState,
) -> bool {
    &&& count == sum_of(s, one(), in_state(st))
    &&& tallies(e8s_buckets, s, minted_stake(), in_state(st))
    &&& tallies(count_buckets, s, one(), in_state(st))
    &&& tallies(staked_maturity_buckets, s, staked_maturity(), in_state(st))
    &&& staked_maturity_sum == sum_of(s, staked_maturity(), in_state(st))
    &&& tallies(seed_e8s_buckets, s, minted_stake(), seed_in_state(st))
    &&& tallies(ect_e8s_buckets, s, minted_stake(), ect_in_state(st))
}

/// The sums of `s` that the metrics keep with `+`, and `stable_neuron_count`
/// plus the number of inactive neurons, all fit in a `u64`; so does the
/// number of neurons.
pub open spec fn within_limits(s: Seq<Neuron>, stable_neuron_count: u64) -> bool {
    &&& s.len() <= u64::MAX
    &&& sum_of(s, minted_stake(), every()) <= u64::MAX
    &&& sum_of(s, staked_maturity(), every()) <= u64::MAX
    &&& sum_of(s, maturity(), every()) <= u64::MAX
    &&& sum_of(s, cached_stake(), in_state(NeuronState::Dissolved)) <= u64::MAX
    &&& stable_neuron_count + sum_of(s, one(), inactive()) <= u64::MAX
}

/// Metrics calculated based on neurons in the neuron store.
///
/// Each field named `*_buckets` maps floor(dissolve delay / 6 months) to a
/// total; e8s totals are exact sums.
#[derive(Clone, Debug)]
pub struct NeuronMetrics {
    pub dissolving_neurons_count: u64,
    pub dissolving_neurons_e8s_buckets: HashMap<u64, u64>,
    pub dissolving_neurons_count_buckets: HashMap<u64, u64>,
    pub not_dissolving_neurons_count: u64,
    pub not_dissolving_neurons_e8s_buckets: HashMap<u64, u64>,
    pub not_dissolving_neurons_count_buckets: HashMap<u64, u64>,
    pub dissolved_neurons_count: u64,
    pub dissolved_neurons_e8s: u64,
    pub garbage_collectable_neurons_count: u64,
    pub neurons_with_invalid_stake_count: u64,
    pub total_staked_e8s: u64,
    pub neurons_with_less_than_6_months_dissolve_delay_count: u64,
    pub neurons_with_less_than_6_months_dissolve_delay_e8s: u64,
    pub community_fund_total_staked_e8s: u64,
    pub community_fund_total_maturity_e8s_equivalent: u64,
    pub neurons_fund_total_active_neurons: u64,
    pub total_locked_e8s: u64,
    pub total_maturity_e8s_equivalent: u64,
    pub total_staked_maturity_e8s_equivalent: u64,
    pub dissolving_neurons_staked_maturity_e8s_equivalent_buckets: HashMap<u64, u64>,
    pub dissolving_neurons_staked_maturity_e8s_equivalent_sum: u64,
    pub not_dissolving_neurons_staked_maturity_e8s_equivalent_buckets: HashMap<u64, u64>,
    pub not_dissolving_neurons_staked_maturity_e8s_equivalent_sum: u64,
    pub seed_neuron_count: u64,
    pub ect_neuron_count: u64,
    pub total_staked_e8s_seed: u64,
    pub total_staked_e8s_ect: u64,
    pub total_staked_maturity_e8s_equivalent_seed: u64,
    pub total_staked_maturity_e8s_equivalent_ect: u64,
    pub dissolving_neurons_e8s_buckets_seed: HashMap<u64, u64>,
    pub dissolving_neurons_e8s_buckets_ect: HashMap<u64, u64>,
    pub not_dissolving_neurons_e8s_buckets_seed: HashMap<u64, u64>,
    pub not_dissolving_neurons_e8s_buckets_ect: HashMap<u64, u64>,
    /// Metrics for neurons with a non-self-authenticating controller.
    pub non_self_authenticating_controller_neuron_subset_metrics: NeuronSubsetMetrics,
}

impl NeuronMetrics {
    /// Every count and total zero, every breakdown empty.
    pub open spec fn is_empty(self) -> bool {
        &&& self.dissolving_neurons_count == 0
        &&& self.dissolving_neurons_e8s_buckets@ == Map::<u64, u64>::empty()
        &&& self.dissolving_neurons_count_buckets@ == Map::<u64, u64>::empty()
        &&& self.not_dissolving_neurons_count == 0
        &&& self.not_dissolving_neurons_e8s_buckets@ == Map::<u64, u64>::empty()
        &&& self.not_dissolving_neurons_count_buckets@ == Map::<u64, u64>::empty()
        &&& self.dissolved_neurons_count == 0
        &&& self.dissolved_neurons_e8s == 0
        &&& self.garbage_collectable_neurons_count == 0
        &&& self.neurons_with_invalid_stake_count == 0
        &&& self.total_staked_e8s == 0
        &&& self.neurons_with_less_than_6_months_dissolve_delay_count == 0
        &&& self.neurons_with_less_than_6_months_dissolve_delay_e8s == 0
        &&& self.community_fund_total_staked_e8s == 0
        &&& self.community_fund_total_maturity_e8s_equivalent == 0
        &&& self.neurons_fund_total_active_neurons == 0
        &&& self.total_locked_e8s == 0
        &&& self.total_maturity_e8s_equivalent == 0
        &&& self.total_staked_maturity_e8s_equivalent == 0
        &&& self.dissolving_neurons_staked_maturity_e8s_equivalent_buckets@ == Map::<
            u64,
            u64,
        >::empty()
        &&& self.dissolving_neurons_staked_maturity_e8s_equivalent_sum == 0
        &&& self.not_dissolving_neurons_staked_maturity_e8s_equivalent_buckets@ == Map::<
            u64,
            u64,
        >::empty()
        &&& self.not_dissolving_neurons_staked_maturity_e8s_equivalent_sum == 0
        &&& self.seed_neuron_count == 0
        &&& self.ect_neuron_count == 0
        &&& self.total_staked_e8s_seed == 0
        &&& self.total_staked_e8s_ect == 0
        &&& self.total_staked_maturity_e8s_equivalent_seed == 0
        &&& self.total_staked_maturity_e8s_equivalent_ect == 0
        &&& self.dissolving_neurons_e8s_buckets_seed@ == Map::<u64, u64>::empty()
        &&& self.dissolving_neurons_e8s_buckets_ect@ == Map::<u64, u64>::empty()
        &&& self.not_dissolving_neurons_e8s_buckets_seed@ == Map::<u64, u64>::empty()
        &&& self.not_dissolving_neurons_e8s_buckets_ect@ == Map::<u64, u64>::empty()
        &&& self.non_self_authenticating_controller_neuron_subset_metrics.is_empty()
    }

    /// The metrics summed over the neurons of `s`: every field but
    /// `neurons_fund_total_active_neurons` and `total_locked_e8s`.
    /// `garbage_collectable_neurons_count` starts from `stable_neuron_count`.
    pub open spec fn describes(
        self,
        s: Seq<Neuron>,
        minimum_stake_e8s: u64,
        stable_neuron_count: u64,
    ) -> bool {
        &&& tallies_state(
            self.dissolving_neurons_count,
            self.dissolving_neurons_e8s_buckets@,
            self.dissolving_neurons_count_buckets@,
            self.dissolving_neurons_staked_maturity_e8s_equivalent_buckets@,
            self.dissolving_neurons_staked_maturity_e8s_equivalent_sum,
            self.dissolving_neurons_e8s_buckets_seed@,
            self.dissolving_neurons_e8s_buckets_ect@,
            s,
            NeuronState::Dissolving,
        )
        &&& tallies_state(
            self.not_dissolving_neurons_count,
            self.not_dissolving_neurons_e8s_buckets@,
            self.not_dissolving_neurons_count_buckets@,
            self.not_dissolving_neurons_staked_maturity_e8s_equivalent_buckets@,
            self.not_dissolving_neurons_staked_maturity_e8s_equivalent_sum,
            self.not_dissolving_neurons_e8s_buckets_seed@,
            self.not_dissolving_neurons_e8s_buckets_ect@,
            s,
            NeuronState::NotDissolving,
        )
        &&& self.dissolved_neurons_count == sum_of(s, one(), in_state(NeuronState::Dissolved))
        &&& self.dissolved_neurons_e8s == sum_of(
            s,
            cached_stake(),
            in_state(NeuronState::Dissolved),
        )
        &&& self.garbage_collectable_neurons_count == stable_neuron_count + sum_of(
            s,
            one(),
            inactive(),
        )
        &&& self.neurons_with_invalid_stake_count == sum_of(
            s,
            one(),
            invalid_stake(minimum_stake_e8s),
        )
        &&& self.total_staked_e8s == sum_of(s, minted_stake(), every())
        &&& self.neurons_with_less_than_6_months_dissolve_delay_count == sum_of(
            s,
            one(),
            short_dissolve_delay(),
        )
        &&& self.neurons_with_less_than_6_months_dissolve_delay_e8s == sum_of(
            s,
            minted_stake(),
            short_dissolve_delay(),
        )
        &&& self.community_fund_total_staked_e8s == sum_of(s, minted_stake(), in_community_fund())
        &&& self.community_fund_total_maturity_e8s_equivalent == sum_of(
            s,
            maturity(),
            in_community_fund(),
        )
        &&& self.total_maturity_e8s_equivalent == sum_of(s, maturity(), every())
        &&& self.total_staked_maturity_e8s_equivalent == sum_of(s, staked_maturity(), every())
        &&& self.seed_neuron_count == sum_of(s, one(), seed())
        &&& self.ect_neuron_count == sum_of(s, one(), ect())
        &&& self.total_staked_e8s_seed == sum_of(s, minted_stake(), seed())
        &&& self.total_staked_e8s_ect == sum_of(s, minted_stake(), ect())
        &&& self.total_staked_maturity_e8s_equivalent_seed == sum_of(s, staked_maturity(), seed())
        &&& self.total_staked_maturity_e8s_equivalent_ect == sum_of(s, staked_maturity(), ect())
        &&& self.non_self_authenticating_controller_neuron_subset_metrics.describes(
            s,
            non_self_authenticating(),
        )
    }

    /// What `compute_neuron_metrics` returns for the neurons `s`: every field
    /// summed over `s` (see `describes`), the Neurons' Fund count as given,
    /// and the locked total as the staked total less the dissolved stake,
    /// stopping at zero.
    pub open spec fn computed_from(
        self,
        s: Seq<Neuron>,
        minimum_stake_e8s: u64,
        stable_neuron_count: u64,
        active_neurons_fund_neuron_count: u64,
    ) -> bool {
        &&& self.describes(s, minimum_stake_e8s, stable_neuron_count)
        &&& self.neurons_fund_total_active_neurons == active_neurons_fund_neuron_count
        &&& self.total_locked_e8s == if self.dissolved_neurons_e8s <= self.total_staked_e8s {
            self.total_staked_e8s - self.dissolved_neurons_e8s
        } else {
            0
        }
    }

    /// `self` is `before` after `neuron` was offered to the rollup of neurons
    /// with a non-self-authenticating controller: counted there where its
    /// controller is not self-authenticating, and nothing else changed.
    pub open spec fn offered_to_rollup(self, before: Self, neuron: Neuron) -> bool {
        &&& neuron.controller_is_self_authenticating ==> self == before
        &&& !neuron.controller_is_self_authenticating
            ==> self.non_self_authenticating_controller_neuron_subset_metrics.counts_one_more(
            before.non_self_authenticating_controller_neuron_subset_metrics,
            neuron,
        )
        &&& self == (NeuronMetrics {
            non_self_authenticating_controller_neuron_subset_metrics:
                self.non_self_authenticating_controller_neuron_subset_metrics,
            ..before
        })
    }

    /// `self` and `other` agree on every field but
    /// `neurons_with_invalid_stake_count` (breakdowns by their contents).
    pub open spec fn agrees_apart_from_invalid_stake(self, other: Self) -> bool {
        &&& self.dissolving_neurons_count == other.dissolving_neurons_count
        &&& self.dissolving_neurons_e8s_buckets@ == other.dissolving_neurons_e8s_buckets@
        &&& self.dissolving_neurons_count_buckets@ == other.dissolving_neurons_count_buckets@
        &&& self.not_dissolving_neurons_count == other.not_dissolving_neurons_count
        &&& self.not_dissolving_neurons_e8s_buckets@ == other.not_dissolving_neurons_e8s_buckets@
        &&& self.not_dissolving_neurons_count_buckets@
            == other.not_dissolving_neurons_count_buckets@
        &&& self.dissolved_neurons_count == other.dissolved_neurons_count
        &&& self.dissolved_neurons_e8s == other.dissolved_neurons_e8s
        &&& self.garbage_collectable_neurons_count == other.garbage_collectable_neurons_count
        &&& self.total_staked_e8s == other.total_staked_e8s
        &&& self.neurons_with_less_than_6_months_dissolve_delay_count
            == other.neurons_with_less_than_6_months_dissolve_delay_count
        &&& self.neurons_with_less_than_6_months_dissolve_delay_e8s
            == other.neurons_with_less_than_6_months_dissolve_delay_e8s
        &&& self.community_fund_total_staked_e8s == other.community_fund_total_staked_e8s
        &&& self.community_fund_total_maturity_e8s_equivalent
            == other.community_fund_total_maturity_e8s_equivalent
        &&& self.neurons_fund_total_active_neurons == other.neurons_fund_total_active_neurons
        &&& self.total_locked_e8s == other.total_locked_e8s
        &&& self.total_maturity_e8s_equivalent == other.total_maturity_e8s_equivalent
        &&& self.total_staked_maturity_e8s_equivalent == other.total_staked_maturity_e8s_equivalent
        &&& self.dissolving_neurons_staked_maturity_e8s_equivalent_buckets@
            == other.dissolving_neurons_staked_maturity_e8s_equivalent_buckets@
        &&& self.dissolving_neurons_staked_maturity_e8s_equivalent_sum
            == other.dissolving_neurons_staked_maturity_e8s_equivalent_sum
        &&& self.not_dissolving_neurons_staked_maturity_e8s_equivalent_buckets@
            == other.not_dissolving_neurons_staked_maturity_e8s_equivalent_buckets@
        &&& self.not_dissolving_neurons_staked_maturity_e8s_equivalent_sum
            == other.not_dissolving_neurons_staked_maturity_e8s_equivalent_sum
        &&& self.seed_neuron_count == other.seed_neuron_count
        &&& self.ect_neuron_count == other.ect_neuron_count
        &&& self.total_staked_e8s_seed == other.total_staked_e8s_seed
        &&& self.total_staked_e8s_ect == other.total_staked_e8s_ect
        &&& self.total_staked_maturity_e8s_equivalent_seed
            == other.total_staked_maturity_e8s_equivalent_seed
        &&& self.total_staked_maturity_e8s_equivalent_ect
            == other.total_staked_maturity_e8s_equivalent_ect
        &&& self.dissolving_neurons_e8s_buckets_seed@ == other.dissolving_neurons_e8s_buckets_seed@
        &&& self.dissolving_neurons_e8s_buckets_ect@ == other.dissolving_neurons_e8s_buckets_ect@
        &&& self.not_dissolving_neurons_e8s_buckets_seed@
            == other.not_dissolving_neurons_e8s_buckets_seed@
        &&& self.not_dissolving_neurons_e8s_buckets_ect@
            == other.not_dissolving_neurons_e8s_buckets_ect@
        &&& self.non_self_authenticating_controller_neuron_subset_metrics.same_as(
            other.non_self_authenticating_controller_neuron_subset_metrics,
        )
    }

    /// Empty metrics.
    pub fn new() -> (m: Self)
        ensures
            m.is_empty(),
    {
        NeuronMetrics {
            dissolving_neurons_count: 0,
            dissolving_neurons_e8s_buckets: HashMap::new(),
            dissolving_neurons_count_buckets: HashMap::new(),
            not_dissolving_neurons_count: 0,
            not_dissolving_neurons_e8s_buckets: HashMap::new(),
            not_dissolving_neurons_count_buckets: HashMap::new(),
            dissolved_neurons_count: 0,
            dissolved_neurons_e8s: 0,
            garbage_collectable_neurons_count: 0,
            neurons_with_invalid_stake_count: 0,
            total_staked_e8s: 0,
            neurons_with_less_than_6_months_dissolve_delay_count: 0,
            neurons_with_less_than_6_months_dissolve_delay_e8s: 0,
            community_fund_total_staked_e8s: 0,
            community_fund_total_maturity_e8s_equivalent: 0,
            neurons_fund_total_active_neurons: 0,
            total_locked_e8s: 0,
            total_maturity_e8s_equivalent: 0,
            total_staked_maturity_e8s_equivalent: 0,
            dissolving_neurons_staked_maturity_e8s_equivalent_buckets: HashMap::new(),
            dissolving_neurons_staked_maturity_e8s_equivalent_sum: 0,
            not_dissolving_neurons_staked_maturity_e8s_equivalent_buckets: HashMap::new(),
            not_dissolving_neurons_staked_maturity_e8s_equivalent_sum: 0,
            seed_neuron_count: 0,
            ect_neuron_count: 0,
            total_staked_e8s_seed: 0,
            total_staked_e8s_ect: 0,
            total_staked_maturity_e8s_equivalent_seed: 0,
            total_staked_maturity_e8s_equivalent_ect: 0,
            dissolving_neurons_e8s_buckets_seed: HashMap::new(),
            dissolving_neurons_e8s_buckets_ect: HashMap::new(),
            not_dissolving_neurons_e8s_buckets_seed: HashMap::new(),
            not_dissolving_neurons_e8s_buckets_ect: HashMap::new(),
            non_self_authenticating_controller_neuron_subset_metrics: NeuronSubsetMetrics::new(),
        }
    }

    /// Counts `neuron` in the rollup of neurons with a non-self-authenticating
    /// controller, unless its controller is self-authenticating. Nothing else
    /// changes.
    pub fn increment_non_self_authenticating_controller_metrics(&mut self, neuron: &Neuron)
        ensures
            neuron.controller_is_self_authenticating ==> *final(self) == *old(self),
            !neuron.controller_is_self_authenticating
                ==> final(self).non_self_authenticating_controller_neuron_subset_metrics.counts_one_more(
                old(self).non_self_authenticating_controller_neuron_subset_metrics,
                *neuron,
            ),
            *final(self) == (NeuronMetrics {
                non_self_authenticating_controller_neuron_subset_metrics:
                    final(self).non_self_authenticating_controller_neuron_subset_metrics,
                ..*old(self)
            }),
    {
        if neuron.controller_is_self_authenticating {
            return ;
        }
        self.non_self_authenticating_controller_neuron_subset_metrics.increment(neuron);
    }
}

impl Default for NeuronMetrics {
    fn default() -> (m: Self)
        ensures
            m.is_empty(),
    {
        Self::new()
    }
}

/// Counts `neuron`, in state `st`, in the metrics kept for that state (see
/// `tallies_state`).
fn tally_in_state(
    count: &mut u64,
    e8s_buckets: &mut HashMap<u64, u64>,
    count_buckets: &mut HashMap<u64, u64>,
    staked_maturity_buckets: &mut HashMap<u64, u64>,
    staked_maturity_sum: &mut u64,
    seed_e8s_buckets: &mut HashMap<u64, u64>,
    ect_e8s_buckets: &mut HashMap<u64, u64>,
    neuron: &Neuron,
    bucket: u64,
    Ghost(s): Ghost<Seq<Neuron>>,
    Ghost(st): Ghost<NeuronState>,
)
    requires
        tallies_state(
            *old(count),
            old(e8s_buckets)@,
            old(count_buckets)@,
            old(staked_maturity_buckets)@,
            *old(staked_maturity_sum),
            old(seed_e8s_buckets)@,
            old(ect_e8s_buckets)@,
            s,
            st,
        ),
        neuron.state == st,
        bucket == bucket_of(*neuron),
        s.len() + 1 <= u64::MAX,
        sum_of(s.push(*neuron), minted_stake(), every()) <= u64::MAX,
        sum_of(s.push(*neuron), staked_maturity(), every()) <= u64::MAX,
    ensures
        tallies_state(
            *final(count),
            final(e8s_buckets)@,
            final(count_buckets)@,
            final(staked_maturity_buckets)@,
            *final(staked_maturity_sum),
            final(seed_e8s_buckets)@,
            final(ect_e8s_buckets)@,
            s.push(*neuron),
            st,
        ),
{
    let ghost t = s.push(*neuron);
    let ghost n = *neuron;
    proof {
        broadcast use lemma_sum_of_push;

        lemma_tally_next(old(e8s_buckets)@, s, n, minted_stake(), in_state(st));
        lemma_bucket_at_most_total(t, minted_stake(), in_state(st), bucket);
        lemma_tally_next(old(count_buckets)@, s, n, one(), in_state(st));
        lemma_count_at_most_len(t, in_bucket(in_state(st), bucket));
        lemma_count_at_most_len(t, in_state(st));
        lemma_tally_next(old(staked_maturity_buckets)@, s, n, staked_maturity(), in_state(st));
        lemma_bucket_at_most_total(t, staked_maturity(), in_state(st), bucket);
        lemma_sum_of_subset(t, staked_maturity(), in_state(st), every());
        lemma_tallies_push_selected(old(e8s_buckets)@, s, n, minted_stake(), in_state(st));
        lemma_tallies_push_selected(old(count_buckets)@, s, n, one(), in_state(st));
        lemma_tallies_push_selected(
            old(staked_maturity_buckets)@,
            s,
            n,
            staked_maturity(),
            in_state(st),
        );
    }
    // Neurons with minted stake count metrics.
    increment_e8s_bucket(e8s_buckets, bucket, neuron.minted_stake_e8s);
    increment_count_bucket(count_buckets, bucket);
    *count = *count + 1;

    // Staked maturity metrics.
    let increment: u64 = neuron.staked_maturity_e8s_equivalent.unwrap_or(0);
    increment_e8s_bucket(staked_maturity_buckets, bucket, increment);
    *staked_maturity_sum = *staked_maturity_sum + increment;

    if neuron.is_seed_neuron {
        proof {
            lemma_tally_next(old(seed_e8s_buckets)@, s, n, minted_stake(), seed_in_state(st));
            lemma_bucket_at_most_total(t, minted_stake(), seed_in_state(st), bucket);
            lemma_tallies_push_selected(
                old(seed_e8s_buckets)@,
                s,
                n,
                minted_stake(),
                seed_in_state(st),
            );
            lemma_tallies_push_unselected(
                old(ect_e8s_buckets)@,
                s,
                n,
                minted_stake(),
                ect_in_state(st),
            );
        }
        increment_e8s_bucket(seed_e8s_buckets, bucket, neuron.minted_stake_e8s);
    } else if neuron.is_ect_neuron {
        proof {
            lemma_tally_next(old(ect_e8s_buckets)@, s, n, minted_stake(), ect_in_state(st));
            lemma_bucket_at_most_total(t, minted_stake(), ect_in_state(st), bucket);
            lemma_tallies_push_selected(
                old(ect_e8s_buckets)@,
                s,
                n,
                minted_stake(),
                ect_in_state(st),
            );
            lemma_tallies_push_unselected(
                old(seed_e8s_buckets)@,
                s,
                n,
                minted_stake(),
                seed_in_state(st),
            );
        }
        increment_e8s_bucket(ect_e8s_buckets, bucket, neuron.minted_stake_e8s);
    } else {
        proof {
            lemma_tallies_push_unselected(
                old(seed_e8s_buckets)@,
                s,
                n,
                minted_stake(),
                seed_in_state(st),
            );
            lemma_tallies_push_unselected(
                old(ect_e8s_buckets)@,
                s,
                n,
                minted_stake(),
                ect_in_state(st),
            );
        }
    }
}

/// A neuron in another state leaves the metrics kept for state `st` exact.
proof fn lemma_tallies_state_skip(
    count: u64,
    e8s_buckets: Map<u64, u64>,
    count_buckets: Map<u64, u64>,
    staked_maturity_buckets: Map<u64, u64>,
    staked_maturity_sum: u64,
    seed_e8s_buckets: Map<u64, u64>,
    ect_e8s_buckets: Map<u64, u64>,
    s: Seq<Neuron>,
    st: NeuronState,
    x: Neuron,
)
    requires
        tallies_state(
            count,
            e8s_buckets,
            count_buckets,
            staked_maturity_buckets,
            staked_maturity_sum,
            seed_e8s_buckets,
            ect_e8s_buckets,
            s,
            st,
        ),
        x.state != st,
    ensures
        tallies_state(
            count,
            e8s_buckets,
            count_buckets,
            staked_maturity_buckets,
            staked_maturity_sum,
            seed_e8s_buckets,
            ect_e8s_buckets,
            s.push(x),
            st,
        ),
{
    broadcast use lemma_sum_of_push;

    lemma_tallies_push_unselected(e8s_buckets, s, x, minted_stake(), in_state(st));
    lemma_tallies_push_unselected(count_buckets, s, x, one(), in_state(st));
    lemma_tallies_push_unselected(staked_maturity_buckets, s, x, staked_maturity(), in_state(st));
    lemma_tallies_push_unselected(seed_e8s_buckets, s, x, minted_stake(), seed_in_state(st));
    lemma_tallies_push_unselected(ect_e8s_buckets, s, x, minted_stake(), ect_in_state(st));
}

impl NeuronMetrics {
    /// Counts one more neuron of the store: `self` summed over `s` becomes
    /// `self` summed over `s` followed by `neuron`.
    #[verifier::spinoff_prover]
    #[verifier::rlimit(40)]
    fn tally(
        &mut self,
        neuron: &Neuron,
        minimum_stake_e8s: u64,
        Ghost(s): Ghost<Seq<Neuron>>,
        Ghost(stable_neuron_count): Ghost<u64>,
    )
        requires
            old(self).describes(s, minimum_stake_e8s, stable_neuron_count),
            within_limits(s.push(*neuron), stable_neuron_count),
        ensures
            final(self).describes(s.push(*neuron), minimum_stake_e8s, stable_neuron_count),
            final(self).neurons_fund_total_active_neurons == old(
                self,
            ).neurons_fund_total_active_neurons,
    {
        let ghost t = s.push(*neuron);
        let ghost n = *neuron;
        proof {
            broadcast use lemma_sum_of_push;

            lemma_sum_of_subset(t, minted_stake(), in_community_fund(), every());
            lemma_sum_of_subset(t, maturity(), in_community_fund(), every());
            lemma_sum_of_subset(t, minted_stake(), short_dissolve_delay(), every());
            lemma_sum_of_subset(t, minted_stake(), seed(), every());
            lemma_sum_of_subset(t, minted_stake(), ect(), every());
            lemma_sum_of_subset(t, staked_maturity(), seed(), every());
            lemma_sum_of_subset(t, staked_maturity(), ect(), every());
            lemma_count_at_most_len(t, invalid_stake(minimum_stake_e8s));
            lemma_count_at_most_len(t, short_dissolve_delay());
            lemma_count_at_most_len(t, seed());
            lemma_count_at_most_len(t, ect());
            lemma_count_at_most_len(t, in_state(NeuronState::Dissolved));
            let subset = old(self).non_self_authenticating_controller_neuron_subset_metrics;
            if n.controller_is_self_authenticating {
                lemma_skip_unpicked(subset, s, n, non_self_authenticating());
            }
        }
        self.increment_non_self_authenticating_controller_metrics(neuron);
        proof {
            if !n.controller_is_self_authenticating {
                lemma_count_picked(
                    old(self).non_self_authenticating_controller_neuron_subset_metrics,
                    self.non_self_authenticating_controller_neuron_subset_metrics,
                    s,
                    n,
                    non_self_authenticating(),
                );
            }
        }

        let minted_stake_e8s: u64 = neuron.minted_stake_e8s;
        let staked_maturity_e8s_equivalent: u64 = neuron.staked_maturity_e8s_equivalent.unwrap_or(
            0,
        );
        self.total_staked_e8s = self.total_staked_e8s + minted_stake_e8s;
        self.total_staked_maturity_e8s_equivalent = self.total_staked_maturity_e8s_equivalent
            + staked_maturity_e8s_equivalent;
        self.total_maturity_e8s_equivalent = self.total_maturity_e8s_equivalent
            + neuron.maturity_e8s_equivalent;

        if neuron.joined_community_fund_timestamp_seconds.unwrap_or(0) > 0 {
            self.community_fund_total_staked_e8s = self.community_fund_total_staked_e8s
                + minted_stake_e8s;
            self.community_fund_total_maturity_e8s_equivalent =
                self.community_fund_total_maturity_e8s_equivalent + neuron.maturity_e8s_equivalent;
        }

        if neuron.is_inactive {
            self.garbage_collectable_neurons_count = self.garbage_collectable_neurons_count + 1;
        }

        if 0 < neuron.cached_neuron_stake_e8s && neuron.cached_neuron_stake_e8s < minimum_stake_e8s {
            self.neurons_with_invalid_stake_count = self.neurons_with_invalid_stake_count + 1;
        }

        let dissolve_delay_seconds: u64 = neuron.dissolve_delay_seconds;

        if dissolve_delay_seconds < DISSOLVE_DELAY_BUCKET_SECONDS {
            self.neurons_with_less_than_6_months_dissolve_delay_count =
                self.neurons_with_less_than_6_months_dissolve_delay_count + 1;
            self.neurons_with_less_than_6_months_dissolve_delay_e8s =
                self.neurons_with_less_than_6_months_dissolve_delay_e8s + minted_stake_e8s;
        }

        if neuron.is_seed_neuron {
            self.seed_neuron_count = self.seed_neuron_count + 1;
            self.total_staked_e8s_seed = self.total_staked_e8s_seed + minted_stake_e8s;
            self.total_staked_maturity_e8s_equivalent_seed =
                self.total_staked_maturity_e8s_equivalent_seed + staked_maturity_e8s_equivalent;
        }

        if neuron.is_ect_neuron {
            self.ect_neuron_count = self.ect_neuron_count + 1;
            self.total_staked_e8s_ect = self.total_staked_e8s_ect + minted_stake_e8s;
            self.total_staked_maturity_e8s_equivalent_ect =
                self.total_staked_maturity_e8s_equivalent_ect + staked_maturity_e8s_equivalent;
        }

        let bucket: u64 = dissolve_delay_bucket(dissolve_delay_seconds);
        match neuron.state {
            NeuronState::Unspecified | NeuronState::Spawning => {
                proof {
                    lemma_tallies_state_skip(
                        self.dissolving_neurons_count,
                        self.dissolving_neurons_e8s_buckets@,
                        self.dissolving_neurons_count_buckets@,
                        self.dissolving_neurons_staked_maturity_e8s_equivalent_buckets@,
                        self.dissolving_neurons_staked_maturity_e8s_equivalent_sum,
                        self.dissolving_neurons_e8s_buckets_seed@,
                        self.dissolving_neurons_e8s_buckets_ect@,
                        s,
                        NeuronState::Dissolving,
                        n,
                    );
                    lemma_tallies_state_skip(
                        self.not_dissolving_neurons_count,
                        self.not_dissolving_neurons_e8s_buckets@,
                        self.not_dissolving_neurons_count_buckets@,
                        self.not_dissolving_neurons_staked_maturity_e8s_equivalent_buckets@,
                        self.not_dissolving_neurons_staked_maturity_e8s_equivalent_sum,
                        self.not_dissolving_neurons_e8s_buckets_seed@,
                        self.not_dissolving_neurons_e8s_buckets_ect@,
                        s,
                        NeuronState::NotDissolving,
                        n,
                    );
                }
            },
            NeuronState::Dissolved => {
                proof {
                    lemma_tallies_state_skip(
                        self.dissolving_neurons_count,
                        self.dissolving_neurons_e8s_buckets@,
                        self.dissolving_neurons_count_buckets@,
                        self.dissolving_neurons_staked_maturity_e8s_equivalent_buckets@,
                        self.dissolving_neurons_staked_maturity_e8s_equivalent_sum,
                        self.dissolving_neurons_e8s_buckets_seed@,
                        self.dissolving_neurons_e8s_buckets_ect@,
                        s,
                        NeuronState::Dissolving,
                        n,
                    );
                    lemma_tallies_state_skip(
                        self.not_dissolving_neurons_count,
                        self.not_dissolving_neurons_e8s_buckets@,
                        self.not_dissolving_neurons_count_buckets@,
                        self.not_dissolving_neurons_staked_maturity_e8s_equivalent_buckets@,
                        self.not_dissolving_neurons_staked_maturity_e8s_equivalent_sum,
                        self.not_dissolving_neurons_e8s_buckets_seed@,
                        self.not_dissolving_neurons_e8s_buckets_ect@,
                        s,
                        NeuronState::NotDissolving,
                        n,
                    );
                }
                self.dissolved_neurons_count = self.dissolved_neurons_count + 1;
                self.dissolved_neurons_e8s = self.dissolved_neurons_e8s
                    + neuron.cached_neuron_stake_e8s;
            },
            NeuronState::Dissolving => {
                proof {
                    lemma_tallies_state_skip(
                        self.not_dissolving_neurons_count,
                        self.not_dissolving_neurons_e8s_buckets@,
                        self.not_dissolving_neurons_count_buckets@,
                        self.not_dissolving_neurons_staked_maturity_e8s_equivalent_buckets@,
                        self.not_dissolving_neurons_staked_maturity_e8s_equivalent_sum,
                        self.not_dissolving_neurons_e8s_buckets_seed@,
                        self.not_dissolving_neurons_e8s_buckets_ect@,
                        s,
                        NeuronState::NotDissolving,
                        n,
                    );
                }
                tally_in_state(
                    &mut self.dissolving_neurons_count,
                    &mut self.dissolving_neurons_e8s_buckets,
                    &mut self.dissolving_neurons_count_buckets,
                    &mut self.dissolving_neurons_staked_maturity_e8s_equivalent_buckets,
                    &mut self.dissolving_neurons_staked_maturity_e8s_equivalent_sum,
                    &mut self.dissolving_neurons_e8s_buckets_seed,
                    &mut self.dissolving_neurons_e8s_buckets_ect,
                    neuron,
                    bucket,
                    Ghost(s),
                    Ghost(NeuronState::Dissolving),
                );
            },
            NeuronState::NotDissolving => {
                proof {
                    lemma_tallies_state_skip(
                        self.dissolving_neurons_count,
                        self.dissolving_neurons_e8s_buckets@,
                        self.dissolving_neurons_count_buckets@,
                        self.dissolving_neurons_staked_maturity_e8s_equivalent_buckets@,
                        self.dissolving_neurons_staked_maturity_e8s_equivalent_sum,
                        self.dissolving_neurons_e8s_buckets_seed@,
                        self.dissolving_neurons_e8s_buckets_ect@,
                        s,
                        NeuronState::Dissolving,
                        n,
                    );
                }
                tally_in_state(
                    &mut self.not_dissolving_neurons_count,
                    &mut self.not_dissolving_neurons_e8s_buckets,
                    &mut self.not_dissolving_neurons_count_buckets,
                    &mut self.not_dissolving_neurons_staked_maturity_e8s_equivalent_buckets,
                    &mut self.not_dissolving_neurons_staked_maturity_e8s_equivalent_sum,
                    &mut self.not_dissolving_neurons_e8s_buckets_seed,
                    &mut self.not_dissolving_neurons_e8s_buckets_ect,
                    neuron,
                    bucket,
                    Ghost(s),
                    Ghost(NeuronState::NotDissolving),
                );
            },
        }
    }
}

/// A sum over a prefix of `s` fits where the sum over `s` does.
proof fn lemma_within_limits_prefix(s: Seq<Neuron>, i: int, stable_neuron_count: u64)
    requires
        within_limits(s, stable_neuron_count),
        0 <= i <= s.len(),
    ensures
        within_limits(s.take(i), stable_neuron_count),
{
    lemma_sum_of_prefix(s, i, minted_stake(), every());
    lemma_sum_of_prefix(s, i, staked_maturity(), every());
    lemma_sum_of_prefix(s, i, maturity(), every());
    lemma_sum_of_prefix(s, i, cached_stake(), in_state(NeuronState::Dissolved));
    lemma_sum_of_prefix(s, i, one(), inactive());
}

/// Empty metrics, with the garbage collectable count starting from
/// `stable_neuron_count`, describe no neurons.
proof fn lemma_start_describes(m: NeuronMetrics, minimum_stake_e8s: u64, stable_neuron_count: u64)
    requires
        (NeuronMetrics { garbage_collectable_neurons_count: 0, ..m }).is_empty(),
        m.garbage_collectable_neurons_count == stable_neuron_count,
    ensures
        m.describes(Seq::empty(), minimum_stake_e8s, stable_neuron_count),
{
    let e = Seq::<Neuron>::empty();
    lemma_empty_describes(
        m.non_self_authenticating_controller_neuron_subset_metrics,
        non_self_authenticating(),
    );
    assert(Map::<u64, u64>::empty().dom() =~= Set::<u64>::empty());
    assert(tallies(Map::<u64, u64>::empty(), e, minted_stake(), in_state(NeuronState::Dissolving)));
}

/// The neurons of a store, as the metrics read them.
pub struct NeuronStore {
    /// The neurons held in the heap, by neuron id, each as read at the moment
    /// the metrics are computed.
    pub heap_neurons: BTreeMap<u64, Neuron>,
    /// The number of neurons held in stable storage; all of them are
    /// inactive.
    pub stable_neuron_count: u64,
    /// The number of active neurons in the Neurons' Fund.
    pub active_neurons_fund_neuron_count: u64,
}

impl NeuronStore {
    /// Whether the sums that `compute_neuron_metrics` keeps with `+` fit in a
    /// `u64` (its precondition).
    pub fn sums_fit(&self) -> (fit: bool)
        ensures
            fit == within_limits(heap_order(self.heap_neurons@), self.stable_neuron_count),
    {
        let neurons: Vec<Neuron> = neurons_by_id(&self.heap_neurons);
        let ghost s = neurons@;
        let mut staked: u64 = 0;
        let mut staked_maturity_total: u64 = 0;
        let mut maturity_total: u64 = 0;
        let mut dissolved: u64 = 0;
        let mut collectable: u64 = self.stable_neuron_count;
        let mut i: usize = 0;
        proof {
            assert(s.take(0) =~= Seq::<Neuron>::empty());
        }
        while i < neurons.len()
            invariant
                s == neurons@,
                s == heap_order(self.heap_neurons@),
                0 <= i <= s.len(),
                staked == sum_of(s.take(i as int), minted_stake(), every()),
                staked_maturity_total == sum_of(s.take(i as int), staked_maturity(), every()),
                maturity_total == sum_of(s.take(i as int), maturity(), every()),
                dissolved == sum_of(
                    s.take(i as int),
                    cached_stake(),
                    in_state(NeuronState::Dissolved),
                ),
                collectable == self.stable_neuron_count + sum_of(s.take(i as int), one(), inactive()),
            decreases s.len() - i,
        {
            let neuron: &Neuron = &neurons[i];
            let ghost next = s.take(i + 1);
            proof {
                broadcast use crate::tally::lemma_sum_of_push;

                assert(s.take(i as int).push(s[i as int]) =~= next);
                lemma_sum_of_prefix(s, i + 1, minted_stake(), every());
                lemma_sum_of_prefix(s, i + 1, staked_maturity(), every());
                lemma_sum_of_prefix(s, i + 1, maturity(), every());
                lemma_sum_of_prefix(s, i + 1, cached_stake(), in_state(NeuronState::Dissolved));
                lemma_sum_of_prefix(s, i + 1, one(), inactive());
            }
            if staked > u64::MAX - neuron.minted_stake_e8s {
                return false;
            }
            staked = staked + neuron.minted_stake_e8s;
            let neuron_staked_maturity: u64 = neuron.staked_maturity_e8s_equivalent.unwrap_or(0);
            if staked_maturity_total > u64::MAX - neuron_staked_maturity {
                return false;
            }
            staked_maturity_total = staked_maturity_total + neuron_staked_maturity;
            if maturity_total > u64::MAX - neuron.maturity_e8s_equivalent {
                return false;
            }
            maturity_total = maturity_total + neuron.maturity_e8s_equivalent;
            match neuron.state {
                NeuronState::Dissolved => {
                    if dissolved > u64::MAX - neuron.cached_neuron_stake_e8s {
                        return false;
                    }
                    dissolved = dissolved + neuron.cached_neuron_stake_e8s;
                },
                _ => {},
            }
            if neuron.is_inactive {
                if collectable == u64::MAX {
                    return false;
                }
                collectable = collectable + 1;
            }
            i = i + 1;
        }
        proof {
            assert(s.take(s.len() as int) =~= s);
        }
        true
    }

    /// Computes neuron metrics.
    ///
    /// Every field holds the count or sum over the heap neurons that its name
    /// says (see `NeuronMetrics::describes`); the garbage collectable count
    /// adds the neurons in stable storage; the locked total is the staked
    /// total less the stake of dissolved neurons, stopping at zero.
    pub fn compute_neuron_metrics(&self, minimum_stake_e8s: u64) -> (metrics: NeuronMetrics)
        requires
            within_limits(heap_order(self.heap_neurons@), self.stable_neuron_count),
        ensures
            metrics.describes(
                heap_order(self.heap_neurons@),
                minimum_stake_e8s,
                self.stable_neuron_count,
            ),
            metrics.neurons_fund_total_active_neurons == self.active_neurons_fund_neuron_count,
            metrics.total_locked_e8s == if metrics.dissolved_neurons_e8s
                <= metrics.total_staked_e8s {
                metrics.total_staked_e8s - metrics.dissolved_neurons_e8s
            } else {
                0
            },
    {
        let neurons: Vec<Neuron> = neurons_by_id(&self.heap_neurons);
        let ghost s = neurons@;
        let mut metrics = NeuronMetrics::new();
        metrics.garbage_collectable_neurons_count = self.stable_neuron_count;
        proof {
            lemma_start_describes(metrics, minimum_stake_e8s, self.stable_neuron_count);
            assert(s.take(0) =~= Seq::<Neuron>::empty());
        }
        metrics.neurons_fund_total_active_neurons = self.active_neurons_fund_neuron_count;

        let mut i: usize = 0;
        while i < neurons.len()
            invariant
                s == neurons@,
                s == heap_order(self.heap_neurons@),
                0 <= i <= s.len(),
                within_limits(s, self.stable_neuron_count),
                metrics.describes(s.take(i as int), minimum_stake_e8s, self.stable_neuron_count),
                metrics.neurons_fund_total_active_neurons == self.active_neurons_fund_neuron_count,
            decreases s.len() - i,
        {
            let neuron: &Neuron = &neurons[i];
            proof {
                assert(s.take(i as int).push(s[i as int]) =~= s.take(i + 1));
                lemma_within_limits_prefix(s, i + 1, self.stable_neuron_count);
            }
            metrics.tally(
                neuron,
                minimum_stake_e8s,
                Ghost(s.take(i as int)),
                Ghost(self.stable_neuron_count),
            );
            i = i + 1;
        }
        proof {
            assert(s.take(s.len() as int) =~= s);
        }

        // Compute total amount of locked ICP.
        metrics.total_locked_e8s = metrics.total_staked_e8s.saturating_sub(
            metrics.dissolved_neurons_e8s,
        );

        metrics
    }
}

} // verus!
