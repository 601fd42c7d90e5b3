use std::collections::{BTreeMap, HashMap};

use neuron_metrics::metrics::{NeuronMetrics, NeuronStore};
use neuron_metrics::neuron::NeuronState::{Dissolved, Dissolving, NotDissolving};
use neuron_metrics::neuron::{Neuron, NeuronState};
use neuron_metrics::subset_metrics::NeuronSubsetMetrics;

const E8: u64 = 100_000_000;
const ONE_DAY_SECONDS: u64 = 24 * 60 * 60;
const ONE_YEAR_SECONDS: u64 = (4 * 365 + 1) * ONE_DAY_SECONDS / 4;

/// The neurons keyed by ids 1, 2, 3, ... in the order given.
fn by_id(neurons: Vec<Neuron>) -> BTreeMap<u64, Neuron> {
    (1..).zip(neurons).collect()
}

fn neuron(state: NeuronState, dissolve_delay_seconds: u64, stake_e8s: u64) -> Neuron {
    Neuron {
        cached_neuron_stake_e8s: stake_e8s,
        minted_stake_e8s: stake_e8s,
        staked_maturity_e8s_equivalent: None,
        maturity_e8s_equivalent: 0,
        joined_community_fund_timestamp_seconds: None,
        dissolve_delay_seconds,
        state,
        is_inactive: false,
        is_seed_neuron: false,
        is_ect_neuron: false,
        voting_power: 0,
        controller_is_self_authenticating: false,
    }
}

fn buckets(pairs: &[(u64, u64)]) -> HashMap<u64, u64> {
    pairs.iter().cloned().collect()
}

fn store(heap_neurons: Vec<Neuron>) -> NeuronStore {
    NeuronStore { heap_neurons: by_id(heap_neurons), stable_neuron_count: 0, active_neurons_fund_neuron_count: 0 }
}

fn assert_subset_metrics_eq(actual: &NeuronSubsetMetrics, expected: &NeuronSubsetMetrics) {
    assert_eq!(actual.count, expected.count);
    assert_eq!(actual.total_staked_e8s, expected.total_staked_e8s);
    assert_eq!(
        actual.total_staked_maturity_e8s_equivalent,
        expected.total_staked_maturity_e8s_equivalent
    );
    assert_eq!(actual.total_maturity_e8s_equivalent, expected.total_maturity_e8s_equivalent);
    assert_eq!(actual.total_voting_power, expected.total_voting_power);
    assert_eq!(actual.count_buckets, expected.count_buckets);
    assert_eq!(actual.staked_e8s_buckets, expected.staked_e8s_buckets);
    assert_eq!(
        actual.staked_maturity_e8s_equivalent_buckets,
        expected.staked_maturity_e8s_equivalent_buckets
    );
    assert_eq!(actual.maturity_e8s_equivalent_buckets, expected.maturity_e8s_equivalent_buckets);
    assert_eq!(actual.voting_power_buckets, expected.voting_power_buckets);
}

#[test]
fn test_compute_metrics() {
    let mut n1 = neuron(NotDissolving, 1, 100_000_000);
    n1.is_seed_neuron = true;
    let mut n2 = neuron(NotDissolving, ONE_YEAR_SECONDS, 234_000_000);
    n2.joined_community_fund_timestamp_seconds = Some(1);
    n2.maturity_e8s_equivalent = 450_988_012;
    n2.is_ect_neuron = true;
    let n3 = neuron(NotDissolving, ONE_YEAR_SECONDS * 4, 568_000_000);
    let n4 = neuron(NotDissolving, ONE_YEAR_SECONDS * 4, 1_123_000_000);
    let n5 = neuron(NotDissolving, ONE_YEAR_SECONDS * 8, 6_087_000_000);
    let n6 = neuron(NotDissolving, 5, 0);
    let n7 = neuron(NotDissolving, 5, 100);
    // Dissolving: the dissolve delay is the time left until dissolved.
    let mut n8 = neuron(Dissolving, ONE_YEAR_SECONDS, 234_000_000);
    n8.staked_maturity_e8s_equivalent = Some(100_000_000);
    n8.is_seed_neuron = true;
    let mut n9 = neuron(Dissolving, ONE_YEAR_SECONDS * 3, 568_000_000);
    n9.staked_maturity_e8s_equivalent = Some(100_000_000);
    n9.is_ect_neuron = true;
    let n10 = neuron(Dissolving, ONE_YEAR_SECONDS * 5, 1_123_000_000);
    let n11 = neuron(Dissolving, ONE_YEAR_SECONDS * 5, 6_087_000_000);
    let n12 = neuron(Dissolving, ONE_YEAR_SECONDS * 7, 18_000_000_000);
    // Dissolved: no dissolve delay is left.
    let n13 = neuron(Dissolved, 0, 4_450_000_000);
    let n14 = neuron(Dissolved, 0, 1_220_000_000);
    let n15 = neuron(Dissolved, 0, 100_000_000);

    let neuron_store = NeuronStore {
        heap_neurons: by_id(vec![n1, n2, n3, n4, n5, n6, n7, n8, n9, n10, n11, n12, n13, n14, n15]),
        stable_neuron_count: 0,
        active_neurons_fund_neuron_count: 1,
    };

    let metrics = neuron_store.compute_neuron_metrics(100_000_000);

    assert_eq!(metrics.dissolving_neurons_count, 5);
    assert_eq!(
        metrics.dissolving_neurons_e8s_buckets,
        buckets(&[(2, 234000000), (6, 568000000), (10, 7210000000), (14, 18000000000)])
    );
    assert_eq!(metrics.dissolving_neurons_count_buckets, buckets(&[(2, 1), (6, 1), (10, 2), (14, 1)]));
    assert_eq!(metrics.not_dissolving_neurons_count, 7);
    assert_eq!(
        metrics.not_dissolving_neurons_e8s_buckets,
        buckets(&[(0, 100000100), (2, 234000000), (8, 1691000000), (16, 6087000000)])
    );
    assert_eq!(
        metrics.not_dissolving_neurons_count_buckets,
        buckets(&[(0, 3), (2, 1), (8, 2), (16, 1)])
    );
    assert_eq!(metrics.dissolved_neurons_count, 3);
    assert_eq!(metrics.dissolved_neurons_e8s, 5770000000);
    assert_eq!(metrics.garbage_collectable_neurons_count, 0);
    assert_eq!(metrics.neurons_with_invalid_stake_count, 1);
    assert_eq!(metrics.total_staked_e8s, 39_894_000_100);
    assert_eq!(metrics.neurons_with_less_than_6_months_dissolve_delay_count, 6);
    assert_eq!(metrics.neurons_with_less_than_6_months_dissolve_delay_e8s, 5870000100);
    assert_eq!(metrics.community_fund_total_staked_e8s, 234_000_000);
    assert_eq!(metrics.community_fund_total_maturity_e8s_equivalent, 450_988_012);
    assert_eq!(metrics.neurons_fund_total_active_neurons, 1);
    assert_eq!(metrics.total_locked_e8s, 34_124_000_100);
    assert_eq!(metrics.total_maturity_e8s_equivalent, 450_988_012);
    assert_eq!(metrics.total_staked_maturity_e8s_equivalent, 200_000_000_u64);
    assert_eq!(
        metrics.dissolving_neurons_staked_maturity_e8s_equivalent_buckets,
        buckets(&[(2, 100000000), (6, 100000000), (10, 0), (14, 0)])
    );
    assert_eq!(metrics.dissolving_neurons_staked_maturity_e8s_equivalent_sum, 200_000_000_u64);
    assert_eq!(
        metrics.not_dissolving_neurons_staked_maturity_e8s_equivalent_buckets,
        buckets(&[(0, 0), (2, 0), (8, 0), (16, 0)])
    );
    assert_eq!(metrics.not_dissolving_neurons_staked_maturity_e8s_equivalent_sum, 0_u64);
    assert_eq!(metrics.seed_neuron_count, 2_u64);
    assert_eq!(metrics.ect_neuron_count, 2_u64);
    assert_eq!(metrics.total_staked_e8s_seed, 334000000);
    assert_eq!(metrics.total_staked_e8s_ect, 802000000);
    assert_eq!(metrics.total_staked_maturity_e8s_equivalent_seed, 100_000_000_u64);
    assert_eq!(metrics.total_staked_maturity_e8s_equivalent_ect, 100_000_000_u64);
    assert_eq!(metrics.dissolving_neurons_e8s_buckets_seed, buckets(&[(2, 234000000)]));
    assert_eq!(metrics.dissolving_neurons_e8s_buckets_ect, buckets(&[(6, 568000000)]));
    assert_eq!(metrics.not_dissolving_neurons_e8s_buckets_seed, buckets(&[(0, 100000000)]));
    assert_eq!(metrics.not_dissolving_neurons_e8s_buckets_ect, buckets(&[(2, 234000000)]));
}

#[test]
fn test_compute_metrics_inactive_neuron_in_heap() {
    // Step 1: 3 neurons dissolved 1 day ago, 13 days ago, and 30 days ago.
    // Only the one dissolved 30 days ago is inactive.
    let dissolved_1_day_ago = neuron(NeuronState::Dissolved, 0, 0);
    let mut dissolved_13_days_ago = neuron(NeuronState::Dissolved, 0, 0);
    let mut dissolved_30_days_ago = neuron(NeuronState::Dissolved, 0, 0);
    dissolved_30_days_ago.is_inactive = true;
    let neuron_store = store(vec![dissolved_1_day_ago, dissolved_13_days_ago, dissolved_30_days_ago]);

    // Step 2: verify that 1 neuron (3) is inactive.
    let actual_metrics = neuron_store.compute_neuron_metrics(100_000_000);
    assert_eq!(actual_metrics.garbage_collectable_neurons_count, 1);

    // Step 3: 2 days pass, and now neuron (2) is dissolved 15 days ago, and becomes inactive.
    dissolved_13_days_ago.is_inactive = true;
    let neuron_store = store(vec![dissolved_1_day_ago, dissolved_13_days_ago, dissolved_30_days_ago]);
    let actual_metrics = neuron_store.compute_neuron_metrics(100_000_000);
    assert_eq!(actual_metrics.garbage_collectable_neurons_count, 2);
}

#[test]
fn test_compute_neuron_metrics_non_self_authenticating() {
    // Neurons 1 and 3 have a non-self-authenticating controller (they get
    // counted); neuron 2 has a self-authenticating one (it is ignored).
    let voting_power_1 = (2.250 * (100.0 + 101.0)) as u64;
    let voting_power_3 = (1.875 * (300.0 + 303.0) * 1_000_000.0) as u64;

    let mut neuron_1 = neuron(NeuronState::NotDissolving, 8 * ONE_YEAR_SECONDS, 100);
    neuron_1.staked_maturity_e8s_equivalent = Some(101);
    neuron_1.maturity_e8s_equivalent = 110;
    neuron_1.voting_power = voting_power_1;

    let mut neuron_2 = neuron(NeuronState::NotDissolving, 6 * ONE_YEAR_SECONDS, 200_000);
    neuron_2.staked_maturity_e8s_equivalent = Some(202_000);
    neuron_2.maturity_e8s_equivalent = 220_000;
    neuron_2.voting_power = (1.75 * (200_000.0 + 202_000.0)) as u64;
    neuron_2.controller_is_self_authenticating = true;

    let mut neuron_3 = neuron(NeuronState::NotDissolving, 4 * ONE_YEAR_SECONDS, 300_000_000);
    neuron_3.staked_maturity_e8s_equivalent = Some(303_000_000);
    neuron_3.maturity_e8s_equivalent = 330_000_000;
    neuron_3.voting_power = voting_power_3;

    let neuron_store = store(vec![neuron_1, neuron_2, neuron_3]);

    let NeuronMetrics { non_self_authenticating_controller_neuron_subset_metrics, .. } =
        neuron_store.compute_neuron_metrics(E8);

    assert_subset_metrics_eq(
        &non_self_authenticating_controller_neuron_subset_metrics,
        &NeuronSubsetMetrics {
            count: 2,
            total_staked_e8s: 300_000_100,
            total_staked_maturity_e8s_equivalent: 303_000_101,
            total_maturity_e8s_equivalent: 330_000_110,
            total_voting_power: voting_power_1 + voting_power_3,
            count_buckets: buckets(&[(8, 1), (16, 1)]),
            staked_e8s_buckets: buckets(&[(8, 300_000_000), (16, 100)]),
            staked_maturity_e8s_equivalent_buckets: buckets(&[(8, 303_000_000), (16, 101)]),
            maturity_e8s_equivalent_buckets: buckets(&[(8, 330_000_000), (16, 110)]),
            voting_power_buckets: buckets(&[(8, voting_power_3), (16, voting_power_1)]),
        },
    );
}
