use std::collections::{BTreeMap, HashMap};

use neuron_metrics::buckets::{
    increment_bucket_saturating, increment_count_bucket, increment_e8s_bucket,
};
use neuron_metrics::metrics::{NeuronMetrics, NeuronStore};
use neuron_metrics::neuron::{
    dissolve_delay_bucket, Neuron, NeuronState, DISSOLVE_DELAY_BUCKET_SECONDS, ONE_MONTH_SECONDS,
};
use neuron_metrics::subset_metrics::NeuronSubsetMetrics;

/// The neurons keyed by ids 1, 2, 3, ... in the order given.
fn by_id(neurons: Vec<Neuron>) -> BTreeMap<u64, Neuron> {
    (1..).zip(neurons).collect()
}

fn plain_neuron(state: NeuronState, dissolve_delay_seconds: u64, stake_e8s: u64) -> Neuron {
    Neuron {
        cached_neuron_stake_e8s: stake_e8s,
        minted_stake_e8s: stake_e8s,
        staked_maturity_e8s_equivalent: None,
        maturity_e8s_equivalent: 0,
        joined_community_fund_timestamp_seconds: None,
        dissolve_delay_seconds,
        state,
        is_inactive: false,
        is_seed_neuron: false,
        is_ect_neuron: false,
        voting_power: 0,
        controller_is_self_authenticating: true,
    }
}

fn heap_store(heap_neurons: Vec<Neuron>) -> NeuronStore {
    NeuronStore { heap_neurons: by_id(heap_neurons), stable_neuron_count: 0, active_neurons_fund_neuron_count: 0 }
}

#[test]
fn count_bucket_starts_at_one_and_counts_up() {
    let mut buckets: HashMap<u64, u64> = HashMap::new();
    increment_count_bucket(&mut buckets, 3);
    assert_eq!(buckets.get(&3), Some(&1));
    increment_count_bucket(&mut buckets, 3);
    increment_count_bucket(&mut buckets, 5);
    assert_eq!(buckets.get(&3), Some(&2));
    assert_eq!(buckets.get(&5), Some(&1));
    assert_eq!(buckets.len(), 2);
}

#[test]
fn e8s_bucket_adds_the_increment() {
    let mut buckets: HashMap<u64, u64> = HashMap::new();
    increment_e8s_bucket(&mut buckets, 0, 0);
    assert_eq!(buckets.get(&0), Some(&0));
    increment_e8s_bucket(&mut buckets, 0, 250);
    increment_e8s_bucket(&mut buckets, 0, 7);
    assert_eq!(buckets.get(&0), Some(&257));
}

#[test]
fn saturating_bucket_stops_at_max() {
    let mut buckets: HashMap<u64, u64> = HashMap::new();
    increment_bucket_saturating(&mut buckets, 1, u64::MAX - 1);
    increment_bucket_saturating(&mut buckets, 1, 5);
    assert_eq!(buckets.get(&1), Some(&u64::MAX));
    increment_bucket_saturating(&mut buckets, 2, 5);
    assert_eq!(buckets.get(&2), Some(&5));
}

#[test]
fn dissolve_delay_rounds_down_to_six_months() {
    assert_eq!(DISSOLVE_DELAY_BUCKET_SECONDS, 6 * ONE_MONTH_SECONDS);
    // A dissolve delay of 7 months counts under key floor(7 / 6) = 1.
    assert_eq!(dissolve_delay_bucket(7 * ONE_MONTH_SECONDS), 1);
    assert_eq!(dissolve_delay_bucket(6 * ONE_MONTH_SECONDS - 1), 0);
    assert_eq!(dissolve_delay_bucket(6 * ONE_MONTH_SECONDS), 1);
    assert_eq!(dissolve_delay_bucket(0), 0);
    assert_eq!(dissolve_delay_bucket(u64::MAX), u64::MAX / 15_778_800);
}

#[test]
fn subset_increment_adds_everything_to_its_bucket() {
    let mut n = plain_neuron(NeuronState::NotDissolving, 13 * ONE_MONTH_SECONDS, 40);
    n.staked_maturity_e8s_equivalent = Some(3);
    n.maturity_e8s_equivalent = 9;
    n.voting_power = 70;
    let mut subset = NeuronSubsetMetrics::default();
    subset.increment(&n);
    subset.increment(&n);
    assert_eq!(subset.count, 2);
    assert_eq!(subset.total_staked_e8s, 80);
    assert_eq!(subset.total_staked_maturity_e8s_equivalent, 6);
    assert_eq!(subset.total_maturity_e8s_equivalent, 18);
    assert_eq!(subset.total_voting_power, 140);
    assert_eq!(subset.count_buckets.get(&2), Some(&2));
    assert_eq!(subset.staked_e8s_buckets.get(&2), Some(&80));
    assert_eq!(subset.staked_maturity_e8s_equivalent_buckets.get(&2), Some(&6));
    assert_eq!(subset.maturity_e8s_equivalent_buckets.get(&2), Some(&18));
    assert_eq!(subset.voting_power_buckets.get(&2), Some(&140));
    assert_eq!(subset.count_buckets.len(), 1);
}

#[test]
fn subset_increment_saturates() {
    let n = plain_neuron(NeuronState::NotDissolving, 0, u64::MAX);
    let mut subset = NeuronSubsetMetrics::new();
    subset.count = u64::MAX;
    subset.increment(&n);
    subset.increment(&n);
    assert_eq!(subset.count, u64::MAX);
    assert_eq!(subset.total_staked_e8s, u64::MAX);
    assert_eq!(subset.staked_e8s_buckets.get(&0), Some(&u64::MAX));
    assert_eq!(subset.count_buckets.get(&0), Some(&2));
}

#[test]
fn self_authenticating_controller_is_not_counted() {
    let mut metrics = NeuronMetrics::default();
    let user_neuron = plain_neuron(NeuronState::NotDissolving, 0, 10);
    metrics.increment_non_self_authenticating_controller_metrics(&user_neuron);
    assert_eq!(metrics.non_self_authenticating_controller_neuron_subset_metrics.count, 0);
    assert!(metrics.non_self_authenticating_controller_neuron_subset_metrics.count_buckets.is_empty());

    let mut canister_neuron = user_neuron;
    canister_neuron.controller_is_self_authenticating = false;
    metrics.increment_non_self_authenticating_controller_metrics(&canister_neuron);
    assert_eq!(metrics.non_self_authenticating_controller_neuron_subset_metrics.count, 1);
    assert_eq!(metrics.non_self_authenticating_controller_neuron_subset_metrics.total_staked_e8s, 10);
    assert_eq!(metrics.total_staked_e8s, 0);
}

#[test]
fn empty_store_gives_empty_metrics() {
    let store = NeuronStore {
        heap_neurons: by_id(vec![]),
        stable_neuron_count: 4,
        active_neurons_fund_neuron_count: 2,
    };
    let metrics = store.compute_neuron_metrics(100_000_000);
    assert_eq!(metrics.garbage_collectable_neurons_count, 4);
    assert_eq!(metrics.neurons_fund_total_active_neurons, 2);
    assert_eq!(metrics.total_staked_e8s, 0);
    assert_eq!(metrics.total_locked_e8s, 0);
    assert!(metrics.dissolving_neurons_count_buckets.is_empty());
    assert!(metrics.not_dissolving_neurons_e8s_buckets.is_empty());
    assert_eq!(metrics.non_self_authenticating_controller_neuron_subset_metrics.count, 0);
}

#[test]
fn stable_and_inactive_neurons_are_garbage_collectable() {
    let mut inactive = plain_neuron(NeuronState::Dissolved, 0, 0);
    inactive.is_inactive = true;
    let active = plain_neuron(NeuronState::Dissolved, 0, 0);
    let store = NeuronStore {
        heap_neurons: by_id(vec![inactive, active, inactive]),
        stable_neuron_count: 10,
        active_neurons_fund_neuron_count: 0,
    };
    assert_eq!(store.compute_neuron_metrics(1).garbage_collectable_neurons_count, 12);
}

#[test]
fn locked_total_stops_at_zero() {
    // The dissolved stake is the cached stake, the staked total the minted
    // stake (net of fees): with high fees the first can exceed the second.
    let mut n = plain_neuron(NeuronState::Dissolved, 0, 100);
    n.minted_stake_e8s = 40;
    let metrics = heap_store(vec![n]).compute_neuron_metrics(1);
    assert_eq!(metrics.total_staked_e8s, 40);
    assert_eq!(metrics.dissolved_neurons_e8s, 100);
    assert_eq!(metrics.total_locked_e8s, 0);

    let locked = plain_neuron(NeuronState::NotDissolving, 0, 500);
    let metrics = heap_store(vec![n, locked]).compute_neuron_metrics(1);
    assert_eq!(metrics.total_locked_e8s, 440);
}

#[test]
fn spawning_and_unspecified_neurons_count_only_in_totals() {
    let store = heap_store(vec![
        plain_neuron(NeuronState::Spawning, 0, 5),
        plain_neuron(NeuronState::Unspecified, 0, 7),
        plain_neuron(NeuronState::Dissolving, 0, 11),
    ]);
    let metrics = store.compute_neuron_metrics(1);
    assert_eq!(metrics.total_staked_e8s, 23);
    assert_eq!(metrics.dissolving_neurons_count, 1);
    assert_eq!(metrics.not_dissolving_neurons_count, 0);
    assert_eq!(metrics.dissolved_neurons_count, 0);
    assert_eq!(metrics.neurons_with_less_than_6_months_dissolve_delay_count, 3);
    assert_eq!(metrics.neurons_with_less_than_6_months_dissolve_delay_e8s, 23);
}

#[test]
fn invalid_stake_is_positive_and_below_the_minimum() {
    let store = heap_store(vec![
        plain_neuron(NeuronState::NotDissolving, 0, 0),
        plain_neuron(NeuronState::NotDissolving, 0, 1),
        plain_neuron(NeuronState::NotDissolving, 0, 99),
        plain_neuron(NeuronState::NotDissolving, 0, 100),
    ]);
    assert_eq!(store.compute_neuron_metrics(100).neurons_with_invalid_stake_count, 2);
    assert_eq!(store.compute_neuron_metrics(0).neurons_with_invalid_stake_count, 0);
}

#[test]
fn six_months_boundary() {
    let store = heap_store(vec![
        plain_neuron(NeuronState::NotDissolving, DISSOLVE_DELAY_BUCKET_SECONDS - 1, 3),
        plain_neuron(NeuronState::NotDissolving, DISSOLVE_DELAY_BUCKET_SECONDS, 5),
    ]);
    let metrics = store.compute_neuron_metrics(1);
    assert_eq!(metrics.neurons_with_less_than_6_months_dissolve_delay_count, 1);
    assert_eq!(metrics.neurons_with_less_than_6_months_dissolve_delay_e8s, 3);
    let expected: HashMap<u64, u64> = [(0, 3), (1, 5)].into_iter().collect();
    assert_eq!(metrics.not_dissolving_neurons_e8s_buckets, expected);
}

#[test]
fn community_fund_needs_a_join_time_after_zero() {
    let mut joined_at_zero = plain_neuron(NeuronState::NotDissolving, 0, 5);
    joined_at_zero.joined_community_fund_timestamp_seconds = Some(0);
    joined_at_zero.maturity_e8s_equivalent = 1;
    let mut joined = plain_neuron(NeuronState::NotDissolving, 0, 7);
    joined.joined_community_fund_timestamp_seconds = Some(1_700_000_000);
    joined.maturity_e8s_equivalent = 2;
    let metrics = heap_store(vec![joined_at_zero, joined]).compute_neuron_metrics(1);
    assert_eq!(metrics.community_fund_total_staked_e8s, 7);
    assert_eq!(metrics.community_fund_total_maturity_e8s_equivalent, 2);
    assert_eq!(metrics.total_maturity_e8s_equivalent, 3);
}

#[test]
fn seed_and_ect_neuron_is_bucketed_as_seed() {
    let mut both = plain_neuron(NeuronState::Dissolving, 0, 9);
    both.is_seed_neuron = true;
    both.is_ect_neuron = true;
    both.staked_maturity_e8s_equivalent = Some(4);
    let metrics = heap_store(vec![both]).compute_neuron_metrics(1);
    assert_eq!(metrics.seed_neuron_count, 1);
    assert_eq!(metrics.ect_neuron_count, 1);
    assert_eq!(metrics.total_staked_e8s_seed, 9);
    assert_eq!(metrics.total_staked_e8s_ect, 9);
    assert_eq!(metrics.total_staked_maturity_e8s_equivalent_seed, 4);
    assert_eq!(metrics.total_staked_maturity_e8s_equivalent_ect, 4);
    assert_eq!(metrics.dissolving_neurons_e8s_buckets_seed.get(&0), Some(&9));
    assert!(metrics.dissolving_neurons_e8s_buckets_ect.is_empty());
}

#[test]
fn state_counts_add_up_to_the_heap() {
    let store = heap_store(vec![
        plain_neuron(NeuronState::Dissolving, 1, 1),
        plain_neuron(NeuronState::NotDissolving, 2, 2),
        plain_neuron(NeuronState::Dissolved, 0, 3),
        plain_neuron(NeuronState::NotDissolving, 4, 4),
    ]);
    let metrics = store.compute_neuron_metrics(1);
    assert_eq!(
        metrics.dissolving_neurons_count
            + metrics.not_dissolving_neurons_count
            + metrics.dissolved_neurons_count,
        4
    );
}

#[test]
fn breakdowns_share_buckets_and_add_up() {
    let year = 12 * ONE_MONTH_SECONDS;
    let mut a = plain_neuron(NeuronState::Dissolving, year, 10);
    a.staked_maturity_e8s_equivalent = Some(1);
    a.is_ect_neuron = true;
    let b = plain_neuron(NeuronState::Dissolving, 3 * year, 20);
    let mut c = plain_neuron(NeuronState::Dissolving, 3 * year + 1, 30);
    c.staked_maturity_e8s_equivalent = Some(2);
    let d = plain_neuron(NeuronState::NotDissolving, 0, 40);
    let metrics = heap_store(vec![a, b, c, d]).compute_neuron_metrics(1);

    let mut keys: Vec<u64> = metrics.dissolving_neurons_count_buckets.keys().cloned().collect();
    keys.sort();
    assert_eq!(keys, vec![2, 6]);
    let mut e8s_keys: Vec<u64> = metrics.dissolving_neurons_e8s_buckets.keys().cloned().collect();
    e8s_keys.sort();
    assert_eq!(e8s_keys, keys);
    let mut maturity_keys: Vec<u64> = metrics
        .dissolving_neurons_staked_maturity_e8s_equivalent_buckets
        .keys()
        .cloned()
        .collect();
    maturity_keys.sort();
    assert_eq!(maturity_keys, keys);

    let count_total: u64 = metrics.dissolving_neurons_count_buckets.values().sum();
    assert_eq!(count_total, metrics.dissolving_neurons_count);
    let maturity_total: u64 =
        metrics.dissolving_neurons_staked_maturity_e8s_equivalent_buckets.values().sum();
    assert_eq!(maturity_total, metrics.dissolving_neurons_staked_maturity_e8s_equivalent_sum);
    assert_eq!(maturity_total, 3);
    let e8s_total: u64 = metrics.dissolving_neurons_e8s_buckets.values().sum();
    assert_eq!(e8s_total, 60);
    assert!(e8s_total <= metrics.total_staked_e8s);
    assert_eq!(metrics.dissolving_neurons_e8s_buckets_ect.get(&2), Some(&10));
    assert_eq!(metrics.dissolving_neurons_count_buckets.get(&6), Some(&2));
}

#[test]
fn sums_fit_tells_when_a_total_would_overflow() {
    let big = plain_neuron(NeuronState::NotDissolving, 0, u64::MAX - 1);
    let one = plain_neuron(NeuronState::NotDissolving, 0, 1);
    assert!(heap_store(vec![big, one]).sums_fit());
    assert!(!heap_store(vec![big, one, one]).sums_fit());

    let mut dissolved = plain_neuron(NeuronState::Dissolved, 0, u64::MAX);
    dissolved.minted_stake_e8s = 0;
    assert!(heap_store(vec![dissolved]).sums_fit());
    assert!(!heap_store(vec![dissolved, dissolved]).sums_fit());

    let mut inactive = plain_neuron(NeuronState::Dissolved, 0, 0);
    inactive.is_inactive = true;
    let store = NeuronStore {
        heap_neurons: by_id(vec![inactive]),
        stable_neuron_count: u64::MAX,
        active_neurons_fund_neuron_count: 0,
    };
    assert!(!store.sums_fit());

    let mut mature = plain_neuron(NeuronState::NotDissolving, 0, 0);
    mature.maturity_e8s_equivalent = u64::MAX;
    mature.staked_maturity_e8s_equivalent = Some(1);
    assert!(heap_store(vec![mature]).sums_fit());
    assert!(!heap_store(vec![mature, mature]).sums_fit());
}

#[test]
fn subset_breakdowns_add_up_to_their_totals() {
    let mut a = plain_neuron(NeuronState::NotDissolving, 0, 3);
    a.controller_is_self_authenticating = false;
    a.voting_power = 6;
    let mut b = plain_neuron(NeuronState::Dissolving, 20 * ONE_MONTH_SECONDS, 4);
    b.controller_is_self_authenticating = false;
    b.voting_power = 8;
    let c = plain_neuron(NeuronState::Dissolving, 20 * ONE_MONTH_SECONDS, 100);
    let metrics = heap_store(vec![a, b, c]).compute_neuron_metrics(1);
    let subset = &metrics.non_self_authenticating_controller_neuron_subset_metrics;
    assert_eq!(subset.count, 2);
    assert_eq!(subset.count_buckets.values().sum::<u64>(), subset.count);
    assert_eq!(subset.staked_e8s_buckets.values().sum::<u64>(), subset.total_staked_e8s);
    assert_eq!(subset.total_staked_e8s, 7);
    assert_eq!(subset.voting_power_buckets.values().sum::<u64>(), subset.total_voting_power);
    assert_eq!(subset.voting_power_buckets.get(&3), Some(&8));
}

#[test]
fn minimum_stake_changes_only_the_invalid_stake_count() {
    let mut a = plain_neuron(NeuronState::Dissolving, 20 * ONE_MONTH_SECONDS, 40);
    a.controller_is_self_authenticating = false;
    let b = plain_neuron(NeuronState::NotDissolving, 0, 120);
    let c = plain_neuron(NeuronState::Dissolved, 0, 0);
    let store = heap_store(vec![a, b, c]);
    let low = store.compute_neuron_metrics(50);
    let high = store.compute_neuron_metrics(150);
    assert_eq!(low.neurons_with_invalid_stake_count, 1);
    assert_eq!(high.neurons_with_invalid_stake_count, 2);
    assert_eq!(low.total_staked_e8s, high.total_staked_e8s);
    assert_eq!(low.total_locked_e8s, high.total_locked_e8s);
    assert_eq!(low.dissolved_neurons_count, high.dissolved_neurons_count);
    assert_eq!(low.dissolving_neurons_e8s_buckets, high.dissolving_neurons_e8s_buckets);
    assert_eq!(low.not_dissolving_neurons_count_buckets, high.not_dissolving_neurons_count_buckets);
    assert_eq!(
        low.neurons_with_less_than_6_months_dissolve_delay_e8s,
        high.neurons_with_less_than_6_months_dissolve_delay_e8s
    );
    assert_eq!(
        low.non_self_authenticating_controller_neuron_subset_metrics.staked_e8s_buckets,
        high.non_self_authenticating_controller_neuron_subset_metrics.staked_e8s_buckets
    );
}

#[test]
fn offering_neurons_in_turn_counts_only_non_self_authenticating_ones() {
    let mut canister_1 = plain_neuron(NeuronState::NotDissolving, 7 * ONE_MONTH_SECONDS, 5);
    canister_1.controller_is_self_authenticating = false;
    canister_1.voting_power = 11;
    let user = plain_neuron(NeuronState::NotDissolving, 0, 1_000);
    let mut canister_2 = plain_neuron(NeuronState::Dissolving, 30 * ONE_MONTH_SECONDS, 9);
    canister_2.controller_is_self_authenticating = false;
    canister_2.maturity_e8s_equivalent = 4;

    let mut metrics = NeuronMetrics::new();
    metrics.total_staked_e8s = 77;
    for neuron in [canister_1, user, canister_2].iter() {
        metrics.increment_non_self_authenticating_controller_metrics(neuron);
    }

    let mut expected = NeuronSubsetMetrics::new();
    expected.increment(&canister_1);
    expected.increment(&canister_2);
    let rollup = &metrics.non_self_authenticating_controller_neuron_subset_metrics;
    assert_eq!(rollup.count, expected.count);
    assert_eq!(rollup.count, 2);
    assert_eq!(rollup.total_staked_e8s, expected.total_staked_e8s);
    assert_eq!(rollup.total_maturity_e8s_equivalent, expected.total_maturity_e8s_equivalent);
    assert_eq!(rollup.total_voting_power, expected.total_voting_power);
    assert_eq!(rollup.count_buckets, expected.count_buckets);
    assert_eq!(rollup.staked_e8s_buckets, expected.staked_e8s_buckets);
    assert_eq!(rollup.voting_power_buckets, expected.voting_power_buckets);
    assert_eq!(metrics.total_staked_e8s, 77);
    assert_eq!(metrics.not_dissolving_neurons_count, 0);
    assert!(metrics.dissolving_neurons_count_buckets.is_empty());
}

#[test]
fn heap_neurons_are_read_by_id() {
    let mut heap: BTreeMap<u64, Neuron> = BTreeMap::new();
    heap.insert(30, plain_neuron(NeuronState::Dissolved, 0, 3));
    heap.insert(10, plain_neuron(NeuronState::Dissolving, 0, 1));
    heap.insert(20, plain_neuron(NeuronState::Dissolving, 0, 2));
    let store = NeuronStore { heap_neurons: heap, stable_neuron_count: 0, active_neurons_fund_neuron_count: 0 };
    assert!(store.sums_fit());
    let metrics = store.compute_neuron_metrics(1);
    assert_eq!(metrics.dissolving_neurons_count, 2);
    assert_eq!(metrics.dissolved_neurons_e8s, 3);
    assert_eq!(metrics.total_staked_e8s, 6);
}
