//! Properties that hold of every set of metrics computed from a store.

use vstd::prelude::*;
use crate::neuron::{Neuron, NeuronState, minted_stake, staked_maturity, maturity, voting_power};
use crate::tally::{
    bucket_keys, every, in_bucket, one, sum_of, tallies, tallies_saturating,
    lemma_sum_of_subset, lemma_count_at_most_len,
};
use crate::bucket_totals::{bucket_total, lemma_tally_total};
use crate::metrics::{
    NeuronMetrics, in_state, seed_in_state, ect_in_state, non_self_authenticating, invalid_stake,
    short_dissolve_delay, in_community_fund, seed, ect, inactive,
};
use crate::neuron::cached_stake;
use crate::subset_metrics::{NeuronSubsetMetrics, counts_in_turn};
use crate::tally::{lemma_tallies_unique, lemma_tallies_saturating_unique, lemma_sum_of_pointwise};
use crate::neuron::ONE_MONTH_SECONDS;

verus! {

/// Buckets that hold neurons picked by `fewer` hold neurons picked by `more`
/// where `more` picks every neuron `fewer` does.
pub proof fn lemma_bucket_keys_subset(
    s: Seq<Neuron>,
    fewer: spec_fn(Neuron) -> bool,
    more: spec_fn(Neuron) -> bool,
)
    requires
        forall|n: Neuron| #[trigger] fewer(n) ==> more(n),
    ensures
        bucket_keys(s, fewer).subset_of(bucket_keys(s, more)),
    decreases s.len(),
{
    if s.len() > 0 {
        lemma_bucket_keys_subset(s.drop_last(), fewer, more);
        assert(fewer(s.last()) ==> more(s.last()));
    }
}

/// A bucket that holds a picked neuron counts at least one.
pub proof fn lemma_key_counts_one(s: Seq<Neuron>, selected: spec_fn(Neuron) -> bool, b: u64)
    requires
        bucket_keys(s, selected).contains(b),
    ensures
        sum_of(s, one(), in_bucket(selected, b)) >= 1,
    decreases s.len(),
{
    if s.len() > 0 {
        if bucket_keys(s.drop_last(), selected).contains(b) {
            lemma_key_counts_one(s.drop_last(), selected, b);
        }
        lemma_count_nonnegative(s.drop_last(), in_bucket(selected, b));
    }
}

/// A count is never negative.
pub proof fn lemma_count_nonnegative(s: Seq<Neuron>, selected: spec_fn(Neuron) -> bool)
    ensures
        sum_of(s, one(), selected) >= 0,
    decreases s.len(),
{
    if s.len() > 0 {
        lemma_count_nonnegative(s.drop_last(), selected);
    }
}

/// The dissolving, not dissolving and dissolved neurons together are at most
/// all the neurons, and exactly all of them where no neuron is in another
/// state.
pub proof fn lemma_state_counts_add_up(s: Seq<Neuron>)
    ensures
        sum_of(s, one(), in_state(NeuronState::Dissolving)) + sum_of(
            s,
            one(),
            in_state(NeuronState::NotDissolving),
        ) + sum_of(s, one(), in_state(NeuronState::Dissolved)) <= s.len(),
        (forall|i: int|
            0 <= i < s.len() ==> (#[trigger] s[i]).state == NeuronState::Dissolving || s[i].state
                == NeuronState::NotDissolving || s[i].state == NeuronState::Dissolved) ==> sum_of(
            s,
            one(),
            in_state(NeuronState::Dissolving),
        ) + sum_of(s, one(), in_state(NeuronState::NotDissolving)) + sum_of(
            s,
            one(),
            in_state(NeuronState::Dissolved),
        ) == s.len(),
    decreases s.len(),
{
    if s.len() > 0 {
        lemma_state_counts_add_up(s.drop_last());
        assert forall|i: int| 0 <= i < s.drop_last().len() implies s.drop_last()[i] == s[i] by {}
    }
}

/// Law: the neurons counted by state are at most the heap neurons, and all of
/// them where every heap neuron is dissolving, not dissolving or dissolved.
pub proof fn law_state_counts(
    m: NeuronMetrics,
    s: Seq<Neuron>,
    minimum_stake_e8s: u64,
    stable_neuron_count: u64,
)
    requires
        m.describes(s, minimum_stake_e8s, stable_neuron_count),
    ensures
        m.dissolving_neurons_count + m.not_dissolving_neurons_count + m.dissolved_neurons_count
            <= s.len(),
        (forall|i: int|
            0 <= i < s.len() ==> (#[trigger] s[i]).state == NeuronState::Dissolving || s[i].state
                == NeuronState::NotDissolving || s[i].state == NeuronState::Dissolved) ==> (
        m.dissolving_neurons_count + m.not_dissolving_neurons_count + m.dissolved_neurons_count
            == s.len()),
{
    lemma_state_counts_add_up(s);
}

/// Every breakdown kept for one state has the same buckets (those of its
/// neurons), each count bucket counts at least one and at most all neurons of
/// that state, and the seed and ECT breakdowns only use those buckets.
pub proof fn lemma_state_breakdowns_agree(
    count: u64,
    e8s_buckets: Map<u64, u64>,
    count_buckets: Map<u64, u64>,
    staked_maturity_buckets: Map<u64, u64>,
    seed_e8s_buckets: Map<u64, u64>,
    ect_e8s_buckets: Map<u64, u64>,
    s: Seq<Neuron>,
    st: NeuronState,
)
    requires
        count == sum_of(s, one(), in_state(st)),
        tallies(e8s_buckets, s, minted_stake(), in_state(st)),
        tallies(count_buckets, s, one(), in_state(st)),
        tallies(staked_maturity_buckets, s, staked_maturity(), in_state(st)),
        tallies(seed_e8s_buckets, s, minted_stake(), seed_in_state(st)),
        tallies(ect_e8s_buckets, s, minted_stake(), ect_in_state(st)),
    ensures
        e8s_buckets.dom() == count_buckets.dom(),
        staked_maturity_buckets.dom() == count_buckets.dom(),
        seed_e8s_buckets.dom().subset_of(count_buckets.dom()),
        ect_e8s_buckets.dom().subset_of(count_buckets.dom()),
        forall|b: u64| #[trigger]
            count_buckets.contains_key(b) ==> 1 <= count_buckets[b] <= count,
{
    lemma_bucket_keys_subset(s, seed_in_state(st), in_state(st));
    lemma_bucket_keys_subset(s, ect_in_state(st), in_state(st));
    assert forall|b: u64| #[trigger] count_buckets.contains_key(b) implies 1 <= count_buckets[b]
        <= count by {
        lemma_key_counts_one(s, in_state(st), b);
        lemma_sum_of_subset(s, one(), in_bucket(in_state(st), b), in_state(st));
    }
}

/// Law: the dissolving and the not dissolving breakdowns each use the same
/// buckets for counts, stake and staked maturity; their seed and ECT
/// breakdowns use no other bucket; each count bucket counts at least one
/// neuron and at most the neurons in that state.
pub proof fn law_bucket_breakdowns_agree(
    m: NeuronMetrics,
    s: Seq<Neuron>,
    minimum_stake_e8s: u64,
    stable_neuron_count: u64,
)
    requires
        m.describes(s, minimum_stake_e8s, stable_neuron_count),
    ensures
        m.dissolving_neurons_e8s_buckets@.dom() == m.dissolving_neurons_count_buckets@.dom(),
        m.dissolving_neurons_staked_maturity_e8s_equivalent_buckets@.dom()
            == m.dissolving_neurons_count_buckets@.dom(),
        m.dissolving_neurons_e8s_buckets_seed@.dom().subset_of(
            m.dissolving_neurons_count_buckets@.dom(),
        ),
        m.dissolving_neurons_e8s_buckets_ect@.dom().subset_of(
            m.dissolving_neurons_count_buckets@.dom(),
        ),
        forall|b: u64| #[trigger]
            m.dissolving_neurons_count_buckets@.contains_key(b) ==> 1
                <= m.dissolving_neurons_count_buckets@[b] <= m.dissolving_neurons_count,
        m.not_dissolving_neurons_e8s_buckets@.dom()
            == m.not_dissolving_neurons_count_buckets@.dom(),
        m.not_dissolving_neurons_staked_maturity_e8s_equivalent_buckets@.dom()
            == m.not_dissolving_neurons_count_buckets@.dom(),
        m.not_dissolving_neurons_e8s_buckets_seed@.dom().subset_of(
            m.not_dissolving_neurons_count_buckets@.dom(),
        ),
        m.not_dissolving_neurons_e8s_buckets_ect@.dom().subset_of(
            m.not_dissolving_neurons_count_buckets@.dom(),
        ),
        forall|b: u64| #[trigger]
            m.not_dissolving_neurons_count_buckets@.contains_key(b) ==> 1
                <= m.not_dissolving_neurons_count_buckets@[b] <= m.not_dissolving_neurons_count,
{
    lemma_state_breakdowns_agree(
        m.dissolving_neurons_count,
        m.dissolving_neurons_e8s_buckets@,
        m.dissolving_neurons_count_buckets@,
        m.dissolving_neurons_staked_maturity_e8s_equivalent_buckets@,
        m.dissolving_neurons_e8s_buckets_seed@,
        m.dissolving_neurons_e8s_buckets_ect@,
        s,
        NeuronState::Dissolving,
    );
    lemma_state_breakdowns_agree(
        m.not_dissolving_neurons_count,
        m.not_dissolving_neurons_e8s_buckets@,
        m.not_dissolving_neurons_count_buckets@,
        m.not_dissolving_neurons_staked_maturity_e8s_equivalent_buckets@,
        m.not_dissolving_neurons_e8s_buckets_seed@,
        m.not_dissolving_neurons_e8s_buckets_ect@,
        s,
        NeuronState::NotDissolving,
    );
}

/// Law: the rollup of neurons with a non-self-authenticating controller
/// counts at most the heap neurons; its breakdowns all use the same buckets.
pub proof fn law_subset_rollup(
    m: NeuronMetrics,
    s: Seq<Neuron>,
    minimum_stake_e8s: u64,
    stable_neuron_count: u64,
)
    requires
        m.describes(s, minimum_stake_e8s, stable_neuron_count),
    ensures
        m.non_self_authenticating_controller_neuron_subset_metrics.count <= s.len(),
        m.non_self_authenticating_controller_neuron_subset_metrics.staked_e8s_buckets@.dom()
            == m.non_self_authenticating_controller_neuron_subset_metrics.count_buckets@.dom(),
        m.non_self_authenticating_controller_neuron_subset_metrics.staked_maturity_e8s_equivalent_buckets@.dom()
            == m.non_self_authenticating_controller_neuron_subset_metrics.count_buckets@.dom(),
        m.non_self_authenticating_controller_neuron_subset_metrics.maturity_e8s_equivalent_buckets@.dom()
            == m.non_self_authenticating_controller_neuron_subset_metrics.count_buckets@.dom(),
        m.non_self_authenticating_controller_neuron_subset_metrics.voting_power_buckets@.dom()
            == m.non_self_authenticating_controller_neuron_subset_metrics.count_buckets@.dom(),
{
    lemma_count_at_most_len(s, non_self_authenticating());
    lemma_count_nonnegative(s, non_self_authenticating());
}

/// Law: the part totals never exceed the whole: staked e8s of the community
/// fund, of seed and of ECT neurons, of neurons with a short dissolve delay,
/// and in any one dissolve delay bucket are at most the total staked; the
/// locked total is at most the staked total.
pub proof fn law_parts_within_totals(
    m: NeuronMetrics,
    s: Seq<Neuron>,
    minimum_stake_e8s: u64,
    stable_neuron_count: u64,
)
    requires
        m.describes(s, minimum_stake_e8s, stable_neuron_count),
        m.total_locked_e8s == if m.dissolved_neurons_e8s <= m.total_staked_e8s {
            m.total_staked_e8s - m.dissolved_neurons_e8s
        } else {
            0
        },
    ensures
        m.community_fund_total_staked_e8s <= m.total_staked_e8s,
        m.total_staked_e8s_seed <= m.total_staked_e8s,
        m.total_staked_e8s_ect <= m.total_staked_e8s,
        m.neurons_with_less_than_6_months_dissolve_delay_e8s <= m.total_staked_e8s,
        m.total_locked_e8s <= m.total_staked_e8s,
        forall|b: u64| #[trigger]
            m.dissolving_neurons_e8s_buckets@.contains_key(b)
                ==> m.dissolving_neurons_e8s_buckets@[b] <= m.total_staked_e8s,
        forall|b: u64| #[trigger]
            m.not_dissolving_neurons_e8s_buckets@.contains_key(b)
                ==> m.not_dissolving_neurons_e8s_buckets@[b] <= m.total_staked_e8s,
{
    lemma_sum_of_subset(s, minted_stake(), in_community_fund(), every());
    lemma_sum_of_subset(s, minted_stake(), seed(), every());
    lemma_sum_of_subset(s, minted_stake(), ect(), every());
    lemma_sum_of_subset(s, minted_stake(), short_dissolve_delay(), every());
    assert forall|b: u64| #[trigger] m.dissolving_neurons_e8s_buckets@.contains_key(b) implies m.dissolving_neurons_e8s_buckets@[b]
        <= m.total_staked_e8s by {
        lemma_sum_of_subset(
            s,
            minted_stake(),
            in_bucket(in_state(NeuronState::Dissolving), b),
            every(),
        );
    }
    assert forall|b: u64| #[trigger] m.not_dissolving_neurons_e8s_buckets@.contains_key(b) implies m.not_dissolving_neurons_e8s_buckets@[b]
        <= m.total_staked_e8s by {
        lemma_sum_of_subset(
            s,
            minted_stake(),
            in_bucket(in_state(NeuronState::NotDissolving), b),
            every(),
        );
    }
}

/// Law: each dissolve delay breakdown adds up to its whole. The count buckets
/// of the dissolving (not dissolving) neurons add up to their count, their
/// staked maturity buckets to their staked maturity sum; their stake buckets
/// add up to their stake, which is at most the total staked.
pub proof fn law_buckets_add_up(
    m: NeuronMetrics,
    s: Seq<Neuron>,
    minimum_stake_e8s: u64,
    stable_neuron_count: u64,
)
    requires
        m.describes(s, minimum_stake_e8s, stable_neuron_count),
    ensures
        bucket_total(m.dissolving_neurons_count_buckets@) == m.dissolving_neurons_count,
        bucket_total(m.dissolving_neurons_staked_maturity_e8s_equivalent_buckets@)
            == m.dissolving_neurons_staked_maturity_e8s_equivalent_sum,
        bucket_total(m.dissolving_neurons_e8s_buckets@) == sum_of(
            s,
            minted_stake(),
            in_state(NeuronState::Dissolving),
        ),
        bucket_total(m.dissolving_neurons_e8s_buckets@) <= m.total_staked_e8s,
        bucket_total(m.not_dissolving_neurons_count_buckets@) == m.not_dissolving_neurons_count,
        bucket_total(m.not_dissolving_neurons_staked_maturity_e8s_equivalent_buckets@)
            == m.not_dissolving_neurons_staked_maturity_e8s_equivalent_sum,
        bucket_total(m.not_dissolving_neurons_e8s_buckets@) == sum_of(
            s,
            minted_stake(),
            in_state(NeuronState::NotDissolving),
        ),
        bucket_total(m.not_dissolving_neurons_e8s_buckets@) <= m.total_staked_e8s,
{
    lemma_tally_total(m.dissolving_neurons_count_buckets@, s, one(), in_state(NeuronState::Dissolving));
    lemma_tally_total(
        m.dissolving_neurons_staked_maturity_e8s_equivalent_buckets@,
        s,
        staked_maturity(),
        in_state(NeuronState::Dissolving),
    );
    lemma_tally_total(
        m.dissolving_neurons_e8s_buckets@,
        s,
        minted_stake(),
        in_state(NeuronState::Dissolving),
    );
    lemma_sum_of_subset(s, minted_stake(), in_state(NeuronState::Dissolving), every());
    lemma_tally_total(
        m.not_dissolving_neurons_count_buckets@,
        s,
        one(),
        in_state(NeuronState::NotDissolving),
    );
    lemma_tally_total(
        m.not_dissolving_neurons_staked_maturity_e8s_equivalent_buckets@,
        s,
        staked_maturity(),
        in_state(NeuronState::NotDissolving),
    );
    lemma_tally_total(
        m.not_dissolving_neurons_e8s_buckets@,
        s,
        minted_stake(),
        in_state(NeuronState::NotDissolving),
    );
    lemma_sum_of_subset(s, minted_stake(), in_state(NeuronState::NotDissolving), every());
}

/// A saturating tally whose whole sum fits is an exact tally.
pub proof fn lemma_unsaturated_tally(
    m: Map<u64, u64>,
    s: Seq<Neuron>,
    value: spec_fn(Neuron) -> nat,
    selected: spec_fn(Neuron) -> bool,
)
    requires
        tallies_saturating(m, s, value, selected),
        sum_of(s, value, selected) <= u64::MAX,
    ensures
        tallies(m, s, value, selected),
{
    assert forall|b: u64| #[trigger] m.contains_key(b) implies m[b] == sum_of(
        s,
        value,
        in_bucket(selected, b),
    ) by {
        lemma_sum_of_subset(s, value, in_bucket(selected, b), selected);
    }
}

/// Law: in the rollup of neurons with a non-self-authenticating controller,
/// each breakdown whose whole did not reach `u64::MAX` adds up to that whole.
pub proof fn law_subset_buckets_add_up(
    m: NeuronMetrics,
    s: Seq<Neuron>,
    minimum_stake_e8s: u64,
    stable_neuron_count: u64,
)
    requires
        m.describes(s, minimum_stake_e8s, stable_neuron_count),
    ensures
        ({
            let r = m.non_self_authenticating_controller_neuron_subset_metrics;
            &&& r.count < u64::MAX ==> bucket_total(r.count_buckets@) == r.count
            &&& r.total_staked_e8s < u64::MAX ==> bucket_total(r.staked_e8s_buckets@)
                == r.total_staked_e8s
            &&& r.total_staked_maturity_e8s_equivalent < u64::MAX ==> bucket_total(
                r.staked_maturity_e8s_equivalent_buckets@,
            ) == r.total_staked_maturity_e8s_equivalent
            &&& r.total_maturity_e8s_equivalent < u64::MAX ==> bucket_total(
                r.maturity_e8s_equivalent_buckets@,
            ) == r.total_maturity_e8s_equivalent
            &&& r.total_voting_power < u64::MAX ==> bucket_total(r.voting_power_buckets@)
                == r.total_voting_power
        }),
{
    let r = m.non_self_authenticating_controller_neuron_subset_metrics;
    let sel = non_self_authenticating();
    if r.count < u64::MAX {
        lemma_unsaturated_tally(r.count_buckets@, s, one(), sel);
        lemma_tally_total(r.count_buckets@, s, one(), sel);
    }
    if r.total_staked_e8s < u64::MAX {
        lemma_unsaturated_tally(r.staked_e8s_buckets@, s, minted_stake(), sel);
        lemma_tally_total(r.staked_e8s_buckets@, s, minted_stake(), sel);
    }
    if r.total_staked_maturity_e8s_equivalent < u64::MAX {
        lemma_unsaturated_tally(r.staked_maturity_e8s_equivalent_buckets@, s, staked_maturity(), sel);
        lemma_tally_total(r.staked_maturity_e8s_equivalent_buckets@, s, staked_maturity(), sel);
    }
    if r.total_maturity_e8s_equivalent < u64::MAX {
        lemma_unsaturated_tally(r.maturity_e8s_equivalent_buckets@, s, maturity(), sel);
        lemma_tally_total(r.maturity_e8s_equivalent_buckets@, s, maturity(), sel);
    }
    if r.total_voting_power < u64::MAX {
        lemma_unsaturated_tally(r.voting_power_buckets@, s, voting_power(), sel);
        lemma_tally_total(r.voting_power_buckets@, s, voting_power(), sel);
    }
}

/// Law: the minimum stake decides the invalid-stake count and nothing else.
/// Metrics of the same neurons under minimum stakes `low <= high` agree on
/// every other field; each counts the neurons with some stake below its
/// minimum, so the count under `low` is at most the count under `high`.
pub proof fn law_minimum_stake(
    a: NeuronMetrics,
    b: NeuronMetrics,
    s: Seq<Neuron>,
    low: u64,
    high: u64,
    stable_neuron_count: u64,
    active_neurons_fund_neuron_count: u64,
)
    requires
        low <= high,
        a.computed_from(s, low, stable_neuron_count, active_neurons_fund_neuron_count),
        b.computed_from(s, high, stable_neuron_count, active_neurons_fund_neuron_count),
    ensures
        a.neurons_with_invalid_stake_count == sum_of(s, one(), invalid_stake(low)),
        b.neurons_with_invalid_stake_count == sum_of(s, one(), invalid_stake(high)),
        a.neurons_with_invalid_stake_count <= b.neurons_with_invalid_stake_count,
        a.agrees_apart_from_invalid_stake(b),
{
    lemma_sum_of_subset(s, one(), invalid_stake(low), invalid_stake(high));
    let d = NeuronState::Dissolving;
    let nd = NeuronState::NotDissolving;
    lemma_tallies_unique(
        a.dissolving_neurons_e8s_buckets@,
        b.dissolving_neurons_e8s_buckets@,
        s,
        minted_stake(),
        in_state(d),
    );
    lemma_tallies_unique(
        a.dissolving_neurons_count_buckets@,
        b.dissolving_neurons_count_buckets@,
        s,
        one(),
        in_state(d),
    );
    lemma_tallies_unique(
        a.dissolving_neurons_staked_maturity_e8s_equivalent_buckets@,
        b.dissolving_neurons_staked_maturity_e8s_equivalent_buckets@,
        s,
        staked_maturity(),
        in_state(d),
    );
    lemma_tallies_unique(
        a.dissolving_neurons_e8s_buckets_seed@,
        b.dissolving_neurons_e8s_buckets_seed@,
        s,
        minted_stake(),
        seed_in_state(d),
    );
    lemma_tallies_unique(
        a.dissolving_neurons_e8s_buckets_ect@,
        b.dissolving_neurons_e8s_buckets_ect@,
        s,
        minted_stake(),
        ect_in_state(d),
    );
    lemma_tallies_unique(
        a.not_dissolving_neurons_e8s_buckets@,
        b.not_dissolving_neurons_e8s_buckets@,
        s,
        minted_stake(),
        in_state(nd),
    );
    lemma_tallies_unique(
        a.not_dissolving_neurons_count_buckets@,
        b.not_dissolving_neurons_count_buckets@,
        s,
        one(),
        in_state(nd),
    );
    lemma_tallies_unique(
        a.not_dissolving_neurons_staked_maturity_e8s_equivalent_buckets@,
        b.not_dissolving_neurons_staked_maturity_e8s_equivalent_buckets@,
        s,
        staked_maturity(),
        in_state(nd),
    );
    lemma_tallies_unique(
        a.not_dissolving_neurons_e8s_buckets_seed@,
        b.not_dissolving_neurons_e8s_buckets_seed@,
        s,
        minted_stake(),
        seed_in_state(nd),
    );
    lemma_tallies_unique(
        a.not_dissolving_neurons_e8s_buckets_ect@,
        b.not_dissolving_neurons_e8s_buckets_ect@,
        s,
        minted_stake(),
        ect_in_state(nd),
    );
    let ra = a.non_self_authenticating_controller_neuron_subset_metrics;
    let rb = b.non_self_authenticating_controller_neuron_subset_metrics;
    let sel = non_self_authenticating();
    lemma_tallies_saturating_unique(ra.count_buckets@, rb.count_buckets@, s, one(), sel);
    lemma_tallies_saturating_unique(
        ra.staked_e8s_buckets@,
        rb.staked_e8s_buckets@,
        s,
        minted_stake(),
        sel,
    );
    lemma_tallies_saturating_unique(
        ra.staked_maturity_e8s_equivalent_buckets@,
        rb.staked_maturity_e8s_equivalent_buckets@,
        s,
        staked_maturity(),
        sel,
    );
    lemma_tallies_saturating_unique(
        ra.maturity_e8s_equivalent_buckets@,
        rb.maturity_e8s_equivalent_buckets@,
        s,
        maturity(),
        sel,
    );
    lemma_tallies_saturating_unique(
        ra.voting_power_buckets@,
        rb.voting_power_buckets@,
        s,
        voting_power(),
        sel,
    );
}

/// Law: offering the neurons of `ns` in turn to the rollup of neurons with a
/// non-self-authenticating controller (`ms[i + 1]` is `ms[i]` after offering
/// `ns[i]`) gives the rollup `ms[0]` held, incremented in turn by exactly the
/// neurons of `ns` whose controller is not self-authenticating; nothing else
/// changes. The result is the chain of rollups along the way.
pub proof fn law_rollup_over_calls(ms: Seq<NeuronMetrics>, ns: Seq<Neuron>) -> (rollups: Seq<
    NeuronSubsetMetrics,
>)
    requires
        ms.len() == ns.len() + 1,
        forall|i: int|
            #![trigger ns[i]]
            0 <= i < ns.len() ==> ms[i + 1].offered_to_rollup(ms[i], ns[i]),
    ensures
        counts_in_turn(rollups, ns.filter(non_self_authenticating())),
        rollups[0] == ms[0].non_self_authenticating_controller_neuron_subset_metrics,
        rollups.last() == ms.last().non_self_authenticating_controller_neuron_subset_metrics,
        ms.last() == (NeuronMetrics {
            non_self_authenticating_controller_neuron_subset_metrics:
                ms.last().non_self_authenticating_controller_neuron_subset_metrics,
            ..ms[0]
        }),
    decreases ns.len(),
{
    reveal(Seq::filter);
    if ns.len() == 0 {
        let rollups = seq![ms[0].non_self_authenticating_controller_neuron_subset_metrics];
        assert(ns.filter(non_self_authenticating()).len() == 0);
        rollups
    } else {
        let earlier = ms.drop_last();
        let rest = ns.drop_last();
        let n = ns.last();
        assert forall|i: int|
            #![trigger rest[i]]
            0 <= i < rest.len() implies earlier[i + 1].offered_to_rollup(earlier[i], rest[i]) by {
            assert(ns[i] == rest[i]);
        }
        let before = law_rollup_over_calls(earlier, rest);
        let last = ms.last();
        let prev = ms[ns.len() - 1];
        assert(ns[ns.len() - 1] == n);
        assert(last.offered_to_rollup(prev, n));
        let picked = rest.filter(non_self_authenticating());
        if n.controller_is_self_authenticating {
            assert(ns.filter(non_self_authenticating()) == picked);
            before
        } else {
            let rollups = before.push(last.non_self_authenticating_controller_neuron_subset_metrics);
            assert(ns.filter(non_self_authenticating()) == picked.push(n));
            assert forall|i: int|
                #![trigger picked.push(n)[i]]
                0 <= i < picked.push(n).len() implies rollups[i + 1].counts_one_more(
                rollups[i],
                picked.push(n)[i],
            ) by {
                if i < picked.len() {
                    assert(picked.push(n)[i] == picked[i]);
                }
            }
            rollups
        }
    }
}

/// Law: a neuron has invalid stake exactly when its cached stake is positive
/// and below the minimum stake, whatever else it holds (its minted stake
/// included). The count is the number of such neurons of the heap, so heaps
/// whose neurons agree, one by one, on their cached stake have the same count.
pub proof fn law_invalid_stake(
    a: NeuronMetrics,
    s: Seq<Neuron>,
    b: NeuronMetrics,
    t: Seq<Neuron>,
    minimum_stake_e8s: u64,
    stable_a: u64,
    stable_b: u64,
)
    requires
        a.describes(s, minimum_stake_e8s, stable_a),
        b.describes(t, minimum_stake_e8s, stable_b),
        s.len() == t.len(),
        forall|i: int|
            0 <= i < s.len() ==> (#[trigger] s[i]).cached_neuron_stake_e8s
                == t[i].cached_neuron_stake_e8s,
    ensures
        a.neurons_with_invalid_stake_count == sum_of(
            s,
            |n: Neuron| 1nat,
            |n: Neuron|
                0 < n.cached_neuron_stake_e8s && n.cached_neuron_stake_e8s < minimum_stake_e8s,
        ),
        a.neurons_with_invalid_stake_count == b.neurons_with_invalid_stake_count,
{
    let count = |n: Neuron| 1nat;
    let has_invalid_stake = |n: Neuron|
        0 < n.cached_neuron_stake_e8s && n.cached_neuron_stake_e8s < minimum_stake_e8s;
    assert(one() =~= count);
    assert(invalid_stake(minimum_stake_e8s) =~= has_invalid_stake);
    lemma_sum_of_pointwise(s, t, count, has_invalid_stake);
}

/// Law: a neuron counts as having less than six months of dissolve delay
/// exactly when its dissolve delay is below six months, in any state and
/// whether active or not. The count is the number of such neurons and the
/// e8s total their minted stake, so heaps whose neurons agree, one by one,
/// on dissolve delay and minted stake have the same count and total.
pub proof fn law_short_dissolve_delay(
    a: NeuronMetrics,
    s: Seq<Neuron>,
    b: NeuronMetrics,
    t: Seq<Neuron>,
    minimum_a: u64,
    minimum_b: u64,
    stable_a: u64,
    stable_b: u64,
)
    requires
        a.describes(s, minimum_a, stable_a),
        b.describes(t, minimum_b, stable_b),
        s.len() == t.len(),
        forall|i: int|
            0 <= i < s.len() ==> (#[trigger] s[i]).dissolve_delay_seconds
                == t[i].dissolve_delay_seconds && s[i].minted_stake_e8s == t[i].minted_stake_e8s,
    ensures
        a.neurons_with_less_than_6_months_dissolve_delay_count == sum_of(
            s,
            |n: Neuron| 1nat,
            |n: Neuron| n.dissolve_delay_seconds < 6 * ONE_MONTH_SECONDS,
        ),
        a.neurons_with_less_than_6_months_dissolve_delay_e8s == sum_of(
            s,
            |n: Neuron| n.minted_stake_e8s as nat,
            |n: Neuron| n.dissolve_delay_seconds < 6 * ONE_MONTH_SECONDS,
        ),
        a.neurons_with_less_than_6_months_dissolve_delay_count
            == b.neurons_with_less_than_6_months_dissolve_delay_count,
        a.neurons_with_less_than_6_months_dissolve_delay_e8s
            == b.neurons_with_less_than_6_months_dissolve_delay_e8s,
{
    let count = |n: Neuron| 1nat;
    let stake = |n: Neuron| n.minted_stake_e8s as nat;
    let short = |n: Neuron| n.dissolve_delay_seconds < 6 * ONE_MONTH_SECONDS;
    assert(one() =~= count);
    assert(minted_stake() =~= stake);
    assert(short_dissolve_delay() =~= short);
    lemma_sum_of_pointwise(s, t, count, short);
    lemma_sum_of_pointwise(s, t, stake, short);
}

/// Law: a neuron is in the community fund exactly when it joined it at a
/// time after zero, whatever its state. The community fund totals are the
/// minted stake and the maturity of those neurons, so heaps whose neurons
/// agree, one by one, on join time, minted stake and maturity (in any states)
/// have the same totals.
pub proof fn law_community_fund(
    a: NeuronMetrics,
    s: Seq<Neuron>,
    b: NeuronMetrics,
    t: Seq<Neuron>,
    minimum_a: u64,
    minimum_b: u64,
    stable_a: u64,
    stable_b: u64,
)
    requires
        a.describes(s, minimum_a, stable_a),
        b.describes(t, minimum_b, stable_b),
        s.len() == t.len(),
        forall|i: int|
            0 <= i < s.len() ==> (#[trigger] s[i]).joined_community_fund_timestamp_seconds
                == t[i].joined_community_fund_timestamp_seconds && s[i].minted_stake_e8s
                == t[i].minted_stake_e8s && s[i].maturity_e8s_equivalent
                == t[i].maturity_e8s_equivalent,
    ensures
        a.community_fund_total_staked_e8s == sum_of(
            s,
            |n: Neuron| n.minted_stake_e8s as nat,
            |n: Neuron| n.joined_community_fund_timestamp_seconds matches Some(time) && time > 0,
        ),
        a.community_fund_total_maturity_e8s_equivalent == sum_of(
            s,
            |n: Neuron| n.maturity_e8s_equivalent as nat,
            |n: Neuron| n.joined_community_fund_timestamp_seconds matches Some(time) && time > 0,
        ),
        a.community_fund_total_staked_e8s == b.community_fund_total_staked_e8s,
        a.community_fund_total_maturity_e8s_equivalent
            == b.community_fund_total_maturity_e8s_equivalent,
{
    let stake = |n: Neuron| n.minted_stake_e8s as nat;
    let mature = |n: Neuron| n.maturity_e8s_equivalent as nat;
    let joined = |n: Neuron| n.joined_community_fund_timestamp_seconds matches Some(time) && time > 0;
    assert(minted_stake() =~= stake);
    assert(maturity() =~= mature);
    assert(in_community_fund() =~= joined);
    lemma_sum_of_pointwise(s, t, stake, joined);
    lemma_sum_of_pointwise(s, t, mature, joined);
}

/// Law: seed (ECT) neurons are counted and totalled exactly when they are
/// seed (ECT) neurons, whatever their state: the counts are the numbers of
/// such neurons and the totals their minted stake and staked maturity, so
/// heaps whose neurons agree, one by one, on those flags, minted stake and
/// staked maturity (in any states) have the same counts and totals.
pub proof fn law_seed_and_ect(
    a: NeuronMetrics,
    s: Seq<Neuron>,
    b: NeuronMetrics,
    t: Seq<Neuron>,
    minimum_a: u64,
    minimum_b: u64,
    stable_a: u64,
    stable_b: u64,
)
    requires
        a.describes(s, minimum_a, stable_a),
        b.describes(t, minimum_b, stable_b),
        s.len() == t.len(),
        forall|i: int|
            0 <= i < s.len() ==> (#[trigger] s[i]).is_seed_neuron == t[i].is_seed_neuron
                && s[i].is_ect_neuron == t[i].is_ect_neuron && s[i].minted_stake_e8s
                == t[i].minted_stake_e8s && s[i].staked_maturity_e8s_equivalent
                == t[i].staked_maturity_e8s_equivalent,
    ensures
        a.seed_neuron_count == sum_of(s, |n: Neuron| 1nat, |n: Neuron| n.is_seed_neuron),
        a.total_staked_e8s_seed == sum_of(
            s,
            |n: Neuron| n.minted_stake_e8s as nat,
            |n: Neuron| n.is_seed_neuron,
        ),
        a.total_staked_maturity_e8s_equivalent_seed == sum_of(
            s,
            |n: Neuron|
                match n.staked_maturity_e8s_equivalent {
                    Some(e8s) => e8s as nat,
                    None => 0nat,
                },
            |n: Neuron| n.is_seed_neuron,
        ),
        a.ect_neuron_count == sum_of(s, |n: Neuron| 1nat, |n: Neuron| n.is_ect_neuron),
        a.total_staked_e8s_ect == sum_of(
            s,
            |n: Neuron| n.minted_stake_e8s as nat,
            |n: Neuron| n.is_ect_neuron,
        ),
        a.total_staked_maturity_e8s_equivalent_ect == sum_of(
            s,
            |n: Neuron|
                match n.staked_maturity_e8s_equivalent {
                    Some(e8s) => e8s as nat,
                    None => 0nat,
                },
            |n: Neuron| n.is_ect_neuron,
        ),
        a.seed_neuron_count == b.seed_neuron_count,
        a.total_staked_e8s_seed == b.total_staked_e8s_seed,
        a.total_staked_maturity_e8s_equivalent_seed == b.total_staked_maturity_e8s_equivalent_seed,
        a.ect_neuron_count == b.ect_neuron_count,
        a.total_staked_e8s_ect == b.total_staked_e8s_ect,
        a.total_staked_maturity_e8s_equivalent_ect == b.total_staked_maturity_e8s_equivalent_ect,
{
    let count = |n: Neuron| 1nat;
    let stake = |n: Neuron| n.minted_stake_e8s as nat;
    let matured = |n: Neuron|
        match n.staked_maturity_e8s_equivalent {
            Some(e8s) => e8s as nat,
            None => 0nat,
        };
    let is_seed = |n: Neuron| n.is_seed_neuron;
    let is_ect = |n: Neuron| n.is_ect_neuron;
    assert(one() =~= count);
    assert(minted_stake() =~= stake);
    assert(staked_maturity() =~= matured);
    assert(seed() =~= is_seed);
    assert(ect() =~= is_ect);
    lemma_sum_of_pointwise(s, t, count, is_seed);
    lemma_sum_of_pointwise(s, t, stake, is_seed);
    lemma_sum_of_pointwise(s, t, matured, is_seed);
    lemma_sum_of_pointwise(s, t, count, is_ect);
    lemma_sum_of_pointwise(s, t, stake, is_ect);
    lemma_sum_of_pointwise(s, t, matured, is_ect);
}

/// Law: the state totals read the right fields of the right neurons. The
/// dissolved count and stake are the number and the cached stake of the
/// dissolved neurons; the dissolving (not dissolving) count and staked
/// maturity sum are those of the dissolving (not dissolving) neurons; the
/// garbage collectable count is the stable neurons plus the inactive heap
/// neurons; the staked, maturity and staked maturity totals run over every
/// neuron; the rollup counts the neurons whose controller is not
/// self-authenticating, stopping at `u64::MAX`.
pub proof fn law_totals(
    m: NeuronMetrics,
    s: Seq<Neuron>,
    minimum_stake_e8s: u64,
    stable_neuron_count: u64,
)
    requires
        m.describes(s, minimum_stake_e8s, stable_neuron_count),
    ensures
        m.dissolved_neurons_count == sum_of(
            s,
            |n: Neuron| 1nat,
            |n: Neuron| n.state == NeuronState::Dissolved,
        ),
        m.dissolved_neurons_e8s == sum_of(
            s,
            |n: Neuron| n.cached_neuron_stake_e8s as nat,
            |n: Neuron| n.state == NeuronState::Dissolved,
        ),
        m.dissolving_neurons_count == sum_of(
            s,
            |n: Neuron| 1nat,
            |n: Neuron| n.state == NeuronState::Dissolving,
        ),
        m.not_dissolving_neurons_count == sum_of(
            s,
            |n: Neuron| 1nat,
            |n: Neuron| n.state == NeuronState::NotDissolving,
        ),
        m.dissolving_neurons_staked_maturity_e8s_equivalent_sum == sum_of(
            s,
            |n: Neuron|
                match n.staked_maturity_e8s_equivalent {
                    Some(e8s) => e8s as nat,
                    None => 0nat,
                },
            |n: Neuron| n.state == NeuronState::Dissolving,
        ),
        m.not_dissolving_neurons_staked_maturity_e8s_equivalent_sum == sum_of(
            s,
            |n: Neuron|
                match n.staked_maturity_e8s_equivalent {
                    Some(e8s) => e8s as nat,
                    None => 0nat,
                },
            |n: Neuron| n.state == NeuronState::NotDissolving,
        ),
        m.garbage_collectable_neurons_count == stable_neuron_count + sum_of(
            s,
            |n: Neuron| 1nat,
            |n: Neuron| n.is_inactive,
        ),
        m.total_staked_e8s == sum_of(s, |n: Neuron| n.minted_stake_e8s as nat, |n: Neuron| true),
        m.total_maturity_e8s_equivalent == sum_of(
            s,
            |n: Neuron| n.maturity_e8s_equivalent as nat,
            |n: Neuron| true,
        ),
        m.total_staked_maturity_e8s_equivalent == sum_of(
            s,
            |n: Neuron|
                match n.staked_maturity_e8s_equivalent {
                    Some(e8s) => e8s as nat,
                    None => 0nat,
                },
            |n: Neuron| true,
        ),
        m.non_self_authenticating_controller_neuron_subset_metrics.count == if sum_of(
            s,
            |n: Neuron| 1nat,
            |n: Neuron| !n.controller_is_self_authenticating,
        ) <= u64::MAX {
            sum_of(s, |n: Neuron| 1nat, |n: Neuron| !n.controller_is_self_authenticating)
        } else {
            u64::MAX as int
        },
{
    assert(one() =~= (|n: Neuron| 1nat));
    assert(cached_stake() =~= (|n: Neuron| n.cached_neuron_stake_e8s as nat));
    assert(minted_stake() =~= (|n: Neuron| n.minted_stake_e8s as nat));
    assert(maturity() =~= (|n: Neuron| n.maturity_e8s_equivalent as nat));
    assert(staked_maturity() =~= (|n: Neuron|
        match n.staked_maturity_e8s_equivalent {
            Some(e8s) => e8s as nat,
            None => 0nat,
        }));
    assert(every() =~= (|n: Neuron| true));
    assert(inactive() =~= (|n: Neuron| n.is_inactive));
    assert(non_self_authenticating() =~= (|n: Neuron| !n.controller_is_self_authenticating));
    assert(in_state(NeuronState::Dissolved) =~= (|n: Neuron| n.state == NeuronState::Dissolved));
    assert(in_state(NeuronState::Dissolving) =~= (|n: Neuron| n.state == NeuronState::Dissolving));
    assert(in_state(NeuronState::NotDissolving) =~= (|n: Neuron|
        n.state == NeuronState::NotDissolving));
}

/// Law: every breakdown is keyed by the dissolve delay divided by six months,
/// rounded down, and holds per key exactly the neurons of its kind with that
/// key: the dissolving (not dissolving) count and stake buckets count the
/// dissolving (not dissolving) neurons and sum their minted stake; the seed
/// buckets take the seed neurons among them, the ECT buckets the ECT neurons
/// that are not seed neurons.
pub proof fn law_bucket_contents(
    m: NeuronMetrics,
    s: Seq<Neuron>,
    minimum_stake_e8s: u64,
    stable_neuron_count: u64,
    b: u64,
)
    requires
        m.describes(s, minimum_stake_e8s, stable_neuron_count),
    ensures
        m.dissolving_neurons_count_buckets@.contains_key(b) ==> m.dissolving_neurons_count_buckets@[b]
            == sum_of(
            s,
            |n: Neuron| 1nat,
            |n: Neuron|
                n.state == NeuronState::Dissolving && n.dissolve_delay_seconds as int / (6 * ONE_MONTH_SECONDS) as int == b as int,
        ),
        m.dissolving_neurons_e8s_buckets@.contains_key(b) ==> m.dissolving_neurons_e8s_buckets@[b]
            == sum_of(
            s,
            |n: Neuron| n.minted_stake_e8s as nat,
            |n: Neuron|
                n.state == NeuronState::Dissolving && n.dissolve_delay_seconds as int / (6 * ONE_MONTH_SECONDS) as int == b as int,
        ),
        m.not_dissolving_neurons_count_buckets@.contains_key(b)
            ==> m.not_dissolving_neurons_count_buckets@[b] == sum_of(
            s,
            |n: Neuron| 1nat,
            |n: Neuron|
                n.state == NeuronState::NotDissolving && n.dissolve_delay_seconds as int / (6 * ONE_MONTH_SECONDS) as int == b as int,
        ),
        m.not_dissolving_neurons_e8s_buckets@.contains_key(b)
            ==> m.not_dissolving_neurons_e8s_buckets@[b] == sum_of(
            s,
            |n: Neuron| n.minted_stake_e8s as nat,
            |n: Neuron|
                n.state == NeuronState::NotDissolving && n.dissolve_delay_seconds as int / (6 * ONE_MONTH_SECONDS) as int == b as int,
        ),
        m.dissolving_neurons_e8s_buckets_seed@.contains_key(b)
            ==> m.dissolving_neurons_e8s_buckets_seed@[b] == sum_of(
            s,
            |n: Neuron| n.minted_stake_e8s as nat,
            |n: Neuron|
                n.state == NeuronState::Dissolving && n.is_seed_neuron
                    && n.dissolve_delay_seconds as int / (6 * ONE_MONTH_SECONDS) as int == b as int,
        ),
        m.dissolving_neurons_e8s_buckets_ect@.contains_key(b)
            ==> m.dissolving_neurons_e8s_buckets_ect@[b] == sum_of(
            s,
            |n: Neuron| n.minted_stake_e8s as nat,
            |n: Neuron|
                n.state == NeuronState::Dissolving && !n.is_seed_neuron && n.is_ect_neuron
                    && n.dissolve_delay_seconds as int / (6 * ONE_MONTH_SECONDS) as int == b as int,
        ),
        m.not_dissolving_neurons_e8s_buckets_seed@.contains_key(b)
            ==> m.not_dissolving_neurons_e8s_buckets_seed@[b] == sum_of(
            s,
            |n: Neuron| n.minted_stake_e8s as nat,
            |n: Neuron|
                n.state == NeuronState::NotDissolving && n.is_seed_neuron
                    && n.dissolve_delay_seconds as int / (6 * ONE_MONTH_SECONDS) as int == b as int,
        ),
        m.not_dissolving_neurons_e8s_buckets_ect@.contains_key(b)
            ==> m.not_dissolving_neurons_e8s_buckets_ect@[b] == sum_of(
            s,
            |n: Neuron| n.minted_stake_e8s as nat,
            |n: Neuron|
                n.state == NeuronState::NotDissolving && !n.is_seed_neuron && n.is_ect_neuron
                    && n.dissolve_delay_seconds as int / (6 * ONE_MONTH_SECONDS) as int == b as int,
        ),
        m.dissolving_neurons_staked_maturity_e8s_equivalent_buckets@.contains_key(b)
            ==> m.dissolving_neurons_staked_maturity_e8s_equivalent_buckets@[b] == sum_of(
            s,
            |n: Neuron|
                match n.staked_maturity_e8s_equivalent {
                    Some(e8s) => e8s as nat,
                    None => 0nat,
                },
            |n: Neuron|
                n.state == NeuronState::Dissolving
                    && n.dissolve_delay_seconds as int / (6 * ONE_MONTH_SECONDS) as int == b as int,
        ),
        m.not_dissolving_neurons_staked_maturity_e8s_equivalent_buckets@.contains_key(b)
            ==> m.not_dissolving_neurons_staked_maturity_e8s_equivalent_buckets@[b] == sum_of(
            s,
            |n: Neuron|
                match n.staked_maturity_e8s_equivalent {
                    Some(e8s) => e8s as nat,
                    None => 0nat,
                },
            |n: Neuron|
                n.state == NeuronState::NotDissolving
                    && n.dissolve_delay_seconds as int / (6 * ONE_MONTH_SECONDS) as int == b as int,
        ),
{
    let d = NeuronState::Dissolving;
    let nd = NeuronState::NotDissolving;
    assert(one() =~= (|n: Neuron| 1nat));
    assert(minted_stake() =~= (|n: Neuron| n.minted_stake_e8s as nat));
    assert(in_bucket(in_state(d), b) =~= (|n: Neuron|
        n.state == NeuronState::Dissolving && n.dissolve_delay_seconds as int / (6 * ONE_MONTH_SECONDS) as int == b as int));
    assert(in_bucket(in_state(nd), b) =~= (|n: Neuron|
        n.state == NeuronState::NotDissolving && n.dissolve_delay_seconds as int / (6 * ONE_MONTH_SECONDS) as int == b as int));
    assert(in_bucket(seed_in_state(d), b) =~= (|n: Neuron|
        n.state == NeuronState::Dissolving && n.is_seed_neuron && n.dissolve_delay_seconds as int / (6 * ONE_MONTH_SECONDS) as int == b as int));
    assert(staked_maturity() =~= (|n: Neuron|
        match n.staked_maturity_e8s_equivalent {
            Some(e8s) => e8s as nat,
            None => 0nat,
        }));
    assert(in_bucket(seed_in_state(nd), b) =~= (|n: Neuron|
        n.state == NeuronState::NotDissolving && n.is_seed_neuron
            && n.dissolve_delay_seconds as int / (6 * ONE_MONTH_SECONDS) as int == b as int));
    assert(in_bucket(ect_in_state(nd), b) =~= (|n: Neuron|
        n.state == NeuronState::NotDissolving && !n.is_seed_neuron && n.is_ect_neuron
            && n.dissolve_delay_seconds as int / (6 * ONE_MONTH_SECONDS) as int == b as int));
    assert(in_bucket(ect_in_state(d), b) =~= (|n: Neuron|
        n.state == NeuronState::Dissolving && !n.is_seed_neuron && n.is_ect_neuron
            && n.dissolve_delay_seconds as int / (6 * ONE_MONTH_SECONDS) as int == b as int));
}

} // verus!
