//! Totals over all the buckets of a breakdown.

use vstd::prelude::*;
use vstd::set::fold::{is_fun_commutative, lemma_fold_insert, lemma_fold_empty};
use crate::neuron::{Neuron, bucket_of};
use crate::tally::{
    bucket_keys, in_bucket, share, sum_of, tallies, lemma_sum_of_push, lemma_bucket_keys_push,
    lemma_sum_outside_keys,
};

verus! {

/// Adds the amount `amount` gives a key to a running total.
pub open spec fn adder(amount: spec_fn(u64) -> int) -> spec_fn(int, u64) -> int {
    |acc: int, b: u64| acc + amount(b)
}

/// The sum of `amount` over the keys in `keys`.
pub open spec fn sum_over(keys: Set<u64>, amount: spec_fn(u64) -> int) -> int {
    keys.fold(0int, adder(amount))
}

/// The sum of the values that `m` holds.
pub open spec fn bucket_total(m: Map<u64, u64>) -> int {
    sum_over(m.dom(), |b: u64| m[b] as int)
}

/// The order in which keys are added does not matter.
pub proof fn lemma_adder_commutative(amount: spec_fn(u64) -> int)
    ensures
        is_fun_commutative(adder(amount)),
{
}

/// Nothing to sum over sums to zero.
pub proof fn lemma_sum_over_empty(amount: spec_fn(u64) -> int)
    ensures
        sum_over(Set::empty(), amount) == 0,
{
    lemma_fold_empty(0int, adder(amount));
}

/// One key more adds its amount.
pub proof fn lemma_sum_over_insert(keys: Set<u64>, amount: spec_fn(u64) -> int, a: u64)
    requires
        keys.finite(),
        !keys.contains(a),
    ensures
        sum_over(keys.insert(a), amount) == sum_over(keys, amount) + amount(a),
{
    lemma_adder_commutative(amount);
    lemma_fold_insert(keys, 0int, adder(amount), a);
}

/// Amounts that agree on every key sum to the same total.
pub proof fn lemma_sum_over_agree(
    keys: Set<u64>,
    amount: spec_fn(u64) -> int,
    other: spec_fn(u64) -> int,
)
    requires
        keys.finite(),
        forall|b: u64| keys.contains(b) ==> #[trigger] amount(b) == other(b),
    ensures
        sum_over(keys, amount) == sum_over(keys, other),
    decreases keys.len(),
{
    if keys.len() == 0 {
        assert(keys =~= Set::empty());
        lemma_sum_over_empty(amount);
        lemma_sum_over_empty(other);
    } else {
        let a = keys.choose();
        let rest = keys.remove(a);
        assert(rest.insert(a) =~= keys);
        lemma_sum_over_agree(rest, amount, other);
        lemma_sum_over_insert(rest, amount, a);
        lemma_sum_over_insert(rest, other, a);
    }
}

/// The buckets of finitely many neurons are finitely many.
pub proof fn lemma_bucket_keys_finite(s: Seq<Neuron>, selected: spec_fn(Neuron) -> bool)
    ensures
        bucket_keys(s, selected).finite(),
    decreases s.len(),
{
    if s.len() > 0 {
        lemma_bucket_keys_finite(s.drop_last(), selected);
    }
}

/// The sum of `value` within one bucket, per bucket.
pub open spec fn per_bucket(
    s: Seq<Neuron>,
    value: spec_fn(Neuron) -> nat,
    selected: spec_fn(Neuron) -> bool,
) -> spec_fn(u64) -> int {
    |b: u64| sum_of(s, value, in_bucket(selected, b))
}

/// The sums within the buckets add up to the sum over all picked neurons.
pub proof fn lemma_buckets_add_up(
    s: Seq<Neuron>,
    value: spec_fn(Neuron) -> nat,
    selected: spec_fn(Neuron) -> bool,
)
    ensures
        sum_over(bucket_keys(s, selected), per_bucket(s, value, selected)) == sum_of(
            s,
            value,
            selected,
        ),
    decreases s.len(),
{
    if s.len() == 0 {
        lemma_sum_over_empty(per_bucket(s, value, selected));
        assert(bucket_keys(s, selected) == Set::<u64>::empty());
        assert(sum_of(s, value, selected) == 0);
    } else {
        let p = s.drop_last();
        let x = s.last();
        assert(p.push(x) =~= s);
        lemma_sum_of_push(p, x, value, selected);
        lemma_bucket_keys_push(p, x, selected);
        lemma_buckets_add_up(p, value, selected);
        lemma_bucket_keys_finite(p, selected);
        let keys = bucket_keys(p, selected);
        let before = per_bucket(p, value, selected);
        let after = per_bucket(s, value, selected);
        assert forall|b: u64| #[trigger] after(b) == before(b) + share(
            value,
            in_bucket(selected, b),
            x,
        ) by {
            lemma_sum_of_push(p, x, value, in_bucket(selected, b));
        }
        assert(sum_of(s, value, selected) == sum_of(p, value, selected) + share(value, selected, x));
        if !selected(x) {
            assert forall|b: u64| keys.contains(b) implies #[trigger] after(b) == before(b) by {
                assert(after(b) == before(b) + share(value, in_bucket(selected, b), x));
            }
            lemma_sum_over_agree(keys, after, before);
            assert(bucket_keys(s, selected) == keys);
            assert(sum_over(keys, after) == sum_of(s, value, selected));
        } else {
            let b0 = bucket_of(x);
            if !keys.contains(b0) {
                lemma_sum_outside_keys(p, value, selected, b0);
                lemma_sum_over_insert(keys, after, b0);
                assert forall|b: u64| keys.contains(b) implies #[trigger] after(b) == before(b) by {
                    assert(after(b) == before(b) + share(value, in_bucket(selected, b), x));
                }
                lemma_sum_over_agree(keys, after, before);
                assert(after(b0) == before(b0) + share(value, in_bucket(selected, b0), x));
                assert(bucket_keys(s, selected) == keys.insert(b0));
                assert(sum_over(keys.insert(b0), after) == sum_of(s, value, selected));
            } else {
                let rest = keys.remove(b0);
                assert(rest.insert(b0) =~= keys);
                lemma_sum_over_insert(rest, after, b0);
                lemma_sum_over_insert(rest, before, b0);
                assert forall|b: u64| rest.contains(b) implies #[trigger] after(b) == before(b) by {
                    assert(after(b) == before(b) + share(value, in_bucket(selected, b), x));
                }
                lemma_sum_over_agree(rest, after, before);
                assert(after(b0) == before(b0) + share(value, in_bucket(selected, b0), x));
                assert(bucket_keys(s, selected) == keys);
                assert(sum_over(keys, after) == sum_over(keys, before) + share(value, in_bucket(selected, b0), x));
                assert(sum_over(keys, after) == sum_of(s, value, selected));
            }
        }
    }
}

/// What a tally holds adds up to the sum over all picked neurons.
pub proof fn lemma_tally_total(
    m: Map<u64, u64>,
    s: Seq<Neuron>,
    value: spec_fn(Neuron) -> nat,
    selected: spec_fn(Neuron) -> bool,
)
    requires
        tallies(m, s, value, selected),
    ensures
        bucket_total(m) == sum_of(s, value, selected),
{
    lemma_bucket_keys_finite(s, selected);
    lemma_buckets_add_up(s, value, selected);
    lemma_sum_over_agree(m.dom(), |b: u64| m[b] as int, per_bucket(s, value, selected));
}

} // verus!
