//! Sums over sequences of neurons, in total and per dissolve delay bucket.

use vstd::prelude::*;
use crate::neuron::{Neuron, bucket_of};

verus! {

/// What one neuron adds to a sum: its `value` where `selected` picks it,
/// nothing otherwise.
pub open spec fn share(
    value: spec_fn(Neuron) -> nat,
    selected: spec_fn(Neuron) -> bool,
    n: Neuron,
) -> nat {
    if selected(n) {
        value(n)
    } else {
        0
    }
}

/// The sum of `value` over the neurons of `s` that `selected` picks.
pub open spec fn sum_of(
    s: Seq<Neuron>,
    value: spec_fn(Neuron) -> nat,
    selected: spec_fn(Neuron) -> bool,
) -> int
    decreases s.len(),
{
    if s.len() == 0 {
        0
    } else {
        sum_of(s.drop_last(), value, selected) + share(value, selected, s.last())
    }
}

/// The neurons that `selected` picks and whose dissolve delay falls in bucket `b`.
pub open spec fn in_bucket(selected: spec_fn(Neuron) -> bool, b: u64) -> spec_fn(Neuron) -> bool {
    |n: Neuron| selected(n) && bucket_of(n) == b
}

/// The buckets in which at least one neuron of `s` that `selected` picks falls.
pub open spec fn bucket_keys(s: Seq<Neuron>, selected: spec_fn(Neuron) -> bool) -> Set<u64>
    decreases s.len(),
{
    if s.len() == 0 {
        Set::empty()
    } else if selected(s.last()) {
        bucket_keys(s.drop_last(), selected).insert(bucket_of(s.last()))
    } else {
        bucket_keys(s.drop_last(), selected)
    }
}

/// `x`, or `u64::MAX` where `x` is larger.
pub open spec fn saturated(x: int) -> int {
    if x <= u64::MAX {
        x
    } else {
        u64::MAX as int
    }
}

/// The value `m` holds at `b`, zero where it holds none.
pub open spec fn bucket_value(m: Map<u64, u64>, b: u64) -> nat {
    if m.contains_key(b) {
        m[b] as nat
    } else {
        0
    }
}

/// `m` maps exactly the buckets of the neurons of `s` that `selected` picks,
/// each to the sum of `value` over those neurons in it.
pub open spec fn tallies(
    m: Map<u64, u64>,
    s: Seq<Neuron>,
    value: spec_fn(Neuron) -> nat,
    selected: spec_fn(Neuron) -> bool,
) -> bool {
    &&& m.dom() == bucket_keys(s, selected)
    &&& forall|b: u64| #[trigger]
        m.contains_key(b) ==> m[b] == sum_of(s, value, in_bucket(selected, b))
}

/// As `tallies`, with each sum capped at `u64::MAX`.
pub open spec fn tallies_saturating(
    m: Map<u64, u64>,
    s: Seq<Neuron>,
    value: spec_fn(Neuron) -> nat,
    selected: spec_fn(Neuron) -> bool,
) -> bool {
    &&& m.dom() == bucket_keys(s, selected)
    &&& forall|b: u64| #[trigger]
        m.contains_key(b) ==> m[b] == saturated(sum_of(s, value, in_bucket(selected, b)))
}

/// Appending a neuron adds its share to a sum.
pub broadcast proof fn lemma_sum_of_push(
    s: Seq<Neuron>,
    x: Neuron,
    value: spec_fn(Neuron) -> nat,
    selected: spec_fn(Neuron) -> bool,
)
    ensures
        #[trigger] sum_of(s.push(x), value, selected) == sum_of(s, value, selected) + share(
            value,
            selected,
            x,
        ),
{
    assert(s.push(x).drop_last() =~= s);
}

/// Appending a neuron adds its bucket to the bucket keys where it is picked.
pub broadcast proof fn lemma_bucket_keys_push(
    s: Seq<Neuron>,
    x: Neuron,
    selected: spec_fn(Neuron) -> bool,
)
    ensures
        #[trigger] bucket_keys(s.push(x), selected) == if selected(x) {
            bucket_keys(s, selected).insert(bucket_of(x))
        } else {
            bucket_keys(s, selected)
        },
{
    assert(s.push(x).drop_last() =~= s);
}

/// A bucket that holds no picked neuron sums to zero.
pub proof fn lemma_sum_outside_keys(
    s: Seq<Neuron>,
    value: spec_fn(Neuron) -> nat,
    selected: spec_fn(Neuron) -> bool,
    b: u64,
)
    requires
        !bucket_keys(s, selected).contains(b),
    ensures
        sum_of(s, value, in_bucket(selected, b)) == 0,
    decreases s.len(),
{
    if s.len() > 0 {
        lemma_sum_outside_keys(s.drop_last(), value, selected, b);
    }
}

/// A sum over fewer picked neurons is no larger.
pub proof fn lemma_sum_of_subset(
    s: Seq<Neuron>,
    value: spec_fn(Neuron) -> nat,
    fewer: spec_fn(Neuron) -> bool,
    more: spec_fn(Neuron) -> bool,
)
    requires
        forall|n: Neuron| #[trigger] fewer(n) ==> more(n),
    ensures
        sum_of(s, value, fewer) <= sum_of(s, value, more),
    decreases s.len(),
{
    if s.len() > 0 {
        lemma_sum_of_subset(s.drop_last(), value, fewer, more);
        assert(fewer(s.last()) ==> more(s.last()));
    }
}

/// A sum over a prefix is no larger than over the whole sequence.
pub proof fn lemma_sum_of_prefix(
    s: Seq<Neuron>,
    i: int,
    value: spec_fn(Neuron) -> nat,
    selected: spec_fn(Neuron) -> bool,
)
    requires
        0 <= i <= s.len(),
    ensures
        sum_of(s.take(i), value, selected) <= sum_of(s, value, selected),
    decreases s.len(),
{
    if i < s.len() {
        assert(s.drop_last().take(i) =~= s.take(i));
        lemma_sum_of_prefix(s.drop_last(), i, value, selected);
    } else {
        assert(s.take(i) =~= s);
    }
}

/// The neurons of `s` counted one each.
pub open spec fn one() -> spec_fn(Neuron) -> nat {
    |n: Neuron| 1nat
}

/// Every neuron.
pub open spec fn every() -> spec_fn(Neuron) -> bool {
    |n: Neuron| true
}

/// A count is at most the number of neurons.
pub proof fn lemma_count_at_most_len(s: Seq<Neuron>, selected: spec_fn(Neuron) -> bool)
    ensures
        sum_of(s, one(), selected) <= s.len(),
    decreases s.len(),
{
    if s.len() > 0 {
        lemma_count_at_most_len(s.drop_last(), selected);
    }
}

/// What a picked neuron's bucket holds once the neuron is added: what it held
/// before (zero where nothing) plus the neuron's value.
pub proof fn lemma_tally_next(
    m: Map<u64, u64>,
    s: Seq<Neuron>,
    x: Neuron,
    value: spec_fn(Neuron) -> nat,
    selected: spec_fn(Neuron) -> bool,
)
    requires
        tallies(m, s, value, selected),
        selected(x),
    ensures
        bucket_value(m, bucket_of(x)) + value(x) == sum_of(
            s.push(x),
            value,
            in_bucket(selected, bucket_of(x)),
        ),
{
    broadcast use lemma_sum_of_push;

    if !m.contains_key(bucket_of(x)) {
        lemma_sum_outside_keys(s, value, selected, bucket_of(x));
    }
}

/// A sum within one bucket is at most the sum over every neuron.
pub proof fn lemma_bucket_at_most_total(
    s: Seq<Neuron>,
    value: spec_fn(Neuron) -> nat,
    selected: spec_fn(Neuron) -> bool,
    b: u64,
)
    ensures
        sum_of(s, value, in_bucket(selected, b)) <= sum_of(s, value, every()),
{
    lemma_sum_of_subset(s, value, in_bucket(selected, b), every());
}

/// Adding a picked neuron's value to its bucket keeps a tally exact.
pub proof fn lemma_tallies_push_selected(
    m: Map<u64, u64>,
    s: Seq<Neuron>,
    x: Neuron,
    value: spec_fn(Neuron) -> nat,
    selected: spec_fn(Neuron) -> bool,
)
    requires
        tallies(m, s, value, selected),
        selected(x),
        bucket_value(m, bucket_of(x)) + value(x) <= u64::MAX,
    ensures
        tallies(
            m.insert(bucket_of(x), (bucket_value(m, bucket_of(x)) + value(x)) as u64),
            s.push(x),
            value,
            selected,
        ),
{
    broadcast use lemma_sum_of_push, lemma_bucket_keys_push;

    let b = bucket_of(x);
    let m2 = m.insert(b, (bucket_value(m, b) + value(x)) as u64);
    lemma_tally_next(m, s, x, value, selected);
    assert(m2.dom() =~= bucket_keys(s.push(x), selected));
    assert forall|c: u64| #[trigger] m2.contains_key(c) implies m2[c] == sum_of(
        s.push(x),
        value,
        in_bucket(selected, c),
    ) by {
        assert(sum_of(s.push(x), value, in_bucket(selected, c)) == sum_of(
            s,
            value,
            in_bucket(selected, c),
        ) + share(value, in_bucket(selected, c), x));
    }
}

/// A neuron that is not picked leaves a tally exact unchanged.
pub proof fn lemma_tallies_push_unselected(
    m: Map<u64, u64>,
    s: Seq<Neuron>,
    x: Neuron,
    value: spec_fn(Neuron) -> nat,
    selected: spec_fn(Neuron) -> bool,
)
    requires
        tallies(m, s, value, selected),
        !selected(x),
    ensures
        tallies(m, s.push(x), value, selected),
{
    broadcast use lemma_sum_of_push, lemma_bucket_keys_push;

    assert forall|c: u64| #[trigger] m.contains_key(c) implies m[c] == sum_of(
        s.push(x),
        value,
        in_bucket(selected, c),
    ) by {
        assert(sum_of(s.push(x), value, in_bucket(selected, c)) == sum_of(
            s,
            value,
            in_bucket(selected, c),
        ) + share(value, in_bucket(selected, c), x));
    }
}

/// A tally is determined by what it tallies.
pub proof fn lemma_tallies_unique(
    m: Map<u64, u64>,
    other: Map<u64, u64>,
    s: Seq<Neuron>,
    value: spec_fn(Neuron) -> nat,
    selected: spec_fn(Neuron) -> bool,
)
    requires
        tallies(m, s, value, selected),
        tallies(other, s, value, selected),
    ensures
        m == other,
{
    assert(m =~= other);
}

/// A saturating tally is determined by what it tallies.
pub proof fn lemma_tallies_saturating_unique(
    m: Map<u64, u64>,
    other: Map<u64, u64>,
    s: Seq<Neuron>,
    value: spec_fn(Neuron) -> nat,
    selected: spec_fn(Neuron) -> bool,
)
    requires
        tallies_saturating(m, s, value, selected),
        tallies_saturating(other, s, value, selected),
    ensures
        m == other,
{
    assert(m =~= other);
}

/// Sums over two sequences of the same length whose neurons, one by one,
/// add the same share, are equal.
pub proof fn lemma_sum_of_pointwise(
    s: Seq<Neuron>,
    t: Seq<Neuron>,
    value: spec_fn(Neuron) -> nat,
    selected: spec_fn(Neuron) -> bool,
)
    requires
        s.len() == t.len(),
        forall|i: int| 0 <= i < s.len() ==> share(value, selected, #[trigger] s[i]) == share(value, selected, t[i]),
    ensures
        sum_of(s, value, selected) == sum_of(t, value, selected),
    decreases s.len(),
{
    if s.len() > 0 {
        let i = s.len() - 1;
        assert(share(value, selected, s[i]) == share(value, selected, t[i]));
        lemma_sum_of_pointwise(s.drop_last(), t.drop_last(), value, selected);
    }
}

} // verus!
