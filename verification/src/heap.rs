//! The heap neurons of a store, keyed by neuron id, in the order a
//! `BTreeMap` yields them: by increasing id.

use vstd::prelude::*;
use std::collections::BTreeMap;
use vstd::std_specs::iter::IteratorSpec;
use vstd::std_specs::btree::increasing_seq;
use vstd::std_specs::cmp::OrdSpec;
use vstd::relations::total_ordering;
use crate::neuron::Neuron;

verus! {

/// `ids` lists the ids of `heap`, each once, in increasing order.
pub open spec fn lists_ids_in_order(ids: Seq<u64>, heap: Map<u64, Neuron>) -> bool {
    &&& forall|i: int, j: int| 0 <= i < j < ids.len() ==> ids[i] < ids[j]
    &&& ids.to_set() == heap.dom()
}

/// The neurons of `heap` by increasing id.
pub open spec fn heap_order(heap: Map<u64, Neuron>) -> Seq<Neuron> {
    let ids = choose|ids: Seq<u64>| lists_ids_in_order(ids, heap);
    Seq::new(ids.len(), |i: int| heap[ids[i]])
}

/// There is only one way to list a set of ids in increasing order.
pub proof fn lemma_ids_in_order_unique(a: Seq<u64>, b: Seq<u64>, heap: Map<u64, Neuron>)
    requires
        lists_ids_in_order(a, heap),
        lists_ids_in_order(b, heap),
    ensures
        a == b,
    decreases a.len(),
{
    if a.len() == 0 {
        if b.len() > 0 {
            assert(b.to_set().contains(b[0]));
            assert(a.to_set().contains(b[0]));
        }
        assert(a =~= b);
    } else {
        assert(a.to_set().contains(a[0]));
        assert(b.to_set().contains(a[0]));
        let k = choose|k: int| 0 <= k < b.len() && b[k] == a[0];
        assert(b.to_set().contains(b[0]));
        assert(a.to_set().contains(b[0]));
        let m = choose|m: int| 0 <= m < a.len() && a[m] == b[0];
        assert(a[0] == b[0]) by {
            if k > 0 {
                assert(b[0] < b[k]);
            }
            if m > 0 {
                assert(a[0] < a[m]);
            }
        }
        let rest = heap.remove(a[0]);
        let a2 = a.drop_first();
        let b2 = b.drop_first();
        assert forall|x: u64| a2.to_set().contains(x) <==> rest.dom().contains(x) by {
            if a2.to_set().contains(x) {
                let i = choose|i: int| 0 <= i < a2.len() && a2[i] == x;
                assert(a[i + 1] == x);
                assert(a.to_set().contains(x));
            }
            if rest.dom().contains(x) {
                assert(a.to_set().contains(x));
                let i = choose|i: int| 0 <= i < a.len() && a[i] == x;
                assert(i != 0);
                assert(a2[i - 1] == x);
            }
        }
        assert forall|x: u64| b2.to_set().contains(x) <==> rest.dom().contains(x) by {
            if b2.to_set().contains(x) {
                let i = choose|i: int| 0 <= i < b2.len() && b2[i] == x;
                assert(b[i + 1] == x);
                assert(b.to_set().contains(x));
            }
            if rest.dom().contains(x) {
                assert(b.to_set().contains(x));
                let i = choose|i: int| 0 <= i < b.len() && b[i] == x;
                assert(i != 0);
                assert(b2[i - 1] == x);
            }
        }
        assert(a2.to_set() =~= rest.dom());
        assert(b2.to_set() =~= rest.dom());
        lemma_ids_in_order_unique(a2, b2, rest);
        assert(a =~= b) by {
            assert forall|i: int| 0 <= i < a.len() implies a[i] == b[i] by {
                if i > 0 {
                    assert(a2[i - 1] == b2[i - 1]);
                }
            }
        }
    }
}

/// The heap neurons, by increasing id.
pub fn neurons_by_id(heap: &BTreeMap<u64, Neuron>) -> (neurons: Vec<Neuron>)
    ensures
        neurons@ == heap_order(heap@),
        neurons@.len() == heap@.dom().len(),
        forall|id: u64| #[trigger] heap@.dom().contains(id) ==> neurons@.contains(heap@[id]),
        forall|i: int| 0 <= i < neurons@.len() ==> heap@.contains_value(#[trigger] neurons@[i]),
{
    let mut neurons: Vec<Neuron> = Vec::new();
    let values = heap.values();
    let ghost start = values;
    for neuron in it: values
        invariant
            it.seq() == IteratorSpec::remaining(&start),
            neurons@.len() == it.index(),
            forall|i: int| 0 <= i < it.index() ==> neurons@[i] == *it.seq()[i],
    {
        neurons.push(*neuron);
    }
    proof {
        let keys = choose|keys: Seq<u64>|
            {
                &&& increasing_seq(keys)
                &&& keys.to_set() == heap@.dom()
                &&& keys.no_duplicates()
                &&& IteratorSpec::remaining(&start) == keys.map(|i: int, k| &heap@[k])
            };
        assert forall|i: int, j: int| 0 <= i < j < keys.len() implies keys[i] < keys[j] by {
            assert(keys[i].cmp_spec(&keys[j]) is Less);
        }
        assert(lists_ids_in_order(keys, heap@));
        let ids = choose|ids: Seq<u64>| lists_ids_in_order(ids, heap@);
        lemma_ids_in_order_unique(keys, ids, heap@);
        assert(neurons@ =~= heap_order(heap@));
        law_heap_order_lists_every_neuron(heap@);
    }
    neurons
}

/// Every finite heap can be listed by increasing id.
pub proof fn lemma_ids_in_order_exist(heap: Map<u64, Neuron>) -> (ids: Seq<u64>)
    requires
        heap.dom().finite(),
    ensures
        lists_ids_in_order(ids, heap),
    decreases heap.dom().len(),
{
    if heap.dom().len() == 0 {
        let ids = Seq::<u64>::empty();
        assert(heap.dom() =~= Set::<u64>::empty());
        assert(ids.to_set() =~= heap.dom());
        ids
    } else {
        let leq = |a: u64, b: u64| a <= b;
        assert(total_ordering(leq));
        heap.dom().find_unique_maximal_ensures(leq);
        let top = heap.dom().find_unique_maximal(leq);
        let rest = heap.remove(top);
        assert(rest.dom() =~= heap.dom().remove(top));
        let below = lemma_ids_in_order_exist(rest);
        let ids = below.push(top);
        assert forall|i: int, j: int| 0 <= i < j < ids.len() implies ids[i] < ids[j] by {
            if j == ids.len() - 1 {
                assert(below.to_set().contains(below[i]));
                assert(heap.dom().contains(ids[i]));
                assert(leq(top, ids[i]) ==> leq(ids[i], top));
            } else {
                assert(below[i] < below[j]);
            }
        }
        assert forall|x: u64| ids.to_set().contains(x) <==> heap.dom().contains(x) by {
            if ids.to_set().contains(x) {
                let i = choose|i: int| 0 <= i < ids.len() && ids[i] == x;
                if i < below.len() {
                    assert(below[i] == x);
                    assert(below.to_set().contains(x));
                }
            }
            if heap.dom().contains(x) {
                if x == top {
                    assert(ids[ids.len() - 1] == x);
                } else {
                    assert(below.to_set().contains(x));
                    let i = choose|i: int| 0 <= i < below.len() && below[i] == x;
                    assert(ids[i] == x);
                }
            }
        }
        assert(ids.to_set() =~= heap.dom());
        ids
    }
}

/// Law: the neurons of a (finite) heap by increasing id list every neuron of
/// the heap exactly once: one entry per id, each holding the neuron stored
/// under that id, and nothing else.
pub proof fn law_heap_order_lists_every_neuron(heap: Map<u64, Neuron>)
    requires
        heap.dom().finite(),
    ensures
        heap_order(heap).len() == heap.dom().len(),
        forall|id: u64| #[trigger] heap.dom().contains(id) ==> heap_order(heap).contains(heap[id]),
        forall|i: int|
            0 <= i < heap_order(heap).len() ==> heap.contains_value(#[trigger] heap_order(heap)[i]),
{
    lemma_ids_in_order_exist(heap);
    let ids = choose|ids: Seq<u64>| lists_ids_in_order(ids, heap);
    assert(lists_ids_in_order(ids, heap));
    assert(ids.no_duplicates()) by {
        assert forall|i: int, j: int| 0 <= i < ids.len() && 0 <= j < ids.len() && i != j implies ids[i]
            != ids[j] by {
            if i < j {
                assert(ids[i] < ids[j]);
            } else {
                assert(ids[j] < ids[i]);
            }
        }
    }
    ids.unique_seq_to_set();
    let order = heap_order(heap);
    assert forall|id: u64| #[trigger] heap.dom().contains(id) implies order.contains(heap[id]) by {
        assert(ids.to_set().contains(id));
        let i = choose|i: int| 0 <= i < ids.len() && ids[i] == id;
        assert(order[i] == heap[id]);
    }
    assert forall|i: int| 0 <= i < order.len() implies heap.contains_value(#[trigger] order[i]) by {
        assert(ids.to_set().contains(ids[i]));
        assert(order[i] == heap[ids[i]]);
    }
}

} // verus!
