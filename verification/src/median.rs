//! The median of a list of numbers, by sorting.

use vstd::prelude::*;
use vstd::relations::{sorted_by, total_ordering};
use vstd::seq_lib::{lemma_sorted_unique, to_multiset_build, to_multiset_insert};

verus! {

/// The usual order of the integers.
pub open spec fn leq() -> spec_fn(int, int) -> bool {
    |a: int, b: int| a <= b
}

/// The median of a list that is not empty: the element in the middle of the
/// sorted list, and the upper of the two in the middle where the count is even.
pub open spec fn median_spec(values: Seq<int>) -> int {
    values.sort_by(leq())[(values.len() / 2) as int]
}

/// The numbers of a list of machine integers.
pub open spec fn ints_of(values: Seq<i32>) -> Seq<int> {
    values.map_values(|v: i32| v as int)
}

pub proof fn lemma_leq_is_total()
    ensures
        total_ordering(leq()),
{
    assert(vstd::relations::reflexive(leq()));
    assert(vstd::relations::antisymmetric(leq()));
    assert(vstd::relations::transitive(leq()));
    assert(vstd::relations::strongly_connected(leq()));
}

/// The median of a list is one of its elements.
pub proof fn lemma_median_is_element(values: Seq<int>)
    requires
        values.len() > 0,
    ensures
        values.contains(median_spec(values)),
{
    lemma_leq_is_total();
    values.lemma_sort_by_ensures(leq());
    let sorted = values.sort_by(leq());
    vstd::seq_lib::to_multiset_len(values);
    vstd::seq_lib::to_multiset_len(sorted);
    let k = (values.len() / 2) as int;
    assert(sorted.contains(sorted[k]));
}

/// The numbers in ascending order.
pub fn sorted_copy(values: &Vec<i32>) -> (sorted: Vec<i32>)
    ensures
        ints_of(sorted@) == ints_of(values@).sort_by(leq()),
        sorted.len() == values.len(),
{
    let mut sorted: Vec<i32> = Vec::new();
    let mut k: usize = 0;
    proof {
        assert(ints_of(values@).take(0) =~= Seq::<int>::empty());
        assert(ints_of(sorted@) =~= Seq::<int>::empty());
    }
    while k < values.len()
        invariant
            k <= values.len(),
            sorted.len() == k,
            sorted_by(ints_of(sorted@), leq()),
            ints_of(sorted@).to_multiset() == ints_of(values@).take(k as int).to_multiset(),
        decreases values.len() - k,
    {
        let x: i32 = values[k];
        let mut i: usize = 0;
        while i < sorted.len() && sorted[i] <= x
            invariant
                i <= sorted.len(),
                forall|j: int| 0 <= j < i ==> sorted[j] <= x,
            decreases sorted.len() - i,
        {
            i += 1;
        }
        let ghost before = ints_of(sorted@);
        sorted.insert(i, x);
        proof {
            let after = ints_of(sorted@);
            assert(after =~= before.insert(i as int, x as int));
            to_multiset_insert(before, i as int, x as int);
            let prefix = ints_of(values@).take(k as int);
            assert(ints_of(values@).take(k + 1) =~= prefix.push(x as int));
            to_multiset_build(prefix, x as int);
            assert forall|p: int, q: int| 0 <= p < q < after.len() implies #[trigger] leq()(
                after[p],
                after[q],
            ) by {
                if q < i {
                    assert(leq()(before[p], before[q]));
                } else if q == i {
                    assert(before[p] <= x);
                } else if p < i {
                    assert(leq()(before[p], before[q - 1]));
                } else if p == i {
                    assert(before[i as int] > x);
                    if q - 1 > i {
                        assert(leq()(before[i as int], before[q - 1]));
                    }
                } else {
                    assert(leq()(before[p - 1], before[q - 1]));
                }
            }
        }
        k += 1;
    }
    proof {
        assert(ints_of(values@).take(values.len() as int) =~= ints_of(values@));
        lemma_leq_is_total();
        ints_of(values@).lemma_sort_by_ensures(leq());
        lemma_sorted_unique(ints_of(sorted@), ints_of(values@).sort_by(leq()), leq());
    }
    sorted
}

/// The median of a list that is not empty.
pub fn median(values: &Vec<i32>) -> (m: i32)
    requires
        values.len() > 0,
    ensures
        m == median_spec(ints_of(values@)),
{
    let sorted: Vec<i32> = sorted_copy(values);
    sorted[sorted.len() / 2]
}

} // verus!
