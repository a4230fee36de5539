//! A helper for whoever draws in layers: sorting values while remembering
//! where each came from.

use vstd::prelude::*;
use core::cmp::Ordering;
use vstd::std_specs::cmp::PartialOrdSpec;

verus! {

/// The first value comes strictly before the second.
pub open spec fn less<T: PartialOrd>(a: T, b: T) -> bool {
    a.partial_cmp_spec(&b) == Some(Ordering::Less)
}

/// The values can be sorted: any two of them can be compared, of two values
/// at most one comes before the other, and a value that comes before another
/// comes before, or the other comes after, any third.
pub open spec fn sortable<T: PartialOrd>(data: Seq<T>) -> bool {
    &&& T::obeys_partial_cmp_spec()
    &&& forall|i: int, j: int|
        0 <= i < data.len() && 0 <= j < data.len() ==> (#[trigger] data[i].partial_cmp_spec(&data[j])).is_some()
    &&& forall|i: int, j: int|
        0 <= i < data.len() && 0 <= j < data.len() && #[trigger] less(data[i], data[j]) ==> !less(data[j], data[i])
    &&& forall|i: int, j: int, k: int|
        0 <= i < data.len() && 0 <= j < data.len() && 0 <= k < data.len() && #[trigger] less(data[i], data[k])
            ==> #[trigger] less(data[i], data[j]) || less(data[j], data[k])
}

/// The first `len` entries are values of `data` with their indices, no index
/// twice, in order: no entry comes before an earlier one, and of two entries
/// of which neither comes before the other the one from the smaller index
/// stands first.
pub open spec fn sorted_with_indices<T: PartialOrd>(r: Seq<(usize, T)>, data: Seq<T>, len: int) -> bool {
    &&& forall|k: int| 0 <= k < len ==> (#[trigger] r[k]).0 < data.len() && r[k].1 == data[r[k].0 as int]
    &&& forall|a: int, b: int| 0 <= a < b < len ==> (#[trigger] r[a]).0 != (#[trigger] r[b]).0
    &&& forall|a: int, b: int|
        0 <= a < b < len ==> !less((#[trigger] r[b]).1, (#[trigger] r[a]).1) && (less(r[a].1, r[b].1) || r[a].0
            < r[b].0)
}

/// Sorts the values, each with the index at which it stood. Values of which
/// neither comes before the other keep their order.
pub fn sort_enumerate<T>(data: &Vec<T>) -> (r: Vec<(usize, T)>) where T: PartialOrd<T> + Copy
    requires
        sortable(data@),
    ensures
        r.len() == data.len(),
        sorted_with_indices(r@, data@, data.len() as int),
{
    let mut r: Vec<(usize, T)> = Vec::new();
    let mut i: usize = 0;
    while i < data.len()
        invariant
            i <= data.len(),
            r.len() == i,
            sortable(data@),
            sorted_with_indices(r@, data@, i as int),
            forall|k: int| 0 <= k < i ==> (#[trigger] r[k]).0 < i,
        decreases data.len() - i,
    {
        r.push((i, data[i]));
        let mut j: usize = i;
        while j > 0 && r[j].1 < r[j - 1].1
            invariant
                i < data.len(),
                r.len() == i + 1,
                j <= i,
                sortable(data@),
                r[j as int] == (i, data[i as int]),
                forall|k: int| 0 <= k <= i ==> (#[trigger] r[k]).0 <= i && r[k].1 == data[r[k].0 as int],
                forall|k: int| 0 <= k <= i && k != j ==> (#[trigger] r[k]).0 < i,
                forall|a: int, b: int| 0 <= a < b <= i ==> (#[trigger] r[a]).0 != (#[trigger] r[b]).0,
                forall|a: int, b: int|
                    0 <= a < b <= i && a != j && b != j ==> !less((#[trigger] r[b]).1, (#[trigger] r[a]).1) && (
                    less(r[a].1, r[b].1) || r[a].0 < r[b].0),
                forall|b: int| j < b <= i ==> less(r[j as int].1, (#[trigger] r[b]).1),
            decreases j,
        {
            let cur = r[j];
            let prev = r[j - 1];
            r[j - 1] = cur;
            r[j] = prev;
            j -= 1;
        }
        proof {
            let cur = r[j as int];
            assert forall|a: int, b: int| 0 <= a < b < i + 1 implies !less((#[trigger] r[b]).1, (#[trigger] r[a]).1)
                && (less(r[a].1, r[b].1) || r[a].0 < r[b].0) by {
                if b == j {
                    // what stands before the new entry: the new entry does not come before its neighbour
                    assert(!less(cur.1, r[j - 1].1));
                    if a < j - 1 {
                        assert(!less(r[j - 1].1, r[a].1));
                        if less(cur.1, r[a].1) {
                            assert(less(data[i as int], data[r[a].0 as int]));
                            assert(less(data[i as int], data[r[j - 1].0 as int]) || less(
                                data[r[j - 1].0 as int],
                                data[r[a].0 as int],
                            ));
                        }
                    }
                } else if a == j {
                    assert(less(cur.1, r[b].1));
                    assert(less(data[i as int], data[r[b].0 as int]));
                }
            }
        }
        i += 1;
    }
    r
}

} // verus!
