//! Sorting bytes into strictly increasing order.

use vstd::prelude::*;

verus! {

/// Each element is smaller than every later one; in particular no value
/// occurs twice.
pub open spec fn strictly_increasing(s: Seq<u8>) -> bool {
    forall|i: int, j: int| 0 <= i < j < s.len() ==> s[i] < s[j]
}

/// The two sequences hold the same values, however often and in whatever
/// order.
pub open spec fn same_values(a: Seq<u8>, b: Seq<u8>) -> bool {
    forall|x: u8|
        #![trigger a.contains(x)]
        #![trigger b.contains(x)]
        a.contains(x) <==> b.contains(x)
}

/// A strictly increasing sequence is determined by the values it holds: two
/// such sequences with the same values are the same sequence.
pub proof fn lemma_increasing_is_unique(a: Seq<u8>, b: Seq<u8>)
    requires
        strictly_increasing(a),
        strictly_increasing(b),
        same_values(a, b),
    ensures
        a == b,
    decreases a.len(),
{
    if a.len() == 0 {
        if b.len() > 0 {
            assert(b.contains(b[0]));
            assert(a.contains(b[0]));
        }
        assert(a =~= b);
    } else {
        assert(a.contains(a.last()));
        assert(b.contains(a.last()));
        let at = choose|k: int| 0 <= k < b.len() && b[k] == a.last();
        assert(b.contains(b.last()));
        assert(a.contains(b.last()));
        let back = choose|k: int| 0 <= k < a.len() && a[k] == b.last();
        assert(a.last() == b.last());
        let front_a = a.drop_last();
        let front_b = b.drop_last();
        assert forall|x: u8| front_a.contains(x) <==> front_b.contains(x) by {
            if front_a.contains(x) {
                let k = choose|k: int| 0 <= k < front_a.len() && front_a[k] == x;
                assert(a[k] == x);
                assert(a.contains(x));
                let m = choose|m: int| 0 <= m < b.len() && b[m] == x;
                assert(front_b[m] == x);
            }
            if front_b.contains(x) {
                let k = choose|k: int| 0 <= k < front_b.len() && front_b[k] == x;
                assert(b[k] == x);
                assert(b.contains(x));
                let m = choose|m: int| 0 <= m < a.len() && a[m] == x;
                assert(front_a[m] == x);
            }
        }
        lemma_increasing_is_unique(front_a, front_b);
        assert(a =~= front_a.push(a.last()));
        assert(b =~= front_b.push(b.last()));
    }
}

/// Sorts by splitting around the middle element: the values below it, sorted
/// the same way, then the middle element once, then the values above it,
/// sorted the same way. Values equal to the middle element are dropped, so
/// every value of the input comes out exactly once, in increasing order. The
/// empty input gives the empty output.
pub fn quick_sort(data: Vec<u8>) -> (sorted: Vec<u8>)
    ensures
        strictly_increasing(sorted@),
        same_values(sorted@, data@),
    decreases data.len(),
{
    if data.len() == 0 {
        return data;
    }
    let middle = data.len() / 2;
    let pivot = data[middle];
    let mut left: Vec<u8> = Vec::new();
    let mut right: Vec<u8> = Vec::new();
    for i in 0..data.len()
        invariant
            middle < data.len(),
            pivot == data[middle as int],
            left.len() + right.len() <= i,
            i > middle ==> left.len() + right.len() < i,
            forall|j: int| 0 <= j < left.len() ==> #[trigger] left[j] < pivot && data@.contains(left[j]),
            forall|j: int| 0 <= j < right.len() ==> #[trigger] right[j] > pivot && data@.contains(right[j]),
            forall|k: int| 0 <= k < i && #[trigger] data[k] < pivot ==> left@.contains(data[k]),
            forall|k: int| 0 <= k < i && #[trigger] data[k] > pivot ==> right@.contains(data[k]),
    {
        let item = data[i];
        let ghost old_left = left@;
        let ghost old_right = right@;
        assert(data@.contains(item));
        if item < pivot {
            left.push(item);
            assert(left@[old_left.len() as int] == item);
        } else if item > pivot {
            right.push(item);
            assert(right@[old_right.len() as int] == item);
        }
        proof {
            assert forall|k: int| 0 <= k < i + 1 && #[trigger] data[k] < pivot implies left@.contains(
                data[k],
            ) by {
                if k < i {
                    let j = choose|j: int| 0 <= j < old_left.len() && old_left[j] == data[k];
                    assert(left@[j] == data[k]);
                }
            }
            assert forall|k: int| 0 <= k < i + 1 && #[trigger] data[k] > pivot implies right@.contains(
                data[k],
            ) by {
                if k < i {
                    let j = choose|j: int| 0 <= j < old_right.len() && old_right[j] == data[k];
                    assert(right@[j] == data[k]);
                }
            }
        }
    }
    let ghost below = left@;
    let ghost above = right@;
    let mut sorted = quick_sort(left);
    let mut upper = quick_sort(right);
    let ghost lower = sorted@;
    let ghost higher = upper@;
    sorted.push(pivot);
    sorted.append(&mut upper);
    proof {
        let whole = sorted@;
        assert(whole =~= lower.push(pivot) + higher);
        assert forall|i: int| 0 <= i < lower.len() implies #[trigger] lower[i] < pivot
            && data@.contains(lower[i]) by {
            assert(lower.contains(lower[i]));
            let j = choose|j: int| 0 <= j < below.len() && below[j] == lower[i];
            assert(below[j] < pivot);
        }
        assert forall|i: int| 0 <= i < higher.len() implies #[trigger] higher[i] > pivot
            && data@.contains(higher[i]) by {
            assert(higher.contains(higher[i]));
            let j = choose|j: int| 0 <= j < above.len() && above[j] == higher[i];
            assert(above[j] > pivot);
        }
        assert forall|i: int, j: int| 0 <= i < j < whole.len() implies whole[i] < whole[j] by {
            if i < lower.len() {
                assert(lower[i] < pivot);
            }
            if j > lower.len() {
                assert(higher[j - lower.len() - 1] > pivot);
            }
        }
        assert forall|x: u8| whole.contains(x) <==> data@.contains(x) by {
            if whole.contains(x) {
                let k = choose|k: int| 0 <= k < whole.len() && whole[k] == x;
                if k < lower.len() {
                    assert(data@.contains(lower[k]));
                } else if k > lower.len() {
                    assert(data@.contains(higher[k - lower.len() - 1]));
                } else {
                    assert(data@[middle as int] == x);
                }
            }
            if data@.contains(x) {
                let k = choose|k: int| 0 <= k < data@.len() && data@[k] == x;
                if x < pivot {
                    assert(data[k] < pivot);
                    assert(below.contains(x));
                    assert(lower.contains(x));
                    let j = choose|j: int| 0 <= j < lower.len() && lower[j] == x;
                    assert(whole[j] == x);
                } else if x > pivot {
                    assert(data[k] > pivot);
                    assert(above.contains(x));
                    assert(higher.contains(x));
                    let j = choose|j: int| 0 <= j < higher.len() && higher[j] == x;
                    assert(whole[lower.len() + 1 + j] == x);
                } else {
                    assert(whole[lower.len() as int] == x);
                }
            }
        }
    }
    sorted
}

} // verus!
