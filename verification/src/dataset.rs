//! The mathematical model of a backend's dataset: sums, sortedness, and the
//! truncating mean and median that the backend versions report.

use vstd::prelude::*;
use vstd::arithmetic::div_mod::{
    lemma_div_is_ordered, lemma_div_multiples_vanish, lemma_div_pos_is_pos,
};
use vstd::relations::{sorted_by, total_ordering};
use vstd::seq_lib::lemma_sorted_unique;

verus! {

/// The sum of all values in a dataset.
pub open spec fn sum(s: Seq<i32>) -> int
    decreases s.len(),
{
    if s.len() == 0 {
        0
    } else {
        sum(s.drop_last()) + s.last()
    }
}

/// Division truncating toward zero, the semantics of the executable integer
/// division, expressed through Euclidean `/` on magnitudes.
pub open spec fn trunc_div(a: int, b: int) -> int
    recommends
        b > 0,
{
    if a >= 0 {
        a / b
    } else {
        -((-a) / b)
    }
}

/// Non-decreasing order.
pub open spec fn sorted(s: Seq<i32>) -> bool {
    forall|i: int, j: int| 0 <= i < j < s.len() ==> s[i] <= s[j]
}

/// The truncating arithmetic mean of a dataset; 0 when it is empty.
pub open spec fn mean(s: Seq<i32>) -> int {
    if s.len() == 0 {
        0
    } else {
        trunc_div(sum(s), s.len() as int)
    }
}

/// The median of a dataset read in index order: the middle element for an odd
/// count, the truncating mean of the two middle elements for an even count;
/// 0 when the dataset is empty.
pub open spec fn median(s: Seq<i32>) -> int {
    if s.len() == 0 {
        0
    } else if s.len() % 2 == 1 {
        s[s.len() as int / 2] as int
    } else {
        trunc_div(s[s.len() as int / 2 - 1] + s[s.len() as int / 2], 2)
    }
}

/// Appending one value adds it to the sum.
pub proof fn lemma_sum_push(s: Seq<i32>, v: i32)
    ensures
        sum(s.push(v)) == sum(s) + v,
{
    assert(s.push(v).drop_last() =~= s);
}

/// The sum of a dataset is bounded by its length times the extreme values.
pub proof fn lemma_sum_bounds(s: Seq<i32>)
    ensures
        s.len() * (i32::MIN as int) <= sum(s) <= s.len() * (i32::MAX as int),
    decreases s.len(),
{
    if s.len() > 0 {
        lemma_sum_bounds(s.drop_last());
    }
}

/// The truncating mean of a dataset of `i32` values is itself in `i32` range.
pub proof fn lemma_mean_in_range(s: Seq<i32>)
    ensures
        i32::MIN <= mean(s) <= i32::MAX,
{
    if s.len() > 0 {
        let n = s.len() as int;
        let t = sum(s);
        lemma_sum_bounds(s);
        if t >= 0 {
            lemma_div_pos_is_pos(t, n);
            lemma_div_is_ordered(t, n * (i32::MAX as int), n);
            lemma_div_multiples_vanish(i32::MAX as int, n);
        } else {
            lemma_div_pos_is_pos(-t, n);
            lemma_div_is_ordered(-t, n * (-(i32::MIN as int)), n);
            lemma_div_multiples_vanish(-(i32::MIN as int), n);
        }
    }
}

/// The median of a dataset of `i32` values is itself in `i32` range.
pub proof fn lemma_median_in_range(s: Seq<i32>)
    ensures
        i32::MIN <= median(s) <= i32::MAX,
{
    if s.len() > 0 && s.len() % 2 == 0 {
        let m = s.len() as int / 2;
        let t = s[m - 1] + s[m];
        if t >= 0 {
            lemma_div_pos_is_pos(t, 2);
            lemma_div_is_ordered(t, 2 * (i32::MAX as int), 2);
            lemma_div_multiples_vanish(i32::MAX as int, 2);
        } else {
            lemma_div_pos_is_pos(-t, 2);
            lemma_div_is_ordered(-t, 2 * (-(i32::MIN as int)), 2);
            lemma_div_multiples_vanish(-(i32::MIN as int), 2);
        }
    }
}

/// Inserting a value at a position that splits the smaller values from the
/// rest keeps a dataset sorted.
pub proof fn lemma_insert_keeps_sorted(s: Seq<i32>, i: int, v: i32)
    requires
        sorted(s),
        0 <= i <= s.len(),
        forall|k: int| 0 <= k < i ==> s[k] < v,
        forall|k: int| i <= k < s.len() ==> s[k] >= v,
    ensures
        sorted(s.insert(i, v)),
{
    let t = s.insert(i, v);
    assert forall|p: int, q: int| 0 <= p < q < t.len() implies t[p] <= t[q] by {
        if p < i {
            assert(t[p] == s[p]);
        } else if p > i {
            assert(t[p] == s[p - 1]);
        }
        if q < i {
            assert(t[q] == s[q]);
        } else if q > i {
            assert(t[q] == s[q - 1]);
        }
    }
}

/// A sorted dataset is determined by its multiset of values alone: two sorted
/// datasets holding the same values are equal. In particular, the dataset a
/// migration produces in a sorted backend does not depend on the order in
/// which the old backend stored its values.
pub proof fn lemma_sorted_same_multiset(a: Seq<i32>, b: Seq<i32>)
    requires
        sorted(a),
        sorted(b),
        a.to_multiset() == b.to_multiset(),
    ensures
        a == b,
{
    let leq = |x: i32, y: i32| x <= y;
    assert(sorted_by(a, leq)) by {
        assert forall|i: int, j: int| 0 <= i < j < a.len() implies #[trigger] leq(a[i], a[j]) by {
            assert(a[i] <= a[j]);
        }
    }
    assert(sorted_by(b, leq)) by {
        assert forall|i: int, j: int| 0 <= i < j < b.len() implies #[trigger] leq(b[i], b[j]) by {
            assert(b[i] <= b[j]);
        }
    }
    assert(total_ordering(leq));
    lemma_sorted_unique(a, b, leq);
    assert(a =~= b);
}

} // verus!
