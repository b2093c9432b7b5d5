//! Stable ordering of samples by value.

use vstd::prelude::*;
use crate::scalar::Scalar;

verus! {

/// The key a sample is ordered by: its rank, so that both zeros tie; a NaN
/// counts as smaller than every number.
pub open spec fn sort_key(s: Scalar) -> int {
    if s.is_nan() {
        -0x8000_0000
    } else {
        s.rank()
    }
}

/// Whether sample `a` comes before sample `b`: by key, ascending or
/// descending, and by position where the keys tie.
pub open spec fn precedes(cells: Seq<Scalar>, descending: bool, a: int, b: int) -> bool {
    let ka = sort_key(cells[a]);
    let kb = sort_key(cells[b]);
    if ka == kb {
        a < b
    } else if descending {
        ka > kb
    } else {
        ka < kb
    }
}

/// `order` lists positions of `cells` between `lo` and `hi`, each before all
/// that follow it.
pub open spec fn is_run(
    cells: Seq<Scalar>,
    descending: bool,
    order: Seq<usize>,
    lo: int,
    hi: int,
) -> bool {
    &&& forall|i: int| 0 <= i < order.len() ==> lo <= #[trigger] order[i] < hi
    &&& forall|i: int, j: int|
        #![trigger order[i], order[j]]
        0 <= i < j < order.len() ==> precedes(cells, descending, order[i] as int, order[j] as int)
}

/// `order` is the stable order of `cells`: it lists every position once, by
/// key, and positions of equal key in ascending order.
pub open spec fn is_stable_order(cells: Seq<Scalar>, descending: bool, order: Seq<usize>) -> bool {
    order.len() == cells.len() && is_run(cells, descending, order, 0, cells.len() as int)
}

fn key(s: Scalar) -> (k: i64)
    ensures
        k == sort_key(s),
{
    if s.nan() {
        -0x8000_0000
    } else {
        s.rank_value()
    }
}

fn comes_first(cells: &[Scalar], descending: bool, a: usize, b: usize) -> (r: bool)
    requires
        a < cells@.len(),
        b < cells@.len(),
    ensures
        r == precedes(cells@, descending, a as int, b as int),
{
    let ka: i64 = key(cells[a]);
    let kb: i64 = key(cells[b]);
    if ka == kb {
        a < b
    } else if descending {
        ka > kb
    } else {
        ka < kb
    }
}

/// Merges two runs over adjacent ranges of positions into one.
fn merge(
    cells: &[Scalar],
    descending: bool,
    left: &Vec<usize>,
    right: &Vec<usize>,
    Ghost(lo): Ghost<int>,
    Ghost(mid): Ghost<int>,
    Ghost(hi): Ghost<int>,
) -> (out: Vec<usize>)
    requires
        0 <= lo <= mid <= hi <= cells@.len(),
        is_run(cells@, descending, left@, lo, mid),
        is_run(cells@, descending, right@, mid, hi),
    ensures
        is_run(cells@, descending, out@, lo, hi),
        out@.len() == left@.len() + right@.len(),
{
    let mut out: Vec<usize> = Vec::new();
    let mut i: usize = 0;
    let mut j: usize = 0;
    while i < left.len() || j < right.len()
        invariant
            0 <= lo <= mid <= hi <= cells@.len(),
            is_run(cells@, descending, left@, lo, mid),
            is_run(cells@, descending, right@, mid, hi),
            i <= left@.len(),
            j <= right@.len(),
            out@.len() == i + j,
            is_run(cells@, descending, out@, lo, hi),
            forall|p: int, r: int|
                #![trigger out@[p], left@[r]]
                0 <= p < out@.len() && i <= r < left@.len() ==> precedes(
                    cells@,
                    descending,
                    out@[p] as int,
                    left@[r] as int,
                ),
            forall|p: int, r: int|
                #![trigger out@[p], right@[r]]
                0 <= p < out@.len() && j <= r < right@.len() ==> precedes(
                    cells@,
                    descending,
                    out@[p] as int,
                    right@[r] as int,
                ),
        decreases left@.len() - i + right@.len() - j,
    {
        let ghost before = out@;
        let take_left: bool = if i >= left.len() {
            false
        } else if j >= right.len() {
            true
        } else {
            comes_first(cells, descending, left[i], right[j])
        };
        if take_left {
            let v: usize = left[i];
            out.push(v);
            proof {
                assert forall|p: int, q: int|
                    #![trigger out@[p], out@[q]]
                    0 <= p < q < out@.len() implies precedes(
                    cells@,
                    descending,
                    out@[p] as int,
                    out@[q] as int,
                ) by {
                    if q < before.len() {
                        assert(out@[p] == before[p] && out@[q] == before[q]);
                    } else {
                        assert(out@[p] == before[p] && out@[q] == left@[i as int]);
                    }
                }
                assert forall|p: int, r: int|
                    #![trigger out@[p], left@[r]]
                    0 <= p < out@.len() && i + 1 <= r < left@.len() implies precedes(
                    cells@,
                    descending,
                    out@[p] as int,
                    left@[r] as int,
                ) by {
                    if p < before.len() {
                        assert(out@[p] == before[p]);
                    } else {
                        assert(out@[p] == left@[i as int]);
                    }
                }
                assert forall|p: int, r: int|
                    #![trigger out@[p], right@[r]]
                    0 <= p < out@.len() && j <= r < right@.len() implies precedes(
                    cells@,
                    descending,
                    out@[p] as int,
                    right@[r] as int,
                ) by {
                    if p < before.len() {
                        assert(out@[p] == before[p]);
                    } else {
                        assert(out@[p] == left@[i as int]);
                        assert(precedes(
                            cells@,
                            descending,
                            left@[i as int] as int,
                            right@[j as int] as int,
                        ));
                        if r > j {
                            assert(precedes(
                                cells@,
                                descending,
                                right@[j as int] as int,
                                right@[r] as int,
                            ));
                        }
                    }
                }
            }
            i += 1;
        } else {
            let v: usize = right[j];
            out.push(v);
            proof {
                assert forall|p: int, q: int|
                    #![trigger out@[p], out@[q]]
                    0 <= p < q < out@.len() implies precedes(
                    cells@,
                    descending,
                    out@[p] as int,
                    out@[q] as int,
                ) by {
                    if q < before.len() {
                        assert(out@[p] == before[p] && out@[q] == before[q]);
                    } else {
                        assert(out@[p] == before[p] && out@[q] == right@[j as int]);
                    }
                }
                assert forall|p: int, r: int|
                    #![trigger out@[p], right@[r]]
                    0 <= p < out@.len() && j + 1 <= r < right@.len() implies precedes(
                    cells@,
                    descending,
                    out@[p] as int,
                    right@[r] as int,
                ) by {
                    if p < before.len() {
                        assert(out@[p] == before[p]);
                    } else {
                        assert(out@[p] == right@[j as int]);
                    }
                }
                assert forall|p: int, r: int|
                    #![trigger out@[p], left@[r]]
                    0 <= p < out@.len() && i <= r < left@.len() implies precedes(
                    cells@,
                    descending,
                    out@[p] as int,
                    left@[r] as int,
                ) by {
                    if p < before.len() {
                        assert(out@[p] == before[p]);
                    } else {
                        assert(out@[p] == right@[j as int]);
                        assert(lo <= left@[i as int] < mid);
                        assert(mid <= right@[j as int] < hi);
                        assert(precedes(
                            cells@,
                            descending,
                            right@[j as int] as int,
                            left@[i as int] as int,
                        ));
                        if r > i {
                            assert(precedes(
                                cells@,
                                descending,
                                left@[i as int] as int,
                                left@[r] as int,
                            ));
                        }
                    }
                }
            }
            j += 1;
        }
    }
    out
}

/// The positions from `lo` up to `hi`, in stable order.
fn sort_range(cells: &[Scalar], descending: bool, lo: usize, hi: usize) -> (out: Vec<usize>)
    requires
        lo <= hi <= cells@.len(),
    ensures
        is_run(cells@, descending, out@, lo as int, hi as int),
        out@.len() == hi - lo,
    decreases hi - lo,
{
    if hi - lo <= 1 {
        let mut out: Vec<usize> = Vec::new();
        if lo < hi {
            out.push(lo);
        }
        out
    } else {
        let mid: usize = lo + (hi - lo) / 2;
        let left = sort_range(cells, descending, lo, mid);
        let right = sort_range(cells, descending, mid, hi);
        merge(cells, descending, &left, &right, Ghost(lo as int), Ghost(mid as int), Ghost(hi as int))
    }
}

/// The positions of `cells` in stable order: by value, descending or
/// ascending, with cells of equal value in the order they stand in.
pub fn stable_order(cells: &[Scalar], descending: bool) -> (order: Vec<usize>)
    ensures
        is_stable_order(cells@, descending, order@),
{
    sort_range(cells, descending, 0, cells.len())
}

/// No position is listed twice in a stable order.
pub proof fn lemma_order_distinct(
    cells: Seq<Scalar>,
    descending: bool,
    order: Seq<usize>,
    i: int,
    j: int,
)
    requires
        is_stable_order(cells, descending, order),
        0 <= i < j < order.len(),
    ensures
        order[i] != order[j],
        descending ==> sort_key(cells[order[i] as int]) >= sort_key(cells[order[j] as int]),
        !descending ==> sort_key(cells[order[i] as int]) <= sort_key(cells[order[j] as int]),
{
    assert(precedes(cells, descending, order[i] as int, order[j] as int));
}

/// Every position is listed in a stable order.
pub proof fn lemma_order_complete(cells: Seq<Scalar>, descending: bool, order: Seq<usize>, k: int)
    requires
        is_stable_order(cells, descending, order),
        0 <= k < cells.len(),
    ensures
        exists|i: int| 0 <= i < order.len() && order[i] == k,
{
    let n = cells.len() as int;
    let listed = Seq::new(order.len(), |i: int| order[i] as int);
    assert forall|i: int, j: int| 0 <= i < listed.len() && 0 <= j < listed.len() && i
        != j implies listed[i] != listed[j] by {
        if i < j {
            lemma_order_distinct(cells, descending, order, i, j);
        } else {
            lemma_order_distinct(cells, descending, order, j, i);
        }
    }
    listed.unique_seq_to_set();
    let positions = vstd::set_lib::set_int_range(0, n);
    vstd::set_lib::lemma_int_range(0, n);
    assert forall|v: int| listed.to_set().contains(v) implies positions.contains(v) by {
        let i = choose|i: int| 0 <= i < listed.len() && listed[i] == v;
        assert(0 <= order[i] < n);
    }
    vstd::set_lib::lemma_subset_equality(listed.to_set(), positions);
    assert(positions.contains(k));
    assert(listed.contains(k));
    let i = choose|i: int| 0 <= i < listed.len() && listed[i] == k;
    assert(order[i] == k);
}

} // verus!
