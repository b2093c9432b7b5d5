//! The work list of a flood: cells that wait to be looked at.

use vstd::prelude::*;
use std::collections::VecDeque;
use crate::grid::Grid2D;
use crate::neighbors::{adjacent, dir_between, lemma_adjacent_is_step, neighbor, step, DIR_COUNT};

verus! {


/// A cell as a pair of mathematical integers.
pub open spec fn cell_of(p: (usize, usize)) -> (int, int) {
    (p.0 as int, p.1 as int)
}

/// Whether some entry of the queue names cell `c`.
pub open spec fn queued(q: Seq<(usize, usize)>, c: (int, int)) -> bool {
    exists|i: int| 0 <= i < q.len() && #[trigger] cell_of(q[i]) == c
}

pub proof fn lemma_queued_push(q: Seq<(usize, usize)>, v: (usize, usize), c: (int, int))
    ensures
        queued(q.push(v), c) <==> queued(q, c) || cell_of(v) == c,
{
    let r = q.push(v);
    if queued(q, c) {
        let i = choose|i: int| 0 <= i < q.len() && #[trigger] cell_of(q[i]) == c;
        assert(cell_of(r[i]) == c);
    }
    if cell_of(v) == c {
        assert(cell_of(r[q.len() as int]) == c);
    }
    if queued(r, c) {
        let i = choose|i: int| 0 <= i < r.len() && #[trigger] cell_of(r[i]) == c;
        if i < q.len() {
            assert(cell_of(q[i]) == c);
        }
    }
}

pub proof fn lemma_queued_pop(q: Seq<(usize, usize)>, c: (int, int))
    requires
        q.len() > 0,
        queued(q, c),
        cell_of(q[0]) != c,
    ensures
        queued(q.subrange(1, q.len() as int), c),
{
    let r = q.subrange(1, q.len() as int);
    let i = choose|i: int| 0 <= i < q.len() && #[trigger] cell_of(q[i]) == c;
    assert(cell_of(r[i - 1]) == c);
}

/// The cells on the outermost rows and columns.
pub open spec fn border<T>(grid: &Grid2D<T>) -> Set<(int, int)> {
    Set::new(
        |c: (int, int)|
            grid.has(c.0, c.1) && (c.0 == 0 || c.1 == 0 || c.0 == grid.spec_width() - 1 || c.1
                == grid.spec_height() - 1),
    )
}

/// Appends the neighbours of `(px, py)` that lie inside the map, in the
/// canonical order.
pub fn push_neighbors(px: usize, py: usize, w: usize, h: usize, q: &mut VecDeque<(usize, usize)>)
    requires
        px < w,
        py < h,
    ensures
        old(q)@.len() <= final(q)@.len() <= old(q)@.len() + 8,
        forall|i: int| 0 <= i < old(q)@.len() ==> final(q)@[i] == old(q)@[i],
        forall|i: int|
            old(q)@.len() <= i < final(q)@.len() ==> (#[trigger] final(q)@[i]).0 < w
                && final(q)@[i].1 < h
                && adjacent((px as int, py as int), cell_of(final(q)@[i])),
        forall|n: (int, int)|
            #[trigger] adjacent((px as int, py as int), n) && 0 <= n.0 < w && 0 <= n.1 < h
                ==> queued(final(q)@, n),
{
    let ghost p = (px as int, py as int);
    let ghost q0 = q@;
    let mut dir: usize = 0;
    while dir < DIR_COUNT
        invariant
            dir <= DIR_COUNT,
            p == (px as int, py as int),
            px < w,
            py < h,
            q0.len() <= q@.len() <= q0.len() + dir,
            forall|i: int| 0 <= i < q0.len() ==> q@[i] == q0[i],
            forall|i: int|
                q0.len() <= i < q@.len() ==> (#[trigger] q@[i]).0 < w && q@[i].1 < h && adjacent(
                    p,
                    cell_of(q@[i]),
                ),
            forall|d: int|
                0 <= d < dir && 0 <= (#[trigger] step(p, d)).0 < w && 0 <= step(p, d).1 < h
                    ==> queued(q@, step(p, d)),
        decreases DIR_COUNT - dir,
    {
        let ghost qa = q@;
        match neighbor(px, py, dir, w, h) {
            Some(cell) => {
                proof {
                    let c = cell_of(cell);
                    lemma_adjacent_is_step(p, c);
                    assert forall|c2: (int, int)| queued(qa, c2) implies queued(
                        qa.push(cell),
                        c2,
                    ) by {
                        lemma_queued_push(qa, cell, c2);
                    }
                    lemma_queued_push(qa, cell, c);
                }
                q.push_back(cell);
            },
            None => {},
        }
        dir += 1;
    }
    proof {
        assert forall|n: (int, int)|
            #[trigger] adjacent(p, n) && 0 <= n.0 < w && 0 <= n.1 < h implies queued(q@, n) by {
            lemma_adjacent_is_step(p, n);
            let d = dir_between(p, n);
            assert(step(p, d) == n);
        }
    }
}

/// Whatever was queued stays queued when entries are appended.
pub proof fn lemma_queued_extend(q0: Seq<(usize, usize)>, q1: Seq<(usize, usize)>, c: (int, int))
    requires
        q0.len() <= q1.len(),
        forall|i: int| 0 <= i < q0.len() ==> q1[i] == q0[i],
        queued(q0, c),
    ensures
        queued(q1, c),
{
    let i = choose|i: int| 0 <= i < q0.len() && #[trigger] cell_of(q0[i]) == c;
    assert(cell_of(q1[i]) == c);
}

} // verus!
