//! The ocean: the cells at or below sea level that are joined to the border.

use vstd::prelude::*;
use std::collections::VecDeque;
use crate::grid::{lemma_cell_index, Grid2D};
use crate::neighbors::adjacent;
use crate::region::{
    count_true,
    lemma_count_true_bound,
    lemma_count_true_set,
    lemma_reach_closed,
    lemma_reach_open,
    lemma_reach_source,
    lemma_reach_step,
    reaches,
    walk_to,
};
use crate::scalar::Scalar;
use super::frontier::{
    border,
    cell_of,
    lemma_queued_extend,
    lemma_queued_pop,
    lemma_queued_push,
    push_neighbors,
    queued,
};

verus! {

/// The border cells at or below sea level: where the ocean starts.
pub open spec fn shore(elevation: &Grid2D<Scalar>, sea_level: Scalar) -> Set<(int, int)> {
    Set::new(
        |c: (int, int)|
            border(elevation).contains(c) && elevation.at(c.0, c.1).spec_le(sea_level),
    )
}

/// The cells at or below sea level: where the ocean can spread.
pub open spec fn submerged(elevation: &Grid2D<Scalar>, sea_level: Scalar) -> Set<(int, int)> {
    Set::new(|c: (int, int)| elevation.has(c.0, c.1) && elevation.at(c.0, c.1).spec_le(sea_level))
}

/// A cell is ocean when a walk of cells at or below sea level joins it to
/// such a cell on the border.
pub open spec fn is_ocean(elevation: &Grid2D<Scalar>, sea_level: Scalar, c: (int, int)) -> bool {
    reaches(submerged(elevation, sea_level), shore(elevation, sea_level), c)
}

/// What holds between two pops of the ocean sweep.
spec fn sweep_inv(
    elevation: &Grid2D<Scalar>,
    sea_level: Scalar,
    mask: &Grid2D<bool>,
    q: Seq<(usize, usize)>,
) -> bool {
    &&& elevation.wf()
    &&& mask.wf()
    &&& mask.same_shape(elevation)
    &&& forall|i: int|
        0 <= i < q.len() ==> elevation.has((#[trigger] q[i]).0 as int, q[i].1 as int)
    &&& forall|i: int|
        0 <= i < q.len() && submerged(elevation, sea_level).contains(cell_of(q[i])) ==> is_ocean(
            elevation,
            sea_level,
            #[trigger] cell_of(q[i]),
        )
    &&& forall|x: int, y: int|
        elevation.has(x, y) && #[trigger] mask.at(x, y) ==> is_ocean(elevation, sea_level, (x, y))
}

/// Every shore cell is marked or waits in the queue.
spec fn shore_pending(
    elevation: &Grid2D<Scalar>,
    sea_level: Scalar,
    mask: &Grid2D<bool>,
    q: Seq<(usize, usize)>,
) -> bool {
    forall|c: (int, int)| #[trigger]
        shore(elevation, sea_level).contains(c) ==> mask.at(c.0, c.1) || queued(q, c)
}

/// Every submerged neighbour of marked cell `p` is marked or waits in the queue.
spec fn expanded(
    elevation: &Grid2D<Scalar>,
    sea_level: Scalar,
    mask: &Grid2D<bool>,
    q: Seq<(usize, usize)>,
    p: (int, int),
) -> bool {
    forall|n: (int, int)|
        #[trigger] adjacent(p, n) && submerged(elevation, sea_level).contains(n) ==> mask.at(
            n.0,
            n.1,
        ) || queued(q, n)
}

/// Every marked cell but `skip` is expanded.
spec fn all_expanded(
    elevation: &Grid2D<Scalar>,
    sea_level: Scalar,
    mask: &Grid2D<bool>,
    q: Seq<(usize, usize)>,
    skip: Option<(int, int)>,
) -> bool {
    forall|p: (int, int)|
        elevation.has(p.0, p.1) && #[trigger] mask.at(p.0, p.1) && skip != Some(p) ==> expanded(
            elevation,
            sea_level,
            mask,
            q,
            p,
        )
}

/// Pushes `(x, y)` when it is a border cell at or below sea level.
fn push_if_shore(
    elevation: &Grid2D<Scalar>,
    sea_level: Scalar,
    x: usize,
    y: usize,
    q: &mut VecDeque<(usize, usize)>,
    Ghost(mask): Ghost<&Grid2D<bool>>,
)
    requires
        sweep_inv(elevation, sea_level, mask, old(q)@),
        border(elevation).contains((x as int, y as int)),
    ensures
        sweep_inv(elevation, sea_level, mask, final(q)@),
        shore(elevation, sea_level).contains((x as int, y as int)) ==> queued(
            final(q)@,
            (x as int, y as int),
        ),
        forall|c: (int, int)| queued(old(q)@, c) ==> queued(final(q)@, c),
        final(q)@.len() <= old(q)@.len() + 1,
{
    if elevation.get(x, y).le(sea_level) {
        proof {
            let c = (x as int, y as int);
            lemma_reach_source(submerged(elevation, sea_level), shore(elevation, sea_level), c);
            assert forall|c2: (int, int)| queued(q@, c2) implies queued(q@.push((x, y)), c2) by {
                lemma_queued_push(q@, (x, y), c2);
            }
            lemma_queued_push(q@, (x, y), c);
        }
        q.push_back((x, y));
    }
}

/// Marks the ocean: the cells at or below sea level that such cells join,
/// edge to edge or corner to corner, to the map border.
pub fn mark_ocean_component(elevation: &Grid2D<Scalar>, sea_level: Scalar) -> (mask: Grid2D<bool>)
    requires
        elevation.wf(),
    ensures
        mask.wf(),
        mask.same_shape(elevation),
        forall|x: int, y: int|
            elevation.has(x, y) ==> #[trigger] mask.at(x, y) == is_ocean(
                elevation,
                sea_level,
                (x, y),
            ),
        forall|x: int, y: int|
            elevation.has(x, y) && #[trigger] mask.at(x, y) ==> elevation.at(x, y).spec_le(
                sea_level,
            ),
{
    let w: usize = elevation.width();
    let h: usize = elevation.height();
    let n: usize = elevation.len();
    let mut mask: Grid2D<bool> = Grid2D::new(w, h, false);
    let mut q: VecDeque<(usize, usize)> = VecDeque::new();
    assert(forall|x: int, y: int| mask.has(x, y) ==> !#[trigger] mask.at(x, y));
    if w == 0 || h == 0 {
        return mask;
    }
    let mut x: usize = 0;
    while x < w
        invariant
            x <= w,
            w == elevation.spec_width(),
            h == elevation.spec_height(),
            h > 0,
            sweep_inv(elevation, sea_level, &mask, q@),
            forall|c: (int, int)| #[trigger]
                shore(elevation, sea_level).contains(c) && c.0 < x && (c.1 == 0 || c.1 == h - 1)
                    ==> queued(q@, c),
        decreases w - x,
    {
        push_if_shore(elevation, sea_level, x, 0, &mut q, Ghost(&mask));
        push_if_shore(elevation, sea_level, x, h - 1, &mut q, Ghost(&mask));
        x += 1;
    }
    let mut y: usize = 0;
    while y < h
        invariant
            y <= h,
            w == elevation.spec_width(),
            h == elevation.spec_height(),
            w > 0,
            sweep_inv(elevation, sea_level, &mask, q@),
            forall|c: (int, int)| #[trigger]
                shore(elevation, sea_level).contains(c) && (c.1 == 0 || c.1 == h - 1) ==> queued(
                    q@,
                    c,
                ),
            forall|c: (int, int)| #[trigger]
                shore(elevation, sea_level).contains(c) && c.1 < y && (c.0 == 0 || c.0 == w - 1)
                    ==> queued(q@, c),
        decreases h - y,
    {
        push_if_shore(elevation, sea_level, 0, y, &mut q, Ghost(&mask));
        push_if_shore(elevation, sea_level, w - 1, y, &mut q, Ghost(&mask));
        y += 1;
    }
    assert(shore_pending(elevation, sea_level, &mask, q@));
    assert(all_expanded(elevation, sea_level, &mask, q@, None));
    proof {
        lemma_count_true_bound(mask@);
    }
    while q.len() > 0
        invariant
            w == elevation.spec_width(),
            h == elevation.spec_height(),
            n == mask@.len(),
            sweep_inv(elevation, sea_level, &mask, q@),
            shore_pending(elevation, sea_level, &mask, q@),
            all_expanded(elevation, sea_level, &mask, q@, None),
            count_true(mask@) <= n,
        decreases 8 * (n - count_true(mask@)) + q@.len(),
    {
        let ghost q0 = q@;
        let ghost mask0 = mask;
        let front = q.pop_front();
        let (px, py) = front.unwrap();
        let ghost p = (px as int, py as int);
        let ghost q1 = q@;
        assert(cell_of(q0[0]) == p);
        assert(forall|i: int| 0 <= i < q1.len() ==> q1[i] == q0[i + 1]);
        proof {
            assert forall|c: (int, int)| queued(q0, c) && c != p implies queued(q1, c) by {
                lemma_queued_pop(q0, c);
            }
        }
        let already: bool = *mask.get(px, py);
        let above: bool = !elevation.get(px, py).le(sea_level);
        if already || above {
            proof {
                if above {
                    assert(!submerged(elevation, sea_level).contains(p));
                    assert(!shore(elevation, sea_level).contains(p));
                }
                assert(sweep_inv(elevation, sea_level, &mask, q1));
                assert(shore_pending(elevation, sea_level, &mask, q1));
                assert forall|a: (int, int)|
                    elevation.has(a.0, a.1) && #[trigger] mask.at(a.0, a.1) implies expanded(
                    elevation,
                    sea_level,
                    &mask,
                    q1,
                    a,
                ) by {
                    assert(expanded(elevation, sea_level, &mask0, q0, a));
                }
            }
        } else {
            proof {
                assert(submerged(elevation, sea_level).contains(cell_of(q0[0])));
                assert(is_ocean(elevation, sea_level, p));
                lemma_cell_index(p.0, p.1, w as int, h as int);
                lemma_count_true_set(mask0@, p.1 * w + p.0);
                lemma_count_true_bound(mask0@.update(p.1 * w + p.0, true));
            }
            mask.set(px, py, true);
            proof {
                assert(sweep_inv(elevation, sea_level, &mask, q1));
                assert(shore_pending(elevation, sea_level, &mask, q1));
                assert forall|a: (int, int)|
                    elevation.has(a.0, a.1) && #[trigger] mask.at(a.0, a.1) && a
                        != p implies expanded(elevation, sea_level, &mask, q1, a) by {
                    assert(mask0.at(a.0, a.1));
                    assert(expanded(elevation, sea_level, &mask0, q0, a));
                }
                assert(all_expanded(elevation, sea_level, &mask, q1, Some(p)));
            }
            push_neighbors(px, py, w, h, &mut q);
            proof {
                let open = submerged(elevation, sea_level);
                assert forall|c: (int, int)| queued(q1, c) implies queued(q@, c) by {
                    lemma_queued_extend(q1, q@, c);
                }
                assert forall|i: int|
                    0 <= i < q@.len() && open.contains(cell_of(q@[i])) implies is_ocean(
                    elevation,
                    sea_level,
                    #[trigger] cell_of(q@[i]),
                ) by {
                    if i < q1.len() {
                        assert(q@[i] == q1[i]);
                    } else {
                        lemma_reach_step(open, shore(elevation, sea_level), p, cell_of(q@[i]));
                    }
                }
                assert forall|i: int| 0 <= i < q@.len() implies elevation.has(
                    (#[trigger] q@[i]).0 as int,
                    q@[i].1 as int,
                ) by {
                    if i < q1.len() {
                        assert(q@[i] == q1[i]);
                    }
                }
                assert forall|a: (int, int)|
                    elevation.has(a.0, a.1) && #[trigger] mask.at(a.0, a.1) implies expanded(
                    elevation,
                    sea_level,
                    &mask,
                    q@,
                    a,
                ) by {
                    if a != p {
                        assert(expanded(elevation, sea_level, &mask, q1, a));
                    }
                }
                assert(all_expanded(elevation, sea_level, &mask, q@, None));
            }
        }
    }
    proof {
        let open = submerged(elevation, sea_level);
        let sources = shore(elevation, sea_level);
        let marked = Set::new(|c: (int, int)| elevation.has(c.0, c.1) && mask.at(c.0, c.1));
        assert forall|c: (int, int)| sources.contains(c) && open.contains(c) implies marked.contains(
            c,
        ) by {
            assert(!queued(q@, c));
        }
        assert forall|a: (int, int), b: (int, int)|
            marked.contains(a) && adjacent(a, b) && open.contains(b) implies marked.contains(b) by {
            assert(expanded(elevation, sea_level, &mask, q@, a));
            assert(!queued(q@, b));
        }
        lemma_reach_closed(open, sources, marked);
        assert forall|x: int, y: int| elevation.has(x, y) implies #[trigger] mask.at(x, y)
            == is_ocean(elevation, sea_level, (x, y)) by {
            if is_ocean(elevation, sea_level, (x, y)) {
                assert(marked.contains((x, y)));
            }
        }
        assert forall|x: int, y: int|
            elevation.has(x, y) && #[trigger] mask.at(x, y) implies elevation.at(x, y).spec_le(
            sea_level,
        ) by {
            lemma_reach_open(open, sources, (x, y));
        }
    }
    mask
}

/// Every border cell at or below sea level is ocean.
pub proof fn lemma_shore_is_ocean(elevation: &Grid2D<Scalar>, sea_level: Scalar, c: (int, int))
    requires
        border(elevation).contains(c),
        elevation.at(c.0, c.1).spec_le(sea_level),
    ensures
        is_ocean(elevation, sea_level, c),
{
    lemma_reach_source(submerged(elevation, sea_level), shore(elevation, sea_level), c);
}

/// Ocean cells lie at or below sea level.
pub proof fn lemma_ocean_is_submerged(
    elevation: &Grid2D<Scalar>,
    sea_level: Scalar,
    c: (int, int),
)
    requires
        is_ocean(elevation, sea_level, c),
    ensures
        elevation.has(c.0, c.1),
        elevation.at(c.0, c.1).spec_le(sea_level),
{
    lemma_reach_open(submerged(elevation, sea_level), shore(elevation, sea_level), c);
}

/// The ocean only grows with the sea level: a cell that is ocean at one sea
/// level is ocean at every higher one.
pub proof fn lemma_ocean_monotone(
    elevation: &Grid2D<Scalar>,
    low: Scalar,
    high: Scalar,
    c: (int, int),
)
    requires
        low.spec_le(high),
        is_ocean(elevation, low, c),
    ensures
        is_ocean(elevation, high, c),
{
    let path = choose|path: Seq<(int, int)>|
        walk_to(
            path,
            submerged(elevation, low),
            shore(elevation, low),
            c,
        );
    assert forall|i: int| 0 <= i < path.len() implies submerged(elevation, high).contains(
        #[trigger] path[i],
    ) by {
        assert(submerged(elevation, low).contains(path[i]));
    }
    assert(shore(elevation, low).contains(path[0]));
    assert(shore(elevation, high).contains(path[0]));
    assert(walk_to(
        path,
        submerged(elevation, high),
        shore(elevation, high),
        c,
    ));
}

} // verus!
