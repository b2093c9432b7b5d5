//! The canonical order of the eight neighbours of a cell.
//!
//! Flow directions, tie-breaks and every stencil walk use this order:
//! east, south-east, south, south-west, west, north-west, north, north-east,
//! with `x` growing eastwards and `y` growing southwards.

use vstd::prelude::*;

verus! {

/// Number of neighbour directions.
pub const DIR_COUNT: usize = 8;

/// Column offset of direction `dir`.
pub open spec fn dx(dir: int) -> int {
    if dir == 0 || dir == 1 || dir == 7 {
        1
    } else if dir == 2 || dir == 6 {
        0
    } else {
        -1
    }
}

/// Row offset of direction `dir`.
pub open spec fn dy(dir: int) -> int {
    if 1 <= dir <= 3 {
        1
    } else if dir == 0 || dir == 4 {
        0
    } else {
        -1
    }
}

/// The cell one step from `c` in direction `dir`.
pub open spec fn step(c: (int, int), dir: int) -> (int, int) {
    (c.0 + dx(dir), c.1 + dy(dir))
}

/// Two distinct cells that touch by an edge or a corner.
pub open spec fn adjacent(a: (int, int), b: (int, int)) -> bool {
    &&& a != b
    &&& -1 <= b.0 - a.0 <= 1
    &&& -1 <= b.1 - a.1 <= 1
}

/// The direction that leads from `a` to an adjacent `b`.
pub open spec fn dir_between(a: (int, int), b: (int, int)) -> int {
    let ex = b.0 - a.0;
    let ey = b.1 - a.1;
    if ex == 1 {
        if ey == 0 {
            0
        } else if ey == 1 {
            1
        } else {
            7
        }
    } else if ex == 0 {
        if ey == 1 {
            2
        } else {
            6
        }
    } else {
        if ey == 1 {
            3
        } else if ey == 0 {
            4
        } else {
            5
        }
    }
}

/// The eight directions lead to exactly the adjacent cells.
pub proof fn lemma_adjacent_is_step(a: (int, int), b: (int, int))
    ensures
        adjacent(a, b) <==> (exists|dir: int| 0 <= dir < 8 && #[trigger] step(a, dir) == b),
        adjacent(a, b) ==> 0 <= dir_between(a, b) < 8 && step(a, dir_between(a, b)) == b,
        adjacent(a, b) == adjacent(b, a),
{
    if adjacent(a, b) {
        assert(step(a, dir_between(a, b)) == b);
    }
}

/// `v + d` when that lies in `0..limit`.
fn shifted(v: usize, d: i8, limit: usize) -> (r: Option<usize>)
    requires
        -1 <= d <= 1,
    ensures
        r is Some <==> 0 <= v + d < limit,
        r is Some ==> r->Some_0 == v + d,
{
    if d == 0 {
        if v < limit {
            Some(v)
        } else {
            None
        }
    } else if d == 1 {
        if v < limit && v + 1 < limit {
            Some(v + 1)
        } else {
            None
        }
    } else {
        if v >= 1 && v - 1 < limit {
            Some(v - 1)
        } else {
            None
        }
    }
}

/// Column and row offsets of direction `dir`.
pub fn offset(dir: usize) -> (d: (i8, i8))
    requires
        dir < DIR_COUNT,
    ensures
        d.0 == dx(dir as int),
        d.1 == dy(dir as int),
{
    if dir == 0 {
        (1, 0)
    } else if dir == 1 {
        (1, 1)
    } else if dir == 2 {
        (0, 1)
    } else if dir == 3 {
        (-1, 1)
    } else if dir == 4 {
        (-1, 0)
    } else if dir == 5 {
        (-1, -1)
    } else if dir == 6 {
        (0, -1)
    } else {
        (1, -1)
    }
}

/// The neighbour of `(x, y)` in direction `dir`, when it lies inside a
/// `width × height` raster.
pub fn neighbor(x: usize, y: usize, dir: usize, width: usize, height: usize) -> (n: Option<
    (usize, usize),
>)
    requires
        dir < DIR_COUNT,
    ensures
        n is Some <==> (0 <= x + dx(dir as int) < width && 0 <= y + dy(dir as int) < height),
        n is Some ==> (n->Some_0.0 as int, n->Some_0.1 as int) == step(
            (x as int, y as int),
            dir as int,
        ),
{
    let d = offset(dir);
    match shifted(x, d.0, width) {
        Some(nx) => match shifted(y, d.1, height) {
            Some(ny) => Some((nx, ny)),
            None => None,
        },
        None => None,
    }
}

} // verus!
