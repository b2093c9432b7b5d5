//! Endorheic lakes: where they are seeded and which cells they cover.

use vstd::prelude::*;
use crate::grid::{lemma_cell_index, Grid2D};
use crate::neighbors::{adjacent, dir_between, lemma_adjacent_is_step, neighbor, step, DIR_COUNT};
use crate::region::{
    lemma_component_connected,
    lemma_reach_from,
    lemma_reach_mono,
    lemma_reach_open,
    lemma_reach_symmetric,
    lemma_reach_trans,
    reaches,
};
use crate::scalar::Scalar;
use super::flood::{basin, flood_lake_basin, flood_succeeds, floodable, flooded, lake_at};
use super::frontier::cell_of;

verus! {

/// Largest number of cells a lake may cover.
pub const LAKE_MAX_CELLS: usize = 6000;

/// Bit pattern of `8.0`, the least accumulation that feeds a lake.
pub const MIN_INFLOW_BITS: u32 = 0x4100_0000;

/// The cells of a `w × h` map that carry lake id `id`.
pub open spec fn labelled(lake: Seq<u32>, w: int, h: int, id: u32) -> Set<(int, int)> {
    Set::new(|c: (int, int)| 0 <= c.0 < w && 0 <= c.1 < h && lake_at(lake, w, c) == id)
}

/// A strict local pit: every neighbour rises above `rim`.
pub open spec fn is_pit(elevation: &Grid2D<Scalar>, rim: Scalar, c: (int, int)) -> bool {
    forall|n: (int, int)|
        #[trigger] adjacent(c, n) && elevation.has(n.0, n.1) ==> elevation.at(n.0, n.1).spec_gt(
            rim,
        )
}

/// Whether every neighbour of `(x, y)` rises above `rim`.
pub fn is_strict_local_pit(elevation: &Grid2D<Scalar>, x: usize, y: usize, rim: Scalar) -> (r: bool)
    requires
        elevation.wf(),
        elevation.has(x as int, y as int),
    ensures
        r == is_pit(elevation, rim, (x as int, y as int)),
{
    let w: usize = elevation.width();
    let h: usize = elevation.height();
    let ghost c = (x as int, y as int);
    let mut dir: usize = 0;
    while dir < DIR_COUNT
        invariant
            dir <= DIR_COUNT,
            elevation.wf(),
            w == elevation.spec_width(),
            h == elevation.spec_height(),
            c == (x as int, y as int),
            elevation.has(c.0, c.1),
            forall|d: int|
                0 <= d < dir && elevation.has((#[trigger] step(c, d)).0, step(c, d).1)
                    ==> elevation.at(step(c, d).0, step(c, d).1).spec_gt(rim),
        decreases DIR_COUNT - dir,
    {
        match neighbor(x, y, dir, w, h) {
            Some(cell) => {
                if !elevation.get(cell.0, cell.1).gt(rim) {
                    proof {
                        let n = cell_of(cell);
                        assert(n == step(c, dir as int));
                        lemma_adjacent_is_step(c, n);
                    }
                    return false;
                }
            },
            None => {},
        }
        dir += 1;
    }
    proof {
        assert forall|n: (int, int)|
            #[trigger] adjacent(c, n) && elevation.has(n.0, n.1) implies elevation.at(
            n.0,
            n.1,
        ).spec_gt(rim) by {
            lemma_adjacent_is_step(c, n);
            let d = dir_between(c, n);
            assert(step(c, d) == n);
        }
    }
    true
}

/// What lake identification reads. `pit_rim` holds, per cell, the height a
/// neighbour must exceed for the cell to count as a pit, and `flood_level`
/// the height to which a lake seeded at the cell may rise.
pub struct LakeSurvey<'a> {
    pub elevation: &'a Grid2D<Scalar>,
    pub ocean_mask: &'a Grid2D<bool>,
    pub accumulation: &'a Grid2D<Scalar>,
    pub pit_rim: &'a Grid2D<Scalar>,
    pub flood_level: &'a Grid2D<Scalar>,
    pub sea_level: Scalar,
}

/// The next lake id; the largest id is reused once reached.
pub open spec fn next_id(id: u32) -> u32 {
    if id == u32::MAX {
        id
    } else {
        (id + 1) as u32
    }
}

impl<'a> LakeSurvey<'a> {
    /// The rasters are well formed and agree in shape.
    pub open spec fn wf(&self) -> bool {
        &&& self.elevation.wf()
        &&& self.ocean_mask.wf()
        &&& self.accumulation.wf()
        &&& self.pit_rim.wf()
        &&& self.flood_level.wf()
        &&& self.ocean_mask.same_shape(self.elevation)
        &&& self.accumulation.same_shape(self.elevation)
        &&& self.pit_rim.same_shape(self.elevation)
        &&& self.flood_level.same_shape(self.elevation)
    }

    /// Width of the map.
    pub open spec fn width(&self) -> int {
        self.elevation.spec_width() as int
    }

    /// Number of cells of the map.
    pub open spec fn cells(&self) -> nat {
        self.elevation@.len()
    }

    /// The cell with row-major index `k`.
    pub open spec fn cell(&self, k: int) -> (int, int) {
        (k % self.width(), k / self.width())
    }

    /// A cell off the map border.
    pub open spec fn interior(&self, c: (int, int)) -> bool {
        1 <= c.0 < self.elevation.spec_width() - 1 && 1 <= c.1 < self.elevation.spec_height() - 1
    }

    /// A cell from which a lake is attempted: an interior land cell above sea
    /// level that belongs to no lake yet, is a strict local pit and gathers
    /// an accumulation of at least eight.
    pub open spec fn is_seed(&self, lake: Seq<u32>, c: (int, int)) -> bool {
        &&& self.interior(c)
        &&& !self.ocean_mask.at(c.0, c.1)
        &&& lake_at(lake, self.width(), c) == 0
        &&& self.elevation.at(c.0, c.1).spec_gt(self.sea_level)
        &&& is_pit(self.elevation, self.pit_rim.at(c.0, c.1), c)
        &&& self.accumulation.at(c.0, c.1).spec_ge(Scalar { bits: MIN_INFLOW_BITS })
    }

    /// Whether the lake attempted at seed `c` under label `id` stays.
    pub open spec fn fills(&self, lake: Seq<u32>, id: u32, c: (int, int)) -> bool {
        self.is_seed(lake, c) && flood_succeeds(
            self.elevation,
            self.ocean_mask,
            lake,
            c,
            id,
            self.flood_level.at(c.0, c.1),
            LAKE_MAX_CELLS as nat,
        )
    }

    /// The lake ids and the next free id after cell `c` has been visited.
    pub open spec fn visit(&self, state: (Seq<u32>, u32), c: (int, int)) -> (Seq<u32>, u32) {
        if self.fills(state.0, state.1, c) {
            (
                flooded(
                    state.0,
                    self.width(),
                    basin(
                        self.elevation,
                        self.ocean_mask,
                        state.0,
                        c,
                        self.flood_level.at(c.0, c.1),
                    ),
                    state.1,
                ),
                next_id(state.1),
            )
        } else {
            state
        }
    }

    /// The lake ids and the next free id after the first `k` cells, in
    /// row-major order, have been visited. No cell is a lake at the start and
    /// the first id is 1.
    pub open spec fn after(&self, k: nat) -> (Seq<u32>, u32)
        decreases k,
    {
        if k == 0 {
            (Seq::new(self.cells(), |i: int| 0u32), 1u32)
        } else {
            self.visit(self.after((k - 1) as nat), self.cell(k - 1))
        }
    }

    /// The lake ids once every cell has been visited.
    pub open spec fn lakes(&self) -> Seq<u32> {
        self.after(self.cells()).0
    }

    /// An interior land cell above sea level that carries lake id `id`.
    pub open spec fn is_high_cell(&self, lake: Seq<u32>, id: u32, s: (int, int)) -> bool {
        &&& self.interior(s)
        &&& !self.ocean_mask.at(s.0, s.1)
        &&& self.elevation.at(s.0, s.1).spec_gt(self.sea_level)
        &&& lake_at(lake, self.width(), s) == id
    }

    /// A walk through cells of lake `id` leads from `a` to `b`.
    pub open spec fn joined(&self, lake: Seq<u32>, id: u32, a: (int, int), b: (int, int)) -> bool {
        reaches(
            labelled(lake, self.width(), self.elevation.spec_height() as int, id),
            set![a],
            b,
        )
    }

    /// What holds of the lake ids after `k` cells.
    spec fn tidy(&self, k: nat) -> bool {
        let (lake, next) = self.after(k);
        &&& lake.len() == self.cells()
        &&& 1 <= next <= k + 1
        &&& forall|c: (int, int)|
            self.elevation.has(c.0, c.1) ==> #[trigger] lake_at(lake, self.width(), c) < next
        &&& forall|c: (int, int)|
            self.elevation.has(c.0, c.1) && #[trigger] lake_at(lake, self.width(), c) != 0
                ==> !self.ocean_mask.at(c.0, c.1) && exists|s: (int, int)| #[trigger]
                self.is_high_cell(lake, lake_at(lake, self.width(), c), s)
        &&& forall|a: (int, int), b: (int, int)|
            #![trigger lake_at(lake, self.width(), a), lake_at(lake, self.width(), b)]
            self.elevation.has(a.0, a.1) && self.elevation.has(b.0, b.1) && lake_at(
                lake,
                self.width(),
                a,
            ) != 0 && lake_at(lake, self.width(), a) == lake_at(lake, self.width(), b)
                ==> self.joined(lake, lake_at(lake, self.width(), a), a, b)
    }

    proof fn lemma_tidy(&self, k: nat)
        requires
            self.wf(),
            k <= self.cells(),
            self.cells() < u32::MAX,
        ensures
            self.tidy(k),
        decreases k,
    {
        let w = self.width();
        let h = self.elevation.spec_height() as int;
        if k == 0 {
            let lake = self.after(0).0;
            assert forall|c: (int, int)| self.elevation.has(c.0, c.1) implies #[trigger] lake_at(
                lake,
                w,
                c,
            ) == 0 by {
                lemma_cell_index(c.0, c.1, w, h);
            }
        } else {
            self.lemma_tidy((k - 1) as nat);
            let (lake, id) = self.after((k - 1) as nat);
            let seed = self.cell(k - 1);
            if self.fills(lake, id, seed) {
                let level = self.flood_level.at(seed.0, seed.1);
                let open = floodable(self.elevation, self.ocean_mask, lake, level);
                let region = basin(self.elevation, self.ocean_mask, lake, seed, level);
                let after = flooded(lake, w, region, id);
                assert(self.after(k) == (after, next_id(id)));
                assert forall|c: (int, int)| self.elevation.has(c.0, c.1) implies #[trigger] lake_at(
                    after,
                    w,
                    c,
                ) == if region.contains(c) {
                    id
                } else {
                    lake_at(lake, w, c)
                } by {
                    lemma_cell_index(c.0, c.1, w, h);
                }
                assert forall|c: (int, int)| region.contains(c) implies open.contains(c)
                    && self.elevation.has(c.0, c.1) by {
                    lemma_reach_open(open, set![seed], c);
                }
                assert forall|c: (int, int)|
                    self.elevation.has(c.0, c.1) && #[trigger] lake_at(after, w, c)
                        != 0 implies !self.ocean_mask.at(c.0, c.1) && exists|s: (int, int)|
                    #[trigger] self.is_high_cell(after, lake_at(after, w, c), s) by {
                    let label = lake_at(after, w, c);
                    if region.contains(c) {
                        lemma_reach_from(open, seed, c);
                        assert(region.contains(seed));
                        assert(self.is_high_cell(after, label, seed));
                    } else {
                        assert(lake_at(lake, w, c) == label);
                        let s = choose|s: (int, int)| #[trigger]
                            self.is_high_cell(lake, label, s);
                        assert(!open.contains(s));
                        assert(self.is_high_cell(after, label, s));
                    }
                }
                assert forall|a: (int, int), b: (int, int)|
                    #![trigger lake_at(after, w, a), lake_at(after, w, b)]
                    self.elevation.has(a.0, a.1) && self.elevation.has(b.0, b.1) && lake_at(
                        after,
                        w,
                        a,
                    ) != 0 && lake_at(after, w, a) == lake_at(after, w, b) implies self.joined(
                    after,
                    lake_at(after, w, a),
                    a,
                    b,
                ) by {
                    let label = lake_at(after, w, a);
                    let cells = labelled(after, w, h, label);
                    if region.contains(a) {
                        assert(region.contains(b));
                        assert(region.subset_of(cells));
                        lemma_component_connected(open, set![seed], a);
                        lemma_component_connected(open, set![seed], b);
                        lemma_reach_mono(region, cells, set![seed], a);
                        lemma_reach_mono(region, cells, set![seed], b);
                        lemma_reach_symmetric(cells, seed, a);
                        lemma_reach_trans(cells, a, seed, b);
                    } else {
                        assert(!region.contains(b));
                        assert(lake_at(lake, w, a) == label && lake_at(lake, w, b) == label);
                        let before = labelled(lake, w, h, label);
                        assert(self.joined(lake, label, a, b));
                        assert forall|d: (int, int)| before.contains(d) implies cells.contains(
                            d,
                        ) by {
                            assert(!open.contains(d));
                        }
                        lemma_reach_mono(before, cells, set![a], b);
                    }
                }
            }
        }
    }

    /// Lakes are disjoint from the ocean and each lake is one eight-connected
    /// region. On a map of fewer than 2^32 − 1 cells, after any number of
    /// visits: a cell that carries a lake id is land; a walk through cells of
    /// the same id leads from it to every other cell of that id; and some
    /// cell of that id is an interior land cell above sea level.
    pub proof fn lemma_lakes_are_regions(&self, k: nat, a: (int, int), b: (int, int))
        requires
            self.wf(),
            k <= self.cells(),
            self.cells() < u32::MAX,
            self.elevation.has(a.0, a.1),
            self.elevation.has(b.0, b.1),
            lake_at(self.after(k).0, self.width(), a) != 0,
            lake_at(self.after(k).0, self.width(), a) == lake_at(self.after(k).0, self.width(), b),
        ensures
            !self.ocean_mask.at(a.0, a.1),
            self.joined(self.after(k).0, lake_at(self.after(k).0, self.width(), a), a, b),
            exists|s: (int, int)| #[trigger]
                self.is_high_cell(
                    self.after(k).0,
                    lake_at(self.after(k).0, self.width(), a),
                    s,
                ),
    {
        self.lemma_tidy(k);
    }

    /// Whether a lake is attempted at `(x, y)`.
    fn seed_at(&self, lake_id: &Grid2D<u32>, x: usize, y: usize) -> (r: bool)
        requires
            self.wf(),
            lake_id.wf(),
            lake_id.same_shape(self.elevation),
            self.elevation.has(x as int, y as int),
        ensures
            r == self.is_seed(lake_id@, (x as int, y as int)),
    {
        let w: usize = self.elevation.width();
        let h: usize = self.elevation.height();
        if x == 0 || y == 0 || x + 1 == w || y + 1 == h {
            return false;
        }
        if *self.ocean_mask.get(x, y) || *lake_id.get(x, y) != 0 {
            return false;
        }
        if !self.elevation.get(x, y).gt(self.sea_level) {
            return false;
        }
        if !is_strict_local_pit(self.elevation, x, y, *self.pit_rim.get(x, y)) {
            return false;
        }
        let least = Scalar { bits: MIN_INFLOW_BITS };
        self.accumulation.get(x, y).ge(least)
    }
}

/// Identifies the endorheic lakes. The cells are visited row by row; at each
/// seed a basin is flooded under the next free id, and kept unless it
/// touches the map border or an earlier lake or grows too large.
pub fn identify_lakes(survey: &LakeSurvey) -> (lake_id: Grid2D<u32>)
    requires
        survey.wf(),
    ensures
        lake_id.wf(),
        lake_id.same_shape(survey.elevation),
        lake_id@ == survey.lakes(),
{
    let w: usize = survey.elevation.width();
    let h: usize = survey.elevation.height();
    let n: usize = survey.elevation.len();
    let mut lake_id: Grid2D<u32> = Grid2D::new(w, h, 0);
    let mut next: u32 = 1;
    assert(lake_id@ =~= survey.after(0).0);
    let mut y: usize = 0;
    while y < h
        invariant
            y <= h,
            survey.wf(),
            w == survey.elevation.spec_width(),
            h == survey.elevation.spec_height(),
            lake_id.wf(),
            lake_id.same_shape(survey.elevation),
            next != 0,
            (lake_id@, next) == survey.after((y * w) as nat),
        decreases h - y,
    {
        let mut x: usize = 0;
        while x < w
            invariant
                y < h,
                x <= w,
                survey.wf(),
                w == survey.elevation.spec_width(),
                h == survey.elevation.spec_height(),
                lake_id.wf(),
                lake_id.same_shape(survey.elevation),
                next != 0,
                (lake_id@, next) == survey.after((y * w + x) as nat),
            decreases w - x,
        {
            proof {
                lemma_cell_index(x as int, y as int, w as int, h as int);
                assert(survey.cell(y * w + x) == (x as int, y as int));
            }
            if survey.seed_at(&lake_id, x, y) {
                let level: Scalar = *survey.flood_level.get(x, y);
                let ok = flood_lake_basin(
                    survey.elevation,
                    survey.ocean_mask,
                    &mut lake_id,
                    x,
                    y,
                    next,
                    level,
                    LAKE_MAX_CELLS,
                );
                if ok {
                    next = next.saturating_add(1);
                }
            }
            assert((lake_id@, next) == survey.after((y * w + x + 1) as nat));
            x += 1;
        }
        assert((y + 1) * w == y * w + w) by (nonlinear_arith);
        y += 1;
    }
    assert(y * w == survey.cells()) by (nonlinear_arith)
        requires
            y == h,
            w * h == survey.cells(),
    ;
    lake_id
}

} // verus!
