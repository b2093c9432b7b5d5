//! Flooding one lake basin, and undoing the flood when it cannot stay.

use vstd::prelude::*;
use std::collections::VecDeque;
use crate::grid::{lemma_index_cell, Grid2D};
use crate::neighbors::adjacent;
use crate::region::{
    component,
    lemma_listed_cells,
    lemma_reach_closed,
    lemma_reach_open,
    lemma_reach_source,
    lemma_reach_step,
    rect,
};
use crate::scalar::Scalar;
use super::frontier::{
    border,
    cell_of,
    lemma_queued_extend,
    lemma_queued_pop,
    lemma_queued_push,
    push_neighbors,
    queued,
};

verus! {

/// The lake id stored for cell `c` in a row-major buffer of width `w`.
pub open spec fn lake_at(lake: Seq<u32>, w: int, c: (int, int)) -> u32 {
    lake[c.1 * w + c.0]
}

/// A cell that water standing at `level` can cover: inside the map, not
/// ocean, and at or below the level.
pub open spec fn wettable(
    elevation: &Grid2D<Scalar>,
    ocean: &Grid2D<bool>,
    level: Scalar,
    c: (int, int),
) -> bool {
    elevation.has(c.0, c.1) && !ocean.at(c.0, c.1) && elevation.at(c.0, c.1).spec_le(level)
}

/// The wettable cells that belong to no lake yet.
pub open spec fn floodable(
    elevation: &Grid2D<Scalar>,
    ocean: &Grid2D<bool>,
    lake: Seq<u32>,
    level: Scalar,
) -> Set<(int, int)> {
    Set::new(
        |c: (int, int)|
            wettable(elevation, ocean, level, c) && lake_at(lake, elevation.spec_width() as int, c)
                == 0,
    )
}

/// The wettable cells that belong to a lake other than `id`.
pub open spec fn foreign(
    elevation: &Grid2D<Scalar>,
    ocean: &Grid2D<bool>,
    lake: Seq<u32>,
    id: u32,
    level: Scalar,
) -> Set<(int, int)> {
    Set::new(
        |c: (int, int)|
            wettable(elevation, ocean, level, c) && lake_at(lake, elevation.spec_width() as int, c)
                != 0 && lake_at(lake, elevation.spec_width() as int, c) != id,
    )
}

/// The basin of `seed`: the floodable cells joined to it by floodable cells.
pub open spec fn basin(
    elevation: &Grid2D<Scalar>,
    ocean: &Grid2D<bool>,
    lake: Seq<u32>,
    seed: (int, int),
    level: Scalar,
) -> Set<(int, int)> {
    component(floodable(elevation, ocean, lake, level), set![seed])
}

/// The cells a flood looks at: the seed and every neighbour of a basin cell.
pub open spec fn hits(region: Set<(int, int)>, seed: (int, int), c: (int, int)) -> bool {
    c == seed || exists|r: (int, int)| region.contains(r) && #[trigger] adjacent(r, c)
}

/// A flood succeeds when its basin has at most `max_cells` cells, none of
/// them on the map border, and it looks at no cell of another lake.
pub open spec fn flood_succeeds(
    elevation: &Grid2D<Scalar>,
    ocean: &Grid2D<bool>,
    lake: Seq<u32>,
    seed: (int, int),
    id: u32,
    level: Scalar,
    max_cells: nat,
) -> bool {
    let region = basin(elevation, ocean, lake, seed, level);
    &&& region.len() <= max_cells
    &&& forall|c: (int, int)| region.contains(c) ==> !#[trigger] border(elevation).contains(c)
    &&& forall|c: (int, int)| #[trigger]
        foreign(elevation, ocean, lake, id, level).contains(c) ==> !hits(region, seed, c)
}

/// The buffer with every cell of `region` relabelled `id`.
pub open spec fn flooded(lake: Seq<u32>, w: int, region: Set<(int, int)>, id: u32) -> Seq<u32> {
    Seq::new(
        lake.len(),
        |k: int|
            if region.contains((k % w, k / w)) {
                id
            } else {
                lake[k]
            },
    )
}

/// A basin lies inside the map and is finite.
pub proof fn lemma_basin_finite(
    elevation: &Grid2D<Scalar>,
    ocean: &Grid2D<bool>,
    lake: Seq<u32>,
    seed: (int, int),
    level: Scalar,
)
    ensures
        basin(elevation, ocean, lake, seed, level).subset_of(
            rect(elevation.spec_width() as int, elevation.spec_height() as int),
        ),
        basin(elevation, ocean, lake, seed, level).finite(),
{
    let region = basin(elevation, ocean, lake, seed, level);
    let w = elevation.spec_width() as int;
    let h = elevation.spec_height() as int;
    assert forall|c: (int, int)| region.contains(c) implies rect(w, h).contains(c) by {
        lemma_reach_open(floodable(elevation, ocean, lake, level), set![seed], c);
    }
    lemma_listed_cells(Seq::empty(), region, w, h);
}

/// The cells tagged so far, as mathematical pairs.
spec fn listed(cells: Seq<(usize, usize)>) -> Seq<(int, int)> {
    Seq::new(cells.len(), |i: int| cell_of(cells[i]))
}

/// One flood: what it was asked to do and the lake ids it started from.
struct Flood {
    elevation: Grid2D<Scalar>,
    ocean: Grid2D<bool>,
    lake0: Seq<u32>,
    seed: (int, int),
    id: u32,
    level: Scalar,
    cap: nat,
}

impl Flood {
    spec fn width(self) -> int {
        self.elevation.spec_width() as int
    }

    spec fn open(self) -> Set<(int, int)> {
        floodable(&self.elevation, &self.ocean, self.lake0, self.level)
    }

    spec fn alien(self) -> Set<(int, int)> {
        foreign(&self.elevation, &self.ocean, self.lake0, self.id, self.level)
    }

    spec fn region(self) -> Set<(int, int)> {
        basin(&self.elevation, &self.ocean, self.lake0, self.seed, self.level)
    }

    spec fn succeeds(self) -> bool {
        flood_succeeds(
            &self.elevation,
            &self.ocean,
            self.lake0,
            self.seed,
            self.id,
            self.level,
            self.cap,
        )
    }

    /// The rasters agree in shape and the label is a lake id.
    spec fn shaped(self, lake: &Grid2D<u32>) -> bool {
        &&& self.elevation.wf()
        &&& self.ocean.wf()
        &&& lake.wf()
        &&& self.ocean.same_shape(&self.elevation)
        &&& lake.same_shape(&self.elevation)
        &&& self.lake0.len() == lake@.len()
        &&& self.id != 0
    }

    /// Cell `n` needs no further attention.
    spec fn settled(
        self,
        cells: Seq<(usize, usize)>,
        q: Seq<(usize, usize)>,
        touches: bool,
        n: (int, int),
    ) -> bool {
        &&& self.open().contains(n) ==> queued(cells, n) || queued(q, n)
        &&& self.alien().contains(n) ==> touches || queued(q, n)
    }

    /// Every neighbour of tagged cell `t` is settled.
    spec fn expanded(
        self,
        cells: Seq<(usize, usize)>,
        q: Seq<(usize, usize)>,
        touches: bool,
        t: (int, int),
    ) -> bool {
        forall|n: (int, int)| #[trigger] adjacent(t, n) ==> self.settled(cells, q, touches, n)
    }

    /// The seed is settled, every tagged cell but `skip` is expanded, and a
    /// tagged border cell has been noticed.
    spec fn complete(
        self,
        cells: Seq<(usize, usize)>,
        q: Seq<(usize, usize)>,
        touches: bool,
        skip: Option<(int, int)>,
    ) -> bool {
        &&& self.settled(cells, q, touches, self.seed)
        &&& forall|i: int|
            0 <= i < cells.len() && Some(#[trigger] cell_of(cells[i])) != skip ==> self.expanded(
                cells,
                q,
                touches,
                cell_of(cells[i]),
            )
        &&& forall|i: int|
            0 <= i < cells.len() && border(&self.elevation).contains(#[trigger] cell_of(cells[i]))
                ==> touches
    }

    /// The tagged cells carry the label and nothing else changed.
    spec fn labelled(self, lake: &Grid2D<u32>, cells: Seq<(usize, usize)>) -> bool {
        forall|x: int, y: int|
            self.elevation.has(x, y) ==> #[trigger] lake.at(x, y) == if queued(cells, (x, y)) {
                self.id
            } else {
                lake_at(self.lake0, self.width(), (x, y))
            }
    }

    /// What holds between two pops.
    spec fn inv(
        self,
        lake: &Grid2D<u32>,
        cells: Seq<(usize, usize)>,
        q: Seq<(usize, usize)>,
        touches: bool,
    ) -> bool {
        &&& self.shaped(lake)
        &&& self.labelled(lake, cells)
        &&& forall|i: int| 0 <= i < cells.len() ==> self.region().contains(
            #[trigger] cell_of(cells[i]),
        )
        &&& listed(cells).no_duplicates()
        &&& forall|i: int|
            0 <= i < q.len() ==> self.elevation.has((#[trigger] q[i]).0 as int, q[i].1 as int)
        &&& forall|i: int| 0 <= i < q.len() ==> hits(self.region(), self.seed, #[trigger] cell_of(q[i]))
        &&& touches ==> !self.succeeds()
    }

    /// A tagged cell is floodable: it was wettable and belonged to no lake.
    proof fn lemma_tagged_open(self, c: (int, int))
        requires
            self.region().contains(c),
        ensures
            self.open().contains(c),
            self.elevation.has(c.0, c.1),
            lake_at(self.lake0, self.width(), c) == 0,
            !self.alien().contains(c),
    {
        lemma_reach_open(self.open(), set![self.seed], c);
    }

    /// A floodable cell that the flood looks at lies in the basin.
    proof fn lemma_hit_open(self, c: (int, int))
        requires
            hits(self.region(), self.seed, c),
            self.open().contains(c),
        ensures
            self.region().contains(c),
    {
        if c == self.seed {
            lemma_reach_source(self.open(), set![self.seed], c);
        } else {
            let r = choose|r: (int, int)| self.region().contains(r) && #[trigger] adjacent(r, c);
            lemma_reach_step(self.open(), set![self.seed], r, c);
        }
    }

    /// A list of distinct basin cells is no longer than the basin is large,
    /// and exactly as long when it lists the whole basin.
    proof fn lemma_tagged_count(self, cells: Seq<(usize, usize)>)
        requires
            listed(cells).no_duplicates(),
            forall|i: int| 0 <= i < cells.len() ==> self.region().contains(
                #[trigger] cell_of(cells[i]),
            ),
        ensures
            cells.len() <= self.region().len(),
            (forall|c: (int, int)| self.region().contains(c) ==> queued(cells, c))
                ==> self.region().len() == cells.len(),
    {
        let region = self.region();
        let list = listed(cells);
        lemma_basin_finite(&self.elevation, &self.ocean, self.lake0, self.seed, self.level);
        assert forall|i: int| 0 <= i < list.len() implies region.contains(#[trigger] list[i]) by {
            assert(list[i] == cell_of(cells[i]));
        }
        lemma_listed_cells(
            list,
            region,
            self.elevation.spec_width() as int,
            self.elevation.spec_height() as int,
        );
        if forall|c: (int, int)| region.contains(c) ==> queued(cells, c) {
            assert forall|c: (int, int)| region.contains(c) implies list.contains(c) by {
                let i = choose|i: int| 0 <= i < cells.len() && #[trigger] cell_of(cells[i]) == c;
                assert(list[i] == c);
            }
        }
    }

    /// The flood starts with the seed queued and nothing tagged.
    proof fn lemma_start(self, lake: &Grid2D<u32>, q: Seq<(usize, usize)>)
        requires
            self.shaped(lake),
            lake@ == self.lake0,
            self.elevation.has(self.seed.0, self.seed.1),
            q.len() == 1,
            cell_of(q[0]) == self.seed,
        ensures
            self.inv(lake, Seq::empty(), q, false),
            self.complete(Seq::empty(), q, false, None),
    {
        assert(listed(Seq::empty()) =~= Seq::empty());
        assert(queued(q, self.seed));
    }

    /// Popping `p` keeps every other cell settled; `p` itself is settled once
    /// it has been tagged, noticed as foreign, or found to be neither.
    proof fn lemma_pop(
        self,
        cells0: Seq<(usize, usize)>,
        cells1: Seq<(usize, usize)>,
        q0: Seq<(usize, usize)>,
        touches0: bool,
        touches1: bool,
        p: (int, int),
    )
        requires
            self.complete(cells0, q0, touches0, None),
            q0.len() > 0,
            cell_of(q0[0]) == p,
            forall|c: (int, int)| queued(cells0, c) ==> queued(cells1, c),
            touches0 ==> touches1,
            self.open().contains(p) ==> queued(cells1, p),
            self.alien().contains(p) ==> touches1,
        ensures
            self.settled(cells1, q0.subrange(1, q0.len() as int), touches1, self.seed),
            forall|i: int|
                0 <= i < cells0.len() ==> self.expanded(
                    cells1,
                    q0.subrange(1, q0.len() as int),
                    touches1,
                    #[trigger] cell_of(cells0[i]),
                ),
    {
        let q1 = q0.subrange(1, q0.len() as int);
        assert forall|c: (int, int)| queued(q0, c) && c != p implies queued(q1, c) by {
            lemma_queued_pop(q0, c);
        }
        assert forall|i: int| 0 <= i < cells0.len() implies self.expanded(
            cells1,
            q1,
            touches1,
            #[trigger] cell_of(cells0[i]),
        ) by {
            let t = cell_of(cells0[i]);
            assert(self.expanded(cells0, q0, touches0, t));
            assert forall|n: (int, int)| #[trigger] adjacent(t, n) implies self.settled(
                cells1,
                q1,
                touches1,
                n,
            ) by {
                assert(self.settled(cells0, q0, touches0, n));
            }
        }
    }

    /// A popped cell that is ocean, already labelled or too high is dropped.
    proof fn lemma_skip(
        self,
        lake: &Grid2D<u32>,
        cells: Seq<(usize, usize)>,
        q0: Seq<(usize, usize)>,
        touches: bool,
        p: (int, int),
    )
        requires
            self.inv(lake, cells, q0, touches),
            self.complete(cells, q0, touches, None),
            q0.len() > 0,
            cell_of(q0[0]) == p,
            self.ocean.at(p.0, p.1) || lake.at(p.0, p.1) == self.id || !self.elevation.at(
                p.0,
                p.1,
            ).spec_le(self.level),
        ensures
            self.inv(lake, cells, q0.subrange(1, q0.len() as int), touches),
            self.complete(cells, q0.subrange(1, q0.len() as int), touches, None),
    {
        let q1 = q0.subrange(1, q0.len() as int);
        assert(self.elevation.has(q0[0].0 as int, q0[0].1 as int));
        if queued(cells, p) {
            let i = choose|i: int| 0 <= i < cells.len() && #[trigger] cell_of(cells[i]) == p;
            self.lemma_tagged_open(p);
        } else {
            assert(lake.at(p.0, p.1) == lake_at(self.lake0, self.width(), p));
        }
        self.lemma_pop(cells, cells, q0, touches, touches, p);
        assert forall|i: int| 0 <= i < q1.len() implies hits(
            self.region(),
            self.seed,
            #[trigger] cell_of(q1[i]),
        ) && self.elevation.has(q1[i].0 as int, q1[i].1 as int) by {
            assert(q1[i] == q0[i + 1]);
        }
    }

    /// A popped cell of another lake stops the flood from succeeding.
    proof fn lemma_alien(
        self,
        lake: &Grid2D<u32>,
        cells: Seq<(usize, usize)>,
        q0: Seq<(usize, usize)>,
        touches: bool,
        p: (int, int),
    )
        requires
            self.inv(lake, cells, q0, touches),
            self.complete(cells, q0, touches, None),
            q0.len() > 0,
            cell_of(q0[0]) == p,
            !self.ocean.at(p.0, p.1),
            lake.at(p.0, p.1) != self.id,
            lake.at(p.0, p.1) != 0,
            self.elevation.at(p.0, p.1).spec_le(self.level),
        ensures
            self.inv(lake, cells, q0.subrange(1, q0.len() as int), true),
            self.complete(cells, q0.subrange(1, q0.len() as int), true, None),
    {
        let q1 = q0.subrange(1, q0.len() as int);
        assert(self.elevation.has(q0[0].0 as int, q0[0].1 as int));
        assert(hits(self.region(), self.seed, cell_of(q0[0])));
        assert(!queued(cells, p));
        assert(lake.at(p.0, p.1) == lake_at(self.lake0, self.width(), p));
        assert(self.alien().contains(p));
        assert(!self.succeeds());
        self.lemma_pop(cells, cells, q0, touches, true, p);
        assert forall|i: int| 0 <= i < q1.len() implies hits(
            self.region(),
            self.seed,
            #[trigger] cell_of(q1[i]),
        ) && self.elevation.has(q1[i].0 as int, q1[i].1 as int) by {
            assert(q1[i] == q0[i + 1]);
        }
    }

    /// A popped floodable cell joins the basin and takes the label.
    proof fn lemma_tag(
        self,
        lake0: &Grid2D<u32>,
        lake1: &Grid2D<u32>,
        cells0: Seq<(usize, usize)>,
        q0: Seq<(usize, usize)>,
        touches0: bool,
        touches1: bool,
        cell: (usize, usize),
    )
        requires
            self.inv(lake0, cells0, q0, touches0),
            self.complete(cells0, q0, touches0, None),
            q0.len() > 0,
            q0[0] == cell,
            !self.ocean.at(cell.0 as int, cell.1 as int),
            lake0.at(cell.0 as int, cell.1 as int) == 0,
            self.elevation.at(cell.0 as int, cell.1 as int).spec_le(self.level),
            lake1.wf(),
            lake1.same_shape(lake0),
            forall|x: int, y: int|
                lake0.has(x, y) ==> #[trigger] lake1.at(x, y) == if x == cell.0 && y == cell.1 {
                    self.id
                } else {
                    lake0.at(x, y)
                },
            touches1 == (touches0 || border(&self.elevation).contains(cell_of(cell))
                || cells0.len() + 1 > self.cap),
        ensures
            self.region().contains(cell_of(cell)),
            self.inv(lake1, cells0.push(cell), q0.subrange(1, q0.len() as int), touches1),
            self.complete(
                cells0.push(cell),
                q0.subrange(1, q0.len() as int),
                touches1,
                Some(cell_of(cell)),
            ),
    {
        let p = cell_of(cell);
        let q1 = q0.subrange(1, q0.len() as int);
        let cells1 = cells0.push(cell);
        assert(self.elevation.has(q0[0].0 as int, q0[0].1 as int));
        assert(hits(self.region(), self.seed, cell_of(q0[0])));
        assert(!queued(cells0, p));
        assert(lake0.at(p.0, p.1) == lake_at(self.lake0, self.width(), p));
        assert(self.open().contains(p));
        self.lemma_hit_open(p);
        lemma_listed_push(cells0, cell);
        assert forall|c: (int, int)| queued(cells1, c) <==> queued(cells0, c) || c == p by {
            lemma_queued_push(cells0, cell, c);
        }
        assert forall|i: int| 0 <= i < cells1.len() implies self.region().contains(
            #[trigger] cell_of(cells1[i]),
        ) by {
            if i < cells0.len() {
                assert(cells1[i] == cells0[i]);
            }
        }
        self.lemma_tagged_count(cells1);
        self.lemma_tagged_open(p);
        assert(touches1 ==> !self.succeeds());
        self.lemma_pop(cells0, cells1, q0, touches0, touches1, p);
        assert forall|i: int| 0 <= i < q1.len() implies hits(
            self.region(),
            self.seed,
            #[trigger] cell_of(q1[i]),
        ) && self.elevation.has(q1[i].0 as int, q1[i].1 as int) by {
            assert(q1[i] == q0[i + 1]);
        }
        assert forall|i: int|
            0 <= i < cells1.len() && Some(#[trigger] cell_of(cells1[i])) != Some(
                p,
            ) implies self.expanded(cells1, q1, touches1, cell_of(cells1[i])) by {
            assert(cells1[i] == cells0[i]);
        }
        assert forall|i: int|
            0 <= i < cells1.len() && border(&self.elevation).contains(
                #[trigger] cell_of(cells1[i]),
            ) implies touches1 by {
            if i < cells0.len() {
                assert(cells1[i] == cells0[i]);
            }
        }
        assert(self.labelled(lake1, cells1));
    }

    /// Queueing the neighbours of the cell just tagged completes its expansion.
    proof fn lemma_expand(
        self,
        lake: &Grid2D<u32>,
        cells: Seq<(usize, usize)>,
        q0: Seq<(usize, usize)>,
        q1: Seq<(usize, usize)>,
        touches: bool,
        p: (int, int),
    )
        requires
            self.inv(lake, cells, q0, touches),
            self.complete(cells, q0, touches, Some(p)),
            self.region().contains(p),
            q0.len() <= q1.len(),
            forall|i: int| 0 <= i < q0.len() ==> q1[i] == q0[i],
            forall|i: int|
                q0.len() <= i < q1.len() ==> self.elevation.has(
                    (#[trigger] q1[i]).0 as int,
                    q1[i].1 as int,
                ) && adjacent(p, cell_of(q1[i])),
            forall|n: (int, int)|
                #[trigger] adjacent(p, n) && self.elevation.has(n.0, n.1) ==> queued(q1, n),
        ensures
            self.inv(lake, cells, q1, touches),
            self.complete(cells, q1, touches, None),
    {
        assert forall|c: (int, int)| queued(q0, c) implies queued(q1, c) by {
            lemma_queued_extend(q0, q1, c);
        }
        assert forall|i: int| 0 <= i < q1.len() implies hits(
            self.region(),
            self.seed,
            #[trigger] cell_of(q1[i]),
        ) by {
            if i < q0.len() {
                assert(q1[i] == q0[i]);
            } else {
                assert(adjacent(p, cell_of(q1[i])));
            }
        }
        assert forall|i: int| 0 <= i < cells.len() implies self.expanded(
            cells,
            q1,
            touches,
            #[trigger] cell_of(cells[i]),
        ) by {
            let t = cell_of(cells[i]);
            if t == p {
                assert forall|n: (int, int)| #[trigger] adjacent(t, n) implies self.settled(
                    cells,
                    q1,
                    touches,
                    n,
                ) by {
                    if self.open().contains(n) || self.alien().contains(n) {
                        assert(self.elevation.has(n.0, n.1));
                    }
                }
            } else {
                assert(self.expanded(cells, q0, touches, t));
                assert forall|n: (int, int)| #[trigger] adjacent(t, n) implies self.settled(
                    cells,
                    q1,
                    touches,
                    n,
                ) by {
                    assert(self.settled(cells, q0, touches, n));
                }
            }
        }
    }

    /// With the queue empty, the tagged cells are the basin, and a flood
    /// that noticed nothing has succeeded.
    proof fn lemma_done(self, lake: &Grid2D<u32>, cells: Seq<(usize, usize)>, touches: bool)
        requires
            self.inv(lake, cells, Seq::empty(), touches),
            self.complete(cells, Seq::empty(), touches, None),
            cells.len() <= self.cap,
        ensures
            forall|c: (int, int)| self.region().contains(c) <==> queued(cells, c),
            touches == !self.succeeds(),
    {
        let q = Seq::<(usize, usize)>::empty();
        let open = self.open();
        let region = self.region();
        let tagged = Set::new(|c: (int, int)| queued(cells, c));
        assert forall|c: (int, int)| set![self.seed].contains(c) && open.contains(
            c,
        ) implies tagged.contains(c) by {
            assert(!queued(q, c));
        }
        assert forall|a: (int, int), b: (int, int)|
            tagged.contains(a) && adjacent(a, b) && open.contains(b) implies tagged.contains(b) by {
            let i = choose|i: int| 0 <= i < cells.len() && #[trigger] cell_of(cells[i]) == a;
            assert(self.expanded(cells, q, touches, cell_of(cells[i])));
            assert(self.settled(cells, q, touches, b));
            assert(!queued(q, b));
        }
        lemma_reach_closed(open, set![self.seed], tagged);
        assert forall|c: (int, int)| region.contains(c) implies queued(cells, c) by {
            assert(tagged.contains(c));
        }
        self.lemma_tagged_count(cells);
        if !touches {
            assert forall|c: (int, int)| region.contains(c) implies !#[trigger] border(
                &self.elevation,
            ).contains(c) by {
                let i = choose|i: int| 0 <= i < cells.len() && #[trigger] cell_of(cells[i]) == c;
            }
            assert forall|c: (int, int)| #[trigger] self.alien().contains(c) implies !hits(
                region,
                self.seed,
                c,
            ) by {
                if hits(region, self.seed, c) {
                    assert(!queued(q, c));
                    if c != self.seed {
                        let r = choose|r: (int, int)|
                            region.contains(r) && #[trigger] adjacent(r, c);
                        let i = choose|i: int|
                            0 <= i < cells.len() && #[trigger] cell_of(cells[i]) == r;
                        assert(self.expanded(cells, q, touches, cell_of(cells[i])));
                        assert(self.settled(cells, q, touches, c));
                    }
                }
            }
        }
    }

    /// The labelled raster is the starting one with the basin relabelled.
    proof fn lemma_flooded(self, lake: &Grid2D<u32>, cells: Seq<(usize, usize)>)
        requires
            self.shaped(lake),
            self.labelled(lake, cells),
            forall|c: (int, int)| self.region().contains(c) <==> queued(cells, c),
        ensures
            lake@ == flooded(self.lake0, self.width(), self.region(), self.id),
    {
        let w = self.width();
        let out = flooded(self.lake0, w, self.region(), self.id);
        assert forall|k: int| 0 <= k < self.lake0.len() implies lake@[k] == out[k] by {
            lemma_index_cell(k, w, self.elevation.spec_height() as int);
            assert(lake.at(k % w, k / w) == lake@[k]);
        }
        assert(lake@ =~= out);
    }
}

/// Appending a cell that is not listed keeps the list free of duplicates.
proof fn lemma_listed_push(cells: Seq<(usize, usize)>, v: (usize, usize))
    requires
        listed(cells).no_duplicates(),
        !queued(cells, cell_of(v)),
    ensures
        listed(cells.push(v)).no_duplicates(),
{
    let a = listed(cells);
    let b = listed(cells.push(v));
    assert forall|i: int, j: int| 0 <= i < b.len() && 0 <= j < b.len() && i != j implies b[i]
        != b[j] by {
        if i < cells.len() {
            assert(b[i] == a[i]);
            assert(cell_of(cells[i]) == b[i]);
        }
        if j < cells.len() {
            assert(b[j] == a[j]);
            assert(cell_of(cells[j]) == b[j]);
        }
    }
}

/// Takes the label off every tagged cell again.
fn drain_lake(
    lake_id: &mut Grid2D<u32>,
    cells: &Vec<(usize, usize)>,
    Ghost(flood): Ghost<Flood>,
    Ghost(q): Ghost<Seq<(usize, usize)>>,
    Ghost(touches): Ghost<bool>,
)
    requires
        flood.inv(old(lake_id), cells@, q, touches),
    ensures
        final(lake_id).wf(),
        final(lake_id).same_shape(old(lake_id)),
        final(lake_id)@ == flood.lake0,
{
    let ghost w = flood.width();
    let mut i: usize = 0;
    proof {
        assert(cells@.subrange(0, cells@.len() as int) =~= cells@);
        assert forall|j: int| 0 <= j < cells@.len() implies flood.elevation.has(
            (#[trigger] cells@[j]).0 as int,
            cells@[j].1 as int,
        ) && lake_at(flood.lake0, w, cell_of(cells@[j])) == 0 by {
            flood.lemma_tagged_open(cell_of(cells@[j]));
        }
    }
    while i < cells.len()
        invariant
            i <= cells@.len(),
            w == flood.width(),
            flood.shaped(lake_id),
            lake_id.same_shape(old(lake_id)),
            listed(cells@).no_duplicates(),
            forall|j: int|
                0 <= j < cells@.len() ==> flood.elevation.has(
                    (#[trigger] cells@[j]).0 as int,
                    cells@[j].1 as int,
                ) && lake_at(flood.lake0, w, cell_of(cells@[j])) == 0,
            flood.labelled(lake_id, cells@.subrange(i as int, cells@.len() as int)),
        decreases cells@.len() - i,
    {
        let (cx, cy) = cells[i];
        let ghost c = (cx as int, cy as int);
        let ghost rest0 = cells@.subrange(i as int, cells@.len() as int);
        let ghost rest1 = cells@.subrange(i + 1, cells@.len() as int);
        proof {
            assert(cell_of(rest0[0]) == c);
            assert(rest0.subrange(1, rest0.len() as int) =~= rest1);
            assert forall|c2: (int, int)| queued(rest0, c2) && c2 != c implies queued(
                rest1,
                c2,
            ) by {
                lemma_queued_pop(rest0, c2);
            }
            assert forall|c2: (int, int)| queued(rest1, c2) implies queued(rest0, c2) && c2
                != c by {
                let j = choose|j: int| 0 <= j < rest1.len() && #[trigger] cell_of(rest1[j]) == c2;
                assert(cell_of(rest0[j + 1]) == c2);
                assert(listed(cells@)[i as int] == c);
                assert(listed(cells@)[i + 1 + j] == c2);
            }
        }
        lake_id.set(cx, cy, 0);
        i += 1;
    }
    proof {
        let h = flood.elevation.spec_height() as int;
        assert forall|k: int| 0 <= k < flood.lake0.len() implies lake_id@[k] == flood.lake0[k] by {
            lemma_index_cell(k, w, h);
            assert(lake_id.at(k % w, k / w) == lake_id@[k]);
            assert(cells@.subrange(i as int, cells@.len() as int).len() == 0);
        }
        assert(lake_id@ =~= flood.lake0);
    }
}

/// Floods the basin of `(sx, sy)` with water standing at `max_level` and
/// labels it `id`. The flood is undone, and `false` returned, when the basin
/// touches the map border or another lake or has more than `max_cells` cells.
pub fn flood_lake_basin(
    elevation: &Grid2D<Scalar>,
    ocean_mask: &Grid2D<bool>,
    lake_id: &mut Grid2D<u32>,
    sx: usize,
    sy: usize,
    id: u32,
    max_level: Scalar,
    max_cells: usize,
) -> (ok: bool)
    requires
        elevation.wf(),
        ocean_mask.wf(),
        old(lake_id).wf(),
        ocean_mask.same_shape(elevation),
        old(lake_id).same_shape(elevation),
        elevation.has(sx as int, sy as int),
        id != 0,
    ensures
        final(lake_id).wf(),
        final(lake_id).same_shape(elevation),
        ok == flood_succeeds(
            elevation,
            ocean_mask,
            old(lake_id)@,
            (sx as int, sy as int),
            id,
            max_level,
            max_cells as nat,
        ),
        final(lake_id)@ == if ok {
            flooded(
                old(lake_id)@,
                elevation.spec_width() as int,
                basin(elevation, ocean_mask, old(lake_id)@, (sx as int, sy as int), max_level),
                id,
            )
        } else {
            old(lake_id)@
        },
{
    let w: usize = elevation.width();
    let h: usize = elevation.height();
    let ghost flood = Flood {
        elevation: *elevation,
        ocean: *ocean_mask,
        lake0: lake_id@,
        seed: (sx as int, sy as int),
        id,
        level: max_level,
        cap: max_cells as nat,
    };
    let mut q: VecDeque<(usize, usize)> = VecDeque::new();
    let mut cells: Vec<(usize, usize)> = Vec::new();
    let mut touches: bool = false;
    let mut full: bool = false;
    q.push_back((sx, sy));
    proof {
        flood.lemma_start(lake_id, q@);
    }
    while q.len() > 0 && !full
        invariant
            w == elevation.spec_width(),
            h == elevation.spec_height(),
            flood.elevation == *elevation,
            flood.ocean == *ocean_mask,
            flood.id == id,
            flood.level == max_level,
            flood.cap == max_cells,
            flood.inv(lake_id, cells@, q@, touches),
            !full ==> flood.complete(cells@, q@, touches, None),
            full ==> touches,
            !full ==> cells@.len() <= max_cells,
            cells@.len() <= max_cells + 1,
        decreases 8 * (max_cells + 1 - cells@.len()) + q@.len(),
    {
        let ghost q0 = q@;
        let ghost cells0 = cells@;
        let ghost touches0 = touches;
        let ghost lake_before = *lake_id;
        assert(elevation.has(q0[0].0 as int, q0[0].1 as int));
        let front = q.pop_front();
        let (px, py) = front.unwrap();
        let ghost p = (px as int, py as int);
        assert(q@ == q0.subrange(1, q0.len() as int));
        let cur: u32 = *lake_id.get(px, py);
        let dry: bool = *ocean_mask.get(px, py) || cur == id || !elevation.get(px, py).le(
            max_level,
        );
        if dry {
            proof {
                flood.lemma_skip(lake_id, cells0, q0, touches0, p);
            }
        } else if cur != 0 {
            touches = true;
            proof {
                flood.lemma_alien(lake_id, cells0, q0, touches0, p);
            }
        } else {
            let on_border: bool = px == 0 || py == 0 || px + 1 == w || py + 1 == h;
            if on_border {
                touches = true;
            }
            lake_id.set(px, py, id);
            cells.push((px, py));
            if cells.len() > max_cells {
                touches = true;
                full = true;
            }
            proof {
                assert(on_border == border(elevation).contains(p));
                flood.lemma_tag(&lake_before, lake_id, cells0, q0, touches0, touches, (px, py));
            }
            if !full {
                let ghost qa = q@;
                push_neighbors(px, py, w, h, &mut q);
                proof {
                    flood.lemma_expand(lake_id, cells@, qa, q@, touches, p);
                }
            }
        }
    }
    proof {
        if !full {
            assert(q@ =~= Seq::empty());
            flood.lemma_done(lake_id, cells@, touches);
            if !touches {
                flood.lemma_flooded(lake_id, cells@);
            }
        }
    }
    if touches {
        drain_lake(lake_id, &cells, Ghost(flood), Ghost(q@), Ghost(touches));
        false
    } else {
        true
    }
}

} // verus!
