//! Eight-connected regions of a raster, as sets of cells.

use vstd::prelude::*;
use crate::neighbors::adjacent;

verus! {

/// A non-empty walk that stays inside `open` and moves between adjacent cells.
pub open spec fn is_walk(path: Seq<(int, int)>, open: Set<(int, int)>) -> bool {
    &&& path.len() > 0
    &&& forall|i: int| 0 <= i < path.len() ==> open.contains(#[trigger] path[i])
    &&& forall|i: int| 0 <= i < path.len() - 1 ==> adjacent(#[trigger] path[i], path[i + 1])
}

/// A walk inside `open` from some cell of `sources` to `c`.
pub open spec fn walk_to(
    path: Seq<(int, int)>,
    open: Set<(int, int)>,
    sources: Set<(int, int)>,
    c: (int, int),
) -> bool {
    is_walk(path, open) && sources.contains(path[0]) && path[path.len() - 1] == c
}

/// `c` can be reached from `sources` without leaving `open`.
pub open spec fn reaches(open: Set<(int, int)>, sources: Set<(int, int)>, c: (int, int)) -> bool {
    exists|path: Seq<(int, int)>| walk_to(path, open, sources, c)
}

/// The cells that can be reached from `sources` without leaving `open`.
pub open spec fn component(open: Set<(int, int)>, sources: Set<(int, int)>) -> Set<(int, int)> {
    Set::new(|c: (int, int)| reaches(open, sources, c))
}

/// An open source reaches itself.
pub proof fn lemma_reach_source(open: Set<(int, int)>, sources: Set<(int, int)>, c: (int, int))
    requires
        open.contains(c),
        sources.contains(c),
    ensures
        reaches(open, sources, c),
{
    let path = seq![c];
    assert(walk_to(path, open, sources, c));
}

/// Reachability extends to every open neighbour.
pub proof fn lemma_reach_step(
    open: Set<(int, int)>,
    sources: Set<(int, int)>,
    p: (int, int),
    n: (int, int),
)
    requires
        reaches(open, sources, p),
        adjacent(p, n),
        open.contains(n),
    ensures
        reaches(open, sources, n),
{
    let path = choose|path: Seq<(int, int)>| walk_to(path, open, sources, p);
    let longer = path.push(n);
    assert forall|i: int| 0 <= i < longer.len() implies open.contains(#[trigger] longer[i]) by {
        if i < path.len() {
            assert(longer[i] == path[i]);
        }
    }
    assert forall|i: int| 0 <= i < longer.len() - 1 implies adjacent(
        #[trigger] longer[i],
        longer[i + 1],
    ) by {
        if i < path.len() - 1 {
            assert(longer[i] == path[i]);
            assert(longer[i + 1] == path[i + 1]);
        }
    }
    assert(longer[0] == path[0]);
    assert(walk_to(longer, open, sources, n));
}

/// A reachable cell is open, and so is the source it was reached from.
pub proof fn lemma_reach_open(open: Set<(int, int)>, sources: Set<(int, int)>, c: (int, int))
    requires
        reaches(open, sources, c),
    ensures
        open.contains(c),
{
    let path = choose|path: Seq<(int, int)>| walk_to(path, open, sources, c);
    assert(open.contains(path[path.len() - 1]));
}

/// Every cell of a walk that starts in a closed set lies in that set.
proof fn lemma_walk_inside(
    path: Seq<(int, int)>,
    open: Set<(int, int)>,
    sources: Set<(int, int)>,
    closed: Set<(int, int)>,
    k: int,
)
    requires
        is_walk(path, open),
        sources.contains(path[0]),
        0 <= k < path.len(),
        forall|c: (int, int)| sources.contains(c) && open.contains(c) ==> closed.contains(c),
        forall|p: (int, int), n: (int, int)|
            closed.contains(p) && adjacent(p, n) && open.contains(n) ==> closed.contains(n),
    ensures
        closed.contains(path[k]),
    decreases k,
{
    if k > 0 {
        lemma_walk_inside(path, open, sources, closed, k - 1);
        assert(adjacent(path[k - 1], path[k - 1 + 1]));
    }
}

/// A set that holds the open sources and every open neighbour of its cells
/// holds every reachable cell.
pub proof fn lemma_reach_closed(
    open: Set<(int, int)>,
    sources: Set<(int, int)>,
    closed: Set<(int, int)>,
)
    requires
        forall|c: (int, int)| sources.contains(c) && open.contains(c) ==> closed.contains(c),
        forall|p: (int, int), n: (int, int)|
            closed.contains(p) && adjacent(p, n) && open.contains(n) ==> closed.contains(n),
    ensures
        forall|c: (int, int)| reaches(open, sources, c) ==> closed.contains(c),
{
    assert forall|c: (int, int)| reaches(open, sources, c) implies closed.contains(c) by {
        let path = choose|path: Seq<(int, int)>| walk_to(path, open, sources, c);
        lemma_walk_inside(path, open, sources, closed, path.len() - 1);
    }
}

/// Every cell of a component is joined to a source by a walk inside the
/// component itself: a component is an eight-connected region.
pub proof fn lemma_component_connected(
    open: Set<(int, int)>,
    sources: Set<(int, int)>,
    c: (int, int),
)
    requires
        reaches(open, sources, c),
    ensures
        reaches(component(open, sources), sources, c),
{
    let path = choose|path: Seq<(int, int)>| walk_to(path, open, sources, c);
    let region = component(open, sources);
    assert forall|i: int| 0 <= i < path.len() implies region.contains(#[trigger] path[i]) by {
        let prefix = path.subrange(0, i + 1);
        assert forall|j: int| 0 <= j < prefix.len() - 1 implies adjacent(
            #[trigger] prefix[j],
            prefix[j + 1],
        ) by {
            assert(prefix[j] == path[j]);
            assert(prefix[j + 1] == path[j + 1]);
        }
        assert(prefix[0] == path[0]);
        assert(walk_to(prefix, open, sources, path[i]));
    }
    assert(walk_to(path, region, sources, c));
}

/// Number of `true` entries.
pub open spec fn count_true(s: Seq<bool>) -> nat
    decreases s.len(),
{
    if s.len() == 0 {
        0
    } else {
        count_true(s.drop_last()) + if s.last() {
            1nat
        } else {
            0nat
        }
    }
}

/// There are at most as many `true` entries as entries.
pub proof fn lemma_count_true_bound(s: Seq<bool>)
    ensures
        count_true(s) <= s.len(),
    decreases s.len(),
{
    if s.len() > 0 {
        lemma_count_true_bound(s.drop_last());
    }
}

/// Setting a `false` entry adds one to the count.
pub proof fn lemma_count_true_set(s: Seq<bool>, k: int)
    requires
        0 <= k < s.len(),
        !s[k],
    ensures
        count_true(s.update(k, true)) == count_true(s) + 1,
    decreases s.len(),
{
    let t = s.update(k, true);
    if k == s.len() - 1 {
        assert(t.drop_last() =~= s.drop_last());
    } else {
        assert(t.drop_last() =~= s.drop_last().update(k, true));
        lemma_count_true_set(s.drop_last(), k);
    }
}

/// The cells of a `w × h` raster.
pub open spec fn rect(w: int, h: int) -> Set<(int, int)> {
    Set::new(|c: (int, int)| 0 <= c.0 < w && 0 <= c.1 < h)
}

/// A raster has finitely many cells.
pub proof fn lemma_rect_finite(w: int, h: int)
    requires
        0 <= w,
        0 <= h,
    ensures
        rect(w, h).finite(),
{
    if w == 0 {
        assert(rect(w, h) =~= Set::empty());
    } else {
        assert(0 <= w * h) by (nonlinear_arith)
            requires
                0 <= w,
                0 <= h,
        ;
        let range = vstd::set_lib::set_int_range(0, w * h);
        let f = |k: int| (k % w, k / w);
        vstd::set_lib::lemma_int_range(0, w * h);
        range.lemma_map_finite(f);
        assert forall|c: (int, int)| rect(w, h).contains(c) implies range.map(f).contains(c) by {
            let k = c.1 * w + c.0;
            crate::grid::lemma_cell_index(c.0, c.1, w, h);
            assert(range.contains(k) && f(k) == c);
        }
        vstd::set_lib::lemma_set_subset_finite(range.map(f), rect(w, h));
    }
}

/// A set of raster cells has at least as many cells as any duplicate-free
/// list of its members, and exactly as many as one that lists them all.
pub proof fn lemma_listed_cells(list: Seq<(int, int)>, region: Set<(int, int)>, w: int, h: int)
    requires
        0 <= w,
        0 <= h,
        region.subset_of(rect(w, h)),
        list.no_duplicates(),
        forall|i: int| 0 <= i < list.len() ==> region.contains(#[trigger] list[i]),
    ensures
        region.finite(),
        list.len() <= region.len(),
        (forall|c: (int, int)| region.contains(c) ==> list.contains(c)) ==> region.len()
            == list.len(),
{
    lemma_rect_finite(w, h);
    vstd::set_lib::lemma_set_subset_finite(rect(w, h), region);
    list.unique_seq_to_set();
    let listed = list.to_set();
    assert(listed.subset_of(region));
    vstd::set_lib::lemma_len_subset(listed, region);
    if forall|c: (int, int)| region.contains(c) ==> list.contains(c) {
        assert(listed =~= region);
    }
}

/// Whatever can be reached inside a set can be reached inside a larger one.
pub proof fn lemma_reach_mono(
    open: Set<(int, int)>,
    wider: Set<(int, int)>,
    sources: Set<(int, int)>,
    c: (int, int),
)
    requires
        open.subset_of(wider),
        reaches(open, sources, c),
    ensures
        reaches(wider, sources, c),
{
    let path = choose|path: Seq<(int, int)>| walk_to(path, open, sources, c);
    assert(walk_to(path, wider, sources, c));
}

/// A cell is reached only if its source is open.
pub proof fn lemma_reach_from(open: Set<(int, int)>, seed: (int, int), c: (int, int))
    requires
        reaches(open, set![seed], c),
    ensures
        reaches(open, set![seed], seed),
{
    let path = choose|path: Seq<(int, int)>| walk_to(path, open, set![seed], c);
    assert(path[0] == seed);
    lemma_reach_source(open, set![seed], seed);
}

/// A walk can be gone backwards: what one cell reaches reaches it.
pub proof fn lemma_reach_symmetric(open: Set<(int, int)>, a: (int, int), b: (int, int))
    requires
        reaches(open, set![a], b),
    ensures
        reaches(open, set![b], a),
{
    let path = choose|path: Seq<(int, int)>| walk_to(path, open, set![a], b);
    let n = path.len() as int;
    let back = Seq::new(path.len(), |i: int| path[n - 1 - i]);
    assert forall|i: int| 0 <= i < back.len() implies open.contains(#[trigger] back[i]) by {
        assert(open.contains(path[n - 1 - i]));
    }
    assert forall|i: int| 0 <= i < back.len() - 1 implies adjacent(
        #[trigger] back[i],
        back[i + 1],
    ) by {
        assert(adjacent(path[n - 2 - i], path[n - 2 - i + 1]));
    }
    assert(path[0] == a);
    assert(walk_to(back, open, set![b], a));
}

/// Walks can be joined end to end.
pub proof fn lemma_reach_trans(
    open: Set<(int, int)>,
    a: (int, int),
    b: (int, int),
    c: (int, int),
)
    requires
        reaches(open, set![a], b),
        reaches(open, set![b], c),
    ensures
        reaches(open, set![a], c),
{
    let within = Set::new(|x: (int, int)| reaches(open, set![a], x));
    assert forall|p: (int, int), n: (int, int)|
        within.contains(p) && adjacent(p, n) && open.contains(n) implies within.contains(n) by {
        lemma_reach_step(open, set![a], p, n);
    }
    lemma_reach_closed(open, set![b], within);
    assert(within.contains(c));
}

} // verus!
