//! Text detection post-processing: the 4-connected components of the thresholded
//! detection map, each with the cells it holds and their bounding box.
use vstd::prelude::*;

use crate::error::{Error, ErrorKind};
use crate::ocr::{detection_neighbors, neighbors, DET_MIN_BOX_SIDE};
use crate::text::{decimal, owned, push_decimal, push_str};

verus! {

/// The position of map cell `(x, y)` in a row-major map `w` cells wide.
pub open spec fn flat(c: (u32, u32), w: u32) -> int {
    c.1 * w + c.0
}

/// Cell `c` lies inside a `w` × `h` map.
pub open spec fn in_map(c: (u32, u32), w: u32, h: u32) -> bool {
    c.0 < w && c.1 < h
}

/// Cell `c` of the map is set in `mask`.
pub open spec fn is_set(mask: Seq<bool>, c: (u32, u32), w: u32) -> bool {
    mask[flat(c, w)]
}

/// Cell `b` shares an edge with cell `a` and lies inside the `w` × `h` map with it.
pub open spec fn adjacent(a: (u32, u32), b: (u32, u32), w: u32, h: u32) -> bool {
    ||| b.1 == a.1 && a.0 > 0 && b.0 == a.0 - 1
    ||| b.1 == a.1 && a.0 + 1 < w && b.0 == a.0 + 1
    ||| b.0 == a.0 && a.1 > 0 && b.1 == a.1 - 1
    ||| b.0 == a.0 && a.1 + 1 < h && b.1 == a.1 + 1
}

/// The neighbour list of a cell holds exactly its adjacent cells.
pub proof fn lemma_neighbors_adjacent(x: u32, y: u32, w: u32, h: u32)
    ensures
        forall|n: (u32, u32)| #[trigger] neighbors(x, y, w, h).contains(n) <==> adjacent((x, y), n, w, h),
{
    let ns = neighbors(x, y, w, h);
    assert forall|n: (u32, u32)| #[trigger] ns.contains(n) <==> adjacent((x, y), n, w, h) by {
        if adjacent((x, y), n, w, h) {
            let i = choose|i: int| 0 <= i < ns.len() && ns[i] == n;
            if n.1 == y && x > 0 && n.0 == x - 1 {
                assert(ns[0] == n);
            } else if n.1 == y && x + 1 < w && n.0 == x + 1 {
                let k = if x > 0 { 1int } else { 0int };
                assert(ns[k] == n);
            } else if n.0 == x && y > 0 && n.1 == y - 1 {
                let k = (if x > 0 { 1int } else { 0int }) + (if x + 1 < w { 1int } else { 0int });
                assert(ns[k] == n);
            } else {
                let k = (if x > 0 { 1int } else { 0int }) + (if x + 1 < w { 1int } else { 0int }) + (
                if y > 0 { 1int } else { 0int });
                assert(ns[k] == n);
            }
        }
    }
}

/// A cell adjacent to a cell of the map lies in the map and is adjacent back.
pub proof fn lemma_adjacent_symmetric(a: (u32, u32), b: (u32, u32), w: u32, h: u32)
    requires
        in_map(a, w, h),
        adjacent(a, b, w, h),
    ensures
        in_map(b, w, h),
        adjacent(b, a, w, h),
{
}

/// A map cell's position lies in `[0, w * h)`.
pub proof fn lemma_flat_bounds(c: (u32, u32), w: u32, h: u32)
    requires
        in_map(c, w, h),
    ensures
        0 <= flat(c, w) < w * h,
{
    assert(c.1 * w + c.0 < w * h) by (nonlinear_arith)
        requires
            c.0 < w,
            c.1 < h,
    ;
    assert(0 <= c.1 * w) by (nonlinear_arith);
}

/// Different map cells have different positions.
pub proof fn lemma_flat_injective(a: (u32, u32), b: (u32, u32), w: u32)
    requires
        a.0 < w,
        b.0 < w,
        flat(a, w) == flat(b, w),
    ensures
        a == b,
{
    if a.1 < b.1 {
        assert(a.1 * w + w <= b.1 * w) by (nonlinear_arith)
            requires
                a.1 < b.1,
        ;
    } else if b.1 < a.1 {
        assert(b.1 * w + w <= a.1 * w) by (nonlinear_arith)
            requires
                b.1 < a.1,
        ;
    }
}

/// A connected region of set cells: the cells in the order they were reached, and
/// their bounding box in map cells.
#[derive(Debug)]
pub struct MapComponent {
    pub cells: Vec<(u32, u32)>,
    pub min_x: u32,
    pub min_y: u32,
    pub max_x: u32,
    pub max_y: u32,
}

/// `cells` is a connected region of set cells of `mask`: distinct set cells of the map,
/// each after the first sharing an edge with an earlier one.
pub open spec fn is_region(cells: Seq<(u32, u32)>, mask: Seq<bool>, w: u32, h: u32) -> bool {
    &&& cells.len() > 0
    &&& cells.no_duplicates()
    &&& forall|j: int| 0 <= j < cells.len() ==> in_map(#[trigger] cells[j], w, h) && is_set(mask, cells[j], w)
    &&& forall|j: int|
        0 < j < cells.len() ==> exists|i: int| 0 <= i < j && adjacent(cells[i], #[trigger] cells[j], w, h)
}

/// No set cell next to a cell of `cells` is missing from it.
pub open spec fn is_closed(cells: Seq<(u32, u32)>, mask: Seq<bool>, w: u32, h: u32) -> bool {
    forall|c: (u32, u32), n: (u32, u32)|
        #![trigger cells.contains(c), adjacent(c, n, w, h)]
        cells.contains(c) && adjacent(c, n, w, h) && is_set(mask, n, w) ==> cells.contains(n)
}

/// The bounding box `(min_x, min_y, max_x, max_y)` is the tightest one around `cells`.
pub open spec fn bounds_cells(cells: Seq<(u32, u32)>, b: (u32, u32, u32, u32)) -> bool {
    &&& forall|j: int|
        0 <= j < cells.len() ==> b.0 <= (#[trigger] cells[j]).0 <= b.2 && b.1 <= cells[j].1 <= b.3
    &&& exists|j: int| 0 <= j < cells.len() && (#[trigger] cells[j]).0 == b.0
    &&& exists|j: int| 0 <= j < cells.len() && (#[trigger] cells[j]).1 == b.1
    &&& exists|j: int| 0 <= j < cells.len() && (#[trigger] cells[j]).0 == b.2
    &&& exists|j: int| 0 <= j < cells.len() && (#[trigger] cells[j]).1 == b.3
}

/// `comps` are the 4-connected components of the set cells of a `w` × `h` mask, each a
/// closed connected region with its bounding box, no cell in two of them, every set cell
/// in one, listed by the row-major position of their first cell.
pub open spec fn components_of(comps: Seq<MapComponent>, mask: Seq<bool>, w: u32, h: u32) -> bool {
    &&& forall|k: int|
        0 <= k < comps.len() ==> is_region((#[trigger] comps[k]).cells@, mask, w, h) && is_closed(
            comps[k].cells@,
            mask,
            w,
            h,
        ) && bounds_cells(comps[k].cells@, (comps[k].min_x, comps[k].min_y, comps[k].max_x, comps[k].max_y))
    &&& forall|k1: int, k2: int, c: (u32, u32)|
        #![trigger comps[k1].cells@.contains(c), comps[k2].cells@.contains(c)]
        0 <= k1 < k2 < comps.len() && comps[k1].cells@.contains(c) ==> !comps[k2].cells@.contains(c)
    &&& forall|c: (u32, u32)|
        in_map(c, w, h) && #[trigger] is_set(mask, c, w) ==> exists|k: int|
            0 <= k < comps.len() && (#[trigger] comps[k]).cells@.contains(c)
    &&& forall|k1: int, k2: int|
        0 <= k1 < k2 < comps.len() ==> scan_before(
            (#[trigger] comps[k1]).cells@[0],
            (#[trigger] comps[k2]).cells@[0],
        )
}

/// Cell `a` comes before cell `b` in row-major order.
pub open spec fn scan_before(a: (u32, u32), b: (u32, u32)) -> bool {
    a.1 < b.1 || (a.1 == b.1 && a.0 < b.0)
}


/// How many cells of `labels` are still unlabeled (0).
pub open spec fn unlabeled(labels: Seq<usize>) -> nat
    decreases labels.len(),
{
    if labels.len() == 0 {
        0
    } else {
        unlabeled(labels.drop_last()) + if labels.last() == 0 {
            1nat
        } else {
            0nat
        }
    }
}

/// Labeling one unlabeled cell leaves one fewer unlabeled cell.
proof fn lemma_unlabeled_update(labels: Seq<usize>, i: int, v: usize)
    requires
        0 <= i < labels.len(),
        labels[i] == 0,
        v != 0,
    ensures
        unlabeled(labels.update(i, v)) + 1 == unlabeled(labels),
    decreases labels.len(),
{
    if i == labels.len() - 1 {
        assert(labels.update(i, v).drop_last() =~= labels.drop_last());
    } else {
        lemma_unlabeled_update(labels.drop_last(), i, v);
        assert(labels.update(i, v).drop_last() =~= labels.drop_last().update(i, v));
    }
}

/// The position of a map cell, computed.
fn flat_index(c: (u32, u32), w: u32, h: u32) -> (r: usize)
    requires
        in_map(c, w, h),
        w * h <= usize::MAX,
    ensures
        r == flat(c, w),
        r < w * h,
{
    proof {
        lemma_flat_bounds(c, w, h);
    }
    (c.1 as usize) * (w as usize) + (c.0 as usize)
}

/// The facts a fill starts from: the map and label sizes, a set and unlabeled start
/// cell, and earlier labels that mark set cells, stay below `current + 1`, and are closed
/// under set neighbours.
#[verifier::opaque]
pub open spec fn fill_base(
    mask: Seq<bool>,
    w: u32,
    h: u32,
    old_labels: Seq<usize>,
    current: usize,
    start: (u32, u32),
) -> bool {
    &&& mask.len() == w * h
    &&& old_labels.len() == w * h
    &&& in_map(start, w, h)
    &&& is_set(mask, start, w)
    &&& old_labels[flat(start, w)] == 0
    &&& forall|c: (u32, u32)|
        in_map(c, w, h) && #[trigger] old_labels[flat(c, w)] != 0 ==> is_set(mask, c, w)
            && old_labels[flat(c, w)] <= current
    &&& forall|c: (u32, u32), n: (u32, u32)|
        #![trigger old_labels[flat(c, w)], adjacent(c, n, w, h)]
        in_map(c, w, h) && old_labels[flat(c, w)] != 0 && adjacent(c, n, w, h) && is_set(
            mask,
            n,
            w,
        ) ==> old_labels[flat(n, w)] == old_labels[flat(c, w)]
}

/// Labels only went from 0 to `current + 1`, and the cells labeled `current + 1` are
/// exactly `cells`.
#[verifier::opaque]
pub open spec fn fill_labels(
    w: u32,
    h: u32,
    old_labels: Seq<usize>,
    labels: Seq<usize>,
    current: usize,
    cells: Seq<(u32, u32)>,
) -> bool {
    &&& labels.len() == w * h
    &&& forall|i: int|
        0 <= i < w * h ==> #[trigger] labels[i] == old_labels[i] || (old_labels[i] == 0
            && labels[i] == current + 1)
    &&& forall|c: (u32, u32)|
        in_map(c, w, h) ==> (#[trigger] labels[flat(c, w)] == current + 1 <==> cells.contains(c))
}

/// `cells` are distinct set cells of the map, starting at `start`, each after the first
/// next to an earlier one; before the first, only `start` is stacked.
#[verifier::opaque]
pub open spec fn fill_cells(
    mask: Seq<bool>,
    w: u32,
    h: u32,
    start: (u32, u32),
    cells: Seq<(u32, u32)>,
    stack: Seq<(u32, u32)>,
) -> bool {
    &&& cells.no_duplicates()
    &&& forall|j: int|
        0 <= j < cells.len() ==> in_map(#[trigger] cells[j], w, h) && is_set(mask, cells[j], w)
    &&& forall|j: int|
        0 < j < cells.len() ==> exists|i: int| 0 <= i < j && adjacent(cells[i], #[trigger] cells[j], w, h)
    &&& cells.len() == 0 ==> stack == seq![start]
    &&& cells.len() > 0 ==> cells[0] == start
}

/// Every stacked cell is in the map, unlabeled or in the component, and next to a cell
/// of the component once it has one.
#[verifier::opaque]
pub open spec fn fill_stack(
    w: u32,
    h: u32,
    labels: Seq<usize>,
    current: usize,
    cells: Seq<(u32, u32)>,
    stack: Seq<(u32, u32)>,
) -> bool {
    &&& forall|j: int|
        0 <= j < stack.len() ==> in_map(#[trigger] stack[j], w, h) && (labels[flat(stack[j], w)]
            == 0 || labels[flat(stack[j], w)] == current + 1)
    &&& forall|j: int|
        0 <= j < stack.len() && cells.len() > 0 ==> #[trigger] next_to(cells, stack[j], w, h)
}

/// Cell `s` shares an edge with a cell of `cells`.
pub open spec fn next_to(cells: Seq<(u32, u32)>, s: (u32, u32), w: u32, h: u32) -> bool {
    exists|i: int| 0 <= i < cells.len() && adjacent(cells[i], s, w, h)
}

/// Every set neighbour of the component is in it or on the stack.
#[verifier::opaque]
pub open spec fn fill_frontier(
    mask: Seq<bool>,
    w: u32,
    h: u32,
    labels: Seq<usize>,
    current: usize,
    cells: Seq<(u32, u32)>,
    stack: Seq<(u32, u32)>,
) -> bool {
    forall|c: (u32, u32), n: (u32, u32)|
        #![trigger cells.contains(c), adjacent(c, n, w, h)]
        cells.contains(c) && adjacent(c, n, w, h) && is_set(mask, n, w) ==> labels[flat(n, w)]
            == current + 1 || stack.contains(n)
}

/// What holds at each step of filling one component with label `current + 1`.
pub open spec fn fill_inv(
    mask: Seq<bool>,
    w: u32,
    h: u32,
    old_labels: Seq<usize>,
    labels: Seq<usize>,
    current: usize,
    start: (u32, u32),
    cells: Seq<(u32, u32)>,
    stack: Seq<(u32, u32)>,
    b: (u32, u32, u32, u32),
) -> bool {
    &&& fill_base(mask, w, h, old_labels, current, start)
    &&& fill_labels(w, h, old_labels, labels, current, cells)
    &&& fill_cells(mask, w, h, start, cells, stack)
    &&& fill_stack(w, h, labels, current, cells, stack)
    &&& fill_frontier(mask, w, h, labels, current, cells, stack)
    &&& cells.len() > 0 ==> bounds_cells(cells, b)
}

/// The top of the stack lies in the map.
proof fn lemma_stack_top_in_map(
    w: u32,
    h: u32,
    labels: Seq<usize>,
    current: usize,
    cells: Seq<(u32, u32)>,
    popped: Seq<(u32, u32)>,
    t: (u32, u32),
)
    requires
        fill_stack(w, h, labels, current, cells, popped.push(t)),
    ensures
        in_map(t, w, h),
        labels[flat(t, w)] == 0 || labels[flat(t, w)] == current + 1,
{
    reveal(fill_stack);
    assert(popped.push(t)[popped.len() as int] == t);
}

/// Dropping a stacked cell that is labeled already or not set keeps the fill invariant.
proof fn lemma_fill_skip(
    mask: Seq<bool>,
    w: u32,
    h: u32,
    old_labels: Seq<usize>,
    labels: Seq<usize>,
    current: usize,
    start: (u32, u32),
    cells: Seq<(u32, u32)>,
    popped: Seq<(u32, u32)>,
    t: (u32, u32),
    b: (u32, u32, u32, u32),
)
    requires
        fill_inv(mask, w, h, old_labels, labels, current, start, cells, popped.push(t), b),
        labels[flat(t, w)] != 0 || !is_set(mask, t, w),
    ensures
        fill_inv(mask, w, h, old_labels, labels, current, start, cells, popped, b),
{
    reveal(fill_base);
    reveal(fill_labels);
    reveal(fill_cells);
    reveal(fill_stack);
    reveal(fill_frontier);
    let old_stack = popped.push(t);
    assert(old_stack[old_stack.len() - 1] == t);
    assert(in_map(t, w, h));
    if cells.len() == 0 {
        assert(t == start);
        assert(labels[flat(start, w)] == old_labels[flat(start, w)]) by {
            lemma_flat_bounds(start, w, h);
        }
        assert(false);
    }
    assert forall|j: int| 0 <= j < popped.len() implies in_map(#[trigger] popped[j], w, h) && (
    labels[flat(popped[j], w)] == 0 || labels[flat(popped[j], w)] == current + 1) by {
        assert(old_stack[j] == popped[j]);
    }
    assert forall|j: int| 0 <= j < popped.len() && cells.len() > 0 implies #[trigger] next_to(
        cells,
        popped[j],
        w,
        h,
    ) by {
        assert(old_stack[j] == popped[j]);
    }
    assert forall|c: (u32, u32), n: (u32, u32)|
        #![trigger cells.contains(c), adjacent(c, n, w, h)]
        cells.contains(c) && adjacent(c, n, w, h) && is_set(mask, n, w) implies labels[flat(n, w)]
        == current + 1 || popped.contains(n) by {
        if n != t && !(labels[flat(n, w)] == current + 1) {
            assert(old_stack.contains(n));
            let j = choose|j: int| 0 <= j < old_stack.len() && old_stack[j] == n;
            assert(j < popped.len());
            assert(popped[j] == n);
        }
    }
}

/// After labeling `t`, the labels match the component grown by `t`.
proof fn lemma_label_step_labels(
    mask: Seq<bool>,
    w: u32,
    h: u32,
    old_labels: Seq<usize>,
    labels: Seq<usize>,
    current: usize,
    cells: Seq<(u32, u32)>,
    t: (u32, u32),
)
    requires
        fill_labels(w, h, old_labels, labels, current, cells),
        in_map(t, w, h),
        labels[flat(t, w)] == 0,
        current < usize::MAX,
    ensures
        !cells.contains(t),
        fill_labels(w, h, old_labels, labels.update(flat(t, w), (current + 1) as usize), current, cells.push(t)),
{
    reveal(fill_labels);
    let nl = labels.update(flat(t, w), (current + 1) as usize);
    let nc = cells.push(t);
    lemma_flat_bounds(t, w, h);
    assert forall|i: int| 0 <= i < w * h implies #[trigger] nl[i] == old_labels[i] || (old_labels[i]
        == 0 && nl[i] == current + 1) by {
        if i == flat(t, w) {
            assert(labels[i] == old_labels[i] || (old_labels[i] == 0 && labels[i] == current + 1));
        } else {
            assert(nl[i] == labels[i]);
        }
    }
    assert forall|c: (u32, u32)| in_map(c, w, h) implies (#[trigger] nl[flat(c, w)] == current + 1
        <==> nc.contains(c)) by {
        lemma_flat_bounds(c, w, h);
        if c != t {
            if flat(c, w) == flat(t, w) {
                lemma_flat_injective(c, t, w);
            }
            assert(nl[flat(c, w)] == labels[flat(c, w)]);
            if nc.contains(c) {
                let j = choose|j: int| 0 <= j < nc.len() && nc[j] == c;
                assert(j < cells.len());
                assert(cells[j] == c);
            }
            if cells.contains(c) {
                let j = choose|j: int| 0 <= j < cells.len() && cells[j] == c;
                assert(nc[j] == c);
            }
        } else {
            assert(nc[nc.len() - 1] == t);
        }
    }
}

/// After labeling `t`, the component is still a connected region from `start`.
proof fn lemma_label_step_cells(
    mask: Seq<bool>,
    w: u32,
    h: u32,
    labels: Seq<usize>,
    current: usize,
    start: (u32, u32),
    cells: Seq<(u32, u32)>,
    popped: Seq<(u32, u32)>,
    t: (u32, u32),
    new_stack: Seq<(u32, u32)>,
)
    requires
        fill_cells(mask, w, h, start, cells, popped.push(t)),
        fill_stack(w, h, labels, current, cells, popped.push(t)),
        !cells.contains(t),
        in_map(t, w, h),
        is_set(mask, t, w),
    ensures
        fill_cells(mask, w, h, start, cells.push(t), new_stack),
{
    reveal(fill_cells);
    reveal(fill_stack);
    let old_stack = popped.push(t);
    let nc = cells.push(t);
    assert(old_stack[old_stack.len() - 1] == t);
    if cells.len() == 0 {
        assert(old_stack == seq![start]);
        assert(t == start);
    }
    assert forall|j: int| 0 <= j < nc.len() implies in_map(#[trigger] nc[j], w, h) && is_set(
        mask,
        nc[j],
        w,
    ) by {
        if j < cells.len() {
            assert(nc[j] == cells[j]);
        }
    }
    assert forall|j: int| 0 < j < nc.len() implies exists|i: int|
        0 <= i < j && adjacent(nc[i], #[trigger] nc[j], w, h) by {
        if j == nc.len() - 1 {
            assert(next_to(cells, old_stack[old_stack.len() - 1], w, h));
            let i = choose|i: int|
                0 <= i < cells.len() && adjacent(cells[i], old_stack[old_stack.len() - 1], w, h);
            assert(nc[i] == cells[i]);
            assert(adjacent(nc[i], nc[j], w, h));
        } else {
            assert(nc[j] == cells[j]);
            let i = choose|i: int| 0 <= i < j && adjacent(cells[i], cells[j], w, h);
            assert(nc[i] == cells[i]);
        }
    }
    assert(nc[0] == start) by {
        if cells.len() > 0 {
            assert(nc[0] == cells[0]);
        }
    }
    assert(nc.no_duplicates()) by {
        assert forall|i: int, j: int| 0 <= i < j < nc.len() implies nc[i] != nc[j] by {
            if j == nc.len() - 1 {
                assert(nc[i] == cells[i]);
            } else {
                assert(nc[i] == cells[i] && nc[j] == cells[j]);
            }
        }
    }
}

/// After labeling `t` and stacking its unlabeled neighbours, the stack facts hold.
proof fn lemma_label_step_stack(
    w: u32,
    h: u32,
    labels: Seq<usize>,
    current: usize,
    cells: Seq<(u32, u32)>,
    popped: Seq<(u32, u32)>,
    t: (u32, u32),
    new_stack: Seq<(u32, u32)>,
)
    requires
        fill_stack(w, h, labels, current, cells, popped.push(t)),
        labels.len() == w * h,
        in_map(t, w, h),
        current < usize::MAX,
        new_stack.len() >= popped.len(),
        new_stack.subrange(0, popped.len() as int) == popped,
        forall|j: int|
            popped.len() <= j < new_stack.len() ==> adjacent(t, #[trigger] new_stack[j], w, h)
                && labels.update(flat(t, w), (current + 1) as usize)[flat(new_stack[j], w)] == 0,
        cells.len() == 0 ==> popped.len() == 0,
    ensures
        fill_stack(w, h, labels.update(flat(t, w), (current + 1) as usize), current, cells.push(t), new_stack),
{
    reveal(fill_stack);
    let old_stack = popped.push(t);
    let nl = labels.update(flat(t, w), (current + 1) as usize);
    let nc = cells.push(t);
    lemma_flat_bounds(t, w, h);
    assert forall|j: int| 0 <= j < new_stack.len() implies in_map(#[trigger] new_stack[j], w, h) && (
    nl[flat(new_stack[j], w)] == 0 || nl[flat(new_stack[j], w)] == current + 1) by {
        if j < popped.len() {
            assert(new_stack.subrange(0, popped.len() as int)[j] == popped[j]);
            assert(old_stack[j] == popped[j]);
            let s = new_stack[j];
            lemma_flat_bounds(s, w, h);
            if s != t {
                if flat(s, w) == flat(t, w) {
                    lemma_flat_injective(s, t, w);
                }
            }
        } else {
            lemma_adjacent_symmetric(t, new_stack[j], w, h);
        }
    }
    assert forall|j: int| 0 <= j < new_stack.len() && nc.len() > 0 implies #[trigger] next_to(
        nc,
        new_stack[j],
        w,
        h,
    ) by {
        if j < popped.len() {
            assert(new_stack.subrange(0, popped.len() as int)[j] == popped[j]);
            assert(old_stack[j] == popped[j]);
            assert(cells.len() > 0);
            assert(next_to(cells, old_stack[j], w, h));
            let i = choose|i: int| 0 <= i < cells.len() && adjacent(cells[i], old_stack[j], w, h);
            assert(nc[i] == cells[i]);
            assert(0 <= i < nc.len() && adjacent(nc[i], new_stack[j], w, h));
        } else {
            let i = nc.len() - 1;
            assert(nc[i] == t);
            assert(0 <= i < nc.len() && adjacent(nc[i], new_stack[j], w, h));
        }
    }
}

/// After labeling `t` and stacking its unlabeled neighbours, every set neighbour of the
/// component is in it or stacked.
proof fn lemma_label_step_frontier(
    mask: Seq<bool>,
    w: u32,
    h: u32,
    old_labels: Seq<usize>,
    labels: Seq<usize>,
    current: usize,
    start: (u32, u32),
    cells: Seq<(u32, u32)>,
    popped: Seq<(u32, u32)>,
    t: (u32, u32),
    new_stack: Seq<(u32, u32)>,
)
    requires
        fill_base(mask, w, h, old_labels, current, start),
        fill_labels(w, h, old_labels, labels, current, cells),
        fill_cells(mask, w, h, start, cells, popped.push(t)),
        fill_frontier(mask, w, h, labels, current, cells, popped.push(t)),
        in_map(t, w, h),
        is_set(mask, t, w),
        labels[flat(t, w)] == 0,
        current < usize::MAX,
        new_stack.len() >= popped.len(),
        new_stack.subrange(0, popped.len() as int) == popped,
        forall|n: (u32, u32)|
            adjacent(t, n, w, h) && labels.update(flat(t, w), (current + 1) as usize)[flat(n, w)]
                == 0 ==> #[trigger] new_stack.contains(n),
    ensures
        fill_frontier(
            mask,
            w,
            h,
            labels.update(flat(t, w), (current + 1) as usize),
            current,
            cells.push(t),
            new_stack,
        ),
{
    reveal(fill_base);
    reveal(fill_labels);
    reveal(fill_cells);
    reveal(fill_frontier);
    let old_stack = popped.push(t);
    let nl = labels.update(flat(t, w), (current + 1) as usize);
    let nc = cells.push(t);
    lemma_flat_bounds(t, w, h);
    assert(old_labels[flat(t, w)] == 0) by {
        assert(labels[flat(t, w)] == old_labels[flat(t, w)] || (old_labels[flat(t, w)] == 0
            && labels[flat(t, w)] == current + 1));
    }
    assert forall|c: (u32, u32), n: (u32, u32)|
        #![trigger nc.contains(c), adjacent(c, n, w, h)]
        nc.contains(c) && adjacent(c, n, w, h) && is_set(mask, n, w) implies nl[flat(n, w)]
        == current + 1 || new_stack.contains(n) by {
        let j = choose|j: int| 0 <= j < nc.len() && nc[j] == c;
        assert(in_map(c, w, h)) by {
            if j < cells.len() {
                assert(cells[j] == c);
            }
        }
        lemma_adjacent_symmetric(c, n, w, h);
        lemma_flat_bounds(n, w, h);
        if n == t {
            assert(nl[flat(t, w)] == current + 1);
        } else {
            if flat(n, w) == flat(t, w) {
                lemma_flat_injective(n, t, w);
            }
            assert(nl[flat(n, w)] == labels[flat(n, w)]);
            if j < cells.len() {
                assert(cells[j] == c);
                assert(cells.contains(c));
                if !(labels[flat(n, w)] == current + 1) {
                    assert(old_stack.contains(n));
                    let k = choose|k: int| 0 <= k < old_stack.len() && old_stack[k] == n;
                    assert(k < popped.len());
                    assert(new_stack.subrange(0, popped.len() as int)[k] == popped[k]);
                    assert(new_stack[k] == n);
                }
            } else {
                assert(c == t);
                lemma_adjacent_symmetric(t, n, w, h);
                if labels[flat(n, w)] != 0 && labels[flat(n, w)] != current + 1 {
                    assert(labels[flat(n, w)] == old_labels[flat(n, w)]);
                    assert(old_labels[flat(t, w)] == old_labels[flat(n, w)]);
                    assert(false);
                }
            }
        }
    }
}

/// After labeling `t`, the bounding box grown by `t` bounds the component.
proof fn lemma_label_step_bounds(
    cells: Seq<(u32, u32)>,
    t: (u32, u32),
    b: (u32, u32, u32, u32),
    nb: (u32, u32, u32, u32),
)
    requires
        cells.len() > 0 ==> bounds_cells(cells, b),
        nb == (
            if cells.len() == 0 || t.0 < b.0 { t.0 } else { b.0 },
            if cells.len() == 0 || t.1 < b.1 { t.1 } else { b.1 },
            if cells.len() == 0 || t.0 > b.2 { t.0 } else { b.2 },
            if cells.len() == 0 || t.1 > b.3 { t.1 } else { b.3 },
        ),
    ensures
        bounds_cells(cells.push(t), nb),
{
    let nc = cells.push(t);
    if cells.len() > 0 {
        assert forall|j: int| 0 <= j < nc.len() implies nb.0 <= (#[trigger] nc[j]).0 <= nb.2 && nb.1
            <= nc[j].1 <= nb.3 by {
            if j < cells.len() {
                assert(nc[j] == cells[j]);
            }
        }
        let j0 = choose|j: int| 0 <= j < cells.len() && (#[trigger] cells[j]).0 == b.0;
        let j1 = choose|j: int| 0 <= j < cells.len() && (#[trigger] cells[j]).1 == b.1;
        let j2 = choose|j: int| 0 <= j < cells.len() && (#[trigger] cells[j]).0 == b.2;
        let j3 = choose|j: int| 0 <= j < cells.len() && (#[trigger] cells[j]).1 == b.3;
        assert(nc[j0] == cells[j0]);
        assert(nc[j1] == cells[j1]);
        assert(nc[j2] == cells[j2]);
        assert(nc[j3] == cells[j3]);
        assert(nc[nc.len() - 1] == t);
    } else {
        assert(nc[0] == t);
    }
}

/// Labeling a set, unlabeled stacked cell `t` and stacking its unlabeled neighbours keeps
/// the fill invariant.
proof fn lemma_fill_label(
    mask: Seq<bool>,
    w: u32,
    h: u32,
    old_labels: Seq<usize>,
    labels: Seq<usize>,
    current: usize,
    start: (u32, u32),
    cells: Seq<(u32, u32)>,
    popped: Seq<(u32, u32)>,
    t: (u32, u32),
    b: (u32, u32, u32, u32),
    new_stack: Seq<(u32, u32)>,
    nb: (u32, u32, u32, u32),
)
    requires
        fill_inv(mask, w, h, old_labels, labels, current, start, cells, popped.push(t), b),
        labels[flat(t, w)] == 0,
        is_set(mask, t, w),
        current < usize::MAX,
        new_stack.len() >= popped.len(),
        new_stack.subrange(0, popped.len() as int) == popped,
        forall|j: int|
            popped.len() <= j < new_stack.len() ==> adjacent(t, #[trigger] new_stack[j], w, h)
                && labels.update(flat(t, w), (current + 1) as usize)[flat(new_stack[j], w)] == 0,
        forall|n: (u32, u32)|
            adjacent(t, n, w, h) && labels.update(flat(t, w), (current + 1) as usize)[flat(n, w)]
                == 0 ==> #[trigger] new_stack.contains(n),
        nb == (
            if cells.len() == 0 || t.0 < b.0 { t.0 } else { b.0 },
            if cells.len() == 0 || t.1 < b.1 { t.1 } else { b.1 },
            if cells.len() == 0 || t.0 > b.2 { t.0 } else { b.2 },
            if cells.len() == 0 || t.1 > b.3 { t.1 } else { b.3 },
        ),
    ensures
        fill_inv(
            mask,
            w,
            h,
            old_labels,
            labels.update(flat(t, w), (current + 1) as usize),
            current,
            start,
            cells.push(t),
            new_stack,
            nb,
        ),
{
    lemma_stack_top_in_map(w, h, labels, current, cells, popped, t);
    lemma_label_step_labels(mask, w, h, old_labels, labels, current, cells, t);
    reveal(fill_labels);
    if cells.len() == 0 {
        reveal(fill_cells);
        assert(popped.push(t) == seq![start]);
        assert(popped.push(t).len() == 1);
        assert(popped.len() == 0);
    }
    lemma_label_step_cells(mask, w, h, labels, current, start, cells, popped, t, new_stack);
    lemma_label_step_stack(w, h, labels, current, cells, popped, t, new_stack);
    reveal(fill_labels);
    lemma_label_step_frontier(mask, w, h, old_labels, labels, current, start, cells, popped, t, new_stack);
    lemma_label_step_bounds(cells, t, b, nb);
}

/// When the stack is empty the fill is done: the component is a closed connected region
/// from `start`, and the labels match it.
proof fn lemma_fill_done(
    mask: Seq<bool>,
    w: u32,
    h: u32,
    old_labels: Seq<usize>,
    labels: Seq<usize>,
    current: usize,
    start: (u32, u32),
    cells: Seq<(u32, u32)>,
    b: (u32, u32, u32, u32),
)
    requires
        fill_inv(mask, w, h, old_labels, labels, current, start, cells, Seq::empty(), b),
    ensures
        labels.len() == w * h,
        forall|i: int|
            0 <= i < w * h ==> #[trigger] labels[i] == old_labels[i] || (old_labels[i] == 0
                && labels[i] == current + 1),
        forall|c: (u32, u32)|
            in_map(c, w, h) ==> (#[trigger] labels[flat(c, w)] == current + 1 <==> cells.contains(c)),
        is_region(cells, mask, w, h),
        cells[0] == start,
        is_closed(cells, mask, w, h),
        bounds_cells(cells, b),
{
    reveal(fill_labels);
    reveal(fill_cells);
    reveal(fill_frontier);
    let empty = Seq::<(u32, u32)>::empty();
    assert(cells.len() > 0) by {
        if cells.len() == 0 {
            assert(empty == seq![start]);
            assert(seq![start].len() == 1);
        }
    }
    assert forall|c: (u32, u32), n: (u32, u32)|
        #![trigger cells.contains(c), adjacent(c, n, w, h)]
        cells.contains(c) && adjacent(c, n, w, h) && is_set(mask, n, w) implies cells.contains(n) by {
        let j = choose|j: int| 0 <= j < cells.len() && cells[j] == c;
        lemma_adjacent_symmetric(c, n, w, h);
        assert(labels[flat(n, w)] == current + 1 || empty.contains(n));
    }
}

/// Labels the component of set cells reachable from `start` with `current + 1`, and
/// returns its cells and bounding box. Cells labeled before keep their labels, and each
/// earlier label marks a closed set.
fn fill_component(
    mask: &Vec<bool>,
    w: u32,
    h: u32,
    labels: &mut Vec<usize>,
    current: usize,
    start: (u32, u32),
) -> (comp: MapComponent)
    requires
        mask@.len() == w * h,
        old(labels)@.len() == w * h,
        w * h <= usize::MAX,
        current < usize::MAX,
        in_map(start, w, h),
        is_set(mask@, start, w),
        old(labels)@[flat(start, w)] == 0,
        forall|c: (u32, u32)|
            in_map(c, w, h) && #[trigger] old(labels)@[flat(c, w)] != 0 ==> is_set(mask@, c, w)
                && old(labels)@[flat(c, w)] <= current,
        forall|c: (u32, u32), n: (u32, u32)|
            #![trigger old(labels)@[flat(c, w)], adjacent(c, n, w, h)]
            in_map(c, w, h) && old(labels)@[flat(c, w)] != 0 && adjacent(c, n, w, h) && is_set(
                mask@,
                n,
                w,
            ) ==> old(labels)@[flat(n, w)] == old(labels)@[flat(c, w)],
    ensures
        final(labels)@.len() == w * h,
        forall|i: int|
            0 <= i < w * h ==> #[trigger] final(labels)@[i] == old(labels)@[i] || (old(labels)@[i]
                == 0 && final(labels)@[i] == current + 1),
        forall|c: (u32, u32)|
            in_map(c, w, h) ==> (#[trigger] final(labels)@[flat(c, w)] == current + 1
                <==> comp.cells@.contains(c)),
        is_region(comp.cells@, mask@, w, h),
        comp.cells@[0] == start,
        is_closed(comp.cells@, mask@, w, h),
        bounds_cells(comp.cells@, (comp.min_x, comp.min_y, comp.max_x, comp.max_y)),
{
    let ghost old_labels = labels@;
    let mut stack: Vec<(u32, u32)> = Vec::new();
    stack.push(start);
    let mut cells: Vec<(u32, u32)> = Vec::new();
    let mut min_x = start.0;
    let mut min_y = start.1;
    let mut max_x = start.0;
    let mut max_y = start.1;
    proof {
        assert(stack@ =~= seq![start]);
        reveal(fill_base);
        reveal(fill_labels);
        reveal(fill_cells);
        reveal(fill_stack);
        reveal(fill_frontier);
        assert forall|c: (u32, u32)| in_map(c, w, h) implies (#[trigger] labels@[flat(c, w)]
            == current + 1 <==> cells@.contains(c)) by {
            lemma_flat_bounds(c, w, h);
        }
        assert(stack@[0] == start);
    }
    while stack.len() > 0
        invariant
            w * h <= usize::MAX,
            current < usize::MAX,
            mask@.len() == w * h,
            labels@.len() == w * h,
            fill_inv(
                mask@,
                w,
                h,
                old_labels,
                labels@,
                current,
                start,
                cells@,
                stack@,
                (min_x, min_y, max_x, max_y),
            ),
        decreases 5 * unlabeled(labels@) + stack@.len(),
    {
        let ghost old_stack = stack@;
        let t = stack.pop().unwrap();
        let ghost popped = stack@;
        assert(old_stack =~= popped.push(t));
        proof {
            lemma_stack_top_in_map(w, h, labels@, current, cells@, popped, t);
        }
        let ti = flat_index(t, w, h);
        if labels[ti] != 0 || !mask[ti] {
            proof {
                lemma_fill_skip(
                    mask@,
                    w,
                    h,
                    old_labels,
                    labels@,
                    current,
                    start,
                    cells@,
                    popped,
                    t,
                    (min_x, min_y, max_x, max_y),
                );
            }
            continue;
        }
        let ghost before_labels = labels@;
        let ghost before_cells = cells@;
        let ghost b = (min_x, min_y, max_x, max_y);
        proof {
            lemma_unlabeled_update(labels@, ti as int, (current + 1) as usize);
            reveal(fill_labels);
        }
        let first = cells.len() == 0;
        labels.set(ti, current + 1);
        cells.push(t);
        if first || t.0 < min_x {
            min_x = t.0;
        }
        if first || t.1 < min_y {
            min_y = t.1;
        }
        if first || t.0 > max_x {
            max_x = t.0;
        }
        if first || t.1 > max_y {
            max_y = t.1;
        }
        let ns = detection_neighbors(t.0, t.1, w, h);
        proof {
            lemma_neighbors_adjacent(t.0, t.1, w, h);
        }
        let mut k: usize = 0;
        while k < ns.len()
            invariant
                labels@.len() == w * h,
                w * h <= usize::MAX,
                in_map(t, w, h),
                ns@ == neighbors(t.0, t.1, w, h),
                forall|n: (u32, u32)| #[trigger] ns@.contains(n) <==> adjacent(t, n, w, h),
                k <= ns@.len(),
                popped.len() <= stack@.len() <= popped.len() + k,
                stack@.subrange(0, popped.len() as int) == popped,
                forall|j: int|
                    popped.len() <= j < stack@.len() ==> adjacent(t, #[trigger] stack@[j], w, h)
                        && labels@[flat(stack@[j], w)] == 0,
                forall|m: int|
                    0 <= m < k && labels@[flat(#[trigger] ns@[m], w)] == 0 ==> stack@.contains(
                        ns@[m],
                    ),
            decreases ns.len() - k,
        {
            let n = ns[k];
            assert(ns@.contains(n));
            proof {
                lemma_adjacent_symmetric(t, n, w, h);
            }
            let ni = flat_index(n, w, h);
            let ghost before_push = stack@;
            if labels[ni] == 0 {
                stack.push(n);
                proof {
                    assert(stack@.subrange(0, popped.len() as int) =~= before_push.subrange(
                        0,
                        popped.len() as int,
                    ));
                    assert(stack@[stack@.len() - 1] == n);
                    assert forall|m: int|
                        0 <= m < k + 1 && labels@[flat(#[trigger] ns@[m], w)] == 0 implies stack@.contains(
                        ns@[m],
                    ) by {
                        if m < k {
                            let j = choose|j: int| 0 <= j < before_push.len() && before_push[j] == ns@[m];
                            assert(stack@[j] == ns@[m]);
                        }
                    }
                }
            }
            k += 1;
        }
        proof {
            assert(ns@.len() <= 4);
            assert forall|n: (u32, u32)|
                adjacent(t, n, w, h) && labels@[flat(n, w)] == 0 implies #[trigger] stack@.contains(n) by {
                assert(ns@.contains(n));
                let m = choose|m: int| 0 <= m < ns@.len() && ns@[m] == n;
            }
            assert(cells@ =~= before_cells.push(t));
            lemma_fill_label(
                mask@,
                w,
                h,
                old_labels,
                before_labels,
                current,
                start,
                before_cells,
                popped,
                t,
                b,
                stack@,
                (min_x, min_y, max_x, max_y),
            );
        }
    }
    proof {
        assert(stack@ =~= Seq::<(u32, u32)>::empty());
        lemma_fill_done(
            mask@,
            w,
            h,
            old_labels,
            labels@,
            current,
            start,
            cells@,
            (min_x, min_y, max_x, max_y),
        );
    }
    MapComponent { cells, min_x, min_y, max_x, max_y }
}


/// What holds while scanning the map: labels mark set cells with the number of the
/// component holding them, each label marks a closed set, the components found so far
/// are closed connected regions listed in scan order before the scan position, and every
/// set cell before the scan position is labeled.
pub open spec fn scan_inv(
    mask: Seq<bool>,
    w: u32,
    h: u32,
    labels: Seq<usize>,
    comps: Seq<MapComponent>,
    pos: (u32, u32),
) -> bool {
    &&& mask.len() == w * h
    &&& labels.len() == w * h
    &&& forall|c: (u32, u32)|
        in_map(c, w, h) && #[trigger] labels[flat(c, w)] != 0 ==> is_set(mask, c, w)
            && labels[flat(c, w)] <= comps.len()
    &&& forall|c: (u32, u32), n: (u32, u32)|
        #![trigger labels[flat(c, w)], adjacent(c, n, w, h)]
        in_map(c, w, h) && labels[flat(c, w)] != 0 && adjacent(c, n, w, h) && is_set(mask, n, w)
            ==> labels[flat(n, w)] == labels[flat(c, w)]
    &&& forall|c: (u32, u32), k: int|
        #![trigger labels[flat(c, w)], comps[k]]
        in_map(c, w, h) && 0 <= k < comps.len() ==> (labels[flat(c, w)] == k + 1
            <==> comps[k].cells@.contains(c))
    &&& forall|k: int|
        0 <= k < comps.len() ==> is_region((#[trigger] comps[k]).cells@, mask, w, h) && is_closed(
            comps[k].cells@,
            mask,
            w,
            h,
        ) && bounds_cells(comps[k].cells@, (comps[k].min_x, comps[k].min_y, comps[k].max_x, comps[k].max_y))
            && scan_before(comps[k].cells@[0], pos)
    &&& forall|k1: int, k2: int|
        0 <= k1 < k2 < comps.len() ==> scan_before(
            (#[trigger] comps[k1]).cells@[0],
            (#[trigger] comps[k2]).cells@[0],
        )
    &&& forall|c: (u32, u32)|
        in_map(c, w, h) && scan_before(c, pos) && #[trigger] is_set(mask, c, w) ==> labels[flat(c, w)]
            != 0
}

/// Finishing the scan: the components found are all of them.
proof fn lemma_scan_done(mask: Seq<bool>, w: u32, h: u32, labels: Seq<usize>, comps: Seq<MapComponent>)
    requires
        scan_inv(mask, w, h, labels, comps, (0, h)),
    ensures
        components_of(comps, mask, w, h),
{
    assert forall|k1: int, k2: int, c: (u32, u32)|
        #![trigger comps[k1].cells@.contains(c), comps[k2].cells@.contains(c)]
        0 <= k1 < k2 < comps.len() && comps[k1].cells@.contains(c) implies !comps[k2].cells@.contains(
        c,
    ) by {
        assert(is_region(comps[k1].cells@, mask, w, h));
        let j = choose|j: int| 0 <= j < comps[k1].cells@.len() && comps[k1].cells@[j] == c;
        assert(in_map(comps[k1].cells@[j], w, h));
        assert(labels[flat(c, w)] == k1 + 1);
    }
    assert forall|c: (u32, u32)| in_map(c, w, h) && #[trigger] is_set(mask, c, w) implies exists|k: int|
        0 <= k < comps.len() && (#[trigger] comps[k]).cells@.contains(c) by {
        assert(scan_before(c, (0, h)));
        let k = labels[flat(c, w)] - 1;
        assert(comps[k].cells@.contains(c));
    }
}

/// The 4-connected components of the set cells of a `map_width` × `map_height` mask,
/// found by scanning it row by row; a mask of the wrong size or an empty map is an error.
pub fn detection_components(mask: &Vec<bool>, map_width: u32, map_height: u32) -> (r: Result<
    Vec<MapComponent>,
    Error,
>)
    requires
        map_width * map_height <= usize::MAX,
    ensures
        mask@.len() != map_width * map_height ==> (r matches Err(e) && e@ == (
            ErrorKind::Ocr,
            "detection map size mismatch: expected "@ + decimal((map_width * map_height) as nat)
                + ", got "@ + decimal(mask@.len()),
        )),
        mask@.len() == map_width * map_height && (map_width == 0 || map_height == 0) ==> (r matches Err(
            e,
        ) && e@ == (ErrorKind::Ocr, "detection map cannot be empty"@)),
        mask@.len() == map_width * map_height && map_width > 0 && map_height > 0 ==> (r matches Ok(
            comps,
        ) && components_of(comps@, mask@, map_width, map_height)),
{
    let w = map_width;
    let h = map_height;
    proof {
        assert(0 <= (w as int) * (h as int)) by (nonlinear_arith);
    }
    let expected = (w as usize) * (h as usize);
    if mask.len() != expected {
        let mut m = owned("detection map size mismatch: expected ");
        push_decimal(&mut m, expected as u64);
        push_str(&mut m, ", got ");
        push_decimal(&mut m, mask.len() as u64);
        return Err(Error::new(ErrorKind::Ocr, m));
    }
    if w == 0 || h == 0 {
        return Err(Error::from_str(ErrorKind::Ocr, "detection map cannot be empty"));
    }
    let mut labels: Vec<usize> = Vec::new();
    let mut i: usize = 0;
    while i < expected
        invariant
            i <= expected,
            expected == w * h,
            labels@.len() == i,
            forall|j: int| 0 <= j < i ==> labels@[j] == 0,
        decreases expected - i,
    {
        labels.push(0);
        i += 1;
    }
    let mut comps: Vec<MapComponent> = Vec::new();
    proof {
        assert forall|c: (u32, u32)| in_map(c, w, h) implies #[trigger] labels@[flat(c, w)] == 0 by {
            lemma_flat_bounds(c, w, h);
        }
    }
    let mut y: u32 = 0;
    proof {
        assert(0 * w == 0) by (nonlinear_arith);
    }
    while y < h
        invariant
            0 < w,
            y <= h,
            w * h <= usize::MAX,
            scan_inv(mask@, w, h, labels@, comps@, (0, y)),
            comps@.len() <= y * w,
        decreases h - y,
    {
        let mut x: u32 = 0;
        while x < w
            invariant
                0 < w,
                x <= w,
                y < h,
                w * h <= usize::MAX,
                scan_inv(mask@, w, h, labels@, comps@, (x, y)),
                comps@.len() <= y * w + x,
            decreases w - x,
        {
            let c = (x, y);
            let ci = flat_index(c, w, h);
            if labels[ci] == 0 && mask[ci] {
                let ghost before_labels = labels@;
                let ghost before_comps = comps@;
                let current = comps.len();
                proof {
                    lemma_flat_bounds(c, w, h);
                }
                let comp = fill_component(mask, w, h, &mut labels, current, c);
                comps.push(comp);
                proof {
                    assert(comps@.subrange(0, before_comps.len() as int) =~= before_comps);
                    lemma_scan_fill(mask@, w, h, before_labels, before_comps, labels@, comps@, x, y);
                }
            } else {
                proof {
                    lemma_scan_advance(mask@, w, h, labels@, comps@, x, y);
                }
            }
            x += 1;
        }
        proof {
            lemma_scan_row(mask@, w, h, labels@, comps@, y);
            assert(y * w + w == (y + 1) * w) by (nonlinear_arith);
        }
        y += 1;
    }
    proof {
        lemma_scan_done(mask@, w, h, labels@, comps@);
    }
    Ok(comps)
}


/// Moving the scan past a cell that is labeled when set keeps the scan invariant.
proof fn lemma_scan_advance(
    mask: Seq<bool>,
    w: u32,
    h: u32,
    labels: Seq<usize>,
    comps: Seq<MapComponent>,
    x: u32,
    y: u32,
)
    requires
        scan_inv(mask, w, h, labels, comps, (x, y)),
        x < w,
        y < h,
        is_set(mask, (x, y), w) ==> labels[flat((x, y), w)] != 0,
    ensures
        scan_inv(mask, w, h, labels, comps, ((x + 1) as u32, y)),
{
}

/// The end of a row is the start of the next.
proof fn lemma_scan_row(
    mask: Seq<bool>,
    w: u32,
    h: u32,
    labels: Seq<usize>,
    comps: Seq<MapComponent>,
    y: u32,
)
    requires
        scan_inv(mask, w, h, labels, comps, (w, y)),
        y < h,
    ensures
        scan_inv(mask, w, h, labels, comps, (0, (y + 1) as u32)),
{
    assert forall|k: int| 0 <= k < comps.len() implies scan_before(
        (#[trigger] comps[k]).cells@[0],
        (0, (y + 1) as u32),
    ) by {
        assert(is_region(comps[k].cells@, mask, w, h));
        assert(in_map(comps[k].cells@[0], w, h));
    }
}

/// Filling the component of an unlabeled set cell at the scan position, adding it and
/// moving past the cell keeps the scan invariant.
proof fn lemma_scan_fill(
    mask: Seq<bool>,
    w: u32,
    h: u32,
    labels: Seq<usize>,
    comps: Seq<MapComponent>,
    new_labels: Seq<usize>,
    new_comps: Seq<MapComponent>,
    x: u32,
    y: u32,
)
    requires
        scan_inv(mask, w, h, labels, comps, (x, y)),
        x < w,
        y < h,
        labels[flat((x, y), w)] == 0,
        is_set(mask, (x, y), w),
        new_comps.len() == comps.len() + 1,
        new_comps.subrange(0, comps.len() as int) == comps,
        new_labels.len() == w * h,
        forall|i: int|
            0 <= i < w * h ==> #[trigger] new_labels[i] == labels[i] || (labels[i] == 0
                && new_labels[i] == comps.len() + 1),
        forall|c: (u32, u32)|
            in_map(c, w, h) ==> (#[trigger] new_labels[flat(c, w)] == comps.len() + 1
                <==> new_comps[comps.len() as int].cells@.contains(c)),
        is_region(new_comps[comps.len() as int].cells@, mask, w, h),
        new_comps[comps.len() as int].cells@[0] == (x, y),
        is_closed(new_comps[comps.len() as int].cells@, mask, w, h),
        bounds_cells(
            new_comps[comps.len() as int].cells@,
            (
                new_comps[comps.len() as int].min_x,
                new_comps[comps.len() as int].min_y,
                new_comps[comps.len() as int].max_x,
                new_comps[comps.len() as int].max_y,
            ),
        ),
    ensures
        scan_inv(mask, w, h, new_labels, new_comps, ((x + 1) as u32, y)),
{
    let n = comps.len() as int;
    let comp = new_comps[n];
    let next = ((x + 1) as u32, y);
    assert forall|k: int| 0 <= k < n implies #[trigger] new_comps[k] == comps[k] by {
        assert(new_comps.subrange(0, n)[k] == comps[k]);
    }
    lemma_flat_bounds((x, y), w, h);
    assert(comp.cells@.contains((x, y))) by {
        assert(comp.cells@[0] == (x, y));
    }
    assert forall|c: (u32, u32)|
        in_map(c, w, h) && #[trigger] new_labels[flat(c, w)] != 0 implies is_set(mask, c, w)
        && new_labels[flat(c, w)] <= new_comps.len() by {
        lemma_flat_bounds(c, w, h);
        if new_labels[flat(c, w)] == n + 1 {
            let j = choose|j: int| 0 <= j < comp.cells@.len() && comp.cells@[j] == c;
            assert(is_set(mask, comp.cells@[j], w));
        }
    }
    assert forall|c: (u32, u32), n2: (u32, u32)|
        #![trigger new_labels[flat(c, w)], adjacent(c, n2, w, h)]
        in_map(c, w, h) && new_labels[flat(c, w)] != 0 && adjacent(c, n2, w, h) && is_set(mask, n2, w)
            implies new_labels[flat(n2, w)] == new_labels[flat(c, w)] by {
        lemma_flat_bounds(c, w, h);
        lemma_adjacent_symmetric(c, n2, w, h);
        lemma_flat_bounds(n2, w, h);
        if new_labels[flat(c, w)] == n + 1 {
            assert(comp.cells@.contains(c));
            assert(comp.cells@.contains(n2));
        } else {
            assert(labels[flat(c, w)] == new_labels[flat(c, w)]);
            assert(labels[flat(n2, w)] == labels[flat(c, w)]);
        }
    }
    assert forall|c: (u32, u32), k: int|
        #![trigger new_labels[flat(c, w)], new_comps[k]]
        in_map(c, w, h) && 0 <= k < new_comps.len() implies (new_labels[flat(c, w)] == k + 1
        <==> new_comps[k].cells@.contains(c)) by {
        lemma_flat_bounds(c, w, h);
        if k < n {
            assert(new_comps[k] == comps[k]);
            assert(labels[flat(c, w)] == k + 1 <==> comps[k].cells@.contains(c));
            if labels[flat(c, w)] == k + 1 {
                assert(new_labels[flat(c, w)] == labels[flat(c, w)]);
            }
            if new_labels[flat(c, w)] == k + 1 {
                assert(new_labels[flat(c, w)] == labels[flat(c, w)]);
            }
        }
    }
    assert forall|k: int| 0 <= k < new_comps.len() implies is_region(
        (#[trigger] new_comps[k]).cells@,
        mask,
        w,
        h,
    ) && is_closed(new_comps[k].cells@, mask, w, h) && bounds_cells(
        new_comps[k].cells@,
        (new_comps[k].min_x, new_comps[k].min_y, new_comps[k].max_x, new_comps[k].max_y),
    ) && scan_before(new_comps[k].cells@[0], next) by {
        if k < n {
            assert(new_comps[k] == comps[k]);
        }
    }
    assert forall|k1: int, k2: int| 0 <= k1 < k2 < new_comps.len() implies scan_before(
        (#[trigger] new_comps[k1]).cells@[0],
        (#[trigger] new_comps[k2]).cells@[0],
    ) by {
        assert(new_comps[k1] == comps[k1]);
        if k2 < n {
            assert(new_comps[k2] == comps[k2]);
        }
    }
    assert forall|c: (u32, u32)|
        in_map(c, w, h) && scan_before(c, next) && #[trigger] is_set(mask, c, w) implies new_labels[flat(
            c,
            w,
        )] != 0 by {
        lemma_flat_bounds(c, w, h);
        if c != (x, y) {
            assert(scan_before(c, (x, y)));
            assert(labels[flat(c, w)] != 0);
        }
    }
}


/// A component whose bounding box is at least `DET_MIN_BOX_SIDE` cells wide and high;
/// smaller ones are noise.
pub open spec fn text_sized(c: MapComponent) -> bool {
    c.max_x - c.min_x + 1 >= DET_MIN_BOX_SIDE && c.max_y - c.min_y + 1 >= DET_MIN_BOX_SIDE
}

/// The components of `s` that are text sized, in order.
pub open spec fn text_sized_only(s: Seq<MapComponent>) -> Seq<MapComponent>
    decreases s.len(),
{
    if s.len() == 0 {
        s
    } else if text_sized(s.last()) {
        text_sized_only(s.drop_last()).push(s.last())
    } else {
        text_sized_only(s.drop_last())
    }
}

/// Drops the components too small to hold text, keeping the order of the rest.
pub fn keep_text_sized(comps: Vec<MapComponent>) -> (r: Vec<MapComponent>)
    requires
        forall|k: int| 0 <= k < comps@.len() ==> (#[trigger] comps@[k]).min_x <= comps@[k].max_x
            && comps@[k].min_y <= comps@[k].max_y,
    ensures
        r@ == text_sized_only(comps@),
{
    let ghost all = comps@;
    let total = comps.len();
    let mut r: Vec<MapComponent> = Vec::new();
    let mut rest = comps;
    let ghost n = all.len();
    let mut k: usize = 0;
    while rest.len() > 0
        invariant
            all.len() == n,
            n == total,
            k + rest@.len() == n,
            rest@ == all.subrange(k as int, n as int),
            r@ == text_sized_only(all.take(k as int)),
            forall|i: int| 0 <= i < n ==> (#[trigger] all[i]).min_x <= all[i].max_x && all[i].min_y
                <= all[i].max_y,
        decreases rest.len(),
    {
        let c = rest.remove(0);
        proof {
            assert(c == all[k as int]);
            assert(rest@ =~= all.subrange(k + 1, n as int));
            assert(all.take(k + 1).drop_last() =~= all.take(k as int));
            assert(all.take(k + 1).last() == all[k as int]);
        }
        if c.max_x - c.min_x >= DET_MIN_BOX_SIDE - 1 && c.max_y - c.min_y >= DET_MIN_BOX_SIDE - 1 {
            r.push(c);
        }
        k += 1;
    }
    proof {
        assert(all.take(n as int) =~= all);
    }
    r
}

} // verus!
