//! Laws of the simulation, proved once and for all: a pattern placed on an
//! otherwise-empty grid, the boundary policy at a corner, and the fact that
//! a toggle reaches the next generation only through the transition rule.

use vstd::prelude::*;
use crate::grid::BoolGrid2D;
use crate::sim::{alive_n, is_step, neighbor_count, next_state};

verus! {

/// `g` holds the pattern `p`, anchored at `(ox, oy)`, on an otherwise-empty
/// grid: every in-bounds cell is alive exactly when `p` says so.
pub open spec fn has_only_pattern(
    g: BoolGrid2D,
    p: spec_fn(int, int) -> bool,
    ox: int,
    oy: int,
) -> bool {
    forall|x: int, y: int| g.in_bounds(x, y) ==> g.cell(x, y) == p(x - ox, y - oy)
}

/// A 2x2 block whose top-left cell is the anchor.
pub open spec fn block_cell(dx: int, dy: int) -> bool {
    (dx == 0 || dx == 1) && (dy == 0 || dy == 1)
}

/// `g` holds a 2x2 block anchored at `(ox, oy)` on an otherwise-empty grid.
pub open spec fn has_only_block(g: BoolGrid2D, ox: int, oy: int) -> bool {
    forall|x: int, y: int| g.in_bounds(x, y) ==> g.cell(x, y) == block_cell(x - ox, y - oy)
}

/// Still-life law: a 2x2 block on an otherwise-empty grid is left exactly as
/// it was by one step, wherever it sits, the boundary included.
pub proof fn lemma_block_still_life(before: BoolGrid2D, after: BoolGrid2D, ox: int, oy: int)
    requires
        0 <= ox,
        0 <= oy,
        ox + 2 <= before.spec_width(),
        oy + 2 <= before.spec_height(),
        has_only_block(before, ox, oy),
        is_step(before, after),
    ensures
        has_only_block(after, ox, oy),
{
    assert forall|x: int, y: int| after.in_bounds(x, y) implies after.cell(x, y) == block_cell(
        x - ox,
        y - oy,
    ) by {
        assert(before.in_bounds(x, y));
        assert(after.cell(x, y) == next_state(before.cell(x, y), neighbor_count(before, x, y)));
        assert(alive_n(before, x - 1, y - 1) == if block_cell(x - 1 - ox, y - 1 - oy) {
            1int
        } else {
            0int
        });
        assert(alive_n(before, x, y - 1) == if block_cell(x - ox, y - 1 - oy) {
            1int
        } else {
            0int
        });
        assert(alive_n(before, x + 1, y - 1) == if block_cell(x + 1 - ox, y - 1 - oy) {
            1int
        } else {
            0int
        });
        assert(alive_n(before, x - 1, y) == if block_cell(x - 1 - ox, y - oy) {
            1int
        } else {
            0int
        });
        assert(alive_n(before, x + 1, y) == if block_cell(x + 1 - ox, y - oy) {
            1int
        } else {
            0int
        });
        assert(alive_n(before, x - 1, y + 1) == if block_cell(x - 1 - ox, y + 1 - oy) {
            1int
        } else {
            0int
        });
        assert(alive_n(before, x, y + 1) == if block_cell(x - ox, y + 1 - oy) {
            1int
        } else {
            0int
        });
        assert(alive_n(before, x + 1, y + 1) == if block_cell(x + 1 - ox, y + 1 - oy) {
            1int
        } else {
            0int
        });
    }
}

/// `p` holds only inside the `4 x 4` box at the origin.
pub open spec fn pattern_in_box(p: spec_fn(int, int) -> bool) -> bool {
    forall|dx: int, dy: int| #[trigger] p(dx, dy) ==> 0 <= dx < 4 && 0 <= dy < 4
}

/// On a grid that holds only `p` — a pattern confined to the `4 x 4` box —
/// with the box in bounds, every position's liveness, off-grid positions
/// included, is the pattern's own value there.
proof fn lemma_pattern_alive_n(
    g: BoolGrid2D,
    p: spec_fn(int, int) -> bool,
    ox: int,
    oy: int,
    x: int,
    y: int,
)
    requires
        has_only_pattern(g, p, ox, oy),
        pattern_in_box(p),
        0 <= ox,
        0 <= oy,
        ox + 4 <= g.spec_width(),
        oy + 4 <= g.spec_height(),
    ensures
        alive_n(g, x, y) == if p(x - ox, y - oy) {
            1int
        } else {
            0int
        },
{
    if g.in_bounds(x, y) {
        assert(g.cell(x, y) == p(x - ox, y - oy));
    } else {
        assert(!p(x - ox, y - oy));
    }
}

/// The four glider phases, each anchored so that its cells lie in the
/// `4 x 4` box; one step carries each phase to the next, and the phase after
/// the fourth step is the first one translated by `(+1, +1)`.
pub open spec fn glider0(dx: int, dy: int) -> bool {
    ||| (dx == 1 && dy == 0)
    ||| (dx == 2 && dy == 1)
    ||| (dx == 0 && dy == 2)
    ||| (dx == 1 && dy == 2)
    ||| (dx == 2 && dy == 2)
}

pub open spec fn glider1(dx: int, dy: int) -> bool {
    ||| (dx == 0 && dy == 1)
    ||| (dx == 2 && dy == 1)
    ||| (dx == 1 && dy == 2)
    ||| (dx == 2 && dy == 2)
    ||| (dx == 1 && dy == 3)
}

pub open spec fn glider2(dx: int, dy: int) -> bool {
    ||| (dx == 2 && dy == 1)
    ||| (dx == 0 && dy == 2)
    ||| (dx == 2 && dy == 2)
    ||| (dx == 1 && dy == 3)
    ||| (dx == 2 && dy == 3)
}

pub open spec fn glider3(dx: int, dy: int) -> bool {
    ||| (dx == 1 && dy == 1)
    ||| (dx == 2 && dy == 2)
    ||| (dx == 3 && dy == 2)
    ||| (dx == 1 && dy == 3)
    ||| (dx == 2 && dy == 3)
}

pub open spec fn pattern_n(p: spec_fn(int, int) -> bool, dx: int, dy: int) -> int {
    if p(dx, dy) {
        1
    } else {
        0
    }
}

/// The neighbor count a pattern induces at offset `(dx, dy)`, on the
/// boundless plane the pattern describes.
pub open spec fn pattern_box_count(p: spec_fn(int, int) -> bool, dx: int, dy: int) -> int {
    pattern_n(p, dx - 1, dy - 1) + pattern_n(p, dx, dy - 1) + pattern_n(p, dx + 1, dy - 1)
        + pattern_n(p, dx - 1, dy) + pattern_n(p, dx + 1, dy) + pattern_n(p, dx - 1, dy + 1)
        + pattern_n(p, dx, dy + 1) + pattern_n(p, dx + 1, dy + 1)
}

/// One step carries a grid holding only phase `k` of the glider to a grid
/// holding only phase `k + 1` (phase 4 being phase 0 translated by `(+1, +1)`).
#[verifier::rlimit(30)]
proof fn lemma_glider_one_step(
    before: BoolGrid2D,
    after: BoolGrid2D,
    pk: spec_fn(int, int) -> bool,
    pn: spec_fn(int, int) -> bool,
    ox: int,
    oy: int,
)
    requires
        pattern_in_box(pk),
        forall|dx: int, dy: int|
            next_state(
                pk(dx, dy),
                pattern_box_count(pk, dx, dy),
            ) == pn(dx, dy),
        0 <= ox,
        0 <= oy,
        ox + 4 <= before.spec_width(),
        oy + 4 <= before.spec_height(),
        has_only_pattern(before, pk, ox, oy),
        is_step(before, after),
    ensures
        has_only_pattern(after, pn, ox, oy),
{
    assert forall|x: int, y: int| after.in_bounds(x, y) implies after.cell(x, y) == pn(
        x - ox,
        y - oy,
    ) by {
        assert(before.in_bounds(x, y));
        assert(after.cell(x, y) == next_state(before.cell(x, y), neighbor_count(before, x, y)));
        lemma_pattern_alive_n(before, pk, ox, oy, x - 1, y - 1);
        lemma_pattern_alive_n(before, pk, ox, oy, x, y - 1);
        lemma_pattern_alive_n(before, pk, ox, oy, x + 1, y - 1);
        lemma_pattern_alive_n(before, pk, ox, oy, x - 1, y);
        lemma_pattern_alive_n(before, pk, ox, oy, x + 1, y);
        lemma_pattern_alive_n(before, pk, ox, oy, x - 1, y + 1);
        lemma_pattern_alive_n(before, pk, ox, oy, x, y + 1);
        lemma_pattern_alive_n(before, pk, ox, oy, x + 1, y + 1);
        assert(neighbor_count(before, x, y) == pattern_box_count(pk, x - ox, y - oy));
        assert(before.cell(x, y) == pk(x - ox, y - oy));
    }
}

/// Glider law: a 5-cell glider on an otherwise-empty grid with its `4 x 4`
/// bounding box in bounds, after 4 steps, is the same glider translated by
/// `(+1, +1)` — and nothing else is alive.
pub proof fn lemma_glider_four_steps(
    g0: BoolGrid2D,
    g1: BoolGrid2D,
    g2: BoolGrid2D,
    g3: BoolGrid2D,
    g4: BoolGrid2D,
    ox: int,
    oy: int,
)
    requires
        0 <= ox,
        0 <= oy,
        ox + 4 <= g0.spec_width(),
        oy + 4 <= g0.spec_height(),
        has_only_pattern(g0, |dx: int, dy: int| glider0(dx, dy), ox, oy),
        is_step(g0, g1),
        is_step(g1, g2),
        is_step(g2, g3),
        is_step(g3, g4),
    ensures
        has_only_pattern(g4, |dx: int, dy: int| glider0(dx, dy), ox + 1, oy + 1),
{
    let phase0 = |dx: int, dy: int| glider0(dx, dy);
    let phase1 = |dx: int, dy: int| glider1(dx, dy);
    let phase2 = |dx: int, dy: int| glider2(dx, dy);
    let phase3 = |dx: int, dy: int| glider3(dx, dy);
    lemma_glider_one_step(g0, g1, phase0, phase1, ox, oy);
    lemma_glider_one_step(g1, g2, phase1, phase2, ox, oy);
    lemma_glider_one_step(g2, g3, phase2, phase3, ox, oy);
    lemma_glider_one_step(g3, g4, phase3, |dx: int, dy: int| glider0(dx - 1, dy - 1), ox, oy);
    assert forall|x: int, y: int| g4.in_bounds(x, y) implies g4.cell(x, y) == phase0(
        x - (ox + 1),
        y - (oy + 1),
    ) by {
        assert(g4.cell(x, y) == glider0(x - ox - 1, y - oy - 1));
    }
}

/// Boundary law, first half: the neighbor count of the corner `(0, 0)` is the
/// sum over its three in-bounds neighbors alone — no phantom off-grid
/// neighbor is ever counted — and so is at most 3.
pub proof fn lemma_corner_counts_in_bounds_only(g: BoolGrid2D)
    ensures
        neighbor_count(g, 0, 0) == alive_n(g, 1, 0) + alive_n(g, 0, 1) + alive_n(g, 1, 1),
        neighbor_count(g, 0, 0) <= 3,
{
}

/// Boundary law, second half: a lone live cell in the corner `(0, 0)` of an
/// otherwise-empty grid has neighbor count 0 and dies at the next step.
pub proof fn lemma_lone_corner_cell_dies(before: BoolGrid2D, after: BoolGrid2D)
    requires
        before.in_bounds(0, 0),
        before.cell(0, 0),
        forall|x: int, y: int|
            before.in_bounds(x, y) && !(x == 0 && y == 0) ==> !before.cell(x, y),
        is_step(before, after),
    ensures
        neighbor_count(before, 0, 0) == 0,
        !after.cell(0, 0),
{
}

/// The value at `(x, y)` after the cell at `(tx, ty)` of `g` is toggled.
pub open spec fn toggled_cell(g: BoolGrid2D, tx: int, ty: int, x: int, y: int) -> bool {
    if x == tx && y == ty {
        !g.cell(x, y)
    } else {
        g.cell(x, y)
    }
}

/// `alive_n` over the toggled state of `g`.
pub open spec fn toggled_alive_n(g: BoolGrid2D, tx: int, ty: int, x: int, y: int) -> int {
    if g.in_bounds(x, y) && toggled_cell(g, tx, ty, x, y) {
        1
    } else {
        0
    }
}

/// `neighbor_count` over the toggled state of `g`.
pub open spec fn toggled_neighbor_count(g: BoolGrid2D, tx: int, ty: int, x: int, y: int) -> int {
    toggled_alive_n(g, tx, ty, x - 1, y - 1) + toggled_alive_n(g, tx, ty, x, y - 1)
        + toggled_alive_n(g, tx, ty, x + 1, y - 1) + toggled_alive_n(g, tx, ty, x - 1, y)
        + toggled_alive_n(g, tx, ty, x + 1, y) + toggled_alive_n(g, tx, ty, x - 1, y + 1)
        + toggled_alive_n(g, tx, ty, x, y + 1) + toggled_alive_n(g, tx, ty, x + 1, y + 1)
}

/// Toggling never bypasses the rule engine: after a toggle at `(tx, ty)` and
/// one step, every cell is exactly the rule applied to the toggled pre-step
/// state — stated here purely over the state before the toggle.
pub proof fn lemma_toggle_then_step(
    g: BoolGrid2D,
    t: BoolGrid2D,
    u: BoolGrid2D,
    tx: int,
    ty: int,
)
    requires
        g.in_bounds(tx, ty),
        t.spec_width() == g.spec_width(),
        t.spec_height() == g.spec_height(),
        t.cell(tx, ty) == !g.cell(tx, ty),
        forall|x: int, y: int|
            g.in_bounds(x, y) && !(x == tx && y == ty) ==> t.cell(x, y) == g.cell(x, y),
        is_step(t, u),
    ensures
        forall|x: int, y: int|
            g.in_bounds(x, y) ==> u.cell(x, y) == next_state(
                toggled_cell(g, tx, ty, x, y),
                toggled_neighbor_count(g, tx, ty, x, y),
            ),
{
    assert forall|x: int, y: int| g.in_bounds(x, y) implies u.cell(x, y) == next_state(
        toggled_cell(g, tx, ty, x, y),
        toggled_neighbor_count(g, tx, ty, x, y),
    ) by {
        assert(t.in_bounds(x, y));
        assert(u.cell(x, y) == next_state(t.cell(x, y), neighbor_count(t, x, y)));
        assert(alive_n(t, x - 1, y - 1) == toggled_alive_n(g, tx, ty, x - 1, y - 1));
        assert(alive_n(t, x, y - 1) == toggled_alive_n(g, tx, ty, x, y - 1));
        assert(alive_n(t, x + 1, y - 1) == toggled_alive_n(g, tx, ty, x + 1, y - 1));
        assert(alive_n(t, x - 1, y) == toggled_alive_n(g, tx, ty, x - 1, y));
        assert(alive_n(t, x + 1, y) == toggled_alive_n(g, tx, ty, x + 1, y));
        assert(alive_n(t, x - 1, y + 1) == toggled_alive_n(g, tx, ty, x - 1, y + 1));
        assert(alive_n(t, x, y + 1) == toggled_alive_n(g, tx, ty, x, y + 1));
        assert(alive_n(t, x + 1, y + 1) == toggled_alive_n(g, tx, ty, x + 1, y + 1));
    }
}

} // verus!
