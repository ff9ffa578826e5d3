//! The double-buffered Game-of-Life simulation: neighbor counting, the
//! transition rule, and the synchronous step over the whole grid.

use vstd::prelude::*;
use crate::grid::BoolGrid2D;

verus! {

/// 1 when `(x, y)` is an in-bounds live cell of `g`, else 0. Positions
/// outside the grid never count: the grid has no wraparound.
pub open spec fn alive_n(g: BoolGrid2D, x: int, y: int) -> int {
    if g.in_bounds(x, y) && g.cell(x, y) {
        1
    } else {
        0
    }
}

/// Number of live cells among the up-to-8 grid-adjacent neighbors of `(x, y)`.
pub open spec fn neighbor_count(g: BoolGrid2D, x: int, y: int) -> int {
    alive_n(g, x - 1, y - 1) + alive_n(g, x, y - 1) + alive_n(g, x + 1, y - 1) + alive_n(
        g,
        x - 1,
        y,
    ) + alive_n(g, x + 1, y) + alive_n(g, x - 1, y + 1) + alive_n(g, x, y + 1) + alive_n(
        g,
        x + 1,
        y + 1,
    )
}

/// The transition rule: a live cell survives with 2 or 3 live neighbors;
/// a dead cell is born with exactly 3; every other cell is dead next.
pub open spec fn next_state(alive: bool, neighbors: int) -> bool {
    if alive {
        neighbors == 2 || neighbors == 3
    } else {
        neighbors == 3
    }
}

/// One synchronous generation: `after` has `before`'s dimensions, and every
/// cell of `after` is the rule applied to `before`'s pre-step state alone.
pub open spec fn is_step(before: BoolGrid2D, after: BoolGrid2D) -> bool {
    &&& after.spec_width() == before.spec_width()
    &&& after.spec_height() == before.spec_height()
    &&& forall|x: int, y: int|
        before.in_bounds(x, y) ==> after.cell(x, y) == next_state(
            before.cell(x, y),
            neighbor_count(before, x, y),
        )
}

/// Maps a screen position to the grid cell below it: each axis is divided by
/// the per-cell pixel size and floored. The caller clamps or rejects the
/// result before it reaches the grid.
pub fn cell_below_position(px: usize, py: usize, cell_w: usize, cell_h: usize) -> (c: (
    usize,
    usize,
))
    requires
        cell_w > 0,
        cell_h > 0,
    ensures
        c.0 == px as int / cell_w as int,
        c.1 == py as int / cell_h as int,
{
    (px / cell_w, py / cell_h)
}

/// Two grids of identical dimensions: `grid` is the authoritative current
/// generation, `simulation_grid` the scratch buffer a step writes into.
/// `paused` gates whether a step advances the simulation.
pub struct Simulation {
    grid: BoolGrid2D,
    simulation_grid: BoolGrid2D,
    paused: bool,
}

impl Simulation {
    /// The current generation, the one toggles mutate and the renderer reads.
    pub closed spec fn current(self) -> BoolGrid2D {
        self.grid
    }

    /// The scratch buffer.
    pub closed spec fn scratch(self) -> BoolGrid2D {
        self.simulation_grid
    }

    pub closed spec fn spec_paused(self) -> bool {
        self.paused
    }

    pub open spec fn spec_width(self) -> int {
        self.current().spec_width()
    }

    pub open spec fn spec_height(self) -> int {
        self.current().spec_height()
    }

    /// Both buffers are well-formed and share one set of dimensions.
    pub open spec fn wf(self) -> bool {
        &&& self.current().wf()
        &&& self.scratch().wf()
        &&& self.scratch().spec_width() == self.spec_width()
        &&& self.scratch().spec_height() == self.spec_height()
    }

    /// A simulation over a `width` x `height` grid, every cell dead, running.
    pub fn new(width: usize, height: usize) -> (s: Simulation)
        requires
            width * height <= usize::MAX,
        ensures
            s.wf(),
            s.spec_width() == width,
            s.spec_height() == height,
            !s.spec_paused(),
            forall|x: int, y: int| s.current().in_bounds(x, y) ==> !s.current().cell(x, y),
            forall|x: int, y: int| s.scratch().in_bounds(x, y) ==> !s.scratch().cell(x, y),
    {
        Simulation {
            grid: BoolGrid2D::new(width, height),
            simulation_grid: BoolGrid2D::new(width, height),
            paused: false,
        }
    }

    pub fn dimensions(&self) -> (d: (usize, usize))
        ensures
            d.0 == self.spec_width(),
            d.1 == self.spec_height(),
    {
        (self.grid.width(), self.grid.height())
    }

    /// Whether the cell at `(x, y)` of the current generation is alive.
    pub fn is_alive(&self, x: usize, y: usize) -> (b: bool)
        requires
            self.wf(),
            self.current().in_bounds(x as int, y as int),
        ensures
            b == self.current().cell(x as int, y as int),
    {
        self.grid.get(x, y)
    }

    pub fn is_paused(&self) -> (p: bool)
        ensures
            p == self.spec_paused(),
    {
        self.paused
    }

    /// Sets the pause gate; the grids are untouched.
    pub fn set_paused(&mut self, paused: bool)
        ensures
            final(self).spec_paused() == paused,
            final(self).current() == old(self).current(),
            final(self).scratch() == old(self).scratch(),
    {
        self.paused = paused;
    }

    /// Flips the pause gate; the grids are untouched.
    pub fn pause_toggle(&mut self)
        ensures
            final(self).spec_paused() == !old(self).spec_paused(),
            final(self).current() == old(self).current(),
            final(self).scratch() == old(self).scratch(),
    {
        self.paused = !self.paused;
    }

    /// Flips the current cell at `(x, y)`; every other cell, the scratch
    /// buffer and the pause gate are left as they were. Valid any time,
    /// paused included.
    pub fn toggle_cell(&mut self, x: usize, y: usize)
        requires
            old(self).wf(),
            old(self).current().in_bounds(x as int, y as int),
        ensures
            final(self).wf(),
            final(self).spec_width() == old(self).spec_width(),
            final(self).spec_height() == old(self).spec_height(),
            final(self).spec_paused() == old(self).spec_paused(),
            final(self).scratch() == old(self).scratch(),
            final(self).current().cell(x as int, y as int) == !old(self).current().cell(
                x as int,
                y as int,
            ),
            forall|i: int, j: int|
                old(self).current().in_bounds(i, j) && !(i == x && j == y)
                    ==> final(self).current().cell(i, j) == old(self).current().cell(i, j),
    {
        let v = self.grid.get(x, y);
        self.grid.set(x, y, !v);
    }

    /// Live cells among the up-to-8 grid-adjacent neighbors of `(x, y)`,
    /// with explicit boundary guards: off-grid positions are never counted.
    pub fn get_neighbors_count(&self, x: usize, y: usize) -> (n: i32)
        requires
            self.wf(),
            self.current().in_bounds(x as int, y as int),
        ensures
            n == neighbor_count(self.current(), x as int, y as int),
    {
        let mut count: i32 = 0;

        let grid_width = self.grid.width();
        let grid_height = self.grid.height();

        // Top and bottom
        if y != 0 && self.grid.get(x, y - 1) {
            count += 1;
        }
        if y != grid_height - 1 && self.grid.get(x, y + 1) {
            count += 1;
        }

        // Right and left
        if x != grid_width - 1 && self.grid.get(x + 1, y) {
            count += 1;
        }
        if x != 0 && self.grid.get(x - 1, y) {
            count += 1;
        }

        // Top left and top right
        if x != 0 && y != 0 && self.grid.get(x - 1, y - 1) {
            count += 1;
        }
        if x != grid_width - 1 && y != 0 && self.grid.get(x + 1, y - 1) {
            count += 1;
        }

        // Bottom right and bottom left
        if x != grid_width - 1 && y != grid_height - 1 && self.grid.get(x + 1, y + 1) {
            count += 1;
        }
        if x != 0 && y != grid_height - 1 && self.grid.get(x - 1, y + 1) {
            count += 1;
        }

        count
    }

    /// Commits the scratch buffer as the new current generation by swapping
    /// the two buffers.
    fn apply_simulation_grid(&mut self)
        ensures
            final(self).grid == old(self).simulation_grid,
            final(self).simulation_grid == old(self).grid,
            final(self).paused == old(self).paused,
    {
        core::mem::swap(&mut self.grid, &mut self.simulation_grid);
    }

    /// One generation: a no-op while paused; otherwise every cell of the new
    /// current generation is the rule applied to the old one, each cell's
    /// update reading only the pre-step state.
    pub fn step(&mut self)
        requires
            old(self).wf(),
        ensures
            final(self).wf(),
            final(self).spec_width() == old(self).spec_width(),
            final(self).spec_height() == old(self).spec_height(),
            final(self).spec_paused() == old(self).spec_paused(),
            old(self).spec_paused() ==> *final(self) == *old(self),
            !old(self).spec_paused() ==> is_step(old(self).current(), final(self).current()),
    {
        if self.paused {
            return ;
        }

        let width = self.grid.width();
        let height = self.grid.height();

        let mut y: usize = 0;
        while y < height
            invariant
                self.wf(),
                self.grid == old(self).grid,
                self.paused == old(self).paused,
                width == self.spec_width(),
                height == self.spec_height(),
                y <= height,
                forall|i: int, j: int|
                    self.grid.in_bounds(i, j) && j < y ==> self.simulation_grid.cell(i, j)
                        == next_state(self.grid.cell(i, j), neighbor_count(self.grid, i, j)),
            decreases height - y,
        {
            let mut x: usize = 0;
            while x < width
                invariant
                    self.wf(),
                    self.grid == old(self).grid,
                    self.paused == old(self).paused,
                    width == self.spec_width(),
                    height == self.spec_height(),
                    y < height,
                    x <= width,
                    forall|i: int, j: int|
                        self.grid.in_bounds(i, j) && j < y ==> self.simulation_grid.cell(i, j)
                            == next_state(self.grid.cell(i, j), neighbor_count(self.grid, i, j)),
                    forall|i: int|
                        0 <= i < x ==> self.simulation_grid.cell(i, y as int) == next_state(
                            self.grid.cell(i, y as int),
                            neighbor_count(self.grid, i, y as int),
                        ),
                decreases width - x,
            {
                let is_alive = self.grid.get(x, y);
                let neighbors_count = self.get_neighbors_count(x, y);

                let is_going_to_live = if is_alive {
                    neighbors_count == 2 || neighbors_count == 3
                } else {
                    neighbors_count == 3
                };

                self.simulation_grid.set(x, y, is_going_to_live);
                x += 1;
            }
            y += 1;
        }

        self.apply_simulation_grid();
    }
}

} // verus!
