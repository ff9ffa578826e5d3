//! Laws about whole runs of the simulation: a sequence of grids, each one
//! step after the last.

use vstd::prelude::*;
use crate::grid::BoolGrid2D;
use crate::laws::{has_only_block, lemma_block_still_life};
use crate::sim::is_step;

verus! {

/// A run of the simulation: consecutive grids are one step apart.
pub open spec fn is_run(gs: Seq<BoolGrid2D>) -> bool {
    forall|i: int| 0 <= i < gs.len() - 1 ==> #[trigger] is_step(gs[i], gs[i + 1])
}

/// The block at position `i` of a run that starts with one, by induction on `i`.
proof fn lemma_block_along_run(gs: Seq<BoolGrid2D>, ox: int, oy: int, i: int)
    requires
        0 <= i < gs.len(),
        0 <= ox,
        0 <= oy,
        ox + 2 <= gs[0].spec_width(),
        oy + 2 <= gs[0].spec_height(),
        has_only_block(gs[0], ox, oy),
        is_run(gs),
    ensures
        gs[i].spec_width() == gs[0].spec_width(),
        gs[i].spec_height() == gs[0].spec_height(),
        has_only_block(gs[i], ox, oy),
    decreases i,
{
    if i > 0 {
        lemma_block_along_run(gs, ox, oy, i - 1);
        let j = i - 1;
        assert(is_step(gs[j], gs[j + 1]));
        lemma_block_still_life(gs[i - 1], gs[i], ox, oy);
    }
}

/// Still-life law for any number of steps: along any run whose first grid
/// holds only the 2x2 block, every grid holds only that block.
pub proof fn lemma_block_still_life_run(gs: Seq<BoolGrid2D>, ox: int, oy: int)
    requires
        gs.len() >= 1,
        0 <= ox,
        0 <= oy,
        ox + 2 <= gs[0].spec_width(),
        oy + 2 <= gs[0].spec_height(),
        has_only_block(gs[0], ox, oy),
        is_run(gs),
    ensures
        forall|i: int| 0 <= i < gs.len() ==> has_only_block(#[trigger] gs[i], ox, oy),
{
    assert forall|i: int| 0 <= i < gs.len() implies has_only_block(#[trigger] gs[i], ox, oy) by {
        lemma_block_along_run(gs, ox, oy, i);
    }
}

} // verus!
