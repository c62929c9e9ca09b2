use vstd::prelude::*;

use crate::board::{Board, Bounds, Direction};
use crate::control::{Action, RunConfig, MIN_SPEED, SPEED_STEP};
use crate::rules::{generations, next_generation};
use crate::scheduler::{tick, ticks};

verus! {

/// Links are symmetric: when cell `j` is cell `i`'s neighbor in direction
/// `d`, cell `i` is cell `j`'s neighbor in the opposite direction.
pub proof fn lemma_neighbor_symmetry(b: &Board, i: int, d: Direction)
    requires
        b.wf(),
        0 <= i < b.cells_view().len(),
        b.neighbors_view()[i].link(d) is Some,
    ensures
        ({
            let j = b.neighbors_view()[i].link(d).unwrap() as int;
            &&& 0 <= j < b.cells_view().len()
            &&& b.neighbors_view()[j].link(d.opposite()) == Some(i as usize)
        }),
{
    assert(b.links_placed(i));
    assert(b.cell_placed(i));
    let c = b.cells_view()[i];
    let x = c.x + d.dx();
    let y = c.y + d.dy();
    b.lemma_cell_at(x, y);
    let j = b.spec_bounds().index_of(x, y);
    assert(b.links_placed(j));
    assert(b.neighbors_view()[j].link(d.opposite()) == b.spec_bounds().link_to(
        x + d.opposite().dx(),
        y + d.opposite().dy(),
    ));
}

/// Links never wrap around the edges: a link that would leave the bounds is
/// absent, and a present link names the cell one step away.
pub proof fn lemma_boundary_absence(b: &Board, i: int, d: Direction)
    requires
        b.wf(),
        0 <= i < b.cells_view().len(),
    ensures
        ({
            let c = b.cells_view()[i];
            let x = c.x + d.dx();
            let y = c.y + d.dy();
            &&& !b.spec_bounds().contains(x, y) ==> b.neighbors_view()[i].link(d) is None
            &&& b.neighbors_view()[i].link(d) matches Some(j) ==> {
                &&& j < b.cells_view().len()
                &&& b.cells_view()[j as int].x == x
                &&& b.cells_view()[j as int].y == y
            }
        }),
{
    assert(b.links_placed(i));
    let c = b.cells_view()[i];
    let x = c.x + d.dx();
    let y = c.y + d.dy();
    if b.spec_bounds().contains(x, y) {
        b.lemma_cell_at(x, y);
    }
}

/// The 2x2 block with top-left corner `(a, c)`.
pub open spec fn block(a: int, c: int) -> Set<(int, int)> {
    Set::new(|p: (int, int)| a <= p.0 <= a + 1 && c <= p.1 <= c + 1)
}

/// A 2x2 block inside the bounds, alone on the board, is still after any
/// number of steps.
pub proof fn lemma_block_still_life(bounds: Bounds, a: int, c: int, n: nat)
    requires
        bounds.contains(a, c),
        bounds.contains(a + 1, c + 1),
    ensures
        generations(block(a, c), bounds, n) == block(a, c),
    decreases n,
{
    if n > 0 {
        lemma_block_still_life(bounds, a, c, (n - 1) as nat);
        assert(next_generation(block(a, c), bounds) =~= block(a, c));
    }
}

/// While paused, no run of updates changes anything, whatever time passes.
pub proof fn lemma_pause_freezes(
    timer: u64,
    alive: Set<(int, int)>,
    bounds: Bounds,
    rc: RunConfig,
    elapsed: Seq<u64>,
)
    requires
        rc.paused,
    ensures
        ticks(timer, alive, bounds, rc, elapsed) == (timer, alive),
    decreases elapsed.len(),
{
    if elapsed.len() > 0 {
        lemma_pause_freezes(timer, alive, bounds, rc, elapsed.drop_last());
    }
}

/// Shortening the delay and then lengthening it gives the delay back, where
/// the first action is not held at the floor.
pub proof fn lemma_speed_round_trip(rc: RunConfig)
    requires
        rc.speed >= MIN_SPEED + SPEED_STEP,
    ensures
        rc.after(Action::IncreaseSpeed).after(Action::DecreaseSpeed) == rc,
{
}

/// An update runs at most one step, however many delays have passed in
/// it: elapsed time of one delay or more gives exactly one generation.
pub proof fn lemma_one_step_per_update(
    timer: u64,
    alive: Set<(int, int)>,
    bounds: Bounds,
    rc: RunConfig,
    elapsed: u64,
)
    requires
        !rc.paused,
        rc.speed <= elapsed,
    ensures
        tick(timer, alive, bounds, rc, elapsed) == (0u64, next_generation(alive, bounds)),
{
}

} // verus!
