use vstd::prelude::*;

use crate::board::Bounds;

verus! {

/// Whether a cell is alive or dead.
#[derive(Debug, Clone, Copy, PartialEq, Eq, Structural)]
pub enum CellState {
    Alive,
    Dead,
}

/// What happens to one cell in one step.
#[derive(Debug, Clone, Copy, PartialEq, Eq, Structural)]
pub enum Transition {
    Kill,
    Revive,
    Keep,
}

/// Conway's rule: is a cell alive in the next generation, given whether it
/// is alive now and how many of its neighbors are alive now.
pub open spec fn life_rule(alive: bool, alive_neighbors: int) -> bool {
    if alive {
        alive_neighbors == 2 || alive_neighbors == 3
    } else {
        alive_neighbors == 3
    }
}

/// The transition that the rule assigns to a cell.
pub open spec fn transition_of(state: CellState, alive_neighbors: int) -> Transition {
    match state {
        CellState::Dead => if alive_neighbors == 3 {
            Transition::Revive
        } else {
            Transition::Keep
        },
        CellState::Alive => if alive_neighbors < 2 || alive_neighbors > 3 {
            Transition::Kill
        } else {
            Transition::Keep
        },
    }
}

/// Decides the transition of one cell from its own state and the number of
/// its alive neighbors.
pub fn decide(state: CellState, alive_neighbors: usize) -> (t: Transition)
    ensures
        t == transition_of(state, alive_neighbors as int),
{
    match state {
        CellState::Dead => if alive_neighbors == 3 {
            Transition::Revive
        } else {
            Transition::Keep
        },
        CellState::Alive => if alive_neighbors < 2 || alive_neighbors > 3 {
            Transition::Kill
        } else {
            Transition::Keep
        },
    }
}

/// 1 where `(x, y)` is alive, else 0.
pub open spec fn occupied(alive: Set<(int, int)>, x: int, y: int) -> int {
    if alive.contains((x, y)) {
        1
    } else {
        0
    }
}

/// The number of alive cells among the eight around `(x, y)`, taken in the
/// order N, NE, E, SE, S, SW, W, NW (north is `y - 1`).
pub open spec fn live_neighbor_count(alive: Set<(int, int)>, x: int, y: int) -> int {
    occupied(alive, x, y - 1) + occupied(alive, x + 1, y - 1) + occupied(alive, x + 1, y)
        + occupied(alive, x + 1, y + 1) + occupied(alive, x, y + 1) + occupied(alive, x - 1, y + 1)
        + occupied(alive, x - 1, y) + occupied(alive, x - 1, y - 1)
}

/// The generation after `alive` on a board with the given bounds: each
/// cell inside follows the rule, read on `alive` alone, and nothing outside
/// is alive.
pub open spec fn next_generation(alive: Set<(int, int)>, bounds: Bounds) -> Set<(int, int)> {
    Set::new(
        |p: (int, int)|
            bounds.contains(p.0, p.1) && life_rule(
                alive.contains(p),
                live_neighbor_count(alive, p.0, p.1),
            ),
    )
}

/// The generation `n` steps after `alive`.
pub open spec fn generations(alive: Set<(int, int)>, bounds: Bounds, n: nat) -> Set<(int, int)>
    decreases n,
{
    if n == 0 {
        alive
    } else {
        next_generation(generations(alive, bounds, (n - 1) as nat), bounds)
    }
}

} // verus!
