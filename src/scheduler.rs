use vstd::prelude::*;

use crate::board::{Board, BoardConfig, Bounds};
use crate::control::{camera_actions, run_after, ui_after, Action, ControlSystem, RunConfig, UiConfig};
use crate::rules::next_generation;

verus! {

/// The accumulator after `elapsed` more microseconds, held at `u64::MAX`.
pub open spec fn accumulate(timer: u64, elapsed: u64) -> u64 {
    if timer + elapsed <= u64::MAX {
        (timer + elapsed) as u64
    } else {
        u64::MAX
    }
}

/// Whether an update with `elapsed` microseconds runs a step.
pub open spec fn is_due(timer: u64, rc: RunConfig, elapsed: u64) -> bool {
    !rc.paused && accumulate(timer, elapsed) >= rc.speed
}

/// One update of the scheduler, on the accumulator and the alive cells.
/// While paused nothing changes, the accumulator included. Otherwise the
/// elapsed time is added; once it reaches the delay, the accumulator goes
/// back to zero and exactly one generation is computed.
pub open spec fn tick(
    timer: u64,
    alive: Set<(int, int)>,
    bounds: Bounds,
    rc: RunConfig,
    elapsed: u64,
) -> (u64, Set<(int, int)>) {
    if rc.paused {
        (timer, alive)
    } else if accumulate(timer, elapsed) >= rc.speed {
        (0, next_generation(alive, bounds))
    } else {
        (accumulate(timer, elapsed), alive)
    }
}

/// A run of updates with the given elapsed times, in order.
pub open spec fn ticks(
    timer: u64,
    alive: Set<(int, int)>,
    bounds: Bounds,
    rc: RunConfig,
    elapsed: Seq<u64>,
) -> (u64, Set<(int, int)>)
    decreases elapsed.len(),
{
    if elapsed.len() == 0 {
        (timer, alive)
    } else {
        let prev = ticks(timer, alive, bounds, rc, elapsed.drop_last());
        tick(prev.0, prev.1, bounds, rc, elapsed.last())
    }
}

/// The tick scheduler: accumulates elapsed time and steps the board when a
/// full delay has passed.
#[derive(Debug)]
pub struct CellSystem {
    timer: u64,
}

impl CellSystem {
    /// Microseconds accumulated toward the next step.
    pub closed spec fn spec_timer(&self) -> u64 {
        self.timer
    }

    /// A scheduler with nothing accumulated.
    pub fn new() -> (r: CellSystem)
        ensures
            r.spec_timer() == 0,
    {
        CellSystem { timer: 0 }
    }

    /// Microseconds accumulated toward the next step.
    pub fn timer(&self) -> (r: u64)
        ensures
            r == self.spec_timer(),
    {
        self.timer
    }

    /// One update with `elapsed` microseconds since the last: at most one
    /// step of `board`, as `tick` says. Returns whether a step ran.
    pub fn run(&mut self, board: &mut Board, run_config: &RunConfig, elapsed: u64) -> (stepped: bool)
        requires
            old(board).wf(),
        ensures
            final(board).wf(),
            final(board).spec_bounds() == old(board).spec_bounds(),
            final(board).neighbors_view() == old(board).neighbors_view(),
            stepped == is_due(old(self).spec_timer(), *run_config, elapsed),
            (final(self).spec_timer(), final(board).alive_cells()) == tick(
                old(self).spec_timer(),
                old(board).alive_cells(),
                old(board).spec_bounds(),
                *run_config,
                elapsed,
            ),
    {
        if run_config.paused {
            return false;
        }
        self.timer = self.timer.saturating_add(elapsed);
        if self.timer >= run_config.speed {
            self.timer = 0;
            board.step();
            true
        } else {
            false
        }
    }
}

impl Default for CellSystem {
    /// Nothing accumulated.
    fn default() -> (r: Self)
        ensures
            r.spec_timer() == 0,
    {
        CellSystem { timer: 0 }
    }
}

/// The whole engine: the board, the controls, the dispatcher with its
/// cursor into the action log, and the scheduler.
#[derive(Debug)]
pub struct Engine {
    pub board: Board,
    pub run_config: RunConfig,
    pub ui_config: UiConfig,
    pub control: ControlSystem,
    pub cells: CellSystem,
}

impl Engine {
    pub open spec fn wf(&self) -> bool {
        self.board.wf()
    }

    /// An engine on a new board, with the given controls, reading the log
    /// from its start.
    pub fn new(config: &BoardConfig, run_config: RunConfig, ui_config: UiConfig) -> (r: Engine)
        requires
            config.spec_bounds().size() <= usize::MAX,
        ensures
            r.wf(),
            r.board.spec_bounds() == config.spec_bounds(),
            r.board.alive_cells() == config.initial_alive(),
            r.run_config == run_config,
            r.ui_config == ui_config,
            r.control.cursor() == 0,
            r.cells.spec_timer() == 0,
    {
        Engine {
            board: Board::new(config),
            run_config,
            ui_config,
            control: ControlSystem::new(0),
            cells: CellSystem::new(),
        }
    }

    /// One update: first the actions logged since the last update change
    /// the controls, then the scheduler decides on the new controls whether
    /// a step runs. Returns the camera actions and whether a step ran.
    pub fn update(&mut self, events: &Vec<String>, elapsed: u64) -> (r: (Vec<Action>, bool))
        requires
            old(self).wf(),
            old(self).control.cursor() <= events@.len(),
        ensures
            final(self).wf(),
            final(self).control.cursor() == events@.len(),
            final(self).board.spec_bounds() == old(self).board.spec_bounds(),
            ({
                let pending = events@.subrange(old(self).control.cursor() as int, events@.len() as int);
                let rc = run_after(old(self).run_config, pending);
                &&& final(self).run_config == rc
                &&& final(self).ui_config == ui_after(old(self).ui_config, pending)
                &&& r.0@ == camera_actions(pending)
                &&& r.1 == is_due(old(self).cells.spec_timer(), rc, elapsed)
                &&& (final(self).cells.spec_timer(), final(self).board.alive_cells()) == tick(
                    old(self).cells.spec_timer(),
                    old(self).board.alive_cells(),
                    old(self).board.spec_bounds(),
                    rc,
                    elapsed,
                )
            }),
    {
        let camera = self.control.run(&mut self.run_config, &mut self.ui_config, events);
        let stepped = self.cells.run(&mut self.board, &self.run_config, elapsed);
        (camera, stepped)
    }
}

} // verus!
