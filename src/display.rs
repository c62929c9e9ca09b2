use vstd::prelude::*;

use crate::board::Board;
use crate::rules::CellState;
use crate::scheduler::accumulate;

verus! {

/// How often the frame-rate text is refreshed, in microseconds.
pub const FPS_REFRESH: u64 = 500_000;

/// How long the loading screen stays after loading is done, in
/// microseconds.
pub const LOADING_HOLD: u64 = 2_000_000;

/// The text that shows a cell: `#` alive, `-` dead.
pub open spec fn glyph_of(state: CellState) -> Seq<char> {
    match state {
        CellState::Alive => "#"@,
        CellState::Dead => "-"@,
    }
}

/// Shows each cell as text.
#[derive(Debug, Clone, Copy)]
pub struct CellDisplaySystem;

impl CellDisplaySystem {
    /// The text of each cell, by id.
    pub fn run(&self, board: &Board) -> (texts: Vec<&'static str>)
        ensures
            texts@.len() == board.cells_view().len(),
            forall|i: int|
                0 <= i < texts@.len() ==> (#[trigger] texts@[i])@ == glyph_of(
                    board.cells_view()[i].state,
                ),
    {
        let mut texts: Vec<&'static str> = Vec::new();
        let mut i: usize = 0;
        while i < board.len()
            invariant
                i <= board.cells_view().len(),
                texts@.len() == i,
                forall|j: int|
                    0 <= j < i ==> (#[trigger] texts@[j])@ == glyph_of(board.cells_view()[j].state),
            decreases board.cells_view().len() - i,
        {
            let text = match board.cell(i).state {
                CellState::Alive => "#",
                CellState::Dead => "-",
            };
            texts.push(text);
            i = i + 1;
        }
        texts
    }
}

/// What the frame-rate overlay does after one update.
#[derive(Debug, Clone, Copy, PartialEq, Eq, Structural)]
pub struct FpsUpdate {
    /// `Some(v)` where the overlay is to be shown (`true`) or hidden
    /// (`false`); `None` where it stays as it is.
    pub visibility: Option<bool>,
    /// Whether the text is to be refreshed with the current rate.
    pub refresh: bool,
}

/// Follows the `show_fps` setting and refreshes the frame-rate text every
/// `FPS_REFRESH` while it is shown.
#[derive(Debug)]
pub struct FpsDisplaySystem {
    timer: u64,
    visible: bool,
}

impl FpsDisplaySystem {
    pub closed spec fn spec_timer(&self) -> u64 {
        self.timer
    }

    pub closed spec fn spec_visible(&self) -> bool {
        self.visible
    }

    /// Shown, with nothing accumulated.
    pub fn new() -> (r: FpsDisplaySystem)
        ensures
            r.spec_timer() == 0,
            r.spec_visible(),
    {
        FpsDisplaySystem { timer: 0, visible: true }
    }

    /// Whether the overlay is shown.
    pub fn visible(&self) -> (r: bool)
        ensures
            r == self.spec_visible(),
    {
        self.visible
    }

    /// One update: `show_fps` is the setting, `has_text` whether the text
    /// exists, `elapsed` the microseconds since the last update.
    pub fn run(&mut self, show_fps: bool, has_text: bool, elapsed: u64) -> (r: FpsUpdate)
        ensures
            final(self).spec_visible() == show_fps,
            r.visibility == if old(self).spec_visible() != show_fps {
                Some(show_fps)
            } else {
                None
            },
            ({
                let t = accumulate(old(self).spec_timer(), elapsed);
                if show_fps && has_text {
                    &&& r.refresh == (t >= FPS_REFRESH)
                    &&& final(self).spec_timer() == if t >= FPS_REFRESH {
                        0
                    } else {
                        t
                    }
                } else {
                    !r.refresh && final(self).spec_timer() == old(self).spec_timer()
                }
            }),
    {
        let visibility = if self.visible != show_fps {
            self.visible = show_fps;
            Some(show_fps)
        } else {
            None
        };
        let mut refresh = false;
        if self.visible && has_text {
            self.timer = self.timer.saturating_add(elapsed);
            if self.timer >= FPS_REFRESH {
                self.timer = 0;
                refresh = true;
            }
        }
        FpsUpdate { visibility, refresh }
    }
}

/// Where the loading screen stands after one update.
#[derive(Debug, Clone, Copy, PartialEq, Eq, Structural)]
pub enum LoadingStep {
    /// Assets are still loading.
    Loading,
    /// Loading is done; the screen stays a little longer.
    Done,
    /// Time to go on to the game.
    Switch,
}

/// The loading screen's clock: it starts once loading is done, and the
/// game begins `LOADING_HOLD` later.
#[derive(Debug)]
pub struct LoadingState {
    time: u64,
}

impl LoadingState {
    pub closed spec fn spec_time(&self) -> u64 {
        self.time
    }

    /// A clock at zero.
    pub fn new() -> (r: LoadingState)
        ensures
            r.spec_time() == 0,
    {
        LoadingState { time: 0 }
    }

    /// Microseconds since loading was done.
    pub fn time(&self) -> (r: u64)
        ensures
            r == self.spec_time(),
    {
        self.time
    }

    /// One update: `complete` tells whether every asset has loaded,
    /// `elapsed` the microseconds since the last update.
    pub fn update(&mut self, complete: bool, elapsed: u64) -> (r: LoadingStep)
        ensures
            !complete ==> r == LoadingStep::Loading && final(self).spec_time()
                == old(self).spec_time(),
            complete ==> {
                let t = accumulate(old(self).spec_time(), elapsed);
                &&& final(self).spec_time() == t
                &&& r == if t >= LOADING_HOLD {
                    LoadingStep::Switch
                } else {
                    LoadingStep::Done
                }
            },
    {
        if !complete {
            return LoadingStep::Loading;
        }
        self.time = self.time.saturating_add(elapsed);
        if self.time >= LOADING_HOLD {
            LoadingStep::Switch
        } else {
            LoadingStep::Done
        }
    }
}

impl Default for LoadingState {
    /// A clock at zero.
    fn default() -> (r: Self)
        ensures
            r.spec_time() == 0,
    {
        LoadingState { time: 0 }
    }
}

} // verus!
