//! A bounded Game of Life engine: the board graph with its neighbor links,
//! the synchronous rule evaluation and commit, the tick scheduler and the
//! runtime controls (pause, speed).

mod board;
mod control;
mod display;
mod laws;
mod rules;
mod scheduler;

pub use board::{
    committed_state, link_alive, sprite_of, Board, BoardConfig, Bounds, Cell, Direction, Neighbors,
    Transitions,
};
pub use control::{
    action_named, camera_actions, run_after, ui_after, Action, ControlSystem, RunConfig, UiConfig,
    MIN_SPEED, SPEED_STEP,
};
pub use display::{
    glyph_of, CellDisplaySystem, FpsDisplaySystem, FpsUpdate, LoadingState, LoadingStep,
    FPS_REFRESH, LOADING_HOLD,
};
pub use laws::{
    block, lemma_block_still_life, lemma_boundary_absence, lemma_neighbor_symmetry,
    lemma_one_step_per_update, lemma_pause_freezes, lemma_speed_round_trip,
};
pub use rules::{
    decide, generations, life_rule, live_neighbor_count, next_generation, occupied, transition_of,
    CellState, Transition,
};
pub use scheduler::{accumulate, is_due, tick, ticks, CellSystem, Engine};
