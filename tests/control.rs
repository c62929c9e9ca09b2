use game_of_life::{
    Action, Board, BoardConfig, CellDisplaySystem, CellState, CellSystem, ControlSystem, Engine,
    FpsDisplaySystem, FpsUpdate, LoadingState, LoadingStep, RunConfig, UiConfig, MIN_SPEED,
    SPEED_STEP,
};

fn names(list: &[&str]) -> Vec<String> {
    list.iter().map(|s| s.to_string()).collect()
}

fn glider_board() -> Board {
    let mut m = vec![vec![0u8; 10]; 10];
    for (x, y) in [(1, 0), (2, 1), (0, 2), (1, 2), (2, 2)] {
        m[y][x] = 1;
    }
    Board::new(&BoardConfig { min_x: 0, max_x: 9, min_y: 0, max_y: 9, board: m })
}

fn alive(board: &Board) -> Vec<(i32, i32)> {
    let mut out: Vec<(i32, i32)> = (0..board.len())
        .map(|i| board.cell(i))
        .filter(|c| c.state == CellState::Alive)
        .map(|c| (c.x, c.y))
        .collect();
    out.sort();
    out
}

#[test]
fn action_names() {
    assert_eq!(Action::from_name("increase_speed"), Some(Action::IncreaseSpeed));
    assert_eq!(Action::from_name("decrease_speed"), Some(Action::DecreaseSpeed));
    assert_eq!(Action::from_name("toggle_pause"), Some(Action::TogglePause));
    assert_eq!(Action::from_name("toggle_fps"), Some(Action::ToggleFps));
    assert_eq!(Action::from_name("scroll_left"), Some(Action::ScrollLeft));
    assert_eq!(Action::from_name("scroll_right"), Some(Action::ScrollRight));
    assert_eq!(Action::from_name("scroll_up"), Some(Action::ScrollUp));
    assert_eq!(Action::from_name("scroll_down"), Some(Action::ScrollDown));
    assert_eq!(Action::from_name("zoom_in"), Some(Action::ZoomIn));
    assert_eq!(Action::from_name("zoom_out"), Some(Action::ZoomOut));
    assert_eq!(Action::from_name("jump"), None);
    assert_eq!(Action::from_name(""), None);
    assert_eq!(Action::from_name("Toggle_pause"), None);
    assert!(Action::ZoomIn.is_camera());
    assert!(!Action::TogglePause.is_camera());
}

#[test]
fn speed_round_trip() {
    let mut rc = RunConfig { paused: false, speed: 500_000 };
    rc.apply(Action::IncreaseSpeed);
    assert_eq!(rc.speed, 400_000);
    rc.apply(Action::DecreaseSpeed);
    assert_eq!(rc.speed, 500_000);
    let start = RunConfig { paused: true, speed: MIN_SPEED + SPEED_STEP };
    let mut rc = start;
    rc.apply(Action::IncreaseSpeed);
    rc.apply(Action::DecreaseSpeed);
    assert_eq!(rc, start);
}

#[test]
fn speed_is_held_at_the_floor() {
    let mut rc = RunConfig { paused: false, speed: MIN_SPEED };
    rc.apply(Action::IncreaseSpeed);
    assert_eq!(rc.speed, MIN_SPEED);
    let mut rc = RunConfig { paused: false, speed: 50_000 };
    rc.apply(Action::IncreaseSpeed);
    assert_eq!(rc.speed, MIN_SPEED);
    let mut rc = RunConfig { paused: false, speed: u64::MAX - 5 };
    rc.apply(Action::DecreaseSpeed);
    assert_eq!(rc.speed, u64::MAX);
    assert_eq!(RunConfig::new(true, 0), RunConfig { paused: true, speed: MIN_SPEED });
    assert_eq!(RunConfig::new(false, 300_000).speed, 300_000);
    assert_eq!(RunConfig::default(), RunConfig { paused: false, speed: MIN_SPEED });
}

#[test]
fn toggles() {
    let mut rc = RunConfig { paused: false, speed: 200_000 };
    rc.apply(Action::TogglePause);
    assert!(rc.paused);
    rc.apply(Action::ZoomIn);
    rc.apply(Action::ToggleFps);
    assert_eq!(rc, RunConfig { paused: true, speed: 200_000 });
    let mut ui = UiConfig::default();
    ui.apply(Action::ToggleFps);
    assert!(ui.show_fps);
    ui.apply(Action::TogglePause);
    assert_eq!(ui, UiConfig { show_fps: true, camera_x: 0, camera_y: 0 });
}

#[test]
fn dispatcher_reads_each_event_once() {
    let mut rc = RunConfig { paused: false, speed: 500_000 };
    let mut ui = UiConfig::default();
    let mut control = ControlSystem::new(0);
    let mut log = names(&["increase_speed", "bogus", "toggle_fps", "zoom_in", "increase_speed"]);
    let camera = control.run(&mut rc, &mut ui, &log);
    assert_eq!(camera, vec![Action::ZoomIn]);
    assert_eq!(rc.speed, 300_000);
    assert!(ui.show_fps);
    assert_eq!(control.position(), 5);
    let camera = control.run(&mut rc, &mut ui, &log);
    assert!(camera.is_empty());
    assert_eq!(rc.speed, 300_000);
    assert!(ui.show_fps);
    log.push("toggle_pause".to_string());
    log.push("scroll_left".to_string());
    log.push("decrease_speed".to_string());
    let camera = control.run(&mut rc, &mut ui, &log);
    assert_eq!(camera, vec![Action::ScrollLeft]);
    assert_eq!(rc, RunConfig { paused: true, speed: 400_000 });
    assert_eq!(control.position(), 8);
}

#[test]
fn dispatcher_starts_at_its_cursor() {
    let mut rc = RunConfig { paused: false, speed: 500_000 };
    let mut ui = UiConfig::default();
    let mut control = ControlSystem::new(2);
    let log = names(&["toggle_pause", "toggle_pause", "toggle_pause"]);
    control.run(&mut rc, &mut ui, &log);
    assert!(rc.paused);
}

#[test]
fn scheduler_waits_for_a_full_delay() {
    let mut b = glider_board();
    let start = alive(&b);
    let rc = RunConfig { paused: false, speed: 100_000 };
    let mut cells = CellSystem::new();
    assert!(!cells.run(&mut b, &rc, 40_000));
    assert_eq!(cells.timer(), 40_000);
    assert!(!cells.run(&mut b, &rc, 59_999));
    assert_eq!(cells.timer(), 99_999);
    assert_eq!(alive(&b), start);
    assert!(cells.run(&mut b, &rc, 1));
    assert_eq!(cells.timer(), 0);
    assert_ne!(alive(&b), start);
    assert_eq!(CellSystem::default().timer(), 0);
}

#[test]
fn pause_freezes_state() {
    let mut b = glider_board();
    let start = alive(&b);
    let rc = RunConfig { paused: true, speed: 100_000 };
    let mut cells = CellSystem::new();
    for elapsed in [0u64, 1, 100_000, 5_000_000, u64::MAX] {
        assert!(!cells.run(&mut b, &rc, elapsed));
        assert_eq!(cells.timer(), 0);
        assert_eq!(alive(&b), start);
    }
    let running = RunConfig { paused: false, speed: 100_000 };
    assert!(!cells.run(&mut b, &running, 10));
    assert_eq!(cells.timer(), 10);
}

#[test]
fn one_step_for_three_delays() {
    let mut b = glider_board();
    let mut once = glider_board();
    once.step();
    let rc = RunConfig { paused: false, speed: 100_000 };
    let mut cells = CellSystem::new();
    assert!(cells.run(&mut b, &rc, 300_000));
    assert_eq!(cells.timer(), 0);
    assert_eq!(alive(&b), alive(&once));
}

#[test]
fn timer_saturates() {
    let mut b = glider_board();
    let rc = RunConfig { paused: false, speed: u64::MAX };
    let mut cells = CellSystem::new();
    assert!(!cells.run(&mut b, &rc, u64::MAX - 1));
    assert!(cells.run(&mut b, &rc, 7));
    assert_eq!(cells.timer(), 0);
}

#[test]
fn engine_dispatches_before_the_gate() {
    let mut m = vec![vec![0u8; 5]; 5];
    for (x, y) in [(1, 2), (2, 2), (3, 2)] {
        m[y][x] = 1;
    }
    let config = BoardConfig { min_x: 0, max_x: 4, min_y: 0, max_y: 4, board: m };
    let mut engine = Engine::new(&config, RunConfig { paused: true, speed: 200_000 }, UiConfig::default());
    let mut log: Vec<String> = Vec::new();
    let (camera, stepped) = engine.update(&log, 500_000);
    assert!(camera.is_empty());
    assert!(!stepped);
    log.push("toggle_pause".to_string());
    log.push("zoom_out".to_string());
    let (camera, stepped) = engine.update(&log, 250_000);
    assert_eq!(camera, vec![Action::ZoomOut]);
    assert!(stepped);
    assert!(!engine.run_config.paused);
    assert_eq!(alive(&engine.board), vec![(2, 1), (2, 2), (2, 3)]);
    log.push("toggle_pause".to_string());
    let (_, stepped) = engine.update(&log, 900_000);
    assert!(!stepped);
    assert_eq!(alive(&engine.board), vec![(2, 1), (2, 2), (2, 3)]);
    assert_eq!(engine.control.position(), 3);
}

#[test]
fn cell_glyphs() {
    let config = BoardConfig { min_x: 0, max_x: 1, min_y: 0, max_y: 0, board: vec![vec![0, 1]] };
    let b = Board::new(&config);
    assert_eq!(CellDisplaySystem.run(&b), vec!["-", "#"]);
}

#[test]
fn fps_overlay_follows_setting() {
    let mut fps = FpsDisplaySystem::new();
    assert!(fps.visible());
    assert_eq!(fps.run(true, true, 300_000), FpsUpdate { visibility: None, refresh: false });
    assert_eq!(fps.run(true, true, 200_000), FpsUpdate { visibility: None, refresh: true });
    assert_eq!(fps.run(false, true, 900_000), FpsUpdate { visibility: Some(false), refresh: false });
    assert!(!fps.visible());
    assert_eq!(fps.run(true, false, 900_000), FpsUpdate { visibility: Some(true), refresh: false });
    assert_eq!(fps.run(true, true, 499_999), FpsUpdate { visibility: None, refresh: false });
    assert_eq!(fps.run(true, true, 1), FpsUpdate { visibility: None, refresh: true });
}

#[test]
fn loading_holds_two_seconds() {
    let mut loading = LoadingState::new();
    assert_eq!(loading.update(false, 5_000_000), LoadingStep::Loading);
    assert_eq!(loading.time(), 0);
    assert_eq!(loading.update(true, 1_500_000), LoadingStep::Done);
    assert_eq!(loading.time(), 1_500_000);
    assert_eq!(loading.update(true, 500_000), LoadingStep::Switch);
    assert_eq!(LoadingState::default().time(), 0);
}
