use vstd::prelude::*;

verus! {

/// How much one speed action changes the delay between steps, in
/// microseconds.
pub const SPEED_STEP: u64 = 100_000;

/// The shortest delay between steps, in microseconds.
pub const MIN_SPEED: u64 = 10_000;

/// The runtime controls of the simulation.
#[derive(Debug, Clone, Copy, PartialEq, Eq, Structural)]
pub struct RunConfig {
    pub paused: bool,
    /// Delay between two steps, in microseconds.
    pub speed: u64,
}

/// Settings that only the presentation reads.
#[derive(Debug, Clone, Copy, PartialEq, Eq, Structural)]
pub struct UiConfig {
    pub show_fps: bool,
    pub camera_x: i32,
    pub camera_y: i32,
}

/// The actions that the input layer can report.
#[derive(Debug, Clone, Copy, PartialEq, Eq, Structural)]
pub enum Action {
    IncreaseSpeed,
    DecreaseSpeed,
    TogglePause,
    ToggleFps,
    ScrollLeft,
    ScrollRight,
    ScrollUp,
    ScrollDown,
    ZoomIn,
    ZoomOut,
}

/// The action that a name stands for; `None` for a name that is not one.
pub open spec fn action_named(name: Seq<char>) -> Option<Action> {
    if name == "increase_speed"@ {
        Some(Action::IncreaseSpeed)
    } else if name == "decrease_speed"@ {
        Some(Action::DecreaseSpeed)
    } else if name == "toggle_pause"@ {
        Some(Action::TogglePause)
    } else if name == "toggle_fps"@ {
        Some(Action::ToggleFps)
    } else if name == "scroll_left"@ {
        Some(Action::ScrollLeft)
    } else if name == "scroll_right"@ {
        Some(Action::ScrollRight)
    } else if name == "scroll_up"@ {
        Some(Action::ScrollUp)
    } else if name == "scroll_down"@ {
        Some(Action::ScrollDown)
    } else if name == "zoom_in"@ {
        Some(Action::ZoomIn)
    } else if name == "zoom_out"@ {
        Some(Action::ZoomOut)
    } else {
        None
    }
}

/// Whether two strings hold the same characters.
fn same_text(a: &str, b: &str) -> (r: bool)
    ensures
        r == (a@ == b@),
{
    let a = a.to_owned();
    let b = b.to_owned();
    a.eq(&b)
}

impl Action {
    /// The action named `name`, or `None` where the name is not an action.
    pub fn from_name(name: &str) -> (r: Option<Action>)
        ensures
            r == action_named(name@),
    {
        if same_text(name, "increase_speed") {
            Some(Action::IncreaseSpeed)
        } else if same_text(name, "decrease_speed") {
            Some(Action::DecreaseSpeed)
        } else if same_text(name, "toggle_pause") {
            Some(Action::TogglePause)
        } else if same_text(name, "toggle_fps") {
            Some(Action::ToggleFps)
        } else if same_text(name, "scroll_left") {
            Some(Action::ScrollLeft)
        } else if same_text(name, "scroll_right") {
            Some(Action::ScrollRight)
        } else if same_text(name, "scroll_up") {
            Some(Action::ScrollUp)
        } else if same_text(name, "scroll_down") {
            Some(Action::ScrollDown)
        } else if same_text(name, "zoom_in") {
            Some(Action::ZoomIn)
        } else if same_text(name, "zoom_out") {
            Some(Action::ZoomOut)
        } else {
            None
        }
    }

    /// Whether the action moves or zooms the camera.
    pub open spec fn spec_is_camera(&self) -> bool {
        match self {
            Action::ScrollLeft | Action::ScrollRight | Action::ScrollUp | Action::ScrollDown
            | Action::ZoomIn | Action::ZoomOut => true,
            _ => false,
        }
    }

    /// Whether the action moves or zooms the camera.
    #[verifier::when_used_as_spec(spec_is_camera)]
    pub fn is_camera(&self) -> (r: bool)
        ensures
            r == self.spec_is_camera(),
    {
        match self {
            Action::ScrollLeft | Action::ScrollRight | Action::ScrollUp | Action::ScrollDown
            | Action::ZoomIn | Action::ZoomOut => true,
            _ => false,
        }
    }
}

impl RunConfig {
    /// The controls after `a`. `IncreaseSpeed` shortens the delay by one
    /// step, down to `MIN_SPEED`; `DecreaseSpeed` lengthens it by one step,
    /// up to `u64::MAX`; `TogglePause` flips the pause. Other actions leave
    /// the controls alone.
    pub open spec fn after(self, a: Action) -> RunConfig {
        match a {
            Action::IncreaseSpeed => RunConfig {
                speed: if self.speed >= MIN_SPEED + SPEED_STEP {
                    (self.speed - SPEED_STEP) as u64
                } else {
                    MIN_SPEED
                },
                ..self
            },
            Action::DecreaseSpeed => RunConfig {
                speed: if self.speed + SPEED_STEP <= u64::MAX {
                    (self.speed + SPEED_STEP) as u64
                } else {
                    u64::MAX
                },
                ..self
            },
            Action::TogglePause => RunConfig { paused: !self.paused, ..self },
            _ => self,
        }
    }

    /// Controls that start paused or not, with the given delay raised to
    /// `MIN_SPEED` where it is shorter.
    pub fn new(paused: bool, speed: u64) -> (r: RunConfig)
        ensures
            r.paused == paused,
            r.speed == if speed >= MIN_SPEED {
                speed
            } else {
                MIN_SPEED
            },
    {
        RunConfig { paused, speed: if speed >= MIN_SPEED { speed } else { MIN_SPEED } }
    }

    /// Applies one action.
    pub fn apply(&mut self, a: Action)
        ensures
            *final(self) == old(self).after(a),
    {
        match a {
            Action::IncreaseSpeed => {
                self.speed = if self.speed >= MIN_SPEED + SPEED_STEP {
                    self.speed - SPEED_STEP
                } else {
                    MIN_SPEED
                };
            },
            Action::DecreaseSpeed => {
                self.speed = self.speed.saturating_add(SPEED_STEP);
            },
            Action::TogglePause => {
                self.paused = !self.paused;
            },
            _ => {},
        }
    }
}

impl Default for RunConfig {
    /// Running, at the shortest delay.
    fn default() -> (r: Self)
        ensures
            !r.paused,
            r.speed == MIN_SPEED,
    {
        RunConfig { paused: false, speed: MIN_SPEED }
    }
}

impl UiConfig {
    /// The settings after `a`: `ToggleFps` flips `show_fps`, nothing else
    /// changes them.
    pub open spec fn after(self, a: Action) -> UiConfig {
        match a {
            Action::ToggleFps => UiConfig { show_fps: !self.show_fps, ..self },
            _ => self,
        }
    }

    /// Applies one action.
    pub fn apply(&mut self, a: Action)
        ensures
            *final(self) == old(self).after(a),
    {
        if let Action::ToggleFps = a {
            self.show_fps = !self.show_fps;
        }
    }
}

impl Default for UiConfig {
    /// The counter hidden, the camera at the origin.
    fn default() -> (r: Self)
        ensures
            !r.show_fps,
            r.camera_x == 0,
            r.camera_y == 0,
    {
        UiConfig { show_fps: false, camera_x: 0, camera_y: 0 }
    }
}

/// The controls after the named actions, in order; names that are not
/// actions are skipped.
pub open spec fn run_after(rc: RunConfig, names: Seq<String>) -> RunConfig
    decreases names.len(),
{
    if names.len() == 0 {
        rc
    } else {
        let prev = run_after(rc, names.drop_last());
        match action_named(names.last()@) {
            Some(a) => prev.after(a),
            None => prev,
        }
    }
}

/// The presentation settings after the named actions, in order.
pub open spec fn ui_after(ui: UiConfig, names: Seq<String>) -> UiConfig
    decreases names.len(),
{
    if names.len() == 0 {
        ui
    } else {
        let prev = ui_after(ui, names.drop_last());
        match action_named(names.last()@) {
            Some(a) => prev.after(a),
            None => prev,
        }
    }
}

/// The camera actions among the named actions, in order.
pub open spec fn camera_actions(names: Seq<String>) -> Seq<Action>
    decreases names.len(),
{
    if names.len() == 0 {
        Seq::empty()
    } else {
        let prev = camera_actions(names.drop_last());
        match action_named(names.last()@) {
            Some(a) => if a.spec_is_camera() {
                prev.push(a)
            } else {
                prev
            },
            None => prev,
        }
    }
}

/// Reads the action log from where it stopped last time, applies the
/// actions to the controls, and hands back the camera actions for the
/// presentation to perform.
#[derive(Debug)]
pub struct ControlSystem {
    event_reader: usize,
}

impl ControlSystem {
    /// Where in the log the next read starts.
    pub closed spec fn cursor(&self) -> usize {
        self.event_reader
    }

    /// A dispatcher that starts reading the log at `start`.
    pub fn new(start: usize) -> (r: ControlSystem)
        ensures
            r.cursor() == start,
    {
        ControlSystem { event_reader: start }
    }

    /// Where in the log the next read starts.
    pub fn position(&self) -> (r: usize)
        ensures
            r == self.cursor(),
    {
        self.event_reader
    }

    /// Consumes the names in `events` from the cursor to the end, each once
    /// and in order, and moves the cursor to the end of the log.
    pub fn run(&mut self, run_config: &mut RunConfig, ui_config: &mut UiConfig, events: &Vec<String>) -> (camera: Vec<Action>)
        requires
            old(self).cursor() <= events@.len(),
        ensures
            final(self).cursor() == events@.len(),
            *final(run_config) == run_after(
                *old(run_config),
                events@.subrange(old(self).cursor() as int, events@.len() as int),
            ),
            *final(ui_config) == ui_after(
                *old(ui_config),
                events@.subrange(old(self).cursor() as int, events@.len() as int),
            ),
            camera@ == camera_actions(
                events@.subrange(old(self).cursor() as int, events@.len() as int),
            ),
    {
        let start = self.event_reader;
        let mut camera: Vec<Action> = Vec::new();
        let mut k: usize = start;
        while k < events.len()
            invariant
                start <= k <= events@.len(),
                *run_config == run_after(*old(run_config), events@.subrange(start as int, k as int)),
                *ui_config == ui_after(*old(ui_config), events@.subrange(start as int, k as int)),
                camera@ == camera_actions(events@.subrange(start as int, k as int)),
            decreases events@.len() - k,
        {
            let ghost seen = events@.subrange(start as int, k as int);
            proof {
                assert(events@.subrange(start as int, k + 1).drop_last() == seen);
                assert(events@.subrange(start as int, k + 1).last() == events@[k as int]);
            }
            match Action::from_name(events[k].as_str()) {
                Some(a) => {
                    run_config.apply(a);
                    ui_config.apply(a);
                    if a.is_camera() {
                        camera.push(a);
                    }
                },
                None => {},
            }
            k = k + 1;
        }
        self.event_reader = k;
        camera
    }
}

} // verus!
