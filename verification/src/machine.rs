//! The layer state machine: tap-hold leader, pointer motion with ramp and
//! multiplier, the grid layer, drag tracking and pause.
use vstd::prelude::*;
use crate::keys::{
    Action, Direction, KeyEvent, KeyMap, Layer, LogicalKey, MotionConfig, Outcome, Phase,
    default_bindings, spec_default_binding, LEADER_HOLD_MS, MAX_SPEED_PX_S, MULT_MAX_PCT,
    MULT_MIN_PCT, RAMP_MS, START_SPEED_PX_S,
};
use crate::grid::{
    GridConfig, GridNavAction, GridNavigator, GridState, NavView, OverlayFrame, Rect, FrameView,
    config_ok, fresh_nav, lemma_press_keeps_wf, opt_frame_view,
};

verus! {

/// The direction a motion action drives, if it is one.
pub open spec fn direction_of(a: Action) -> Option<Direction> {
    match a {
        Action::MoveLeft => Some(Direction::Left),
        Action::MoveRight => Some(Direction::Right),
        Action::MoveUp => Some(Direction::Up),
        Action::MoveDown => Some(Direction::Down),
        _ => None,
    }
}

fn direction_of_exec(a: Action) -> (d: Option<Direction>)
    ensures
        d == direction_of(a),
{
    match a {
        Action::MoveLeft => Some(Direction::Left),
        Action::MoveRight => Some(Direction::Right),
        Action::MoveUp => Some(Direction::Up),
        Action::MoveDown => Some(Direction::Down),
        _ => None,
    }
}

/// Pointer speed `elapsed_ms` into a hold: a linear ramp from the start speed
/// to the max speed over `ramp_ms`, flat afterwards.
pub open spec fn ramp_speed(m: MotionConfig, elapsed_ms: int) -> int {
    let e = if elapsed_ms < m.ramp_ms { elapsed_ms } else { m.ramp_ms as int };
    if m.ramp_ms == 0 {
        m.max_speed_px_s as int
    } else if m.start_speed_px_s <= m.max_speed_px_s {
        m.start_speed_px_s + (m.max_speed_px_s - m.start_speed_px_s) * e / (m.ramp_ms as int)
    } else {
        m.start_speed_px_s - (m.start_speed_px_s - m.max_speed_px_s) * e / (m.ramp_ms as int)
    }
}

/// `v` clamped to the `u64` range from above.
pub open spec fn cap_u64(v: int) -> u64 {
    if v > u64::MAX { u64::MAX } else { v as u64 }
}

/// One tick's displacement for a held direction moving `px` pixels.
pub open spec fn displacement(d: Direction, px: i64) -> (i64, i64) {
    match d {
        Direction::Left => ((-px) as i64, 0i64),
        Direction::Right => (px, 0i64),
        Direction::Up => (0i64, (-px) as i64),
        Direction::Down => (0i64, px),
    }
}

/// The machine's state as the contracts see it.
pub struct MachineView {
    pub layer: Layer,
    pub leader: LogicalKey,
    pub bindings: KeyMap<Action>,
    pub motion: MotionConfig,
    pub hold_ms: u64,
    /// When the leader went down, while it is held in the initial layer.
    pub pressed_at: Option<u64>,
    /// Held direction keys, oldest first, with their sub-pixel carry in
    /// thousandths of a pixel.
    pub held: Seq<(LogicalKey, Direction, u64)>,
    pub ramp_elapsed_ms: u64,
    pub mult_pct: u64,
    pub grid: Option<NavView>,
    /// The left button is held down by a grid drag.
    pub drag: bool,
    pub paused: bool,
    pub invalid_presses: u64,
}

/// Held entries for keys other than `k`.
pub open spec fn other_key(k: LogicalKey) -> spec_fn((LogicalKey, Direction, u64)) -> bool {
    |e: (LogicalKey, Direction, u64)| e.0 != k
}

/// Pass-through outcome.
pub open spec fn pass() -> Outcome {
    Outcome { consumed: false, action: None }
}

/// Consumed outcome with an action.
pub open spec fn eat(a: Option<Action>) -> Outcome {
    Outcome { consumed: true, action: a }
}

impl MachineView {
    /// Speed the pointer moves at now: zero with no direction held.
    pub open spec fn speed(self) -> u64 {
        if self.held.len() == 0 {
            0
        } else {
            cap_u64(ramp_speed(self.motion, self.ramp_elapsed_ms as int) * self.mult_pct / 100)
        }
    }

    /// Whether the grid navigator is showing.
    pub open spec fn grid_active(self) -> bool {
        match self.grid {
            Some(n) => !(n.state is Inactive),
            None => false,
        }
    }

    /// The overlay to show: the navigator's frame while the grid layer is up.
    pub open spec fn overlay(self) -> Option<FrameView> {
        if self.layer == Layer::Grid {
            match self.grid {
                Some(n) => n.frame(),
                None => None,
            }
        } else {
            None
        }
    }

    /// What holds between any two calls.
    pub open spec fn inv(self) -> bool {
        &&& self.paused ==> self.layer == Layer::Initial && self.pressed_at is None
        &&& self.layer == Layer::Initial ==> !self.drag
        &&& (self.layer == Layer::Grid <==> self.grid_active())
        &&& match self.grid {
            Some(n) => n.wf(),
            None => true,
        }
        &&& MULT_MIN_PCT <= self.mult_pct <= MULT_MAX_PCT
        &&& forall|i: int| 0 <= i < self.held.len() ==> (#[trigger] self.held[i]).2 < 1000
    }

    /// The leader has been held long enough: the pointer layer engages.
    pub open spec fn polled(self, now_ms: u64) -> MachineView {
        match self.pressed_at {
            Some(start) => if !self.paused && self.layer == Layer::Initial
                && (if now_ms >= start { now_ms - start } else { 0 }) >= self.hold_ms {
                MachineView { layer: Layer::Mouse, ..self }
            } else {
                self
            },
            None => self,
        }
    }

    /// Back to the initial layer with motion, multiplier and grid reset; a
    /// held drag button is released.
    pub open spec fn exited(self) -> (MachineView, Option<Action>) {
        (
            MachineView {
                layer: Layer::Initial,
                pressed_at: None,
                held: Seq::empty(),
                ramp_elapsed_ms: 0,
                mult_pct: 100,
                grid: match self.grid {
                    Some(n) => Some(n.deactivated()),
                    None => None,
                },
                drag: false,
                ..self
            },
            if self.drag { Some(Action::DragEnd) } else { None },
        )
    }

    /// A bound key pressed in the pointer layer.
    pub open spec fn mouse_press(self, k: LogicalKey, a: Action) -> (MachineView, Outcome) {
        match direction_of(a) {
            Some(d) => {
                let held = if exists|i: int| 0 <= i < self.held.len() && (#[trigger] self.held[i]).0 == k {
                    self.held
                } else {
                    self.held.push((k, d, 0u64))
                };
                (MachineView { held, ..self }, eat(Some(a)))
            }
            None => {
                if a == Action::SpeedUp {
                    let m = if self.mult_pct * 2 < MULT_MAX_PCT { (self.mult_pct * 2) as u64 } else { MULT_MAX_PCT };
                    (MachineView { mult_pct: m, ..self }, eat(Some(a)))
                } else if a == Action::SpeedDown {
                    let m = if self.mult_pct / 2 > MULT_MIN_PCT { (self.mult_pct / 2) as u64 } else { MULT_MIN_PCT };
                    (MachineView { mult_pct: m, ..self }, eat(Some(a)))
                } else if a == Action::EnterGrid && self.grid is Some {
                    (
                        MachineView {
                            layer: Layer::Grid,
                            grid: Some(self.grid->0.activated()),
                            held: Seq::empty(),
                            ramp_elapsed_ms: 0,
                            ..self
                        },
                        eat(None),
                    )
                } else {
                    (self, eat(Some(a)))
                }
            }
        }
    }

    /// A bound key released in the pointer layer: its direction stops; the
    /// ramp restarts once no direction is held.
    pub open spec fn mouse_release(self, k: LogicalKey) -> MachineView {
        let held = self.held.filter(other_key(k));
        MachineView { held, ramp_elapsed_ms: if held.len() == 0 { 0 } else { self.ramp_elapsed_ms }, ..self }
    }

    /// Applies a navigator step: its new state, and what the pointer does.
    pub open spec fn grid_step(self, n: NavView, a: Option<GridNavAction>, is_press: bool) -> (MachineView, Outcome) {
        let v = MachineView {
            grid: Some(n),
            layer: if n.state is Inactive { Layer::Mouse } else { Layer::Grid },
            ..self
        };
        match a {
            None => (
                if is_press {
                    MachineView { invalid_presses: cap_u64(self.invalid_presses + 1), ..v }
                } else {
                    v
                },
                eat(None),
            ),
            Some(GridNavAction::HideOverlay) => {
                let (e, act) = v.exited();
                (e, eat(act))
            }
            Some(GridNavAction::MoveCursorTo(x, y)) => (v, eat(Some(Action::MoveTo(x, y)))),
            Some(GridNavAction::Nudge(_, _)) => (
                v,
                eat(
                    match n.state {
                        GridState::Nudging { current_pos, .. } => Some(Action::MoveTo(current_pos.0, current_pos.1)),
                        _ => None,
                    },
                ),
            ),
            Some(GridNavAction::ClickAt(x, y)) => (v, eat(Some(Action::ClickAt(x, y)))),
            Some(GridNavAction::StartDrag(x, y)) => (
                MachineView { drag: true, ..v },
                eat(Some(if self.drag { Action::MoveTo(x, y) } else { Action::DragTo(x, y) })),
            ),
            Some(_) => (v, eat(None)),
        }
    }

    /// One key event after the leader timer has been polled.
    pub open spec fn handle(self, e: KeyEvent, now_ms: u64) -> (MachineView, Outcome) {
        let press = e.phase == Phase::Press;
        if self.paused {
            (self, pass())
        } else {
            match self.layer {
                Layer::Initial => if e.key == self.leader {
                    (MachineView { pressed_at: if press { Some(now_ms) } else { None }, ..self }, eat(None))
                } else {
                    (self, pass())
                },
                Layer::Mouse => if e.key == self.leader {
                    if press {
                        (self, eat(None))
                    } else {
                        let (v, a) = self.exited();
                        (v, eat(a))
                    }
                } else if e.key == LogicalKey::Esc && press {
                    let (v, a) = self.exited();
                    (v, eat(a))
                } else {
                    match self.bindings.spec_get(e.key) {
                        None => (self, pass()),
                        Some(a) => if press {
                            self.mouse_press(e.key, a)
                        } else {
                            (self.mouse_release(e.key), eat(None))
                        },
                    }
                },
                Layer::Grid => if e.key == self.leader {
                    if press {
                        (self, eat(None))
                    } else {
                        let (v, a) = self.exited();
                        (v, eat(a))
                    }
                } else {
                    match self.grid {
                        Some(n) => if press {
                            self.grid_step(n.press(e.key).0, n.press(e.key).1, true)
                        } else {
                            self.grid_step(n.release(e.key).0, n.release(e.key).1, false)
                        },
                        None => (self, eat(None)),
                    }
                },
            }
        }
    }

    /// One key event: the leader timer is polled first.
    pub open spec fn step(self, e: KeyEvent, now_ms: u64) -> (MachineView, Outcome) {
        self.polled(now_ms).handle(e, now_ms)
    }

    /// Pixels the held entry `e` moves in a tick of `dt_ms` at `speed`, and
    /// its new carry.
    pub open spec fn advance(e: (LogicalKey, Direction, u64), speed: u64, dt_ms: u64) -> (i64, u64) {
        let acc = e.2 + speed * dt_ms;
        (if acc / 1000 > i64::MAX { i64::MAX } else { (acc / 1000) as i64 }, (acc % 1000) as u64)
    }

    /// One motion tick: one displacement per held direction, in hold order.
    pub open spec fn ticked(self, dt_ms: u64) -> (MachineView, Seq<(i64, i64)>) {
        if self.held.len() == 0 {
            (self, Seq::empty())
        } else {
            let speed = self.speed();
            let ramp = if self.ramp_elapsed_ms + dt_ms < self.motion.ramp_ms {
                (self.ramp_elapsed_ms + dt_ms) as u64
            } else {
                self.motion.ramp_ms
            };
            (
                MachineView {
                    ramp_elapsed_ms: ramp,
                    held: self.held.map_values(
                        |e: (LogicalKey, Direction, u64)| (e.0, e.1, MachineView::advance(e, speed, dt_ms).1),
                    ),
                    ..self
                },
                self.held.map_values(
                    |e: (LogicalKey, Direction, u64)| displacement(e.1, MachineView::advance(e, speed, dt_ms).0),
                ),
            )
        }
    }
}


/// A machine just built: initial layer, nothing held, no grid.
pub open spec fn fresh_machine(leader: LogicalKey, bindings: KeyMap<Action>, motion: MotionConfig) -> MachineView {
    MachineView {
        layer: Layer::Initial,
        leader,
        bindings,
        motion,
        hold_ms: LEADER_HOLD_MS,
        pressed_at: None,
        held: Seq::empty(),
        ramp_elapsed_ms: 0,
        mult_pct: 100,
        grid: None,
        drag: false,
        paused: false,
        invalid_presses: 0,
    }
}

/// The factory motion profile.
pub open spec fn default_motion() -> MotionConfig {
    MotionConfig { start_speed_px_s: START_SPEED_PX_S, max_speed_px_s: MAX_SPEED_PX_S, ramp_ms: RAMP_MS }
}

pub open spec fn nav_view(g: Option<GridNavigator>) -> Option<NavView> {
    match g {
        Some(n) => Some(n@),
        None => None,
    }
}

/// The tap-hold layer machine.
#[derive(Debug)]
pub struct StateMachine {
    layer: Layer,
    leader: LogicalKey,
    bindings: KeyMap<Action>,
    motion: MotionConfig,
    hold_ms: u64,
    leader_pressed_at: Option<u64>,
    held: Vec<(LogicalKey, Direction, u64)>,
    ramp_elapsed_ms: u64,
    mult_pct: u64,
    grid: Option<GridNavigator>,
    drag_held: bool,
    paused: bool,
    invalid_presses: u64,
}

impl View for StateMachine {
    type V = MachineView;

    closed spec fn view(&self) -> MachineView {
        MachineView {
            layer: self.layer,
            leader: self.leader,
            bindings: self.bindings,
            motion: self.motion,
            hold_ms: self.hold_ms,
            pressed_at: self.leader_pressed_at,
            held: self.held@,
            ramp_elapsed_ms: self.ramp_elapsed_ms,
            mult_pct: self.mult_pct,
            grid: nav_view(self.grid),
            drag: self.drag_held,
            paused: self.paused,
            invalid_presses: self.invalid_presses,
        }
    }
}

fn ramp_speed_exec(m: &MotionConfig, elapsed_ms: u64) -> (s: u64)
    ensures
        s == ramp_speed(*m, elapsed_ms as int),
{
    if m.ramp_ms == 0 {
        return m.max_speed_px_s;
    }
    let e: u64 = if elapsed_ms < m.ramp_ms { elapsed_ms } else { m.ramp_ms };
    if m.start_speed_px_s <= m.max_speed_px_s {
        let diff = m.max_speed_px_s - m.start_speed_px_s;
        proof {
            assert(diff * e <= diff * m.ramp_ms) by (nonlinear_arith)
                requires
                    e <= m.ramp_ms,
            ;
            assert((diff * e) / (m.ramp_ms as int) <= diff) by (nonlinear_arith)
                requires
                    diff * e <= diff * m.ramp_ms,
                    m.ramp_ms > 0,
                    diff >= 0,
                    e >= 0,
            ;
            assert(diff * e <= 0xffff_ffff_ffff_ffff * 0xffff_ffff_ffff_ffff) by (nonlinear_arith)
                requires
                    diff <= 0xffff_ffff_ffff_ffff,
                    e <= 0xffff_ffff_ffff_ffff,
                    diff >= 0,
                    e >= 0,
            ;
        }
        let d = (diff as u128 * e as u128) / (m.ramp_ms as u128);
        m.start_speed_px_s + d as u64
    } else {
        let diff = m.start_speed_px_s - m.max_speed_px_s;
        proof {
            assert(diff * e <= diff * m.ramp_ms) by (nonlinear_arith)
                requires
                    e <= m.ramp_ms,
            ;
            assert((diff * e) / (m.ramp_ms as int) <= diff) by (nonlinear_arith)
                requires
                    diff * e <= diff * m.ramp_ms,
                    m.ramp_ms > 0,
                    diff >= 0,
                    e >= 0,
            ;
            assert(diff * e <= 0xffff_ffff_ffff_ffff * 0xffff_ffff_ffff_ffff) by (nonlinear_arith)
                requires
                    diff <= 0xffff_ffff_ffff_ffff,
                    e <= 0xffff_ffff_ffff_ffff,
                    diff >= 0,
                    e >= 0,
            ;
        }
        let d = (diff as u128 * e as u128) / (m.ramp_ms as u128);
        m.start_speed_px_s - d as u64
    }
}

impl StateMachine {
    fn build(leader: LogicalKey, bindings: KeyMap<Action>, motion: MotionConfig) -> (sm: Self)
        ensures
            sm@ == fresh_machine(leader, bindings, motion),
            sm@.inv(),
    {
        let sm = StateMachine {
            layer: Layer::Initial,
            leader,
            bindings,
            motion,
            hold_ms: LEADER_HOLD_MS,
            leader_pressed_at: None,
            held: Vec::new(),
            ramp_elapsed_ms: 0,
            mult_pct: 100,
            grid: None,
            drag_held: false,
            paused: false,
            invalid_presses: 0,
        };
        proof {
            assert(sm@.held =~= Seq::<(LogicalKey, Direction, u64)>::empty());
        }
        sm
    }

    /// CapsLock leader, factory bindings and motion profile.
    pub fn new() -> (sm: Self)
        ensures
            sm@ == fresh_machine(LogicalKey::CapsLock, sm@.bindings, default_motion()),
            forall|k: LogicalKey| sm@.bindings.spec_get(k) == spec_default_binding(k),
            sm@.inv(),
    {
        Self::build(LogicalKey::CapsLock, default_bindings(), MotionConfig::default())
    }

    pub fn with_config(leader: LogicalKey, bindings: KeyMap<Action>, motion: MotionConfig) -> (sm: Self)
        ensures
            sm@ == fresh_machine(leader, bindings, motion),
            sm@.inv(),
    {
        Self::build(leader, bindings, motion)
    }

    /// Swaps the leader, bindings and motion profile; nothing else changes.
    pub fn reconfigure(&mut self, leader: LogicalKey, bindings: KeyMap<Action>, motion: MotionConfig)
        ensures
            final(self)@ == (MachineView { leader, bindings, motion, ..old(self)@ }),
    {
        self.leader = leader;
        self.bindings = bindings;
        self.motion = motion;
    }

    /// Leader hold threshold before the pointer layer engages.
    pub fn set_hold_ms(&mut self, hold_ms: u64)
        ensures
            final(self)@ == (MachineView { hold_ms, ..old(self)@ }),
    {
        self.hold_ms = hold_ms;
    }

    pub fn hold_ms(&self) -> (ms: u64)
        ensures
            ms == self@.hold_ms,
    {
        self.hold_ms
    }

    pub fn layer(&self) -> (l: Layer)
        ensures
            l == self@.layer,
    {
        self.layer
    }

    pub fn is_paused(&self) -> (p: bool)
        ensures
            p == self@.paused,
    {
        self.paused
    }

    /// The leader is down and its hold is being timed or has engaged.
    pub fn is_leader_armed(&self) -> (a: bool)
        ensures
            a == self@.pressed_at is Some,
    {
        self.leader_pressed_at.is_some()
    }

    /// How long the leader has been held at `now_ms`.
    pub fn leader_hold_ms(&self, now_ms: u64) -> (ms: Option<u64>)
        ensures
            ms == match self@.pressed_at {
                Some(start) => Some(if now_ms >= start { (now_ms - start) as u64 } else { 0u64 }),
                None => None::<u64>,
            },
    {
        match self.leader_pressed_at {
            Some(start) => Some(now_ms.saturating_sub(start)),
            None => None,
        }
    }

    /// Grid key presses that chose nothing.
    pub fn invalid_presses(&self) -> (n: u64)
        ensures
            n == self@.invalid_presses,
    {
        self.invalid_presses
    }

    /// Promotes a leader held for `hold_ms` into the pointer layer.
    pub fn poll(&mut self, now_ms: u64)
        ensures
            final(self)@ == old(self)@.polled(now_ms),
    {
        if let Some(start) = self.leader_pressed_at {
            if !self.paused && self.layer == Layer::Initial && now_ms.saturating_sub(start) >= self.hold_ms {
                self.layer = Layer::Mouse;
            }
        }
    }

    fn exit_to_initial(&mut self) -> (a: Option<Action>)
        ensures
            final(self)@ == old(self)@.exited().0,
            a == old(self)@.exited().1,
    {
        let a = if self.drag_held { Some(Action::DragEnd) } else { None };
        self.leader_pressed_at = None;
        self.held = Vec::new();
        self.ramp_elapsed_ms = 0;
        self.mult_pct = 100;
        self.layer = Layer::Initial;
        self.drag_held = false;
        let g = self.grid.take();
        match g {
            Some(mut nav) => {
                nav.deactivate();
                self.grid = Some(nav);
            }
            None => {}
        }
        proof {
            assert(self@.held =~= Seq::<(LogicalKey, Direction, u64)>::empty());
        }
        a
    }

    /// Ends capture: back to the initial layer, grid hidden, a held drag
    /// button released (the returned `DragEnd`).
    pub fn force_exit(&mut self) -> (a: Option<Action>)
        ensures
            final(self)@ == old(self)@.exited().0,
            a == old(self)@.exited().1,
    {
        self.exit_to_initial()
    }

    /// Pausing ends capture first; resuming leaves the initial layer waiting
    /// for the leader again.
    pub fn set_paused(&mut self, paused: bool) -> (a: Option<Action>)
        ensures
            paused ==> final(self)@ == (MachineView { paused: true, ..old(self)@.exited().0 }),
            paused ==> a == old(self)@.exited().1,
            !paused ==> final(self)@ == (MachineView { paused: false, ..old(self)@ }),
            !paused ==> a is None,
    {
        if paused {
            let a = self.exit_to_initial();
            self.paused = true;
            a
        } else {
            self.paused = false;
            None
        }
    }
}


impl StateMachine {
    /// Pointer speed now, in pixels per second; zero with no direction held.
    pub fn current_speed_px_s(&self) -> (v: u64)
        ensures
            v == self@.speed(),
    {
        if self.held.len() == 0 {
            return 0;
        }
        let r = ramp_speed_exec(&self.motion, self.ramp_elapsed_ms);
        proof {
            assert(r * self.mult_pct <= 0xffff_ffff_ffff_ffff * 0xffff_ffff_ffff_ffff) by (nonlinear_arith)
                requires
                    r <= 0xffff_ffff_ffff_ffff,
                    self.mult_pct <= 0xffff_ffff_ffff_ffff,
            ;
        }
        let v: u128 = r as u128 * self.mult_pct as u128 / 100;
        if v > u64::MAX as u128 {
            u64::MAX
        } else {
            v as u64
        }
    }

    /// Speed of the factory ramp `elapsed_ms` into a hold.
    pub fn speed_px_s_at(elapsed_ms: u64) -> (v: u64)
        ensures
            v == ramp_speed(default_motion(), elapsed_ms as int),
    {
        ramp_speed_exec(&MotionConfig::default(), elapsed_ms)
    }

    fn held_index(&self, k: LogicalKey) -> (r: bool)
        ensures
            r == exists|i: int| 0 <= i < self@.held.len() && (#[trigger] self@.held[i]).0 == k,
    {
        let mut i: usize = 0;
        while i < self.held.len()
            invariant
                i <= self.held.len(),
                forall|j: int| 0 <= j < i ==> (#[trigger] self@.held[j]).0 != k,
            decreases self.held.len() - i,
        {
            if self.held[i].0 == k {
                return true;
            }
            i = i + 1;
        }
        false
    }

    fn mouse_press(&mut self, k: LogicalKey, a: Action) -> (o: Outcome)
        requires
            old(self)@.inv(),
            old(self)@.layer == Layer::Mouse,
        ensures
            final(self)@ == old(self)@.mouse_press(k, a).0,
            o == old(self)@.mouse_press(k, a).1,
    {
        match direction_of_exec(a) {
            Some(d) => {
                if !self.held_index(k) {
                    self.held.push((k, d, 0));
                }
                Outcome { consumed: true, action: Some(a) }
            }
            None => {
                if a == Action::SpeedUp {
                    let m = self.mult_pct * 2;
                    self.mult_pct = if m < MULT_MAX_PCT { m } else { MULT_MAX_PCT };
                    Outcome { consumed: true, action: Some(a) }
                } else if a == Action::SpeedDown {
                    let m = self.mult_pct / 2;
                    self.mult_pct = if m > MULT_MIN_PCT { m } else { MULT_MIN_PCT };
                    Outcome { consumed: true, action: Some(a) }
                } else if a == Action::EnterGrid && self.grid.is_some() {
                    let g = self.grid.take();
                    match g {
                        Some(mut nav) => {
                            nav.activate();
                            self.grid = Some(nav);
                        }
                        None => {}
                    }
                    self.layer = Layer::Grid;
                    self.held = Vec::new();
                    self.ramp_elapsed_ms = 0;
                    proof {
                        assert(self@.held =~= Seq::<(LogicalKey, Direction, u64)>::empty());
                    }
                    Outcome { consumed: true, action: None }
                } else {
                    Outcome { consumed: true, action: Some(a) }
                }
            }
        }
    }

    fn mouse_release(&mut self, k: LogicalKey)
        ensures
            final(self)@ == old(self)@.mouse_release(k),
    {
        let ghost all = self.held@;
        let ghost pred = other_key(k);
        let mut kept: Vec<(LogicalKey, Direction, u64)> = Vec::new();
        let mut i: usize = 0;
        while i < self.held.len()
            invariant
                i <= self.held.len(),
                all == self.held@,
                pred == other_key(k),
                kept@ == all.take(i as int).filter(pred),
            decreases self.held.len() - i,
        {
            proof {
                reveal(Seq::filter);
                assert(all.take(i as int + 1).drop_last() =~= all.take(i as int));
                assert(all.take(i as int + 1).last() == all[i as int]);
            }
            let e = self.held[i];
            if e.0 != k {
                kept.push(e);
            }
            i = i + 1;
        }
        proof {
            assert(all.take(i as int) =~= all);
        }
        if kept.len() == 0 {
            self.ramp_elapsed_ms = 0;
        }
        self.held = kept;
    }

    fn apply_grid(&mut self, nav: GridNavigator, a: Option<GridNavAction>, is_press: bool) -> (o: Outcome)
        ensures
            final(self)@ == old(self)@.grid_step(nav@, a, is_press).0,
            o == old(self)@.grid_step(nav@, a, is_press).1,
    {
        let inactive = match nav.state() {
            GridState::Inactive => true,
            _ => false,
        };
        let nudged = match nav.state() {
            GridState::Nudging { current_pos, .. } => Some(Action::MoveTo(current_pos.0, current_pos.1)),
            _ => None,
        };
        self.grid = Some(nav);
        self.layer = if inactive { Layer::Mouse } else { Layer::Grid };
        match a {
            None => {
                if is_press {
                    self.invalid_presses = self.invalid_presses.saturating_add(1);
                }
                Outcome { consumed: true, action: None }
            }
            Some(GridNavAction::HideOverlay) => {
                let act = self.exit_to_initial();
                Outcome { consumed: true, action: act }
            }
            Some(GridNavAction::MoveCursorTo(x, y)) => Outcome { consumed: true, action: Some(Action::MoveTo(x, y)) },
            Some(GridNavAction::Nudge(_, _)) => Outcome { consumed: true, action: nudged },
            Some(GridNavAction::ClickAt(x, y)) => Outcome { consumed: true, action: Some(Action::ClickAt(x, y)) },
            Some(GridNavAction::StartDrag(x, y)) => {
                let act = if self.drag_held { Action::MoveTo(x, y) } else { Action::DragTo(x, y) };
                self.drag_held = true;
                Outcome { consumed: true, action: Some(act) }
            }
            Some(_) => Outcome { consumed: true, action: None },
        }
    }

    fn handle(&mut self, e: KeyEvent, now_ms: u64) -> (o: Outcome)
        requires
            old(self)@.inv(),
        ensures
            final(self)@ == old(self)@.handle(e, now_ms).0,
            o == old(self)@.handle(e, now_ms).1,
    {
        let press = e.phase == Phase::Press;
        if self.paused {
            return Outcome { consumed: false, action: None };
        }
        match self.layer {
            Layer::Initial => {
                if e.key == self.leader {
                    self.leader_pressed_at = if press { Some(now_ms) } else { None };
                    Outcome { consumed: true, action: None }
                } else {
                    Outcome { consumed: false, action: None }
                }
            }
            Layer::Mouse => {
                if e.key == self.leader {
                    if press {
                        Outcome { consumed: true, action: None }
                    } else {
                        let a = self.exit_to_initial();
                        Outcome { consumed: true, action: a }
                    }
                } else if e.key == LogicalKey::Esc && press {
                    let a = self.exit_to_initial();
                    Outcome { consumed: true, action: a }
                } else {
                    match self.bindings.get(&e.key) {
                        None => Outcome { consumed: false, action: None },
                        Some(a) => {
                            let a = *a;
                            if press {
                                self.mouse_press(e.key, a)
                            } else {
                                self.mouse_release(e.key);
                                Outcome { consumed: true, action: None }
                            }
                        }
                    }
                }
            }
            Layer::Grid => {
                if e.key == self.leader {
                    if press {
                        Outcome { consumed: true, action: None }
                    } else {
                        let a = self.exit_to_initial();
                        Outcome { consumed: true, action: a }
                    }
                } else {
                    let g = self.grid.take();
                    match g {
                        Some(mut nav) => {
                            proof {
                                assert(self@.grid_step(nav@.press(e.key).0, nav@.press(e.key).1, true)
                                    == old(self)@.grid_step(nav@.press(e.key).0, nav@.press(e.key).1, true));
                            }
                            let a = if press { nav.on_key_press(e.key) } else { nav.on_key_release(e.key) };
                            self.apply_grid(nav, a, press)
                        }
                        None => Outcome { consumed: true, action: None },
                    }
                }
            }
        }
    }

    /// Feeds one key event and reports whether it was consumed and what the
    /// pointer should do.
    pub fn on_event_outcome(&mut self, event: KeyEvent, now_ms: u64) -> (o: Outcome)
        requires
            old(self)@.inv(),
        ensures
            final(self)@ == old(self)@.step(event, now_ms).0,
            o == old(self)@.step(event, now_ms).1,
            final(self)@.inv(),
    {
        proof {
            lemma_step_keeps_inv(self@, event, now_ms);
        }
        self.poll(now_ms);
        self.handle(event, now_ms)
    }

    /// Feeds one key event and returns the pointer action, if any.
    pub fn on_event(&mut self, event: KeyEvent, now_ms: u64) -> (a: Option<Action>)
        requires
            old(self)@.inv(),
        ensures
            final(self)@ == old(self)@.step(event, now_ms).0,
            a == old(self)@.step(event, now_ms).1.action,
            final(self)@.inv(),
    {
        self.on_event_outcome(event, now_ms).action
    }
}

/// The leader timer never breaks the invariant.
proof fn lemma_polled_keeps_inv(v: MachineView, now_ms: u64)
    requires
        v.inv(),
    ensures
        v.polled(now_ms).inv(),
{
}

/// Leaving to the initial layer keeps the invariant.
proof fn lemma_exited_keeps_inv(v: MachineView)
    requires
        v.inv(),
    ensures
        v.exited().0.inv(),
{
    match v.grid {
        Some(n) => {
            lemma_press_keeps_wf(n, LogicalKey::Esc);
        }
        None => {}
    }
}

/// Every key event keeps the invariant.
pub proof fn lemma_step_keeps_inv(v: MachineView, e: KeyEvent, now_ms: u64)
    requires
        v.inv(),
    ensures
        v.step(e, now_ms).0.inv(),
{
    let p = v.polled(now_ms);
    lemma_polled_keeps_inv(v, now_ms);
    lemma_exited_keeps_inv(p);
    let press = e.phase == Phase::Press;
    if !p.paused {
        match p.layer {
            Layer::Mouse => {
                if e.key != p.leader && !(e.key == LogicalKey::Esc && press) {
                    match p.bindings.spec_get(e.key) {
                        Some(a) => {
                            if press {
                                match p.grid {
                                    Some(n) => {
                                        lemma_press_keeps_wf(n, e.key);
                                    }
                                    None => {}
                                }
                            } else {
                                let held = p.held.filter(other_key(e.key));
                                assert forall|i: int| 0 <= i < held.len() implies (#[trigger] held[i]).2 < 1000 by {
                                    assert(held.contains(held[i]));
                                    p.held.lemma_filter_contains_rev(other_key(e.key), held[i]);
                                    let j = choose|j: int| 0 <= j < p.held.len() && p.held[j] == held[i];
                                    assert(p.held[j].2 < 1000);
                                }
                            }
                        }
                        None => {}
                    }
                }
            }
            Layer::Grid => {
                if e.key != p.leader {
                    match p.grid {
                        Some(n) => {
                            lemma_press_keeps_wf(n, e.key);
                            let n2 = if press { n.press(e.key).0 } else { n.release(e.key).0 };
                            let q = MachineView {
                                grid: Some(n2),
                                layer: if n2.state is Inactive { Layer::Mouse } else { Layer::Grid },
                                ..p
                            };
                            lemma_exited_keeps_inv(q);
                        }
                        None => {}
                    }
                }
            }
            _ => {}
        }
    }
}


fn displacement_exec(d: Direction, px: i64) -> (r: (i64, i64))
    requires
        px >= 0,
    ensures
        r == displacement(d, px),
{
    match d {
        Direction::Left => (-px, 0),
        Direction::Right => (px, 0),
        Direction::Up => (0, -px),
        Direction::Down => (0, px),
    }
}

impl StateMachine {
    /// Advances motion by `dt_ms`: one displacement per held direction, in
    /// the order the directions were pressed. Sub-pixel remainders carry over.
    pub fn tick(&mut self, dt_ms: u64) -> (moves: Vec<(i64, i64)>)
        requires
            old(self)@.inv(),
        ensures
            final(self)@ == old(self)@.ticked(dt_ms).0,
            moves@ == old(self)@.ticked(dt_ms).1,
            final(self)@.inv(),
    {
        if self.held.len() == 0 {
            let v: Vec<(i64, i64)> = Vec::new();
            proof {
                assert(v@ =~= Seq::<(i64, i64)>::empty());
            }
            return v;
        }
        let speed = self.current_speed_px_s();
        let sum = self.ramp_elapsed_ms.saturating_add(dt_ms);
        self.ramp_elapsed_ms = if sum < self.motion.ramp_ms { sum } else { self.motion.ramp_ms };
        let ghost old_held = self.held@;
        let mut kept: Vec<(LogicalKey, Direction, u64)> = Vec::new();
        let mut moves: Vec<(i64, i64)> = Vec::new();
        let mut i: usize = 0;
        while i < self.held.len()
            invariant
                i <= self.held.len(),
                self.held@ == old_held,
                kept@.len() == i,
                moves@.len() == i,
                forall|j: int| 0 <= j < i ==> #[trigger] kept@[j] == (old_held[j].0, old_held[j].1, MachineView::advance(old_held[j], speed, dt_ms).1),
                forall|j: int| 0 <= j < i ==> #[trigger] moves@[j] == displacement(old_held[j].1, MachineView::advance(old_held[j], speed, dt_ms).0),
            decreases self.held.len() - i,
        {
            let e = self.held[i];
            proof {
                assert(speed * dt_ms <= 0xffff_ffff_ffff_ffff * 0xffff_ffff_ffff_ffff) by (nonlinear_arith)
                    requires
                        speed <= 0xffff_ffff_ffff_ffff,
                        dt_ms <= 0xffff_ffff_ffff_ffff,
                ;
            }
            let acc: u128 = e.2 as u128 + speed as u128 * dt_ms as u128;
            let q = acc / 1000;
            let px: i64 = if q > i64::MAX as u128 { i64::MAX } else { q as i64 };
            let carry = (acc % 1000) as u64;
            kept.push((e.0, e.1, carry));
            moves.push(displacement_exec(e.1, px));
            i = i + 1;
        }
        self.held = kept;
        proof {
            assert(self@.held =~= old_held.map_values(
                |e: (LogicalKey, Direction, u64)| (e.0, e.1, MachineView::advance(e, speed, dt_ms).1),
            ));
            assert(moves@ =~= old_held.map_values(
                |e: (LogicalKey, Direction, u64)| displacement(e.1, MachineView::advance(e, speed, dt_ms).0),
            ));
        }
        moves
    }

    /// Arms the grid layer over one `screen_width` x `screen_height` screen.
    pub fn enable_grid(&mut self, screen_width: i64, screen_height: i64, config: GridConfig)
        requires
            old(self)@.inv(),
            0 <= screen_width,
            0 <= screen_height,
            config_ok(config),
        ensures
            final(self)@ == (MachineView {
                grid: Some(fresh_nav(seq![Rect { x: 0, y: 0, width: screen_width, height: screen_height }], (0, 0), config)),
                layer: if old(self)@.layer == Layer::Grid { Layer::Mouse } else { old(self)@.layer },
                ..old(self)@
            }),
            final(self)@.inv(),
    {
        self.grid = Some(GridNavigator::new(screen_width, screen_height, config));
        if self.layer == Layer::Grid {
            self.layer = Layer::Mouse;
        }
    }

    /// Arms the grid layer over the monitor holding `cursor`.
    pub fn enable_grid_with_monitors(&mut self, monitors: Vec<Rect>, cursor: (i64, i64), config: GridConfig)
        requires
            old(self)@.inv(),
            forall|i: int| 0 <= i < monitors@.len() ==> #[trigger] monitors@[i].screen(),
            config_ok(config),
        ensures
            final(self)@ == (MachineView {
                grid: Some(fresh_nav(monitors@, cursor, config)),
                layer: if old(self)@.layer == Layer::Grid { Layer::Mouse } else { old(self)@.layer },
                ..old(self)@
            }),
            final(self)@.inv(),
    {
        self.grid = Some(GridNavigator::with_monitors(monitors, cursor, config));
        if self.layer == Layer::Grid {
            self.layer = Layer::Mouse;
        }
    }

    /// The overlay the grid layer shows, or none outside it.
    pub fn grid_overlay(&self) -> (f: Option<OverlayFrame>)
        requires
            self@.inv(),
        ensures
            opt_frame_view(f) == self@.overlay(),
    {
        if self.layer != Layer::Grid {
            return None;
        }
        match &self.grid {
            Some(nav) => nav.overlay_frame(),
            None => None,
        }
    }

    /// Opens the grid without a leader hold (tray, practice). Nothing happens
    /// while paused or with no grid armed.
    pub fn show_grid(&mut self)
        requires
            old(self)@.inv(),
        ensures
            final(self)@ == old(self)@.shown(),
            final(self)@.inv(),
    {
        proof {
            match self@.grid {
                Some(n) => lemma_press_keeps_wf(n, LogicalKey::Esc),
                None => {}
            }
        }
        if self.paused {
            return;
        }
        let g = self.grid.take();
        match g {
            Some(mut nav) => {
                nav.activate();
                self.grid = Some(nav);
                self.layer = Layer::Grid;
                self.held = Vec::new();
                self.ramp_elapsed_ms = 0;
                proof {
                    assert(self@.held =~= Seq::<(LogicalKey, Direction, u64)>::empty());
                }
            }
            None => {}
        }
    }
}

impl MachineView {
    /// The grid opened directly: level 1 shows, pointer motion stops.
    pub open spec fn shown(self) -> MachineView {
        if self.paused {
            self
        } else {
            match self.grid {
                Some(n) => MachineView {
                    grid: Some(n.activated()),
                    layer: Layer::Grid,
                    held: Seq::empty(),
                    ramp_elapsed_ms: 0,
                    ..self
                },
                None => self,
            }
        }
    }
}


/// While paused, every key event passes to the application and changes nothing.
pub proof fn law_paused_passes_through(v: MachineView, e: KeyEvent, now_ms: u64)
    requires
        v.inv(),
        v.paused,
    ensures
        v.step(e, now_ms) == (v, pass()),
{
}

/// Leaving capture always lands in the initial layer with the grid hidden and
/// no button held, releasing the drag button exactly when one was held.
pub proof fn law_exit_releases_everything(v: MachineView)
    requires
        v.inv(),
    ensures
        v.exited().0.layer == Layer::Initial,
        !v.exited().0.drag,
        v.exited().0.overlay() is None,
        v.exited().1 == (if v.drag { Some(Action::DragEnd) } else { None::<Action> }),
        v.exited().0.inv(),
{
    lemma_exited_keeps_inv(v);
}

/// An overlay is shown exactly in the grid layer; the initial layer never
/// holds a button, and a paused machine shows no grid and holds no button.
pub proof fn law_layers_agree_with_overlay(v: MachineView)
    requires
        v.inv(),
    ensures
        v.overlay() is Some <==> v.layer == Layer::Grid,
        v.layer == Layer::Initial ==> !v.drag,
        v.paused ==> v.overlay() is None && !v.drag,
{
}

/// Tapping the leader for less than the hold threshold emits nothing and
/// stays in the initial layer.
pub proof fn law_leader_tap_is_inert(v: MachineView, t0: u64, t1: u64)
    requires
        v.inv(),
        v.layer == Layer::Initial,
        v.pressed_at is None,
        !v.paused,
        t0 <= t1,
        t1 - t0 < v.hold_ms,
    ensures
        ({
            let (a, o1) = v.step(KeyEvent { key: v.leader, phase: Phase::Press }, t0);
            let (b, o2) = a.step(KeyEvent { key: v.leader, phase: Phase::Release }, t1);
            &&& o1.action is None
            &&& o2.action is None
            &&& b.layer == Layer::Initial
            &&& b.pressed_at is None
        }),
{
}

/// Holding the leader for the threshold engages the pointer layer.
pub proof fn law_leader_hold_engages(v: MachineView, t0: u64, t1: u64)
    requires
        v.inv(),
        v.layer == Layer::Initial,
        !v.paused,
        t0 <= t1,
        t1 - t0 >= v.hold_ms,
    ensures
        v.step(KeyEvent { key: v.leader, phase: Phase::Press }, t0).0.polled(t1).layer == Layer::Mouse,
{
}

/// A tick moves each held direction once, along its axis and sign, and no
/// sub-pixel distance is lost: pixels moved times 1000 plus the new carry is
/// the old carry plus speed times time.
pub proof fn law_tick_conserves_distance(v: MachineView, dt_ms: u64, i: int)
    requires
        v.inv(),
        0 <= i < v.held.len(),
        v.held[i].2 + v.speed() * dt_ms <= i64::MAX * 1000,
    ensures
        v.ticked(dt_ms).1.len() == v.held.len(),
        v.ticked(dt_ms).0.held.len() == v.held.len(),
        ({
            let (px, carry) = MachineView::advance(v.held[i], v.speed(), dt_ms);
            &&& px * 1000 + carry == v.held[i].2 + v.speed() * dt_ms
            &&& v.ticked(dt_ms).1[i] == displacement(v.held[i].1, px)
            &&& v.ticked(dt_ms).0.held[i] == (v.held[i].0, v.held[i].1, carry)
        }),
{
    let acc = v.held[i].2 + v.speed() * dt_ms;
    assert(acc >= 0) by (nonlinear_arith)
        requires
            v.held[i].2 >= 0,
            v.speed() >= 0,
            dt_ms >= 0,
            acc == v.held[i].2 + v.speed() * dt_ms,
    ;
    vstd::arithmetic::div_mod::lemma_fundamental_div_mod(acc, 1000);
    vstd::arithmetic::div_mod::lemma_mod_bound(acc, 1000);
    assert(acc / 1000 <= i64::MAX);
}

/// The ramp starts at the start speed, reaches the max speed at `ramp_ms`
/// and stays there; in between it lies between the two.
pub proof fn law_ramp_endpoints(m: MotionConfig, e: int)
    requires
        e >= 0,
        m.ramp_ms > 0,
        m.start_speed_px_s <= m.max_speed_px_s,
    ensures
        ramp_speed(m, 0) == m.start_speed_px_s,
        e >= m.ramp_ms ==> ramp_speed(m, e) == m.max_speed_px_s,
        m.start_speed_px_s <= ramp_speed(m, e) <= m.max_speed_px_s,
{
    let diff = m.max_speed_px_s - m.start_speed_px_s;
    let ee = if e < m.ramp_ms { e } else { m.ramp_ms as int };
    assert(0 <= (diff * ee) / (m.ramp_ms as int) <= diff) by (nonlinear_arith)
        requires
            0 <= ee <= m.ramp_ms,
            m.ramp_ms > 0,
            diff >= 0,
    ;
    if e >= m.ramp_ms {
        assert((diff * m.ramp_ms) / (m.ramp_ms as int) == diff) by (nonlinear_arith)
            requires
                m.ramp_ms > 0,
        ;
    }
}

} // verus!
