//! Whole-app bounded state explorer over the public library: the Windows
//! hook with recording output and overlay, the settings editor and the
//! configuration. Invariants are checked after every event.

use clickless::backend::{Button, Dir, OutputBackend, OverlayBackend};
use clickless::config::Config;
use clickless::grid::{GridConfig, OverlayFrame, Rect};
use clickless::keys::{default_bindings, Action, Layer, LogicalKey, MotionConfig};
use clickless::settings_editor::{fields_from_config, SettingsEditor};
use clickless::windows::WindowsHook;
use std::collections::{HashSet, VecDeque};
use std::sync::Arc;
use std::sync::Mutex;

// VK codes used by the explorer. All map through the real scancode table
// except PrintScreen (0x2C) and Win (0x5B), which the hook passes through.
const VK_LEADER: u32 = 0x14;
const VK_SPACE: u32 = 0x20;
const VK_K: u32 = 0x4B;
const VK_Q: u32 = 0x51;
const VK_Z: u32 = 0x5A;
#[allow(dead_code)]
const VK_J: u32 = 0x4A;
#[allow(dead_code)]
const VK_ESC: u32 = 0x1B;
#[allow(dead_code)]
const VK_BACKSPACE: u32 = 0x08;
#[allow(dead_code)]
const VK_PRINTSCREEN: u32 = 0x2C;
#[allow(dead_code)]
const VK_WIN: u32 = 0x5B;
#[allow(dead_code)]
const VK_S: u32 = 0x53;

#[derive(Default)]
struct OutShared {
    abs: Vec<(i32, i32)>,
    downs: u32,
    ups: u32,
    fail_next: bool,
}

#[derive(Clone, Default)]
struct FaultOut {
    s: Arc<Mutex<OutShared>>,
}

impl FaultOut {
    fn take_fail(&self) -> bool {
        let mut s = self.s.lock().unwrap();
        if s.fail_next {
            s.fail_next = false;
            return true;
        }
        false
    }
}

impl OutputBackend for FaultOut {
    fn move_rel(&mut self, dx: i32, dy: i32) -> Result<(), String> {
        if self.take_fail() {
            return Err("injected move failure".to_string());
        }
        let _ = (dx, dy);
        Ok(())
    }

    fn move_abs(&mut self, x: i32, y: i32) -> Result<(), String> {
        if self.take_fail() {
            return Err("injected move failure".to_string());
        }
        self.s.lock().unwrap().abs.push((x, y));
        Ok(())
    }

    fn button(&mut self, b: Button, d: Dir) -> Result<(), String> {
        if self.take_fail() {
            return Err("injected button failure".to_string());
        }
        let mut s = self.s.lock().unwrap();
        match d {
            Dir::Down => s.downs += 1,
            Dir::Up => s.ups += 1,
        }
        let _ = b;
        Ok(())
    }

    fn scroll(&mut self, dx: i32, dy: i32) -> Result<(), String> {
        if self.take_fail() {
            return Err("injected scroll failure".to_string());
        }
        let _ = (dx, dy);
        Ok(())
    }
}

#[derive(Default)]
struct OverlayShared {
    /// Currently presented level; None means hidden.
    shown: Option<u8>,
    shows: u32,
    hides: u32,
    hide_errs: u32,
    /// A hide attempt failed while this show cycle was open.
    open_failed_hide: bool,
    fail_next: bool,
}

#[derive(Clone, Default)]
struct FaultOverlay {
    s: Arc<Mutex<OverlayShared>>,
}

impl OverlayBackend for FaultOverlay {
    fn show(&mut self, frame: &OverlayFrame) -> Result<(), String> {
        let mut s = self.s.lock().unwrap();
        if s.fail_next {
            s.fail_next = false;
            return Err("injected overlay show failure".to_string());
        }
        s.shown = Some(frame.level);
        s.shows += 1;
        s.open_failed_hide = false;
        Ok(())
    }

    fn hide_frame(&mut self) -> Result<(), String> {
        let mut s = self.s.lock().unwrap();
        if s.fail_next {
            s.fail_next = false;
            s.hide_errs += 1;
            if s.shown.is_some() {
                s.open_failed_hide = true;
            }
            return Err("injected overlay hide failure".to_string());
        }
        s.shown = None;
        s.hides += 1;
        Ok(())
    }
}

/// Canonical observable contract state. Only production-public reads feed
/// it, so two apps with equal snapshots are interchangeable to an owner.
#[derive(Clone, Copy, Debug, PartialEq, Eq, Hash)]
struct Snap {
    layer: u8,
    armed: bool,
    /// Capped hold time: promotion only tests the 200 ms threshold, so
    /// values above 250 behave identically and stay one bucket.
    hold_ms: u16,
    paused: bool,
    grid_level: u8,
    /// Overlay cell counts by label length. Prefix narrowing changes the
    /// frame while the level stays 1, so the level alone is blind to it.
    one_cells: u16,
    two_cells: u16,
    overlay_shown: u8,
    held_button: bool,
    dirty: bool,
    focus: bool,
    applied_changed: bool,
    invalid_seen: bool,
    error_seen: bool,
}

#[derive(Clone, Copy, Debug)]
enum Ev {
    Key(u32, bool),
    Wait(u64),
    Tick,
    Flush,
    Pause(bool),
    Show(bool),
    Focus(bool),
    EditOk,
    EditBad,
    ApplyOk,
    ApplyFail,
    Cancel,
    FailOut,
    FailOverlay,
}

struct App {
    hook: WindowsHook<FaultOut>,
    out: FaultOut,
    overlay: FaultOverlay,
    editor: SettingsEditor,
    focused: bool,
    user_paused: bool,
    now_ms: u64,
    applied_base_speed: u64,
    invalid_base: u64,
    error_seen: bool,
}

impl App {
    fn new(grid: GridConfig) -> Self {
        let out = FaultOut::default();
        let overlay = FaultOverlay::default();
        let mut bindings = default_bindings();
        bindings.insert(LogicalKey::Space, Action::EnterGrid);
        let mut hook = WindowsHook::with_config(
            out.clone(),
            LogicalKey::CapsLock,
            bindings,
            MotionConfig::default(),
        );
        hook.sm_mut().enable_grid(1920, 1080, grid);
        hook.set_monitors(vec![Rect::new(0, 0, 1920, 1080)]);
        hook.set_overlay(Box::new(FaultOverlay {
            s: overlay.s.clone(),
        }));
        let config = Config::default();
        let applied_base_speed = config.settings.start_speed_px_s;
        Self {
            hook,
            out,
            overlay,
            editor: SettingsEditor::new(config),
            focused: false,
            user_paused: false,
            now_ms: 0,
            applied_base_speed,
            invalid_base: 0,
            error_seen: false,
        }
    }

    fn key(&mut self, vk: u32, down: bool) -> Result<(), String> {
        self.now_ms += 10;
        let now = self.now_ms;
        self.hook.process_key(vk, down, now).map(|_| ())
    }

    fn advance(&mut self, ms: u64) {
        self.now_ms += ms;
    }

    fn snapshot(&self) -> Snap {
        let layer = match self.hook.sm().layer() {
            Layer::Initial => 0,
            Layer::Mouse => 1,
            Layer::Grid => 2,
        };
        let frame = self.hook.sm().grid_overlay();
        let grid_level = frame.as_ref().map(|f| f.level).unwrap_or(0);
        let (one_cells, two_cells) = frame
            .as_ref()
            .map(|f| {
                (
                    f.cells
                        .iter()
                        .filter(|c| c.label.chars().count() == 1)
                        .count(),
                    f.cells
                        .iter()
                        .filter(|c| c.label.chars().count() == 2)
                        .count(),
                )
            })
            .unwrap_or((0, 0));
        let overlay_shown = self.overlay.s.lock().unwrap().shown.unwrap_or(0);
        let o = self.out.s.lock().unwrap();
        Snap {
            layer,
            armed: self.hook.sm().is_leader_armed(),
            hold_ms: self
                .hook
                .sm()
                .leader_hold_ms(self.now_ms)
                .map(|ms| ms.min(250) as u16)
                .unwrap_or(0),
            paused: self.hook.sm().is_paused(),
            grid_level,
            one_cells: one_cells.min(999) as u16,
            two_cells: two_cells.min(999) as u16,
            overlay_shown,
            held_button: o.downs > o.ups,
            dirty: self.editor.is_dirty(),
            focus: self.focused,
            applied_changed: self.editor.applied().settings.start_speed_px_s
                != self.applied_base_speed,
            invalid_seen: self.hook.sm().invalid_presses() != self.invalid_base,
            error_seen: self.error_seen,
        }
    }

    /// Whole-app invariants after every event, not only at sequence end.
    fn check(&self, ctx: &str) {
        let snap = self.snapshot();
        let o = self.out.s.lock().unwrap();
        assert!(
            o.downs <= o.ups + 1,
            "{ctx}: at most one held button (downs={} ups={})",
            o.downs,
            o.ups
        );
        if snap.layer == 0 {
            assert!(
                snap.grid_level == 0,
                "{ctx}: initial layer must have no grid overlay"
            );
            assert!(
                !snap.held_button,
                "{ctx}: initial layer must hold no button"
            );
        }
        if snap.layer == 2 {
            assert!(
                snap.grid_level != 0,
                "{ctx}: grid layer with inactive navigator"
            );
        }
        if snap.paused {
            assert!(
                snap.grid_level == 0,
                "{ctx}: paused runtime must show no grid state"
            );
            assert!(!snap.held_button, "{ctx}: paused runtime holds a button");
        }
        assert_eq!(
            self.editor.is_dirty(),
            self.editor.draft() != self.editor.applied(),
            "{ctx}: dirty flag must match draft/applied"
        );
        assert_eq!(
            self.hook.sm().is_paused(),
            self.user_paused || self.focused,
            "{ctx}: pause must equal user-pause or settings suspension"
        );
        drop(o);
    }

    /// End-of-sequence cleanup mirroring production shutdown: release
    /// capture, present the final frame, then demand full balance. Hiding
    /// is best-effort: if the hide itself fails, the model requires a
    /// demonstrated exhausted attempt, not hidden pixels. The real loop
    /// exits the process on such errors and the OS removes its windows.
    fn finish(&mut self, ctx: &str) {
        self.hook.release_capture();
        let _ = self.hook.flush_overlay();
        self.check(ctx);
        let o = self.out.s.lock().unwrap();
        assert_eq!(
            o.downs, o.ups,
            "{ctx}: every button-down needs its button-up"
        );
        drop(o);
        // Best-effort hide: a failed hide during shutdown leaves pixels up
        // while the hook believes them hidden. Accept only when the open
        // show cycle records a failed hide attempt.
        if self.overlay.s.lock().unwrap().shown.is_some() {
            assert!(
                self.overlay.s.lock().unwrap().open_failed_hide,
                "{ctx}: overlay stuck visible with no failed hide attempt"
            );
            self.error_seen = true;
        }
    }
}

/// Applies one canonical event. Hook errors follow production hygiene: the
/// first error releases capture and is recorded; the model keeps running.
fn step(app: &mut App, ev: Ev) {
    match ev {
        Ev::Key(vk, down) => {
            if app.key(vk, down).is_err() {
                app.error_seen = true;
                app.hook.release_capture();
            }
        }
        Ev::Wait(ms) => app.advance(ms),
        Ev::Tick => {
            if app.hook.tick(10).is_err() {
                app.error_seen = true;
                app.hook.release_capture();
            }
        }
        Ev::Flush => {
            if app.hook.flush_overlay().is_err() {
                app.error_seen = true;
                app.hook.release_capture();
            }
        }
        Ev::Pause(p) => {
            app.user_paused = p;
            if app.hook.set_paused(p).is_err() {
                app.error_seen = true;
                app.hook.release_capture();
            }
        }
        Ev::Show(show) => {
            if app.hook.show_grid(show).is_err() {
                app.error_seen = true;
                app.hook.release_capture();
            }
        }
        Ev::Focus(focused) => {
            app.focused = focused;
            if app.hook.suspend_for_settings_focus(focused).is_err() {
                app.error_seen = true;
                app.hook.release_capture();
            }
            if !focused {
                // Focus-leave restores the paused intent inside the hook;
                // the tray model follows the authoritative state.
                app.user_paused = app.hook.sm().is_paused();
            }
        }
        Ev::EditOk => {
            let mut fields = fields_from_config(app.editor.draft());
            fields.start_speed_px_s = "400".to_string();
            app.editor.edit(&fields).unwrap();
        }
        Ev::EditBad => {
            let mut fields = fields_from_config(app.editor.draft());
            fields.start_speed_px_s = "abc".to_string();
            assert!(app.editor.edit(&fields).is_err());
        }
        Ev::ApplyOk => {
            app.editor
                .apply_to_runtime(|_: &Config| Ok::<(), String>(()))
                .unwrap();
            let applied = app.editor.applied().clone();
            let _ = app.hook.apply_config(applied);
            // The applied config is authoritative for paused state; the
            // tray model follows it (display staleness is a native check).
            app.user_paused = app.hook.sm().is_paused();
        }
        Ev::ApplyFail => {
            let before = app.editor.applied().clone();
            let hook_before = app.hook.current_config();
            assert!(
                app.editor
                    .apply_to_runtime(|_: &Config| Err::<(), String>("boom".into()))
                    .is_err()
            );
            assert_eq!(app.editor.applied(), &before);
            assert_eq!(app.hook.current_config(), hook_before);
        }
        Ev::Cancel => app.editor.cancel(),
        Ev::FailOut => app.out.s.lock().unwrap().fail_next = true,
        Ev::FailOverlay => app.overlay.s.lock().unwrap().fail_next = true,
    }
    app.check(&format!("after {ev:?}"));
}

fn enter_mouse(app: &mut App) {
    step(app, Ev::Key(VK_LEADER, true));
    step(app, Ev::Wait(250));
    step(app, Ev::Key(VK_LEADER, true));
    assert_eq!(app.hook.sm().layer(), Layer::Mouse);
}

fn default_grid_app() -> App {
    App::new(GridConfig {
        auto_free_mode_after_move: false,
        ..GridConfig::default()
    })
}

fn dense_app() -> App {
    App::new(GridConfig::dense())
}

// Named regressions.

#[test]
fn deferred_input_from_an_old_session_never_runs() {
    // Fast nested key deferred, then pause exits capture before any flush.
    // The dead session's queued frames and deferred keys must not leak:
    // no stale overlay presents, and the next session behaves exactly like
    // a fresh one.
    let mut app = dense_app();
    enter_mouse(&mut app);
    step(&mut app, Ev::Key(VK_SPACE, true));
    step(&mut app, Ev::Key(VK_K, true));
    step(&mut app, Ev::Key(VK_K, false));
    step(&mut app, Ev::Key(VK_K, true));
    step(&mut app, Ev::Key(VK_Q, true));
    step(&mut app, Ev::Key(VK_Q, false));
    step(&mut app, Ev::Pause(true));
    step(&mut app, Ev::Pause(false));
    step(&mut app, Ev::Flush);
    step(&mut app, Ev::Flush);
    // Session one moved to the parent center once; the stale Q press and
    // release are gone, so no click and no presented overlay remain.
    assert_eq!(app.out.s.lock().unwrap().abs.len(), 1);
    assert_eq!(app.overlay.s.lock().unwrap().shown, None);
    assert_eq!(app.hook.sm().layer(), Layer::Initial);
    // Fresh session behaves exactly like a first session.
    enter_mouse(&mut app);
    step(&mut app, Ev::Key(VK_SPACE, true));
    step(&mut app, Ev::Key(VK_K, true));
    step(&mut app, Ev::Key(VK_K, false));
    step(&mut app, Ev::Key(VK_K, true));
    step(&mut app, Ev::Flush);
    step(&mut app, Ev::Flush);
    step(&mut app, Ev::Flush);
    let presented = app.overlay.s.lock().unwrap().shown;
    assert_eq!(presented, Some(2), "fresh subgrid must present");
    let abs_before = app.out.s.lock().unwrap().abs.len();
    step(&mut app, Ev::Key(VK_Q, true));
    step(&mut app, Ev::Key(VK_Q, false));
    step(&mut app, Ev::Flush);
    step(&mut app, Ev::Flush);
    step(&mut app, Ev::Flush);
    let o = app.out.s.lock().unwrap();
    // Nested press moves once; release clicks at the target (its own move).
    assert_eq!(o.abs.len(), abs_before + 2, "exactly one nested move+click");
    assert_eq!(o.downs, 1, "exactly one button down");
    assert_eq!(o.ups, 1, "exactly one button up");
    drop(o);
    app.finish("stale-deferred");
}

#[test]
fn failed_runtime_apply_changes_nothing() {
    let mut app = default_grid_app();
    step(&mut app, Ev::EditOk);
    assert!(app.editor.is_dirty());
    step(&mut app, Ev::ApplyFail);
    assert!(app.editor.is_dirty(), "failed apply keeps the dirty draft");
    assert_eq!(
        app.editor.applied().settings.start_speed_px_s,
        app.applied_base_speed
    );
    assert_eq!(
        app.hook.current_config().settings.start_speed_px_s,
        app.applied_base_speed
    );
    app.finish("apply-fail");
}

#[test]
fn invalid_key_at_hook_level_never_reaches_output() {
    let mut app = dense_app();
    enter_mouse(&mut app);
    step(&mut app, Ev::Key(VK_SPACE, true));
    let before = app.hook.sm().grid_overlay();
    assert!(before.is_some());
    step(&mut app, Ev::Key(VK_Z, true));
    step(&mut app, Ev::Key(VK_Z, false));
    assert!(app.out.s.lock().unwrap().abs.is_empty());
    assert_eq!(app.hook.sm().grid_overlay(), before);
    app.finish("invalid-contained");
}

#[test]
fn hide_failure_at_shutdown_retries_then_accepts() {
    // Hiding during release_capture can fail. Cleanup must retry once;
    // buttons and layer must be clean regardless, and the failed attempt
    // is recorded instead of silently dropped.
    let mut app = default_grid_app();
    enter_mouse(&mut app);
    step(&mut app, Ev::Show(true));
    step(&mut app, Ev::FailOverlay);
    app.finish("hide-best-effort");
    assert_eq!(app.hook.sm().layer(), Layer::Initial);
    let o = app.out.s.lock().unwrap();
    assert_eq!(o.downs, o.ups);
    assert!(
        app.overlay.s.lock().unwrap().hide_errs >= 1,
        "the failed hide must be recorded"
    );
}

// Bounded exploration.

impl App {
    fn new_full(grid: GridConfig, enabled: bool) -> Self {
        let mut app = App::new(grid);
        if !enabled {
            let config = Config {
                enabled: false,
                ..Config::default()
            };
            app.hook.apply_config(config.clone()).unwrap();
            app.editor = SettingsEditor::new(config);
            // The applied config is authoritative from boot.
            app.user_paused = app.hook.sm().is_paused();
        }
        app
    }
}

/// BFS alphabet: every canonical input class, no file IO.
fn bfs_alphabet() -> Vec<Ev> {
    vec![
        Ev::Key(VK_LEADER, true),
        Ev::Key(VK_LEADER, false),
        Ev::Key(VK_SPACE, true),
        Ev::Key(VK_K, true),
        Ev::Key(VK_K, false),
        Ev::Key(VK_Q, true),
        Ev::Key(VK_Z, true),
        Ev::Key(VK_PRINTSCREEN, true),
        Ev::Wait(30),
        Ev::Wait(250),
        Ev::Tick,
        Ev::Flush,
        Ev::Pause(true),
        Ev::Pause(false),
        Ev::Show(true),
        Ev::Show(false),
        Ev::Focus(true),
        Ev::Focus(false),
        Ev::EditOk,
        Ev::EditBad,
        Ev::ApplyOk,
        Ev::ApplyFail,
        Ev::Cancel,
    ]
}

fn replay(grid: &GridConfig, enabled: bool, events: &[Ev]) -> App {
    let mut app = App::new_full(grid.clone(), enabled);
    for ev in events {
        step(&mut app, *ev);
    }
    app
}

/// Breadth-first explorer through `depth`, deduplicating canonical
/// snapshots. Returns (visited snapshots, applied transitions).
fn explore(
    grid: &GridConfig,
    enabled: bool,
    depth: usize,
    alphabet: &[Ev],
) -> (usize, usize, HashSet<Snap>) {
    let mut seen = HashSet::new();
    // One revisit expansion per snapshot: time-only events (Wait) leave the
    // snapshot unchanged yet enable promotion on the next key. The first
    // revisit still expands; later ones prune. Invariants are checked on
    // every pop regardless.
    let mut revisited = HashSet::new();
    let mut queue = VecDeque::new();
    queue.push_back(Vec::<Ev>::new());
    let mut transitions = 0usize;
    const STEP_CAP: usize = 500_000;
    while let Some(prefix) = queue.pop_front() {
        let mut app = replay(grid, enabled, &prefix);
        let snap = app.snapshot();
        let fresh = seen.insert(snap);
        if !fresh && !revisited.insert(snap) {
            continue;
        }
        if prefix.len() >= depth {
            app.finish("bfs-leaf");
            continue;
        }
        for ev in alphabet {
            let mut next = prefix.clone();
            next.push(*ev);
            transitions += 1;
            assert!(
                transitions <= STEP_CAP,
                "state explosion: blew the {STEP_CAP}-step budget"
            );
            queue.push_back(next);
        }
    }
    let states = seen.len();
    (states, transitions, seen)
}

fn covers(set: &HashSet<Snap>, pred: impl FnMut(&Snap) -> bool) -> bool {
    set.iter().any(pred)
}

#[test]
fn bfs_covers_canonical_states() {
    let alphabet = bfs_alphabet();
    let simple = GridConfig {
        auto_free_mode_after_move: false,
        ..GridConfig::default()
    };
    let drag = GridConfig {
        auto_free_mode_after_move: false,
        drag_after_select: true,
        ..GridConfig::default()
    };
    let dense = GridConfig::dense();
    let mut total_states = 0;
    let mut total_transitions = 0;
    for (name, grid, enabled) in [
        ("simple", simple, true),
        ("drag", drag, true),
        ("dense", dense, true),
        ("disabled", GridConfig::dense(), false),
    ] {
        let (states, transitions, set) = explore(&grid, enabled, 7, &alphabet);
        println!("bfs {name}: {states} states, {transitions} transitions");
        total_states += states;
        total_transitions += transitions;
        if enabled {
            assert!(
                covers(&set, |s| s.layer == 1),
                "{name}: never reached Mouse"
            );
            assert!(
                covers(&set, |s| s.layer == 2 && s.grid_level == 1),
                "{name}: never reached grid level 1"
            );
            assert!(
                covers(&set, |s| s.grid_level == 2),
                "{name}: never reached grid level 2"
            );
            assert!(covers(&set, |s| s.paused), "{name}: never paused");
            assert!(covers(&set, |s| s.focus), "{name}: never suspended");
            assert!(covers(&set, |s| s.dirty), "{name}: never dirty");
        } else {
            assert!(
                covers(&set, |s| s.paused),
                "{name}: disabled boot must pause"
            );
        }
    }
    println!("bfs total: {total_states} states, {total_transitions} transitions");
    assert!(
        total_states >= 60,
        "explorer degenerated: {total_states} states"
    );
}

fn combo_grid(index: usize) -> GridConfig {
    let mut grid = if index & 1 != 0 {
        GridConfig::dense()
    } else {
        GridConfig::default()
    };
    grid.nudge_enabled = index & 2 != 0;
    grid.drag_after_select = index & 4 != 0;
    grid.auto_free_mode_after_move = index & 8 != 0;
    grid
}

#[test]
fn combo_sweep_all_config_pairs() {
    // Full cross product of dense/nudge/drag/auto-free/enabled: 32 combos,
    // shallow depth. Every pair of flags co-occurs in several combos.
    let alphabet = bfs_alphabet();
    let mut total_states = 0;
    for index in 0..32 {
        let grid = combo_grid(index);
        let enabled = index & 16 != 0;
        let (states, transitions, _) = explore(&grid, enabled, 3, &alphabet);
        total_states += states;
        println!("combo {index:02}: {states} states, {transitions} transitions");
    }
    println!("combo total: {total_states} states");
    assert!(total_states >= 200, "combo sweep degenerated");
}

