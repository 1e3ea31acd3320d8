use clickless::backend::{Button, CommandLog, Dir, NullOverlay, OutputBackend, OverlayBackend};
use clickless::config::Config;
use clickless::grid::{GridConfig, OverlayFrame, Rect};
use clickless::keys::{default_bindings, Action, KeyMap, Layer, LogicalKey, MotionConfig, Outcome};
use clickless::hook::OutputCommand;
use clickless::overlay::OverlayTheme;
use clickless::windows::{Failure, OverlayFactory, Renderer, WindowsHook};
use std::cell::RefCell;
use std::rc::Rc;


struct MockOut {
    moves: Vec<(i32, i32)>,
    abs: Vec<(i32, i32)>,
    buttons: Vec<(Button, Dir)>,
    scrolls: Vec<(i32, i32)>,
}

impl MockOut {
    fn new() -> Self {
        Self {
            moves: Vec::new(),
            abs: Vec::new(),
            buttons: Vec::new(),
            scrolls: Vec::new(),
        }
    }
}

impl OutputBackend for MockOut {
    fn move_rel(&mut self, dx: i32, dy: i32) -> Result<(), String> {
        self.moves.push((dx, dy));
        Ok(())
    }

    fn move_abs(&mut self, x: i32, y: i32) -> Result<(), String> {
        self.abs.push((x, y));
        Ok(())
    }
    fn button(&mut self, b: Button, d: Dir) -> Result<(), String> {
        self.buttons.push((b, d));
        Ok(())
    }
    fn scroll(&mut self, dx: i32, dy: i32) -> Result<(), String> {
        self.scrolls.push((dx, dy));
        Ok(())
    }
}

fn enter_mouse(hook: &mut WindowsHook<MockOut>) {
    let _ = hook.process_key(0x14, true, 0); // CapsLock press
    let _ = hook.process_key(0x14, true, 200); // poll past threshold
}

// tray lifecycle commands

#[test]
fn t20_set_paused_ends_drag_and_hides_overlay() {
    let mut hook = WindowsHook::with_config(
        MockOut::new(),
        LogicalKey::CapsLock,
        default_bindings(),
        MotionConfig::default(),
    );
    hook.sm_mut().enable_grid(
        1920,
        1080,
        GridConfig {
            drag_after_select: true,
            auto_free_mode_after_move: false,
            ..GridConfig::default()
        },
    );
    enter_mouse(&mut hook);
    hook.process_key(0x20, true, 300).unwrap(); // grid
    hook.process_key(0x4B, true, 400).unwrap();
    hook.process_key(0x4B, true, 500).unwrap();
    hook.process_key(0x4B, false, 600).unwrap(); // drag started

    hook.set_paused(true).unwrap();
    assert_eq!(
        hook.out().buttons,
        vec![(Button::Left, Dir::Down), (Button::Left, Dir::Up)]
    );
    assert!(hook.sm().is_paused());
    assert!(hook.sm().grid_overlay().is_none());

    hook.set_paused(false).unwrap();
    assert!(!hook.sm().is_paused());
    assert_eq!(hook.process_key(0x14, true, 700).unwrap().action, None);
    assert_eq!(hook.process_key(0x14, true, 900).unwrap().action, None);
    assert_eq!(hook.sm().layer(), Layer::Mouse);
}

#[test]
fn t21_show_grid_shows_overlay_without_leader() {
    let mut hook = WindowsHook::with_config(
        MockOut::new(),
        LogicalKey::CapsLock,
        default_bindings(),
        MotionConfig::default(),
    );
    hook.sm_mut().enable_grid(1920, 1080, GridConfig::default());

    hook.show_grid(true).unwrap();
    assert_eq!(hook.sm().layer(), Layer::Grid);

    hook.show_grid(false).unwrap();
    assert_eq!(hook.sm().layer(), Layer::Initial);
}

#[test]
fn t01_unmapped_vk_yields_none() {
    let mut hook = WindowsHook::new(MockOut::new());
    assert_eq!(hook.process_key(0x0D, true, 0).unwrap(), Outcome::pass()); // VK_RETURN
}

#[test]
fn windows_t02_capslock_hold_enters_mouse_layer() {
    let mut hook = WindowsHook::new(MockOut::new());
    hook.process_key(0x14, true, 0).unwrap();
    hook.process_key(0x14, true, 200).unwrap();
    assert_eq!(hook.sm().layer(), Layer::Mouse);
}

#[test]
fn windows_t03_j_in_mouse_yields_move_right() {
    let mut hook = WindowsHook::new(MockOut::new());
    enter_mouse(&mut hook);
    assert_eq!(
        hook.process_key(0x4A, true, 300).unwrap().action,
        Some(Action::MoveRight)
    );
}

#[test]
fn windows_t04_h_in_mouse_yields_move_left() {
    let mut hook = WindowsHook::new(MockOut::new());
    enter_mouse(&mut hook);
    assert_eq!(
        hook.process_key(0x48, true, 300).unwrap().action,
        Some(Action::MoveLeft)
    );
}

#[test]
fn windows_t05_k_in_mouse_yields_move_up() {
    let mut hook = WindowsHook::new(MockOut::new());
    enter_mouse(&mut hook);
    assert_eq!(
        hook.process_key(0x4B, true, 300).unwrap().action,
        Some(Action::MoveUp)
    );
}

#[test]
fn windows_t06_l_in_mouse_yields_move_down() {
    let mut hook = WindowsHook::new(MockOut::new());
    enter_mouse(&mut hook);
    assert_eq!(
        hook.process_key(0x4C, true, 300).unwrap().action,
        Some(Action::MoveDown)
    );
}

#[test]
fn windows_t07_f_in_mouse_yields_click_left() {
    let mut hook = WindowsHook::new(MockOut::new());
    enter_mouse(&mut hook);
    assert_eq!(
        hook.process_key(0x46, true, 300).unwrap().action,
        Some(Action::ClickLeft)
    );
    assert_eq!(
        hook.out().buttons,
        vec![(Button::Left, Dir::Down), (Button::Left, Dir::Up)]
    );
}

#[test]
fn windows_t08_d_in_mouse_yields_click_right() {
    let mut hook = WindowsHook::new(MockOut::new());
    enter_mouse(&mut hook);
    assert_eq!(
        hook.process_key(0x44, true, 300).unwrap().action,
        Some(Action::ClickRight)
    );
    assert_eq!(
        hook.out().buttons,
        vec![(Button::Right, Dir::Down), (Button::Right, Dir::Up)]
    );
}

#[test]
fn windows_t09_w_in_mouse_yields_scroll_up() {
    let mut hook = WindowsHook::new(MockOut::new());
    enter_mouse(&mut hook);
    assert_eq!(
        hook.process_key(0x57, true, 300).unwrap().action,
        Some(Action::ScrollUp)
    );
    assert_eq!(hook.out().scrolls, vec![(0, 1)]);
}

#[test]
fn windows_t10_s_in_mouse_yields_scroll_down() {
    let mut hook = WindowsHook::new(MockOut::new());
    enter_mouse(&mut hook);
    assert_eq!(
        hook.process_key(0x53, true, 300).unwrap().action,
        Some(Action::ScrollDown)
    );
    assert_eq!(hook.out().scrolls, vec![(0, -1)]);
}

#[test]
fn windows_t11_tick_moves_cursor() {
    let mut hook = WindowsHook::new(MockOut::new());
    enter_mouse(&mut hook);
    hook.process_key(0x4A, true, 300).unwrap(); // J
    hook.tick(100).unwrap();
    assert_eq!(hook.out().moves, vec![(30, 0)]);
}

#[test]
fn windows_t12_esc_exits_mouse_layer() {
    let mut hook = WindowsHook::new(MockOut::new());
    enter_mouse(&mut hook);
    hook.process_key(0x1B, true, 300).unwrap(); // Esc
    assert_eq!(hook.sm().layer(), Layer::Initial);
}

#[test]
fn windows_t13_capslock_release_exits_mouse() {
    let mut hook = WindowsHook::new(MockOut::new());
    enter_mouse(&mut hook);
    hook.process_key(0x14, false, 400).unwrap(); // CapsLock release
    assert_eq!(hook.sm().layer(), Layer::Initial);
}

#[test]
fn windows_t14_u_in_mouse_yields_speed_down() {
    let mut hook = WindowsHook::new(MockOut::new());
    enter_mouse(&mut hook);
    assert_eq!(
        hook.process_key(0x55, true, 300).unwrap().action,
        Some(Action::SpeedDown)
    );
}

#[test]
fn windows_t15_o_in_mouse_yields_speed_up() {
    let mut hook = WindowsHook::new(MockOut::new());
    enter_mouse(&mut hook);
    assert_eq!(
        hook.process_key(0x4F, true, 300).unwrap().action,
        Some(Action::SpeedUp)
    );
}

#[derive(Default)]
struct RecorderOverlay {
    shows: std::sync::Arc<std::sync::Mutex<Vec<u8>>>,
    hides: std::sync::Arc<std::sync::Mutex<usize>>,
}

impl OverlayBackend for RecorderOverlay {
    fn show(&mut self, frame: &OverlayFrame) -> Result<(), String> {
        self.shows.lock().unwrap().push(frame.level);
        Ok(())
    }

    fn hide_frame(&mut self) -> Result<(), String> {
        *self.hides.lock().unwrap() += 1;
        Ok(())
    }
}

#[derive(Debug, Clone, PartialEq, Eq)]
struct FrameRecord {
    level: u8,
    one: usize,
    two: usize,
}

#[derive(Default)]
struct RecordingOverlay {
    frames: std::sync::Arc<std::sync::Mutex<Vec<FrameRecord>>>,
}

impl OverlayBackend for RecordingOverlay {
    fn show(&mut self, frame: &OverlayFrame) -> Result<(), String> {
        self.frames.lock().unwrap().push(FrameRecord {
            level: frame.level,
            one: frame
                .cells
                .iter()
                .filter(|cell| cell.label.chars().count() == 1)
                .count(),
            two: frame
                .cells
                .iter()
                .filter(|cell| cell.label.chars().count() == 2)
                .count(),
        });
        Ok(())
    }

    fn hide_frame(&mut self) -> Result<(), String> {
        Ok(())
    }
}

#[test]
fn windows_t19_grid_overlay_shows_each_level_then_hides() {

    let shows = std::sync::Arc::new(std::sync::Mutex::new(Vec::new()));
    let hides = std::sync::Arc::new(std::sync::Mutex::new(0usize));
    let mut hook = WindowsHook::with_config(
        MockOut::new(),
        LogicalKey::CapsLock,
        default_bindings(),
        MotionConfig::default(),
    );
    hook.sm_mut().enable_grid(1920, 1080, GridConfig::default());
    hook.set_overlay(Box::new(RecorderOverlay {
        shows: shows.clone(),
        hides: hides.clone(),
    }));

    enter_mouse(&mut hook);
    assert!(shows.lock().unwrap().is_empty());

    hook.process_key(0x20, true, 300).unwrap(); // Space -> grid level 1
    hook.process_key(0x4B, true, 400).unwrap(); // K -> level 2
    // Frames queue in order: level 1 cannot be silently replaced by
    // level 2 before presentation.
    hook.flush_overlay().unwrap();
    assert_eq!(*shows.lock().unwrap(), vec![1]);
    hook.flush_overlay().unwrap();
    assert_eq!(*shows.lock().unwrap(), vec![1, 2]);

    hook.process_key(0x1B, true, 500).unwrap(); // Esc leaves grid
    hook.flush_overlay().unwrap();
    assert_eq!(*hides.lock().unwrap(), 1);
}

#[test]
fn windows_t18_grid_drag_holds_button_until_leader_release() {

    let mut hook = WindowsHook::with_config(
        MockOut::new(),
        LogicalKey::CapsLock,
        default_bindings(),
        MotionConfig::default(),
    );
    hook.sm_mut().enable_grid(
        1920,
        1080,
        GridConfig {
            drag_after_select: true,
            auto_free_mode_after_move: false,
            ..GridConfig::default()
        },
    );

    enter_mouse(&mut hook);
    hook.process_key(0x20, true, 300).unwrap(); // Space -> grid
    hook.process_key(0x4B, true, 400).unwrap(); // K -> level 2
    hook.process_key(0x4B, true, 500).unwrap(); // K -> centre subcell
    hook.process_key(0x4B, false, 600).unwrap(); // release -> drag start

    assert_eq!(hook.out().buttons, vec![(Button::Left, Dir::Down)]);

    hook.process_key(0x4A, true, 700).unwrap(); // J drags right
    hook.tick(100).unwrap();
    assert_eq!(hook.out().moves, vec![(30, 0)]);

    hook.process_key(0x14, false, 800).unwrap(); // leader release
    assert_eq!(
        hook.out().buttons,
        vec![(Button::Left, Dir::Down), (Button::Left, Dir::Up)]
    );
}

#[test]
fn windows_t17_grid_release_moves_absolutely_then_left_clicks() {

    let mut bindings = KeyMap::new();
    bindings.insert(LogicalKey::Space, Action::EnterGrid);
    let mut hook = WindowsHook::with_config(
        MockOut::new(),
        LogicalKey::CapsLock,
        bindings,
        MotionConfig::default(),
    );
    hook.sm_mut().enable_grid(
        1920,
        1080,
        GridConfig {
            auto_free_mode_after_move: false,
            ..GridConfig::default()
        },
    );

    enter_mouse(&mut hook);
    hook.process_key(0x20, true, 300).unwrap(); // Space -> grid
    hook.process_key(0x4B, true, 400).unwrap(); // K -> level 2
    hook.process_key(0x4B, true, 500).unwrap(); // K -> centre subcell
    hook.process_key(0x4B, false, 600).unwrap(); // release -> click

    assert_eq!(hook.out().abs, vec![(959, 540), (959, 540)]);
    assert_eq!(
        hook.out().buttons,
        vec![(Button::Left, Dir::Down), (Button::Left, Dir::Up)]
    );
}

#[test]
fn windows_t16_with_config_applies_custom_leader_and_bindings() {
    let mut custom_bindings = KeyMap::new();
    custom_bindings.insert(LogicalKey::H, Action::ClickLeft);
    let motion = MotionConfig {
        start_speed_px_s: 500,
        max_speed_px_s: 2000,
        ramp_ms: 250,
    };
    let mut hook =
        WindowsHook::with_config(MockOut::new(), LogicalKey::Space, custom_bindings, motion);

    let _ = hook.process_key(0x20, true, 0); // Space press
    let _ = hook.process_key(0x20, true, 200); // poll past threshold
    assert_eq!(hook.sm().layer(), Layer::Mouse);

    assert_eq!(
        hook.process_key(0x48, true, 300).unwrap().action,
        Some(Action::ClickLeft)
    );
    assert_eq!(
        hook.out().buttons,
        vec![(Button::Left, Dir::Down), (Button::Left, Dir::Up)]
    );
}

// consumed-event suppression (Prompt 1)


struct FailingOverlay;

impl OverlayBackend for FailingOverlay {
    fn show(&mut self, _frame: &OverlayFrame) -> Result<(), String> {
        Err("overlay show failed".to_string())
    }

    fn hide_frame(&mut self) -> Result<(), String> {
        Err("overlay hide failed".to_string())
    }
}

fn dense_grid_hook() -> WindowsHook<MockOut> {
    let mut hook = WindowsHook::with_config(
        MockOut::new(),
        LogicalKey::CapsLock,
        default_bindings(),
        MotionConfig::default(),
    );
    hook.sm_mut().enable_grid(1920, 1080, GridConfig::dense());
    hook
}

fn prepare_dense_level2_sequence() -> (
    WindowsHook<MockOut>,
    std::sync::Arc<std::sync::Mutex<Vec<FrameRecord>>>,
) {
    let frames = std::sync::Arc::new(std::sync::Mutex::new(Vec::new()));
    let mut hook = dense_grid_hook();
    hook.set_overlay(Box::new(RecordingOverlay {
        frames: frames.clone(),
    }));
    enter_mouse(&mut hook);
    hook.process_key(0x20, true, 300).unwrap(); // grid level 1
    hook.process_key(0x4B, true, 400).unwrap(); // K column
    hook.process_key(0x4B, false, 410).unwrap();
    hook.process_key(0x4B, true, 420).unwrap(); // K row: required subgrid
    (hook, frames)
}

#[test]
fn t22_unmapped_vk_and_printscreen_pass_through() {
    let mut hook = WindowsHook::new(MockOut::new());
    assert_eq!(hook.process_key(0x0D, true, 0).unwrap(), Outcome::pass());
    assert_eq!(hook.process_key(0x2C, true, 10).unwrap(), Outcome::pass()); // PrintScreen
    assert_eq!(hook.process_key(0x2C, false, 20).unwrap(), Outcome::pass());
}

#[test]
fn t23_printscreen_in_grid_passes_without_state_change() {
    let mut hook = dense_grid_hook();
    enter_mouse(&mut hook);
    hook.process_key(0x20, true, 300).unwrap(); // Space -> grid level 1
    let before = hook.sm().grid_overlay();
    assert!(before.is_some());
    assert_eq!(hook.process_key(0x2C, true, 400).unwrap(), Outcome::pass());
    assert_eq!(hook.process_key(0x2C, false, 410).unwrap(), Outcome::pass());
    assert_eq!(hook.sm().grid_overlay(), before);
    assert_eq!(hook.sm().layer(), Layer::Grid);
}

#[test]
fn t24_unbound_key_in_mouse_passes_without_action() {
    let mut bindings = KeyMap::new();
    bindings.insert(LogicalKey::H, Action::ClickLeft);
    let mut hook = WindowsHook::with_config(
        MockOut::new(),
        LogicalKey::CapsLock,
        bindings,
        MotionConfig::default(),
    );
    enter_mouse(&mut hook);
    let outcome = hook.process_key(0x4A, true, 300).unwrap(); // J mapped, unbound
    assert_eq!(outcome, Outcome::pass());
    assert!(hook.out().moves.is_empty());
}

#[test]
fn t25_bound_key_in_mouse_is_consumed() {
    let mut hook = WindowsHook::new(MockOut::new());
    enter_mouse(&mut hook);
    let outcome = hook.process_key(0x4A, true, 300).unwrap();
    assert!(outcome.consumed);
    assert_eq!(outcome.action, Some(Action::MoveRight));
}

#[test]
fn t26_win_shift_s_chord_passes_and_tracking_clears() {
    let mut hook = dense_grid_hook();
    enter_mouse(&mut hook);
    hook.process_key(0x20, true, 300).unwrap(); // grid level 1
    let before = hook.sm().grid_overlay();

    assert_eq!(hook.process_key(0x5B, true, 400).unwrap(), Outcome::pass()); // LWin down
    assert_eq!(hook.process_key(0x53, true, 410).unwrap(), Outcome::pass()); // S blocked by the chord
    assert_eq!(hook.sm().grid_overlay(), before);
    assert_eq!(hook.sm().layer(), Layer::Grid);

    assert_eq!(hook.process_key(0x5B, false, 420).unwrap(), Outcome::pass()); // LWin up
    let outcome = hook.process_key(0x53, true, 430).unwrap();
    assert!(outcome.consumed, "S must bind again after Win releases");
}

#[test]
fn t27_leader_events_are_consumed_and_exit() {
    let mut hook = WindowsHook::new(MockOut::new());
    assert!(hook.process_key(0x14, true, 0).unwrap().consumed);
    assert!(hook.process_key(0x14, true, 200).unwrap().consumed); // promotes
    assert!(hook.process_key(0x14, false, 400).unwrap().consumed); // exits
    assert_eq!(hook.sm().layer(), Layer::Initial);
}

#[test]
fn t28_esc_in_mouse_is_consumed_and_exits() {
    let mut hook = WindowsHook::new(MockOut::new());
    enter_mouse(&mut hook);
    let outcome = hook.process_key(0x1B, true, 300).unwrap();
    assert!(outcome.consumed);
    assert_eq!(hook.sm().layer(), Layer::Initial);
}

#[test]
fn t29_overlay_presentation_is_deferred_to_flush() {
    let shows = std::sync::Arc::new(std::sync::Mutex::new(Vec::new()));
    let hides = std::sync::Arc::new(std::sync::Mutex::new(0usize));
    let mut hook = WindowsHook::with_config(
        MockOut::new(),
        LogicalKey::CapsLock,
        default_bindings(),
        MotionConfig::default(),
    );
    hook.sm_mut().enable_grid(1920, 1080, GridConfig::default());
    hook.set_overlay(Box::new(RecorderOverlay {
        shows: shows.clone(),
        hides: hides.clone(),
    }));

    enter_mouse(&mut hook);
    hook.process_key(0x20, true, 300).unwrap(); // grid level 1 queued
    assert!(
        shows.lock().unwrap().is_empty(),
        "callback path must not present"
    );

    hook.flush_overlay().unwrap();
    assert_eq!(*shows.lock().unwrap(), vec![1]);

    hook.process_key(0x4B, true, 400).unwrap(); // level 2 queued
    assert_eq!(*shows.lock().unwrap(), vec![1]);
    hook.flush_overlay().unwrap();
    assert_eq!(*shows.lock().unwrap(), vec![1, 2]);
}

#[test]
fn t33_fast_nested_key_waits_until_subgrid_is_presented() {
    let (mut hook, frames) = prepare_dense_level2_sequence();
    let abs_before = hook.out().abs.len();

    // Fast third key arrives before the event loop has presented level 2.
    let outcome = hook.process_key(0x51, true, 430).unwrap(); // Q nested cell
    assert!(outcome.consumed);
    assert!(outcome.action.is_none());
    assert_eq!(
        hook.out().abs.len(),
        abs_before,
        "nested MoveTo overtook overlay"
    );

    hook.flush_overlay().unwrap();
    assert_eq!(
        frames.lock().unwrap().as_slice(),
        &[FrameRecord {
            level: 1,
            one: 0,
            two: 300,
        }]
    );
    assert_eq!(
        hook.out().abs.len(),
        abs_before,
        "level 1 flush cannot drain nested input"
    );

    hook.flush_overlay().unwrap();
    assert_eq!(
        frames.lock().unwrap().as_slice(),
        &[
            FrameRecord {
                level: 1,
                one: 0,
                two: 300,
            },
            FrameRecord {
                level: 1,
                one: 0,
                two: 30,
            }
        ]
    );
    assert_eq!(
        hook.out().abs.len(),
        abs_before,
        "bank-narrow flush cannot drain nested input"
    );

    hook.flush_overlay().unwrap();
    assert_eq!(
        frames.lock().unwrap().as_slice(),
        &[
            FrameRecord {
                level: 1,
                one: 0,
                two: 300,
            },
            FrameRecord {
                level: 1,
                one: 0,
                two: 30,
            },
            FrameRecord {
                level: 2,
                one: 30,
                two: 299,
            },
        ]
    );
    assert_eq!(
        hook.out().abs.len(),
        abs_before + 1,
        "deferred nested press must run after level 2"
    );
}

#[test]
fn t34_batched_dense_replay_presents_subgrid_before_nested_selection() {
    for _ in 0..1_000 {
        let (mut hook, frames) = prepare_dense_level2_sequence();
        let abs_before = hook.out().abs.len();
        hook.process_key(0x51, true, 430).unwrap(); // Q nested
        hook.process_key(0x51, false, 440).unwrap(); // release, also deferred
        for _ in 0..4 {
            hook.flush_overlay().unwrap();
        }
        assert!(
            hook.out().abs.len() > abs_before,
            "deferred nested input never ran"
        );
        let frames = frames.lock().unwrap();
        let level2 = frames
            .iter()
            .position(|frame| frame.level == 2 && frame.one == 30 && frame.two == 299);
        assert!(level2.is_some(), "required level 2 frame was not presented");
        assert_eq!(
            hook.out().buttons.len(),
            2,
            "deferred release must click after level 2"
        );
    }
}

#[test]
fn t30_flush_surfaces_overlay_show_error() {
    let mut hook = WindowsHook::with_config(
        MockOut::new(),
        LogicalKey::CapsLock,
        default_bindings(),
        MotionConfig::default(),
    );
    hook.sm_mut().enable_grid(1920, 1080, GridConfig::default());
    hook.set_overlay(Box::new(FailingOverlay));
    enter_mouse(&mut hook);
    hook.process_key(0x20, true, 300).unwrap(); // queue level 1
    let err = hook.flush_overlay().unwrap_err();
    assert_eq!(err, "overlay show failed");
}

#[test]
fn t31_release_capture_releases_held_drag_button() {
    let mut hook = WindowsHook::with_config(
        MockOut::new(),
        LogicalKey::CapsLock,
        default_bindings(),
        MotionConfig::default(),
    );
    hook.sm_mut().enable_grid(
        1920,
        1080,
        GridConfig {
            drag_after_select: true,
            auto_free_mode_after_move: false,
            ..GridConfig::default()
        },
    );
    enter_mouse(&mut hook);
    hook.process_key(0x20, true, 300).unwrap();
    hook.process_key(0x4B, true, 400).unwrap();
    hook.process_key(0x4B, true, 500).unwrap();
    hook.process_key(0x4B, false, 600).unwrap(); // drag started, button held
    assert_eq!(hook.out().buttons, vec![(Button::Left, Dir::Down)]);
    hook.release_capture();
    assert_eq!(
        hook.out().buttons,
        vec![(Button::Left, Dir::Down), (Button::Left, Dir::Up)]
    );
    assert_eq!(hook.sm().layer(), Layer::Initial);
}

// Apply-to-engine (Prompt 3)

#[test]
fn t32_apply_config_swaps_leader_bindings_grid_and_theme() {

    let mut config = Config::default();
    config.settings.leader = LogicalKey::Space;
    config.mouse_bindings.clear();
    config
        .mouse_bindings
        .insert(LogicalKey::H, Action::ClickLeft);
    config.grid = GridConfig::default(); // simple 3x3
    config.theme.panel = (10, 20, 30);

    let mut hook = WindowsHook::with_config(
        MockOut::new(),
        LogicalKey::CapsLock,
        default_bindings(),
        MotionConfig::default(),
    );
    hook.set_monitors(vec![Rect::new(0, 0, 1280, 720)]);
    hook.apply_config(config).unwrap();

    // Applying a configuration exits any active layer.
    assert_eq!(hook.sm().layer(), Layer::Initial);
    // The old leader no longer arms capture.
    hook.process_key(0x14, true, 0).unwrap();
    hook.process_key(0x14, true, 300).unwrap();
    assert_eq!(hook.sm().layer(), Layer::Initial);
    // The new leader does.
    hook.process_key(0x20, true, 500).unwrap();
    hook.process_key(0x20, true, 700).unwrap();
    assert_eq!(hook.sm().layer(), Layer::Mouse);
    // The new binding is live.
    let outcome = hook.process_key(0x48, true, 800).unwrap();
    assert_eq!(outcome.action, Some(Action::ClickLeft));
    // Grid uses the applied monitor rect: the simple 3x3 grid over
    // 1280x720 tiles from (0,0), so the first cell is 426x240.
    assert!(hook.sm().grid_overlay().is_none());
    hook.show_grid(true).unwrap();
    let frame = hook.sm().grid_overlay().unwrap();
    assert_eq!(frame.cells[0].rect.width, 426);
    assert_eq!(frame.cells[0].rect.height, 240);
}

#[test]
fn t35_settings_focus_suspension_restores_previous_enabled_state() {
    let mut hook = WindowsHook::new(MockOut::new());
    assert!(!hook.sm().is_paused());

    hook.suspend_for_settings_focus(true).unwrap();
    assert!(hook.sm().is_paused());
    hook.suspend_for_settings_focus(false).unwrap();
    assert!(!hook.sm().is_paused());

    hook.set_paused(true).unwrap();
    hook.suspend_for_settings_focus(true).unwrap();
    assert!(hook.sm().is_paused());
    hook.suspend_for_settings_focus(false).unwrap();
    assert!(hook.sm().is_paused());
}

#[test]
fn t36_apply_config_enabled_false_pauses_runtime() {
    let mut hook = WindowsHook::new(MockOut::new());
    let config = Config {
        enabled: false,
        ..Config::default()
    };
    hook.apply_config(config).unwrap();
    assert!(hook.sm().is_paused());

    let config = Config {
        enabled: true,
        ..Config::default()
    };
    hook.apply_config(config).unwrap();
    assert!(!hook.sm().is_paused());
}

#[test]
fn t37_apply_config_propagates_hold_ms_and_scroll_step() {
    let mut hook = WindowsHook::new(MockOut::new());
    let mut config = Config::default();
    config.settings.hold_ms = 350;
    config.settings.scroll_step = 3;
    hook.apply_config(config).unwrap();
    assert_eq!(hook.sm().hold_ms(), 350);

    // Scroll actions use the applied step.
    hook.execute(Action::ScrollUp).unwrap();
    hook.execute(Action::ScrollDown).unwrap();
    assert_eq!(hook.out().scrolls, vec![(0, 3), (0, -3)]);
}

#[test]
fn passed_keys_touch_neither_output_nor_overlay_queue() {
    let mut hook = WindowsHook::with_config(
        MockOut::new(),
        LogicalKey::CapsLock,
        default_bindings(),
        MotionConfig::default(),
    );
    enter_mouse(&mut hook);
    let o = hook.process_key(0x0D, true, 300).unwrap(); // Enter has no engine key
    assert_eq!(o, Outcome { consumed: false, action: None });
    assert!(hook.out().moves.is_empty() && hook.out().abs.is_empty());
    assert!(hook.out().buttons.is_empty() && hook.out().scrolls.is_empty());
    assert_eq!(hook.flush_overlay(), Ok(()));
}

#[test]
fn hiding_an_overlay_that_is_not_shown_succeeds() {
    let mut hook = WindowsHook::new(MockOut::new());
    assert_eq!(hook.hide_overlay(), Ok(()));
    assert_eq!(hook.flush_overlay(), Ok(()));
}

struct ThemeLog {
    themes: Rc<RefCell<Vec<OverlayTheme>>>,
}

impl OverlayFactory for ThemeLog {
    fn build(&self, theme: OverlayTheme) -> Renderer {
        self.themes.borrow_mut().push(theme);
        Renderer(Box::new(NullOverlay))
    }
}

#[test]
fn applying_a_config_rebuilds_the_overlay_once_with_its_theme() {
    let themes = Rc::new(RefCell::new(Vec::new()));
    let mut hook = WindowsHook::new(MockOut::new());
    hook.set_overlay_factory(Box::new(ThemeLog { themes: themes.clone() }));
    let mut config = Config::default();
    config.theme.panel = (10, 20, 30);
    config.theme.border_px = 5;
    let expected = config.theme.to_overlay_theme();
    hook.apply_config(config).unwrap();
    assert_eq!(*themes.borrow(), vec![expected]);
}

#[test]
fn a_failure_keeps_the_first_error_releases_capture_and_stops() {
    let mut hook = WindowsHook::with_config(
        CommandLog::new(),
        LogicalKey::CapsLock,
        default_bindings(),
        MotionConfig::default(),
    );
    enter_mouse_log(&mut hook);
    let mut state = Failure { error: None, quit_requested: false };
    hook.fail(&mut state, "first".to_string());
    hook.fail(&mut state, "second".to_string());
    assert_eq!(state.error, Some("first".to_string()));
    assert!(state.quit_requested);
    assert_eq!(hook.sm().layer(), Layer::Initial);
}

fn enter_mouse_log(hook: &mut WindowsHook<CommandLog>) {
    let _ = hook.process_key(0x14, true, 0);
    let _ = hook.process_key(0x14, true, 200);
}

#[test]
fn a_logging_backend_is_handed_the_commands_of_each_action() {
    let mut hook = WindowsHook::with_config(
        CommandLog::new(),
        LogicalKey::CapsLock,
        default_bindings(),
        MotionConfig::default(),
    );
    enter_mouse_log(&mut hook);
    hook.process_key(0x46, true, 300).unwrap(); // F: click left
    hook.process_key(0x57, true, 400).unwrap(); // W: scroll up
    assert_eq!(
        hook.out().entries,
        vec![OutputCommand::Click(Button::Left), OutputCommand::Scroll(0, 1)]
    );
}
