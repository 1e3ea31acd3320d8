use clickless::backend::{Button, Dir, OutputBackend, OverlayBackend};
use clickless::grid::{GridConfig, OverlayFrame};
use clickless::keys::{default_bindings, Action, KeyMap, Layer, LogicalKey, MotionConfig};
use clickless::linux::LinuxHook;


struct MockOut {
    moves: Vec<(i32, i32)>,
    abs: Vec<(i32, i32)>,
    buttons: Vec<(Button, Dir)>,
    scrolls: Vec<(i32, i32)>,
}

impl MockOut {
    fn new() -> Self {
        Self {
            moves: Vec::new(),
            abs: Vec::new(),
            buttons: Vec::new(),
            scrolls: Vec::new(),
        }
    }
}

impl OutputBackend for MockOut {
    fn move_rel(&mut self, dx: i32, dy: i32) -> Result<(), String> {
        self.moves.push((dx, dy));
        Ok(())
    }

    fn move_abs(&mut self, x: i32, y: i32) -> Result<(), String> {
        self.abs.push((x, y));
        Ok(())
    }
    fn button(&mut self, b: Button, d: Dir) -> Result<(), String> {
        self.buttons.push((b, d));
        Ok(())
    }
    fn scroll(&mut self, dx: i32, dy: i32) -> Result<(), String> {
        self.scrolls.push((dx, dy));
        Ok(())
    }
}

fn enter_mouse(hook: &mut LinuxHook<MockOut>) {
    let _ = hook.process_key(58, true, 0); // CapsLock press
    let _ = hook.process_key(58, true, 200); // poll past threshold
}

#[test]
fn t01_unmapped_code_yields_none() {
    let mut hook = LinuxHook::new(MockOut::new());
    assert_eq!(hook.process_key(28, true, 0).unwrap(), None); // KEY_ENTER
}

#[test]
fn t02_capslock_hold_enters_mouse_layer() {
    let mut hook = LinuxHook::new(MockOut::new());
    hook.process_key(58, true, 0).unwrap();
    hook.process_key(58, true, 200).unwrap();
    assert_eq!(hook.sm().layer(), Layer::Mouse);
}

#[test]
fn t03_j_in_mouse_yields_move_right() {
    let mut hook = LinuxHook::new(MockOut::new());
    enter_mouse(&mut hook);
    assert_eq!(
        hook.process_key(36, true, 300).unwrap(),
        Some(Action::MoveRight)
    );
}

#[test]
fn t04_h_in_mouse_yields_move_left() {
    let mut hook = LinuxHook::new(MockOut::new());
    enter_mouse(&mut hook);
    assert_eq!(
        hook.process_key(35, true, 300).unwrap(),
        Some(Action::MoveLeft)
    );
}

#[test]
fn t05_k_in_mouse_yields_move_up() {
    let mut hook = LinuxHook::new(MockOut::new());
    enter_mouse(&mut hook);
    assert_eq!(
        hook.process_key(37, true, 300).unwrap(),
        Some(Action::MoveUp)
    );
}

#[test]
fn t06_l_in_mouse_yields_move_down() {
    let mut hook = LinuxHook::new(MockOut::new());
    enter_mouse(&mut hook);
    assert_eq!(
        hook.process_key(38, true, 300).unwrap(),
        Some(Action::MoveDown)
    );
}

#[test]
fn t07_f_in_mouse_yields_click_left() {
    let mut hook = LinuxHook::new(MockOut::new());
    enter_mouse(&mut hook);
    assert_eq!(
        hook.process_key(33, true, 300).unwrap(),
        Some(Action::ClickLeft)
    );
    assert_eq!(
        hook.out().buttons,
        vec![(Button::Left, Dir::Down), (Button::Left, Dir::Up)]
    );
}

#[test]
fn t08_d_in_mouse_yields_click_right() {
    let mut hook = LinuxHook::new(MockOut::new());
    enter_mouse(&mut hook);
    assert_eq!(
        hook.process_key(32, true, 300).unwrap(),
        Some(Action::ClickRight)
    );
    assert_eq!(
        hook.out().buttons,
        vec![(Button::Right, Dir::Down), (Button::Right, Dir::Up)]
    );
}

#[test]
fn t09_w_in_mouse_yields_scroll_up() {
    let mut hook = LinuxHook::new(MockOut::new());
    enter_mouse(&mut hook);
    assert_eq!(
        hook.process_key(17, true, 300).unwrap(),
        Some(Action::ScrollUp)
    );
    assert_eq!(hook.out().scrolls, vec![(0, 1)]);
}

#[test]
fn t20_set_scroll_step_scales_scroll_actions() {
    let mut hook = LinuxHook::new(MockOut::new());
    hook.set_scroll_step(3);
    enter_mouse(&mut hook);
    hook.process_key(17, true, 300).unwrap(); // W -> ScrollUp
    hook.process_key(31, true, 400).unwrap(); // S -> ScrollDown
    assert_eq!(hook.out().scrolls, vec![(0, 3), (0, -3)]);
}

#[test]
fn t10_s_in_mouse_yields_scroll_down() {
    let mut hook = LinuxHook::new(MockOut::new());
    enter_mouse(&mut hook);
    assert_eq!(
        hook.process_key(31, true, 300).unwrap(),
        Some(Action::ScrollDown)
    );
    assert_eq!(hook.out().scrolls, vec![(0, -1)]);
}

#[test]
fn t11_tick_moves_cursor() {
    let mut hook = LinuxHook::new(MockOut::new());
    enter_mouse(&mut hook);
    hook.process_key(36, true, 300).unwrap(); // J
    hook.tick(100).unwrap();
    assert_eq!(hook.out().moves, vec![(30, 0)]);
}

#[test]
fn t12_esc_exits_mouse_layer() {
    let mut hook = LinuxHook::new(MockOut::new());
    enter_mouse(&mut hook);
    hook.process_key(1, true, 300).unwrap(); // Esc
    assert_eq!(hook.sm().layer(), Layer::Initial);
}

#[test]
fn t13_capslock_release_exits_mouse() {
    let mut hook = LinuxHook::new(MockOut::new());
    enter_mouse(&mut hook);
    hook.process_key(58, false, 400).unwrap(); // CapsLock release
    assert_eq!(hook.sm().layer(), Layer::Initial);
}

#[test]
fn t14_u_in_mouse_yields_speed_down() {
    let mut hook = LinuxHook::new(MockOut::new());
    enter_mouse(&mut hook);
    assert_eq!(
        hook.process_key(22, true, 300).unwrap(),
        Some(Action::SpeedDown)
    );
}

#[test]
fn t15_o_in_mouse_yields_speed_up() {
    let mut hook = LinuxHook::new(MockOut::new());
    enter_mouse(&mut hook);
    assert_eq!(
        hook.process_key(24, true, 300).unwrap(),
        Some(Action::SpeedUp)
    );
}

#[derive(Default)]
struct RecorderOverlay {
    shows: std::sync::Arc<std::sync::Mutex<Vec<u8>>>,
    hides: std::sync::Arc<std::sync::Mutex<usize>>,
}

impl OverlayBackend for RecorderOverlay {
    fn show(&mut self, frame: &OverlayFrame) -> Result<(), String> {
        self.shows.lock().unwrap().push(frame.level);
        Ok(())
    }

    fn hide_frame(&mut self) -> Result<(), String> {
        *self.hides.lock().unwrap() += 1;
        Ok(())
    }
}

#[test]
fn t19_grid_overlay_shows_each_level_then_hides() {
    

    let shows = std::sync::Arc::new(std::sync::Mutex::new(Vec::new()));
    let hides = std::sync::Arc::new(std::sync::Mutex::new(0usize));
    let mut hook = LinuxHook::with_config(
        MockOut::new(),
        LogicalKey::CapsLock,
        default_bindings(),
        MotionConfig::default(),
    );
    hook.sm_mut().enable_grid(1920, 1080, GridConfig::default());
    hook.set_overlay(Box::new(RecorderOverlay {
        shows: shows.clone(),
        hides: hides.clone(),
    }));

    enter_mouse(&mut hook);
    assert!(shows.lock().unwrap().is_empty());

    hook.process_key(57, true, 300).unwrap(); // Space -> grid level 1
    hook.process_key(37, true, 400).unwrap(); // K -> level 2
    assert_eq!(*shows.lock().unwrap(), vec![1, 2]);

    hook.process_key(1, true, 500).unwrap(); // Esc leaves grid
    assert_eq!(*hides.lock().unwrap(), 1);
}

#[test]
fn t18_grid_drag_holds_button_until_leader_release() {
    

    let mut hook = LinuxHook::with_config(
        MockOut::new(),
        LogicalKey::CapsLock,
        default_bindings(),
        MotionConfig::default(),
    );
    hook.sm_mut().enable_grid(
        1920,
        1080,
        GridConfig {
            drag_after_select: true,
            auto_free_mode_after_move: false,
            ..GridConfig::default()
        },
    );

    enter_mouse(&mut hook);
    hook.process_key(57, true, 300).unwrap(); // Space -> grid
    hook.process_key(37, true, 400).unwrap(); // K -> level 2
    hook.process_key(37, true, 500).unwrap(); // K -> centre subcell
    hook.process_key(37, false, 600).unwrap(); // release -> drag start

    assert_eq!(hook.out().buttons, vec![(Button::Left, Dir::Down)]);

    hook.process_key(36, true, 700).unwrap(); // J drags right
    hook.tick(100).unwrap();
    assert_eq!(hook.out().moves, vec![(30, 0)]);

    hook.process_key(58, false, 800).unwrap(); // leader release
    assert_eq!(
        hook.out().buttons,
        vec![(Button::Left, Dir::Down), (Button::Left, Dir::Up)]
    );
}

#[test]
fn t17_grid_release_moves_absolutely_then_left_clicks() {
    

    let mut bindings = KeyMap::new();
    bindings.insert(LogicalKey::Space, Action::EnterGrid);
    let mut hook = LinuxHook::with_config(
        MockOut::new(),
        LogicalKey::CapsLock,
        bindings,
        MotionConfig::default(),
    );
    hook.sm_mut().enable_grid(
        1920,
        1080,
        GridConfig {
            auto_free_mode_after_move: false,
            ..GridConfig::default()
        },
    );

    enter_mouse(&mut hook);
    hook.process_key(57, true, 300).unwrap(); // Space -> grid
    hook.process_key(37, true, 400).unwrap(); // K -> level 2
    hook.process_key(37, true, 500).unwrap(); // K -> centre subcell
    hook.process_key(37, false, 600).unwrap(); // release -> click

    assert_eq!(hook.out().abs, vec![(959, 540), (959, 540)]);
    assert_eq!(
        hook.out().buttons,
        vec![(Button::Left, Dir::Down), (Button::Left, Dir::Up)]
    );
}

#[test]
fn t16_with_config_applies_custom_leader_and_bindings() {
    let mut custom_bindings = KeyMap::new();
    custom_bindings.insert(LogicalKey::H, Action::ClickLeft);
    let motion = MotionConfig {
        start_speed_px_s: 500,
        max_speed_px_s: 2000,
        ramp_ms: 250,
    };
    let mut hook =
        LinuxHook::with_config(MockOut::new(), LogicalKey::Space, custom_bindings, motion);

    let _ = hook.process_key(57, true, 0); // Space press
    let _ = hook.process_key(57, true, 200); // poll past threshold
    assert_eq!(hook.sm().layer(), Layer::Mouse);

    assert_eq!(
        hook.process_key(35, true, 300).unwrap(),
        Some(Action::ClickLeft)
    );
    assert_eq!(
        hook.out().buttons,
        vec![(Button::Left, Dir::Down), (Button::Left, Dir::Up)]
    );
}
