use clickless::backend::{Button, Dir, OutputBackend, OverlayBackend};
use clickless::grid::{GridConfig, OverlayFrame};
use clickless::keys::{default_bindings, Action, KeyMap, Layer, LogicalKey, MotionConfig};
use clickless::macos::MacosHook;


struct MockOut {
    moves: Vec<(i32, i32)>,
    abs: Vec<(i32, i32)>,
    buttons: Vec<(Button, Dir)>,
    scrolls: Vec<(i32, i32)>,
}

impl MockOut {
    fn new() -> Self {
        Self {
            moves: Vec::new(),
            abs: Vec::new(),
            buttons: Vec::new(),
            scrolls: Vec::new(),
        }
    }
}

impl OutputBackend for MockOut {
    fn move_rel(&mut self, dx: i32, dy: i32) -> Result<(), String> {
        self.moves.push((dx, dy));
        Ok(())
    }

    fn move_abs(&mut self, x: i32, y: i32) -> Result<(), String> {
        self.abs.push((x, y));
        Ok(())
    }
    fn button(&mut self, b: Button, d: Dir) -> Result<(), String> {
        self.buttons.push((b, d));
        Ok(())
    }
    fn scroll(&mut self, dx: i32, dy: i32) -> Result<(), String> {
        self.scrolls.push((dx, dy));
        Ok(())
    }
}

fn enter_mouse(hook: &mut MacosHook<MockOut>) {
    let _ = hook.process_key(0x39, true, 0); // CapsLock press
    let _ = hook.process_key(0x39, true, 200); // poll past threshold
}

#[test]
fn lib_t01_unmapped_code_yields_none() {
    let mut hook = MacosHook::new(MockOut::new());
    assert_eq!(hook.process_key(0x24, true, 0).unwrap(), None); // kVK_Return
}

#[test]
fn lib_t02_capslock_hold_enters_mouse_layer() {
    let mut hook = MacosHook::new(MockOut::new());
    hook.process_key(0x39, true, 0).unwrap();
    hook.process_key(0x39, true, 200).unwrap();
    assert_eq!(hook.sm().layer(), Layer::Mouse);
}

#[test]
fn lib_t03_j_in_mouse_yields_move_right() {
    let mut hook = MacosHook::new(MockOut::new());
    enter_mouse(&mut hook);
    assert_eq!(
        hook.process_key(0x26, true, 300).unwrap(),
        Some(Action::MoveRight)
    );
}

#[test]
fn lib_t04_h_in_mouse_yields_move_left() {
    let mut hook = MacosHook::new(MockOut::new());
    enter_mouse(&mut hook);
    assert_eq!(
        hook.process_key(0x04, true, 300).unwrap(),
        Some(Action::MoveLeft)
    );
}

#[test]
fn lib_t05_k_in_mouse_yields_move_up() {
    let mut hook = MacosHook::new(MockOut::new());
    enter_mouse(&mut hook);
    assert_eq!(
        hook.process_key(0x28, true, 300).unwrap(),
        Some(Action::MoveUp)
    );
}

#[test]
fn lib_t06_l_in_mouse_yields_move_down() {
    let mut hook = MacosHook::new(MockOut::new());
    enter_mouse(&mut hook);
    assert_eq!(
        hook.process_key(0x25, true, 300).unwrap(),
        Some(Action::MoveDown)
    );
}

#[test]
fn lib_t07_f_in_mouse_yields_click_left() {
    let mut hook = MacosHook::new(MockOut::new());
    enter_mouse(&mut hook);
    assert_eq!(
        hook.process_key(0x03, true, 300).unwrap(),
        Some(Action::ClickLeft)
    );
    assert_eq!(
        hook.out().buttons,
        vec![(Button::Left, Dir::Down), (Button::Left, Dir::Up)]
    );
}

#[test]
fn lib_t08_d_in_mouse_yields_click_right() {
    let mut hook = MacosHook::new(MockOut::new());
    enter_mouse(&mut hook);
    assert_eq!(
        hook.process_key(0x02, true, 300).unwrap(),
        Some(Action::ClickRight)
    );
    assert_eq!(
        hook.out().buttons,
        vec![(Button::Right, Dir::Down), (Button::Right, Dir::Up)]
    );
}

#[test]
fn lib_t09_w_in_mouse_yields_scroll_up() {
    let mut hook = MacosHook::new(MockOut::new());
    enter_mouse(&mut hook);
    assert_eq!(
        hook.process_key(0x0D, true, 300).unwrap(),
        Some(Action::ScrollUp)
    );
    assert_eq!(hook.out().scrolls, vec![(0, 1)]);
}

#[test]
fn lib_t20_set_scroll_step_scales_scroll_actions() {
    let mut hook = MacosHook::new(MockOut::new());
    hook.set_scroll_step(3);
    enter_mouse(&mut hook);
    hook.process_key(0x0D, true, 300).unwrap(); // W -> ScrollUp
    hook.process_key(0x01, true, 400).unwrap(); // S -> ScrollDown
    assert_eq!(hook.out().scrolls, vec![(0, 3), (0, -3)]);
}

#[test]
fn lib_t10_s_in_mouse_yields_scroll_down() {
    let mut hook = MacosHook::new(MockOut::new());
    enter_mouse(&mut hook);
    assert_eq!(
        hook.process_key(0x01, true, 300).unwrap(),
        Some(Action::ScrollDown)
    );
    assert_eq!(hook.out().scrolls, vec![(0, -1)]);
}

#[test]
fn lib_t11_tick_moves_cursor() {
    let mut hook = MacosHook::new(MockOut::new());
    enter_mouse(&mut hook);
    hook.process_key(0x26, true, 300).unwrap(); // J
    hook.tick(100).unwrap();
    assert_eq!(hook.out().moves, vec![(30, 0)]);
}

#[test]
fn lib_t12_esc_exits_mouse_layer() {
    let mut hook = MacosHook::new(MockOut::new());
    enter_mouse(&mut hook);
    hook.process_key(0x35, true, 300).unwrap(); // Esc
    assert_eq!(hook.sm().layer(), Layer::Initial);
}

#[test]
fn lib_t13_capslock_release_exits_mouse() {
    let mut hook = MacosHook::new(MockOut::new());
    enter_mouse(&mut hook);
    hook.process_key(0x39, false, 400).unwrap(); // CapsLock release
    assert_eq!(hook.sm().layer(), Layer::Initial);
}

#[test]
fn lib_t14_u_in_mouse_yields_speed_down() {
    let mut hook = MacosHook::new(MockOut::new());
    enter_mouse(&mut hook);
    assert_eq!(
        hook.process_key(0x20, true, 300).unwrap(),
        Some(Action::SpeedDown)
    );
}

#[test]
fn lib_t15_o_in_mouse_yields_speed_up() {
    let mut hook = MacosHook::new(MockOut::new());
    enter_mouse(&mut hook);
    assert_eq!(
        hook.process_key(0x1F, true, 300).unwrap(),
        Some(Action::SpeedUp)
    );
}

#[derive(Default)]
struct RecorderOverlay {
    shows: std::sync::Arc<std::sync::Mutex<Vec<u8>>>,
    hides: std::sync::Arc<std::sync::Mutex<usize>>,
}

impl OverlayBackend for RecorderOverlay {
    fn show(&mut self, frame: &OverlayFrame) -> Result<(), String> {
        self.shows.lock().unwrap().push(frame.level);
        Ok(())
    }

    fn hide_frame(&mut self) -> Result<(), String> {
        *self.hides.lock().unwrap() += 1;
        Ok(())
    }
}

#[test]
fn lib_t19_grid_overlay_shows_each_level_then_hides() {
    

    let shows = std::sync::Arc::new(std::sync::Mutex::new(Vec::new()));
    let hides = std::sync::Arc::new(std::sync::Mutex::new(0usize));
    let mut hook = MacosHook::with_config(
        MockOut::new(),
        LogicalKey::CapsLock,
        default_bindings(),
        MotionConfig::default(),
    );
    hook.sm_mut().enable_grid(1920, 1080, GridConfig::default());
    hook.set_overlay(Box::new(RecorderOverlay {
        shows: shows.clone(),
        hides: hides.clone(),
    }));

    enter_mouse(&mut hook);
    assert!(shows.lock().unwrap().is_empty());

    hook.process_key(0x31, true, 300).unwrap(); // Space -> grid level 1
    hook.process_key(0x28, true, 400).unwrap(); // K -> level 2
    assert_eq!(*shows.lock().unwrap(), vec![1, 2]);

    hook.process_key(0x35, true, 500).unwrap(); // Esc leaves grid
    assert_eq!(*hides.lock().unwrap(), 1);
}

#[test]
fn lib_t18_grid_drag_holds_button_until_leader_release() {
    

    let mut hook = MacosHook::with_config(
        MockOut::new(),
        LogicalKey::CapsLock,
        default_bindings(),
        MotionConfig::default(),
    );
    hook.sm_mut().enable_grid(
        1920,
        1080,
        GridConfig {
            drag_after_select: true,
            auto_free_mode_after_move: false,
            ..GridConfig::default()
        },
    );

    enter_mouse(&mut hook);
    hook.process_key(0x31, true, 300).unwrap(); // Space -> grid
    hook.process_key(0x28, true, 400).unwrap(); // K -> level 2
    hook.process_key(0x28, true, 500).unwrap(); // K -> centre subcell
    hook.process_key(0x28, false, 600).unwrap(); // release -> drag start

    assert_eq!(hook.out().buttons, vec![(Button::Left, Dir::Down)]);

    hook.process_key(0x26, true, 700).unwrap(); // J drags right
    hook.tick(100).unwrap();
    assert_eq!(hook.out().moves, vec![(30, 0)]);

    hook.process_key(0x39, false, 800).unwrap(); // leader release
    assert_eq!(
        hook.out().buttons,
        vec![(Button::Left, Dir::Down), (Button::Left, Dir::Up)]
    );
}

#[test]
fn lib_t17_grid_release_moves_absolutely_then_left_clicks() {
    

    let mut bindings = KeyMap::new();
    bindings.insert(LogicalKey::Space, Action::EnterGrid);
    let mut hook = MacosHook::with_config(
        MockOut::new(),
        LogicalKey::CapsLock,
        bindings,
        MotionConfig::default(),
    );
    hook.sm_mut().enable_grid(
        1920,
        1080,
        GridConfig {
            auto_free_mode_after_move: false,
            ..GridConfig::default()
        },
    );

    enter_mouse(&mut hook);
    hook.process_key(0x31, true, 300).unwrap(); // Space -> grid
    hook.process_key(0x28, true, 400).unwrap(); // K -> level 2
    hook.process_key(0x28, true, 500).unwrap(); // K -> centre subcell
    hook.process_key(0x28, false, 600).unwrap(); // release -> click

    assert_eq!(hook.out().abs, vec![(959, 540), (959, 540)]);
    assert_eq!(
        hook.out().buttons,
        vec![(Button::Left, Dir::Down), (Button::Left, Dir::Up)]
    );
}

#[test]
fn lib_t16_with_config_applies_custom_leader_and_bindings() {
    let mut custom_bindings = KeyMap::new();
    custom_bindings.insert(LogicalKey::H, Action::ClickLeft);
    let motion = MotionConfig {
        start_speed_px_s: 500,
        max_speed_px_s: 2000,
        ramp_ms: 250,
    };
    let mut hook =
        MacosHook::with_config(MockOut::new(), LogicalKey::Space, custom_bindings, motion);

    let _ = hook.process_key(0x31, true, 0); // Space press
    let _ = hook.process_key(0x31, true, 200); // poll past threshold
    assert_eq!(hook.sm().layer(), Layer::Mouse);

    assert_eq!(
        hook.process_key(0x04, true, 300).unwrap(),
        Some(Action::ClickLeft)
    );
    assert_eq!(
        hook.out().buttons,
        vec![(Button::Left, Dir::Down), (Button::Left, Dir::Up)]
    );
}
