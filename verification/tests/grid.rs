use clickless::grid::{GridConfig, GridNavAction, GridNavigator, GridState, Rect};
use clickless::keys::LogicalKey;


#[test]
fn t01_grid_2level_selection_and_click() {
    let config = GridConfig {
        nudge_enabled: false,
        auto_free_mode_after_move: false,
        ..Default::default()
    };

    let mut nav = GridNavigator::new(1920, 1080, config);
    assert_eq!(nav.activate(), GridNavAction::ShowOverlayLevel1);

    // Level 1: select center cell (K -> row 1, col 1)
    let act1 = nav.on_key_press(LogicalKey::K).unwrap();
    match act1 {
        GridNavAction::ShowOverlayLevel2(r) => {
            assert_eq!(r.x, 640);
            assert_eq!(r.y, 360);
            assert_eq!(r.width, 640);
            assert_eq!(r.height, 360);
        }
        other => panic!("expected ShowOverlayLevel2, got {:?}", other),
    }

    // Level 2: select center subcell (K -> row 1, col 1)
    let act2 = nav.on_key_press(LogicalKey::K).unwrap();
    assert_eq!(act2, GridNavAction::ClickAt(959, 540));
    assert_eq!(nav.state(), GridState::Inactive);
}

#[test]
fn t02_subgrid_nudge_micro_adjust_then_release() {
    let config = GridConfig {
        nudge_enabled: true,
        auto_free_mode_after_move: false,
        nudge_step_px: 5,
        ..Default::default()
    };

    let mut nav = GridNavigator::new(1920, 1080, config);
    nav.activate();
    nav.on_key_press(LogicalKey::K); // Level 1 center (640..1280, 360..720)

    // Level 2 press K (center target: 959, 540)
    let act2 = nav.on_key_press(LogicalKey::K).unwrap();
    assert_eq!(act2, GridNavAction::MoveCursorTo(959, 540));

    // Nudge with H (left -5px) and J (down +5px) while holding K
    assert_eq!(
        nav.on_key_press(LogicalKey::H).unwrap(),
        GridNavAction::Nudge(-5, 0)
    );
    assert_eq!(
        nav.on_key_press(LogicalKey::J).unwrap(),
        GridNavAction::Nudge(0, 5)
    );

    // Release K -> clicks at adjusted (954, 545)
    let act_release = nav.on_key_release(LogicalKey::K).unwrap();
    assert_eq!(act_release, GridNavAction::ClickAt(954, 545));
    assert_eq!(nav.state(), GridState::Inactive);
}

#[test]
fn t04_subcell_partition_covers_full_rect_without_gaps() {
    let screen = Rect::new(0, 0, 1000, 1000);
    let first = screen.subcell(0, 0, 3, 3);
    let last = screen.subcell(2, 2, 3, 3);
    assert_eq!((first.x, first.width), (0, 333));
    assert_eq!((last.x, last.width), (666, 334));
    assert_eq!(last.x + last.width, screen.x + screen.width);
    assert_eq!(last.y + last.height, screen.y + screen.height);
}

#[test]
fn t05_monitor_under_cursor_is_used_for_level_one_grid() {
    let monitors = vec![Rect::new(0, 0, 1920, 1080), Rect::new(1920, 0, 2560, 1440)];
    let mut nav =
        GridNavigator::with_monitors(monitors.clone(), (2500, 700), GridConfig::default());
    assert_eq!(nav.active_monitor(), monitors[1]);
    nav.activate();
    let act = nav.on_key_press(LogicalKey::K).unwrap();
    match act {
        GridNavAction::ShowOverlayLevel2(r) => {
            assert_eq!(r.x, 2773);
            assert_eq!(r.y, 480);
            assert_eq!(r.width, 853);
            assert_eq!(r.height, 480);
        }
        other => panic!("expected ShowOverlayLevel2, got {other:?}"),
    }
}

#[test]
fn t06_overlay_frame_reports_cells_and_key_labels_per_level() {
    let mut nav = GridNavigator::new(1920, 1080, GridConfig::default());
    assert!(nav.overlay_frame().is_none());

    nav.activate();
    let level1 = nav.overlay_frame().unwrap();
    assert_eq!(level1.level, 1);
    assert_eq!(level1.cells.len(), 9);
    assert_eq!(level1.cells[0].label, "u");
    assert_eq!(level1.cells[0].rect, Rect::new(0, 0, 640, 360));
    assert_eq!(level1.cells[8].label, ".");

    nav.on_key_press(LogicalKey::K);
    let level2 = nav.overlay_frame().unwrap();
    assert_eq!(level2.level, 2);
    assert_eq!(level2.cells[4].label, "k");
    assert_eq!(level2.cells[4].rect, Rect::new(853, 480, 213, 120));
}

#[test]
fn t03_quick_select_plus_free_mode() {
    let config = GridConfig {
        nudge_enabled: true,
        auto_free_mode_after_move: true,
        ..Default::default()
    };

    let mut nav = GridNavigator::new(1920, 1080, config);
    nav.activate();
    nav.on_key_press(LogicalKey::K);
    nav.on_key_press(LogicalKey::K);

    // On release of final key -> Enters Free Mode
    let act = nav.on_key_release(LogicalKey::K).unwrap();
    assert_eq!(act, GridNavAction::EnterFreeMode);
}
