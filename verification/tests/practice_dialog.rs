use clickless::practice::{feed_key, refresh, step_text, Practice, Step};

const VK_CAPSLOCK: u32 = 0x14;
const VK_SPACE: u32 = 0x20;
const VK_ESC: u32 = 0x1B;
const VK_U: u32 = 0x55;
const VK_F13: u32 = 0x7C;

#[test]
fn step_lines_name_each_step() {
    assert_eq!(
        step_text(Step::HoldLeader),
        "Step 1 of 2: hold CapsLock to enter pointer mode."
    );
    assert_eq!(
        step_text(Step::GridPick),
        "Step 2 of 2: choose one outer cell, then one inner cell to click."
    );
    assert_eq!(step_text(Step::Done), "Done. Finish saves completion and closes.");
}

#[test]
fn dialog_without_practice_invites_start() {
    let text = refresh(&None);
    assert_eq!(text.step, "Press Start, or Skip to leave.");
    assert_eq!(text.status, "");
    assert_eq!(text.finish, None);
}

#[test]
fn first_key_starts_practice_and_grid_shows_labels() {
    let mut practice: Option<Practice> = None;
    assert!(!feed_key(&mut practice, VK_CAPSLOCK, true, 0));
    assert!(practice.is_some());
    let text = refresh(&practice);
    assert_eq!(text.step, step_text(Step::HoldLeader));
    assert_eq!(text.status, "Nested targets so far: 0");
    assert_eq!(text.finish, Some(false));

    assert!(!feed_key(&mut practice, VK_SPACE, true, 1000));
    let text = refresh(&practice);
    assert_eq!(text.step, step_text(Step::GridPick));
    assert!(text.status.starts_with("Grid open. Choose a grid label:\n"));
    assert!(text.status.contains("  "));
    assert_eq!(text.finish, Some(false));

    feed_key(&mut practice, VK_U, true, 1100);
    feed_key(&mut practice, VK_U, true, 1200);
    let text = refresh(&practice);
    assert_eq!(text.step, step_text(Step::Done));
    assert_eq!(text.finish, Some(true));
}

#[test]
fn unmapped_keys_are_ignored_and_esc_hides() {
    let mut practice: Option<Practice> = None;
    assert!(!feed_key(&mut practice, VK_F13, true, 0));
    assert!(practice.is_none());
    assert!(feed_key(&mut practice, VK_ESC, true, 10));
    let text = refresh(&practice);
    assert_eq!(text.step, "Practice cancelled.");
    assert_eq!(text.status, "Start begins again; Esc closes.");
    assert!(!feed_key(&mut practice, VK_ESC, false, 20));
}
