use clickless::tray::{command_for, MenuCommand, TrayIds};


fn ids() -> TrayIds {
    TrayIds {
        show_grid: 0,
        hide_grid: 1,
        toggle_pause: 2,
        settings: 3,
        practice: 4,
        quit: 5,
    }
}

#[test]
fn t01_every_tray_slot_maps_to_its_command() {
    let ids = ids();
    assert_eq!(command_for(0, ids), Some(MenuCommand::ShowGrid));
    assert_eq!(command_for(1, ids), Some(MenuCommand::HideGrid));
    assert_eq!(command_for(2, ids), Some(MenuCommand::TogglePause));
    assert_eq!(command_for(3, ids), Some(MenuCommand::OpenSettings));
    assert_eq!(command_for(4, ids), Some(MenuCommand::OpenPractice));
    assert_eq!(command_for(5, ids), Some(MenuCommand::Quit));
}

#[test]
fn t02_unknown_id_resolves_to_nothing() {
    assert_eq!(command_for(6, ids()), None);
    assert_eq!(command_for(999, ids()), None);
}
