//! Tray menu commands and the table from menu slots to commands.
use vstd::prelude::*;

verus! {

/// Commands the tray can send to the runtime.
#[derive(Debug, Clone, Copy, PartialEq, Eq, Structural)]
pub enum MenuCommand {
    ShowGrid,
    HideGrid,
    TogglePause,
    OpenSettings,
    OpenPractice,
    Quit,
}

/// Which tray item carries which command.
#[derive(Debug, Clone, Copy, PartialEq, Eq, Structural)]
pub struct TrayIds {
    pub show_grid: usize,
    pub hide_grid: usize,
    pub toggle_pause: usize,
    pub settings: usize,
    pub practice: usize,
    pub quit: usize,
}

/// The command of a menu slot: the first slot in menu order whose id matches.
pub open spec fn spec_command_for(id: usize, ids: TrayIds) -> Option<MenuCommand> {
    if id == ids.show_grid {
        Some(MenuCommand::ShowGrid)
    } else if id == ids.hide_grid {
        Some(MenuCommand::HideGrid)
    } else if id == ids.toggle_pause {
        Some(MenuCommand::TogglePause)
    } else if id == ids.settings {
        Some(MenuCommand::OpenSettings)
    } else if id == ids.practice {
        Some(MenuCommand::OpenPractice)
    } else if id == ids.quit {
        Some(MenuCommand::Quit)
    } else {
        None
    }
}

/// Maps a menu slot id to its command; the tray and its handler share it.
pub fn command_for(id: usize, ids: TrayIds) -> (c: Option<MenuCommand>)
    ensures
        c == spec_command_for(id, ids),
{
    if id == ids.show_grid {
        Some(MenuCommand::ShowGrid)
    } else if id == ids.hide_grid {
        Some(MenuCommand::HideGrid)
    } else if id == ids.toggle_pause {
        Some(MenuCommand::TogglePause)
    } else if id == ids.settings {
        Some(MenuCommand::OpenSettings)
    } else if id == ids.practice {
        Some(MenuCommand::OpenPractice)
    } else if id == ids.quit {
        Some(MenuCommand::Quit)
    } else {
        None
    }
}

/// The tray's slot layout: menu order from Show grid to Quit.
pub fn tray_ids() -> (ids: TrayIds)
    ensures
        ids == (TrayIds { show_grid: 0, hide_grid: 1, toggle_pause: 2, settings: 3, practice: 4, quit: 5 }),
{
    TrayIds { show_grid: 0, hide_grid: 1, toggle_pause: 2, settings: 3, practice: 4, quit: 5 }
}

/// The tray tooltip, which states the pause state in words.
pub fn tooltip(paused: bool) -> (s: &'static str)
    ensures
        s@ == if paused { "Clickless: paused"@ } else { "Clickless: enabled"@ },
{
    if paused { "Clickless: paused" } else { "Clickless: enabled" }
}

} // verus!
