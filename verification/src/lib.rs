//! Keyboard-driven pointer control: layers, motion, grid navigation,
//! configuration, overlay rasterization and the platform hook decisions.
pub mod keys;
pub mod grid;
pub mod machine;
pub mod keycode;
pub mod backend;
pub mod hook;
pub mod linux;
pub mod macos;
pub mod text;
pub mod overlay;
pub mod config;
pub mod windows;
pub mod practice;
pub mod tray;
pub mod settings_model;
pub mod settings_help;
pub mod configfile;
pub mod tomltext;
pub mod numtext;
pub mod roundtrip;
pub mod settings_editor;
pub mod winui_host;
pub mod gui_error;
pub mod startup;
pub mod placement;
pub mod cli;
pub mod settings_window;
