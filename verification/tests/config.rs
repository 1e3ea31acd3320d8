use clickless::config::{
    logical_key_name, parse_deep_link, parse_logical_key, Config, ConfigError, DeepLinkCommand,
    ThemeConfig,
};
use clickless::keys::{Action, LogicalKey};
use clickless::configfile::{RawConfig, RawLayers, RawTheme};
use clickless::overlay::{BORDER_PX, HIGHLIGHT_ALPHA};

#[test]
fn t04_parse_deep_links() {
    assert_eq!(
        parse_deep_link("mouseless://toggle-overlay"),
        Some(DeepLinkCommand::ToggleOverlay)
    );
    assert_eq!(
        parse_deep_link("clickless://enter-free-mode"),
        Some(DeepLinkCommand::EnterFreeMode)
    );
    assert_eq!(
        parse_deep_link("clickless://settings"),
        Some(DeepLinkCommand::Settings)
    );
    assert_eq!(parse_deep_link("invalid://something"), None);
}

#[test]
fn t01_validate_accepts_defaults_and_rejects_bad_speeds() {
    assert!(Config::default().validate().is_ok());

    let mut bad = Config::default();
    bad.settings.start_speed_px_s = 0;
    assert_eq!(
        bad.validate(),
        Err(ConfigError::InvalidStartSpeed(0)),
        "validate must gate zero start speed"
    );
}

#[test]
fn t02_validate_rejects_max_speed_below_start() {
    let mut bad = Config::default();
    bad.settings.max_speed_px_s = 100;
    bad.settings.start_speed_px_s = 500;
    assert_eq!(
        bad.validate(),
        Err(ConfigError::InvalidMaxSpeed(100, 500)),
        "validate must gate max < start"
    );
}

#[test]
fn t03_validate_rejects_empty_or_oversized_grids() {
    let mut bad = Config::default();
    bad.grid.rows = 0;
    assert!(bad.validate().is_err(), "rows = 0 must fail");

    let mut overflow = Config::default();
    overflow.grid.rows = u32::MAX;
    overflow.grid.cols = u32::MAX;
    assert!(overflow.validate().is_err(), "rows*cols overflow must fail");
}

#[test]
fn t04_validate_detects_duplicate_grid_keys() {
    let mut bad = Config::default();
    bad.grid.keys[1] = bad.grid.keys[0];
    assert_eq!(bad.validate(), Err(ConfigError::DuplicateGridKey));
}

#[test]
fn t05_validate_flags_reserved_keys_in_mouse_bindings() {
    let mut bad = Config::default();
    bad.mouse_bindings.insert(LogicalKey::Esc, Action::ClickLeft);
    assert!(
        bad.validate().is_err(),
        "Esc binding must be rejected as reserved"
    );

    let mut bad2 = Config::default();
    bad2.mouse_bindings
        .insert(LogicalKey::Backspace, Action::ClickLeft);
    assert!(
        bad2.validate().is_err(),
        "Backspace binding must be rejected as reserved"
    );
}

#[test]
fn t06_validate_flags_leader_bound_as_mouse_action() {
    let mut bad = Config::default();
    let leader = bad.settings.leader;
    bad.mouse_bindings.insert(leader, Action::ClickLeft);
    assert!(bad.validate().is_err(), "leader rebind must be rejected");
}

#[test]
fn t07_validate_flags_duplicate_keys_in_outer_label_banks() {
    let mut bad = Config::default();
    bad.grid.column_keys[1] = bad.grid.column_keys[0];
    assert!(bad.validate().is_err(), "duplicate column label must fail");

    let mut bad2 = Config::default();
    bad2.grid.row_keys[1] = bad2.grid.row_keys[0];
    assert!(bad2.validate().is_err(), "duplicate row label must fail");
}

#[test]
fn t02_theme_field_validation_bounds() {
    let mut config = Config::default();
    config.theme.highlight_opacity = 255;
    config.theme.border_px = 16;
    assert!(config.validate().is_ok());

    config.theme.highlight_opacity = 0;
    assert!(config.validate().is_ok());

    config.theme.border_px = 0;
    assert!(config.validate().is_err());
    config.theme.border_px = 17;
    assert!(config.validate().is_err());
}

#[test]
fn t03_to_overlay_theme_maps_the_new_fields() {
    let mut theme = ThemeConfig::default();
    assert_eq!(theme.to_overlay_theme().highlight_alpha, HIGHLIGHT_ALPHA);
    assert_eq!(theme.to_overlay_theme().border_px, BORDER_PX);

    theme.highlight_opacity = 64;
    theme.border_px = 5;
    let overlay = theme.to_overlay_theme();
    assert_eq!(overlay.highlight_alpha, 64);
    assert_eq!(overlay.border_px, 5);
}

#[test]
fn t04_logical_key_name_round_trips_through_parse() {
    for name in ["capslock", "a", "h", "j", "space", "esc", "backspace"] {
        let key = parse_logical_key(name).unwrap();
        assert_eq!(logical_key_name(key), name);
    }
    assert_eq!(logical_key_name(parse_logical_key(";").unwrap()), ";");
    assert_eq!(logical_key_name(parse_logical_key(",").unwrap()), ",");
    assert_eq!(logical_key_name(parse_logical_key(".").unwrap()), ".");
}

#[test]
fn error_messages_read_as_documented() {
    assert_eq!(
        ConfigError::InvalidStartSpeed(0).message(),
        "Invalid speed: start_speed_px_s (0) must be greater than 0"
    );
    assert_eq!(
        ConfigError::InvalidMaxSpeed(100, 500).message(),
        "Invalid speed: max_speed_px_s (100) must be greater than or equal to start_speed_px_s (500)"
    );
    assert_eq!(
        ConfigError::UnknownKey("zz".to_string()).message(),
        "Unknown key name: 'zz'"
    );
}

#[test]
fn to_toml_writes_every_table_in_order() {
    let text = Config::default().to_toml();
    assert!(text.starts_with(
        "enabled = true\npractice_completed_version = 0\n\n[settings]\nleader = \"capslock\"\nstart_speed_px_s = 300\n"
    ));
    assert!(text.contains("\n[grid]\nlayout = \"dense\"\nrows = 3\ncols = 10\nkeys = [\"q\", \"w\", "));
    assert!(text.contains("column_keys = [\"a\", \"s\", \"d\", \"f\", \"g\", \"h\", \"j\", \"k\", \"l\", \";\"]\n"));
    assert!(text.contains("\n[theme]\npanel = \"181C26\"\npanel_opacity = 70\n"));
    assert!(text.contains("\n[layers.initial]\ncapslock = \"mouse\"\n"));
    assert!(text.contains("\n[layers.mouse]\nd = \"click_right\"\nf = \"click_left\"\n"));
    assert!(text.ends_with("space = \"enter_grid\"\n"));
}

#[test]
fn toml_keys_that_are_not_bare_are_quoted() {
    let mut config = Config::default();
    config.mouse_bindings.insert(LogicalKey::Semicolon, Action::ScrollUp);
    let text = config.to_toml();
    assert!(text.contains("\";\" = \"scroll_up\"\n"));
}

#[test]
fn raw_tables_read_back_as_the_same_config() {
    let config = Config::default();
    let back = Config::from_raw(&config.to_raw()).unwrap();
    assert_eq!(back, config);

    let mut custom = Config::default();
    custom.settings.start_speed_px_s = 450;
    custom.theme.panel = (1, 2, 3);
    custom.mouse_bindings.insert(LogicalKey::G, Action::ClickLeft);
    let back = Config::from_raw(&custom.to_raw()).unwrap();
    assert_eq!(back, custom);
}

#[test]
fn imported_configs_read_back_even_when_validation_refuses_them() {
    let mut theme = RawTheme::default();
    theme.border_px = Some(40);
    let mut layers = RawLayers::default();
    layers.mouse = Some(vec![("esc".to_string(), "click_left".to_string())]);
    let mut raw = RawConfig::default();
    raw.theme = Some(theme);
    raw.layers = Some(layers);
    let imported = Config::from_raw(&raw).unwrap();
    assert!(imported.validate().is_err());
    let back = Config::from_raw(&imported.to_raw()).unwrap();
    assert_eq!(back, imported);
}

#[test]
fn toml_strings_escape_quotes_backslashes_and_control_characters() {
    let value = "say \"hi\" \\ now\n\u{1}";
    let mut config = Config::default();
    config.initial_bindings.insert(LogicalKey::CapsLock, value.to_string());
    let text = config.to_toml();
    assert!(text.contains("capslock = \"say \\\"hi\\\" \\\\ now\\n\\u0001\"\n"));
    let doc: toml::Value = toml::from_str(&text).unwrap();
    assert_eq!(doc["layers"]["initial"]["capslock"].as_str(), Some(value));
}
