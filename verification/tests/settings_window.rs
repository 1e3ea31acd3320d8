use clickless::keys::LogicalKey;
use clickless::settings_editor::Section;
use clickless::settings_window::{
    page_reset_section, record_key, RecordStep, PAGE_ABOUT, PAGE_APPEARANCE, PAGE_GENERAL, PAGE_GRID, PAGE_MOVEMENT,
    PAGE_SHORTCUTS,
};
use clickless::config::{Config, ConfigError};
use clickless::numtext::{parse_i64_text, parse_u32_text, parse_u64_text};
use clickless::settings_help::for_id;
use clickless::settings_window::{
    config_summary, contains_chars, detail_for_control, display_label, groups_matching, help_control_id,
    input_control_id, invalid_control, parse_key_list, route_message, scroll_command, scroll_to, setting_hint,
    setting_short, stored_token, ConfigFileState, ScrollInfo, ID_BORDER_PX, ID_GRID_ROWS, ID_HOLD_MS, ID_LABEL_SIZE,
    ID_LEADER, ID_MAX_SPEED, ID_PANEL, ID_PANEL_OPACITY, ID_START_SPEED, MOUSE_KEY_BASE,
    SB_BOTTOM, SB_LINEDOWN, SB_LINEUP, SB_PAGEDOWN, SB_THUMBTRACK, SB_TOP,
};

#[test]
fn dropdowns_show_phrases_and_store_tokens() {
    assert_eq!(display_label("click_left"), "Left click");
    assert_eq!(display_label("speed_up"), "Speed up");
    assert_eq!(display_label("dense"), "Dense");
    assert_eq!(stored_token("Left click"), "click_left");
    assert_eq!(stored_token("Simple"), "simple");
    assert_eq!(display_label("warp"), "warp");
    assert_eq!(stored_token("Warp"), "Warp");
}

#[test]
fn every_choice_survives_show_then_store() {
    for token in [
        "click_left", "click_right", "scroll_up", "scroll_down", "enter_grid", "move_left",
        "move_right", "move_up", "move_down", "speed_down", "speed_up", "dense", "simple",
    ] {
        assert_eq!(stored_token(display_label(token)), token);
        assert_ne!(display_label(token), token);
    }
}

#[test]
fn rows_carry_hints_and_short_help() {
    assert_eq!(
        setting_hint("Hold (ms)"),
        Some("What it does: delay before pointer mode starts. Example: 200 ms.")
    );
    assert_eq!(setting_hint("Enabled"), None);
    assert_eq!(setting_short("Hold (ms)"), for_id("hold_ms").map(|h| h.short));
    assert!(setting_short("Hold (ms)").is_some());
    assert_eq!(setting_short("Nested rows"), setting_short("Nested columns"));
    assert_eq!(setting_short("Label size (1-8)"), for_id("opacity").map(|h| h.short));
    assert_eq!(setting_short("Nothing"), None);
}

#[test]
fn focused_controls_show_detail() {
    assert_eq!(detail_for_control(ID_LEADER), for_id("leader").map(|h| h.detail));
    assert!(detail_for_control(ID_LEADER).is_some());
    assert_eq!(detail_for_control(ID_LABEL_SIZE), detail_for_control(ID_PANEL_OPACITY));
    assert_eq!(detail_for_control(ID_BORDER_PX), None);
    assert_eq!(detail_for_control(9999), None);
}

#[test]
fn help_ids_map_to_controls() {
    assert_eq!(input_control_id("leader"), Some(ID_LEADER));
    assert_eq!(help_control_id("leader"), Some(ID_LEADER + 1500));
    assert_eq!(input_control_id("mouse_bindings"), Some(MOUSE_KEY_BASE));
    assert_eq!(input_control_id("hold_ms"), Some(ID_HOLD_MS));
    assert_eq!(input_control_id("unknown"), None);
    assert_eq!(help_control_id("unknown"), None);
}

#[test]
fn error_messages_focus_the_named_field() {
    assert_eq!(
        invalid_control("max speed must be >= start speed"),
        Some(ID_MAX_SPEED)
    );
    assert_eq!(
        invalid_control("start speed must be a whole number, got \"x\""),
        Some(ID_START_SPEED)
    );
    assert_eq!(
        invalid_control("panel opacity must be 0-255, got 300"),
        Some(ID_PANEL_OPACITY)
    );
    assert_eq!(invalid_control("panel: expected RRGGBB"), Some(ID_PANEL));
    assert_eq!(invalid_control("label size must be 1-8"), Some(ID_LABEL_SIZE));
    assert_eq!(
        invalid_control("bindings: g is bound more than once"),
        Some(MOUSE_KEY_BASE)
    );
    assert_eq!(invalid_control("grid: rows must be a whole number"), Some(ID_GRID_ROWS));
    assert_eq!(invalid_control("something else"), None);
}

#[test]
fn substring_search_is_exact() {
    let s: Vec<char> = "abcabd".chars().collect();
    assert!(contains_chars(&s, &"cab".chars().collect()));
    assert!(contains_chars(&s, &Vec::new()));
    assert!(!contains_chars(&s, &"abe".chars().collect()));
    assert!(!contains_chars(&"ab".chars().collect(), &"abc".chars().collect()));
}

#[test]
fn search_matches_group_text() {
    let texts = vec![
        "enabled leader key ".to_string(),
        "start speed max speed ".to_string(),
        "grid style ".to_string(),
    ];
    assert_eq!(groups_matching(&texts, "  SPEED "), vec![false, true, false]);
    assert_eq!(groups_matching(&texts, "e"), vec![true, true, true]);
    assert_eq!(groups_matching(&texts, "   "), vec![false, false, false]);
    assert_eq!(groups_matching(&texts, "zebra"), vec![false, false, false]);
}

#[test]
fn key_lists_split_on_whitespace_only() {
    assert_eq!(
        parse_key_list("  a , s\tdot  ".to_string()),
        vec!["a".to_string(), ",".to_string(), "s".to_string(), "dot".to_string()]
    );
    assert!(parse_key_list("   ".to_string()).is_empty());
}

#[test]
fn scrolling_stays_within_the_content() {
    let info = ScrollInfo { min: 0, max: 999, page: 400, pos: 100, track_pos: 250 };
    assert_eq!(scroll_to(info, 50), Some(50));
    assert_eq!(scroll_to(info, 100), None);
    assert_eq!(scroll_to(info, 5000), Some(600));
    assert_eq!(scroll_to(info, -5), Some(0));
    assert_eq!(scroll_command(info, SB_LINEDOWN), Some(128));
    assert_eq!(scroll_command(info, SB_LINEUP), Some(72));
    assert_eq!(scroll_command(info, SB_PAGEDOWN), Some(472));
    assert_eq!(scroll_command(info, SB_THUMBTRACK), Some(250));
    assert_eq!(scroll_command(info, SB_TOP), Some(0));
    assert_eq!(scroll_command(info, SB_BOTTOM), Some(600));
    assert_eq!(scroll_command(info, 42), None);
    let short = ScrollInfo { min: 0, max: 99, page: 400, pos: 0, track_pos: 0 };
    assert_eq!(scroll_to(short, 50), None);
    let small_page = ScrollInfo { min: 0, max: 999, page: 30, pos: 100, track_pos: 0 };
    assert_eq!(scroll_command(small_page, SB_PAGEDOWN), Some(128));
}

#[test]
fn messages_route_to_their_lines() {
    let lines = route_message("bindings:  g is bound more than once ");
    assert_eq!(lines.bindings, "g is bound more than once");
    assert_eq!(lines.grid, "");
    assert_eq!(lines.general, "");
    let lines = route_message("grid: rows must be a whole number, got \"x\"");
    assert_eq!(lines.bindings, "");
    assert_eq!(lines.grid, "rows must be a whole number, got \"x\"");
    assert_eq!(lines.general, "");
    let lines = route_message("Applied.");
    assert_eq!(lines.bindings, "");
    assert_eq!(lines.grid, "");
    assert_eq!(lines.general, "Applied.");
}

#[test]
fn diagnostics_summarise_the_config_file() {
    assert_eq!(
        config_summary(&ConfigFileState::Missing),
        "no config file, using defaults"
    );
    assert_eq!(
        config_summary(&ConfigFileState::Loaded(Ok(Config::default()))),
        "valid"
    );
    let mut bad = Config::default();
    bad.settings.start_speed_px_s = 0;
    assert_eq!(
        config_summary(&ConfigFileState::Loaded(Ok(bad))),
        "invalid: Invalid speed: start_speed_px_s (0) must be greater than 0"
    );
    assert_eq!(
        config_summary(&ConfigFileState::Loaded(Err(ConfigError::ParseError("bad".to_string())))),
        "unparsable: TOML syntax error: bad"
    );
    assert_eq!(
        config_summary(&ConfigFileState::PathUnavailable(ConfigError::IoError(
            "HOME not set".to_string()
        ))),
        "config path unavailable: IO error: HOME not set"
    );
}

#[test]
fn decimal_text_reads_back() {
    for v in [0u64, 7, 300, 4_294_967_295, u64::MAX] {
        let text: Vec<char> = v.to_string().chars().collect();
        assert_eq!(parse_u64_text(&text), Some(v));
    }
    let text: Vec<char> = "4294967296".chars().collect();
    assert_eq!(parse_u32_text(&text), None);
    for v in [i64::MIN, -1, 0, 42, i64::MAX] {
        let text: Vec<char> = v.to_string().chars().collect();
        assert_eq!(parse_i64_text(&text), Some(v));
    }
    let text: Vec<char> = "+12".chars().collect();
    assert_eq!(parse_u64_text(&text), Some(12));
    let text: Vec<char> = " 12".chars().collect();
    assert_eq!(parse_u64_text(&text), None);
}

#[test]
fn page_reset_restores_the_page_section() {
    assert_eq!(page_reset_section(PAGE_GENERAL), Some(Section::Settings));
    assert_eq!(page_reset_section(PAGE_MOVEMENT), Some(Section::Settings));
    assert_eq!(page_reset_section(PAGE_GRID), Some(Section::Grid));
    assert_eq!(page_reset_section(PAGE_SHORTCUTS), Some(Section::Bindings));
    assert_eq!(page_reset_section(PAGE_APPEARANCE), Some(Section::Appearance));
    assert_eq!(page_reset_section(PAGE_ABOUT), None);
}

#[test]
fn recording_a_key_names_it_escape_cancels_and_unknown_keys_wait() {
    assert_eq!(record_key(None, 0x48), (None, RecordStep::Passed));
    assert_eq!(record_key(Some(7), 0x1B), (None, RecordStep::Cancelled));
    assert_eq!(record_key(Some(7), 0x48), (None, RecordStep::Recorded(7, LogicalKey::H)));
    assert_eq!(record_key(Some(7), 0x0D), (Some(7), RecordStep::Unsupported));
}
