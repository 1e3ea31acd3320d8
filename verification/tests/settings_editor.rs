use clickless::config::Config;
use clickless::keys::LogicalKey;
use clickless::settings_editor::{apply_fields, fields_from_config, Fields, Section, SettingsEditor};

fn default_fields() -> Fields {
    fields_from_config(&Config::default())
}

#[test]
fn t01_fields_round_trip_is_not_dirty() {
    let mut editor = SettingsEditor::new(Config::default());
    editor.edit(&default_fields()).unwrap();
    assert!(!editor.is_dirty());
    assert_eq!(editor.draft(), editor.applied());
}

#[test]
fn t02_bad_number_names_the_field() {
    let mut editor = SettingsEditor::new(Config::default());
    let mut fields = default_fields();
    fields.start_speed_px_s = "abc".into();
    let err = editor.edit(&fields).unwrap_err();
    assert!(err.contains("start"), "error must name the field: {err}");
    assert!(!editor.is_dirty());
}

#[test]
fn t03_invalid_edit_leaves_draft_and_applied_unchanged() {
    let mut editor = SettingsEditor::new(Config::default());
    let mut fields = default_fields();
    fields.max_speed_px_s = "100".into(); // below start speed 300
    // Validation is eager: the edit itself is rejected and names the rule.
    let err = editor.edit(&fields).unwrap_err();
    assert!(err.contains("max speed"), "error names the rule: {err}");
    assert!(!editor.is_dirty());
    assert_eq!(editor.applied(), &Config::default());
    // Apply with the untouched draft succeeds.
    editor.apply().unwrap();
    assert_eq!(editor.applied(), &Config::default());
}

#[test]
fn t04_valid_apply_updates_applied() {
    let mut editor = SettingsEditor::new(Config::default());
    let mut fields = default_fields();
    fields.start_speed_px_s = "400".into();
    editor.edit(&fields).unwrap();
    editor.apply().unwrap();
    assert_eq!(editor.applied().settings.start_speed_px_s, 400);
    assert!(!editor.is_dirty());
}

#[test]
fn t06_cancel_restores_last_applied_and_close_equals_cancel() {
    let mut editor = SettingsEditor::new(Config::default());
    let mut fields = default_fields();
    fields.start_speed_px_s = "400".into();
    editor.edit(&fields).unwrap();
    editor.apply().unwrap();

    let mut fields = default_fields();
    fields.start_speed_px_s = "900".into();
    editor.edit(&fields).unwrap();
    assert!(editor.is_dirty());

    editor.cancel();
    assert_eq!(editor.draft().settings.start_speed_px_s, 400);
    assert!(!editor.is_dirty());

    // Closing the window behaves like Cancel: a second cancel is a no-op.
    editor.cancel();
    assert_eq!(editor.draft().settings.start_speed_px_s, 400);
}

#[test]
fn t07_colors_parse_and_reject() {
    let mut editor = SettingsEditor::new(Config::default());
    let mut fields = default_fields();
    fields.panel = "1A2B3C".into();
    editor.edit(&fields).unwrap();
    assert_eq!(editor.draft().theme.panel, (0x1A, 0x2B, 0x3C));

    let mut bad = default_fields();
    bad.panel = "zzz".into();
    assert!(editor.edit(&bad).is_err());
}

#[test]
fn t08_leader_field_round_trips() {
    let fields = default_fields();
    assert_eq!(fields.leader, "capslock");

    let mut editor = SettingsEditor::new(Config::default());
    let mut fields = default_fields();
    // Space is taken by the enter_grid binding; c is free in the defaults.
    fields.leader = "c".into();
    editor.edit(&fields).unwrap();
    assert_eq!(editor.draft().settings.leader, LogicalKey::C);

    // A leader that collides with an existing binding is rejected.
    let mut bad = default_fields();
    bad.leader = "space".into();
    let err = editor.edit(&bad).unwrap_err();
    assert!(err.contains("reserved"), "error: {err}");
    assert_eq!(editor.draft().settings.leader, LogicalKey::C);
}

#[test]
fn t09_layout_switch_flips_dense_flag() {
    let mut editor = SettingsEditor::new(Config::default());
    let mut fields = default_fields();
    assert_eq!(fields.layout, "dense");
    fields.layout = "simple".into();
    editor.edit(&fields).unwrap();
    assert!(!editor.draft().grid.dense);

    let mut fields = fields_from_config(editor.draft());
    fields.layout = "dense".into();
    editor.edit(&fields).unwrap();
    assert!(editor.draft().grid.dense);
    assert_eq!(editor.draft().grid.nudge_step_px, 1);
}

#[test]
fn t10_apply_fields_is_the_only_parser_used() {
    // apply_fields must accept exactly what Config::parse accepts for the
    // leader name, including the shorthand forms.
    let mut config = Config::default();
    let mut fields = default_fields();
    fields.leader = "caps".into();
    apply_fields(&mut config, &fields).unwrap();
    assert_eq!(config.settings.leader, LogicalKey::CapsLock);
}

#[test]
fn t11_promised_fields_round_trip_through_config() {
    let mut editor = SettingsEditor::new(Config::default());
    let mut fields = default_fields();
    fields.enabled = false;
    fields.highlight_opacity = "180".into();
    fields.border_px = "6".into();

    editor.edit(&fields).unwrap();
    editor.apply().unwrap();

    assert!(!editor.applied().enabled);
    assert_eq!(editor.applied().theme.highlight_opacity, 180);
    assert_eq!(editor.applied().theme.border_px, 6);
    let round_trip = fields_from_config(editor.applied());
    assert!(!round_trip.enabled);
    assert_eq!(round_trip.highlight_opacity, "180");
    assert_eq!(round_trip.border_px, "6");
}

#[test]
fn t12_runtime_apply_failure_keeps_applied_config_unchanged() {
    let mut editor = SettingsEditor::new(Config::default());
    let mut fields = default_fields();
    fields.start_speed_px_s = "777".into();
    editor.edit(&fields).unwrap();

    let err = editor
        .apply_to_runtime(|_| Err("runtime rejected config".into()))
        .unwrap_err();

    assert!(err.contains("runtime rejected"));
    assert_eq!(editor.applied().settings.start_speed_px_s, 300);
    assert!(editor.is_dirty());
}

#[test]
fn t15_binding_errors_are_grouped_and_duplicate_key_is_not_lost() {
    let mut fields = default_fields();
    fields.mouse_bindings[0] = ("capslock".into(), "move_left".into());
    let err = apply_fields(&mut Config::default(), &fields).unwrap_err();
    assert!(err.starts_with("bindings:"), "{err}");
    assert!(err.contains("reserved"), "{err}");

    fields.mouse_bindings[0] = ("g".into(), "move_left".into());
    fields.mouse_bindings[1] = ("g".into(), "move_right".into());
    let err = apply_fields(&mut Config::default(), &fields).unwrap_err();
    assert!(err.starts_with("bindings:"), "{err}");
    assert!(err.contains("bound more than once"), "{err}");
}

#[test]
fn t16_grid_errors_are_grouped_for_the_grid_editor() {
    let mut fields = default_fields();
    fields.grid_rows = "2".into();
    fields.grid_cols = "2".into();
    fields.grid_keys = ["u", "u", "o", "j"].map(str::to_string).into();
    let err = apply_fields(&mut Config::default(), &fields).unwrap_err();
    assert!(err.starts_with("grid:"), "{err}");
    assert!(err.contains("key appears more than once"), "{err}");
}

#[test]
fn t18_hold_ms_and_scroll_step_round_trip_and_reject_zero() {
    let mut editor = SettingsEditor::new(Config::default());
    let mut fields = default_fields();
    fields.hold_ms = "350".into();
    fields.scroll_step = "3".into();
    editor.edit(&fields).unwrap();
    editor.apply().unwrap();
    assert_eq!(editor.applied().settings.hold_ms, 350);
    assert_eq!(editor.applied().settings.scroll_step, 3);
    let round = fields_from_config(editor.applied());
    assert_eq!(round.hold_ms, "350");
    assert_eq!(round.scroll_step, "3");

    let mut bad = default_fields();
    bad.hold_ms = "0".into();
    let err = editor.edit(&bad).unwrap_err();
    assert!(err.contains("hold"), "error names the field: {err}");

    let mut bad = default_fields();
    bad.scroll_step = "0".into();
    let err = editor.edit(&bad).unwrap_err();
    assert!(err.contains("scroll"), "error names the field: {err}");
}

#[test]
fn t19_reset_all_restores_defaults_and_clears_dirt_when_applied_is_default() {
    let mut editor = SettingsEditor::new(Config::default());
    let mut fields = default_fields();
    fields.hold_ms = "350".into();
    fields.grid_rows = "2".into();
    fields.grid_cols = "2".into();
    fields.grid_keys = ["u", "i", "o", "j"].map(str::to_string).into();
    editor.edit(&fields).unwrap();
    assert!(editor.is_dirty());

    editor.reset_all();
    assert_eq!(editor.draft(), &Config::default());
    assert!(!editor.is_dirty());
}

#[test]
fn t20_reset_section_keeps_other_groups() {
    let mut editor = SettingsEditor::new(Config::default());
    let mut fields = default_fields();
    fields.hold_ms = "350".into();
    fields.grid_rows = "2".into();
    fields.grid_cols = "2".into();
    fields.grid_keys = ["u", "i", "o", "j"].map(str::to_string).into();
    editor.edit(&fields).unwrap();

    editor.reset_section(Section::Grid);
    assert_eq!(editor.draft().grid, Config::default().grid);
    assert_eq!(editor.draft().settings.hold_ms, 350);
    assert!(editor.is_dirty());

    editor.reset_section(Section::Settings);
    assert_eq!(editor.draft().settings, Config::default().settings);
    assert!(!editor.is_dirty());
}


#[test]
fn fields_from_config_uses_canonical_names() {
    let fields = fields_from_config(&Config::default());
    assert_eq!(fields.leader, "capslock");
    assert_eq!(fields.layout, "dense");
    assert_eq!(fields.panel, "181C26");
}

#[test]
fn binding_rows_come_in_key_name_order() {
    let fields = default_fields();
    let names: Vec<&str> = fields.mouse_bindings.iter().map(|(k, _)| k.as_str()).collect();
    assert_eq!(names, ["d", "f", "h", "j", "k", "l", "o", "s", "space", "u", "w"]);
    assert_eq!(fields.mouse_bindings[0], ("d".to_string(), "click_right".to_string()));
}

#[test]
fn numbers_are_read_after_trimming_and_name_the_field() {
    let mut config = Config::default();
    let mut fields = default_fields();
    fields.start_speed_px_s = "  450 ".into();
    fields.scroll_step = "+2".into();
    apply_fields(&mut config, &fields).unwrap();
    assert_eq!(config.settings.start_speed_px_s, 450);
    assert_eq!(config.settings.scroll_step, 2);

    let mut bad = default_fields();
    bad.ramp_ms = "1e3".into();
    assert_eq!(
        apply_fields(&mut Config::default(), &bad).unwrap_err(),
        "ramp ms must be a whole number, got \"1e3\""
    );
    let mut bad = default_fields();
    bad.grid_rows = "-1".into();
    assert_eq!(
        apply_fields(&mut Config::default(), &bad).unwrap_err(),
        "grid: rows must be a whole number, got \"-1\""
    );
    let mut bad = default_fields();
    bad.panel_opacity = "256".into();
    assert_eq!(
        apply_fields(&mut Config::default(), &bad).unwrap_err(),
        "panel opacity must be 0-255, got 256"
    );
}

#[test]
fn failed_apply_keeps_the_fields_read_before_the_failure() {
    let mut config = Config::default();
    let mut fields = default_fields();
    fields.enabled = false;
    fields.start_speed_px_s = "450".into();
    fields.layout = "grid".into();
    let err = apply_fields(&mut config, &fields).unwrap_err();
    assert_eq!(err, "layout must be dense or simple, got \"grid\"");
    assert!(!config.enabled);
    assert_eq!(config.settings.start_speed_px_s, 450);
    assert_eq!(config.grid, Config::default().grid);

    let mut config = Config::default();
    let mut fields = default_fields();
    fields.grid_rows = "2".into();
    fields.grid_cols = "x".into();
    let err = apply_fields(&mut config, &fields).unwrap_err();
    assert_eq!(err, "grid: columns must be a whole number, got \"x\"");
    assert_eq!(config.grid.rows, 2);
    assert_eq!(config.grid.cols, Config::default().grid.cols);
    assert_eq!(config.theme, Config::default().theme);
}

#[test]
fn read_back_checks_report_with_their_group() {
    let mut fields = default_fields();
    fields.label_size = "9".into();
    let err = apply_fields(&mut Config::default(), &fields).unwrap_err();
    assert_eq!(err, "Invalid theme value: label_size must be 1-8");

    let mut fields = default_fields();
    fields.border_px = "17".into();
    let err = apply_fields(&mut Config::default(), &fields).unwrap_err();
    assert_eq!(err, "theme: border_px must be 1-16");

    let mut fields = default_fields();
    fields.column_keys[0] = "space".into();
    let err = apply_fields(&mut Config::default(), &fields).unwrap_err();
    assert_eq!(err, "grid: selection keys must be nonempty, unique printable keys");
}

#[test]
fn apply_refuses_an_invalid_draft_and_keeps_state() {
    let mut editor = SettingsEditor::new(Config::default());
    let mut fields = default_fields();
    fields.start_speed_px_s = "0".into();
    assert!(editor.edit(&fields).is_err());
    assert!(editor.apply().is_ok());
    assert!(!editor.is_dirty());
}

#[test]
fn an_applied_form_validates_and_reads_back_from_its_tables() {
    let mut fields = default_fields();
    fields.leader = "caps".into();
    fields.start_speed_px_s = "450".into();
    fields.layout = "simple".into();
    fields.grid_rows = "3".into();
    fields.grid_cols = "3".into();
    fields.grid_keys = ["u", "i", "o", "j", "k", "l", "m", ",", "."].iter().map(|k| k.to_string()).collect();
    fields.column_keys = Vec::new();
    fields.row_keys = Vec::new();
    let mut cfg = Config::default();
    apply_fields(&mut cfg, &fields).unwrap();
    assert_eq!(cfg.settings.leader, LogicalKey::CapsLock);
    assert!(cfg.validate().is_ok());
    assert_eq!(Config::from_raw(&cfg.to_raw()).unwrap(), cfg);
}
