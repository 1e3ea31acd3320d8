use clickless::config::Config;
use clickless::settings_editor::{fields_from_config, SettingsEditor};
use clickless::settings_model::{settings, SettingsPage};
use clickless::winui_host::{card_rows, fields_with_draft, page_for_index, DraftValue};
use std::collections::BTreeMap;

/// The card values in the order the map holds them.
fn in_key_order(values: &BTreeMap<&'static str, DraftValue>) -> Vec<(&'static str, DraftValue)> {
    values.iter().map(|(k, v)| (*k, v.clone())).collect()
}

#[test]
fn card_rows_render_general_page_from_draft() {
    let editor = SettingsEditor::new(Config::default());
    let rows = card_rows(&editor, SettingsPage::General);
    assert_eq!(rows.len(), 3);
    assert_eq!(rows[0].key, "enabled");
    assert_eq!(rows[0].value, "On");
    assert_eq!(rows[1].key, "leader");
    assert_eq!(rows[1].value, "capslock");
    assert_eq!(rows[2].key, "hold_ms");
    assert_eq!(rows[2].value, "200");
}

#[test]
fn card_rows_cover_every_modeled_key_with_a_value() {
    let editor = SettingsEditor::new(Config::default());
    for page in SettingsPage::all() {
        let rows = card_rows(&editor, page);
        for row in &rows {
            assert!(
                !row.value.is_empty(),
                "page {} key {} has no draft value",
                page.title(),
                row.key
            );
        }
    }
    let covered: usize = SettingsPage::all()
        .iter()
        .map(|page| card_rows(&editor, *page).len())
        .sum();
    assert_eq!(covered, settings().len());
}

#[test]
fn every_page_has_a_title() {
    for page in SettingsPage::all() {
        assert!(!page.title().is_empty());
    }
}

#[test]
fn page_for_index_matches_the_sidebar_order() {
    for (index, page) in SettingsPage::all().iter().enumerate() {
        assert_eq!(page_for_index(index as i32), *page);
    }
    assert_eq!(page_for_index(-1), SettingsPage::General);
    assert_eq!(page_for_index(99), SettingsPage::General);
}

/// Every card the host draws must be readable back, except the two keys
/// this slice has no editor for: the binding table and the About blurb.
#[test]
fn every_editable_card_has_a_write_back_rule() {
    let base = fields_from_config(&Config::default());
    let mut values = BTreeMap::new();
    values.insert("enabled", DraftValue::Flag(false));
    values.insert("leader", DraftValue::Text("f8".into()));
    values.insert("hold_ms", DraftValue::Text("250".into()));
    values.insert("start_speed", DraftValue::Text("400".into()));
    values.insert("max_speed", DraftValue::Text("2000".into()));
    values.insert("ramp_ms", DraftValue::Text("300".into()));
    values.insert("layout", DraftValue::Choice(1));
    values.insert("nested_size", DraftValue::Text("2 x 4".into()));
    values.insert("nudge_enabled", DraftValue::Flag(true));
    values.insert("color_panel", DraftValue::Text("101010".into()));
    values.insert("color_label", DraftValue::Text("FFFFFF".into()));

    for page in SettingsPage::all() {
        for row in card_rows(&SettingsEditor::new(Config::default()), page) {
            if row.key == "about" || row.key == "mouse_bindings" {
                continue;
            }
            assert!(
                values.contains_key(row.key),
                "card {} has no write-back rule",
                row.key
            );
        }
    }

    let fields = fields_with_draft(&base, &in_key_order(&values)).expect("fields");
    assert!(!fields.enabled);
    assert!(fields.nudge_enabled);
    assert_eq!(fields.leader, "f8");
    assert_eq!(fields.hold_ms, "250");
    assert_eq!(fields.start_speed_px_s, "400");
    assert_eq!(fields.max_speed_px_s, "2000");
    assert_eq!(fields.ramp_ms, "300");
    assert_eq!(fields.layout, "simple");
    assert_eq!(fields.grid_rows, "2");
    assert_eq!(fields.grid_cols, "4");
    assert_eq!(fields.panel, "101010");
    assert_eq!(fields.label, "FFFFFF");
}

/// A widget the host never renders keeps the saved value, and a malformed
/// value names its field instead of half-applying.
#[test]
fn fields_with_draft_keeps_untouched_fields_and_rejects_bad_values() {
    let base = fields_from_config(&Config::default());
    let mut untouched = BTreeMap::new();
    untouched.insert("leader", DraftValue::Text("f8".into()));
    let fields = fields_with_draft(&base, &in_key_order(&untouched)).expect("fields");
    assert_eq!(fields.scroll_step, base.scroll_step);
    assert_eq!(fields.grid_keys, base.grid_keys);

    let mut malformed = BTreeMap::new();
    malformed.insert("nested_size", DraftValue::Text("dense".into()));
    let error = fields_with_draft(&base, &in_key_order(&malformed)).expect_err("malformed subgrid");
    assert!(error.contains("Subgrid size"), "{error}");

    let mut unknown_choice = BTreeMap::new();
    unknown_choice.insert("layout", DraftValue::Choice(7));
    assert!(fields_with_draft(&base, &in_key_order(&unknown_choice)).is_err());
}

#[test]
fn nested_size_accepts_the_multiplication_sign_and_trims() {
    let base = fields_from_config(&Config::default());
    let values = vec![("nested_size", DraftValue::Text(" 4 \u{d7} 6 ".into()))];
    let fields = fields_with_draft(&base, &values).unwrap();
    assert_eq!((fields.grid_rows.as_str(), fields.grid_cols.as_str()), ("4", "6"));
    let values = vec![("nested_size", DraftValue::Text("3 x 4 x 5".into()))];
    assert_eq!(
        fields_with_draft(&base, &values).unwrap_err(),
        "Subgrid size: write \"3 x 10\", not \"3 x 4 x 5\""
    );
}

#[test]
fn first_malformed_value_is_the_error() {
    let base = fields_from_config(&Config::default());
    let values = vec![
        ("layout", DraftValue::Choice(5)),
        ("nested_size", DraftValue::Text("bad".into())),
    ];
    assert_eq!(fields_with_draft(&base, &values).unwrap_err(), "Grid style: no option 5");
}

#[test]
fn card_rows_show_sizes_and_binding_counts() {
    let editor = SettingsEditor::new(Config::default());
    let grid = card_rows(&editor, SettingsPage::Grid);
    let size = grid.iter().find(|r| r.key == "nested_size").unwrap();
    assert_eq!(size.value, "3 x 10");
    let shortcuts = card_rows(&editor, SettingsPage::Shortcuts);
    assert_eq!(shortcuts[0].value, "11 bindings");
    let about = card_rows(&editor, SettingsPage::About);
    assert_eq!(about[0].value, "Clickless v0.1.0");
}
