//! Settings editor semantics: the window's raw control strings become a
//! `Config` through one parser, and the editor decides what is applied.
use vstd::prelude::*;
use crate::config::{
    action_named, error_text, key_named, logical_key_name, action_name, parse_action, parse_hex_rgb,
    parse_logical_key, rgb_of, view_validation, lemma_view_validation, Config, ConfigError,
    ConfigErrorView, ConfigView, Settings, ThemeConfig,
};
use crate::configfile::{keys_named, pair_seq, raw_config, str_seq, hex_rgb, rgb_text};
use crate::grid::{GridView, home_row_keys, qwerty_keys};
use crate::keys::{Action, KeyMap, LogicalKey, lemma_ordinal_injective, KEY_COUNT};
use crate::numtext::{i64_of, parse_i64_text, parse_u32_text, parse_u64_text, trim, trim_chars, u32_of, u64_of};
use crate::text::{chars_of, dec, push_char, push_dec, push_str};
use vstd::string::StringExecFns;
use vstd::string::StrSliceExecFns;

verus! {

/// Raw control values, exactly as the window holds them.
#[derive(Debug, Clone, PartialEq, Eq)]
pub struct Fields {
    pub enabled: bool,
    pub leader: String,
    pub start_speed_px_s: String,
    pub max_speed_px_s: String,
    pub ramp_ms: String,
    pub hold_ms: String,
    pub scroll_step: String,
    pub layout: String,
    pub mouse_bindings: Vec<(String, String)>,
    pub grid_rows: String,
    pub grid_cols: String,
    pub grid_keys: Vec<String>,
    pub column_keys: Vec<String>,
    pub row_keys: Vec<String>,
    pub nudge_enabled: bool,
    pub nudge_step_px: String,
    pub drag_after_select: bool,
    pub auto_free_mode: bool,
    pub panel: String,
    pub panel_opacity: String,
    pub border: String,
    pub highlight_opacity: String,
    pub border_px: String,
    pub highlight: String,
    pub label: String,
    pub pointer: String,
    pub label_size: String,
}

/// The control values as characters.
pub struct FieldsView {
    pub enabled: bool,
    pub leader: Seq<char>,
    pub start_speed_px_s: Seq<char>,
    pub max_speed_px_s: Seq<char>,
    pub ramp_ms: Seq<char>,
    pub hold_ms: Seq<char>,
    pub scroll_step: Seq<char>,
    pub layout: Seq<char>,
    pub mouse_bindings: Seq<(Seq<char>, Seq<char>)>,
    pub grid_rows: Seq<char>,
    pub grid_cols: Seq<char>,
    pub grid_keys: Seq<Seq<char>>,
    pub column_keys: Seq<Seq<char>>,
    pub row_keys: Seq<Seq<char>>,
    pub nudge_enabled: bool,
    pub nudge_step_px: Seq<char>,
    pub drag_after_select: bool,
    pub auto_free_mode: bool,
    pub panel: Seq<char>,
    pub panel_opacity: Seq<char>,
    pub border: Seq<char>,
    pub highlight_opacity: Seq<char>,
    pub border_px: Seq<char>,
    pub highlight: Seq<char>,
    pub label: Seq<char>,
    pub pointer: Seq<char>,
    pub label_size: Seq<char>,
}

impl View for Fields {
    type V = FieldsView;

    open spec fn view(&self) -> FieldsView {
        FieldsView {
            enabled: self.enabled,
            leader: self.leader@,
            start_speed_px_s: self.start_speed_px_s@,
            max_speed_px_s: self.max_speed_px_s@,
            ramp_ms: self.ramp_ms@,
            hold_ms: self.hold_ms@,
            scroll_step: self.scroll_step@,
            layout: self.layout@,
            mouse_bindings: pair_seq(self.mouse_bindings),
            grid_rows: self.grid_rows@,
            grid_cols: self.grid_cols@,
            grid_keys: str_seq(self.grid_keys),
            column_keys: str_seq(self.column_keys),
            row_keys: str_seq(self.row_keys),
            nudge_enabled: self.nudge_enabled,
            nudge_step_px: self.nudge_step_px@,
            drag_after_select: self.drag_after_select,
            auto_free_mode: self.auto_free_mode,
            panel: self.panel@,
            panel_opacity: self.panel_opacity@,
            border: self.border@,
            highlight_opacity: self.highlight_opacity@,
            border_px: self.border_px@,
            highlight: self.highlight@,
            label: self.label@,
            pointer: self.pointer@,
            label_size: self.label_size@,
        }
    }
}

/// A text in double quotes.
pub open spec fn quote(s: Seq<char>) -> Seq<char> {
    seq!['"'] + s + seq!['"']
}

/// A result with a message error matches one with a `String` error.
pub open spec fn agrees<T>(r: Result<T, String>, s: Result<T, Seq<char>>) -> bool {
    match s {
        Ok(v) => r == Ok::<T, String>(v),
        Err(m) => r matches Err(e) && e@ == m,
    }
}

/// A whole-number field: its trimmed text as a `u64`.
pub open spec fn read_u64(name: Seq<char>, raw: Seq<char>) -> Result<u64, Seq<char>> {
    match u64_of(trim(raw)) {
        Some(v) => Ok(v),
        None => Err(name + " must be a whole number, got "@ + quote(raw)),
    }
}

/// A signed field: its trimmed text as an `i64`.
pub open spec fn read_i64(name: Seq<char>, raw: Seq<char>) -> Result<i64, Seq<char>> {
    match i64_of(trim(raw)) {
        Some(v) => Ok(v),
        None => Err(name + " must be a number, got "@ + quote(raw)),
    }
}

/// A grid dimension: its trimmed text as a `u32`.
pub open spec fn read_dimension(name: Seq<char>, raw: Seq<char>) -> Result<u32, Seq<char>> {
    match u32_of(trim(raw)) {
        Some(v) => Ok(v),
        None => Err("grid: "@ + name + " must be a whole number, got "@ + quote(raw)),
    }
}

/// An opacity: a whole number up to 255.
pub open spec fn read_opacity(name: Seq<char>, raw: Seq<char>) -> Result<u8, Seq<char>> {
    match read_u64(name, raw) {
        Err(e) => Err(e),
        Ok(v) => if v <= 255 {
            Ok(v as u8)
        } else {
            Err(name + " must be 0-255, got "@ + dec(v as int))
        },
    }
}

/// A colour field, `RRGGBB` or `#RRGGBB`.
pub open spec fn read_colour(name: Seq<char>, raw: Seq<char>) -> Result<(u8, u8, u8), Seq<char>> {
    match rgb_of(raw) {
        Some(c) => Ok(c),
        None => Err(error_text(ConfigErrorView::InvalidTheme(name + " = \""@ + raw + "\" must be RRGGBB hex"@))),
    }
}

/// A list of key fields; the first unknown name is the error.
pub open spec fn read_keys(name: Seq<char>, names: Seq<Seq<char>>) -> Result<Seq<LogicalKey>, Seq<char>> {
    match keys_named(names) {
        Ok(ks) => Ok(ks),
        Err(e) => Err("grid: "@ + name + ": "@ + error_text(e)),
    }
}

/// The binding rows: blank key cells skipped, each key and action read, a
/// key bound twice an error.
pub open spec fn read_bindings(es: Seq<(Seq<char>, Seq<char>)>) -> Result<Map<LogicalKey, Action>, Seq<char>>
    decreases es.len(),
{
    if es.len() == 0 {
        Ok(Map::empty())
    } else {
        match read_bindings(es.drop_last()) {
            Err(e) => Err(e),
            Ok(m) => {
                let (k, a) = es.last();
                if trim(k).len() == 0 {
                    Ok(m)
                } else {
                    match key_named(k) {
                        None => Err("bindings: "@ + error_text(ConfigErrorView::UnknownKey(k))),
                        Some(key) => match action_named(a) {
                            None => Err("bindings: "@ + error_text(ConfigErrorView::UnknownAction(a))),
                            Some(act) => if m.dom().contains(key) {
                                Err("bindings: "@ + key.name() + " is bound more than once"@)
                            } else {
                                Ok(m.insert(key, act))
                            },
                        },
                    }
                }
            },
        }
    }
}

/// The motion settings the form holds, read in field order.
pub open spec fn form_settings(f: FieldsView) -> Result<Settings, Seq<char>> {
    match key_named(f.leader) {
        None => Err("leader key "@ + quote(f.leader) + " is not a known key"@),
        Some(leader) => match read_u64("start speed"@, f.start_speed_px_s) {
            Err(e) => Err(e),
            Ok(start) => match read_u64("max speed"@, f.max_speed_px_s) {
                Err(e) => Err(e),
                Ok(max) => match read_u64("ramp ms"@, f.ramp_ms) {
                    Err(e) => Err(e),
                    Ok(ramp) => match read_u64("hold ms"@, f.hold_ms) {
                        Err(e) => Err(e),
                        Ok(hold) => match read_i64("scroll step"@, f.scroll_step) {
                            Err(e) => Err(e),
                            Ok(scroll) => Ok(Settings {
                                leader,
                                start_speed_px_s: start,
                                max_speed_px_s: max,
                                ramp_ms: ramp,
                                hold_ms: hold,
                                scroll_step: scroll,
                            }),
                        },
                    },
                },
            },
        },
    }
}

/// The layout field: dense or simple.
pub open spec fn form_layout(layout: Seq<char>) -> Result<bool, Seq<char>> {
    if layout == "dense"@ {
        Ok(true)
    } else if layout == "simple"@ {
        Ok(false)
    } else {
        Err("layout must be dense or simple, got "@ + quote(layout))
    }
}

/// The outer label banks: the dense layout's, an empty field meaning the
/// factory bank; none for the simple layout.
pub open spec fn form_banks(dense: bool, f: FieldsView) -> Result<(Seq<LogicalKey>, Seq<LogicalKey>), Seq<char>> {
    if !dense {
        Ok((Seq::empty(), Seq::empty()))
    } else {
        let col = if f.column_keys.len() == 0 { Ok(home_row_keys()) } else { read_keys("column keys"@, f.column_keys) };
        match col {
            Err(e) => Err(e),
            Ok(col) => {
                let row = if f.row_keys.len() == 0 { Ok(qwerty_keys()) } else { read_keys("row keys"@, f.row_keys) };
                match row {
                    Err(e) => Err(e),
                    Ok(row) => Ok((col, row)),
                }
            },
        }
    }
}

/// The grid the form holds, read in field order.
pub open spec fn form_grid(dense: bool, f: FieldsView) -> Result<GridView, Seq<char>> {
    match read_dimension("rows"@, f.grid_rows) {
        Err(e) => Err(e),
        Ok(rows) => match read_dimension("columns"@, f.grid_cols) {
            Err(e) => Err(e),
            Ok(cols) => match read_keys("nested keys"@, f.grid_keys) {
                Err(e) => Err(e),
                Ok(keys) => match form_banks(dense, f) {
                    Err(e) => Err(e),
                    Ok(banks) => match read_i64("nudge step"@, f.nudge_step_px) {
                        Err(e) => Err(e),
                        Ok(nudge) => Ok(GridView {
                            rows,
                            cols,
                            keys,
                            auto_free_mode_after_move: f.auto_free_mode,
                            nudge_enabled: f.nudge_enabled,
                            nudge_step_px: nudge,
                            drag_after_select: f.drag_after_select,
                            dense,
                            column_keys: banks.0,
                            row_keys: banks.1,
                        }),
                    },
                },
            },
        },
    }
}

/// The theme the form holds, read in field order.
pub open spec fn form_theme(f: FieldsView) -> Result<ThemeConfig, Seq<char>> {
    match read_colour("panel"@, f.panel) {
        Err(e) => Err(e),
        Ok(panel) => match read_opacity("panel opacity"@, f.panel_opacity) {
            Err(e) => Err(e),
            Ok(panel_opacity) => match read_colour("border"@, f.border) {
                Err(e) => Err(e),
                Ok(border) => match read_opacity("highlight opacity"@, f.highlight_opacity) {
                    Err(e) => Err(e),
                    Ok(highlight_opacity) => match read_i64("border width"@, f.border_px) {
                        Err(e) => Err(e),
                        Ok(border_px) => match read_colour("highlight"@, f.highlight) {
                            Err(e) => Err(e),
                            Ok(highlight) => match read_colour("label"@, f.label) {
                                Err(e) => Err(e),
                                Ok(label) => match read_colour("pointer"@, f.pointer) {
                                    Err(e) => Err(e),
                                    Ok(pointer) => match read_i64("label size"@, f.label_size) {
                                        Err(e) => Err(e),
                                        Ok(label_size) => Ok(ThemeConfig {
                                            panel,
                                            panel_opacity,
                                            border,
                                            highlight_opacity,
                                            border_px,
                                            highlight,
                                            label,
                                            pointer,
                                            label_size,
                                        }),
                                    },
                                },
                            },
                        },
                    },
                },
            },
        },
    }
}

/// The configuration the form's non-theme fields give over `c`.
pub open spec fn form_draft(c: ConfigView, f: FieldsView) -> Result<ConfigView, Seq<char>> {
    match form_settings(f) {
        Err(e) => Err(e),
        Ok(st) => match form_layout(f.layout) {
            Err(e) => Err(e),
            Ok(dense) => match read_bindings(f.mouse_bindings) {
                Err(e) => Err(e),
                Ok(mb) => match form_grid(dense, f) {
                    Err(e) => Err(e),
                    Ok(g) => Ok(ConfigView { enabled: f.enabled, settings: st, grid: g, mouse_bindings: mb, ..c }),
                },
            },
        },
    }
}

pub open spec fn reserved_text(name: Seq<char>) -> Seq<char> {
    "bindings: "@ + name + " is reserved by the engine and cannot be bound"@
}

pub open spec fn grid_count_text(found: int, expected: int) -> Seq<char> {
    "grid: nested key count is "@ + dec(found) + "; expected "@ + dec(expected)
}

pub open spec fn grid_size_text(rows: int, cols: int) -> Seq<char> {
    "grid: rows and columns must be above 0, got "@ + dec(rows) + "x"@ + dec(cols)
}

pub open spec fn grid_overflow_text(rows: int, cols: int) -> Seq<char> {
    "grid: dimensions overflow for "@ + dec(rows) + "x"@ + dec(cols)
}

/// How a failed check reads in the form, grouped by the part of the window it concerns.
pub open spec fn check_text(e: ConfigErrorView) -> Seq<char> {
    match e {
        ConfigErrorView::InvalidStartSpeed(v) => "start speed must be above 0, got "@ + dec(v as int),
        ConfigErrorView::InvalidMaxSpeed(m, s) => "max speed "@ + dec(m as int) + " must be at least the start speed "@
            + dec(s as int),
        ConfigErrorView::InvalidRampMs(v) => "ramp ms must be above 0, got "@ + dec(v as int),
        ConfigErrorView::InvalidNudgeStep => "nudge step must be above 0"@,
        ConfigErrorView::DuplicateGridKey => "grid: key appears more than once"@,
        ConfigErrorView::InvalidGridKeyCount(f, x) => grid_count_text(f as int, x as int),
        ConfigErrorView::InvalidGridDimensions(r, c) => grid_size_text(r as int, c as int),
        ConfigErrorView::GridDimensionsOverflow(r, c) => grid_overflow_text(r as int, c as int),
        ConfigErrorView::ReservedKey(k) => reserved_text(k),
        ConfigErrorView::DuplicateBinding(k) => "bindings: "@ + k + " is bound more than once"@,
        other => error_text(other),
    }
}

/// How a read-back failure reads in the form.
pub open spec fn reread_text(e: ConfigErrorView) -> Seq<char> {
    match e {
        ConfigErrorView::InvalidGridLayout(m) => "grid: "@ + m,
        ConfigErrorView::InvalidGridDimensions(r, c) => grid_size_text(r as int, c as int),
        ConfigErrorView::InvalidGridKeyCount(f, x) => grid_count_text(f as int, x as int),
        ConfigErrorView::GridDimensionsOverflow(r, c) => grid_overflow_text(r as int, c as int),
        ConfigErrorView::DuplicateGridKey => "grid: key appears more than once"@,
        ConfigErrorView::ReservedKey(k) => reserved_text(k),
        ConfigErrorView::DuplicateBinding(k) => "bindings: "@ + k + " is bound more than once"@,
        other => error_text(other),
    }
}

/// How the last check reads in the form.
pub open spec fn final_text(e: ConfigErrorView) -> Seq<char> {
    match e {
        ConfigErrorView::InvalidGridLayout(m) => "grid: "@ + m,
        ConfigErrorView::InvalidTheme(m) => "theme: "@ + m,
        other => check_text(other),
    }
}

/// The form's theme put on a checked draft, with the reserved keys refused.
pub open spec fn form_themed(pre: ConfigView, f: FieldsView) -> Result<ConfigView, Seq<char>> {
    match view_validation(pre) {
        Err(e) => Err(check_text(e)),
        Ok(_) => match form_theme(f) {
            Err(e) => Err(e),
            Ok(t) => {
                let themed = ConfigView { theme: t, ..pre };
                if themed.mouse_bindings.dom().contains(LogicalKey::Esc) {
                    Err(reserved_text("esc"@))
                } else if themed.mouse_bindings.dom().contains(LogicalKey::Backspace) {
                    Err(reserved_text("backspace"@))
                } else if themed.mouse_bindings.dom().contains(themed.settings.leader) {
                    Err(reserved_text(themed.settings.leader.name()))
                } else {
                    Ok(themed)
                }
            },
        },
    }
}

/// A themed draft read back the way the file reader would, then checked again.
pub open spec fn form_settled(themed: ConfigView) -> Result<ConfigView, Seq<char>> {
    match crate::roundtrip::reread(themed) {
        Err(e) => Err(reread_text(e)),
        Ok(v) => match view_validation(v) {
            Err(e) => Err(final_text(e)),
            Ok(_) => Ok(v),
        },
    }
}

/// What the form gives over a configuration: the non-theme fields read and
/// checked, the theme read, the reserved keys refused, and the result read
/// back the way the file reader would and checked again.
pub open spec fn form_outcome(c: ConfigView, f: FieldsView) -> Result<ConfigView, Seq<char>> {
    match form_draft(c, f) {
        Err(e) => Err(e),
        Ok(pre) => match form_themed(pre, f) {
            Err(e) => Err(e),
            Ok(themed) => form_settled(themed),
        },
    }
}


/// The motion settings after a failed read: the fields before the failing
/// one hold what the form gives, the rest keep their values.
pub open spec fn settings_left(s: Settings, f: FieldsView) -> Settings {
    match key_named(f.leader) {
        None => s,
        Some(leader) => {
            let s1 = Settings { leader, ..s };
            match read_u64("start speed"@, f.start_speed_px_s) {
                Err(_) => s1,
                Ok(v) => {
                    let s2 = Settings { start_speed_px_s: v, ..s1 };
                    match read_u64("max speed"@, f.max_speed_px_s) {
                        Err(_) => s2,
                        Ok(v) => {
                            let s3 = Settings { max_speed_px_s: v, ..s2 };
                            match read_u64("ramp ms"@, f.ramp_ms) {
                                Err(_) => s3,
                                Ok(v) => {
                                    let s4 = Settings { ramp_ms: v, ..s3 };
                                    match read_u64("hold ms"@, f.hold_ms) {
                                        Err(_) => s4,
                                        Ok(v) => Settings { hold_ms: v, ..s4 },
                                    }
                                },
                            }
                        },
                    }
                },
            }
        },
    }
}

/// The nudge fields after the banks: the switch is taken, then the step read.
pub open spec fn nudge_left(g: GridView, f: FieldsView) -> GridView {
    let g1 = GridView { nudge_enabled: f.nudge_enabled, ..g };
    match read_i64("nudge step"@, f.nudge_step_px) {
        Err(_) => g1,
        Ok(n) => GridView {
            nudge_step_px: n,
            drag_after_select: f.drag_after_select,
            auto_free_mode_after_move: f.auto_free_mode,
            ..g1
        },
    }
}

/// The grid after a failed read, its layout already set: the fields before
/// the failing one hold what the form gives, the rest keep their values.
pub open spec fn grid_left(g: GridView, f: FieldsView) -> GridView {
    match read_dimension("rows"@, f.grid_rows) {
        Err(_) => g,
        Ok(rows) => {
            let g1 = GridView { rows, ..g };
            match read_dimension("columns"@, f.grid_cols) {
                Err(_) => g1,
                Ok(cols) => {
                    let g2 = GridView { cols, ..g1 };
                    match read_keys("nested keys"@, f.grid_keys) {
                        Err(_) => g2,
                        Ok(keys) => {
                            let g3 = GridView { keys, ..g2 };
                            if g3.dense {
                                let col = if f.column_keys.len() == 0 {
                                    Ok(home_row_keys())
                                } else {
                                    read_keys("column keys"@, f.column_keys)
                                };
                                match col {
                                    Err(_) => g3,
                                    Ok(col) => {
                                        let g4 = GridView { column_keys: col, ..g3 };
                                        let row = if f.row_keys.len() == 0 {
                                            Ok(qwerty_keys())
                                        } else {
                                            read_keys("row keys"@, f.row_keys)
                                        };
                                        match row {
                                            Err(_) => g4,
                                            Ok(row) => nudge_left(GridView { row_keys: row, ..g4 }, f),
                                        }
                                    },
                                }
                            } else {
                                nudge_left(GridView { column_keys: Seq::empty(), row_keys: Seq::empty(), ..g3 }, f)
                            }
                        },
                    }
                },
            }
        },
    }
}

/// A checked draft after a failed theme step: the theme is put on only once
/// every theme field reads.
pub open spec fn themed_left(pre: ConfigView, f: FieldsView) -> ConfigView {
    match view_validation(pre) {
        Err(_) => pre,
        Ok(_) => match form_theme(f) {
            Err(_) => pre,
            Ok(t) => ConfigView { theme: t, ..pre },
        },
    }
}

/// The configuration a failed draft leaves behind: every non-theme field
/// read before the failure is written, in field order.
pub open spec fn draft_left(c: ConfigView, f: FieldsView) -> ConfigView {
    let c1 = ConfigView { enabled: f.enabled, ..c };
    match form_settings(f) {
        Err(_) => ConfigView { settings: settings_left(c1.settings, f), ..c1 },
        Ok(st) => {
            let c2 = ConfigView { settings: st, ..c1 };
            match form_layout(f.layout) {
                Err(_) => c2,
                Ok(dense) => {
                    let c3 = ConfigView { grid: GridView { dense, ..c2.grid }, ..c2 };
                    match read_bindings(f.mouse_bindings) {
                        Err(_) => c3,
                        Ok(mb) => {
                            let c4 = ConfigView { mouse_bindings: mb, ..c3 };
                            ConfigView { grid: grid_left(c4.grid, f), ..c4 }
                        },
                    }
                },
            }
        },
    }
}

/// The configuration a failed form leaves behind: what a failed draft
/// leaves; else the draft, with the theme once every theme field reads; a
/// failure after the read-back leaves the read-back configuration.
pub open spec fn form_left(c: ConfigView, f: FieldsView) -> ConfigView {
    match form_draft(c, f) {
        Err(_) => draft_left(c, f),
        Ok(pre) => match form_themed(pre, f) {
            Err(_) => themed_left(pre, f),
            Ok(themed) => match crate::roundtrip::reread(themed) {
                Err(_) => themed,
                Ok(v) => v,
            },
        },
    }
}

/// `name`, then `mid`, then `raw` in quotes.
fn quoted_message(name: &str, mid: &str, raw: &str) -> (m: String)
    ensures
        m@ == name@ + mid@ + quote(raw@),
{
    let mut m = String::new();
    push_str(&mut m, name);
    push_str(&mut m, mid);
    push_char(&mut m, '"');
    push_str(&mut m, raw);
    push_char(&mut m, '"');
    proof {
        assert(m@ =~= name@ + mid@ + quote(raw@));
    }
    m
}

fn trimmed(raw: &String) -> (v: Vec<char>)
    ensures
        v@ == trim(raw@),
{
    trim_chars(&chars_of(raw.as_str()))
}

fn parse_u64(name: &str, raw: &String) -> (r: Result<u64, String>)
    ensures
        agrees(r, read_u64(name@, raw@)),
{
    match parse_u64_text(&trimmed(raw)) {
        Some(v) => Ok(v),
        None => Err(quoted_message(name, " must be a whole number, got ", raw.as_str())),
    }
}

fn parse_i64(name: &str, raw: &String) -> (r: Result<i64, String>)
    ensures
        agrees(r, read_i64(name@, raw@)),
{
    match parse_i64_text(&trimmed(raw)) {
        Some(v) => Ok(v),
        None => Err(quoted_message(name, " must be a number, got ", raw.as_str())),
    }
}

fn parse_grid_dimension(name: &str, raw: &String) -> (r: Result<u32, String>)
    ensures
        agrees(r, read_dimension(name@, raw@)),
{
    match parse_u32_text(&trimmed(raw)) {
        Some(v) => Ok(v),
        None => {
            let mut m = String::from_str("grid: ");
            let rest = quoted_message(name, " must be a whole number, got ", raw.as_str());
            push_str(&mut m, rest.as_str());
            proof {
                assert(m@ =~= "grid: "@ + name@ + " must be a whole number, got "@ + quote(raw@));
            }
            Err(m)
        }
    }
}

fn parse_opacity_named(name: &str, raw: &String) -> (r: Result<u8, String>)
    ensures
        agrees(r, read_opacity(name@, raw@)),
{
    let v = parse_u64(name, raw)?;
    if v <= 255 {
        Ok(v as u8)
    } else {
        let mut m = String::from_str(name);
        push_str(&mut m, " must be 0-255, got ");
        push_dec(&mut m, v as i128);
        proof {
            assert(m@ =~= name@ + " must be 0-255, got "@ + dec(v as int));
        }
        Err(m)
    }
}

fn parse_opacity(raw: &String) -> (r: Result<u8, String>)
    ensures
        agrees(r, read_opacity("panel opacity"@, raw@)),
{
    parse_opacity_named("panel opacity", raw)
}

fn read_colour_field(name: &str, raw: &String) -> (r: Result<(u8, u8, u8), String>)
    ensures
        agrees(r, read_colour(name@, raw@)),
{
    match parse_hex_rgb(name, raw.as_str()) {
        Ok(c) => Ok(c),
        Err(e) => Err(e.message()),
    }
}

fn parse_grid_keys(name: &str, names: &Vec<String>) -> (r: Result<Vec<LogicalKey>, String>)
    ensures
        match read_keys(name@, str_seq(*names)) {
            Ok(ks) => r matches Ok(v) && v@ == ks,
            Err(m) => r matches Err(e) && e@ == m,
        },
{
    match crate::configfile::parse_keys(names) {
        Ok(v) => Ok(v),
        Err(e) => {
            let mut m = String::from_str("grid: ");
            push_str(&mut m, name);
            push_str(&mut m, ": ");
            let t = e.message();
            push_str(&mut m, t.as_str());
            proof {
                assert(m@ =~= "grid: "@ + name@ + ": "@ + error_text(e@));
            }
            Err(m)
        }
    }
}

proof fn lemma_bindings_prefix_err(s: Seq<(Seq<char>, Seq<char>)>, n: int)
    requires
        0 <= n <= s.len(),
        read_bindings(s.take(n)) is Err,
    ensures
        read_bindings(s) == read_bindings(s.take(n)),
    decreases s.len() - n,
{
    if n < s.len() {
        assert(s.take(n + 1).drop_last() =~= s.take(n));
        lemma_bindings_prefix_err(s, n + 1);
    } else {
        assert(s.take(n) =~= s);
    }
}

/// Every action a binding row can name is one a file can name.
proof fn lemma_bindings_named(s: Seq<(Seq<char>, Seq<char>)>)
    requires
        read_bindings(s) is Ok,
    ensures
        forall|k: LogicalKey| #[trigger] read_bindings(s)->Ok_0.dom().contains(k)
            ==> crate::roundtrip::is_named_action(read_bindings(s)->Ok_0[k]),
    decreases s.len(),
{
    if s.len() > 0 {
        lemma_bindings_named(s.drop_last());
    }
}

fn parse_mouse_bindings(es: &Vec<(String, String)>) -> (r: Result<KeyMap<Action>, String>)
    ensures
        match read_bindings(pair_seq(*es)) {
            Ok(m) => r matches Ok(km) && km.view_map() == m,
            Err(msg) => r matches Err(e) && e@ == msg,
        },
{
    let ghost all = pair_seq(*es);
    let mut out: KeyMap<Action> = KeyMap::new();
    let mut i: usize = 0;
    proof {
        assert(all.take(0) =~= Seq::<(Seq<char>, Seq<char>)>::empty());
        assert(out.view_map() =~= Map::<LogicalKey, Action>::empty());
    }
    while i < es.len()
        invariant
            i <= es.len(),
            all == pair_seq(*es),
            read_bindings(all.take(i as int)) == Ok::<Map<LogicalKey, Action>, Seq<char>>(out.view_map()),
        decreases es.len() - i,
    {
        let ghost prefix = all.take(i as int);
        let ghost next = all.take(i as int + 1);
        proof {
            assert(next.drop_last() =~= prefix);
            assert(next.last() == (es@[i as int].0@, es@[i as int].1@));
        }
        let key_text = &es[i].0;
        let action_text_field = &es[i].1;
        let t = trimmed(key_text);
        if t.len() == 0 {
            i = i + 1;
            continue;
        }
        let key = match parse_logical_key(key_text.as_str()) {
            Ok(k) => k,
            Err(e) => {
                let mut m = String::from_str("bindings: ");
                let t = e.message();
                push_str(&mut m, t.as_str());
                proof {
                    assert(m@ =~= "bindings: "@ + error_text(e@));
                    lemma_bindings_prefix_err(all, i as int + 1);
                }
                return Err(m);
            }
        };
        let act = match parse_action(action_text_field.as_str()) {
            Ok(a) => a,
            Err(e) => {
                let mut m = String::from_str("bindings: ");
                let t = e.message();
                push_str(&mut m, t.as_str());
                proof {
                    assert(m@ =~= "bindings: "@ + error_text(e@));
                    lemma_bindings_prefix_err(all, i as int + 1);
                }
                return Err(m);
            }
        };
        if out.contains_key(&key) {
            let mut m = String::from_str("bindings: ");
            push_str(&mut m, logical_key_name(key));
            push_str(&mut m, " is bound more than once");
            proof {
                assert(m@ =~= "bindings: "@ + key.name() + " is bound more than once"@);
                lemma_bindings_prefix_err(all, i as int + 1);
            }
            return Err(m);
        }
        let ghost before = out.view_map();
        out.insert(key, act);
        proof {
            assert(out.view_map() =~= before.insert(key, act));
        }
        i = i + 1;
    }
    proof {
        assert(all.take(es@.len() as int) =~= all);
    }
    Ok(out)
}


fn form_layout_exec(layout: &String) -> (r: Result<bool, String>)
    ensures
        agrees(r, form_layout(layout@)),
{
    let v = chars_of(layout.as_str());
    if crate::text::chars_eq(&v, "dense") {
        Ok(true)
    } else if crate::text::chars_eq(&v, "simple") {
        Ok(false)
    } else {
        let mut m = String::from_str("layout must be dense or simple, got ");
        push_char(&mut m, '"');
        push_str(&mut m, layout.as_str());
        push_char(&mut m, '"');
        proof {
            assert(m@ =~= "layout must be dense or simple, got "@ + quote(layout@));
        }
        Err(m)
    }
}

fn form_theme_exec(f: &Fields) -> (r: Result<ThemeConfig, String>)
    ensures
        agrees(r, form_theme(f@)),
{
    let panel = read_colour_field("panel", &f.panel)?;
    let panel_opacity = parse_opacity(&f.panel_opacity)?;
    let border = read_colour_field("border", &f.border)?;
    let highlight_opacity = parse_opacity_named("highlight opacity", &f.highlight_opacity)?;
    let border_px = parse_i64("border width", &f.border_px)?;
    let highlight = read_colour_field("highlight", &f.highlight)?;
    let label = read_colour_field("label", &f.label)?;
    let pointer = read_colour_field("pointer", &f.pointer)?;
    let label_size = parse_i64("label size", &f.label_size)?;
    Ok(ThemeConfig { panel, panel_opacity, border, highlight_opacity, border_px, highlight, label, pointer, label_size })
}

fn reserved_message(name: &str) -> (m: String)
    ensures
        m@ == reserved_text(name@),
{
    let mut m = String::from_str("bindings: ");
    push_str(&mut m, name);
    push_str(&mut m, " is reserved by the engine and cannot be bound");
    proof {
        assert(m@ =~= reserved_text(name@));
    }
    m
}

fn pair_message(head: &str, a: u64, sep: &str, b: u64) -> (m: String)
    ensures
        m@ == head@ + dec(a as int) + sep@ + dec(b as int),
{
    let mut m = String::from_str(head);
    push_dec(&mut m, a as i128);
    push_str(&mut m, sep);
    push_dec(&mut m, b as i128);
    proof {
        assert(m@ =~= head@ + dec(a as int) + sep@ + dec(b as int));
    }
    m
}

fn prefixed(head: &str, body: &str, tail: &str) -> (m: String)
    ensures
        m@ == head@ + body@ + tail@,
{
    let mut m = String::from_str(head);
    push_str(&mut m, body);
    push_str(&mut m, tail);
    proof {
        assert(m@ =~= head@ + body@ + tail@);
    }
    m
}

fn joined(head: &str, body: &str) -> (m: String)
    ensures
        m@ == head@ + body@,
{
    let mut m = String::from_str(head);
    push_str(&mut m, body);
    m
}

fn one_number(head: &str, v: u64) -> (m: String)
    ensures
        m@ == head@ + dec(v as int),
{
    let mut m = String::from_str(head);
    push_dec(&mut m, v as i128);
    proof {
        assert(m@ =~= head@ + dec(v as int));
    }
    m
}

/// The form's wording of a failed check.
fn check_message(e: &ConfigError) -> (m: String)
    ensures
        m@ == check_text(e@),
{
    match e {
        ConfigError::InvalidStartSpeed(v) => one_number("start speed must be above 0, got ", *v),
        ConfigError::InvalidMaxSpeed(a, b) => pair_message("max speed ", *a, " must be at least the start speed ", *b),
        ConfigError::InvalidRampMs(v) => one_number("ramp ms must be above 0, got ", *v),
        ConfigError::InvalidNudgeStep => String::from_str("nudge step must be above 0"),
        ConfigError::DuplicateGridKey => String::from_str("grid: key appears more than once"),
        ConfigError::InvalidGridKeyCount(f, x) => pair_message("grid: nested key count is ", *f as u64, "; expected ", *x as u64),
        ConfigError::InvalidGridDimensions(r, c) => pair_message("grid: rows and columns must be above 0, got ", *r as u64, "x", *c as u64),
        ConfigError::GridDimensionsOverflow(r, c) => pair_message("grid: dimensions overflow for ", *r as u64, "x", *c as u64),
        ConfigError::ReservedKey(k) => reserved_message(k.as_str()),
        ConfigError::DuplicateBinding(k) => prefixed("bindings: ", k.as_str(), " is bound more than once"),
        _ => e.message(),
    }
}

/// The form's wording of a read-back failure.
fn reread_message(e: &ConfigError) -> (m: String)
    ensures
        m@ == reread_text(e@),
{
    match e {
        ConfigError::InvalidGridLayout(t) => joined("grid: ", t.as_str()),
        ConfigError::InvalidGridDimensions(r, c) => pair_message("grid: rows and columns must be above 0, got ", *r as u64, "x", *c as u64),
        ConfigError::InvalidGridKeyCount(f, x) => pair_message("grid: nested key count is ", *f as u64, "; expected ", *x as u64),
        ConfigError::GridDimensionsOverflow(r, c) => pair_message("grid: dimensions overflow for ", *r as u64, "x", *c as u64),
        ConfigError::DuplicateGridKey => String::from_str("grid: key appears more than once"),
        ConfigError::ReservedKey(k) => reserved_message(k.as_str()),
        ConfigError::DuplicateBinding(k) => prefixed("bindings: ", k.as_str(), " is bound more than once"),
        _ => e.message(),
    }
}

/// The form's wording of the last check.
fn final_message(e: &ConfigError) -> (m: String)
    ensures
        m@ == final_text(e@),
{
    match e {
        ConfigError::InvalidGridLayout(t) => joined("grid: ", t.as_str()),
        ConfigError::InvalidTheme(t) => joined("theme: ", t.as_str()),
        _ => check_message(e),
    }
}


/// Configurations holding the same values have the same content.
pub proof fn lemma_same_view(a: Config, b: Config)
    requires
        a.same(b),
    ensures
        a@ == b@,
{
    assert(a@.grid == b@.grid);
    assert(a@.initial_bindings =~= b@.initial_bindings) by {
        assert forall|k: LogicalKey| #[trigger] a@.initial_bindings.dom().contains(k)
            == b@.initial_bindings.dom().contains(k) by {
            assert(crate::config::string_binding(a.initial_bindings, k) == crate::config::string_binding(b.initial_bindings, k));
        }
        assert forall|k: LogicalKey| #[trigger] a@.initial_bindings.dom().contains(k)
            implies a@.initial_bindings[k] == b@.initial_bindings[k] by {
            assert(crate::config::string_binding(a.initial_bindings, k) == crate::config::string_binding(b.initial_bindings, k));
        }
    }
    assert(a@.mouse_bindings =~= b@.mouse_bindings);
}

fn leader_message(raw: &String) -> (m: String)
    ensures
        m@ == "leader key "@ + quote(raw@) + " is not a known key"@,
{
    let mut m = String::from_str("leader key ");
    push_char(&mut m, '"');
    push_str(&mut m, raw.as_str());
    push_char(&mut m, '"');
    push_str(&mut m, " is not a known key");
    proof {
        assert(m@ =~= "leader key "@ + quote(raw@) + " is not a known key"@);
    }
    m
}

/// Reads the motion fields into the settings, in field order, stopping at
/// the first that does not read.
fn read_settings_into(config: &mut Config, f: &Fields) -> (r: Result<(), String>)
    ensures
        match form_settings(f@) {
            Ok(st) => r is Ok && final(config)@ == (ConfigView { settings: st, ..old(config)@ }),
            Err(m) => r matches Err(e) && e@ == m
                && final(config)@ == (ConfigView { settings: settings_left(old(config)@.settings, f@), ..old(config)@ }),
        },
{
    config.settings.leader = match parse_logical_key(f.leader.as_str()) {
        Ok(k) => k,
        Err(_) => return Err(leader_message(&f.leader)),
    };
    config.settings.start_speed_px_s = parse_u64("start speed", &f.start_speed_px_s)?;
    config.settings.max_speed_px_s = parse_u64("max speed", &f.max_speed_px_s)?;
    config.settings.ramp_ms = parse_u64("ramp ms", &f.ramp_ms)?;
    config.settings.hold_ms = parse_u64("hold ms", &f.hold_ms)?;
    config.settings.scroll_step = parse_i64("scroll step", &f.scroll_step)?;
    Ok(())
}

/// Reads the grid fields into the grid, its layout already set, in field
/// order, stopping at the first that does not read.
fn read_grid_into(config: &mut Config, f: &Fields) -> (r: Result<(), String>)
    ensures
        match form_grid(old(config)@.grid.dense, f@) {
            Ok(g) => r is Ok && final(config)@ == (ConfigView { grid: g, ..old(config)@ }),
            Err(m) => r matches Err(e) && e@ == m
                && final(config)@ == (ConfigView { grid: grid_left(old(config)@.grid, f@), ..old(config)@ }),
        },
{
    config.grid.rows = parse_grid_dimension("rows", &f.grid_rows)?;
    config.grid.cols = parse_grid_dimension("columns", &f.grid_cols)?;
    config.grid.keys = parse_grid_keys("nested keys", &f.grid_keys)?;
    if config.grid.dense {
        config.grid.column_keys = if f.column_keys.len() == 0 {
            crate::grid::GridConfig::dense().column_keys
        } else {
            parse_grid_keys("column keys", &f.column_keys)?
        };
        config.grid.row_keys = if f.row_keys.len() == 0 {
            crate::grid::GridConfig::dense().row_keys
        } else {
            parse_grid_keys("row keys", &f.row_keys)?
        };
    } else {
        config.grid.column_keys = Vec::new();
        config.grid.row_keys = Vec::new();
        proof {
            assert(config.grid.column_keys@ =~= Seq::<LogicalKey>::empty());
            assert(config.grid.row_keys@ =~= Seq::<LogicalKey>::empty());
        }
    }
    config.grid.nudge_enabled = f.nudge_enabled;
    config.grid.nudge_step_px = parse_i64("nudge step", &f.nudge_step_px)?;
    config.grid.drag_after_select = f.drag_after_select;
    config.grid.auto_free_mode_after_move = f.auto_free_mode;
    Ok(())
}

/// Reads the non-theme fields into the configuration, in field order,
/// stopping at the first that does not read.
fn read_draft_into(config: &mut Config, fields: &Fields) -> (r: Result<(), String>)
    ensures
        match form_draft(old(config)@, fields@) {
            Ok(v) => r is Ok && final(config)@ == v && crate::roundtrip::named_bindings(final(config).mouse_bindings),
            Err(m) => r matches Err(e) && e@ == m && final(config)@ == draft_left(old(config)@, fields@),
        },
{
    config.enabled = fields.enabled;
    read_settings_into(config, fields)?;
    config.grid.dense = form_layout_exec(&fields.layout)?;
    config.mouse_bindings = parse_mouse_bindings(&fields.mouse_bindings)?;
    proof {
        lemma_bindings_named(fields@.mouse_bindings);
    }
    read_grid_into(config, fields)?;
    proof {
        let m = read_bindings(fields@.mouse_bindings)->Ok_0;
        assert forall|k: LogicalKey| #[trigger] config.mouse_bindings.spec_get(k) is Some
            implies crate::roundtrip::is_named_action(config.mouse_bindings.spec_get(k)->0) by {
            assert(config.mouse_bindings.view_map().dom().contains(k));
            assert(m.dom().contains(k));
        }
    }
    Ok(())
}

/// Checks the draft, puts the theme on, refuses the reserved keys, reads the
/// result back the way the file reader would and checks it again.
fn settle_into(config: &mut Config, fields: &Fields) -> (r: Result<(), String>)
    requires
        crate::roundtrip::named_bindings(old(config).mouse_bindings),
    ensures
        match form_themed(old(config)@, fields@) {
            Err(m) => r matches Err(e) && e@ == m && final(config)@ == themed_left(old(config)@, fields@),
            Ok(themed) => match form_settled(themed) {
                Ok(v) => r is Ok && final(config)@ == v,
                Err(m) => r matches Err(e) && e@ == m && final(config)@ == match crate::roundtrip::reread(themed) {
                    Err(_) => themed,
                    Ok(v) => v,
                },
            },
        },
{
    proof {
        lemma_view_validation(*config);
    }
    match config.validate() {
        Ok(()) => {},
        Err(e) => {
            return Err(check_message(&e));
        },
    }
    proof {
        crate::roundtrip::lemma_validated_reader_checked(*config);
    }
    config.theme = form_theme_exec(fields)?;
    proof {
        assert(crate::roundtrip::reader_checked(config@));
    }
    if config.mouse_bindings.contains_key(&LogicalKey::Esc) {
        return Err(reserved_message("esc"));
    }
    if config.mouse_bindings.contains_key(&LogicalKey::Backspace) {
        return Err(reserved_message("backspace"));
    }
    let leader = config.settings.leader;
    if config.mouse_bindings.contains_key(&leader) {
        return Err(reserved_message(logical_key_name(leader)));
    }
    let raw = config.to_raw();
    proof {
        crate::roundtrip::lemma_read_back(*config, raw);
    }
    let parsed = match Config::from_raw(&raw) {
        Err(e) => {
            return Err(reread_message(&e));
        },
        Ok(parsed) => parsed,
    };
    *config = parsed;
    proof {
        lemma_view_validation(*config);
    }
    match config.validate() {
        Err(e) => Err(final_message(&e)),
        Ok(()) => Ok(()),
    }
}

/// The only parser from control values to a configuration. Fields are read
/// and written in order; the first that fails stops the reading with an
/// error naming the field or rule, leaving what was written so far. On
/// success the configuration is the form's, read back the way the file
/// reader would.
pub fn apply_fields(config: &mut Config, fields: &Fields) -> (r: Result<(), String>)
    ensures
        match form_outcome(old(config)@, fields@) {
            Ok(v) => r is Ok && final(config)@ == v,
            Err(m) => r matches Err(e) && e@ == m && final(config)@ == form_left(old(config)@, fields@),
        },
{
    read_draft_into(config, fields)?;
    settle_into(config, fields)
}


/// Every key, ordered by its name.
pub open spec fn keys_by_name() -> Seq<LogicalKey> {
    seq![LogicalKey::Comma, LogicalKey::Dot, LogicalKey::Slash, LogicalKey::Semicolon, LogicalKey::A, LogicalKey::B, LogicalKey::Backspace, LogicalKey::C, LogicalKey::CapsLock, LogicalKey::ControlLeft, LogicalKey::D, LogicalKey::E, LogicalKey::Esc, LogicalKey::F, LogicalKey::G, LogicalKey::H, LogicalKey::I, LogicalKey::J, LogicalKey::K, LogicalKey::L, LogicalKey::M, LogicalKey::N, LogicalKey::O, LogicalKey::P, LogicalKey::Q, LogicalKey::R, LogicalKey::S, LogicalKey::ShiftLeft, LogicalKey::Space, LogicalKey::T, LogicalKey::U, LogicalKey::V, LogicalKey::W, LogicalKey::X, LogicalKey::Y, LogicalKey::Z]
}

/// The binding rows of a map: bound keys in name order, each with its action's name.
pub open spec fn binding_rows(m: Map<LogicalKey, Action>, order: Seq<LogicalKey>) -> Seq<(Seq<char>, Seq<char>)>
    decreases order.len(),
{
    if order.len() == 0 {
        Seq::empty()
    } else {
        let rest = binding_rows(m, order.drop_last());
        let k = order.last();
        if m.dom().contains(k) {
            rest.push((k.name(), crate::config::action_text(m[k])))
        } else {
            rest
        }
    }
}

/// The control values a configuration shows, under the names its file uses.
pub open spec fn fields_of(c: ConfigView) -> FieldsView {
    FieldsView {
        enabled: c.enabled,
        leader: c.settings.leader.name(),
        start_speed_px_s: dec(c.settings.start_speed_px_s as int),
        max_speed_px_s: dec(c.settings.max_speed_px_s as int),
        ramp_ms: dec(c.settings.ramp_ms as int),
        hold_ms: dec(c.settings.hold_ms as int),
        scroll_step: dec(c.settings.scroll_step as int),
        layout: if c.grid.dense { "dense"@ } else { "simple"@ },
        mouse_bindings: binding_rows(c.mouse_bindings, keys_by_name()),
        grid_rows: dec(c.grid.rows as int),
        grid_cols: dec(c.grid.cols as int),
        grid_keys: crate::configfile::key_names(c.grid.keys),
        column_keys: crate::configfile::key_names(c.grid.column_keys),
        row_keys: crate::configfile::key_names(c.grid.row_keys),
        nudge_enabled: c.grid.nudge_enabled,
        nudge_step_px: dec(c.grid.nudge_step_px as int),
        drag_after_select: c.grid.drag_after_select,
        auto_free_mode: c.grid.auto_free_mode_after_move,
        panel: rgb_text(c.theme.panel),
        panel_opacity: dec(c.theme.panel_opacity as int),
        border: rgb_text(c.theme.border),
        highlight_opacity: dec(c.theme.highlight_opacity as int),
        border_px: dec(c.theme.border_px as int),
        highlight: rgb_text(c.theme.highlight),
        label: rgb_text(c.theme.label),
        pointer: rgb_text(c.theme.pointer),
        label_size: dec(c.theme.label_size as int),
    }
}

fn dec_string(v: i128) -> (s: String)
    requires
        -0x1_0000_0000_0000_0000 < v < 0x1_0000_0000_0000_0000,
    ensures
        s@ == dec(v as int),
{
    let mut s = String::new();
    push_dec(&mut s, v);
    proof {
        assert(s@ =~= dec(v as int));
    }
    s
}

fn keys_by_name_exec() -> (v: Vec<LogicalKey>)
    ensures
        v@ == keys_by_name(),
{
    let v = vec![LogicalKey::Comma, LogicalKey::Dot, LogicalKey::Slash, LogicalKey::Semicolon, LogicalKey::A, LogicalKey::B, LogicalKey::Backspace, LogicalKey::C, LogicalKey::CapsLock, LogicalKey::ControlLeft, LogicalKey::D, LogicalKey::E, LogicalKey::Esc, LogicalKey::F, LogicalKey::G, LogicalKey::H, LogicalKey::I, LogicalKey::J, LogicalKey::K, LogicalKey::L, LogicalKey::M, LogicalKey::N, LogicalKey::O, LogicalKey::P, LogicalKey::Q, LogicalKey::R, LogicalKey::S, LogicalKey::ShiftLeft, LogicalKey::Space, LogicalKey::T, LogicalKey::U, LogicalKey::V, LogicalKey::W, LogicalKey::X, LogicalKey::Y, LogicalKey::Z];
    proof {
        assert(v@ =~= keys_by_name());
    }
    v
}

fn binding_rows_exec(m: &KeyMap<Action>) -> (v: Vec<(String, String)>)
    ensures
        pair_seq(v) == binding_rows(m.view_map(), keys_by_name()),
{
    let order = keys_by_name_exec();
    let mut v: Vec<(String, String)> = Vec::new();
    let mut i: usize = 0;
    while i < order.len()
        invariant
            i <= order@.len(),
            order@ == keys_by_name(),
            pair_seq(v) == binding_rows(m.view_map(), order@.take(i as int)),
        decreases order@.len() - i,
    {
        let k = order[i];
        let ghost before = v;
        proof {
            assert(order@.take(i + 1).drop_last() =~= order@.take(i as int));
            assert(order@.take(i + 1).last() == k);
        }
        match m.get(&k) {
            Some(a) => {
                v.push((String::from_str(logical_key_name(k)), String::from_str(action_name(*a))));
                proof {
                    assert(pair_seq(v) =~= pair_seq(before).push((k.name(), crate::config::action_text(*a))));
                }
            }
            None => {}
        }
        i = i + 1;
    }
    proof {
        assert(order@.take(order@.len() as int) =~= order@);
    }
    v
}

/// Reads every field out of a configuration under the canonical names its
/// file uses; binding rows come in key-name order.
pub fn fields_from_config(config: &Config) -> (f: Fields)
    ensures
        f@ == fields_of(config@),
{
    Fields {
        enabled: config.enabled,
        leader: String::from_str(logical_key_name(config.settings.leader)),
        start_speed_px_s: dec_string(config.settings.start_speed_px_s as i128),
        max_speed_px_s: dec_string(config.settings.max_speed_px_s as i128),
        ramp_ms: dec_string(config.settings.ramp_ms as i128),
        hold_ms: dec_string(config.settings.hold_ms as i128),
        scroll_step: dec_string(config.settings.scroll_step as i128),
        layout: String::from_str(if config.grid.dense { "dense" } else { "simple" }),
        mouse_bindings: binding_rows_exec(&config.mouse_bindings),
        grid_rows: dec_string(config.grid.rows as i128),
        grid_cols: dec_string(config.grid.cols as i128),
        grid_keys: crate::configfile::names_of(&config.grid.keys),
        column_keys: crate::configfile::names_of(&config.grid.column_keys),
        row_keys: crate::configfile::names_of(&config.grid.row_keys),
        nudge_enabled: config.grid.nudge_enabled,
        nudge_step_px: dec_string(config.grid.nudge_step_px as i128),
        drag_after_select: config.grid.drag_after_select,
        auto_free_mode: config.grid.auto_free_mode_after_move,
        panel: hex_rgb(config.theme.panel),
        panel_opacity: dec_string(config.theme.panel_opacity as i128),
        border: hex_rgb(config.theme.border),
        highlight_opacity: dec_string(config.theme.highlight_opacity as i128),
        border_px: dec_string(config.theme.border_px as i128),
        highlight: hex_rgb(config.theme.highlight),
        label: hex_rgb(config.theme.label),
        pointer: hex_rgb(config.theme.pointer),
        label_size: dec_string(config.theme.label_size as i128),
    }
}


fn strings_equal(a: &String, b: &String) -> (r: bool)
    ensures
        r == (a@ == b@),
{
    crate::text::chars_eq(&chars_of(a.as_str()), b.as_str())
}

fn key_vecs_equal(a: &Vec<LogicalKey>, b: &Vec<LogicalKey>) -> (r: bool)
    ensures
        r == (a@ == b@),
{
    if a.len() != b.len() {
        return false;
    }
    let mut i: usize = 0;
    while i < a.len()
        invariant
            i <= a@.len(),
            a@.len() == b@.len(),
            forall|j: int| 0 <= j < i ==> a@[j] == b@[j],
        decreases a@.len() - i,
    {
        if a[i] != b[i] {
            return false;
        }
        i = i + 1;
    }
    proof {
        assert(a@ =~= b@);
    }
    true
}

fn string_maps_equal(a: &KeyMap<String>, b: &KeyMap<String>) -> (r: bool)
    ensures
        r == (crate::config::string_map(*a) == crate::config::string_map(*b)),
{
    let mut i: usize = 0;
    while i < KEY_COUNT
        invariant
            i <= KEY_COUNT,
            forall|k: LogicalKey| k.ordinal() < i ==> #[trigger] crate::config::string_binding(*a, k)
                == crate::config::string_binding(*b, k),
        decreases KEY_COUNT - i,
    {
        let k = LogicalKey::at_index(i);
        let same = match (a.slot(i), b.slot(i)) {
            (Some(x), Some(y)) => strings_equal(x, y),
            (None, None) => true,
            _ => false,
        };
        if !same {
            proof {
                assert(crate::config::string_binding(*a, k) != crate::config::string_binding(*b, k));
                if crate::config::string_map(*a) == crate::config::string_map(*b) {
                    assert(crate::config::string_map(*a).dom().contains(k) == crate::config::string_map(*b).dom().contains(k));
                    if crate::config::string_map(*a).dom().contains(k) {
                        assert(crate::config::string_map(*a)[k] == crate::config::string_map(*b)[k]);
                    }
                    assert(false);
                }
            }
            return false;
        }
        proof {
            assert forall|o: LogicalKey| o.ordinal() < i + 1 implies #[trigger] crate::config::string_binding(*a, o)
                == crate::config::string_binding(*b, o) by {
                lemma_ordinal_injective(o, k);
            }
        }
        i = i + 1;
    }
    proof {
        assert forall|k: LogicalKey| #[trigger] crate::config::string_map(*a).dom().contains(k)
            == crate::config::string_map(*b).dom().contains(k) by {
            lemma_ordinal_injective(k, k);
            assert(crate::config::string_binding(*a, k) == crate::config::string_binding(*b, k));
        }
        assert forall|k: LogicalKey| #[trigger] crate::config::string_map(*a).dom().contains(k)
            implies crate::config::string_map(*a)[k] == crate::config::string_map(*b)[k] by {
            lemma_ordinal_injective(k, k);
            assert(crate::config::string_binding(*a, k) == crate::config::string_binding(*b, k));
        }
        assert(crate::config::string_map(*a) =~= crate::config::string_map(*b));
    }
    true
}

fn action_maps_equal(a: &KeyMap<Action>, b: &KeyMap<Action>) -> (r: bool)
    ensures
        r == (a.view_map() == b.view_map()),
{
    let mut i: usize = 0;
    while i < KEY_COUNT
        invariant
            i <= KEY_COUNT,
            forall|k: LogicalKey| k.ordinal() < i ==> #[trigger] a.spec_get(k) == b.spec_get(k),
        decreases KEY_COUNT - i,
    {
        let k = LogicalKey::at_index(i);
        let same = match (a.slot(i), b.slot(i)) {
            (Some(x), Some(y)) => *x == *y,
            (None, None) => true,
            _ => false,
        };
        if !same {
            proof {
                assert(a.spec_get(k) != b.spec_get(k));
                if a.view_map() == b.view_map() {
                    assert(a.view_map().dom().contains(k) == b.view_map().dom().contains(k));
                    if a.view_map().dom().contains(k) {
                        assert(a.view_map()[k] == b.view_map()[k]);
                    }
                    assert(false);
                }
            }
            return false;
        }
        proof {
            assert forall|o: LogicalKey| o.ordinal() < i + 1 implies #[trigger] a.spec_get(o) == b.spec_get(o) by {
                lemma_ordinal_injective(o, k);
            }
        }
        i = i + 1;
    }
    proof {
        assert forall|k: LogicalKey| #[trigger] a.spec_get(k) == b.spec_get(k) by {
            lemma_ordinal_injective(k, k);
        }
        assert(a.view_map() =~= b.view_map());
    }
    true
}

fn themes_equal(a: &ThemeConfig, b: &ThemeConfig) -> (r: bool)
    ensures
        r == (*a == *b),
{
    a.panel.0 == b.panel.0 && a.panel.1 == b.panel.1 && a.panel.2 == b.panel.2
        && a.panel_opacity == b.panel_opacity
        && a.border.0 == b.border.0 && a.border.1 == b.border.1 && a.border.2 == b.border.2
        && a.highlight_opacity == b.highlight_opacity && a.border_px == b.border_px
        && a.highlight.0 == b.highlight.0 && a.highlight.1 == b.highlight.1 && a.highlight.2 == b.highlight.2
        && a.label.0 == b.label.0 && a.label.1 == b.label.1 && a.label.2 == b.label.2
        && a.pointer.0 == b.pointer.0 && a.pointer.1 == b.pointer.1 && a.pointer.2 == b.pointer.2
        && a.label_size == b.label_size
}

/// Whether two configurations hold the same content.
pub fn configs_equal(a: &Config, b: &Config) -> (r: bool)
    ensures
        r == (a@ == b@),
{
    let ga = &a.grid;
    let gb = &b.grid;
    let grid_same = ga.rows == gb.rows && ga.cols == gb.cols && key_vecs_equal(&ga.keys, &gb.keys)
        && ga.auto_free_mode_after_move == gb.auto_free_mode_after_move && ga.nudge_enabled == gb.nudge_enabled
        && ga.nudge_step_px == gb.nudge_step_px && ga.drag_after_select == gb.drag_after_select
        && ga.dense == gb.dense && key_vecs_equal(&ga.column_keys, &gb.column_keys)
        && key_vecs_equal(&ga.row_keys, &gb.row_keys);
    let r = a.enabled == b.enabled && a.settings == b.settings && grid_same && themes_equal(&a.theme, &b.theme)
        && string_maps_equal(&a.initial_bindings, &b.initial_bindings)
        && action_maps_equal(&a.mouse_bindings, &b.mouse_bindings)
        && a.practice_completed_version == b.practice_completed_version;
    proof {
        if a@ == b@ {
            assert(a@.grid == b@.grid);
        }
    }
    r
}

/// A preset-resettable group of the draft, one per window group.
#[derive(Debug, Clone, Copy, PartialEq, Eq, Structural)]
pub enum Section {
    Settings,
    Grid,
    Appearance,
    Bindings,
}

/// Editor state: the last applied configuration, the working draft, and
/// whether the draft differs from what was applied.
#[derive(Debug)]
pub struct SettingsEditor {
    applied: Config,
    draft: Config,
    dirty: bool,
}

/// The content of the editor's state.
pub struct EditorView {
    pub applied: ConfigView,
    pub draft: ConfigView,
    pub dirty: bool,
}

impl View for SettingsEditor {
    type V = EditorView;

    closed spec fn view(&self) -> EditorView {
        EditorView { applied: self.applied@, draft: self.draft@, dirty: self.dirty }
    }
}

impl SettingsEditor {
    /// The draft is dirty exactly when it differs from the applied configuration.
    pub closed spec fn wf(&self) -> bool {
        self.dirty == (self.draft@ != self.applied@)
    }

    pub fn new(config: Config) -> (e: Self)
        ensures
            e.wf(),
            e@.applied == config@,
            e@.draft == config@,
            !e@.dirty,
    {
        let applied = config.duplicate();
        proof {
            lemma_same_view(applied, config);
        }
        SettingsEditor { applied, draft: config, dirty: false }
    }

    /// Loads control values into the draft. An error names the offending
    /// field and leaves the editor as it was.
    pub fn edit(&mut self, fields: &Fields) -> (r: Result<(), String>)
        requires
            old(self).wf(),
        ensures
            final(self).wf(),
            match form_outcome(old(self)@.draft, fields@) {
                Ok(v) => r is Ok && final(self)@.draft == v && final(self)@.applied == old(self)@.applied
                    && final(self)@.dirty == (v != old(self)@.applied),
                Err(m) => r matches Err(e) && e@ == m && final(self)@ == old(self)@,
            },
    {
        let mut config = self.draft.duplicate();
        proof {
            lemma_same_view(config, self.draft);
        }
        apply_fields(&mut config, fields)?;
        self.draft = config;
        self.dirty = !configs_equal(&self.draft, &self.applied);
        Ok(())
    }

    fn publish_applied(&mut self) -> (r: Result<(), String>)
        requires
            old(self).wf(),
        ensures
            final(self).wf(),
            match view_validation(old(self)@.draft) {
                Ok(_) => r is Ok && final(self)@.applied == old(self)@.draft && final(self)@.draft == old(self)@.draft
                    && !final(self)@.dirty,
                Err(e) => r matches Err(m) && m@ == error_text(e) && final(self)@ == old(self)@,
            },
    {
        let config = self.draft.duplicate();
        proof {
            lemma_same_view(config, self.draft);
            lemma_view_validation(config);
        }
        match config.validate() {
            Err(e) => Err(e.message()),
            Ok(()) => {
                self.applied = config;
                self.dirty = false;
                Ok(())
            }
        }
    }

    /// Validates the whole draft and publishes it as the applied
    /// configuration; an invalid draft changes nothing.
    pub fn apply(&mut self) -> (r: Result<(), String>)
        requires
            old(self).wf(),
        ensures
            final(self).wf(),
            match view_validation(old(self)@.draft) {
                Ok(_) => r is Ok && final(self)@.applied == old(self)@.draft && final(self)@.draft == old(self)@.draft
                    && !final(self)@.dirty,
                Err(e) => r matches Err(m) && m@ == error_text(e) && final(self)@ == old(self)@,
            },
    {
        self.publish_applied()
    }

    /// Finishes an apply once the runtime has answered: its refusal is
    /// passed on and changes nothing; its acceptance publishes the draft.
    pub fn publish_after_runtime(&mut self, runtime: Result<(), String>) -> (r: Result<(), String>)
        requires
            old(self).wf(),
        ensures
            final(self).wf(),
            match runtime {
                Err(e) => r == Err::<(), String>(e) && final(self)@ == old(self)@,
                Ok(()) => match view_validation(old(self)@.draft) {
                    Ok(_) => r is Ok && final(self)@.applied == old(self)@.draft
                        && final(self)@.draft == old(self)@.draft && !final(self)@.dirty,
                    Err(e) => r matches Err(m) && m@ == error_text(e) && final(self)@ == old(self)@,
                },
            },
    {
        match runtime {
            Err(e) => Err(e),
            Ok(()) => self.publish_applied(),
        }
    }

    /// Validates the draft, hands it to the runtime, and publishes it only
    /// when the runtime accepts it; a refusal leaves the applied
    /// configuration and the dirty flag as they were.
    pub fn apply_to_runtime<F: FnMut(&Config) -> Result<(), String>>(&mut self, runtime_apply: F) -> (r: Result<&Config, String>)
        requires
            old(self).wf(),
            forall|c: &Config| #[trigger] call_requires(runtime_apply, (c,)),
        ensures
            final(self).wf(),
            final(self)@.draft == old(self)@.draft,
            r is Err ==> final(self)@ == old(self)@,
            r is Ok ==> final(self)@.applied == old(self)@.draft && !final(self)@.dirty,
            view_validation(old(self)@.draft) matches Err(e) ==> r matches Err(m) && m@ == error_text(e),
            view_validation(old(self)@.draft) is Ok ==> exists|c: &Config, out: Result<(), String>|
                c@ == old(self)@.draft && #[trigger] call_ensures(runtime_apply, (c,), out)
                && (out is Ok ==> r is Ok) && (out matches Err(m) ==> r == Err::<&Config, String>(m)),
            r matches Ok(c) ==> c@ == final(self)@.applied,
    {
        let mut runtime_apply = runtime_apply;
        proof {
            lemma_view_validation(self.draft);
        }
        match self.draft.validate() {
            Err(e) => {
                return Err(e.message());
            }
            Ok(()) => {}
        }
        let outcome = runtime_apply(&self.draft);
        let ghost handed = &self.draft;
        let ghost out = outcome;
        let r = self.publish_after_runtime(outcome);
        proof {
            assert(call_ensures(runtime_apply, (handed,), out));
        }
        match r {
            Ok(()) => Ok(&self.applied),
            Err(e) => Err(e),
        }
    }

    /// The configuration to push to the engine after a successful apply.
    pub fn applied(&self) -> (c: &Config)
        ensures
            c@ == self@.applied,
    {
        &self.applied
    }

    /// The working draft, for refreshing controls.
    pub fn draft(&self) -> (c: &Config)
        ensures
            c@ == self@.draft,
    {
        &self.draft
    }

    pub fn is_dirty(&self) -> (b: bool)
        ensures
            b == self@.dirty,
    {
        self.dirty
    }

    /// Cancel and window-close: the draft returns to the last applied
    /// configuration and is clean.
    pub fn cancel(&mut self)
        requires
            old(self).wf(),
        ensures
            final(self).wf(),
            final(self)@.draft == old(self)@.applied,
            final(self)@.applied == old(self)@.applied,
            !final(self)@.dirty,
    {
        let d = self.applied.duplicate();
        proof {
            lemma_same_view(d, self.applied);
        }
        self.draft = d;
        self.dirty = false;
    }

    /// Replaces the whole draft with the factory configuration; dirty exactly
    /// when the factory configuration differs from the applied one.
    pub fn reset_all(&mut self)
        requires
            old(self).wf(),
        ensures
            final(self).wf(),
            final(self)@.draft == crate::configfile::default_config_view(),
            final(self)@.applied == old(self)@.applied,
            final(self)@.dirty == (crate::configfile::default_config_view() != old(self)@.applied),
    {
        self.draft = Config::default();
        proof {
            crate::configfile::lemma_default_view(self.draft);
        }
        self.dirty = !configs_equal(&self.draft, &self.applied);
    }

    /// Resets one window group of the draft to the factory values; the other
    /// groups keep their draft.
    pub fn reset_section(&mut self, section: Section)
        requires
            old(self).wf(),
        ensures
            final(self).wf(),
            final(self)@.applied == old(self)@.applied,
            final(self)@.draft == section_reset(old(self)@.draft, section),
            final(self)@.dirty == (section_reset(old(self)@.draft, section) != old(self)@.applied),
    {
        let defaults = Config::default();
        proof {
            crate::configfile::lemma_default_view(defaults);
        }
        match section {
            Section::Settings => {
                self.draft.enabled = defaults.enabled;
                self.draft.settings = defaults.settings;
            }
            Section::Grid => {
                self.draft.grid = defaults.grid;
            }
            Section::Appearance => {
                self.draft.theme = defaults.theme;
            }
            Section::Bindings => {
                self.draft.mouse_bindings = defaults.mouse_bindings;
            }
        }
        self.dirty = !configs_equal(&self.draft, &self.applied);
    }
}

/// The draft with one window group put back to the factory values.
pub open spec fn section_reset(d: ConfigView, section: Section) -> ConfigView {
    let f = crate::configfile::default_config_view();
    match section {
        Section::Settings => ConfigView { enabled: f.enabled, settings: f.settings, ..d },
        Section::Grid => ConfigView { grid: f.grid, ..d },
        Section::Appearance => ConfigView { theme: f.theme, ..d },
        Section::Bindings => ConfigView { mouse_bindings: f.mouse_bindings, ..d },
    }
}


/// Position of a key in name order.
pub open spec fn key_rank(k: LogicalKey) -> int {
    match k {
        LogicalKey::Comma => 0,
        LogicalKey::Dot => 1,
        LogicalKey::Slash => 2,
        LogicalKey::Semicolon => 3,
        LogicalKey::A => 4,
        LogicalKey::B => 5,
        LogicalKey::Backspace => 6,
        LogicalKey::C => 7,
        LogicalKey::CapsLock => 8,
        LogicalKey::ControlLeft => 9,
        LogicalKey::D => 10,
        LogicalKey::E => 11,
        LogicalKey::Esc => 12,
        LogicalKey::F => 13,
        LogicalKey::G => 14,
        LogicalKey::H => 15,
        LogicalKey::I => 16,
        LogicalKey::J => 17,
        LogicalKey::K => 18,
        LogicalKey::L => 19,
        LogicalKey::M => 20,
        LogicalKey::N => 21,
        LogicalKey::O => 22,
        LogicalKey::P => 23,
        LogicalKey::Q => 24,
        LogicalKey::R => 25,
        LogicalKey::S => 26,
        LogicalKey::ShiftLeft => 27,
        LogicalKey::Space => 28,
        LogicalKey::T => 29,
        LogicalKey::U => 30,
        LogicalKey::V => 31,
        LogicalKey::W => 32,
        LogicalKey::X => 33,
        LogicalKey::Y => 34,
        LogicalKey::Z => 35,
    }
}

/// Every key occurs in name order exactly once.
pub proof fn lemma_keys_by_name()
    ensures
        keys_by_name().len() == KEY_COUNT,
        forall|k: LogicalKey| 0 <= #[trigger] key_rank(k) < KEY_COUNT && keys_by_name()[key_rank(k)] == k,
        forall|i: int| 0 <= i < KEY_COUNT ==> key_rank(#[trigger] keys_by_name()[i]) == i,
{
    let s = keys_by_name();
    assert(key_rank(s[0]) == 0);
    assert(key_rank(s[1]) == 1);
    assert(key_rank(s[2]) == 2);
    assert(key_rank(s[3]) == 3);
    assert(key_rank(s[4]) == 4);
    assert(key_rank(s[5]) == 5);
    assert(key_rank(s[6]) == 6);
    assert(key_rank(s[7]) == 7);
    assert(key_rank(s[8]) == 8);
    assert(key_rank(s[9]) == 9);
    assert(key_rank(s[10]) == 10);
    assert(key_rank(s[11]) == 11);
    assert(key_rank(s[12]) == 12);
    assert(key_rank(s[13]) == 13);
    assert(key_rank(s[14]) == 14);
    assert(key_rank(s[15]) == 15);
    assert(key_rank(s[16]) == 16);
    assert(key_rank(s[17]) == 17);
    assert(key_rank(s[18]) == 18);
    assert(key_rank(s[19]) == 19);
    assert(key_rank(s[20]) == 20);
    assert(key_rank(s[21]) == 21);
    assert(key_rank(s[22]) == 22);
    assert(key_rank(s[23]) == 23);
    assert(key_rank(s[24]) == 24);
    assert(key_rank(s[25]) == 25);
    assert(key_rank(s[26]) == 26);
    assert(key_rank(s[27]) == 27);
    assert(key_rank(s[28]) == 28);
    assert(key_rank(s[29]) == 29);
    assert(key_rank(s[30]) == 30);
    assert(key_rank(s[31]) == 31);
    assert(key_rank(s[32]) == 32);
    assert(key_rank(s[33]) == 33);
    assert(key_rank(s[34]) == 34);
    assert(key_rank(s[35]) == 35);
}

/// A key's name is a nonempty word without white space.
proof fn lemma_name_solid(k: LogicalKey)
    ensures
        k.name().len() > 0,
        trim(k.name()) == k.name(),
{
    crate::numtext::lemma_trim_solid(k.name());
}

/// The action bindings of the first `n` keys in name order.
pub open spec fn bindings_through(m: Map<LogicalKey, Action>, n: int) -> Map<LogicalKey, Action> {
    Map::new(|k: LogicalKey| key_rank(k) < n && m.dom().contains(k), |k: LogicalKey| m[k])
}

proof fn lemma_rows_round_trip(m: Map<LogicalKey, Action>, n: int)
    requires
        0 <= n <= KEY_COUNT,
        forall|k: LogicalKey| #[trigger] m.dom().contains(k) ==> crate::roundtrip::is_named_action(m[k]),
    ensures
        read_bindings(binding_rows(m, keys_by_name().take(n))) == Ok::<Map<LogicalKey, Action>, Seq<char>>(
            bindings_through(m, n)),
    decreases n,
{
    lemma_keys_by_name();
    if n == 0 {
        assert(keys_by_name().take(0) =~= Seq::<LogicalKey>::empty());
        assert(bindings_through(m, 0) =~= Map::<LogicalKey, Action>::empty());
    } else {
        lemma_rows_round_trip(m, n - 1);
        let ord = keys_by_name().take(n);
        assert(ord.drop_last() =~= keys_by_name().take(n - 1));
        let k = ord.last();
        assert(k == keys_by_name()[n - 1]);
        assert(key_rank(k) == n - 1);
        let rest = binding_rows(m, keys_by_name().take(n - 1));
        if m.dom().contains(k) {
            let rows = rest.push((k.name(), crate::config::action_text(m[k])));
            assert(rows.drop_last() =~= rest);
            lemma_name_solid(k);
            crate::config::law_key_name_round_trips(k);
            crate::roundtrip::lemma_action_name_round_trips(m[k]);
            assert(!bindings_through(m, n - 1).dom().contains(k));
            assert(bindings_through(m, n - 1).insert(k, m[k]) =~= bindings_through(m, n));
        } else {
            assert(bindings_through(m, n - 1) =~= bindings_through(m, n));
        }
    }
}

/// Reading back the binding rows a configuration shows gives its bindings.
proof fn lemma_bindings_round_trip(m: Map<LogicalKey, Action>)
    requires
        forall|k: LogicalKey| #[trigger] m.dom().contains(k) ==> crate::roundtrip::is_named_action(m[k]),
    ensures
        read_bindings(binding_rows(m, keys_by_name())) == Ok::<Map<LogicalKey, Action>, Seq<char>>(m),
{
    lemma_keys_by_name();
    lemma_rows_round_trip(m, KEY_COUNT as int);
    assert(keys_by_name().take(KEY_COUNT as int) =~= keys_by_name());
    assert(bindings_through(m, KEY_COUNT as int) =~= m);
}


proof fn lemma_settings_round_trip(v: ConfigView)
    ensures
        form_settings(fields_of(v)) == Ok::<Settings, Seq<char>>(v.settings),
{
    let st = v.settings;
    crate::config::law_key_name_round_trips(st.leader);
    crate::numtext::law_decimal_round_trip(st.start_speed_px_s as int);
    crate::numtext::law_decimal_round_trip(st.max_speed_px_s as int);
    crate::numtext::law_decimal_round_trip(st.ramp_ms as int);
    crate::numtext::law_decimal_round_trip(st.hold_ms as int);
    crate::numtext::law_decimal_round_trip(st.scroll_step as int);
}

proof fn lemma_theme_round_trip(v: ConfigView)
    ensures
        form_theme(fields_of(v)) == Ok::<ThemeConfig, Seq<char>>(v.theme),
{
    let t = v.theme;
    crate::roundtrip::lemma_rgb_round_trip(t.panel);
    crate::roundtrip::lemma_rgb_round_trip(t.border);
    crate::roundtrip::lemma_rgb_round_trip(t.highlight);
    crate::roundtrip::lemma_rgb_round_trip(t.label);
    crate::roundtrip::lemma_rgb_round_trip(t.pointer);
    crate::numtext::law_decimal_round_trip(t.panel_opacity as int);
    crate::numtext::law_decimal_round_trip(t.highlight_opacity as int);
    crate::numtext::law_decimal_round_trip(t.border_px as int);
    crate::numtext::law_decimal_round_trip(t.label_size as int);
}

proof fn lemma_grid_round_trip(c: Config)
    requires
        c.grid.dense ==> c.grid.column_keys@.len() > 0 && c.grid.row_keys@.len() > 0,
        !c.grid.dense ==> c.grid.column_keys@.len() == 0 && c.grid.row_keys@.len() == 0,
    ensures
        form_grid(c.grid.dense, fields_of(c@)) == Ok::<GridView, Seq<char>>(c@.grid),
{
    let g = c@.grid;
    crate::numtext::law_decimal_round_trip(g.rows as int);
    crate::numtext::law_decimal_round_trip(g.cols as int);
    crate::numtext::law_decimal_round_trip(g.nudge_step_px as int);
    crate::roundtrip::lemma_keys_round_trip(g.keys);
    crate::roundtrip::lemma_keys_round_trip(g.column_keys);
    crate::roundtrip::lemma_keys_round_trip(g.row_keys);
    let f = fields_of(c@);
    assert(f.column_keys.len() == g.column_keys.len());
    assert(f.row_keys.len() == g.row_keys.len());
    if !g.dense {
        assert(g.column_keys =~= Seq::<LogicalKey>::empty());
        assert(g.row_keys =~= Seq::<LogicalKey>::empty());
    }
}

/// The form a configuration shows reads back as that configuration: opening
/// the editor on a configuration the file format carries and editing with
/// its own fields leaves the draft equal to it.
pub proof fn law_fields_round_trip(c: Config)
    requires
        crate::roundtrip::exportable(c),
    ensures
        form_outcome(c@, fields_of(c@)) == Ok::<ConfigView, Seq<char>>(c@),
{
    let v = c@;
    let f = fields_of(v);
    reveal_strlit("dense");
    reveal_strlit("simple");
    assert("simple"@.len() == 6);
    assert("dense"@.len() == 5);
    lemma_settings_round_trip(v);
    lemma_theme_round_trip(v);
    lemma_grid_round_trip(c);
    assert forall|k: LogicalKey| #[trigger] v.mouse_bindings.dom().contains(k)
        implies crate::roundtrip::is_named_action(v.mouse_bindings[k]) by {
        assert(c.mouse_bindings.spec_get(k) is Some);
    }
    lemma_bindings_round_trip(v.mouse_bindings);
    assert(form_layout(f.layout) == Ok::<bool, Seq<char>>(v.grid.dense));
    assert(form_draft(v, f) == Ok::<ConfigView, Seq<char>>(v));
    lemma_view_validation(c);
    assert(form_themed(v, f) == Ok::<ConfigView, Seq<char>>(v));
    assert(crate::roundtrip::grid_reread(v.grid) == Ok::<GridView, ConfigErrorView>(v.grid)) by {
        if !v.grid.dense {
            assert(v.grid.column_keys =~= Seq::<LogicalKey>::empty());
            assert(v.grid.row_keys =~= Seq::<LogicalKey>::empty());
        }
    }
    assert(crate::roundtrip::reread(v) == Ok::<ConfigView, ConfigErrorView>(v));
}


/// A configuration the form gives is one the file format carries: it passes
/// `validate`, and the tables it writes read back as exactly it.
pub proof fn law_form_results_export(c: Config, f: FieldsView, x: Config, r: crate::configfile::RawConfig)
    requires
        form_outcome(c@, f) == Ok::<ConfigView, Seq<char>>(x@),
        crate::configfile::raw_describes(r, x),
    ensures
        crate::config::validation(x) is Ok,
        crate::configfile::raw_config(r) == Ok::<ConfigView, ConfigErrorView>(x@),
{
    lemma_view_validation(x);
    let pre = form_draft(c@, f)->Ok_0;
    let themed = form_themed(pre, f)->Ok_0;
    lemma_bindings_named(f.mouse_bindings);
    assert forall|k: LogicalKey| #[trigger] x.mouse_bindings.spec_get(k) is Some
        implies crate::roundtrip::is_named_action(x.mouse_bindings.spec_get(k)->0) by {
        assert(x@.mouse_bindings.dom().contains(k));
        assert(themed.mouse_bindings.dom().contains(k));
    }
    assert(crate::roundtrip::named_bindings(x.mouse_bindings));
    assert(crate::roundtrip::exportable(x));
    crate::roundtrip::law_export_import(x, r);
}

} // verus!
