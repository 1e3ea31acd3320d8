//! The settings window's tables and decisions, apart from the window system:
//! dropdown phrases, row hints, which control owns a setting or an error
//! message, the search filter, key-list entry and scrolling.
use vstd::prelude::*;
use crate::config::{error_text, strip_prefix, validation, Config, ConfigError};
use crate::keycode::{vk_key, vk_to_logical};
use crate::keys::LogicalKey;
use crate::settings_editor::Section;
use crate::settings_help::{for_id, help_index, help_table};
use crate::numtext::{trim, trim_chars};
use crate::placement::{words, words_exec, words_view};
use crate::text::{chars_eq, chars_of, lower, lower_chars, push_str, string_of};
use vstd::string::StringExecFns;

verus! {

pub open spec fn strs_view(v: Seq<&'static str>) -> Seq<Seq<char>> {
    v.map_values(|s: &'static str| s@)
}

/// Index of the first entry equal to `k`, or -1.
pub open spec fn first_index(t: Seq<Seq<char>>, k: Seq<char>) -> int
    decreases t.len(),
{
    if t.len() == 0 {
        -1
    } else if first_index(t.drop_last(), k) >= 0 {
        first_index(t.drop_last(), k)
    } else if t.last() == k {
        t.len() - 1
    } else {
        -1
    }
}

pub proof fn lemma_first_index(t: Seq<Seq<char>>, k: Seq<char>)
    ensures
        -1 <= first_index(t, k) < t.len(),
        first_index(t, k) >= 0 ==> t[first_index(t, k)] == k,
        forall|j: int| 0 <= j < t.len() && (j < first_index(t, k) || first_index(t, k) < 0) ==> t[j] != k,
    decreases t.len(),
{
    if t.len() > 0 {
        lemma_first_index(t.drop_last(), k);
        assert forall|j: int| 0 <= j < t.len() - 1 implies t.drop_last()[j] == t[j] by {}
    }
}

/// Where `key` first stands in the table.
fn find(t: &Vec<&'static str>, key: &Vec<char>) -> (r: Option<usize>)
    ensures
        match r {
            Some(i) => i < t@.len() && i as int == first_index(strs_view(t@), key@),
            None => first_index(strs_view(t@), key@) < 0,
        },
{
    let ghost tv = strs_view(t@);
    proof {
        lemma_first_index(tv, key@);
    }
    let mut i: usize = 0;
    while i < t.len()
        invariant
            i <= t@.len(),
            tv == strs_view(t@),
            forall|j: int| 0 <= j < i ==> tv[j] != key@,
        decreases t@.len() - i,
    {
        if chars_eq(key, t[i]) {
            proof {
                lemma_first_index(tv, key@);
                assert(tv[i as int] == key@);
                let f = first_index(tv, key@);
                if f >= 0 && f < i {
                    assert(tv[f] != key@);
                }
            }
            return Some(i);
        }
        proof {
            assert(tv[i as int] == t@[i as int]@);
        }
        i = i + 1;
    }
    proof {
        lemma_first_index(tv, key@);
        let f = first_index(tv, key@);
        if f >= 0 {
            assert(tv[f] != key@);
        }
    }
    None
}

pub const ID_LEADER: i32 = 101;
pub const ID_START_SPEED: i32 = 102;
pub const ID_MAX_SPEED: i32 = 103;
pub const ID_RAMP: i32 = 104;
pub const ID_LAYOUT: i32 = 105;
pub const ID_NUDGE_ENABLE: i32 = 106;
pub const ID_NUDGE_STEP: i32 = 107;
pub const ID_DRAG: i32 = 108;
pub const ID_AUTO_FREE: i32 = 109;
pub const ID_PANEL: i32 = 110;
pub const ID_PANEL_OPACITY: i32 = 111;
pub const ID_BORDER: i32 = 112;
pub const ID_HIGHLIGHT: i32 = 113;
pub const ID_LABEL_COLOR: i32 = 114;
pub const ID_POINTER: i32 = 115;
pub const ID_LABEL_SIZE: i32 = 116;
pub const ID_ENABLED: i32 = 117;
pub const ID_HIGHLIGHT_OPACITY: i32 = 118;
pub const ID_BORDER_PX: i32 = 119;
pub const ID_GRID_ROWS: i32 = 126;
pub const ID_GRID_KEYS: i32 = 128;
pub const ID_COLUMN_KEYS: i32 = 129;
pub const ID_ROW_KEYS: i32 = 130;
pub const ID_HOLD_MS: i32 = 131;
pub const ID_SCROLL_STEP: i32 = 132;
pub const MOUSE_KEY_BASE: i32 = 200;

/// Tokens the action and layout dropdowns store, actions first.
pub open spec fn choice_tokens() -> Seq<Seq<char>> {
    seq![
        "click_left"@,
        "click_right"@,
        "scroll_up"@,
        "scroll_down"@,
        "enter_grid"@,
        "move_left"@,
        "move_right"@,
        "move_up"@,
        "move_down"@,
        "speed_down"@,
        "speed_up"@,
        "dense"@,
        "simple"@,
    ]
}

/// Phrases the dropdowns show, in the order of `choice_tokens`.
pub open spec fn choice_labels() -> Seq<Seq<char>> {
    seq![
        "Left click"@,
        "Right click"@,
        "Scroll up"@,
        "Scroll down"@,
        "Enter grid"@,
        "Move left"@,
        "Move right"@,
        "Move up"@,
        "Move down"@,
        "Speed down"@,
        "Speed up"@,
        "Dense"@,
        "Simple"@,
    ]
}

fn choice_tokens_exec() -> (v: Vec<&'static str>)
    ensures
        strs_view(v@) == choice_tokens(),
{
    let mut v: Vec<&'static str> = Vec::new();
    v.push("click_left");
    v.push("click_right");
    v.push("scroll_up");
    v.push("scroll_down");
    v.push("enter_grid");
    v.push("move_left");
    v.push("move_right");
    v.push("move_up");
    v.push("move_down");
    v.push("speed_down");
    v.push("speed_up");
    v.push("dense");
    v.push("simple");
    proof {
        assert(strs_view(v@) =~= choice_tokens());
    }
    v
}

fn choice_labels_exec() -> (v: Vec<&'static str>)
    ensures
        strs_view(v@) == choice_labels(),
{
    let mut v: Vec<&'static str> = Vec::new();
    v.push("Left click");
    v.push("Right click");
    v.push("Scroll up");
    v.push("Scroll down");
    v.push("Enter grid");
    v.push("Move left");
    v.push("Move right");
    v.push("Move up");
    v.push("Move down");
    v.push("Speed down");
    v.push("Speed up");
    v.push("Dense");
    v.push("Simple");
    proof {
        assert(strs_view(v@) =~= choice_labels());
    }
    v
}

/// Row labels that carry a hint.
pub open spec fn hint_labels() -> Seq<Seq<char>> {
    seq![
        "Leader key"@,
        "Hold (ms)"@,
        "Start speed (px/s)"@,
        "Max speed (px/s)"@,
        "Ramp (ms)"@,
        "Scroll step"@,
        "Layout (dense|simple)"@,
        "Nudge step (px)"@,
        "Panel color (RRGGBB)"@,
        "Panel opacity (0-255)"@,
        "Border color"@,
        "Border width"@,
        "Highlight color"@,
        "Highlight opacity"@,
        "Label color"@,
        "Pointer color"@,
        "Label size (1-8)"@,
        "Nested rows"@,
        "Nested columns"@,
        "Nested keys (space separated)"@,
        "Outer columns (space separated)"@,
        "Outer rows (space separated)"@,
    ]
}

/// The hint of each row label, in the order of `hint_labels`.
pub open spec fn hint_texts() -> Seq<Seq<char>> {
    seq![
        "What it does: hold CapsLock to keep the grid open; tap Left Shift to open it once."@,
        "What it does: delay before pointer mode starts. Example: 200 ms."@,
        "What it does: starting movement speed. Example: 300 px/s."@,
        "What it does: fastest movement speed. Must be >= start speed."@,
        "What it does: acceleration time. Example: 500 ms feels smooth."@,
        "What it does: scroll distance per key press. Example: 1 notch."@,
        "What it does: choose grid style. Example: dense uses two letters."@,
        "What it does: fine movement after selection. Example: 1 px."@,
        "What it does: grid label background. Example: 181C26."@,
        "What it does: label background strength. 255 is solid."@,
        "What it does: grid line color. Example: 647A96."@,
        "What it does: grid line thickness. Example: 1 px."@,
        "What it does: selected cell color. Example: FFC440."@,
        "What it does: selected cell strength. 255 is solid."@,
        "What it does: grid letter color. Use a bright contrast color."@,
        "What it does: target marker color. Example: FF6060."@,
        "What it does: grid letter size. Example: 3 is the default."@,
        "What it does: subgrid height. Example: 3 rows."@,
        "What it does: subgrid width. Example: 10 columns."@,
        "What it does: final target keys. Example: Q W E R."@,
        "What it does: first grid-letter bank. Example: A S D."@,
        "What it does: second grid-letter bank. Example: Q W E."@,
    ]
}

fn hint_labels_exec() -> (v: Vec<&'static str>)
    ensures
        strs_view(v@) == hint_labels(),
{
    let mut v: Vec<&'static str> = Vec::new();
    v.push("Leader key");
    v.push("Hold (ms)");
    v.push("Start speed (px/s)");
    v.push("Max speed (px/s)");
    v.push("Ramp (ms)");
    v.push("Scroll step");
    v.push("Layout (dense|simple)");
    v.push("Nudge step (px)");
    v.push("Panel color (RRGGBB)");
    v.push("Panel opacity (0-255)");
    v.push("Border color");
    v.push("Border width");
    v.push("Highlight color");
    v.push("Highlight opacity");
    v.push("Label color");
    v.push("Pointer color");
    v.push("Label size (1-8)");
    v.push("Nested rows");
    v.push("Nested columns");
    v.push("Nested keys (space separated)");
    v.push("Outer columns (space separated)");
    v.push("Outer rows (space separated)");
    proof {
        assert(strs_view(v@) =~= hint_labels());
    }
    v
}

fn hint_texts_exec() -> (v: Vec<&'static str>)
    ensures
        strs_view(v@) == hint_texts(),
{
    let mut v: Vec<&'static str> = Vec::new();
    v.push("What it does: hold CapsLock to keep the grid open; tap Left Shift to open it once.");
    v.push("What it does: delay before pointer mode starts. Example: 200 ms.");
    v.push("What it does: starting movement speed. Example: 300 px/s.");
    v.push("What it does: fastest movement speed. Must be >= start speed.");
    v.push("What it does: acceleration time. Example: 500 ms feels smooth.");
    v.push("What it does: scroll distance per key press. Example: 1 notch.");
    v.push("What it does: choose grid style. Example: dense uses two letters.");
    v.push("What it does: fine movement after selection. Example: 1 px.");
    v.push("What it does: grid label background. Example: 181C26.");
    v.push("What it does: label background strength. 255 is solid.");
    v.push("What it does: grid line color. Example: 647A96.");
    v.push("What it does: grid line thickness. Example: 1 px.");
    v.push("What it does: selected cell color. Example: FFC440.");
    v.push("What it does: selected cell strength. 255 is solid.");
    v.push("What it does: grid letter color. Use a bright contrast color.");
    v.push("What it does: target marker color. Example: FF6060.");
    v.push("What it does: grid letter size. Example: 3 is the default.");
    v.push("What it does: subgrid height. Example: 3 rows.");
    v.push("What it does: subgrid width. Example: 10 columns.");
    v.push("What it does: final target keys. Example: Q W E R.");
    v.push("What it does: first grid-letter bank. Example: A S D.");
    v.push("What it does: second grid-letter bank. Example: Q W E.");
    proof {
        assert(strs_view(v@) =~= hint_texts());
    }
    v
}

/// Row labels that show a setting's short help.
pub open spec fn short_labels() -> Seq<Seq<char>> {
    seq![
        "Leader key"@,
        "Hold (ms)"@,
        "Start speed (px/s)"@,
        "Max speed (px/s)"@,
        "Ramp (ms)"@,
        "Scroll step"@,
        "Layout (dense|simple)"@,
        "Nudge step (px)"@,
        "Panel color (RRGGBB)"@,
        "Panel opacity (0-255)"@,
        "Border color"@,
        "Highlight color"@,
        "Label color"@,
        "Pointer color"@,
        "Label size (1-8)"@,
        "Nested rows"@,
        "Nested columns"@,
        "Nested keys (space separated)"@,
        "Outer columns (space separated)"@,
        "Outer rows (space separated)"@,
    ]
}

/// The help id of each row label, in the order of `short_labels`.
pub open spec fn short_ids() -> Seq<Seq<char>> {
    seq![
        "leader"@,
        "hold_ms"@,
        "start_speed"@,
        "max_speed"@,
        "ramp_ms"@,
        "scroll_step"@,
        "layout"@,
        "nudge_step"@,
        "color_panel"@,
        "opacity"@,
        "color_border"@,
        "color_highlight"@,
        "color_label"@,
        "color_pointer"@,
        "opacity"@,
        "nested_size"@,
        "nested_size"@,
        "nested_keys"@,
        "column_keys"@,
        "row_keys"@,
    ]
}

fn short_labels_exec() -> (v: Vec<&'static str>)
    ensures
        strs_view(v@) == short_labels(),
{
    let mut v: Vec<&'static str> = Vec::new();
    v.push("Leader key");
    v.push("Hold (ms)");
    v.push("Start speed (px/s)");
    v.push("Max speed (px/s)");
    v.push("Ramp (ms)");
    v.push("Scroll step");
    v.push("Layout (dense|simple)");
    v.push("Nudge step (px)");
    v.push("Panel color (RRGGBB)");
    v.push("Panel opacity (0-255)");
    v.push("Border color");
    v.push("Highlight color");
    v.push("Label color");
    v.push("Pointer color");
    v.push("Label size (1-8)");
    v.push("Nested rows");
    v.push("Nested columns");
    v.push("Nested keys (space separated)");
    v.push("Outer columns (space separated)");
    v.push("Outer rows (space separated)");
    proof {
        assert(strs_view(v@) =~= short_labels());
    }
    v
}

fn short_ids_exec() -> (v: Vec<&'static str>)
    ensures
        strs_view(v@) == short_ids(),
{
    let mut v: Vec<&'static str> = Vec::new();
    v.push("leader");
    v.push("hold_ms");
    v.push("start_speed");
    v.push("max_speed");
    v.push("ramp_ms");
    v.push("scroll_step");
    v.push("layout");
    v.push("nudge_step");
    v.push("color_panel");
    v.push("opacity");
    v.push("color_border");
    v.push("color_highlight");
    v.push("color_label");
    v.push("color_pointer");
    v.push("opacity");
    v.push("nested_size");
    v.push("nested_size");
    v.push("nested_keys");
    v.push("column_keys");
    v.push("row_keys");
    proof {
        assert(strs_view(v@) =~= short_ids());
    }
    v
}

/// Help ids that own an input control.
pub open spec fn control_keys() -> Seq<Seq<char>> {
    seq![
        "enabled"@,
        "mouse_bindings"@,
        "leader"@,
        "hold_ms"@,
        "start_speed"@,
        "max_speed"@,
        "ramp_ms"@,
        "scroll_step"@,
        "layout"@,
        "nudge_step"@,
        "color_panel"@,
        "opacity"@,
        "color_border"@,
        "color_highlight"@,
        "color_label"@,
        "color_pointer"@,
        "nested_size"@,
        "nested_keys"@,
        "column_keys"@,
        "row_keys"@,
        "auto_free"@,
        "nudge_enabled"@,
        "drag_after_select"@,
    ]
}

/// The input control of each help id, in the order of `control_keys`.
pub open spec fn control_ids() -> Seq<i32> {
    seq![ID_ENABLED, MOUSE_KEY_BASE, ID_LEADER, ID_HOLD_MS, ID_START_SPEED, ID_MAX_SPEED, ID_RAMP, ID_SCROLL_STEP, ID_LAYOUT, ID_NUDGE_STEP, ID_PANEL, ID_PANEL_OPACITY, ID_BORDER, ID_HIGHLIGHT, ID_LABEL_COLOR, ID_POINTER, ID_GRID_ROWS, ID_GRID_KEYS, ID_COLUMN_KEYS, ID_ROW_KEYS, ID_AUTO_FREE, ID_NUDGE_ENABLE, ID_DRAG]
}

fn control_keys_exec() -> (v: Vec<&'static str>)
    ensures
        strs_view(v@) == control_keys(),
{
    let mut v: Vec<&'static str> = Vec::new();
    v.push("enabled");
    v.push("mouse_bindings");
    v.push("leader");
    v.push("hold_ms");
    v.push("start_speed");
    v.push("max_speed");
    v.push("ramp_ms");
    v.push("scroll_step");
    v.push("layout");
    v.push("nudge_step");
    v.push("color_panel");
    v.push("opacity");
    v.push("color_border");
    v.push("color_highlight");
    v.push("color_label");
    v.push("color_pointer");
    v.push("nested_size");
    v.push("nested_keys");
    v.push("column_keys");
    v.push("row_keys");
    v.push("auto_free");
    v.push("nudge_enabled");
    v.push("drag_after_select");
    proof {
        assert(strs_view(v@) =~= control_keys());
    }
    v
}

fn control_ids_exec() -> (v: Vec<i32>)
    ensures
        v@ == control_ids(),
{
    let mut v: Vec<i32> = Vec::new();
    v.push(ID_ENABLED);
    v.push(MOUSE_KEY_BASE);
    v.push(ID_LEADER);
    v.push(ID_HOLD_MS);
    v.push(ID_START_SPEED);
    v.push(ID_MAX_SPEED);
    v.push(ID_RAMP);
    v.push(ID_SCROLL_STEP);
    v.push(ID_LAYOUT);
    v.push(ID_NUDGE_STEP);
    v.push(ID_PANEL);
    v.push(ID_PANEL_OPACITY);
    v.push(ID_BORDER);
    v.push(ID_HIGHLIGHT);
    v.push(ID_LABEL_COLOR);
    v.push(ID_POINTER);
    v.push(ID_GRID_ROWS);
    v.push(ID_GRID_KEYS);
    v.push(ID_COLUMN_KEYS);
    v.push(ID_ROW_KEYS);
    v.push(ID_AUTO_FREE);
    v.push(ID_NUDGE_ENABLE);
    v.push(ID_DRAG);
    proof {
        assert(v@ =~= control_ids());
    }
    v
}

/// Field names an editor message can name, longer names before their prefixes.
pub open spec fn error_names() -> Seq<Seq<char>> {
    seq![
        "max speed"@,
        "start speed"@,
        "ramp"@,
        "hold"@,
        "scroll step"@,
        "leader"@,
        "layout"@,
        "nudge step"@,
        "panel opacity"@,
        "panel_opacity"@,
        "panel"@,
        "border width"@,
        "border_px"@,
        "border"@,
        "highlight opacity"@,
        "highlight_opacity"@,
        "highlight"@,
        "label size"@,
        "label_size"@,
        "label"@,
        "pointer"@,
        "bindings:"@,
        "grid:"@,
    ]
}

/// The control that owns each field name, in the order of `error_names`.
pub open spec fn error_controls() -> Seq<i32> {
    seq![ID_MAX_SPEED, ID_START_SPEED, ID_RAMP, ID_HOLD_MS, ID_SCROLL_STEP, ID_LEADER, ID_LAYOUT, ID_NUDGE_STEP, ID_PANEL_OPACITY, ID_PANEL_OPACITY, ID_PANEL, ID_BORDER_PX, ID_BORDER_PX, ID_BORDER, ID_HIGHLIGHT_OPACITY, ID_HIGHLIGHT_OPACITY, ID_HIGHLIGHT, ID_LABEL_SIZE, ID_LABEL_SIZE, ID_LABEL_COLOR, ID_POINTER, MOUSE_KEY_BASE, ID_GRID_ROWS]
}

fn error_names_exec() -> (v: Vec<&'static str>)
    ensures
        strs_view(v@) == error_names(),
{
    let mut v: Vec<&'static str> = Vec::new();
    v.push("max speed");
    v.push("start speed");
    v.push("ramp");
    v.push("hold");
    v.push("scroll step");
    v.push("leader");
    v.push("layout");
    v.push("nudge step");
    v.push("panel opacity");
    v.push("panel_opacity");
    v.push("panel");
    v.push("border width");
    v.push("border_px");
    v.push("border");
    v.push("highlight opacity");
    v.push("highlight_opacity");
    v.push("highlight");
    v.push("label size");
    v.push("label_size");
    v.push("label");
    v.push("pointer");
    v.push("bindings:");
    v.push("grid:");
    proof {
        assert(strs_view(v@) =~= error_names());
    }
    v
}

fn error_controls_exec() -> (v: Vec<i32>)
    ensures
        v@ == error_controls(),
{
    let mut v: Vec<i32> = Vec::new();
    v.push(ID_MAX_SPEED);
    v.push(ID_START_SPEED);
    v.push(ID_RAMP);
    v.push(ID_HOLD_MS);
    v.push(ID_SCROLL_STEP);
    v.push(ID_LEADER);
    v.push(ID_LAYOUT);
    v.push(ID_NUDGE_STEP);
    v.push(ID_PANEL_OPACITY);
    v.push(ID_PANEL_OPACITY);
    v.push(ID_PANEL);
    v.push(ID_BORDER_PX);
    v.push(ID_BORDER_PX);
    v.push(ID_BORDER);
    v.push(ID_HIGHLIGHT_OPACITY);
    v.push(ID_HIGHLIGHT_OPACITY);
    v.push(ID_HIGHLIGHT);
    v.push(ID_LABEL_SIZE);
    v.push(ID_LABEL_SIZE);
    v.push(ID_LABEL_COLOR);
    v.push(ID_POINTER);
    v.push(MOUSE_KEY_BASE);
    v.push(ID_GRID_ROWS);
    proof {
        assert(v@ =~= error_controls());
    }
    v
}

/// The phrase shown for a stored token; unknown tokens show as they are.
pub open spec fn shown_label(token: Seq<char>) -> Seq<char> {
    let i = first_index(choice_tokens(), token);
    if i >= 0 { choice_labels()[i] } else { token }
}

/// The token stored for a shown phrase; unknown phrases are stored as they are.
pub open spec fn kept_token(label: Seq<char>) -> Seq<char> {
    let i = first_index(choice_labels(), label);
    if i >= 0 { choice_tokens()[i] } else { label }
}

/// Token stored in the draft -> phrase shown in the dropdown. Unknown tokens
/// pass through so foreign config values still display.
pub fn display_label<'a>(token: &'a str) -> (r: &'a str)
    ensures
        r@ == shown_label(token@),
{
    let tokens = choice_tokens_exec();
    let labels = choice_labels_exec();
    proof {
        lemma_first_index(choice_tokens(), token@);
        assert(strs_view(tokens@).len() == tokens@.len() && strs_view(labels@).len() == labels@.len());
    }
    match find(&tokens, &chars_of(token)) {
        Some(i) => {
            proof {
                assert(strs_view(labels@)[i as int] == labels@[i as int]@);
            }
            labels[i]
        },
        None => token,
    }
}

/// Phrase shown in the dropdown -> token stored in the draft.
pub fn stored_token<'a>(label: &'a str) -> (r: &'a str)
    ensures
        r@ == kept_token(label@),
{
    let tokens = choice_tokens_exec();
    let labels = choice_labels_exec();
    proof {
        lemma_first_index(choice_labels(), label@);
        assert(strs_view(tokens@).len() == tokens@.len() && strs_view(labels@).len() == labels@.len());
    }
    match find(&labels, &chars_of(label)) {
        Some(i) => {
            proof {
                assert(strs_view(tokens@)[i as int] == tokens@[i as int]@);
            }
            tokens[i]
        },
        None => label,
    }
}

/// The hint under a row label, if the row has one.
pub open spec fn hint_for(label: Seq<char>) -> Option<Seq<char>> {
    let i = first_index(hint_labels(), label);
    if i >= 0 { Some(hint_texts()[i]) } else { None }
}

pub fn setting_hint(label: &str) -> (r: Option<&'static str>)
    ensures
        match r {
            Some(h) => hint_for(label@) == Some(h@),
            None => hint_for(label@) is None,
        },
{
    let labels = hint_labels_exec();
    let texts = hint_texts_exec();
    proof {
        lemma_first_index(hint_labels(), label@);
        assert(strs_view(texts@).len() == texts@.len() && strs_view(labels@).len() == labels@.len());
    }
    match find(&labels, &chars_of(label)) {
        Some(i) => {
            proof {
                assert(strs_view(texts@)[i as int] == texts@[i as int]@);
            }
            Some(texts[i])
        },
        None => None,
    }
}

/// The short help of the setting a help id names, if it has help.
pub open spec fn help_short(id: Seq<char>) -> Option<Seq<char>> {
    let j = help_index(help_table(), id);
    if j >= 0 { Some(help_table()[j].2) } else { None }
}

/// The detail help of the setting a help id names, if it has help.
pub open spec fn help_detail(id: Seq<char>) -> Option<Seq<char>> {
    let j = help_index(help_table(), id);
    if j >= 0 { Some(help_table()[j].3) } else { None }
}

/// The short help shown beside a row label.
pub open spec fn short_for(label: Seq<char>) -> Option<Seq<char>> {
    let i = first_index(short_labels(), label);
    if i >= 0 { help_short(short_ids()[i]) } else { None }
}

pub fn setting_short(label: &str) -> (r: Option<&'static str>)
    ensures
        match r {
            Some(s) => short_for(label@) == Some(s@),
            None => short_for(label@) is None,
        },
{
    let labels = short_labels_exec();
    let ids = short_ids_exec();
    proof {
        lemma_first_index(short_labels(), label@);
        assert(strs_view(ids@).len() == ids@.len() && strs_view(labels@).len() == labels@.len());
    }
    match find(&labels, &chars_of(label)) {
        Some(i) => {
            proof {
                assert(strs_view(ids@)[i as int] == ids@[i as int]@);
            }
            match for_id(ids[i]) {
                Some(help) => Some(help.short),
                None => None,
            }
        },
        None => None,
    }
}

/// The help id whose detail a focused control shows.
pub open spec fn detail_key(id: i32) -> Option<Seq<char>> {
    if id == ID_LEADER {
        Some("leader"@)
    } else if id == ID_HOLD_MS {
        Some("hold_ms"@)
    } else if id == ID_START_SPEED {
        Some("start_speed"@)
    } else if id == ID_MAX_SPEED {
        Some("max_speed"@)
    } else if id == ID_RAMP {
        Some("ramp_ms"@)
    } else if id == ID_SCROLL_STEP {
        Some("scroll_step"@)
    } else if id == ID_LAYOUT {
        Some("layout"@)
    } else if id == ID_NUDGE_STEP {
        Some("nudge_step"@)
    } else if id == ID_PANEL {
        Some("color_panel"@)
    } else if id == ID_PANEL_OPACITY || id == ID_LABEL_SIZE {
        Some("opacity"@)
    } else if id == ID_BORDER {
        Some("color_border"@)
    } else if id == ID_HIGHLIGHT {
        Some("color_highlight"@)
    } else if id == ID_LABEL_COLOR {
        Some("color_label"@)
    } else if id == ID_POINTER {
        Some("color_pointer"@)
    } else if id == ID_GRID_KEYS {
        Some("nested_keys"@)
    } else if id == ID_COLUMN_KEYS {
        Some("column_keys"@)
    } else if id == ID_ROW_KEYS {
        Some("row_keys"@)
    } else {
        None
    }
}

fn detail_key_exec(id: i32) -> (k: Option<&'static str>)
    ensures
        match k {
            Some(s) => detail_key(id) == Some(s@),
            None => detail_key(id) is None,
        },
{
    if id == ID_LEADER {
        Some("leader")
    } else if id == ID_HOLD_MS {
        Some("hold_ms")
    } else if id == ID_START_SPEED {
        Some("start_speed")
    } else if id == ID_MAX_SPEED {
        Some("max_speed")
    } else if id == ID_RAMP {
        Some("ramp_ms")
    } else if id == ID_SCROLL_STEP {
        Some("scroll_step")
    } else if id == ID_LAYOUT {
        Some("layout")
    } else if id == ID_NUDGE_STEP {
        Some("nudge_step")
    } else if id == ID_PANEL {
        Some("color_panel")
    } else if id == ID_PANEL_OPACITY || id == ID_LABEL_SIZE {
        Some("opacity")
    } else if id == ID_BORDER {
        Some("color_border")
    } else if id == ID_HIGHLIGHT {
        Some("color_highlight")
    } else if id == ID_LABEL_COLOR {
        Some("color_label")
    } else if id == ID_POINTER {
        Some("color_pointer")
    } else if id == ID_GRID_KEYS {
        Some("nested_keys")
    } else if id == ID_COLUMN_KEYS {
        Some("column_keys")
    } else if id == ID_ROW_KEYS {
        Some("row_keys")
    } else {
        None
    }
}

/// The detail text shown when a control takes focus.
pub fn detail_for_control(id: i32) -> (r: Option<&'static str>)
    ensures
        match detail_key(id) {
            Some(k) => match r {
                Some(d) => help_detail(k) == Some(d@),
                None => help_detail(k) is None,
            },
            None => r is None,
        },
{
    match detail_key_exec(id) {
        Some(key) => match for_id(key) {
            Some(help) => Some(help.detail),
            None => None,
        },
        None => None,
    }
}

/// The input control of a help id.
pub open spec fn control_for(key: Seq<char>) -> Option<i32> {
    let i = first_index(control_keys(), key);
    if i >= 0 { Some(control_ids()[i]) } else { None }
}

pub fn input_control_id(id: &str) -> (r: Option<i32>)
    ensures
        r == control_for(id@),
{
    let keys = control_keys_exec();
    let ids = control_ids_exec();
    proof {
        lemma_first_index(control_keys(), id@);
    }
    match find(&keys, &chars_of(id)) {
        Some(i) => Some(ids[i]),
        None => None,
    }
}

/// The help line of a control sits 1500 ids above its input.
pub fn help_control_id(id: &str) -> (r: Option<i32>)
    ensures
        r == match control_for(id@) {
            Some(c) => Some((c + 1500) as i32),
            None => None::<i32>,
        },
{
    match input_control_id(id) {
        Some(c) => {
            proof {
                lemma_first_index(control_keys(), id@);
                assert(control_ids().contains(c));
            }
            Some(c + 1500)
        },
        None => None,
    }
}

/// Whether `t` occurs in `s` as a run of consecutive characters.
pub open spec fn contains_text(s: Seq<char>, t: Seq<char>) -> bool {
    exists|i: int| 0 <= i && i + t.len() <= s.len() && #[trigger] s.subrange(i, i + t.len()) == t
}

fn matches_at(s: &Vec<char>, t: &Vec<char>, i: usize) -> (b: bool)
    requires
        i + t@.len() <= s@.len(),
    ensures
        b == (s@.subrange(i as int, i + t@.len()) == t@),
{
    let n = s.len();
    let mut k: usize = 0;
    while k < t.len()
        invariant
            n == s@.len(),
            k <= t@.len(),
            i + t@.len() <= s@.len(),
            forall|j: int| 0 <= j < k ==> s@[i + j] == t@[j],
        decreases t@.len() - k,
    {
        if s[i + k] != t[k] {
            proof {
                assert(s@.subrange(i as int, i + t@.len())[k as int] != t@[k as int]);
            }
            return false;
        }
        k = k + 1;
    }
    proof {
        assert(s@.subrange(i as int, i + t@.len()) =~= t@);
    }
    true
}

/// Substring search.
pub fn contains_chars(s: &Vec<char>, t: &Vec<char>) -> (b: bool)
    ensures
        b == contains_text(s@, t@),
{
    if t.len() > s.len() {
        return false;
    }
    let last = s.len() - t.len();
    let mut i: usize = 0;
    loop
        invariant
            last == s@.len() - t@.len(),
            t@.len() <= s@.len(),
            i <= last,
            forall|j: int| 0 <= j < i ==> #[trigger] s@.subrange(j, j + t@.len()) != t@,
        decreases last - i,
    {
        if matches_at(s, t, i) {
            return true;
        }
        if i == last {
            return false;
        }
        i = i + 1;
    }
}

/// Index of the first name that occurs in the message, or -1.
pub open spec fn first_within(names: Seq<Seq<char>>, message: Seq<char>) -> int
    decreases names.len(),
{
    if names.len() == 0 {
        -1
    } else if first_within(names.drop_last(), message) >= 0 {
        first_within(names.drop_last(), message)
    } else if contains_text(message, names.last()) {
        names.len() - 1
    } else {
        -1
    }
}

proof fn lemma_first_within(names: Seq<Seq<char>>, message: Seq<char>)
    ensures
        -1 <= first_within(names, message) < names.len(),
        first_within(names, message) >= 0 ==> contains_text(message, names[first_within(names, message)]),
        forall|j: int| 0 <= j < names.len() && (j < first_within(names, message) || first_within(names, message) < 0)
            ==> !contains_text(message, #[trigger] names[j]),
    decreases names.len(),
{
    if names.len() > 0 {
        lemma_first_within(names.drop_last(), message);
        assert forall|j: int| 0 <= j < names.len() - 1 implies names.drop_last()[j] == names[j] by {}
    }
}

/// The control that owns the field an editor message names: the first name
/// of the table that occurs in the message.
pub open spec fn control_of_message(message: Seq<char>) -> Option<i32> {
    let i = first_within(error_names(), message);
    if i >= 0 { Some(error_controls()[i]) } else { None }
}

/// Maps an editor error message to the control that owns the named field.
/// Ordered: the max-speed message also holds "start speed", and opacity and
/// size names must win over their shorter prefixes.
pub fn invalid_control(message: &str) -> (r: Option<i32>)
    ensures
        r == control_of_message(message@),
{
    let names = error_names_exec();
    let controls = error_controls_exec();
    let m = chars_of(message);
    let ghost nv = strs_view(names@);
    proof {
        lemma_first_within(nv, message@);
        assert(nv.len() == names@.len());
    }
    let mut i: usize = 0;
    while i < names.len()
        invariant
            i <= names@.len(),
            nv == strs_view(names@),
            nv == error_names(),
            controls@ == error_controls(),
            m@ == message@,
            forall|j: int| 0 <= j < i ==> !contains_text(message@, #[trigger] nv[j]),
        decreases names@.len() - i,
    {
        proof {
            assert(nv[i as int] == names@[i as int]@);
        }
        if contains_chars(&m, &chars_of(names[i])) {
            proof {
                lemma_first_within(nv, message@);
                let f = first_within(nv, message@);
                if f >= 0 && f < i {
                    assert(!contains_text(message@, nv[f]));
                }
            }
            return Some(controls[i]);
        }
        i = i + 1;
    }
    proof {
        lemma_first_within(nv, message@);
        let f = first_within(nv, message@);
        if f >= 0 {
            assert(!contains_text(message@, nv[f]));
        }
    }
    None
}

/// The search text a query becomes: trimmed, then ASCII lower case.
pub open spec fn search_text(query: Seq<char>) -> Seq<char> {
    lower(trim(query))
}

/// Which groups a search query shows: those whose collected text holds the
/// query. An empty query matches nothing; the caller restores the page.
pub open spec fn group_matches(texts: Seq<Seq<char>>, query: Seq<char>, g: int) -> bool {
    search_text(query).len() > 0 && contains_text(texts[g], search_text(query))
}

/// Which groups match a search query, given each group's lower-case text.
pub fn groups_matching(texts: &Vec<String>, query: &str) -> (shown: Vec<bool>)
    ensures
        shown@.len() == texts@.len(),
        forall|g: int| 0 <= g < texts@.len() ==> #[trigger] shown@[g] == group_matches(
            texts@.map_values(|t: String| t@), query@, g),
{
    let q = lower_chars(&trim_chars(&chars_of(query)));
    let ghost tv = texts@.map_values(|t: String| t@);
    let mut shown: Vec<bool> = Vec::new();
    let mut g: usize = 0;
    while g < texts.len()
        invariant
            g <= texts@.len(),
            shown@.len() == g,
            q@ == search_text(query@),
            tv == texts@.map_values(|t: String| t@),
            forall|j: int| 0 <= j < g ==> #[trigger] shown@[j] == group_matches(tv, query@, j),
        decreases texts@.len() - g,
    {
        let text = chars_of(texts[g].as_str());
        proof {
            assert(tv[g as int] == texts@[g as int]@);
        }
        let hit = q.len() > 0 && contains_chars(&text, &q);
        shown.push(hit);
        g = g + 1;
    }
    shown
}

/// Key-list entry: whitespace separates the keys, so the comma key's own ","
/// label survives as a key of its own.
pub fn parse_key_list(text: String) -> (keys: Vec<String>)
    ensures
        keys@.map_values(|k: String| k@) == words(text@),
{
    let ws = words_exec(&chars_of(text.as_str()));
    let mut keys: Vec<String> = Vec::new();
    let mut i: usize = 0;
    while i < ws.len()
        invariant
            i <= ws@.len(),
            words_view(ws@) == words(text@),
            keys@.len() == i,
            forall|j: int| 0 <= j < i ==> #[trigger] keys@[j]@ == ws@[j]@,
        decreases ws@.len() - i,
    {
        keys.push(string_of(&ws[i]));
        i = i + 1;
    }
    proof {
        assert(keys@.map_values(|k: String| k@) =~= words_view(ws@));
    }
    keys
}

/// The scroll state of the settings viewport, as the scroll bar reports it.
#[derive(Debug, Clone, Copy, PartialEq, Eq)]
pub struct ScrollInfo {
    pub min: i32,
    pub max: i32,
    pub page: u32,
    pub pos: i32,
    pub track_pos: i32,
}

pub const SB_LINEUP: i32 = 0;
pub const SB_LINEDOWN: i32 = 1;
pub const SB_PAGEUP: i32 = 2;
pub const SB_PAGEDOWN: i32 = 3;
pub const SB_THUMBPOSITION: i32 = 4;
pub const SB_THUMBTRACK: i32 = 5;
pub const SB_TOP: i32 = 6;
pub const SB_BOTTOM: i32 = 7;

/// Pixels one line step scrolls, and the least a page step scrolls.
pub const SCROLL_LINE: i32 = 28;

/// The page size read as a signed 32-bit number.
pub open spec fn page_signed(page: u32) -> int {
    if page <= i32::MAX { page as int } else { page - 0x1_0000_0000 }
}

/// A value held to the `i32` range.
pub open spec fn saturate(v: int) -> int {
    if v < i32::MIN { i32::MIN as int } else if v > i32::MAX { i32::MAX as int } else { v }
}

/// The position a request scrolls to: held between the top and the last
/// position that still shows a full page.
pub open spec fn scroll_destination(info: ScrollInfo, requested: i32) -> int {
    let last = saturate(saturate(info.max - page_signed(info.page)) + 1);
    let high = if last < info.min { info.min as int } else { last };
    if requested < info.min { info.min as int } else if requested > high { high } else { requested as int }
}

fn page_as_i32(page: u32) -> (p: i32)
    ensures
        p == page_signed(page),
{
    if page <= 0x7fff_ffff {
        page as i32
    } else {
        let low: i32 = (page - 0x8000_0000) as i32;
        low + i32::MIN
    }
}

fn saturate_exec(v: i64) -> (r: i32)
    ensures
        r == saturate(v as int),
{
    if v < i32::MIN as i64 {
        i32::MIN
    } else if v > i32::MAX as i64 {
        i32::MAX
    } else {
        v as i32
    }
}

/// Where the viewport scrolls for a requested position, or none when it
/// stays where it is.
pub fn scroll_to(info: ScrollInfo, requested: i32) -> (next: Option<i32>)
    ensures
        next == (if scroll_destination(info, requested) == info.pos { None } else {
            Some(scroll_destination(info, requested) as i32)
        }),
{
    let diff = saturate_exec(info.max as i64 - page_as_i32(info.page) as i64);
    let last = saturate_exec(diff as i64 + 1);
    let high = if last < info.min { info.min } else { last };
    let target = if requested < info.min { info.min } else if requested > high { high } else { requested };
    if target == info.pos {
        None
    } else {
        Some(target)
    }
}

/// How far a page step scrolls: the page less one line, at least one line.
pub open spec fn page_step(page: u32) -> int {
    if page_signed(page) - 28 < 28 { 28 } else { page_signed(page) - 28 }
}

/// The position a scroll-bar command asks for, or none for other commands.
pub open spec fn command_target(info: ScrollInfo, command: i32) -> Option<int> {
    if command == SB_LINEUP {
        Some(info.pos - 28)
    } else if command == SB_LINEDOWN {
        Some(info.pos + 28)
    } else if command == SB_PAGEUP {
        Some(info.pos - page_step(info.page))
    } else if command == SB_PAGEDOWN {
        Some(info.pos + page_step(info.page))
    } else if command == SB_THUMBPOSITION || command == SB_THUMBTRACK {
        Some(info.track_pos as int)
    } else if command == SB_TOP {
        Some(info.min as int)
    } else if command == SB_BOTTOM {
        Some(info.max as int)
    } else {
        None
    }
}

/// Where a scroll-bar command moves the viewport, or none when the command
/// is not a scroll or the viewport stays.
pub fn scroll_command(info: ScrollInfo, command: i32) -> (next: Option<i32>)
    requires
        page_signed(info.page) - 28 >= i32::MIN,
        command_target(info, command) matches Some(t) ==> i32::MIN <= t <= i32::MAX,
    ensures
        next == match command_target(info, command) {
            Some(t) => if scroll_destination(info, t as i32) == info.pos { None } else {
                Some(scroll_destination(info, t as i32) as i32)
            },
            None => None,
        },
{
    let p = page_as_i32(info.page) - SCROLL_LINE;
    let page = if p < SCROLL_LINE { SCROLL_LINE } else { p };
    let requested = if command == SB_LINEUP {
        info.pos - SCROLL_LINE
    } else if command == SB_LINEDOWN {
        info.pos + SCROLL_LINE
    } else if command == SB_PAGEUP {
        info.pos - page
    } else if command == SB_PAGEDOWN {
        info.pos + page
    } else if command == SB_THUMBPOSITION || command == SB_THUMBTRACK {
        info.track_pos
    } else if command == SB_TOP {
        info.min
    } else if command == SB_BOTTOM {
        info.max
    } else {
        return None;
    };
    scroll_to(info, requested)
}

/// The three message lines of the settings window: binding errors, grid
/// errors, and everything else.
pub struct MessageLines {
    pub bindings: String,
    pub grid: String,
    pub general: String,
}

/// Where an editor message goes: a "bindings:" message to the binding line
/// and a "grid:" message to the grid line, each without its prefix and
/// trimmed; anything else to the general line. The other lines clear.
pub open spec fn routed(m: Seq<char>) -> (Seq<char>, Seq<char>, Seq<char>) {
    if "bindings:"@.is_prefix_of(m) {
        (trim(m.skip("bindings:"@.len() as int)), Seq::empty(), Seq::empty())
    } else if "grid:"@.is_prefix_of(m) {
        (Seq::empty(), trim(m.skip("grid:"@.len() as int)), Seq::empty())
    } else {
        (Seq::empty(), Seq::empty(), m)
    }
}

pub fn route_message(message: &str) -> (lines: MessageLines)
    ensures
        (lines.bindings@, lines.grid@, lines.general@) == routed(message@),
{
    let m = chars_of(message);
    match strip_prefix(&m, "bindings:") {
        Some(rest) => MessageLines {
            bindings: string_of(&trim_chars(&rest)),
            grid: String::new(),
            general: String::new(),
        },
        None => match strip_prefix(&m, "grid:") {
            Some(rest) => MessageLines {
                bindings: String::new(),
                grid: string_of(&trim_chars(&rest)),
                general: String::new(),
            },
            None => MessageLines {
                bindings: String::new(),
                grid: String::new(),
                general: string_of(&m),
            },
        },
    }
}

/// What the diagnostics know of the configuration file.
pub enum ConfigFileState {
    /// The platform location could not be worked out.
    PathUnavailable(ConfigError),
    /// No file at the location: the defaults run.
    Missing,
    /// The file's load outcome.
    Loaded(Result<Config, ConfigError>),
}

/// The one-line configuration summary the diagnostics carry: never the
/// configuration itself, only whether it loads and validates.
pub open spec fn summary_line(s: ConfigFileState) -> Seq<char> {
    match s {
        ConfigFileState::PathUnavailable(e) => "config path unavailable: "@ + error_text(e@),
        ConfigFileState::Missing => "no config file, using defaults"@,
        ConfigFileState::Loaded(Err(e)) => "unparsable: "@ + error_text(e@),
        ConfigFileState::Loaded(Ok(c)) => match validation(c) {
            Ok(()) => "valid"@,
            Err(e) => "invalid: "@ + error_text(e),
        },
    }
}

pub fn config_summary(state: &ConfigFileState) -> (s: String)
    ensures
        s@ == summary_line(*state),
{
    match state {
        ConfigFileState::PathUnavailable(e) => {
            let mut s = String::from_str("config path unavailable: ");
            push_str(&mut s, e.message().as_str());
            s
        },
        ConfigFileState::Missing => String::from_str("no config file, using defaults"),
        ConfigFileState::Loaded(Err(e)) => {
            let mut s = String::from_str("unparsable: ");
            push_str(&mut s, e.message().as_str());
            s
        },
        ConfigFileState::Loaded(Ok(c)) => match c.validate() {
            Ok(()) => String::from_str("valid"),
            Err(e) => {
                let mut s = String::from_str("invalid: ");
                push_str(&mut s, e.message().as_str());
                s
            },
        },
    }
}

/// Scrolling never leaves the content: the destination lies between the top
/// and the last position that still shows a full page, or at the top when
/// the content is shorter than a page.
pub proof fn law_scroll_in_range(info: ScrollInfo, requested: i32)
    ensures
        info.min <= scroll_destination(info, requested),
        scroll_destination(info, requested) <= info.min
            || scroll_destination(info, requested) <= saturate(saturate(info.max - page_signed(info.page)) + 1),
        i32::MIN <= scroll_destination(info, requested) <= i32::MAX,
{
}

proof fn lemma_choices_distinct()
    ensures
        choice_tokens().len() == choice_labels().len(),
        forall|a: int, b: int| 0 <= a < b < choice_tokens().len() ==> choice_tokens()[a] != choice_tokens()[b],
        forall|a: int, b: int| 0 <= a < b < choice_labels().len() ==> choice_labels()[a] != choice_labels()[b],
{
    reveal_strlit("click_left");
    reveal_strlit("click_right");
    reveal_strlit("scroll_up");
    reveal_strlit("scroll_down");
    reveal_strlit("enter_grid");
    reveal_strlit("move_left");
    reveal_strlit("move_right");
    reveal_strlit("move_up");
    reveal_strlit("move_down");
    reveal_strlit("speed_down");
    reveal_strlit("speed_up");
    reveal_strlit("dense");
    reveal_strlit("simple");
    reveal_strlit("Left click");
    reveal_strlit("Right click");
    reveal_strlit("Scroll up");
    reveal_strlit("Scroll down");
    reveal_strlit("Enter grid");
    reveal_strlit("Move left");
    reveal_strlit("Move right");
    reveal_strlit("Move up");
    reveal_strlit("Move down");
    reveal_strlit("Speed down");
    reveal_strlit("Speed up");
    reveal_strlit("Dense");
    reveal_strlit("Simple");
    assert(choice_tokens()[0] == "click_left"@);
    assert(choice_tokens()[1] == "click_right"@);
    assert(choice_tokens()[2] == "scroll_up"@);
    assert(choice_tokens()[3] == "scroll_down"@);
    assert(choice_tokens()[4] == "enter_grid"@);
    assert(choice_tokens()[5] == "move_left"@);
    assert(choice_tokens()[6] == "move_right"@);
    assert(choice_tokens()[7] == "move_up"@);
    assert(choice_tokens()[8] == "move_down"@);
    assert(choice_tokens()[9] == "speed_down"@);
    assert(choice_tokens()[10] == "speed_up"@);
    assert(choice_tokens()[11] == "dense"@);
    assert(choice_tokens()[12] == "simple"@);
    assert(choice_labels()[0] == "Left click"@);
    assert(choice_labels()[1] == "Right click"@);
    assert(choice_labels()[2] == "Scroll up"@);
    assert(choice_labels()[3] == "Scroll down"@);
    assert(choice_labels()[4] == "Enter grid"@);
    assert(choice_labels()[5] == "Move left"@);
    assert(choice_labels()[6] == "Move right"@);
    assert(choice_labels()[7] == "Move up"@);
    assert(choice_labels()[8] == "Move down"@);
    assert(choice_labels()[9] == "Speed down"@);
    assert(choice_labels()[10] == "Speed up"@);
    assert(choice_labels()[11] == "Dense"@);
    assert(choice_labels()[12] == "Simple"@);
    assert("click_left"@.len() == 10 && "click_right"@.len() == 11);
    assert("click_left"@.len() == 10 && "scroll_up"@.len() == 9);
    assert("click_left"@.len() == 10 && "scroll_down"@.len() == 11);
    assert("click_left"@[0] == 'c' && "enter_grid"@[0] == 'e');
    assert("click_left"@.len() == 10 && "move_left"@.len() == 9);
    assert("click_left"@[0] == 'c' && "move_right"@[0] == 'm');
    assert("click_left"@.len() == 10 && "move_up"@.len() == 7);
    assert("click_left"@.len() == 10 && "move_down"@.len() == 9);
    assert("click_left"@[0] == 'c' && "speed_down"@[0] == 's');
    assert("click_left"@.len() == 10 && "speed_up"@.len() == 8);
    assert("click_left"@.len() == 10 && "dense"@.len() == 5);
    assert("click_left"@.len() == 10 && "simple"@.len() == 6);
    assert("click_right"@.len() == 11 && "scroll_up"@.len() == 9);
    assert("click_right"@[0] == 'c' && "scroll_down"@[0] == 's');
    assert("click_right"@.len() == 11 && "enter_grid"@.len() == 10);
    assert("click_right"@.len() == 11 && "move_left"@.len() == 9);
    assert("click_right"@.len() == 11 && "move_right"@.len() == 10);
    assert("click_right"@.len() == 11 && "move_up"@.len() == 7);
    assert("click_right"@.len() == 11 && "move_down"@.len() == 9);
    assert("click_right"@.len() == 11 && "speed_down"@.len() == 10);
    assert("click_right"@.len() == 11 && "speed_up"@.len() == 8);
    assert("click_right"@.len() == 11 && "dense"@.len() == 5);
    assert("click_right"@.len() == 11 && "simple"@.len() == 6);
    assert("scroll_up"@.len() == 9 && "scroll_down"@.len() == 11);
    assert("scroll_up"@.len() == 9 && "enter_grid"@.len() == 10);
    assert("scroll_up"@[0] == 's' && "move_left"@[0] == 'm');
    assert("scroll_up"@.len() == 9 && "move_right"@.len() == 10);
    assert("scroll_up"@.len() == 9 && "move_up"@.len() == 7);
    assert("scroll_up"@[0] == 's' && "move_down"@[0] == 'm');
    assert("scroll_up"@.len() == 9 && "speed_down"@.len() == 10);
    assert("scroll_up"@.len() == 9 && "speed_up"@.len() == 8);
    assert("scroll_up"@.len() == 9 && "dense"@.len() == 5);
    assert("scroll_up"@.len() == 9 && "simple"@.len() == 6);
    assert("scroll_down"@.len() == 11 && "enter_grid"@.len() == 10);
    assert("scroll_down"@.len() == 11 && "move_left"@.len() == 9);
    assert("scroll_down"@.len() == 11 && "move_right"@.len() == 10);
    assert("scroll_down"@.len() == 11 && "move_up"@.len() == 7);
    assert("scroll_down"@.len() == 11 && "move_down"@.len() == 9);
    assert("scroll_down"@.len() == 11 && "speed_down"@.len() == 10);
    assert("scroll_down"@.len() == 11 && "speed_up"@.len() == 8);
    assert("scroll_down"@.len() == 11 && "dense"@.len() == 5);
    assert("scroll_down"@.len() == 11 && "simple"@.len() == 6);
    assert("enter_grid"@.len() == 10 && "move_left"@.len() == 9);
    assert("enter_grid"@[0] == 'e' && "move_right"@[0] == 'm');
    assert("enter_grid"@.len() == 10 && "move_up"@.len() == 7);
    assert("enter_grid"@.len() == 10 && "move_down"@.len() == 9);
    assert("enter_grid"@[0] == 'e' && "speed_down"@[0] == 's');
    assert("enter_grid"@.len() == 10 && "speed_up"@.len() == 8);
    assert("enter_grid"@.len() == 10 && "dense"@.len() == 5);
    assert("enter_grid"@.len() == 10 && "simple"@.len() == 6);
    assert("move_left"@.len() == 9 && "move_right"@.len() == 10);
    assert("move_left"@.len() == 9 && "move_up"@.len() == 7);
    assert("move_left"@[5] == 'l' && "move_down"@[5] == 'd');
    assert("move_left"@.len() == 9 && "speed_down"@.len() == 10);
    assert("move_left"@.len() == 9 && "speed_up"@.len() == 8);
    assert("move_left"@.len() == 9 && "dense"@.len() == 5);
    assert("move_left"@.len() == 9 && "simple"@.len() == 6);
    assert("move_right"@.len() == 10 && "move_up"@.len() == 7);
    assert("move_right"@.len() == 10 && "move_down"@.len() == 9);
    assert("move_right"@[0] == 'm' && "speed_down"@[0] == 's');
    assert("move_right"@.len() == 10 && "speed_up"@.len() == 8);
    assert("move_right"@.len() == 10 && "dense"@.len() == 5);
    assert("move_right"@.len() == 10 && "simple"@.len() == 6);
    assert("move_up"@.len() == 7 && "move_down"@.len() == 9);
    assert("move_up"@.len() == 7 && "speed_down"@.len() == 10);
    assert("move_up"@.len() == 7 && "speed_up"@.len() == 8);
    assert("move_up"@.len() == 7 && "dense"@.len() == 5);
    assert("move_up"@.len() == 7 && "simple"@.len() == 6);
    assert("move_down"@.len() == 9 && "speed_down"@.len() == 10);
    assert("move_down"@.len() == 9 && "speed_up"@.len() == 8);
    assert("move_down"@.len() == 9 && "dense"@.len() == 5);
    assert("move_down"@.len() == 9 && "simple"@.len() == 6);
    assert("speed_down"@.len() == 10 && "speed_up"@.len() == 8);
    assert("speed_down"@.len() == 10 && "dense"@.len() == 5);
    assert("speed_down"@.len() == 10 && "simple"@.len() == 6);
    assert("speed_up"@.len() == 8 && "dense"@.len() == 5);
    assert("speed_up"@.len() == 8 && "simple"@.len() == 6);
    assert("dense"@.len() == 5 && "simple"@.len() == 6);
    assert("Left click"@.len() == 10 && "Right click"@.len() == 11);
    assert("Left click"@.len() == 10 && "Scroll up"@.len() == 9);
    assert("Left click"@.len() == 10 && "Scroll down"@.len() == 11);
    assert("Left click"@[0] == 'L' && "Enter grid"@[0] == 'E');
    assert("Left click"@.len() == 10 && "Move left"@.len() == 9);
    assert("Left click"@[0] == 'L' && "Move right"@[0] == 'M');
    assert("Left click"@.len() == 10 && "Move up"@.len() == 7);
    assert("Left click"@.len() == 10 && "Move down"@.len() == 9);
    assert("Left click"@[0] == 'L' && "Speed down"@[0] == 'S');
    assert("Left click"@.len() == 10 && "Speed up"@.len() == 8);
    assert("Left click"@.len() == 10 && "Dense"@.len() == 5);
    assert("Left click"@.len() == 10 && "Simple"@.len() == 6);
    assert("Right click"@.len() == 11 && "Scroll up"@.len() == 9);
    assert("Right click"@[0] == 'R' && "Scroll down"@[0] == 'S');
    assert("Right click"@.len() == 11 && "Enter grid"@.len() == 10);
    assert("Right click"@.len() == 11 && "Move left"@.len() == 9);
    assert("Right click"@.len() == 11 && "Move right"@.len() == 10);
    assert("Right click"@.len() == 11 && "Move up"@.len() == 7);
    assert("Right click"@.len() == 11 && "Move down"@.len() == 9);
    assert("Right click"@.len() == 11 && "Speed down"@.len() == 10);
    assert("Right click"@.len() == 11 && "Speed up"@.len() == 8);
    assert("Right click"@.len() == 11 && "Dense"@.len() == 5);
    assert("Right click"@.len() == 11 && "Simple"@.len() == 6);
    assert("Scroll up"@.len() == 9 && "Scroll down"@.len() == 11);
    assert("Scroll up"@.len() == 9 && "Enter grid"@.len() == 10);
    assert("Scroll up"@[0] == 'S' && "Move left"@[0] == 'M');
    assert("Scroll up"@.len() == 9 && "Move right"@.len() == 10);
    assert("Scroll up"@.len() == 9 && "Move up"@.len() == 7);
    assert("Scroll up"@[0] == 'S' && "Move down"@[0] == 'M');
    assert("Scroll up"@.len() == 9 && "Speed down"@.len() == 10);
    assert("Scroll up"@.len() == 9 && "Speed up"@.len() == 8);
    assert("Scroll up"@.len() == 9 && "Dense"@.len() == 5);
    assert("Scroll up"@.len() == 9 && "Simple"@.len() == 6);
    assert("Scroll down"@.len() == 11 && "Enter grid"@.len() == 10);
    assert("Scroll down"@.len() == 11 && "Move left"@.len() == 9);
    assert("Scroll down"@.len() == 11 && "Move right"@.len() == 10);
    assert("Scroll down"@.len() == 11 && "Move up"@.len() == 7);
    assert("Scroll down"@.len() == 11 && "Move down"@.len() == 9);
    assert("Scroll down"@.len() == 11 && "Speed down"@.len() == 10);
    assert("Scroll down"@.len() == 11 && "Speed up"@.len() == 8);
    assert("Scroll down"@.len() == 11 && "Dense"@.len() == 5);
    assert("Scroll down"@.len() == 11 && "Simple"@.len() == 6);
    assert("Enter grid"@.len() == 10 && "Move left"@.len() == 9);
    assert("Enter grid"@[0] == 'E' && "Move right"@[0] == 'M');
    assert("Enter grid"@.len() == 10 && "Move up"@.len() == 7);
    assert("Enter grid"@.len() == 10 && "Move down"@.len() == 9);
    assert("Enter grid"@[0] == 'E' && "Speed down"@[0] == 'S');
    assert("Enter grid"@.len() == 10 && "Speed up"@.len() == 8);
    assert("Enter grid"@.len() == 10 && "Dense"@.len() == 5);
    assert("Enter grid"@.len() == 10 && "Simple"@.len() == 6);
    assert("Move left"@.len() == 9 && "Move right"@.len() == 10);
    assert("Move left"@.len() == 9 && "Move up"@.len() == 7);
    assert("Move left"@[5] == 'l' && "Move down"@[5] == 'd');
    assert("Move left"@.len() == 9 && "Speed down"@.len() == 10);
    assert("Move left"@.len() == 9 && "Speed up"@.len() == 8);
    assert("Move left"@.len() == 9 && "Dense"@.len() == 5);
    assert("Move left"@.len() == 9 && "Simple"@.len() == 6);
    assert("Move right"@.len() == 10 && "Move up"@.len() == 7);
    assert("Move right"@.len() == 10 && "Move down"@.len() == 9);
    assert("Move right"@[0] == 'M' && "Speed down"@[0] == 'S');
    assert("Move right"@.len() == 10 && "Speed up"@.len() == 8);
    assert("Move right"@.len() == 10 && "Dense"@.len() == 5);
    assert("Move right"@.len() == 10 && "Simple"@.len() == 6);
    assert("Move up"@.len() == 7 && "Move down"@.len() == 9);
    assert("Move up"@.len() == 7 && "Speed down"@.len() == 10);
    assert("Move up"@.len() == 7 && "Speed up"@.len() == 8);
    assert("Move up"@.len() == 7 && "Dense"@.len() == 5);
    assert("Move up"@.len() == 7 && "Simple"@.len() == 6);
    assert("Move down"@.len() == 9 && "Speed down"@.len() == 10);
    assert("Move down"@.len() == 9 && "Speed up"@.len() == 8);
    assert("Move down"@.len() == 9 && "Dense"@.len() == 5);
    assert("Move down"@.len() == 9 && "Simple"@.len() == 6);
    assert("Speed down"@.len() == 10 && "Speed up"@.len() == 8);
    assert("Speed down"@.len() == 10 && "Dense"@.len() == 5);
    assert("Speed down"@.len() == 10 && "Simple"@.len() == 6);
    assert("Speed up"@.len() == 8 && "Dense"@.len() == 5);
    assert("Speed up"@.len() == 8 && "Simple"@.len() == 6);
    assert("Dense"@.len() == 5 && "Simple"@.len() == 6);
}

/// Showing a stored token and storing the shown phrase gives the token back,
/// for every dropdown choice; storing a shown phrase and showing the stored
/// token gives the phrase back.
pub proof fn law_choice_round_trip(i: int)
    requires
        0 <= i < choice_tokens().len(),
    ensures
        kept_token(shown_label(choice_tokens()[i])) == choice_tokens()[i],
        shown_label(kept_token(choice_labels()[i])) == choice_labels()[i],
{
    lemma_choices_distinct();
    lemma_first_index(choice_tokens(), choice_tokens()[i]);
    lemma_first_index(choice_labels(), choice_labels()[i]);
    assert(first_index(choice_tokens(), choice_tokens()[i]) == i);
    assert(first_index(choice_labels(), choice_labels()[i]) == i);
}


/// The settings pages, in the order the window lists them.
pub const PAGE_GENERAL: usize = 0;
pub const PAGE_MOVEMENT: usize = 1;
pub const PAGE_GRID: usize = 2;
pub const PAGE_SHORTCUTS: usize = 3;
pub const PAGE_APPEARANCE: usize = 4;
pub const PAGE_ABOUT: usize = 5;

/// The section a page's Reset button restores: General and Movement share
/// the settings section, and the About page has none.
pub open spec fn spec_page_section(page: usize) -> Option<Section> {
    if page == PAGE_GENERAL || page == PAGE_MOVEMENT {
        Some(Section::Settings)
    } else if page == PAGE_GRID {
        Some(Section::Grid)
    } else if page == PAGE_SHORTCUTS {
        Some(Section::Bindings)
    } else if page == PAGE_APPEARANCE {
        Some(Section::Appearance)
    } else {
        None
    }
}

pub fn page_reset_section(page: usize) -> (s: Option<Section>)
    ensures
        s == spec_page_section(page),
{
    if page == PAGE_GENERAL || page == PAGE_MOVEMENT {
        Some(Section::Settings)
    } else if page == PAGE_GRID {
        Some(Section::Grid)
    } else if page == PAGE_SHORTCUTS {
        Some(Section::Bindings)
    } else if page == PAGE_APPEARANCE {
        Some(Section::Appearance)
    } else {
        None
    }
}

/// The virtual-key code of Escape.
pub const VK_ESCAPE: u32 = 0x1B;

/// What a key press does while the window records a binding key.
#[derive(Debug, Clone, Copy, PartialEq, Eq, Structural)]
pub enum RecordStep {
    /// No recording is under way: the window handles the key as usual.
    Passed,
    /// Escape stops the recording and writes nothing.
    Cancelled,
    /// The key's name goes into the control, and recording stops.
    Recorded(i32, LogicalKey),
    /// The key has no name; recording goes on.
    Unsupported,
}

/// The recording target after a key press, and what the press does.
pub open spec fn spec_record_key(recording: Option<i32>, vk: u32) -> (Option<i32>, RecordStep) {
    match recording {
        None => (None, RecordStep::Passed),
        Some(target) => if vk == VK_ESCAPE {
            (None, RecordStep::Cancelled)
        } else {
            match vk_key(vk) {
                Some(k) => (None, RecordStep::Recorded(target, k)),
                None => (Some(target), RecordStep::Unsupported),
            }
        },
    }
}

/// One key press while the settings window may be recording a binding key
/// into the control `recording` names.
pub fn record_key(recording: Option<i32>, vk: u32) -> (r: (Option<i32>, RecordStep))
    ensures
        r == spec_record_key(recording, vk),
{
    match recording {
        None => (None, RecordStep::Passed),
        Some(target) => {
            if vk == VK_ESCAPE {
                (None, RecordStep::Cancelled)
            } else {
                match vk_to_logical(vk) {
                    Some(k) => (None, RecordStep::Recorded(target, k)),
                    None => (Some(target), RecordStep::Unsupported),
                }
            }
        },
    }
}

} // verus!
