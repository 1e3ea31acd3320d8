//! Setting help content: a plain label, one short sentence shown always,
//! detail for hover or focus, and units or an example, per setting that has
//! a runtime effect.
use vstd::prelude::*;
use crate::text::{chars_eq, chars_of};

verus! {

#[derive(Debug, Clone, Copy, PartialEq, Eq)]
pub struct SettingHelp {
    pub id: &'static str,
    pub label: &'static str,
    pub short: &'static str,
    pub detail: &'static str,
    pub example: &'static str,
}

pub type HelpView = (Seq<char>, Seq<char>, Seq<char>, Seq<char>, Seq<char>);

pub open spec fn help_view(h: SettingHelp) -> HelpView {
    (h.id@, h.label@, h.short@, h.detail@, h.example@)
}

/// The help entries, in table order.
pub open spec fn help_table() -> Seq<HelpView> {
    seq![
        (("enabled")@, ("Enabled")@, ("Master switch for pointer control.")@, ("When off, Clickless ignores all keys and hides the grid. The tray icon stays so you can turn it back on.")@, ("On or off.")@),
        (("leader")@, ("Activation key")@, ("Hold CapsLock to keep the grid open; tap Left Shift to open it once.")@, ("Hold CapsLock for the configured delay, then choose labels while still holding. A Left Shift tap opens the same grid without holding it. Rebinding this key steals it while held.")@, ("Example: CapsLock hold; Left Shift tap.")@),
        (("layout")@, ("Grid style")@, ("Dense grid: type 2 letters to choose an area, then 1 letter for the target.")@, ("Dense suits large monitors with 300 labeled areas. Simple keeps the older 3 by 3 workflow.")@, ("Dense or Simple.")@),
        (("start_speed")@, ("Start speed")@, ("Pointer speed when movement begins.")@, ("Pixels per second before acceleration. Lower values improve small adjustments.")@, ("Pixels per second, at least 1 and at most the maximum speed. Default 300.")@),
        (("max_speed")@, ("Maximum speed")@, ("Fastest pointer speed after ramp-up.")@, ("Pixels per second once acceleration finishes. Must stay at or above the start speed.")@, ("Pixels per second. Default 3000.")@),
        (("ramp_ms")@, ("Ramp duration")@, ("Time taken to accelerate from start to maximum speed.")@, ("Shorter ramps feel snappier but overshoot small targets; longer ramps land precisely.")@, ("Milliseconds, at least 1. Default 500.")@),
        (("hold_ms")@, ("Hold delay")@, ("How long to hold the activation key before pointer mode starts.")@, ("Shorter delays respond faster but mistake taps for holds; longer delays keep quick taps safe.")@, ("Milliseconds, at least 1. Default 200.")@),
        (("scroll_step")@, ("Scroll step")@, ("Scroll notches per scroll action.")@, ("Each scroll keypress moves this many notches. Higher values scroll long pages faster.")@, ("Notches, at least 1. Default 1.")@),
        (("mouse_bindings")@, ("Pointer keys")@, ("Keys that move, click and scroll while the activation key is held.")@, ("Each row pairs one key with one pointer action. Keys must be unique; Esc and Backspace are reserved and rejected.")@, ("Example: J moves right, F left-clicks.")@),
        (("column_keys")@, ("Outer columns")@, ("First letter of a two-letter grid choice.")@, ("One key per grid column. Keys must be unique and printable.")@, ("Dense default: A S D F G H J K L semicolon.")@),
        (("row_keys")@, ("Outer rows")@, ("Second letter of a two-letter grid choice.")@, ("One key per grid row. The count must match the grid rows.")@, ("Dense default: Q W E R T Y U I O P and more.")@),
        (("nested_size")@, ("Subgrid size")@, ("Rows and columns of the fine-selection grid.")@, ("The subgrid opens inside the chosen outer cell. The nested key count must equal rows times columns.")@, ("Dense default: 3 rows by 10 columns.")@),
        (("nested_keys")@, ("Subgrid keys")@, ("Keys that pick the final target inside a cell.")@, ("One unique key per subgrid cell, laid out in reading order.")@, ("Dense default: QWERTY bank of 30 keys.")@),
        (("auto_free")@, ("Return to pointer mode")@, ("Move without clicking, then continue keyboard pointer control.")@, ("After the final grid key the pointer moves but no click happens, and control returns to pointer mode.")@, ("On or off. Default off.")@),
        (("nudge_enabled")@, ("Nudge after selection")@, ("Keep the target open so movement keys can make pixel adjustments.")@, ("With nudge on, the final key moves the pointer and releasing it clicks. With nudge off, selection clicks immediately or returns to pointer mode.")@, ("On or off. Default on.")@),
        (("nudge_step")@, ("Nudge step")@, ("Pixels moved per nudge keypress.")@, ("Smaller steps land precisely on tiny targets; larger steps cross the screen faster.")@, ("Pixels, at least 1. Dense default 1, simple default 5.")@),
        (("drag_after_select")@, ("Drag after selection")@, ("Hold the mouse button after the final grid key. Release capture to end the drag.")@, ("The left button stays down at the selected target so pointer keys drag windows or select text. Esc or activation-key release ends the drag.")@, ("On or off. Default off.")@),
        (("color_panel")@, ("Panel color")@, ("Background of grid labels.")@, ("Opaque badges keep labels readable over any window behind the overlay.")@, ("Hex RRGGBB. Default 181C26.")@),
        (("color_border")@, ("Border color")@, ("Grid line color.")@, ("Single-pixel lines separating grid cells.")@, ("Hex RRGGBB. Default 647A96.")@),
        (("color_label")@, ("Label color")@, ("Grid letter color.")@, ("Light letters on the dark panel keep contrast high at small sizes.")@, ("Hex RRGGBB. Default F0F6FF.")@),
        (("color_highlight")@, ("Highlight color")@, ("Selected-cell highlight color.")@, ("Marks the cell being narrowed or the active subgrid target.")@, ("Hex RRGGBB. Default FFC440.")@),
        (("color_pointer")@, ("Pointer color")@, ("Target marker color.")@, ("Small marker drawn where the pointer will land.")@, ("Hex RRGGBB. Default FF6060.")@),
        (("opacity")@, ("Panel and highlight opacity")@, ("How solid the label badges and highlight are.")@, ("Higher values stay readable over busy windows; lower values show more of the app beneath. Sizes: label size in points, border width in pixels.")@, ("0 to 255. Panel default 70, highlight 110, label size 3, border 1.")@),
    ]
}

/// Every help entry.
pub fn all() -> (v: Vec<SettingHelp>)
    ensures
        v@.map_values(|h: SettingHelp| help_view(h)) == help_table(),
{
    let mut v: Vec<SettingHelp> = Vec::new();
    v.push(SettingHelp {
        id: "enabled",
        label: "Enabled",
        short: "Master switch for pointer control.",
        detail: "When off, Clickless ignores all keys and hides the grid. The tray icon stays so you can turn it back on.",
        example: "On or off.",
    });
    v.push(SettingHelp {
        id: "leader",
        label: "Activation key",
        short: "Hold CapsLock to keep the grid open; tap Left Shift to open it once.",
        detail: "Hold CapsLock for the configured delay, then choose labels while still holding. A Left Shift tap opens the same grid without holding it. Rebinding this key steals it while held.",
        example: "Example: CapsLock hold; Left Shift tap.",
    });
    v.push(SettingHelp {
        id: "layout",
        label: "Grid style",
        short: "Dense grid: type 2 letters to choose an area, then 1 letter for the target.",
        detail: "Dense suits large monitors with 300 labeled areas. Simple keeps the older 3 by 3 workflow.",
        example: "Dense or Simple.",
    });
    v.push(SettingHelp {
        id: "start_speed",
        label: "Start speed",
        short: "Pointer speed when movement begins.",
        detail: "Pixels per second before acceleration. Lower values improve small adjustments.",
        example: "Pixels per second, at least 1 and at most the maximum speed. Default 300.",
    });
    v.push(SettingHelp {
        id: "max_speed",
        label: "Maximum speed",
        short: "Fastest pointer speed after ramp-up.",
        detail: "Pixels per second once acceleration finishes. Must stay at or above the start speed.",
        example: "Pixels per second. Default 3000.",
    });
    v.push(SettingHelp {
        id: "ramp_ms",
        label: "Ramp duration",
        short: "Time taken to accelerate from start to maximum speed.",
        detail: "Shorter ramps feel snappier but overshoot small targets; longer ramps land precisely.",
        example: "Milliseconds, at least 1. Default 500.",
    });
    v.push(SettingHelp {
        id: "hold_ms",
        label: "Hold delay",
        short: "How long to hold the activation key before pointer mode starts.",
        detail: "Shorter delays respond faster but mistake taps for holds; longer delays keep quick taps safe.",
        example: "Milliseconds, at least 1. Default 200.",
    });
    v.push(SettingHelp {
        id: "scroll_step",
        label: "Scroll step",
        short: "Scroll notches per scroll action.",
        detail: "Each scroll keypress moves this many notches. Higher values scroll long pages faster.",
        example: "Notches, at least 1. Default 1.",
    });
    v.push(SettingHelp {
        id: "mouse_bindings",
        label: "Pointer keys",
        short: "Keys that move, click and scroll while the activation key is held.",
        detail: "Each row pairs one key with one pointer action. Keys must be unique; Esc and Backspace are reserved and rejected.",
        example: "Example: J moves right, F left-clicks.",
    });
    v.push(SettingHelp {
        id: "column_keys",
        label: "Outer columns",
        short: "First letter of a two-letter grid choice.",
        detail: "One key per grid column. Keys must be unique and printable.",
        example: "Dense default: A S D F G H J K L semicolon.",
    });
    v.push(SettingHelp {
        id: "row_keys",
        label: "Outer rows",
        short: "Second letter of a two-letter grid choice.",
        detail: "One key per grid row. The count must match the grid rows.",
        example: "Dense default: Q W E R T Y U I O P and more.",
    });
    v.push(SettingHelp {
        id: "nested_size",
        label: "Subgrid size",
        short: "Rows and columns of the fine-selection grid.",
        detail: "The subgrid opens inside the chosen outer cell. The nested key count must equal rows times columns.",
        example: "Dense default: 3 rows by 10 columns.",
    });
    v.push(SettingHelp {
        id: "nested_keys",
        label: "Subgrid keys",
        short: "Keys that pick the final target inside a cell.",
        detail: "One unique key per subgrid cell, laid out in reading order.",
        example: "Dense default: QWERTY bank of 30 keys.",
    });
    v.push(SettingHelp {
        id: "auto_free",
        label: "Return to pointer mode",
        short: "Move without clicking, then continue keyboard pointer control.",
        detail: "After the final grid key the pointer moves but no click happens, and control returns to pointer mode.",
        example: "On or off. Default off.",
    });
    v.push(SettingHelp {
        id: "nudge_enabled",
        label: "Nudge after selection",
        short: "Keep the target open so movement keys can make pixel adjustments.",
        detail: "With nudge on, the final key moves the pointer and releasing it clicks. With nudge off, selection clicks immediately or returns to pointer mode.",
        example: "On or off. Default on.",
    });
    v.push(SettingHelp {
        id: "nudge_step",
        label: "Nudge step",
        short: "Pixels moved per nudge keypress.",
        detail: "Smaller steps land precisely on tiny targets; larger steps cross the screen faster.",
        example: "Pixels, at least 1. Dense default 1, simple default 5.",
    });
    v.push(SettingHelp {
        id: "drag_after_select",
        label: "Drag after selection",
        short: "Hold the mouse button after the final grid key. Release capture to end the drag.",
        detail: "The left button stays down at the selected target so pointer keys drag windows or select text. Esc or activation-key release ends the drag.",
        example: "On or off. Default off.",
    });
    v.push(SettingHelp {
        id: "color_panel",
        label: "Panel color",
        short: "Background of grid labels.",
        detail: "Opaque badges keep labels readable over any window behind the overlay.",
        example: "Hex RRGGBB. Default 181C26.",
    });
    v.push(SettingHelp {
        id: "color_border",
        label: "Border color",
        short: "Grid line color.",
        detail: "Single-pixel lines separating grid cells.",
        example: "Hex RRGGBB. Default 647A96.",
    });
    v.push(SettingHelp {
        id: "color_label",
        label: "Label color",
        short: "Grid letter color.",
        detail: "Light letters on the dark panel keep contrast high at small sizes.",
        example: "Hex RRGGBB. Default F0F6FF.",
    });
    v.push(SettingHelp {
        id: "color_highlight",
        label: "Highlight color",
        short: "Selected-cell highlight color.",
        detail: "Marks the cell being narrowed or the active subgrid target.",
        example: "Hex RRGGBB. Default FFC440.",
    });
    v.push(SettingHelp {
        id: "color_pointer",
        label: "Pointer color",
        short: "Target marker color.",
        detail: "Small marker drawn where the pointer will land.",
        example: "Hex RRGGBB. Default FF6060.",
    });
    v.push(SettingHelp {
        id: "opacity",
        label: "Panel and highlight opacity",
        short: "How solid the label badges and highlight are.",
        detail: "Higher values stay readable over busy windows; lower values show more of the app beneath. Sizes: label size in points, border width in pixels.",
        example: "0 to 255. Panel default 70, highlight 110, label size 3, border 1.",
    });
    proof {
        assert(v@.map_values(|h: SettingHelp| help_view(h)) =~= help_table());
    }
    v
}

/// Index of the first entry with the id, or -1.
pub open spec fn help_index(t: Seq<HelpView>, id: Seq<char>) -> int
    decreases t.len(),
{
    if t.len() == 0 {
        -1
    } else if help_index(t.drop_last(), id) >= 0 {
        help_index(t.drop_last(), id)
    } else if t.last().0 == id {
        t.len() - 1
    } else {
        -1
    }
}

proof fn lemma_help_index(t: Seq<HelpView>, id: Seq<char>)
    ensures
        -1 <= help_index(t, id) < t.len(),
        help_index(t, id) >= 0 ==> t[help_index(t, id)].0 == id,
        forall|j: int| 0 <= j < t.len() && (j < help_index(t, id) || help_index(t, id) < 0) ==> t[j].0 != id,
    decreases t.len(),
{
    if t.len() > 0 {
        lemma_help_index(t.drop_last(), id);
        assert forall|j: int| 0 <= j < t.len() - 1 implies t.drop_last()[j] == t[j] by {}
    }
}

/// Help for a setting id, or none for settings without a runtime effect and
/// unknown ids.
pub fn for_id(id: &str) -> (h: Option<SettingHelp>)
    ensures
        match h {
            Some(e) => help_index(help_table(), id@) >= 0 && help_view(e) == help_table()[help_index(help_table(), id@)],
            None => help_index(help_table(), id@) < 0,
        },
{
    let entries = all();
    let key = chars_of(id);
    let ghost t = help_table();
    proof {
        lemma_help_index(t, id@);
    }
    let mut i: usize = 0;
    while i < entries.len()
        invariant
            i <= entries.len(),
            key@ == id@,
            entries@.map_values(|h: SettingHelp| help_view(h)) == t,
            t == help_table(),
            forall|j: int| 0 <= j < i ==> t[j].0 != id@,
        decreases entries.len() - i,
    {
        if chars_eq(&key, entries[i].id) {
            proof {
                lemma_help_index(t, id@);
                assert(t[i as int] == help_view(entries@[i as int]));
                let f = help_index(t, id@);
                if f >= 0 && f < i {
                    assert(t[f].0 != id@);
                }
                if f < 0 || f > i {
                    assert(t[i as int].0 != id@);
                }
            }
            return Some(entries[i]);
        }
        proof {
            assert(t[i as int] == help_view(entries@[i as int]));
        }
        i = i + 1;
    }
    proof {
        lemma_help_index(t, id@);
        let f = help_index(t, id@);
        if f >= 0 {
            assert(t[f].0 != id@);
        }
    }
    None
}

} // verus!
