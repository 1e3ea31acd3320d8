//! The settings card model: the shared setting descriptors bound to the
//! editor's draft, and the fold of live card values back into form fields.
use vstd::prelude::*;
use crate::numtext::{is_space_exec, trim, trim_chars};
use crate::settings_editor::{fields_from_config, fields_of, FieldsView, Fields, SettingsEditor};
use crate::settings_model::{
    descriptor_table, page_order, settings_for, DescriptorView, SettingsPage,
};
use crate::text::{chars_eq, chars_of, dec, push_char, push_dec, push_str, string_of};
use crate::configfile::{pair_seq, str_seq};
use vstd::string::StringExecFns;
use vstd::string::StrSliceExecFns;

verus! {

/// One settings card: model metadata plus the current draft value.
#[derive(Debug, Clone, PartialEq, Eq)]
pub struct CardRow {
    pub key: &'static str,
    pub title: &'static str,
    pub description: &'static str,
    pub value: String,
}

pub open spec fn on_off(b: bool) -> Seq<char> {
    if b { "On"@ } else { "Off"@ }
}

/// The draft value a card shows for a model key; unknown keys show nothing.
pub open spec fn draft_text(f: FieldsView, key: Seq<char>) -> Seq<char> {
    if key == "enabled"@ {
        on_off(f.enabled)
    } else if key == "leader"@ {
        f.leader
    } else if key == "hold_ms"@ {
        f.hold_ms
    } else if key == "start_speed"@ {
        f.start_speed_px_s
    } else if key == "max_speed"@ {
        f.max_speed_px_s
    } else if key == "ramp_ms"@ {
        f.ramp_ms
    } else if key == "layout"@ {
        f.layout
    } else if key == "nested_size"@ {
        f.grid_rows + " x "@ + f.grid_cols
    } else if key == "nudge_enabled"@ {
        on_off(f.nudge_enabled)
    } else if key == "mouse_bindings"@ {
        dec(f.mouse_bindings.len() as int) + " bindings"@
    } else if key == "color_panel"@ {
        f.panel
    } else if key == "color_label"@ {
        f.label
    } else if key == "about"@ {
        "Clickless v0.1.0"@
    } else {
        Seq::empty()
    }
}

fn on_off_exec(b: bool) -> (s: String)
    ensures
        s@ == on_off(b),
{
    String::from_str(if b { "On" } else { "Off" })
}

fn copy_string(s: &String) -> (c: String)
    ensures
        c@ == s@,
{
    string_of(&chars_of(s.as_str()))
}

fn draft_value(f: &Fields, key: &str) -> (s: String)
    ensures
        s@ == draft_text(f@, key@),
{
    let k = chars_of(key);
    if chars_eq(&k, "enabled") {
        on_off_exec(f.enabled)
    } else if chars_eq(&k, "leader") {
        copy_string(&f.leader)
    } else if chars_eq(&k, "hold_ms") {
        copy_string(&f.hold_ms)
    } else if chars_eq(&k, "start_speed") {
        copy_string(&f.start_speed_px_s)
    } else if chars_eq(&k, "max_speed") {
        copy_string(&f.max_speed_px_s)
    } else if chars_eq(&k, "ramp_ms") {
        copy_string(&f.ramp_ms)
    } else if chars_eq(&k, "layout") {
        copy_string(&f.layout)
    } else if chars_eq(&k, "nested_size") {
        let mut s = copy_string(&f.grid_rows);
        push_str(&mut s, " x ");
        push_str(&mut s, f.grid_cols.as_str());
        s
    } else if chars_eq(&k, "nudge_enabled") {
        on_off_exec(f.nudge_enabled)
    } else if chars_eq(&k, "mouse_bindings") {
        let mut s = String::new();
        push_dec(&mut s, f.mouse_bindings.len() as i128);
        push_str(&mut s, " bindings");
        proof {
            assert(pair_seq(f.mouse_bindings).len() == f.mouse_bindings@.len());
            assert(s@ =~= dec(f.mouse_bindings@.len() as int) + " bindings"@);
        }
        s
    } else if chars_eq(&k, "color_panel") {
        copy_string(&f.panel)
    } else if chars_eq(&k, "color_label") {
        copy_string(&f.label)
    } else if chars_eq(&k, "about") {
        String::from_str("Clickless v0.1.0")
    } else {
        proof {
            reveal_strlit("");
        }
        String::new()
    }
}

/// A row's texts as characters.
pub open spec fn row_view(r: CardRow) -> (Seq<char>, Seq<char>, Seq<char>, Seq<char>) {
    (r.key@, r.title@, r.description@, r.value@)
}

/// The card a descriptor gives: its key, title and description, and the draft value.
pub open spec fn card_view(f: FieldsView, d: DescriptorView) -> (Seq<char>, Seq<char>, Seq<char>, Seq<char>) {
    (d.0, d.2, d.3, draft_text(f, d.0))
}

pub open spec fn rows_of(f: FieldsView, t: Seq<DescriptorView>) -> Seq<(Seq<char>, Seq<char>, Seq<char>, Seq<char>)> {
    t.map_values(|d: DescriptorView| card_view(f, d))
}

/// The cards of a page: each descriptor of the page with the draft value it shows.
pub open spec fn page_rows(f: FieldsView, page: SettingsPage) -> Seq<(Seq<char>, Seq<char>, Seq<char>, Seq<char>)> {
    rows_of(f, crate::settings_model::page_table(page))
}

/// Binds one page of the shared model to the editor draft.
pub fn card_rows(editor: &SettingsEditor, page: SettingsPage) -> (v: Vec<CardRow>)
    ensures
        v@.map_values(|r: CardRow| row_view(r)) == page_rows(fields_of(editor@.draft), page),
{
    let fields = fields_from_config(editor.draft());
    let ds = settings_for(page);
    let ghost table = crate::settings_model::page_table(page);
    let mut v: Vec<CardRow> = Vec::new();
    let mut i: usize = 0;
    while i < ds.len()
        invariant
            i <= ds@.len(),
            fields@ == fields_of(editor@.draft),
            ds@.map_values(|d: crate::settings_model::SettingDescriptor| crate::settings_model::descriptor_view(d)) == table,
            table == crate::settings_model::page_table(page),
            v@.map_values(|r: CardRow| row_view(r)) == rows_of(fields@, table.take(i as int)),
        decreases ds@.len() - i,
    {
        let d = ds[i];
        let ghost before = v@;
        let row = CardRow { key: d.key, title: d.title, description: d.description, value: draft_value(&fields, d.key) };
        proof {
            assert(table.len() == ds@.len());
            assert(table[i as int] == crate::settings_model::descriptor_view(ds@[i as int]));
            assert(row_view(row) == card_view(fields@, table[i as int]));
        }
        v.push(row);
        proof {
            assert(v@.map_values(|r: CardRow| row_view(r)) =~= before.map_values(|r: CardRow| row_view(r)).push(
                row_view(row)));
            assert(rows_of(fields@, table.take(i + 1)) =~= rows_of(fields@, table.take(i as int)).push(
                card_view(fields@, table[i as int])));
        }
        i = i + 1;
    }
    proof {
        assert(table.take(ds@.len() as int) =~= table);
    }
    v
}

/// Sidebar selection to page; an index outside the sidebar falls back to General.
pub fn page_for_index(index: i32) -> (p: SettingsPage)
    ensures
        p == if 0 <= index < page_order().len() { page_order()[index as int] } else { SettingsPage::General },
{
    let all = SettingsPage::all();
    if index >= 0 && (index as usize) < all.len() {
        all[index as usize]
    } else {
        SettingsPage::General
    }
}

/// One live card control, as read back from the host.
#[derive(Debug, Clone, PartialEq, Eq)]
pub enum DraftValue {
    Flag(bool),
    Text(String),
    /// Index into the layout choices: 0 dense, 1 simple.
    Choice(usize),
}

pub enum DraftValueView {
    Flag(bool),
    Text(Seq<char>),
    Choice(usize),
}

impl View for DraftValue {
    type V = DraftValueView;

    open spec fn view(&self) -> DraftValueView {
        match self {
            DraftValue::Flag(b) => DraftValueView::Flag(*b),
            DraftValue::Text(s) => DraftValueView::Text(s@),
            DraftValue::Choice(i) => DraftValueView::Choice(*i),
        }
    }
}

/// The draft value behind a layout choice.
pub open spec fn choice_value(i: usize) -> Option<Seq<char>> {
    if i == 0 {
        Some("dense"@)
    } else if i == 1 {
        Some("simple"@)
    } else {
        None
    }
}

/// Whether a character separates the rows from the columns of a size.
pub open spec fn is_size_separator(c: char) -> bool {
    c == 'x' || c == '\u{d7}'
}

/// The pieces of a text between separators.
pub open spec fn size_parts(s: Seq<char>) -> Seq<Seq<char>>
    decreases s.len(),
{
    if s.len() == 0 {
        seq![Seq::empty()]
    } else {
        let p = size_parts(s.drop_last());
        if is_size_separator(s.last()) {
            p.push(Seq::empty())
        } else {
            p.update(p.len() - 1, p.last().push(s.last()))
        }
    }
}

proof fn lemma_size_parts_nonempty(s: Seq<char>)
    ensures
        size_parts(s).len() >= 1,
    decreases s.len(),
{
    if s.len() > 0 {
        lemma_size_parts_nonempty(s.drop_last());
    }
}

/// A `rows x cols` size: exactly two pieces, neither blank.
pub open spec fn split_size(text: Seq<char>) -> Result<(Seq<char>, Seq<char>), Seq<char>> {
    let parts = size_parts(text);
    if parts.len() == 2 && trim(parts[0]).len() > 0 && trim(parts[1]).len() > 0 {
        Ok((trim(parts[0]), trim(parts[1])))
    } else {
        Err("Subgrid size: write \"3 x 10\", not \""@ + text + "\""@)
    }
}

/// One card value folded into the form fields.
pub open spec fn fold_one(f: FieldsView, key: Seq<char>, v: DraftValueView) -> Result<FieldsView, Seq<char>> {
    match v {
        DraftValueView::Flag(on) => if key == "enabled"@ {
            Ok(FieldsView { enabled: on, ..f })
        } else if key == "nudge_enabled"@ {
            Ok(FieldsView { nudge_enabled: on, ..f })
        } else {
            Ok(f)
        },
        DraftValueView::Text(t) => if key == "leader"@ {
            Ok(FieldsView { leader: trim(t), ..f })
        } else if key == "hold_ms"@ {
            Ok(FieldsView { hold_ms: trim(t), ..f })
        } else if key == "start_speed"@ {
            Ok(FieldsView { start_speed_px_s: trim(t), ..f })
        } else if key == "max_speed"@ {
            Ok(FieldsView { max_speed_px_s: trim(t), ..f })
        } else if key == "ramp_ms"@ {
            Ok(FieldsView { ramp_ms: trim(t), ..f })
        } else if key == "color_panel"@ {
            Ok(FieldsView { panel: trim(t), ..f })
        } else if key == "color_label"@ {
            Ok(FieldsView { label: trim(t), ..f })
        } else if key == "nested_size"@ {
            match split_size(t) {
                Ok((rows, cols)) => Ok(FieldsView { grid_rows: rows, grid_cols: cols, ..f }),
                Err(e) => Err(e),
            }
        } else {
            Ok(f)
        },
        DraftValueView::Choice(i) => if key == "layout"@ {
            match choice_value(i) {
                Some(l) => Ok(FieldsView { layout: l, ..f }),
                None => Err("Grid style: no option "@ + dec(i as int)),
            }
        } else {
            Ok(f)
        },
    }
}

/// Card values folded into the form fields in order; the first malformed one is the error.
pub open spec fn fold_draft(f: FieldsView, vs: Seq<(Seq<char>, DraftValueView)>) -> Result<FieldsView, Seq<char>>
    decreases vs.len(),
{
    if vs.len() == 0 {
        Ok(f)
    } else {
        match fold_draft(f, vs.drop_last()) {
            Err(e) => Err(e),
            Ok(g) => fold_one(g, vs.last().0, vs.last().1),
        }
    }
}

/// Card values as characters.
pub open spec fn values_view(vs: Seq<(&'static str, DraftValue)>) -> Seq<(Seq<char>, DraftValueView)> {
    vs.map_values(|p: (&'static str, DraftValue)| (p.0@, p.1@))
}

proof fn lemma_fold_prefix_err(f: FieldsView, s: Seq<(Seq<char>, DraftValueView)>, n: int)
    requires
        0 <= n <= s.len(),
        fold_draft(f, s.take(n)) is Err,
    ensures
        fold_draft(f, s) == fold_draft(f, s.take(n)),
    decreases s.len() - n,
{
    if n < s.len() {
        assert(s.take(n + 1).drop_last() =~= s.take(n));
        lemma_fold_prefix_err(f, s, n + 1);
    } else {
        assert(s.take(n) =~= s);
    }
}

fn trimmed_string(s: &String) -> (t: String)
    ensures
        t@ == trim(s@),
{
    string_of(&trim_chars(&chars_of(s.as_str())))
}

fn copy_strings(v: &Vec<String>) -> (c: Vec<String>)
    ensures
        str_seq(c) == str_seq(*v),
{
    let mut c: Vec<String> = Vec::new();
    let mut i: usize = 0;
    while i < v.len()
        invariant
            i <= v@.len(),
            c@.len() == i,
            forall|j: int| 0 <= j < i ==> #[trigger] c@[j]@ == v@[j]@,
        decreases v@.len() - i,
    {
        c.push(copy_string(&v[i]));
        i = i + 1;
    }
    proof {
        assert(str_seq(c) =~= str_seq(*v));
    }
    c
}

fn copy_pairs(v: &Vec<(String, String)>) -> (c: Vec<(String, String)>)
    ensures
        pair_seq(c) == pair_seq(*v),
{
    let mut c: Vec<(String, String)> = Vec::new();
    let mut i: usize = 0;
    while i < v.len()
        invariant
            i <= v@.len(),
            pair_seq(c) == pair_seq(*v).take(i as int),
        decreases v@.len() - i,
    {
        let ghost before = c;
        let p = (copy_string(&v[i].0), copy_string(&v[i].1));
        c.push(p);
        proof {
            assert(pair_seq(c) =~= pair_seq(before).push((v@[i as int].0@, v@[i as int].1@)));
            assert(pair_seq(*v).take(i + 1) =~= pair_seq(*v).take(i as int).push((v@[i as int].0@, v@[i as int].1@)));
        }
        i = i + 1;
    }
    proof {
        assert(pair_seq(*v).take(v@.len() as int) =~= pair_seq(*v));
    }
    c
}

/// A value-by-value copy of the form fields.
pub fn copy_fields(f: &Fields) -> (c: Fields)
    ensures
        c@ == f@,
{
    Fields {
        enabled: f.enabled,
        leader: copy_string(&f.leader),
        start_speed_px_s: copy_string(&f.start_speed_px_s),
        max_speed_px_s: copy_string(&f.max_speed_px_s),
        ramp_ms: copy_string(&f.ramp_ms),
        hold_ms: copy_string(&f.hold_ms),
        scroll_step: copy_string(&f.scroll_step),
        layout: copy_string(&f.layout),
        mouse_bindings: copy_pairs(&f.mouse_bindings),
        grid_rows: copy_string(&f.grid_rows),
        grid_cols: copy_string(&f.grid_cols),
        grid_keys: copy_strings(&f.grid_keys),
        column_keys: copy_strings(&f.column_keys),
        row_keys: copy_strings(&f.row_keys),
        nudge_enabled: f.nudge_enabled,
        nudge_step_px: copy_string(&f.nudge_step_px),
        drag_after_select: f.drag_after_select,
        auto_free_mode: f.auto_free_mode,
        panel: copy_string(&f.panel),
        panel_opacity: copy_string(&f.panel_opacity),
        border: copy_string(&f.border),
        highlight_opacity: copy_string(&f.highlight_opacity),
        border_px: copy_string(&f.border_px),
        highlight: copy_string(&f.highlight),
        label: copy_string(&f.label),
        pointer: copy_string(&f.pointer),
        label_size: copy_string(&f.label_size),
    }
}


pub open spec fn parts_view(v: Seq<Vec<char>>) -> Seq<Seq<char>> {
    v.map_values(|p: Vec<char>| p@)
}

fn size_parts_exec(chars: &Vec<char>) -> (parts: Vec<Vec<char>>)
    ensures
        parts_view(parts@) == size_parts(chars@),
{
    let mut parts: Vec<Vec<char>> = Vec::new();
    parts.push(Vec::new());
    let mut i: usize = 0;
    proof {
        assert(chars@.take(0) =~= Seq::<char>::empty());
        assert(parts_view(parts@) =~= seq![Seq::<char>::empty()]);
    }
    while i < chars.len()
        invariant
            i <= chars@.len(),
            parts@.len() >= 1,
            parts_view(parts@) == size_parts(chars@.take(i as int)),
        decreases chars@.len() - i,
    {
        let c = chars[i];
        let ghost before = parts@;
        proof {
            assert(chars@.take(i + 1).drop_last() =~= chars@.take(i as int));
            assert(chars@.take(i + 1).last() == c);
        }
        if c == 'x' || c == '\u{d7}' {
            parts.push(Vec::new());
            proof {
                assert(parts_view(parts@) =~= parts_view(before).push(Seq::<char>::empty()));
            }
        } else {
            let mut last = parts.pop().unwrap();
            last.push(c);
            parts.push(last);
            proof {
                assert(parts_view(parts@) =~= parts_view(before).update(before.len() - 1,
                    parts_view(before).last().push(c)));
            }
        }
        i = i + 1;
    }
    proof {
        assert(chars@.take(chars@.len() as int) =~= chars@);
    }
    parts
}

fn split_subgrid(text: &String) -> (r: Result<(String, String), String>)
    ensures
        match split_size(text@) {
            Ok((a, b)) => r matches Ok((x, y)) && x@ == a && y@ == b,
            Err(m) => r matches Err(e) && e@ == m,
        },
{
    let parts = size_parts_exec(&chars_of(text.as_str()));
    if parts.len() == 2 {
        let a = trim_chars(&parts[0]);
        let b = trim_chars(&parts[1]);
        proof {
            assert(parts_view(parts@)[0] == parts@[0]@);
            assert(parts_view(parts@)[1] == parts@[1]@);
        }
        if a.len() > 0 && b.len() > 0 {
            return Ok((string_of(&a), string_of(&b)));
        }
    }
    let mut m = String::from_str("Subgrid size: write ");
    push_char(&mut m, '"');
    push_str(&mut m, "3 x 10");
    push_char(&mut m, '"');
    push_str(&mut m, ", not ");
    push_char(&mut m, '"');
    push_str(&mut m, text.as_str());
    push_char(&mut m, '"');
    proof {
        reveal_strlit("Subgrid size: write \"3 x 10\", not \"");
        reveal_strlit("Subgrid size: write ");
        reveal_strlit("3 x 10");
        reveal_strlit(", not ");
        reveal_strlit("\"");
        assert(m@ =~= "Subgrid size: write \"3 x 10\", not \""@ + text@ + "\""@);
    }
    Err(m)
}

fn fold_one_exec(f: &mut Fields, key: &str, v: &DraftValue) -> (r: Result<(), String>)
    ensures
        match fold_one(old(f)@, key@, v@) {
            Ok(g) => r is Ok && final(f)@ == g,
            Err(m) => r matches Err(e) && e@ == m,
        },
{
    let k = chars_of(key);
    match v {
        DraftValue::Flag(on) => {
            if chars_eq(&k, "enabled") {
                f.enabled = *on;
            } else if chars_eq(&k, "nudge_enabled") {
                f.nudge_enabled = *on;
            }
            Ok(())
        }
        DraftValue::Text(t) => {
            if chars_eq(&k, "leader") {
                f.leader = trimmed_string(t);
            } else if chars_eq(&k, "hold_ms") {
                f.hold_ms = trimmed_string(t);
            } else if chars_eq(&k, "start_speed") {
                f.start_speed_px_s = trimmed_string(t);
            } else if chars_eq(&k, "max_speed") {
                f.max_speed_px_s = trimmed_string(t);
            } else if chars_eq(&k, "ramp_ms") {
                f.ramp_ms = trimmed_string(t);
            } else if chars_eq(&k, "color_panel") {
                f.panel = trimmed_string(t);
            } else if chars_eq(&k, "color_label") {
                f.label = trimmed_string(t);
            } else if chars_eq(&k, "nested_size") {
                let (rows, cols) = split_subgrid(t)?;
                f.grid_rows = rows;
                f.grid_cols = cols;
            }
            Ok(())
        }
        DraftValue::Choice(i) => {
            if chars_eq(&k, "layout") {
                if *i == 0 {
                    f.layout = String::from_str("dense");
                } else if *i == 1 {
                    f.layout = String::from_str("simple");
                } else {
                    let mut m = String::from_str("Grid style: no option ");
                    push_dec(&mut m, *i as i128);
                    proof {
                        assert(m@ =~= "Grid style: no option "@ + dec(*i as int));
                    }
                    return Err(m);
                }
            }
            Ok(())
        }
    }
}

/// Folds live card values, in order, into a copy of `base`; fields without a
/// card keep their saved value. A malformed value names its field and no
/// fields come back.
pub fn fields_with_draft(base: &Fields, values: &Vec<(&'static str, DraftValue)>) -> (r: Result<Fields, String>)
    ensures
        match fold_draft(base@, values_view(values@)) {
            Ok(g) => r matches Ok(f) && f@ == g,
            Err(m) => r matches Err(e) && e@ == m,
        },
{
    let ghost all = values_view(values@);
    let mut fields = copy_fields(base);
    let mut i: usize = 0;
    proof {
        assert(all.take(0) =~= Seq::<(Seq<char>, DraftValueView)>::empty());
    }
    while i < values.len()
        invariant
            i <= values@.len(),
            all == values_view(values@),
            fold_draft(base@, all.take(i as int)) == Ok::<FieldsView, Seq<char>>(fields@),
        decreases values@.len() - i,
    {
        proof {
            assert(all.take(i + 1).drop_last() =~= all.take(i as int));
            assert(all.take(i + 1).last() == (values@[i as int].0@, values@[i as int].1@));
        }
        match fold_one_exec(&mut fields, values[i].0, &values[i].1) {
            Ok(()) => {}
            Err(e) => {
                proof {
                    lemma_fold_prefix_err(base@, all, i + 1);
                }
                return Err(e);
            }
        }
        i = i + 1;
    }
    proof {
        assert(all.take(values@.len() as int) =~= all);
    }
    Ok(fields)
}

} // verus!
