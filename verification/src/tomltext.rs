//! The TOML text a configuration is written as.
use vstd::prelude::*;
use crate::config::{Config, Settings, ThemeConfig};
use crate::configfile::{
    initial_pairs, initial_pairs_exec, key_names, mouse_pairs, mouse_pairs_exec, pair_seq,
    hex_rgb, rgb_text,
};
use crate::grid::GridConfig;
use crate::keys::{LogicalKey, KEY_COUNT};
use crate::text::{chars_of, dec, hex2, push_char, push_dec, push_hex2, push_str};
use vstd::string::StrSliceExecFns;
use vstd::string::StringExecFns;

verus! {

/// How a character stands inside a TOML basic string: a quote, a backslash
/// and the control characters escaped, anything else as it is.
pub open spec fn escaped_char(c: char) -> Seq<char> {
    if c == '"' {
        seq!['\\', '"']
    } else if c == '\\' {
        seq!['\\', '\\']
    } else if c == '\n' {
        seq!['\\', 'n']
    } else if c == '\t' {
        seq!['\\', 't']
    } else if c == '\r' {
        seq!['\\', 'r']
    } else if (c as u32) < 0x20 || (c as u32) == 0x7f {
        seq!['\\', 'u', '0', '0'] + hex2((c as u32) as u8)
    } else {
        seq![c]
    }
}

/// The characters of `s`, each as it stands inside a TOML basic string.
pub open spec fn escaped(s: Seq<char>) -> Seq<char>
    decreases s.len(),
{
    if s.len() == 0 {
        Seq::empty()
    } else {
        escaped(s.drop_last()) + escaped_char(s.last())
    }
}

/// A TOML basic string holding `s`.
pub open spec fn quoted(s: Seq<char>) -> Seq<char> {
    seq!['"'] + escaped(s) + seq!['"']
}

/// One `key = value` line.
pub open spec fn entry(key: Seq<char>, value: Seq<char>) -> Seq<char> {
    key + " = "@ + value + seq!['\n']
}

pub open spec fn bool_text(b: bool) -> Seq<char> {
    if b { "true"@ } else { "false"@ }
}

/// Characters a TOML bare key may hold.
pub open spec fn is_bare_char(c: char) -> bool {
    ('a' <= c <= 'z') || ('A' <= c <= 'Z') || ('0' <= c <= '9') || c == '_' || c == '-'
}

pub open spec fn is_bare(s: Seq<char>) -> bool {
    s.len() > 0 && forall|i: int| 0 <= i < s.len() ==> is_bare_char(#[trigger] s[i])
}

/// A key name as a TOML key: bare where it may be, quoted otherwise.
pub open spec fn toml_key(s: Seq<char>) -> Seq<char> {
    if is_bare(s) { s } else { quoted(s) }
}

/// Quoted names separated by `, `.
pub open spec fn joined(names: Seq<Seq<char>>) -> Seq<char>
    decreases names.len(),
{
    if names.len() == 0 {
        Seq::empty()
    } else if names.len() == 1 {
        quoted(names[0])
    } else {
        joined(names.drop_last()) + ", "@ + quoted(names.last())
    }
}

/// An array of key names.
pub open spec fn key_list(ks: Seq<LogicalKey>) -> Seq<char> {
    seq!['['] + joined(key_names(ks)) + seq![']']
}

/// One line per layer entry: the key as a TOML key, the value quoted.
pub open spec fn entries_text(ps: Seq<(Seq<char>, Seq<char>)>) -> Seq<char>
    decreases ps.len(),
{
    if ps.len() == 0 {
        Seq::empty()
    } else {
        entries_text(ps.drop_last()) + entry(toml_key(ps.last().0), quoted(ps.last().1))
    }
}

#[verifier::opaque]
pub open spec fn head_text(c: Config) -> Seq<char> {
    entry("enabled"@, bool_text(c.enabled))
        + entry("practice_completed_version"@, dec(c.practice_completed_version as int))
}

#[verifier::opaque]
pub open spec fn settings_text(s: Settings) -> Seq<char> {
    "\n[settings]\n"@
        + entry("leader"@, quoted(s.leader.name()))
        + entry("start_speed_px_s"@, dec(s.start_speed_px_s as int))
        + entry("max_speed_px_s"@, dec(s.max_speed_px_s as int))
        + entry("ramp_ms"@, dec(s.ramp_ms as int))
        + entry("hold_ms"@, dec(s.hold_ms as int))
        + entry("scroll_step"@, dec(s.scroll_step as int))
}

/// The outer label banks, written for the dense layout only.
#[verifier::opaque]
pub open spec fn banks_text(g: GridConfig) -> Seq<char> {
    if g.dense {
        entry("column_keys"@, key_list(g.column_keys@)) + entry("row_keys"@, key_list(g.row_keys@))
    } else {
        Seq::empty()
    }
}

#[verifier::opaque]
pub open spec fn grid_head_text(g: GridConfig) -> Seq<char> {
    "\n[grid]\n"@
        + entry("layout"@, quoted(if g.dense { "dense"@ } else { "simple"@ }))
        + entry("rows"@, dec(g.rows as int))
        + entry("cols"@, dec(g.cols as int))
        + entry("keys"@, key_list(g.keys@))
}

#[verifier::opaque]
pub open spec fn grid_tail_text(g: GridConfig) -> Seq<char> {
    entry("auto_free_mode_after_move"@, bool_text(g.auto_free_mode_after_move))
        + entry("nudge_enabled"@, bool_text(g.nudge_enabled))
        + entry("nudge_step_px"@, dec(g.nudge_step_px as int))
        + entry("drag_after_select"@, bool_text(g.drag_after_select))
}

/// The grid table; the outer banks come between the keys and the flags.
#[verifier::opaque]
pub open spec fn grid_text(g: GridConfig) -> Seq<char> {
    grid_head_text(g) + banks_text(g) + grid_tail_text(g)
}

pub open spec fn theme_text(t: ThemeConfig) -> Seq<char> {
    "\n[theme]\n"@
        + entry("panel"@, quoted(rgb_text(t.panel)))
        + entry("panel_opacity"@, dec(t.panel_opacity as int))
        + entry("border"@, quoted(rgb_text(t.border)))
        + entry("highlight_opacity"@, dec(t.highlight_opacity as int))
        + entry("border_px"@, dec(t.border_px as int))
        + entry("highlight"@, quoted(rgb_text(t.highlight)))
        + entry("label"@, quoted(rgb_text(t.label)))
        + entry("pointer"@, quoted(rgb_text(t.pointer)))
        + entry("label_size"@, dec(t.label_size as int))
}

#[verifier::opaque]
pub open spec fn layers_text(c: Config) -> Seq<char> {
    "\n[layers.initial]\n"@
        + entries_text(initial_pairs(c.initial_bindings, KEY_COUNT as nat))
        + "\n[layers.mouse]\n"@
        + entries_text(mouse_pairs(c.mouse_bindings, KEY_COUNT as nat))
}

/// The whole document: top-level fields, then the settings, grid, theme and
/// layer tables, bindings in key order.
pub open spec fn toml_text(c: Config) -> Seq<char> {
    head_text(c) + settings_text(c.settings) + grid_text(c.grid) + theme_text(c.theme) + layers_text(c)
}

fn push_entry_start(out: &mut String, key: &str)
    ensures
        final(out)@ == old(out)@ + key@ + " = "@,
{
    push_str(out, key);
    push_str(out, " = ");
}

fn push_entry_dec(out: &mut String, key: &str, v: i128)
    requires
        -0x1_0000_0000_0000_0000 < v < 0x1_0000_0000_0000_0000,
    ensures
        final(out)@ == old(out)@ + entry(key@, dec(v as int)),
{
    push_entry_start(out, key);
    push_dec(out, v);
    push_char(out, '\n');
    proof {
        assert(final(out)@ =~= old(out)@ + entry(key@, dec(v as int)));
    }
}

fn push_entry_bool(out: &mut String, key: &str, b: bool)
    ensures
        final(out)@ == old(out)@ + entry(key@, bool_text(b)),
{
    push_entry_start(out, key);
    if b {
        push_str(out, "true");
    } else {
        push_str(out, "false");
    }
    push_char(out, '\n');
    proof {
        assert(final(out)@ =~= old(out)@ + entry(key@, bool_text(b)));
    }
}

fn push_escaped_char(out: &mut String, c: char)
    ensures
        final(out)@ == old(out)@ + escaped_char(c),
{
    let ghost start = out@;
    if c == '"' {
        push_char(out, '\\');
        push_char(out, '"');
    } else if c == '\\' {
        push_char(out, '\\');
        push_char(out, '\\');
    } else if c == '\n' {
        push_char(out, '\\');
        push_char(out, 'n');
    } else if c == '\t' {
        push_char(out, '\\');
        push_char(out, 't');
    } else if c == '\r' {
        push_char(out, '\\');
        push_char(out, 'r');
    } else if (c as u32) < 0x20 || (c as u32) == 0x7f {
        push_char(out, '\\');
        push_char(out, 'u');
        push_char(out, '0');
        push_char(out, '0');
        push_hex2(out, (c as u32) as u8);
    } else {
        push_char(out, c);
    }
    proof {
        assert(out@ =~= start + escaped_char(c));
    }
}

fn push_quoted(out: &mut String, s: &str)
    ensures
        final(out)@ == old(out)@ + quoted(s@),
{
    let ghost start = out@;
    push_char(out, '"');
    let chars = chars_of(s);
    let mut i: usize = 0;
    while i < chars.len()
        invariant
            i <= chars@.len(),
            chars@ == s@,
            out@ == start + seq!['"'] + escaped(s@.take(i as int)),
        decreases chars.len() - i,
    {
        proof {
            let next = s@.take(i as int + 1);
            assert(next.drop_last() =~= s@.take(i as int));
            assert(next.last() == s@[i as int]);
        }
        push_escaped_char(out, chars[i]);
        i = i + 1;
    }
    proof {
        assert(s@.take(s@.len() as int) =~= s@);
    }
    push_char(out, '"');
    proof {
        assert(out@ =~= start + quoted(s@));
    }
}

fn push_entry_quoted(out: &mut String, key: &str, value: &str)
    ensures
        final(out)@ == old(out)@ + entry(key@, quoted(value@)),
{
    push_entry_start(out, key);
    push_quoted(out, value);
    push_char(out, '\n');
    proof {
        assert(final(out)@ =~= old(out)@ + entry(key@, quoted(value@)));
    }
}

fn push_entry_rgb(out: &mut String, key: &str, c: (u8, u8, u8))
    ensures
        final(out)@ == old(out)@ + entry(key@, quoted(rgb_text(c))),
{
    let hex = hex_rgb(c);
    push_entry_quoted(out, key, hex.as_str());
}

fn is_bare_char_exec(c: char) -> (b: bool)
    ensures
        b == is_bare_char(c),
{
    ('a' <= c && c <= 'z') || ('A' <= c && c <= 'Z') || ('0' <= c && c <= '9') || c == '_' || c == '-'
}

fn is_bare_exec(s: &str) -> (b: bool)
    ensures
        b == is_bare(s@),
{
    let n = s.unicode_len();
    if n == 0 {
        return false;
    }
    let mut i: usize = 0;
    while i < n
        invariant
            i <= n,
            n == s@.len(),
            forall|j: int| 0 <= j < i ==> is_bare_char(#[trigger] s@[j]),
        decreases n - i,
    {
        if !is_bare_char_exec(s.get_char(i)) {
            return false;
        }
        i = i + 1;
    }
    true
}

fn push_toml_key(out: &mut String, s: &str)
    ensures
        final(out)@ == old(out)@ + toml_key(s@),
{
    if is_bare_exec(s) {
        push_str(out, s);
    } else {
        push_quoted(out, s);
    }
}

fn push_key_list(out: &mut String, ks: &Vec<LogicalKey>)
    ensures
        final(out)@ == old(out)@ + key_list(ks@),
{
    push_char(out, '[');
    let ghost start = out@;
    let mut i: usize = 0;
    while i < ks.len()
        invariant
            i <= ks.len(),
            out@ == start + joined(key_names(ks@.subrange(0, i as int))),
        decreases ks.len() - i,
    {
        let ghost before = out@;
        if i > 0 {
            push_str(out, ", ");
        }
        push_quoted(out, ks[i].label());
        proof {
            let names = key_names(ks@.subrange(0, i + 1));
            assert(names.drop_last() =~= key_names(ks@.subrange(0, i as int)));
            assert(names.last() == ks@[i as int].name());
            if i == 0 {
                assert(names.len() == 1);
                assert(out@ =~= start + joined(names));
            } else {
                assert(out@ =~= start + joined(names));
            }
        }
        i = i + 1;
    }
    push_char(out, ']');
    proof {
        assert(ks@.subrange(0, ks@.len() as int) =~= ks@);
        assert(final(out)@ =~= old(out)@ + key_list(ks@));
    }
}

fn push_entry_keys(out: &mut String, key: &str, ks: &Vec<LogicalKey>)
    ensures
        final(out)@ == old(out)@ + entry(key@, key_list(ks@)),
{
    push_entry_start(out, key);
    push_key_list(out, ks);
    push_char(out, '\n');
    proof {
        assert(final(out)@ =~= old(out)@ + entry(key@, key_list(ks@)));
    }
}

fn push_entries(out: &mut String, ps: &Vec<(String, String)>)
    ensures
        final(out)@ == old(out)@ + entries_text(pair_seq(*ps)),
{
    let ghost start = out@;
    let mut i: usize = 0;
    while i < ps.len()
        invariant
            i <= ps.len(),
            out@ == start + entries_text(pair_seq(*ps).subrange(0, i as int)),
        decreases ps.len() - i,
    {
        let ghost before = out@;
        push_toml_key(out, ps[i].0.as_str());
        push_str(out, " = ");
        push_quoted(out, ps[i].1.as_str());
        push_char(out, '\n');
        proof {
            let sub = pair_seq(*ps).subrange(0, i + 1);
            assert(sub.drop_last() =~= pair_seq(*ps).subrange(0, i as int));
            assert(sub.last() == (ps@[i as int].0@, ps@[i as int].1@));
            assert(out@ =~= start + entries_text(sub));
        }
        i = i + 1;
    }
    proof {
        assert(pair_seq(*ps).subrange(0, ps@.len() as int) =~= pair_seq(*ps));
    }
}

fn push_settings(out: &mut String, s: &Settings)
    ensures
        final(out)@ == old(out)@ + settings_text(*s),
{
    push_str(out, "\n[settings]\n");
    push_entry_quoted(out, "leader", s.leader.label());
    push_entry_dec(out, "start_speed_px_s", s.start_speed_px_s as i128);
    push_entry_dec(out, "max_speed_px_s", s.max_speed_px_s as i128);
    push_entry_dec(out, "ramp_ms", s.ramp_ms as i128);
    push_entry_dec(out, "hold_ms", s.hold_ms as i128);
    push_entry_dec(out, "scroll_step", s.scroll_step as i128);
    proof {
        reveal(settings_text);
        assert(final(out)@ =~= old(out)@ + settings_text(*s));
    }
}

fn push_grid_head(out: &mut String, g: &GridConfig)
    ensures
        final(out)@ == old(out)@ + grid_head_text(*g),
{
    push_str(out, "\n[grid]\n");
    push_entry_quoted(out, "layout", if g.dense { "dense" } else { "simple" });
    push_entry_dec(out, "rows", g.rows as i128);
    push_entry_dec(out, "cols", g.cols as i128);
    push_entry_keys(out, "keys", &g.keys);
    proof {
        reveal(grid_head_text);
        assert(final(out)@ =~= old(out)@ + grid_head_text(*g));
    }
}

fn push_banks(out: &mut String, g: &GridConfig)
    ensures
        final(out)@ == old(out)@ + banks_text(*g),
{
    if g.dense {
        push_entry_keys(out, "column_keys", &g.column_keys);
        push_entry_keys(out, "row_keys", &g.row_keys);
    }
    proof {
        reveal(banks_text);
        assert(final(out)@ =~= old(out)@ + banks_text(*g));
    }
}

fn push_grid_tail(out: &mut String, g: &GridConfig)
    ensures
        final(out)@ == old(out)@ + grid_tail_text(*g),
{
    push_entry_bool(out, "auto_free_mode_after_move", g.auto_free_mode_after_move);
    push_entry_bool(out, "nudge_enabled", g.nudge_enabled);
    push_entry_dec(out, "nudge_step_px", g.nudge_step_px as i128);
    push_entry_bool(out, "drag_after_select", g.drag_after_select);
    proof {
        reveal(grid_tail_text);
        assert(final(out)@ =~= old(out)@ + grid_tail_text(*g));
    }
}

fn push_grid(out: &mut String, g: &GridConfig)
    ensures
        final(out)@ == old(out)@ + grid_text(*g),
{
    push_grid_head(out, g);
    push_banks(out, g);
    push_grid_tail(out, g);
    proof {
        reveal(grid_text);
        assert(final(out)@ =~= old(out)@ + grid_text(*g));
    }
}

fn push_theme(out: &mut String, t: &ThemeConfig)
    ensures
        final(out)@ == old(out)@ + theme_text(*t),
{
    push_str(out, "\n[theme]\n");
    push_entry_rgb(out, "panel", t.panel);
    push_entry_dec(out, "panel_opacity", t.panel_opacity as i128);
    push_entry_rgb(out, "border", t.border);
    push_entry_dec(out, "highlight_opacity", t.highlight_opacity as i128);
    push_entry_dec(out, "border_px", t.border_px as i128);
    push_entry_rgb(out, "highlight", t.highlight);
    push_entry_rgb(out, "label", t.label);
    push_entry_rgb(out, "pointer", t.pointer);
    push_entry_dec(out, "label_size", t.label_size as i128);
    proof {
        reveal(theme_text);
        assert(final(out)@ =~= old(out)@ + theme_text(*t));
    }
}

impl Config {
    /// The configuration as a TOML document, in the layout `toml_text` gives.
    pub fn to_toml(&self) -> (s: String)
        ensures
            s@ == toml_text(*self),
    {
        let mut out = String::new();
        push_entry_bool(&mut out, "enabled", self.enabled);
        push_entry_dec(&mut out, "practice_completed_version", self.practice_completed_version as i128);
        let ghost h = out@;
        push_settings(&mut out, &self.settings);
        push_grid(&mut out, &self.grid);
        push_theme(&mut out, &self.theme);
        let ghost l = out@;
        push_str(&mut out, "\n[layers.initial]\n");
        let initial = initial_pairs_exec(&self.initial_bindings);
        push_entries(&mut out, &initial);
        push_str(&mut out, "\n[layers.mouse]\n");
        let mouse = mouse_pairs_exec(&self.mouse_bindings);
        push_entries(&mut out, &mouse);
        proof {
            reveal(head_text);
            reveal(layers_text);
            assert(h =~= head_text(*self));
            assert(out@ =~= l + layers_text(*self));
            assert(out@ =~= toml_text(*self));
        }
        out
    }
}

} // verus!
