//! The configuration file: the raw tables a TOML document holds, how they
//! become a checked `Config`, the tables a `Config` writes back, and its TOML
//! text.
use vstd::prelude::*;
use crate::config::{
    action_named, action_text, key_named, no_dups, parse_action, parse_hex_rgb, parse_logical_key,
    rgb_of, string_map, Config, ConfigError, ConfigErrorView, ConfigView, Settings, ThemeConfig,
    is_default_config,
};
use crate::grid::{GridConfig, GridView, dense_grid, simple_grid};
use crate::keys::{Action, KeyMap, LogicalKey, lemma_ordinal_injective, KEY_COUNT};
use crate::text::{chars_eq, chars_of, lower, lower_chars};
use vstd::string::StringExecFns;

verus! {

#[derive(Debug, Clone, Default, PartialEq, Eq)]
pub struct RawSettings {
    pub leader: Option<String>,
    pub start_speed_px_s: Option<u64>,
    pub max_speed_px_s: Option<u64>,
    pub ramp_ms: Option<u64>,
    pub hold_ms: Option<u64>,
    pub scroll_step: Option<i64>,
}

#[derive(Debug, Clone, Default, PartialEq, Eq)]
pub struct RawGrid {
    pub layout: Option<String>,
    pub column_keys: Option<Vec<String>>,
    pub row_keys: Option<Vec<String>>,
    pub rows: Option<u32>,
    pub cols: Option<u32>,
    pub keys: Option<Vec<String>>,
    pub auto_free_mode_after_move: Option<bool>,
    pub nudge_enabled: Option<bool>,
    pub nudge_step_px: Option<i64>,
    pub drag_after_select: Option<bool>,
}

#[derive(Debug, Clone, Default, PartialEq, Eq)]
pub struct RawTheme {
    pub panel: Option<String>,
    pub panel_opacity: Option<u16>,
    pub border: Option<String>,
    pub highlight_opacity: Option<u16>,
    pub border_px: Option<i64>,
    pub highlight: Option<String>,
    pub label: Option<String>,
    pub pointer: Option<String>,
    pub label_size: Option<i64>,
}

/// Layer tables as (key name, value) entries, in document order.
#[derive(Debug, Clone, Default, PartialEq, Eq)]
pub struct RawLayers {
    pub initial: Option<Vec<(String, String)>>,
    pub mouse: Option<Vec<(String, String)>>,
}

/// What a configuration document holds before it is checked.
#[derive(Debug, Clone, Default, PartialEq, Eq)]
pub struct RawConfig {
    pub enabled: Option<bool>,
    pub practice_completed_version: Option<u32>,
    pub settings: Option<RawSettings>,
    pub grid: Option<RawGrid>,
    pub theme: Option<RawTheme>,
    pub layers: Option<RawLayers>,
}

pub open spec fn opt_str(o: Option<String>) -> Option<Seq<char>> {
    match o {
        Some(s) => Some(s@),
        None => None,
    }
}

pub open spec fn str_seq(v: Vec<String>) -> Seq<Seq<char>> {
    v@.map_values(|s: String| s@)
}

pub open spec fn opt_strs(o: Option<Vec<String>>) -> Option<Seq<Seq<char>>> {
    match o {
        Some(v) => Some(str_seq(v)),
        None => None,
    }
}

pub open spec fn pair_seq(v: Vec<(String, String)>) -> Seq<(Seq<char>, Seq<char>)> {
    v@.map_values(|p: (String, String)| (p.0@, p.1@))
}

pub open spec fn opt_pairs(o: Option<Vec<(String, String)>>) -> Option<Seq<(Seq<char>, Seq<char>)>> {
    match o {
        Some(v) => Some(pair_seq(v)),
        None => None,
    }
}

/// The keys a list of names denotes; the first unknown name is the error.
pub open spec fn keys_named(names: Seq<Seq<char>>) -> Result<Seq<LogicalKey>, ConfigErrorView>
    decreases names.len(),
{
    if names.len() == 0 {
        Ok(Seq::empty())
    } else {
        match keys_named(names.drop_last()) {
            Err(e) => Err(e),
            Ok(ks) => match key_named(names.last()) {
                Some(k) => Ok(ks.push(k)),
                None => Err(ConfigErrorView::UnknownKey(names.last())),
            },
        }
    }
}

pub(crate) fn parse_keys(names: &Vec<String>) -> (r: Result<Vec<LogicalKey>, ConfigError>)
    ensures
        match keys_named(str_seq(*names)) {
            Ok(ks) => r matches Ok(v) && v@ == ks,
            Err(e) => r matches Err(x) && x@ == e,
        },
{
    let ghost all = str_seq(*names);
    let mut out: Vec<LogicalKey> = Vec::new();
    let mut i: usize = 0;
    while i < names.len()
        invariant
            i <= names.len(),
            all == str_seq(*names),
            keys_named(all.take(i as int)) == Ok::<Seq<LogicalKey>, ConfigErrorView>(out@),
        decreases names.len() - i,
    {
        proof {
            assert(all.take(i as int + 1).drop_last() =~= all.take(i as int));
            assert(all.take(i as int + 1).last() == names@[i as int]@);
        }
        match parse_logical_key(names[i].as_str()) {
            Ok(k) => out.push(k),
            Err(e) => {
                proof {
                    assert(keys_named(all.take(i as int + 1)) is Err);
                    lemma_keys_named_prefix_err(all, i as int + 1);
                }
                return Err(e);
            }
        }
        i = i + 1;
    }
    proof {
        assert(all.take(i as int) =~= all);
    }
    Ok(out)
}

/// An error on a prefix is the error of the whole list.
proof fn lemma_keys_named_prefix_err(s: Seq<Seq<char>>, n: int)
    requires
        0 <= n <= s.len(),
        keys_named(s.take(n)) is Err,
    ensures
        keys_named(s) == keys_named(s.take(n)),
    decreases s.len() - n,
{
    if n < s.len() {
        assert(s.take(n + 1).drop_last() =~= s.take(n));
        lemma_keys_named_prefix_err(s, n + 1);
    } else {
        assert(s.take(n) =~= s);
    }
}


pub open spec fn unwrap_or<T>(o: Option<T>, d: T) -> T {
    match o {
        Some(v) => v,
        None => d,
    }
}

/// The factory configuration's content.
pub open spec fn default_config_view() -> ConfigView {
    ConfigView {
        enabled: true,
        settings: Settings {
            leader: LogicalKey::CapsLock,
            start_speed_px_s: 300,
            max_speed_px_s: 3000,
            ramp_ms: 500,
            hold_ms: 200,
            scroll_step: 1,
        },
        grid: dense_grid(),
        theme: crate::config::default_theme(),
        initial_bindings: map![LogicalKey::CapsLock => "mouse"@],
        mouse_bindings: Map::new(
            |k: LogicalKey| crate::keys::spec_default_binding(k) is Some,
            |k: LogicalKey| crate::keys::spec_default_binding(k)->0,
        ),
        practice_completed_version: 0,
    }
}

pub proof fn lemma_default_view(c: Config)
    requires
        is_default_config(c),
    ensures
        c@ == default_config_view(),
{
    assert(c@.initial_bindings =~= default_config_view().initial_bindings) by {
        assert forall|k: LogicalKey| #[trigger] c@.initial_bindings.dom().contains(k)
            <==> default_config_view().initial_bindings.dom().contains(k) by {
            assert(crate::config::string_binding(c.initial_bindings, k)
                == (if k == LogicalKey::CapsLock { Some("mouse"@) } else { None::<Seq<char>> }));
        }
        assert forall|k: LogicalKey| #[trigger] c@.initial_bindings.dom().contains(k)
            implies c@.initial_bindings[k] == default_config_view().initial_bindings[k] by {
            assert(crate::config::string_binding(c.initial_bindings, k)
                == (if k == LogicalKey::CapsLock { Some("mouse"@) } else { None::<Seq<char>> }));
        }
    }
    assert(c@.mouse_bindings =~= default_config_view().mouse_bindings);
}

/// The `[settings]` table applied over a configuration, checked in field order.
pub open spec fn with_settings(c: ConfigView, s: RawSettings) -> Result<ConfigView, ConfigErrorView> {
    let st = c.settings;
    let leader = match opt_str(s.leader) {
        None => Ok(st.leader),
        Some(n) => match key_named(n) {
            Some(k) => Ok(k),
            None => Err(ConfigErrorView::UnknownKey(n)),
        },
    };
    match leader {
        Err(e) => Err(e),
        Ok(leader) => if s.start_speed_px_s == Some(0u64) {
            Err(ConfigErrorView::InvalidStartSpeed(0))
        } else if s.ramp_ms == Some(0u64) {
            Err(ConfigErrorView::InvalidRampMs(0))
        } else if s.hold_ms == Some(0u64) {
            Err(ConfigErrorView::InvalidHoldMs(0))
        } else if s.scroll_step matches Some(v) && v <= 0 {
            Err(ConfigErrorView::InvalidScrollStep(s.scroll_step->0))
        } else {
            Ok(ConfigView {
                settings: Settings {
                    leader,
                    start_speed_px_s: unwrap_or(s.start_speed_px_s, st.start_speed_px_s),
                    max_speed_px_s: unwrap_or(s.max_speed_px_s, st.max_speed_px_s),
                    ramp_ms: unwrap_or(s.ramp_ms, st.ramp_ms),
                    hold_ms: unwrap_or(s.hold_ms, st.hold_ms),
                    scroll_step: unwrap_or(s.scroll_step, st.scroll_step),
                },
                ..c
            })
        },
    }
}

fn apply_settings(c: &mut Config, s: &RawSettings) -> (r: Result<(), ConfigError>)
    ensures
        match with_settings(old(c)@, *s) {
            Ok(v) => r is Ok && final(c)@ == v,
            Err(e) => r matches Err(x) && x@ == e,
        },
{
    let leader = match &s.leader {
        Some(n) => parse_logical_key(n.as_str())?,
        None => c.settings.leader,
    };
    if let Some(v) = s.start_speed_px_s {
        if v == 0 {
            return Err(ConfigError::InvalidStartSpeed(0));
        }
    }
    if let Some(v) = s.ramp_ms {
        if v == 0 {
            return Err(ConfigError::InvalidRampMs(0));
        }
    }
    if let Some(v) = s.hold_ms {
        if v == 0 {
            return Err(ConfigError::InvalidHoldMs(0));
        }
    }
    if let Some(v) = s.scroll_step {
        if v <= 0 {
            return Err(ConfigError::InvalidScrollStep(v));
        }
    }
    c.settings.leader = leader;
    if let Some(v) = s.start_speed_px_s {
        c.settings.start_speed_px_s = v;
    }
    if let Some(v) = s.max_speed_px_s {
        c.settings.max_speed_px_s = v;
    }
    if let Some(v) = s.ramp_ms {
        c.settings.ramp_ms = v;
    }
    if let Some(v) = s.hold_ms {
        c.settings.hold_ms = v;
    }
    if let Some(v) = s.scroll_step {
        c.settings.scroll_step = v;
    }
    Ok(())
}


/// An outer label bank the dense layout can use: nonempty, unique, one
/// printable character per key.
pub open spec fn bank_ok(b: Seq<LogicalKey>) -> bool {
    &&& b.len() > 0
    &&& forall|i: int| 0 <= i < b.len() ==> (#[trigger] b[i]).name().len() == 1
    &&& no_dups(b)
}

/// One outer label bank from the `[grid]` table, then its dense-layout check.
pub open spec fn with_bank(g: GridView, names: Option<Seq<Seq<char>>>, column: bool) -> Result<GridView, ConfigErrorView> {
    let parsed = match names {
        None => Ok(g),
        Some(ns) => if !g.dense {
            Err(ConfigErrorView::InvalidGridLayout("selection keys require dense layout"@))
        } else {
            match keys_named(ns) {
                Err(e) => Err(e),
                Ok(ks) => Ok(if column { GridView { column_keys: ks, ..g } } else { GridView { row_keys: ks, ..g } }),
            }
        },
    };
    match parsed {
        Err(e) => Err(e),
        Ok(g2) => if g2.dense && !bank_ok(if column { g2.column_keys } else { g2.row_keys }) {
            Err(ConfigErrorView::InvalidGridLayout("selection keys must be nonempty, unique printable keys"@))
        } else {
            Ok(g2)
        },
    }
}

/// The `[grid]` table after the layout and banks: geometry, keys and flags.
pub open spec fn with_geometry(g: GridView, r: RawGrid) -> Result<GridView, ConfigErrorView> {
    let rows = unwrap_or(r.rows, g.rows);
    let cols = unwrap_or(r.cols, g.cols);
    if rows == 0 || cols == 0 {
        Err(ConfigErrorView::InvalidGridDimensions(rows, cols))
    } else if rows * cols > u32::MAX {
        Err(ConfigErrorView::GridDimensionsOverflow(rows, cols))
    } else {
        let expected = rows * cols;
        let keys = match opt_strs(r.keys) {
            None => Ok(g.keys),
            Some(names) => if names.len() != expected {
                Err(ConfigErrorView::InvalidGridKeyCount(names.len() as usize, expected as usize))
            } else {
                keys_named(names)
            },
        };
        match keys {
            Err(e) => Err(e),
            Ok(keys) => if keys.len() != expected {
                Err(ConfigErrorView::InvalidGridKeyCount(keys.len() as usize, expected as usize))
            } else if !no_dups(keys) {
                Err(ConfigErrorView::DuplicateGridKey)
            } else if r.nudge_step_px matches Some(v) && v <= 0 {
                Err(ConfigErrorView::InvalidNudgeStep)
            } else {
                Ok(GridView {
                    rows,
                    cols,
                    keys,
                    auto_free_mode_after_move: unwrap_or(r.auto_free_mode_after_move, g.auto_free_mode_after_move),
                    nudge_enabled: unwrap_or(r.nudge_enabled, g.nudge_enabled),
                    nudge_step_px: unwrap_or(r.nudge_step_px, g.nudge_step_px),
                    drag_after_select: unwrap_or(r.drag_after_select, g.drag_after_select),
                    ..g
                })
            },
        }
    }
}

/// The `[grid]` table applied over a configuration.
pub open spec fn with_grid(c: ConfigView, r: RawGrid) -> Result<ConfigView, ConfigErrorView> {
    let base = match opt_str(r.layout) {
        None => Ok(c.grid),
        Some(l) => if l == "dense"@ {
            Ok(dense_grid())
        } else if l == "simple"@ {
            Ok(simple_grid())
        } else {
            Err(ConfigErrorView::InvalidGridLayout(l))
        },
    };
    match base {
        Err(e) => Err(e),
        Ok(g0) => match with_bank(g0, opt_strs(r.column_keys), true) {
            Err(e) => Err(e),
            Ok(g1) => match with_bank(g1, opt_strs(r.row_keys), false) {
                Err(e) => Err(e),
                Ok(g2) => match with_geometry(g2, r) {
                    Err(e) => Err(e),
                    Ok(g3) => Ok(ConfigView { grid: g3, ..c }),
                },
            },
        },
    }
}

fn has_dup_keys(v: &Vec<LogicalKey>) -> (r: bool)
    ensures
        r == !no_dups(v@),
{
    let mut i: usize = 0;
    while i < v.len()
        invariant
            i <= v.len(),
            forall|a: int, b: int| 0 <= a < i && a < b < v@.len() ==> v@[a] != v@[b],
        decreases v.len() - i,
    {
        let mut j: usize = i + 1;
        while j < v.len()
            invariant
                i < v.len(),
                i + 1 <= j <= v.len(),
                forall|a: int, b: int| 0 <= a < i && a < b < v@.len() ==> v@[a] != v@[b],
                forall|b: int| i < b < j ==> v@[i as int] != v@[b],
            decreases v.len() - j,
        {
            if v[i] == v[j] {
                return true;
            }
            j = j + 1;
        }
        i = i + 1;
    }
    false
}

fn bank_ok_exec(b: &Vec<LogicalKey>) -> (r: bool)
    ensures
        r == bank_ok(b@),
{
    if b.len() == 0 {
        return false;
    }
    let mut i: usize = 0;
    while i < b.len()
        invariant
            i <= b.len(),
            forall|j: int| 0 <= j < i ==> (#[trigger] b@[j]).name().len() == 1,
        decreases b.len() - i,
    {
        if chars_of(b[i].label()).len() != 1 {
            return false;
        }
        i = i + 1;
    }
    !has_dup_keys(b)
}

fn apply_bank(g: &mut GridConfig, names: &Option<Vec<String>>, column: bool) -> (r: Result<(), ConfigError>)
    ensures
        match with_bank(old(g)@, opt_strs(*names), column) {
            Ok(v) => r is Ok && final(g)@ == v,
            Err(e) => r matches Err(x) && x@ == e,
        },
{
    if let Some(ns) = names {
        if !g.dense {
            return Err(ConfigError::InvalidGridLayout(String::from_str("selection keys require dense layout")));
        }
        let keys = parse_keys(ns)?;
        if column {
            g.column_keys = keys;
        } else {
            g.row_keys = keys;
        }
    }
    if g.dense {
        let ok = if column { bank_ok_exec(&g.column_keys) } else { bank_ok_exec(&g.row_keys) };
        if !ok {
            return Err(ConfigError::InvalidGridLayout(
                String::from_str("selection keys must be nonempty, unique printable keys"),
            ));
        }
    }
    Ok(())
}

fn apply_geometry(g: &mut GridConfig, r: &RawGrid) -> (res: Result<(), ConfigError>)
    ensures
        match with_geometry(old(g)@, *r) {
            Ok(v) => res is Ok && final(g)@ == v,
            Err(e) => res matches Err(x) && x@ == e,
        },
{
    let rows = match r.rows {
        Some(v) => v,
        None => g.rows,
    };
    let cols = match r.cols {
        Some(v) => v,
        None => g.cols,
    };
    if rows == 0 || cols == 0 {
        return Err(ConfigError::InvalidGridDimensions(rows, cols));
    }
    proof {
        vstd::arithmetic::mul::lemma_mul_upper_bound(rows as int, 0xffff_ffff, cols as int, 0xffff_ffff);
    }
    let count: u64 = rows as u64 * cols as u64;
    if count > u32::MAX as u64 {
        return Err(ConfigError::GridDimensionsOverflow(rows, cols));
    }
    let expected = count as usize;
    let keys = match &r.keys {
        Some(names) => {
            if names.len() != expected {
                return Err(ConfigError::InvalidGridKeyCount(names.len(), expected));
            }
            parse_keys(names)?
        }
        None => crate::grid::copy_key_vec(&g.keys),
    };
    if keys.len() != expected {
        return Err(ConfigError::InvalidGridKeyCount(keys.len(), expected));
    }
    if has_dup_keys(&keys) {
        return Err(ConfigError::DuplicateGridKey);
    }
    if let Some(v) = r.nudge_step_px {
        if v <= 0 {
            return Err(ConfigError::InvalidNudgeStep);
        }
    }
    g.rows = rows;
    g.cols = cols;
    g.keys = keys;
    if let Some(v) = r.auto_free_mode_after_move {
        g.auto_free_mode_after_move = v;
    }
    if let Some(v) = r.nudge_enabled {
        g.nudge_enabled = v;
    }
    if let Some(v) = r.nudge_step_px {
        g.nudge_step_px = v;
    }
    if let Some(v) = r.drag_after_select {
        g.drag_after_select = v;
    }
    Ok(())
}

fn apply_grid(c: &mut Config, r: &RawGrid) -> (res: Result<(), ConfigError>)
    ensures
        match with_grid(old(c)@, *r) {
            Ok(v) => res is Ok && final(c)@ == v,
            Err(e) => res matches Err(x) && x@ == e,
        },
{
    let mut g = c.grid.duplicate();
    if let Some(l) = &r.layout {
        let lv = chars_of(l.as_str());
        if chars_eq(&lv, "dense") {
            g = GridConfig::dense();
        } else if chars_eq(&lv, "simple") {
            g = GridConfig::default();
            proof {
                assert(g@.column_keys =~= Seq::<LogicalKey>::empty());
                assert(g@.row_keys =~= Seq::<LogicalKey>::empty());
            }
        } else {
            return Err(ConfigError::InvalidGridLayout(l.clone()));
        }
    }
    proof {
        assert(g@ == match opt_str(r.layout) {
            None => c@.grid,
            Some(l) => if l == "dense"@ { dense_grid() } else { simple_grid() },
        });
    }
    apply_bank(&mut g, &r.column_keys, true)?;
    apply_bank(&mut g, &r.row_keys, false)?;
    apply_geometry(&mut g, r)?;
    c.grid = g;
    Ok(())
}


/// A colour field of the `[theme]` table: kept when absent, read when given.
pub open spec fn colour(name: Seq<char>, raw: Option<Seq<char>>, cur: (u8, u8, u8)) -> Result<(u8, u8, u8), ConfigErrorView> {
    match raw {
        None => Ok(cur),
        Some(r) => match rgb_of(r) {
            Some(v) => Ok(v),
            None => Err(ConfigErrorView::InvalidTheme(name + " = \""@ + r + "\" must be RRGGBB hex"@)),
        },
    }
}

/// The `[theme]` table applied over a configuration, checked in field order.
pub open spec fn with_theme(c: ConfigView, t: RawTheme) -> Result<ConfigView, ConfigErrorView> {
    let th = c.theme;
    match colour("panel"@, opt_str(t.panel), th.panel) {
        Err(e) => Err(e),
        Ok(panel) => match colour("border"@, opt_str(t.border), th.border) {
            Err(e) => Err(e),
            Ok(border) => match colour("highlight"@, opt_str(t.highlight), th.highlight) {
                Err(e) => Err(e),
                Ok(highlight) => if t.highlight_opacity matches Some(o) && o > 255 {
                    Err(ConfigErrorView::InvalidTheme("highlight_opacity must be 0-255"@))
                } else {
                    match colour("label"@, opt_str(t.label), th.label) {
                        Err(e) => Err(e),
                        Ok(label) => match colour("pointer"@, opt_str(t.pointer), th.pointer) {
                            Err(e) => Err(e),
                            Ok(pointer) => if t.panel_opacity matches Some(o) && o > 255 {
                                Err(ConfigErrorView::InvalidTheme("panel_opacity must be 0-255"@))
                            } else if t.label_size matches Some(z) && !(1 <= z <= 8) {
                                Err(ConfigErrorView::InvalidTheme("label_size must be 1-8"@))
                            } else {
                                Ok(ConfigView {
                                    theme: ThemeConfig {
                                        panel,
                                        panel_opacity: match t.panel_opacity {
                                            Some(o) => o as u8,
                                            None => th.panel_opacity,
                                        },
                                        border,
                                        highlight_opacity: match t.highlight_opacity {
                                            Some(o) => o as u8,
                                            None => th.highlight_opacity,
                                        },
                                        border_px: unwrap_or(t.border_px, th.border_px),
                                        highlight,
                                        label,
                                        pointer,
                                        label_size: unwrap_or(t.label_size, th.label_size),
                                    },
                                    ..c
                                })
                            },
                        },
                    }
                },
            },
        },
    }
}

fn read_colour(name: &str, raw: &Option<String>, cur: (u8, u8, u8)) -> (r: Result<(u8, u8, u8), ConfigError>)
    ensures
        match colour(name@, opt_str(*raw), cur) {
            Ok(v) => r == Ok::<(u8, u8, u8), ConfigError>(v),
            Err(e) => r matches Err(x) && x@ == e,
        },
{
    match raw {
        Some(text) => parse_hex_rgb(name, text.as_str()),
        None => Ok(cur),
    }
}

fn apply_theme(c: &mut Config, t: &RawTheme) -> (r: Result<(), ConfigError>)
    ensures
        match with_theme(old(c)@, *t) {
            Ok(v) => r is Ok && final(c)@ == v,
            Err(e) => r matches Err(x) && x@ == e,
        },
{
    let th = c.theme;
    let panel = read_colour("panel", &t.panel, th.panel)?;
    let border = read_colour("border", &t.border, th.border)?;
    let highlight = read_colour("highlight", &t.highlight, th.highlight)?;
    if let Some(o) = t.highlight_opacity {
        if o > 255 {
            return Err(ConfigError::InvalidTheme(String::from_str("highlight_opacity must be 0-255")));
        }
    }
    let label = read_colour("label", &t.label, th.label)?;
    let pointer = read_colour("pointer", &t.pointer, th.pointer)?;
    if let Some(o) = t.panel_opacity {
        if o > 255 {
            return Err(ConfigError::InvalidTheme(String::from_str("panel_opacity must be 0-255")));
        }
    }
    if let Some(z) = t.label_size {
        if !(1 <= z && z <= 8) {
            return Err(ConfigError::InvalidTheme(String::from_str("label_size must be 1-8")));
        }
    }
    c.theme = ThemeConfig {
        panel,
        panel_opacity: match t.panel_opacity {
            Some(o) => o as u8,
            None => th.panel_opacity,
        },
        border,
        highlight_opacity: match t.highlight_opacity {
            Some(o) => o as u8,
            None => th.highlight_opacity,
        },
        border_px: match t.border_px {
            Some(v) => v,
            None => th.border_px,
        },
        highlight,
        label,
        pointer,
        label_size: match t.label_size {
            Some(v) => v,
            None => th.label_size,
        },
    };
    Ok(())
}

/// The `[layers.initial]` entries: each key name read, later entries win.
pub open spec fn initial_entries(es: Seq<(Seq<char>, Seq<char>)>) -> Result<Map<LogicalKey, Seq<char>>, ConfigErrorView>
    decreases es.len(),
{
    if es.len() == 0 {
        Ok(Map::empty())
    } else {
        match initial_entries(es.drop_last()) {
            Err(e) => Err(e),
            Ok(m) => match key_named(es.last().0) {
                None => Err(ConfigErrorView::UnknownKey(es.last().0)),
                Some(k) => Ok(m.insert(k, es.last().1)),
            },
        }
    }
}

/// The `[layers.mouse]` entries: each key name and verb read; `initial` and
/// `exit` values name no action and are skipped; later entries win.
pub open spec fn mouse_entries(es: Seq<(Seq<char>, Seq<char>)>) -> Result<Map<LogicalKey, Action>, ConfigErrorView>
    decreases es.len(),
{
    if es.len() == 0 {
        Ok(Map::empty())
    } else {
        match mouse_entries(es.drop_last()) {
            Err(e) => Err(e),
            Ok(m) => match key_named(es.last().0) {
                None => Err(ConfigErrorView::UnknownKey(es.last().0)),
                Some(k) => if lower(es.last().1) == "initial"@ || lower(es.last().1) == "exit"@ {
                    Ok(m)
                } else {
                    match action_named(es.last().1) {
                        Some(a) => Ok(m.insert(k, a)),
                        None => Err(ConfigErrorView::UnknownAction(es.last().1)),
                    }
                },
            },
        }
    }
}

proof fn lemma_initial_prefix_err(s: Seq<(Seq<char>, Seq<char>)>, n: int)
    requires
        0 <= n <= s.len(),
        initial_entries(s.take(n)) is Err,
    ensures
        initial_entries(s) == initial_entries(s.take(n)),
    decreases s.len() - n,
{
    if n < s.len() {
        assert(s.take(n + 1).drop_last() =~= s.take(n));
        lemma_initial_prefix_err(s, n + 1);
    } else {
        assert(s.take(n) =~= s);
    }
}

proof fn lemma_mouse_prefix_err(s: Seq<(Seq<char>, Seq<char>)>, n: int)
    requires
        0 <= n <= s.len(),
        mouse_entries(s.take(n)) is Err,
    ensures
        mouse_entries(s) == mouse_entries(s.take(n)),
    decreases s.len() - n,
{
    if n < s.len() {
        assert(s.take(n + 1).drop_last() =~= s.take(n));
        lemma_mouse_prefix_err(s, n + 1);
    } else {
        assert(s.take(n) =~= s);
    }
}

fn read_initial(es: &Vec<(String, String)>) -> (r: Result<KeyMap<String>, ConfigError>)
    ensures
        match initial_entries(pair_seq(*es)) {
            Ok(m) => r matches Ok(km) && string_map(km) == m,
            Err(e) => r matches Err(x) && x@ == e,
        },
{
    let ghost all = pair_seq(*es);
    let mut m: KeyMap<String> = KeyMap::new();
    proof {
        assert(string_map(m) =~= Map::<LogicalKey, Seq<char>>::empty());
    }
    let mut i: usize = 0;
    while i < es.len()
        invariant
            i <= es.len(),
            all == pair_seq(*es),
            initial_entries(all.take(i as int)) == Ok::<Map<LogicalKey, Seq<char>>, ConfigErrorView>(string_map(m)),
        decreases es.len() - i,
    {
        proof {
            assert(all.take(i as int + 1).drop_last() =~= all.take(i as int));
            assert(all.take(i as int + 1).last() == (es@[i as int].0@, es@[i as int].1@));
        }
        match parse_logical_key(es[i].0.as_str()) {
            Ok(k) => {
                let ghost before = m;
                let v = es[i].1.clone();
                m.insert(k, v);
                proof {
                    assert(string_map(m) =~= string_map(before).insert(k, es@[i as int].1@));
                }
            }
            Err(e) => {
                proof {
                    lemma_initial_prefix_err(all, i as int + 1);
                }
                return Err(e);
            }
        }
        i = i + 1;
    }
    proof {
        assert(all.take(i as int) =~= all);
    }
    Ok(m)
}

fn read_mouse(es: &Vec<(String, String)>) -> (r: Result<KeyMap<Action>, ConfigError>)
    ensures
        match mouse_entries(pair_seq(*es)) {
            Ok(m) => r matches Ok(km) && km.view_map() == m,
            Err(e) => r matches Err(x) && x@ == e,
        },
{
    let ghost all = pair_seq(*es);
    let mut m: KeyMap<Action> = KeyMap::new();
    proof {
        assert(m.view_map() =~= Map::<LogicalKey, Action>::empty());
    }
    let mut i: usize = 0;
    while i < es.len()
        invariant
            i <= es.len(),
            all == pair_seq(*es),
            mouse_entries(all.take(i as int)) == Ok::<Map<LogicalKey, Action>, ConfigErrorView>(m.view_map()),
        decreases es.len() - i,
    {
        proof {
            assert(all.take(i as int + 1).drop_last() =~= all.take(i as int));
            assert(all.take(i as int + 1).last() == (es@[i as int].0@, es@[i as int].1@));
        }
        let k = match parse_logical_key(es[i].0.as_str()) {
            Ok(k) => k,
            Err(e) => {
                proof {
                    lemma_mouse_prefix_err(all, i as int + 1);
                }
                return Err(e);
            }
        };
        let value = lower_chars(&chars_of(es[i].1.as_str()));
        if !(chars_eq(&value, "initial") || chars_eq(&value, "exit")) {
            match parse_action(es[i].1.as_str()) {
                Ok(a) => {
                    let ghost before = m;
                    m.insert(k, a);
                    proof {
                        assert(m.view_map() =~= before.view_map().insert(k, a));
                    }
                }
                Err(e) => {
                    proof {
                        lemma_mouse_prefix_err(all, i as int + 1);
                    }
                    return Err(e);
                }
            }
        }
        i = i + 1;
    }
    proof {
        assert(all.take(i as int) =~= all);
    }
    Ok(m)
}

/// The `[layers]` tables applied over a configuration.
pub open spec fn with_layers(c: ConfigView, l: RawLayers) -> Result<ConfigView, ConfigErrorView> {
    let initial = match opt_pairs(l.initial) {
        None => Ok(c.initial_bindings),
        Some(es) => initial_entries(es),
    };
    match initial {
        Err(e) => Err(e),
        Ok(initial) => {
            let mouse = match opt_pairs(l.mouse) {
                None => Ok(c.mouse_bindings),
                Some(es) => mouse_entries(es),
            };
            match mouse {
                Err(e) => Err(e),
                Ok(mouse) => Ok(ConfigView { initial_bindings: initial, mouse_bindings: mouse, ..c }),
            }
        }
    }
}

fn apply_layers(c: &mut Config, l: &RawLayers) -> (r: Result<(), ConfigError>)
    ensures
        match with_layers(old(c)@, *l) {
            Ok(v) => r is Ok && final(c)@ == v,
            Err(e) => r matches Err(x) && x@ == e,
        },
{
    if let Some(es) = &l.initial {
        let m = read_initial(es)?;
        c.initial_bindings = m;
    }
    if let Some(es) = &l.mouse {
        let m = read_mouse(es)?;
        c.mouse_bindings = m;
    }
    Ok(())
}

/// The configuration a document's tables give, or the first error, in the
/// order settings, speed pair, grid, theme, layers. Absent tables and fields
/// keep the factory values.
pub open spec fn raw_config(r: RawConfig) -> Result<ConfigView, ConfigErrorView> {
    let d = default_config_view();
    let c1 = ConfigView {
        enabled: unwrap_or(r.enabled, true),
        practice_completed_version: unwrap_or(r.practice_completed_version, 0u32),
        ..d
    };
    let c2 = match r.settings {
        None => Ok(c1),
        Some(s) => with_settings(c1, s),
    };
    match c2 {
        Err(e) => Err(e),
        Ok(c2) => if c2.settings.max_speed_px_s < c2.settings.start_speed_px_s {
            Err(ConfigErrorView::InvalidMaxSpeed(c2.settings.max_speed_px_s, c2.settings.start_speed_px_s))
        } else {
            let c3 = match r.grid {
                None => Ok(c2),
                Some(g) => with_grid(c2, g),
            };
            match c3 {
                Err(e) => Err(e),
                Ok(c3) => {
                    let c4 = match r.theme {
                        None => Ok(c3),
                        Some(t) => with_theme(c3, t),
                    };
                    match c4 {
                        Err(e) => Err(e),
                        Ok(c4) => match r.layers {
                            None => Ok(c4),
                            Some(l) => with_layers(c4, l),
                        },
                    }
                }
            }
        },
    }
}

impl Config {
    /// The configuration a document's tables describe: factory values for
    /// whatever is absent, each given field read and checked.
    pub fn from_raw(raw: &RawConfig) -> (r: Result<Config, ConfigError>)
        ensures
            match raw_config(*raw) {
                Ok(v) => r matches Ok(c) && c@ == v,
                Err(e) => r matches Err(x) && x@ == e,
            },
    {
        let mut c = Config::default();
        proof {
            lemma_default_view(c);
        }
        if let Some(v) = raw.enabled {
            c.enabled = v;
        }
        if let Some(v) = raw.practice_completed_version {
            c.practice_completed_version = v;
        }
        if let Some(s) = &raw.settings {
            apply_settings(&mut c, s)?;
        }
        if c.settings.max_speed_px_s < c.settings.start_speed_px_s {
            return Err(ConfigError::InvalidMaxSpeed(c.settings.max_speed_px_s, c.settings.start_speed_px_s));
        }
        if let Some(g) = &raw.grid {
            apply_grid(&mut c, g)?;
        }
        if let Some(t) = &raw.theme {
            apply_theme(&mut c, t)?;
        }
        if let Some(l) = &raw.layers {
            apply_layers(&mut c, l)?;
        }
        Ok(c)
    }
}


/// The names of keys, as strings.
pub open spec fn key_names(ks: Seq<LogicalKey>) -> Seq<Seq<char>> {
    ks.map_values(|k: LogicalKey| k.name())
}

pub(crate) fn names_of(ks: &Vec<LogicalKey>) -> (v: Vec<String>)
    ensures
        str_seq(v) == key_names(ks@),
{
    let mut v: Vec<String> = Vec::new();
    let mut i: usize = 0;
    while i < ks.len()
        invariant
            i <= ks.len(),
            v@.len() == i,
            forall|j: int| 0 <= j < i ==> #[trigger] v@[j]@ == ks@[j].name(),
        decreases ks.len() - i,
    {
        v.push(String::from_str(ks[i].label()));
        i = i + 1;
    }
    proof {
        assert(str_seq(v) =~= key_names(ks@));
    }
    v
}

/// Layer entries of a string map, in key order.
pub open spec fn initial_pairs(m: KeyMap<String>, n: nat) -> Seq<(Seq<char>, Seq<char>)>
    decreases n,
{
    if n == 0 {
        Seq::empty()
    } else {
        let k = LogicalKey::from_ordinal((n - 1) as nat);
        let rest = initial_pairs(m, (n - 1) as nat);
        match m.spec_get(k) {
            Some(v) => rest.push((k.name(), v@)),
            None => rest,
        }
    }
}

/// Layer entries of an action map, in key order, each action by its name.
pub open spec fn mouse_pairs(m: KeyMap<Action>, n: nat) -> Seq<(Seq<char>, Seq<char>)>
    decreases n,
{
    if n == 0 {
        Seq::empty()
    } else {
        let k = LogicalKey::from_ordinal((n - 1) as nat);
        let rest = mouse_pairs(m, (n - 1) as nat);
        match m.spec_get(k) {
            Some(a) => rest.push((k.name(), action_text(a))),
            None => rest,
        }
    }
}

pub(crate) fn initial_pairs_exec(m: &KeyMap<String>) -> (v: Vec<(String, String)>)
    ensures
        pair_seq(v) == initial_pairs(*m, KEY_COUNT as nat),
{
    let mut v: Vec<(String, String)> = Vec::new();
    let mut i: usize = 0;
    while i < KEY_COUNT
        invariant
            i <= KEY_COUNT,
            pair_seq(v) == initial_pairs(*m, i as nat),
        decreases KEY_COUNT - i,
    {
        let k = LogicalKey::at_index(i);
        let ghost before = v;
        match m.slot(i) {
            Some(s) => {
                v.push((String::from_str(k.label()), s.clone()));
                proof {
                    assert(pair_seq(v) =~= pair_seq(before).push((k.name(), s@)));
                }
            }
            None => {}
        }
        i = i + 1;
    }
    v
}

pub(crate) fn mouse_pairs_exec(m: &KeyMap<Action>) -> (v: Vec<(String, String)>)
    ensures
        pair_seq(v) == mouse_pairs(*m, KEY_COUNT as nat),
{
    let mut v: Vec<(String, String)> = Vec::new();
    let mut i: usize = 0;
    while i < KEY_COUNT
        invariant
            i <= KEY_COUNT,
            pair_seq(v) == mouse_pairs(*m, i as nat),
        decreases KEY_COUNT - i,
    {
        let k = LogicalKey::at_index(i);
        let ghost before = v;
        match m.slot(i) {
            Some(a) => {
                v.push((String::from_str(k.label()), String::from_str(crate::config::action_name(*a))));
                proof {
                    assert(pair_seq(v) =~= pair_seq(before).push((k.name(), action_text(*a))));
                }
            }
            None => {}
        }
        i = i + 1;
    }
    v
}

/// The hex text of a colour.
pub open spec fn rgb_text(c: (u8, u8, u8)) -> Seq<char> {
    crate::text::hex2(c.0) + crate::text::hex2(c.1) + crate::text::hex2(c.2)
}

pub fn hex_rgb(c: (u8, u8, u8)) -> (s: String)
    ensures
        s@ == rgb_text(c),
{
    let mut s = String::new();
    crate::text::push_hex2(&mut s, c.0);
    crate::text::push_hex2(&mut s, c.1);
    crate::text::push_hex2(&mut s, c.2);
    s
}

/// The tables `to_raw` writes for a configuration: every setting, grid and
/// theme field given, the outer banks only for the dense layout, and both
/// layers' bindings in key order.
pub open spec fn raw_describes(r: RawConfig, c: Config) -> bool {
    &&& r.enabled == Some(c.enabled)
    &&& r.practice_completed_version == Some(c.practice_completed_version)
    &&& r.settings == Some(RawSettings {
        leader: r.settings->0.leader,
        start_speed_px_s: Some(c.settings.start_speed_px_s),
        max_speed_px_s: Some(c.settings.max_speed_px_s),
        ramp_ms: Some(c.settings.ramp_ms),
        hold_ms: Some(c.settings.hold_ms),
        scroll_step: Some(c.settings.scroll_step),
    })
    &&& opt_str(r.settings->0.leader) == Some(c.settings.leader.name())
    &&& r.grid matches Some(g) && {
        &&& opt_str(g.layout) == Some(if c.grid.dense { "dense"@ } else { "simple"@ })
            &&& g.rows == Some(c.grid.rows)
            &&& g.cols == Some(c.grid.cols)
            &&& opt_strs(g.keys) == Some(key_names(c.grid.keys@))
            &&& opt_strs(g.column_keys) == if c.grid.dense {
                Some(key_names(c.grid.column_keys@))
            } else {
                None::<Seq<Seq<char>>>
            }
            &&& opt_strs(g.row_keys) == if c.grid.dense {
                Some(key_names(c.grid.row_keys@))
            } else {
                None::<Seq<Seq<char>>>
            }
            &&& g.auto_free_mode_after_move == Some(c.grid.auto_free_mode_after_move)
            &&& g.nudge_enabled == Some(c.grid.nudge_enabled)
            &&& g.nudge_step_px == Some(c.grid.nudge_step_px)
            &&& g.drag_after_select == Some(c.grid.drag_after_select)
        }
    &&& r.theme matches Some(t) && {
            &&& opt_str(t.panel) == Some(rgb_text(c.theme.panel))
            &&& t.panel_opacity == Some(c.theme.panel_opacity as u16)
            &&& opt_str(t.border) == Some(rgb_text(c.theme.border))
            &&& t.highlight_opacity == Some(c.theme.highlight_opacity as u16)
            &&& t.border_px == Some(c.theme.border_px)
            &&& opt_str(t.highlight) == Some(rgb_text(c.theme.highlight))
            &&& opt_str(t.label) == Some(rgb_text(c.theme.label))
            &&& opt_str(t.pointer) == Some(rgb_text(c.theme.pointer))
            &&& t.label_size == Some(c.theme.label_size)
        }
    &&& r.layers matches Some(l) && {
            &&& opt_pairs(l.initial) == Some(initial_pairs(c.initial_bindings, KEY_COUNT as nat))
            &&& opt_pairs(l.mouse) == Some(mouse_pairs(c.mouse_bindings, KEY_COUNT as nat))
        }
}

impl Config {
    /// The tables the configuration writes: every setting, grid and theme
    /// field given, the outer banks only for the dense layout, and both
    /// layers' bindings in key order.
    pub fn to_raw(&self) -> (r: RawConfig)
        ensures
            raw_describes(r, *self),
    {
        let settings = RawSettings {
            leader: Some(String::from_str(self.settings.leader.label())),
            start_speed_px_s: Some(self.settings.start_speed_px_s),
            max_speed_px_s: Some(self.settings.max_speed_px_s),
            ramp_ms: Some(self.settings.ramp_ms),
            hold_ms: Some(self.settings.hold_ms),
            scroll_step: Some(self.settings.scroll_step),
        };
        let dense = self.grid.dense;
        let grid = RawGrid {
            layout: Some(String::from_str(if dense { "dense" } else { "simple" })),
            column_keys: if dense { Some(names_of(&self.grid.column_keys)) } else { None },
            row_keys: if dense { Some(names_of(&self.grid.row_keys)) } else { None },
            rows: Some(self.grid.rows),
            cols: Some(self.grid.cols),
            keys: Some(names_of(&self.grid.keys)),
            auto_free_mode_after_move: Some(self.grid.auto_free_mode_after_move),
            nudge_enabled: Some(self.grid.nudge_enabled),
            nudge_step_px: Some(self.grid.nudge_step_px),
            drag_after_select: Some(self.grid.drag_after_select),
        };
        let theme = RawTheme {
            panel: Some(hex_rgb(self.theme.panel)),
            panel_opacity: Some(self.theme.panel_opacity as u16),
            border: Some(hex_rgb(self.theme.border)),
            highlight_opacity: Some(self.theme.highlight_opacity as u16),
            border_px: Some(self.theme.border_px),
            highlight: Some(hex_rgb(self.theme.highlight)),
            label: Some(hex_rgb(self.theme.label)),
            pointer: Some(hex_rgb(self.theme.pointer)),
            label_size: Some(self.theme.label_size),
        };
        let layers = RawLayers {
            initial: Some(initial_pairs_exec(&self.initial_bindings)),
            mouse: Some(mouse_pairs_exec(&self.mouse_bindings)),
        };
        RawConfig {
            enabled: Some(self.enabled),
            practice_completed_version: Some(self.practice_completed_version),
            settings: Some(settings),
            grid: Some(grid),
            theme: Some(theme),
            layers: Some(layers),
        }
    }
}

} // verus!
