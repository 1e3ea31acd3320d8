//! What reading back the tables a configuration writes gives: the same
//! configuration, or the one check its values fail.
use vstd::prelude::*;
use crate::config::{
    action_named, action_text, key_named, law_key_name_round_trips, no_dups, rgb_of, string_map, validation,
    Config, ConfigErrorView, ConfigView, hex_digits, hex_pair,
};
use crate::configfile::{
    bank_ok, initial_entries, initial_pairs, key_names, keys_named, mouse_entries, mouse_pairs,
    raw_config, raw_describes, rgb_text, RawConfig, default_config_view, with_settings, with_grid,
    with_bank, with_geometry, with_theme, with_layers,
};
use crate::grid::{GridView, simple_grid, dense_grid};
use crate::keys::{Action, KeyMap, LogicalKey, lemma_ordinal_injective, KEY_COUNT};
use crate::text::{hex2, hex_char, hex_value, lower};

verus! {

/// Actions a configuration file can name.
pub open spec fn is_named_action(a: Action) -> bool {
    match a {
        Action::MoveTo(_, _) | Action::ClickAt(_, _) | Action::DragTo(_, _) | Action::DragEnd => false,
        _ => true,
    }
}

pub proof fn lemma_action_name_round_trips(a: Action)
    requires
        is_named_action(a),
    ensures
        action_named(action_text(a)) == Some(a),
        lower(action_text(a)) != "initial"@,
        lower(action_text(a)) != "exit"@,
{
    reveal_strlit("initial");
    reveal_strlit("exit");
    reveal_strlit("move_left");
    reveal_strlit("move_right");
    reveal_strlit("move_up");
    reveal_strlit("move_down");
    reveal_strlit("speed_down");
    reveal_strlit("speed_up");
    reveal_strlit("click_left");
    reveal_strlit("click_right");
    reveal_strlit("scroll_up");
    reveal_strlit("scroll_down");
    reveal_strlit("moveleft");
    reveal_strlit("left");
    reveal_strlit("moveright");
    reveal_strlit("right");
    reveal_strlit("moveup");
    reveal_strlit("up");
    reveal_strlit("movedown");
    reveal_strlit("down");
    reveal_strlit("speeddown");
    reveal_strlit("speedup");
    reveal_strlit("clickleft");
    reveal_strlit("click");
    reveal_strlit("clickright");
    reveal_strlit("scrollup");
    reveal_strlit("scrolldown");
    reveal_strlit("entergrid");
    reveal_strlit("grid");
    reveal_strlit("enter_grid");
    let t = action_text(a);
    assert(lower(t) =~= t);
    assert(t.len() != 7 || t[0] != 'i' || t != "initial"@);
    assert(t.len() != 4 || t[0] != 'e' || t[1] != 'x' || t != "exit"@);
    match a {
        Action::MoveLeft => {}
        Action::MoveRight => {
            assert(t != "moveright"@ || t.len() == 9);
            assert(t[4] != "move_left"@[4] || t.len() != 9);
        }
        Action::MoveUp => {}
        Action::MoveDown => {
            assert(t[5] != "move_left"@[5]);
            assert(t[4] != "moveright"@[4]);
        }
        Action::SpeedDown => {
            assert(t[4] != "move_right"@[4]);
        }
        Action::SpeedUp => {
            assert(t[0] != "moveleft"@[0]);
            assert(t[0] != "movedown"@[0]);
        }
        Action::ClickLeft => {
            assert(t[0] != "move_right"@[0]);
            assert(t[0] != "speed_down"@[0]);
        }
        Action::ClickRight => {}
        Action::ScrollUp => {
            assert(t[0] != "move_left"@[0]);
            assert(t[0] != "moveright"@[0]);
            assert(t[0] != "move_down"@[0]);
            assert(t[1] != "speeddown"@[1]);
            assert(t[1] != "clickleft"@[1]);
        }
        Action::ScrollDown => {
            assert(t[0] != "click_right"@[0]);
        }
        Action::EnterGrid => {
            assert(t[0] != "move_right"@[0]);
            assert(t[0] != "speed_down"@[0]);
            assert(t[0] != "click_left"@[0]);
            assert(t[0] != "clickright"@[0]);
            assert(t[0] != "scrolldown"@[0]);
        }
        _ => {}
    }
}

pub proof fn lemma_keys_round_trip(ks: Seq<LogicalKey>)
    ensures
        keys_named(key_names(ks)) == Ok::<Seq<LogicalKey>, ConfigErrorView>(ks),
    decreases ks.len(),
{
    if ks.len() > 0 {
        let names = key_names(ks);
        assert(names.drop_last() =~= key_names(ks.drop_last()));
        assert(names.last() == ks.last().name());
        lemma_keys_round_trip(ks.drop_last());
        law_key_name_round_trips(ks.last());
        assert(names.len() > 0);
        assert(keys_named(names.drop_last()) == Ok::<Seq<LogicalKey>, ConfigErrorView>(ks.drop_last()));
        assert(key_named(names.last()) == Some(ks.last()));
        assert(ks.drop_last().push(ks.last()) =~= ks);
        assert(keys_named(names) == Ok::<Seq<LogicalKey>, ConfigErrorView>(ks.drop_last().push(ks.last())));
    } else {
        assert(key_names(ks) =~= Seq::<Seq<char>>::empty());
        assert(ks =~= Seq::<LogicalKey>::empty());
    }
}

proof fn lemma_hex_char(d: nat)
    requires
        d < 16,
    ensures
        hex_value(hex_char(d)) == Some(d),
{
}

pub proof fn lemma_rgb_round_trip(c: (u8, u8, u8))
    ensures
        rgb_of(rgb_text(c)) == Some(c),
{
    let t = rgb_text(c);
    assert(t.len() == 6);
    assert(hex_digits(t) == t) by {
        assert(t[0] == hex_char((c.0 / 16) as nat));
    }
    lemma_hex_char((c.0 / 16) as nat);
    lemma_hex_char((c.0 % 16) as nat);
    lemma_hex_char((c.1 / 16) as nat);
    lemma_hex_char((c.1 % 16) as nat);
    lemma_hex_char((c.2 / 16) as nat);
    lemma_hex_char((c.2 % 16) as nat);
    assert(t[0] == hex_char((c.0 / 16) as nat));
    assert(t[1] == hex_char((c.0 % 16) as nat));
    assert(t[2] == hex_char((c.1 / 16) as nat));
    assert(t[3] == hex_char((c.1 % 16) as nat));
    assert(t[4] == hex_char((c.2 / 16) as nat));
    assert(t[5] == hex_char((c.2 % 16) as nat));
    assert(forall|i: int| 0 <= i < 6 ==> (#[trigger] hex_value(t[i])) is Some);
    assert(hex_pair(t, 0) == c.0);
    assert(hex_pair(t, 2) == c.1);
    assert(hex_pair(t, 4) == c.2);
}

/// The string bindings of the keys numbered below `n`.
pub open spec fn strings_below(m: KeyMap<String>, n: nat) -> Map<LogicalKey, Seq<char>> {
    Map::new(|k: LogicalKey| k.ordinal() < n && m.spec_get(k) is Some, |k: LogicalKey| m.spec_get(k)->0@)
}

/// The action bindings of the keys numbered below `n`.
pub open spec fn actions_below(m: KeyMap<Action>, n: nat) -> Map<LogicalKey, Action> {
    Map::new(|k: LogicalKey| k.ordinal() < n && m.spec_get(k) is Some, |k: LogicalKey| m.spec_get(k)->0)
}

pub proof fn lemma_initial_round_trip(m: KeyMap<String>, n: nat)
    requires
        n <= KEY_COUNT,
    ensures
        initial_entries(initial_pairs(m, n)) == Ok::<Map<LogicalKey, Seq<char>>, ConfigErrorView>(strings_below(m, n)),
    decreases n,
{
    if n == 0 {
        assert(strings_below(m, 0) =~= Map::<LogicalKey, Seq<char>>::empty());
    } else {
        lemma_initial_round_trip(m, (n - 1) as nat);
        let k = LogicalKey::from_ordinal((n - 1) as nat);
        let rest = initial_pairs(m, (n - 1) as nat);
        assert(k.ordinal() == n - 1);
        match m.spec_get(k) {
            Some(v) => {
                let ps = rest.push((k.name(), v@));
                assert(ps.drop_last() =~= rest);
                law_key_name_round_trips(k);
                assert(strings_below(m, (n - 1) as nat).insert(k, v@) =~= strings_below(m, n)) by {
                    assert forall|o: LogicalKey| #[trigger] strings_below(m, n).dom().contains(o)
                        <==> strings_below(m, (n - 1) as nat).insert(k, v@).dom().contains(o) by {
                        lemma_ordinal_injective(o, k);
                    }
                }
            }
            None => {
                assert(strings_below(m, (n - 1) as nat) =~= strings_below(m, n)) by {
                    assert forall|o: LogicalKey| #[trigger] strings_below(m, n).dom().contains(o)
                        <==> strings_below(m, (n - 1) as nat).dom().contains(o) by {
                        lemma_ordinal_injective(o, k);
                    }
                }
            }
        }
    }
}

/// Every bound action is one a file can name.
pub open spec fn named_bindings(m: KeyMap<Action>) -> bool {
    forall|k: LogicalKey| #[trigger] m.spec_get(k) matches Some(a) ==> is_named_action(a)
}

pub proof fn lemma_mouse_round_trip(m: KeyMap<Action>, n: nat)
    requires
        n <= KEY_COUNT,
        named_bindings(m),
    ensures
        mouse_entries(mouse_pairs(m, n)) == Ok::<Map<LogicalKey, Action>, ConfigErrorView>(actions_below(m, n)),
    decreases n,
{
    if n == 0 {
        assert(actions_below(m, 0) =~= Map::<LogicalKey, Action>::empty());
    } else {
        lemma_mouse_round_trip(m, (n - 1) as nat);
        let k = LogicalKey::from_ordinal((n - 1) as nat);
        let rest = mouse_pairs(m, (n - 1) as nat);
        assert(k.ordinal() == n - 1);
        match m.spec_get(k) {
            Some(a) => {
                let ps = rest.push((k.name(), action_text(a)));
                assert(ps.drop_last() =~= rest);
                law_key_name_round_trips(k);
                lemma_action_name_round_trips(a);
                assert(actions_below(m, (n - 1) as nat).insert(k, a) =~= actions_below(m, n)) by {
                    assert forall|o: LogicalKey| #[trigger] actions_below(m, n).dom().contains(o)
                        <==> actions_below(m, (n - 1) as nat).insert(k, a).dom().contains(o) by {
                        lemma_ordinal_injective(o, k);
                    }
                }
            }
            None => {
                assert(actions_below(m, (n - 1) as nat) =~= actions_below(m, n)) by {
                    assert forall|o: LogicalKey| #[trigger] actions_below(m, n).dom().contains(o)
                        <==> actions_below(m, (n - 1) as nat).dom().contains(o) by {
                        lemma_ordinal_injective(o, k);
                    }
                }
            }
        }
    }
}

pub proof fn lemma_all_keys(m: KeyMap<String>, a: KeyMap<Action>)
    ensures
        strings_below(m, KEY_COUNT as nat) == string_map(m),
        actions_below(a, KEY_COUNT as nat) == a.view_map(),
{
    assert forall|k: LogicalKey| #[trigger] string_map(m).dom().contains(k)
        <==> strings_below(m, KEY_COUNT as nat).dom().contains(k) by {
        lemma_ordinal_injective(k, k);
    }
    assert(strings_below(m, KEY_COUNT as nat) =~= string_map(m));
    assert forall|k: LogicalKey| #[trigger] a.view_map().dom().contains(k)
        <==> actions_below(a, KEY_COUNT as nat).dom().contains(k) by {
        lemma_ordinal_injective(k, k);
    }
    assert(actions_below(a, KEY_COUNT as nat) =~= a.view_map());
}


/// The checks the file reader makes of the settings and the grid all pass.
pub open spec fn reader_checked(v: ConfigView) -> bool {
    let st = v.settings;
    let g = v.grid;
    &&& st.start_speed_px_s != 0 && st.ramp_ms != 0 && st.hold_ms != 0 && st.scroll_step > 0
    &&& st.max_speed_px_s >= st.start_speed_px_s
    &&& g.rows != 0 && g.cols != 0 && g.rows * g.cols <= u32::MAX
    &&& g.keys.len() == g.rows * g.cols && no_dups(g.keys)
}

/// A configuration that passes `validate` passes the file reader's checks.
pub proof fn lemma_validated_reader_checked(c: Config)
    requires
        validation(c) is Ok,
    ensures
        reader_checked(c@),
{
}

/// The error a dense layout's outer label bank gets when it is not usable.
pub open spec fn bank_error() -> ConfigErrorView {
    ConfigErrorView::InvalidGridLayout("selection keys must be nonempty, unique printable keys"@)
}

/// The grid the file reader gives back for a checked grid: the bank and
/// nudge checks only it makes, then the grid with the outer banks emptied
/// for the simple layout.
pub open spec fn grid_reread(g: GridView) -> Result<GridView, ConfigErrorView> {
    if g.dense && !bank_ok(g.column_keys) {
        Err(bank_error())
    } else if g.dense && !bank_ok(g.row_keys) {
        Err(bank_error())
    } else if g.nudge_step_px <= 0 {
        Err(ConfigErrorView::InvalidNudgeStep)
    } else {
        Ok(GridView {
            column_keys: if g.dense { g.column_keys } else { Seq::empty() },
            row_keys: if g.dense { g.row_keys } else { Seq::empty() },
            ..g
        })
    }
}

/// What reading back the tables of a checked configuration gives: the checks
/// only the file reader makes, in its order, then the configuration itself.
pub open spec fn reread(v: ConfigView) -> Result<ConfigView, ConfigErrorView> {
    match grid_reread(v.grid) {
        Err(e) => Err(e),
        Ok(g) => if !(1 <= v.theme.label_size <= 8) {
            Err(ConfigErrorView::InvalidTheme("label_size must be 1-8"@))
        } else {
            Ok(ConfigView { grid: g, ..v })
        },
    }
}

proof fn lemma_grid_read_back(c: Config, r: RawConfig, cv: ConfigView)
    requires
        raw_describes(r, c),
        reader_checked(c@),
    ensures
        with_grid(cv, r.grid->0) == match grid_reread(c@.grid) {
            Ok(g) => Ok::<ConfigView, ConfigErrorView>(ConfigView { grid: g, ..cv }),
            Err(e) => Err(e),
        },
{
    reveal_strlit("dense");
    reveal_strlit("simple");
    lemma_keys_round_trip(c.grid.keys@);
    lemma_keys_round_trip(c.grid.column_keys@);
    lemma_keys_round_trip(c.grid.row_keys@);
    assert(key_names(c.grid.keys@).len() == c.grid.keys@.len());
    let v = c@;
    let g = r.grid->0;
    let dense = c.grid.dense;
    let base = if dense { dense_grid() } else { simple_grid() };
    let g1 = if dense { GridView { column_keys: v.grid.column_keys, ..base } } else { base };
    let g2 = if dense { GridView { row_keys: v.grid.row_keys, ..g1 } } else { g1 };
    let g3 = GridView {
        rows: c.grid.rows,
        cols: c.grid.cols,
        keys: v.grid.keys,
        auto_free_mode_after_move: c.grid.auto_free_mode_after_move,
        nudge_enabled: c.grid.nudge_enabled,
        nudge_step_px: c.grid.nudge_step_px,
        drag_after_select: c.grid.drag_after_select,
        ..g2
    };
    assert(crate::configfile::opt_str(g.layout) == Some(if dense { "dense"@ } else { "simple"@ }));
    assert(dense ==> "dense"@ == "dense"@);
    assert("simple"@.len() == 6);
    assert("dense"@.len() == 5);
    assert(!dense ==> "simple"@ != "dense"@);
    let b0: Result<GridView, ConfigErrorView> = Ok(base);
    assert(match crate::configfile::opt_str(g.layout) {
        None => Ok(cv.grid),
        Some(l) => if l == "dense"@ {
            Ok(dense_grid())
        } else if l == "simple"@ {
            Ok(simple_grid())
        } else {
            Err(ConfigErrorView::InvalidGridLayout(l))
        },
    } == b0);
    if dense && !bank_ok(v.grid.column_keys) {
        assert(with_bank(base, crate::configfile::opt_strs(g.column_keys), true) == Err::<GridView, ConfigErrorView>(bank_error()));
    } else {
        assert(with_bank(base, crate::configfile::opt_strs(g.column_keys), true) == Ok::<GridView, ConfigErrorView>(g1));
        if dense && !bank_ok(v.grid.row_keys) {
            assert(with_bank(g1, crate::configfile::opt_strs(g.row_keys), false) == Err::<GridView, ConfigErrorView>(bank_error()));
        } else {
            assert(with_bank(g1, crate::configfile::opt_strs(g.row_keys), false) == Ok::<GridView, ConfigErrorView>(g2));
            if c.grid.nudge_step_px <= 0 {
                assert(with_geometry(g2, g) == Err::<GridView, ConfigErrorView>(ConfigErrorView::InvalidNudgeStep));
            } else {
                assert(with_geometry(g2, g) == Ok::<GridView, ConfigErrorView>(g3));
                assert(grid_reread(v.grid) == Ok::<GridView, ConfigErrorView>(g3));
                assert(with_grid(cv, g) == Ok::<ConfigView, ConfigErrorView>(ConfigView { grid: g3, ..cv }));
            }
        }
    }
}

proof fn lemma_theme_read_back(c: Config, r: RawConfig, cv: ConfigView)
    requires
        raw_describes(r, c),
    ensures
        with_theme(cv, r.theme->0) == if !(1 <= c.theme.label_size <= 8) {
            Err::<ConfigView, ConfigErrorView>(ConfigErrorView::InvalidTheme("label_size must be 1-8"@))
        } else {
            Ok(ConfigView { theme: c.theme, ..cv })
        },
{
    lemma_rgb_round_trip(c.theme.panel);
    lemma_rgb_round_trip(c.theme.border);
    lemma_rgb_round_trip(c.theme.highlight);
    lemma_rgb_round_trip(c.theme.label);
    lemma_rgb_round_trip(c.theme.pointer);
}

proof fn lemma_layers_read_back(c: Config, r: RawConfig, cv: ConfigView)
    requires
        raw_describes(r, c),
        named_bindings(c.mouse_bindings),
    ensures
        with_layers(cv, r.layers->0) == Ok::<ConfigView, ConfigErrorView>(ConfigView {
            initial_bindings: c@.initial_bindings,
            mouse_bindings: c@.mouse_bindings,
            ..cv
        }),
{
    lemma_initial_round_trip(c.initial_bindings, KEY_COUNT as nat);
    lemma_mouse_round_trip(c.mouse_bindings, KEY_COUNT as nat);
    lemma_all_keys(c.initial_bindings, c.mouse_bindings);
}

/// Reading back the tables a checked configuration writes gives `reread` of it.
pub proof fn lemma_read_back(c: Config, r: RawConfig)
    requires
        raw_describes(r, c),
        reader_checked(c@),
        named_bindings(c.mouse_bindings),
    ensures
        raw_config(r) == reread(c@),
{
    law_key_name_round_trips(c.settings.leader);
    let v = c@;
    let d = default_config_view();
    let c1 = ConfigView { enabled: c.enabled, practice_completed_version: c.practice_completed_version, ..d };
    let st = r.settings->0;
    let c2 = ConfigView { settings: c.settings, ..c1 };
    assert(with_settings(c1, st) == Ok::<ConfigView, ConfigErrorView>(c2));
    lemma_grid_read_back(c, r, c2);
    match grid_reread(v.grid) {
        Err(e) => {}
        Ok(g) => {
            let c3 = ConfigView { grid: g, ..c2 };
            lemma_theme_read_back(c, r, c3);
            if 1 <= c.theme.label_size <= 8 {
                let c4 = ConfigView { theme: c.theme, ..c3 };
                lemma_layers_read_back(c, r, c4);
                assert(reread(v) == Ok::<ConfigView, ConfigErrorView>(ConfigView {
                    initial_bindings: v.initial_bindings,
                    mouse_bindings: v.mouse_bindings,
                    ..c4
                }));
            }
        }
    }
}


/// A configuration the file format carries without loss.
pub open spec fn exportable(c: Config) -> bool {
    &&& validation(c) is Ok
    &&& named_bindings(c.mouse_bindings)
    &&& c.grid.dense ==> bank_ok(c.grid.column_keys@) && bank_ok(c.grid.row_keys@)
    &&& !c.grid.dense ==> c.grid.column_keys@.len() == 0 && c.grid.row_keys@.len() == 0
    &&& c.grid.nudge_step_px > 0
    &&& 1 <= c.theme.label_size <= 8
}

/// Export then import is lossless: the tables a configuration writes read
/// back as exactly that configuration.
pub proof fn law_export_import(c: Config, r: RawConfig)
    requires
        raw_describes(r, c),
        exportable(c),
    ensures
        raw_config(r) == Ok::<ConfigView, ConfigErrorView>(c@),
{
    lemma_validated_reader_checked(c);
    lemma_read_back(c, r);
    let v = c@;
    assert(v.grid.column_keys =~= (if v.grid.dense { v.grid.column_keys } else { Seq::<LogicalKey>::empty() }));
    assert(v.grid.row_keys =~= (if v.grid.dense { v.grid.row_keys } else { Seq::<LogicalKey>::empty() }));
}


/// The grid facts the file format carries: the reader's grid checks, usable
/// outer banks on the dense layout and none on the simple one, and a
/// positive nudge step.
pub open spec fn grid_carried(g: GridView) -> bool {
    &&& g.rows != 0 && g.cols != 0 && g.rows * g.cols <= u32::MAX
    &&& g.keys.len() == g.rows * g.cols && no_dups(g.keys)
    &&& g.dense ==> bank_ok(g.column_keys) && bank_ok(g.row_keys)
    &&& !g.dense ==> g.column_keys.len() == 0 && g.row_keys.len() == 0
    &&& g.nudge_step_px > 0
}

/// What every configuration the file reader gives back satisfies.
pub open spec fn carried(v: ConfigView) -> bool {
    &&& reader_checked(v)
    &&& grid_carried(v.grid)
    &&& forall|k: LogicalKey| #[trigger] v.mouse_bindings.dom().contains(k) ==> is_named_action(v.mouse_bindings[k])
    &&& 1 <= v.theme.label_size <= 8
}

proof fn lemma_qwerty_banks()
    ensures
        bank_ok(crate::grid::qwerty_keys()),
        bank_ok(crate::grid::home_row_keys()),
{
    let q = crate::grid::qwerty_keys();
    let h = crate::grid::home_row_keys();
    assert forall|i: int, j: int| 0 <= i < j < q.len() implies q[i] != q[j] by {
        lemma_ordinal_injective(q[i], q[j]);
    }
    assert forall|i: int, j: int| 0 <= i < j < h.len() implies h[i] != h[j] by {
        lemma_ordinal_injective(h[i], h[j]);
    }
}

proof fn lemma_default_carried()
    ensures
        carried(default_config_view()),
        grid_carried(simple_grid()),
{
    lemma_qwerty_banks();
    let s = crate::grid::simple_keys();
    assert forall|i: int, j: int| 0 <= i < j < s.len() implies s[i] != s[j] by {
        lemma_ordinal_injective(s[i], s[j]);
    }
}

proof fn lemma_mouse_entries_named(es: Seq<(Seq<char>, Seq<char>)>)
    requires
        mouse_entries(es) is Ok,
    ensures
        forall|k: LogicalKey| #[trigger] (mouse_entries(es)->Ok_0).dom().contains(k)
            ==> is_named_action((mouse_entries(es)->Ok_0)[k]),
    decreases es.len(),
{
    if es.len() > 0 {
        lemma_mouse_entries_named(es.drop_last());
    }
}

/// Every configuration the file reader gives back carries what the format
/// needs to read it back.
pub proof fn lemma_import_carried(r: RawConfig)
    requires
        raw_config(r) is Ok,
    ensures
        carried(raw_config(r)->Ok_0),
{
    lemma_default_carried();
    let d = default_config_view();
    let c1 = ConfigView {
        enabled: crate::configfile::unwrap_or(r.enabled, true),
        practice_completed_version: crate::configfile::unwrap_or(r.practice_completed_version, 0u32),
        ..d
    };
    let c2 = match r.settings {
        None => c1,
        Some(st) => with_settings(c1, st)->Ok_0,
    };
    let c3 = match r.grid {
        None => c2,
        Some(g) => with_grid(c2, g)->Ok_0,
    };
    assert(grid_carried(c3.grid));
    let c4 = match r.theme {
        None => c3,
        Some(t) => with_theme(c3, t)->Ok_0,
    };
    assert(1 <= c4.theme.label_size <= 8);
    match r.layers {
        None => {}
        Some(l) => {
            match crate::configfile::opt_pairs(l.mouse) {
                None => {}
                Some(es) => lemma_mouse_entries_named(es),
            }
        }
    }
}

/// Export then import gives back every configuration import produces: the
/// tables such a configuration writes read back as exactly it.
pub proof fn law_reimport(r: RawConfig, c: Config, r2: RawConfig)
    requires
        raw_config(r) == Ok::<ConfigView, ConfigErrorView>(c@),
        raw_describes(r2, c),
    ensures
        raw_config(r2) == Ok::<ConfigView, ConfigErrorView>(c@),
{
    lemma_import_carried(r);
    assert forall|k: LogicalKey| #[trigger] c.mouse_bindings.spec_get(k) is Some
        implies is_named_action(c.mouse_bindings.spec_get(k)->0) by {
        assert(c@.mouse_bindings.dom().contains(k));
    }
    assert(named_bindings(c.mouse_bindings));
    lemma_read_back(c, r2);
    let v = c@;
    assert(v.grid.column_keys =~= (if v.grid.dense { v.grid.column_keys } else { Seq::<LogicalKey>::empty() }));
    assert(v.grid.row_keys =~= (if v.grid.dense { v.grid.row_keys } else { Seq::<LogicalKey>::empty() }));
}

} // verus!
