//! Configuration: settings, grid, theme and bindings, their names in the
//! config file, validation, and the error type.
use vstd::prelude::*;
use crate::grid::{GridConfig, GridView, dense_grid, simple_grid, qwerty_keys, home_row_keys};
use crate::keys::{
    Action, KeyMap, LogicalKey, default_bindings, lemma_name_injective, lemma_ordinal_injective,
    spec_default_binding, KEY_COUNT,
};
use crate::overlay::{OverlayTheme, BORDER_PX, HIGHLIGHT_ALPHA};
use crate::text::{
    chars_eq, chars_of, dec, hex_value, hex_value_exec, lower, lower_chars, push_dec, push_str,
    string_of,
};
use vstd::string::StringExecFns;
use vstd::arithmetic::mul::lemma_mul_upper_bound;

verus! {

#[derive(Debug, Clone, Copy, PartialEq, Eq, Structural)]
pub struct Settings {
    pub leader: LogicalKey,
    pub start_speed_px_s: u64,
    pub max_speed_px_s: u64,
    pub ramp_ms: u64,
    /// Leader hold time before pointer capture, in ms.
    pub hold_ms: u64,
    /// Scroll notches per scroll action.
    pub scroll_step: i64,
}

impl Default for Settings {
    fn default() -> (s: Self)
        ensures
            s == (Settings {
                leader: LogicalKey::CapsLock,
                start_speed_px_s: 300,
                max_speed_px_s: 3000,
                ramp_ms: 500,
                hold_ms: 200,
                scroll_step: 1,
            }),
    {
        Settings {
            leader: LogicalKey::CapsLock,
            start_speed_px_s: 300,
            max_speed_px_s: 3000,
            ramp_ms: 500,
            hold_ms: 200,
            scroll_step: 1,
        }
    }
}

/// Overlay appearance: colours as RGB triples, opacities as 0-255 alpha,
/// `border_px` grid line width, `label_size` glyph scale.
#[derive(Debug, Clone, Copy, PartialEq, Eq)]
pub struct ThemeConfig {
    pub panel: (u8, u8, u8),
    pub panel_opacity: u8,
    pub border: (u8, u8, u8),
    pub highlight_opacity: u8,
    pub border_px: i64,
    pub highlight: (u8, u8, u8),
    pub label: (u8, u8, u8),
    pub pointer: (u8, u8, u8),
    pub label_size: i64,
}

/// The factory theme: the rasterizer's own constants.
pub open spec fn default_theme() -> ThemeConfig {
    ThemeConfig {
        panel: (24, 28, 38),
        panel_opacity: 70,
        border: (100, 122, 150),
        highlight_opacity: HIGHLIGHT_ALPHA,
        border_px: BORDER_PX,
        highlight: (255, 196, 64),
        label: (240, 246, 255),
        pointer: (255, 96, 96),
        label_size: 3,
    }
}

impl Default for ThemeConfig {
    fn default() -> (t: Self)
        ensures
            t == default_theme(),
    {
        ThemeConfig {
            panel: (24, 28, 38),
            panel_opacity: 70,
            border: (100, 122, 150),
            highlight_opacity: HIGHLIGHT_ALPHA,
            border_px: BORDER_PX,
            highlight: (255, 196, 64),
            label: (240, 246, 255),
            pointer: (255, 96, 96),
            label_size: 3,
        }
    }
}

/// The rasterizer's theme for a configured theme: the same values under the
/// rasterizer's names.
pub open spec fn overlay_theme_of(t: ThemeConfig) -> OverlayTheme {
    OverlayTheme {
        panel_rgb: t.panel,
        panel_alpha: t.panel_opacity,
        border_rgb: t.border,
        border_px: t.border_px,
        highlight_rgb: t.highlight,
        highlight_alpha: t.highlight_opacity,
        label_rgb: t.label,
        pointer_rgb: t.pointer,
        glyph_scale: t.label_size,
    }
}

impl ThemeConfig {
    /// The rasterizer's theme: the same values under the rasterizer's names.
    pub fn to_overlay_theme(&self) -> (t: OverlayTheme)
        ensures
            t == overlay_theme_of(*self),
            t == (OverlayTheme {
                panel_rgb: self.panel,
                panel_alpha: self.panel_opacity,
                border_rgb: self.border,
                border_px: self.border_px,
                highlight_rgb: self.highlight,
                highlight_alpha: self.highlight_opacity,
                label_rgb: self.label,
                pointer_rgb: self.pointer,
                glyph_scale: self.label_size,
            }),
    {
        OverlayTheme {
            panel_rgb: self.panel,
            panel_alpha: self.panel_opacity,
            border_rgb: self.border,
            border_px: self.border_px,
            highlight_rgb: self.highlight,
            highlight_alpha: self.highlight_opacity,
            label_rgb: self.label,
            pointer_rgb: self.pointer,
            glyph_scale: self.label_size,
        }
    }
}

#[derive(Debug, Clone, PartialEq, Eq)]
pub struct Config {
    pub enabled: bool,
    pub settings: Settings,
    pub grid: GridConfig,
    pub theme: ThemeConfig,
    pub initial_bindings: KeyMap<String>,
    pub mouse_bindings: KeyMap<Action>,
    /// First-run practice completion mark; 0 means never completed.
    pub practice_completed_version: u32,
}

/// The abstract content of a configuration.
pub struct ConfigView {
    pub enabled: bool,
    pub settings: Settings,
    pub grid: GridView,
    pub theme: ThemeConfig,
    pub initial_bindings: Map<LogicalKey, Seq<char>>,
    pub mouse_bindings: Map<LogicalKey, Action>,
    pub practice_completed_version: u32,
}

/// The bindings of a key map of strings, as characters.
pub open spec fn string_map(m: KeyMap<String>) -> Map<LogicalKey, Seq<char>> {
    Map::new(|k: LogicalKey| m.spec_get(k) is Some, |k: LogicalKey| m.spec_get(k)->0@)
}

impl View for Config {
    type V = ConfigView;

    open spec fn view(&self) -> ConfigView {
        ConfigView {
            enabled: self.enabled,
            settings: self.settings,
            grid: self.grid@,
            theme: self.theme,
            initial_bindings: string_map(self.initial_bindings),
            mouse_bindings: self.mouse_bindings.view_map(),
            practice_completed_version: self.practice_completed_version,
        }
    }
}

impl Config {
    /// The two configurations hold the same values.
    pub open spec fn same(self, other: Config) -> bool {
        &&& self.enabled == other.enabled
        &&& self.settings == other.settings
        &&& self.grid.same(other.grid)
        &&& self.theme == other.theme
        &&& forall|k: LogicalKey| #[trigger] self.mouse_bindings.spec_get(k) == other.mouse_bindings.spec_get(k)
        &&& forall|k: LogicalKey| #[trigger] string_binding(self.initial_bindings, k) == string_binding(other.initial_bindings, k)
        &&& self.practice_completed_version == other.practice_completed_version
    }
}

/// The characters bound to `k`, if any.
pub open spec fn string_binding(m: KeyMap<String>, k: LogicalKey) -> Option<Seq<char>> {
    match m.spec_get(k) {
        Some(s) => Some(s@),
        None => None,
    }
}

/// The factory configuration: enabled, dense grid, factory bindings, CapsLock
/// switching the initial layer to the pointer layer.
pub open spec fn is_default_config(c: Config) -> bool {
    &&& c.enabled
    &&& c.settings == (Settings {
        leader: LogicalKey::CapsLock,
        start_speed_px_s: 300,
        max_speed_px_s: 3000,
        ramp_ms: 500,
        hold_ms: 200,
        scroll_step: 1,
    })
    &&& c.grid.rows == 3 && c.grid.cols == 10 && c.grid.keys@ == qwerty_keys()
    &&& !c.grid.auto_free_mode_after_move && c.grid.nudge_enabled && c.grid.nudge_step_px == 1
    &&& !c.grid.drag_after_select && c.grid.dense
    &&& c.grid.column_keys@ == home_row_keys() && c.grid.row_keys@ == qwerty_keys()
    &&& c.theme == default_theme()
    &&& forall|k: LogicalKey| #[trigger] c.mouse_bindings.spec_get(k) == spec_default_binding(k)
    &&& forall|k: LogicalKey| #[trigger] string_binding(c.initial_bindings, k)
        == (if k == LogicalKey::CapsLock { Some("mouse"@) } else { None::<Seq<char>> })
    &&& c.practice_completed_version == 0
}

impl Default for Config {
    fn default() -> (c: Self)
        ensures
            is_default_config(c),
    {
        let mut initial_bindings: KeyMap<String> = KeyMap::new();
        initial_bindings.insert(LogicalKey::CapsLock, String::from_str("mouse"));
        Config {
            enabled: true,
            settings: Settings::default(),
            grid: GridConfig::dense(),
            theme: ThemeConfig::default(),
            initial_bindings,
            mouse_bindings: default_bindings(),
            practice_completed_version: 0,
        }
    }
}

fn copy_string_map(m: &KeyMap<String>) -> (r: KeyMap<String>)
    ensures
        forall|k: LogicalKey| #[trigger] string_binding(r, k) == string_binding(*m, k),
{
    let mut r: KeyMap<String> = KeyMap::new();
    let mut i: usize = 0;
    while i < KEY_COUNT
        invariant
            i <= KEY_COUNT,
            forall|k: LogicalKey| #[trigger] string_binding(r, k)
                == if k.ordinal() < i { string_binding(*m, k) } else { None::<Seq<char>> },
        decreases KEY_COUNT - i,
    {
        let k = LogicalKey::at_index(i);
        proof {
            lemma_ordinal_injective(k, k);
        }
        let ghost r0 = r;
        match m.get(&k) {
            Some(v) => {
                let c = v.clone();
                assert(c@ == v@);
                r.insert(k, c);
                assert(string_binding(r, k) == string_binding(*m, k));
            }
            None => {
                assert(string_binding(*m, k) is None);
            }
        }
        proof {
            assert forall|o: LogicalKey| #[trigger] string_binding(r, o)
                == if o.ordinal() < i + 1 { string_binding(*m, o) } else { None::<Seq<char>> } by {
                lemma_ordinal_injective(o, k);
                assert(string_binding(r0, o) == if o.ordinal() < i { string_binding(*m, o) } else { None::<Seq<char>> });
            }
        }
        i = i + 1;
    }
    r
}

fn copy_action_map(m: &KeyMap<Action>) -> (r: KeyMap<Action>)
    ensures
        forall|k: LogicalKey| #[trigger] r.spec_get(k) == m.spec_get(k),
{
    let mut r: KeyMap<Action> = KeyMap::new();
    let mut i: usize = 0;
    while i < KEY_COUNT
        invariant
            i <= KEY_COUNT,
            forall|k: LogicalKey| #[trigger] r.spec_get(k)
                == if k.ordinal() < i { m.spec_get(k) } else { None::<Action> },
        decreases KEY_COUNT - i,
    {
        let k = LogicalKey::at_index(i);
        proof {
            lemma_ordinal_injective(k, k);
        }
        match m.get(&k) {
            Some(v) => {
                r.insert(k, *v);
            }
            None => {}
        }
        proof {
            assert forall|o: LogicalKey| #[trigger] r.spec_get(o)
                == if o.ordinal() < i + 1 { m.spec_get(o) } else { None::<Action> } by {
                lemma_ordinal_injective(o, k);
            }
        }
        i = i + 1;
    }
    r
}

impl Config {
    /// Value-by-value copy.
    pub fn duplicate(&self) -> (c: Self)
        ensures
            c.same(*self),
    {
        Config {
            enabled: self.enabled,
            settings: self.settings,
            grid: self.grid.duplicate(),
            theme: self.theme,
            initial_bindings: copy_string_map(&self.initial_bindings),
            mouse_bindings: copy_action_map(&self.mouse_bindings),
            practice_completed_version: self.practice_completed_version,
        }
    }
}


#[derive(Debug, Clone, PartialEq, Eq)]
pub enum ConfigError {
    InvalidGridLayout(String),
    ParseError(String),
    UnknownKey(String),
    UnknownAction(String),
    InvalidStartSpeed(u64),
    InvalidMaxSpeed(u64, u64),
    InvalidRampMs(u64),
    InvalidHoldMs(u64),
    InvalidScrollStep(i64),
    InvalidGridDimensions(u32, u32),
    InvalidGridKeyCount(usize, usize),
    GridDimensionsOverflow(u32, u32),
    DuplicateGridKey,
    InvalidNudgeStep,
    IoError(String),
    ReservedKey(String),
    DuplicateBinding(String),
    InvalidTheme(String),
}

/// A configuration error with its texts as characters.
pub enum ConfigErrorView {
    InvalidGridLayout(Seq<char>),
    ParseError(Seq<char>),
    UnknownKey(Seq<char>),
    UnknownAction(Seq<char>),
    InvalidStartSpeed(u64),
    InvalidMaxSpeed(u64, u64),
    InvalidRampMs(u64),
    InvalidHoldMs(u64),
    InvalidScrollStep(i64),
    InvalidGridDimensions(u32, u32),
    InvalidGridKeyCount(usize, usize),
    GridDimensionsOverflow(u32, u32),
    DuplicateGridKey,
    InvalidNudgeStep,
    IoError(Seq<char>),
    ReservedKey(Seq<char>),
    DuplicateBinding(Seq<char>),
    InvalidTheme(Seq<char>),
}

impl View for ConfigError {
    type V = ConfigErrorView;

    open spec fn view(&self) -> ConfigErrorView {
        match self {
            ConfigError::InvalidGridLayout(s) => ConfigErrorView::InvalidGridLayout(s@),
            ConfigError::ParseError(s) => ConfigErrorView::ParseError(s@),
            ConfigError::UnknownKey(s) => ConfigErrorView::UnknownKey(s@),
            ConfigError::UnknownAction(s) => ConfigErrorView::UnknownAction(s@),
            ConfigError::InvalidStartSpeed(v) => ConfigErrorView::InvalidStartSpeed(*v),
            ConfigError::InvalidMaxSpeed(a, b) => ConfigErrorView::InvalidMaxSpeed(*a, *b),
            ConfigError::InvalidRampMs(v) => ConfigErrorView::InvalidRampMs(*v),
            ConfigError::InvalidHoldMs(v) => ConfigErrorView::InvalidHoldMs(*v),
            ConfigError::InvalidScrollStep(v) => ConfigErrorView::InvalidScrollStep(*v),
            ConfigError::InvalidGridDimensions(a, b) => ConfigErrorView::InvalidGridDimensions(*a, *b),
            ConfigError::InvalidGridKeyCount(a, b) => ConfigErrorView::InvalidGridKeyCount(*a, *b),
            ConfigError::GridDimensionsOverflow(a, b) => ConfigErrorView::GridDimensionsOverflow(*a, *b),
            ConfigError::DuplicateGridKey => ConfigErrorView::DuplicateGridKey,
            ConfigError::InvalidNudgeStep => ConfigErrorView::InvalidNudgeStep,
            ConfigError::IoError(s) => ConfigErrorView::IoError(s@),
            ConfigError::ReservedKey(s) => ConfigErrorView::ReservedKey(s@),
            ConfigError::DuplicateBinding(s) => ConfigErrorView::DuplicateBinding(s@),
            ConfigError::InvalidTheme(s) => ConfigErrorView::InvalidTheme(s@),
        }
    }
}

/// The message an error reads as.
pub open spec fn error_text(e: ConfigErrorView) -> Seq<char> {
    match e {
        ConfigErrorView::InvalidGridLayout(s) => "Invalid grid layout or selection keys: "@ + s,
        ConfigErrorView::ParseError(s) => "TOML syntax error: "@ + s,
        ConfigErrorView::UnknownKey(s) => "Unknown key name: '"@ + s + "'"@,
        ConfigErrorView::UnknownAction(s) => "Unknown action verb: '"@ + s + "'"@,
        ConfigErrorView::InvalidStartSpeed(v) => "Invalid speed: start_speed_px_s ("@ + dec(v as int)
            + ") must be greater than 0"@,
        ConfigErrorView::InvalidMaxSpeed(a, b) => "Invalid speed: max_speed_px_s ("@ + dec(a as int)
            + ") must be greater than or equal to start_speed_px_s ("@ + dec(b as int) + ")"@,
        ConfigErrorView::InvalidRampMs(v) => "Invalid ramp: ramp_ms ("@ + dec(v as int) + ") must be greater than 0"@,
        ConfigErrorView::InvalidHoldMs(v) => "Invalid hold: hold_ms ("@ + dec(v as int) + ") must be greater than 0"@,
        ConfigErrorView::InvalidScrollStep(v) => "Invalid scroll step: scroll_step ("@ + dec(v as int)
            + ") must be greater than 0"@,
        ConfigErrorView::InvalidGridDimensions(a, b) => "Invalid grid dimensions: rows ("@ + dec(a as int)
            + ") and cols ("@ + dec(b as int) + ") must be greater than 0"@,
        ConfigErrorView::InvalidGridKeyCount(a, b) => "Invalid grid keys: count ("@ + dec(a as int)
            + ") does not match rows * cols ("@ + dec(b as int) + ")"@,
        ConfigErrorView::GridDimensionsOverflow(a, b) => "Grid dimensions overflow: "@ + dec(a as int) + " * "@
            + dec(b as int),
        ConfigErrorView::DuplicateGridKey => "Grid keys must be unique"@,
        ConfigErrorView::InvalidNudgeStep => "Grid nudge_step_px must be greater than 0"@,
        ConfigErrorView::IoError(s) => "IO error: "@ + s,
        ConfigErrorView::ReservedKey(s) => "Key '"@ + s + "' is reserved by the engine and cannot be bound"@,
        ConfigErrorView::DuplicateBinding(s) => "Key '"@ + s + "' is bound more than once"@,
        ConfigErrorView::InvalidTheme(s) => "Invalid theme value: "@ + s,
    }
}

impl ConfigError {
    /// The error's message.
    pub fn message(&self) -> (m: String)
        ensures
            m@ == error_text(self@),
    {
        let mut m = String::new();
        match self {
            ConfigError::InvalidGridLayout(s) => {
                push_str(&mut m, "Invalid grid layout or selection keys: ");
                push_str(&mut m, s.as_str());
            }
            ConfigError::ParseError(s) => {
                push_str(&mut m, "TOML syntax error: ");
                push_str(&mut m, s.as_str());
            }
            ConfigError::UnknownKey(s) => {
                push_str(&mut m, "Unknown key name: '");
                push_str(&mut m, s.as_str());
                push_str(&mut m, "'");
            }
            ConfigError::UnknownAction(s) => {
                push_str(&mut m, "Unknown action verb: '");
                push_str(&mut m, s.as_str());
                push_str(&mut m, "'");
            }
            ConfigError::InvalidStartSpeed(v) => {
                push_str(&mut m, "Invalid speed: start_speed_px_s (");
                push_dec(&mut m, *v as i128);
                push_str(&mut m, ") must be greater than 0");
            }
            ConfigError::InvalidMaxSpeed(a, b) => {
                push_str(&mut m, "Invalid speed: max_speed_px_s (");
                push_dec(&mut m, *a as i128);
                push_str(&mut m, ") must be greater than or equal to start_speed_px_s (");
                push_dec(&mut m, *b as i128);
                push_str(&mut m, ")");
            }
            ConfigError::InvalidRampMs(v) => {
                push_str(&mut m, "Invalid ramp: ramp_ms (");
                push_dec(&mut m, *v as i128);
                push_str(&mut m, ") must be greater than 0");
            }
            ConfigError::InvalidHoldMs(v) => {
                push_str(&mut m, "Invalid hold: hold_ms (");
                push_dec(&mut m, *v as i128);
                push_str(&mut m, ") must be greater than 0");
            }
            ConfigError::InvalidScrollStep(v) => {
                push_str(&mut m, "Invalid scroll step: scroll_step (");
                push_dec(&mut m, *v as i128);
                push_str(&mut m, ") must be greater than 0");
            }
            ConfigError::InvalidGridDimensions(a, b) => {
                push_str(&mut m, "Invalid grid dimensions: rows (");
                push_dec(&mut m, *a as i128);
                push_str(&mut m, ") and cols (");
                push_dec(&mut m, *b as i128);
                push_str(&mut m, ") must be greater than 0");
            }
            ConfigError::InvalidGridKeyCount(a, b) => {
                push_str(&mut m, "Invalid grid keys: count (");
                push_dec(&mut m, *a as i128);
                push_str(&mut m, ") does not match rows * cols (");
                push_dec(&mut m, *b as i128);
                push_str(&mut m, ")");
            }
            ConfigError::GridDimensionsOverflow(a, b) => {
                push_str(&mut m, "Grid dimensions overflow: ");
                push_dec(&mut m, *a as i128);
                push_str(&mut m, " * ");
                push_dec(&mut m, *b as i128);
            }
            ConfigError::DuplicateGridKey => {
                push_str(&mut m, "Grid keys must be unique");
            }
            ConfigError::InvalidNudgeStep => {
                push_str(&mut m, "Grid nudge_step_px must be greater than 0");
            }
            ConfigError::IoError(s) => {
                push_str(&mut m, "IO error: ");
                push_str(&mut m, s.as_str());
            }
            ConfigError::ReservedKey(s) => {
                push_str(&mut m, "Key '");
                push_str(&mut m, s.as_str());
                push_str(&mut m, "' is reserved by the engine and cannot be bound");
            }
            ConfigError::DuplicateBinding(s) => {
                push_str(&mut m, "Key '");
                push_str(&mut m, s.as_str());
                push_str(&mut m, "' is bound more than once");
            }
            ConfigError::InvalidTheme(s) => {
                push_str(&mut m, "Invalid theme value: ");
                push_str(&mut m, s.as_str());
            }
        }
        m
    }
}


/// Canonical config-file name of a key; `parse_logical_key` reads it back.
pub fn logical_key_name(key: LogicalKey) -> (s: &'static str)
    ensures
        s@ == key.name(),
{
    key.label()
}

/// Other spellings the config file accepts for a key.
pub open spec fn key_alias(s: Seq<char>) -> Option<LogicalKey> {
    if s == "caps_lock"@ || s == "caps"@ {
        Some(LogicalKey::CapsLock)
    } else if s == "comma"@ {
        Some(LogicalKey::Comma)
    } else if s == "dot"@ {
        Some(LogicalKey::Dot)
    } else if s == "escape"@ {
        Some(LogicalKey::Esc)
    } else {
        None
    }
}

/// The key a name denotes, ignoring ASCII case: a canonical name or an alias.
pub open spec fn key_named(s: Seq<char>) -> Option<LogicalKey> {
    let l = lower(s);
    if exists|k: LogicalKey| #[trigger] k.name() == l {
        Some(choose|k: LogicalKey| #[trigger] k.name() == l)
    } else {
        key_alias(l)
    }
}

fn key_of_chars(l: &Vec<char>) -> (r: Option<LogicalKey>)
    ensures
        r == if exists|k: LogicalKey| #[trigger] k.name() == l@ {
            Some(choose|k: LogicalKey| #[trigger] k.name() == l@)
        } else {
            key_alias(l@)
        },
{
    let mut i: usize = 0;
    while i < KEY_COUNT
        invariant
            i <= KEY_COUNT,
            forall|j: nat| j < i ==> (#[trigger] LogicalKey::from_ordinal(j)).name() != l@,
        decreases KEY_COUNT - i,
    {
        let k = LogicalKey::at_index(i);
        if chars_eq(l, k.label()) {
            proof {
                let c = choose|c: LogicalKey| #[trigger] c.name() == l@;
                lemma_name_injective(c, k);
            }
            return Some(k);
        }
        i = i + 1;
    }
    proof {
        assert forall|k: LogicalKey| #[trigger] k.name() != l@ by {
            lemma_ordinal_injective(k, k);
            assert(LogicalKey::from_ordinal(k.ordinal()).name() != l@);
        }
    }
    if chars_eq(l, "caps_lock") || chars_eq(l, "caps") {
        Some(LogicalKey::CapsLock)
    } else if chars_eq(l, "comma") {
        Some(LogicalKey::Comma)
    } else if chars_eq(l, "dot") {
        Some(LogicalKey::Dot)
    } else if chars_eq(l, "escape") {
        Some(LogicalKey::Esc)
    } else {
        None
    }
}

/// Reads a key name; unknown names are an error naming the input.
pub fn parse_logical_key(name: &str) -> (r: Result<LogicalKey, ConfigError>)
    ensures
        match key_named(name@) {
            Some(k) => r == Ok::<LogicalKey, ConfigError>(k),
            None => r matches Err(e) && e@ == ConfigErrorView::UnknownKey(name@),
        },
{
    let l = lower_chars(&chars_of(name));
    match key_of_chars(&l) {
        Some(k) => Ok(k),
        None => Err(ConfigError::UnknownKey(String::from_str(name))),
    }
}

/// A name reads back as the key it names.
pub proof fn law_key_name_round_trips(k: LogicalKey)
    ensures
        key_named(k.name()) == Some(k),
{
    assert(lower(k.name()) =~= k.name());
    let c = choose|c: LogicalKey| #[trigger] c.name() == k.name();
    lemma_name_injective(c, k);
}

/// Canonical config-file name of an action. Actions the grid produces have
/// no name of their own and are written as `move_left`.
pub open spec fn action_text(a: Action) -> Seq<char> {
    match a {
        Action::MoveLeft => "move_left"@,
        Action::MoveRight => "move_right"@,
        Action::MoveUp => "move_up"@,
        Action::MoveDown => "move_down"@,
        Action::SpeedDown => "speed_down"@,
        Action::SpeedUp => "speed_up"@,
        Action::ClickLeft => "click_left"@,
        Action::ClickRight => "click_right"@,
        Action::ScrollUp => "scroll_up"@,
        Action::ScrollDown => "scroll_down"@,
        Action::EnterGrid => "enter_grid"@,
        _ => "move_left"@,
    }
}

pub fn action_name(action: Action) -> (s: &'static str)
    ensures
        s@ == action_text(action),
{
    match action {
        Action::MoveLeft => "move_left",
        Action::MoveRight => "move_right",
        Action::MoveUp => "move_up",
        Action::MoveDown => "move_down",
        Action::SpeedDown => "speed_down",
        Action::SpeedUp => "speed_up",
        Action::ClickLeft => "click_left",
        Action::ClickRight => "click_right",
        Action::ScrollUp => "scroll_up",
        Action::ScrollDown => "scroll_down",
        Action::EnterGrid => "enter_grid",
        _ => "move_left",
    }
}

/// The action a verb names, ignoring ASCII case.
pub open spec fn action_named(v: Seq<char>) -> Option<Action> {
    let l = lower(v);
    if l == "move_left"@ || l == "moveleft"@ || l == "left"@ {
        Some(Action::MoveLeft)
    } else if l == "move_right"@ || l == "moveright"@ || l == "right"@ {
        Some(Action::MoveRight)
    } else if l == "move_up"@ || l == "moveup"@ || l == "up"@ {
        Some(Action::MoveUp)
    } else if l == "move_down"@ || l == "movedown"@ || l == "down"@ {
        Some(Action::MoveDown)
    } else if l == "speed_down"@ || l == "speeddown"@ {
        Some(Action::SpeedDown)
    } else if l == "speed_up"@ || l == "speedup"@ {
        Some(Action::SpeedUp)
    } else if l == "click_left"@ || l == "clickleft"@ || l == "click"@ {
        Some(Action::ClickLeft)
    } else if l == "click_right"@ || l == "clickright"@ {
        Some(Action::ClickRight)
    } else if l == "scroll_up"@ || l == "scrollup"@ {
        Some(Action::ScrollUp)
    } else if l == "scroll_down"@ || l == "scrolldown"@ {
        Some(Action::ScrollDown)
    } else if l == "enter_grid"@ || l == "entergrid"@ || l == "grid"@ {
        Some(Action::EnterGrid)
    } else {
        None
    }
}

/// Reads an action verb; unknown verbs are an error naming the input.
pub fn parse_action(verb: &str) -> (r: Result<Action, ConfigError>)
    ensures
        match action_named(verb@) {
            Some(a) => r == Ok::<Action, ConfigError>(a),
            None => r matches Err(e) && e@ == ConfigErrorView::UnknownAction(verb@),
        },
{
    let l = lower_chars(&chars_of(verb));
    if chars_eq(&l, "move_left") || chars_eq(&l, "moveleft") || chars_eq(&l, "left") {
        Ok(Action::MoveLeft)
    } else if chars_eq(&l, "move_right") || chars_eq(&l, "moveright") || chars_eq(&l, "right") {
        Ok(Action::MoveRight)
    } else if chars_eq(&l, "move_up") || chars_eq(&l, "moveup") || chars_eq(&l, "up") {
        Ok(Action::MoveUp)
    } else if chars_eq(&l, "move_down") || chars_eq(&l, "movedown") || chars_eq(&l, "down") {
        Ok(Action::MoveDown)
    } else if chars_eq(&l, "speed_down") || chars_eq(&l, "speeddown") {
        Ok(Action::SpeedDown)
    } else if chars_eq(&l, "speed_up") || chars_eq(&l, "speedup") {
        Ok(Action::SpeedUp)
    } else if chars_eq(&l, "click_left") || chars_eq(&l, "clickleft") || chars_eq(&l, "click") {
        Ok(Action::ClickLeft)
    } else if chars_eq(&l, "click_right") || chars_eq(&l, "clickright") {
        Ok(Action::ClickRight)
    } else if chars_eq(&l, "scroll_up") || chars_eq(&l, "scrollup") {
        Ok(Action::ScrollUp)
    } else if chars_eq(&l, "scroll_down") || chars_eq(&l, "scrolldown") {
        Ok(Action::ScrollDown)
    } else if chars_eq(&l, "enter_grid") || chars_eq(&l, "entergrid") || chars_eq(&l, "grid") {
        Ok(Action::EnterGrid)
    } else {
        Err(ConfigError::UnknownAction(String::from_str(verb)))
    }
}

#[derive(Debug, Clone, Copy, PartialEq, Eq, Structural)]
pub enum DeepLinkCommand {
    ToggleOverlay,
    ShowOverlay,
    HideOverlay,
    ToggleFreeMode,
    EnterFreeMode,
    ExitFreeMode,
    ToggleEnabled,
    Settings,
}

/// `s` with every trailing `/` taken off.
pub open spec fn trim_slashes(s: Seq<char>) -> Seq<char>
    decreases s.len(),
{
    if s.len() > 0 && s.last() == '/' {
        trim_slashes(s.drop_last())
    } else {
        s
    }
}

/// The command a `mouseless://` or `clickless://` link names.
pub open spec fn deep_link_command(url: Seq<char>) -> Option<DeepLinkCommand> {
    let m = "mouseless://"@;
    let c = "clickless://"@;
    let rest = if m.is_prefix_of(url) {
        Some(url.skip(m.len() as int))
    } else if c.is_prefix_of(url) {
        Some(url.skip(c.len() as int))
    } else {
        None
    };
    match rest {
        None => None,
        Some(r) => {
            let cmd = trim_slashes(r);
            if cmd == "toggle-overlay"@ {
                Some(DeepLinkCommand::ToggleOverlay)
            } else if cmd == "show-overlay"@ {
                Some(DeepLinkCommand::ShowOverlay)
            } else if cmd == "hide-overlay"@ {
                Some(DeepLinkCommand::HideOverlay)
            } else if cmd == "toggle-free-mode"@ {
                Some(DeepLinkCommand::ToggleFreeMode)
            } else if cmd == "enter-free-mode"@ {
                Some(DeepLinkCommand::EnterFreeMode)
            } else if cmd == "exit-free-mode"@ {
                Some(DeepLinkCommand::ExitFreeMode)
            } else if cmd == "toggle-enabled"@ {
                Some(DeepLinkCommand::ToggleEnabled)
            } else if cmd == "settings"@ {
                Some(DeepLinkCommand::Settings)
            } else {
                None
            }
        }
    }
}

/// Characters of `v` from `start` on, when `lit` is a prefix of `v`.
pub(crate) fn strip_prefix(v: &Vec<char>, lit: &str) -> (r: Option<Vec<char>>)
    ensures
        match r {
            Some(rest) => lit@.is_prefix_of(v@) && rest@ == v@.skip(lit@.len() as int),
            None => !lit@.is_prefix_of(v@),
        },
{
    let p = chars_of(lit);
    if p.len() > v.len() {
        return None;
    }
    let mut i: usize = 0;
    while i < p.len()
        invariant
            i <= p.len(),
            p.len() <= v.len(),
            p@ == lit@,
            forall|j: int| 0 <= j < i ==> p@[j] == v@[j],
        decreases p.len() - i,
    {
        if p[i] != v[i] {
            return None;
        }
        i = i + 1;
    }
    let mut rest: Vec<char> = Vec::new();
    let mut j: usize = p.len();
    while j < v.len()
        invariant
            p.len() <= j <= v.len(),
            rest@ == v@.subrange(p.len() as int, j as int),
        decreases v.len() - j,
    {
        rest.push(v[j]);
        j = j + 1;
        proof {
            assert(rest@ =~= v@.subrange(p.len() as int, j as int));
        }
    }
    proof {
        assert(lit@ =~= v@.subrange(0, lit@.len() as int));
        assert(rest@ =~= v@.skip(lit@.len() as int));
    }
    Some(rest)
}

fn trim_slashes_exec(v: &mut Vec<char>)
    ensures
        final(v)@ == trim_slashes(old(v)@),
    decreases old(v)@.len(),
{
    if v.len() > 0 && v[v.len() - 1] == '/' {
        v.pop();
        trim_slashes_exec(v);
    }
}

/// Reads a deep link; anything else names no command.
pub fn parse_deep_link(url: &str) -> (r: Option<DeepLinkCommand>)
    ensures
        r == deep_link_command(url@),
{
    let v = chars_of(url);
    let rest = match strip_prefix(&v, "mouseless://") {
        Some(r) => Some(r),
        None => strip_prefix(&v, "clickless://"),
    };
    match rest {
        None => None,
        Some(mut cmd) => {
            trim_slashes_exec(&mut cmd);
            if chars_eq(&cmd, "toggle-overlay") {
                Some(DeepLinkCommand::ToggleOverlay)
            } else if chars_eq(&cmd, "show-overlay") {
                Some(DeepLinkCommand::ShowOverlay)
            } else if chars_eq(&cmd, "hide-overlay") {
                Some(DeepLinkCommand::HideOverlay)
            } else if chars_eq(&cmd, "toggle-free-mode") {
                Some(DeepLinkCommand::ToggleFreeMode)
            } else if chars_eq(&cmd, "enter-free-mode") {
                Some(DeepLinkCommand::EnterFreeMode)
            } else if chars_eq(&cmd, "exit-free-mode") {
                Some(DeepLinkCommand::ExitFreeMode)
            } else if chars_eq(&cmd, "toggle-enabled") {
                Some(DeepLinkCommand::ToggleEnabled)
            } else if chars_eq(&cmd, "settings") {
                Some(DeepLinkCommand::Settings)
            } else {
                None
            }
        }
    }
}


/// The hex digits of a colour: the text after one optional leading `#`.
pub open spec fn hex_digits(raw: Seq<char>) -> Seq<char> {
    if raw.len() > 0 && raw[0] == '#' { raw.skip(1) } else { raw }
}

/// The byte two hex digits at `i` spell.
pub open spec fn hex_pair(d: Seq<char>, i: int) -> u8 {
    (hex_value(d[i])->0 * 16 + hex_value(d[i + 1])->0) as u8
}

/// The colour `RRGGBB` (optionally `#RRGGBB`) spells, if it is one.
pub open spec fn rgb_of(raw: Seq<char>) -> Option<(u8, u8, u8)> {
    let d = hex_digits(raw);
    if d.len() == 6 && forall|i: int| 0 <= i < 6 ==> (#[trigger] hex_value(d[i])) is Some {
        Some((hex_pair(d, 0), hex_pair(d, 2), hex_pair(d, 4)))
    } else {
        None
    }
}

fn hex_values(d: &Vec<char>) -> (r: Option<Vec<u8>>)
    ensures
        match r {
            Some(v) => v@.len() == d@.len() && forall|j: int| 0 <= j < d@.len()
                ==> (#[trigger] hex_value(d@[j])) is Some && v@[j] == hex_value(d@[j])->0,
            None => exists|j: int| 0 <= j < d@.len() && (#[trigger] hex_value(d@[j])) is None,
        },
{
    let mut vals: Vec<u8> = Vec::new();
    let mut i: usize = 0;
    while i < d.len()
        invariant
            i <= d.len(),
            vals@.len() == i,
            forall|j: int| 0 <= j < i ==> (#[trigger] hex_value(d@[j])) is Some && vals@[j] == hex_value(d@[j])->0,
        decreases d.len() - i,
    {
        match hex_value_exec(d[i]) {
            Some(v) => vals.push(v),
            None => {
                return None;
            }
        }
        i = i + 1;
    }
    Some(vals)
}

/// Reads an `RRGGBB` colour, with an optional leading `#`; anything else is
/// a theme error naming the field and the text.
pub fn parse_hex_rgb(name: &str, raw: &str) -> (r: Result<(u8, u8, u8), ConfigError>)
    ensures
        match rgb_of(raw@) {
            Some(rgb) => r == Ok::<(u8, u8, u8), ConfigError>(rgb),
            None => r matches Err(e) && e@ == ConfigErrorView::InvalidTheme(
                name@ + " = \""@ + raw@ + "\" must be RRGGBB hex"@,
            ),
        },
{
    let all = chars_of(raw);
    proof {
        reveal_strlit("#");
    }
    let d = match strip_prefix(&all, "#") {
        Some(rest) => {
            proof {
                assert(raw@.subrange(0, 1)[0] == raw@[0]);
                assert(raw@[0] == '#');
            }
            rest
        }
        None => {
            proof {
                if raw@.len() > 0 && raw@[0] == '#' {
                    assert(raw@.subrange(0, 1) =~= "#"@);
                    assert("#"@.is_prefix_of(raw@));
                }
            }
            all
        }
    };
    proof {
        assert(d@ == hex_digits(raw@));
    }
    if d.len() == 6 {
        match hex_values(&d) {
            Some(vals) => {
                proof {
                    assert(hex_value(d@[0]) is Some);
                    assert(hex_value(d@[1]) is Some);
                    assert(hex_value(d@[2]) is Some);
                    assert(hex_value(d@[3]) is Some);
                    assert(hex_value(d@[4]) is Some);
                    assert(hex_value(d@[5]) is Some);
                }
                let r = vals[0] * 16 + vals[1];
                let g = vals[2] * 16 + vals[3];
                let b = vals[4] * 16 + vals[5];
                return Ok((r, g, b));
            }
            None => {}
        }
    }
    let mut m = String::from_str(name);
    push_str(&mut m, " = \"");
    push_str(&mut m, raw);
    push_str(&mut m, "\" must be RRGGBB hex");
    Err(ConfigError::InvalidTheme(m))
}


/// No key occurs twice.
pub open spec fn no_dups(s: Seq<LogicalKey>) -> bool {
    forall|i: int, j: int| 0 <= i < j < s.len() ==> s[i] != s[j]
}

fn has_dups(v: &Vec<LogicalKey>) -> (r: bool)
    ensures
        r == !no_dups(v@),
{
    let mut i: usize = 0;
    while i < v.len()
        invariant
            i <= v.len(),
            forall|a: int, b: int| 0 <= a < i && a < b < v@.len() ==> v@[a] != v@[b],
        decreases v.len() - i,
    {
        let mut j: usize = i + 1;
        while j < v.len()
            invariant
                i < v.len(),
                i + 1 <= j <= v.len(),
                forall|a: int, b: int| 0 <= a < i && a < b < v@.len() ==> v@[a] != v@[b],
                forall|b: int| i < b < j ==> v@[i as int] != v@[b],
            decreases v.len() - j,
        {
            if v[i] == v[j] {
                return true;
            }
            j = j + 1;
        }
        i = i + 1;
    }
    false
}

/// What `validate` reports: the first gate the configuration fails, in the
/// order speeds, timing, scroll, grid geometry, grid keys, bindings, theme.
pub open spec fn validation(c: Config) -> Result<(), ConfigErrorView> {
    let st = c.settings;
    let g = c.grid;
    if st.start_speed_px_s == 0 {
        Err(ConfigErrorView::InvalidStartSpeed(0))
    } else if st.max_speed_px_s < st.start_speed_px_s {
        Err(ConfigErrorView::InvalidMaxSpeed(st.max_speed_px_s, st.start_speed_px_s))
    } else if st.ramp_ms == 0 {
        Err(ConfigErrorView::InvalidRampMs(0))
    } else if st.hold_ms == 0 {
        Err(ConfigErrorView::InvalidHoldMs(0))
    } else if st.scroll_step <= 0 {
        Err(ConfigErrorView::InvalidScrollStep(st.scroll_step))
    } else if g.rows == 0 || g.cols == 0 {
        Err(ConfigErrorView::InvalidGridDimensions(g.rows, g.cols))
    } else if g.rows * g.cols > u32::MAX {
        Err(ConfigErrorView::GridDimensionsOverflow(g.rows, g.cols))
    } else if g.keys@.len() != g.rows * g.cols {
        Err(ConfigErrorView::InvalidGridKeyCount(g.keys@.len() as usize, (g.rows * g.cols) as usize))
    } else if !no_dups(g.keys@) || !no_dups(g.column_keys@) || !no_dups(g.row_keys@) {
        Err(ConfigErrorView::DuplicateGridKey)
    } else if c.mouse_bindings.spec_get(LogicalKey::Esc) is Some {
        Err(ConfigErrorView::ReservedKey("esc"@))
    } else if c.mouse_bindings.spec_get(LogicalKey::Backspace) is Some {
        Err(ConfigErrorView::ReservedKey("backspace"@))
    } else if c.mouse_bindings.spec_get(st.leader) is Some {
        Err(ConfigErrorView::ReservedKey(st.leader.name()))
    } else if c.theme.label_size < 1 {
        Err(ConfigErrorView::InvalidTheme("label_size must be at least 1"@))
    } else if !(1 <= c.theme.border_px <= 16) {
        Err(ConfigErrorView::InvalidTheme("border_px must be 1-16"@))
    } else {
        Ok(())
    }
}

/// `validation`, read off a configuration's content.
pub open spec fn view_validation(c: ConfigView) -> Result<(), ConfigErrorView> {
    let st = c.settings;
    let g = c.grid;
    if st.start_speed_px_s == 0 {
        Err(ConfigErrorView::InvalidStartSpeed(0))
    } else if st.max_speed_px_s < st.start_speed_px_s {
        Err(ConfigErrorView::InvalidMaxSpeed(st.max_speed_px_s, st.start_speed_px_s))
    } else if st.ramp_ms == 0 {
        Err(ConfigErrorView::InvalidRampMs(0))
    } else if st.hold_ms == 0 {
        Err(ConfigErrorView::InvalidHoldMs(0))
    } else if st.scroll_step <= 0 {
        Err(ConfigErrorView::InvalidScrollStep(st.scroll_step))
    } else if g.rows == 0 || g.cols == 0 {
        Err(ConfigErrorView::InvalidGridDimensions(g.rows, g.cols))
    } else if g.rows * g.cols > u32::MAX {
        Err(ConfigErrorView::GridDimensionsOverflow(g.rows, g.cols))
    } else if g.keys.len() != g.rows * g.cols {
        Err(ConfigErrorView::InvalidGridKeyCount(g.keys.len() as usize, (g.rows * g.cols) as usize))
    } else if !no_dups(g.keys) || !no_dups(g.column_keys) || !no_dups(g.row_keys) {
        Err(ConfigErrorView::DuplicateGridKey)
    } else if c.mouse_bindings.dom().contains(LogicalKey::Esc) {
        Err(ConfigErrorView::ReservedKey("esc"@))
    } else if c.mouse_bindings.dom().contains(LogicalKey::Backspace) {
        Err(ConfigErrorView::ReservedKey("backspace"@))
    } else if c.mouse_bindings.dom().contains(st.leader) {
        Err(ConfigErrorView::ReservedKey(st.leader.name()))
    } else if c.theme.label_size < 1 {
        Err(ConfigErrorView::InvalidTheme("label_size must be at least 1"@))
    } else if !(1 <= c.theme.border_px <= 16) {
        Err(ConfigErrorView::InvalidTheme("border_px must be 1-16"@))
    } else {
        Ok(())
    }
}

/// Validation depends on a configuration's content only.
pub proof fn lemma_view_validation(c: Config)
    ensures
        validation(c) == view_validation(c@),
{
}

impl Config {
    /// Checks every gate a configuration must pass before it reaches the
    /// runtime: speeds, grid geometry, key uniqueness, reserved keys, theme.
    pub fn validate(&self) -> (r: Result<(), ConfigError>)
        ensures
            match validation(*self) {
                Ok(()) => r is Ok,
                Err(ev) => r matches Err(e) && e@ == ev,
            },
    {
        let st = self.settings;
        if st.start_speed_px_s == 0 {
            return Err(ConfigError::InvalidStartSpeed(0));
        }
        if st.max_speed_px_s < st.start_speed_px_s {
            return Err(ConfigError::InvalidMaxSpeed(st.max_speed_px_s, st.start_speed_px_s));
        }
        if st.ramp_ms == 0 {
            return Err(ConfigError::InvalidRampMs(0));
        }
        if st.hold_ms == 0 {
            return Err(ConfigError::InvalidHoldMs(0));
        }
        if st.scroll_step <= 0 {
            return Err(ConfigError::InvalidScrollStep(st.scroll_step));
        }
        let rows = self.grid.rows;
        let cols = self.grid.cols;
        if rows == 0 || cols == 0 {
            return Err(ConfigError::InvalidGridDimensions(rows, cols));
        }
        proof {
            lemma_mul_upper_bound(rows as int, 0xffff_ffff, cols as int, 0xffff_ffff);
        }
        let count: u64 = rows as u64 * cols as u64;
        if count > u32::MAX as u64 {
            return Err(ConfigError::GridDimensionsOverflow(rows, cols));
        }
        let expected = count as usize;
        if self.grid.keys.len() != expected {
            return Err(ConfigError::InvalidGridKeyCount(self.grid.keys.len(), expected));
        }
        if has_dups(&self.grid.keys) || has_dups(&self.grid.column_keys) || has_dups(&self.grid.row_keys) {
            return Err(ConfigError::DuplicateGridKey);
        }
        if self.mouse_bindings.contains_key(&LogicalKey::Esc) {
            return Err(ConfigError::ReservedKey(String::from_str("esc")));
        }
        if self.mouse_bindings.contains_key(&LogicalKey::Backspace) {
            return Err(ConfigError::ReservedKey(String::from_str("backspace")));
        }
        if self.mouse_bindings.contains_key(&st.leader) {
            return Err(ConfigError::ReservedKey(String::from_str(st.leader.label())));
        }
        if self.theme.label_size < 1 {
            return Err(ConfigError::InvalidTheme(String::from_str("label_size must be at least 1")));
        }
        if !(1 <= self.theme.border_px && self.theme.border_px <= 16) {
            return Err(ConfigError::InvalidTheme(String::from_str("border_px must be 1-16")));
        }
        Ok(())
    }
}


/// The name a link gives a command: its words in lower case, joined by hyphens.
pub open spec fn command_name(c: DeepLinkCommand) -> Seq<char> {
    match c {
        DeepLinkCommand::ToggleOverlay => "toggle-overlay"@,
        DeepLinkCommand::ShowOverlay => "show-overlay"@,
        DeepLinkCommand::HideOverlay => "hide-overlay"@,
        DeepLinkCommand::ToggleFreeMode => "toggle-free-mode"@,
        DeepLinkCommand::EnterFreeMode => "enter-free-mode"@,
        DeepLinkCommand::ExitFreeMode => "exit-free-mode"@,
        DeepLinkCommand::ToggleEnabled => "toggle-enabled"@,
        DeepLinkCommand::Settings => "settings"@,
    }
}

proof fn lemma_command_names_revealed()
    ensures
        "toggle-overlay"@ == seq!['t', 'o', 'g', 'g', 'l', 'e', '-', 'o', 'v', 'e', 'r', 'l', 'a', 'y'],
        "show-overlay"@ == seq!['s', 'h', 'o', 'w', '-', 'o', 'v', 'e', 'r', 'l', 'a', 'y'],
        "hide-overlay"@ == seq!['h', 'i', 'd', 'e', '-', 'o', 'v', 'e', 'r', 'l', 'a', 'y'],
        "toggle-free-mode"@ == seq!['t', 'o', 'g', 'g', 'l', 'e', '-', 'f', 'r', 'e', 'e', '-', 'm', 'o', 'd', 'e'],
        "enter-free-mode"@ == seq!['e', 'n', 't', 'e', 'r', '-', 'f', 'r', 'e', 'e', '-', 'm', 'o', 'd', 'e'],
        "exit-free-mode"@ == seq!['e', 'x', 'i', 't', '-', 'f', 'r', 'e', 'e', '-', 'm', 'o', 'd', 'e'],
        "toggle-enabled"@ == seq!['t', 'o', 'g', 'g', 'l', 'e', '-', 'e', 'n', 'a', 'b', 'l', 'e', 'd'],
        "settings"@ == seq!['s', 'e', 't', 't', 'i', 'n', 'g', 's'],
        "clickless://"@ == seq!['c', 'l', 'i', 'c', 'k', 'l', 'e', 's', 's', ':', '/', '/'],
        "mouseless://"@ == seq!['m', 'o', 'u', 's', 'e', 'l', 'e', 's', 's', ':', '/', '/'],
{
    reveal_strlit("toggle-overlay");
    reveal_strlit("show-overlay");
    reveal_strlit("hide-overlay");
    reveal_strlit("toggle-free-mode");
    reveal_strlit("enter-free-mode");
    reveal_strlit("exit-free-mode");
    reveal_strlit("toggle-enabled");
    reveal_strlit("settings");
    reveal_strlit("clickless://");
    reveal_strlit("mouseless://");
}

/// Link names and commands correspond one to one: a link of either scheme
/// naming a command, with or without a trailing slash, gives that command,
/// and distinct commands have distinct names.
pub proof fn law_deep_links_name_their_commands(c: DeepLinkCommand, d: DeepLinkCommand)
    ensures
        deep_link_command("clickless://"@ + command_name(c)) == Some(c),
        deep_link_command("mouseless://"@ + command_name(c)) == Some(c),
        deep_link_command("clickless://"@ + command_name(c) + seq!['/']) == Some(c),
        command_name(c) == command_name(d) ==> c == d,
{
    lemma_command_names_revealed();
    let n = command_name(c);
    let cl = "clickless://"@;
    let ml = "mouseless://"@;
    assert(n.len() > 0 && n.last() != '/');
    assert(trim_slashes(n) == n);
    let u1 = cl + n;
    assert(cl.is_prefix_of(u1));
    assert(!ml.is_prefix_of(u1)) by {
        assert(u1[0] == 'c');
    }
    assert(u1.skip(cl.len() as int) =~= n);
    let u2 = ml + n;
    assert(ml.is_prefix_of(u2));
    assert(u2.skip(ml.len() as int) =~= n);
    let u3 = cl + n + seq!['/'];
    assert(cl.is_prefix_of(u3));
    assert(!ml.is_prefix_of(u3)) by {
        assert(u3[0] == 'c');
    }
    assert(u3.skip(cl.len() as int) =~= n.push('/'));
    assert((n.push('/')).drop_last() =~= n);
    assert(trim_slashes(n.push('/')) == n);
    if command_name(c) == command_name(d) {
        let m = command_name(d);
        assert(n.len() == m.len());
        assert(n[0] == m[0] && n[1] == m[1] && n[2] == m[2] && n[3] == m[3] && n[4] == m[4] && n[5] == m[5] && n[7] == m[7]);
    }
}


/// A link gives a command only when it is the command's name behind one of
/// the two schemes, give or take trailing slashes.
pub proof fn law_deep_links_give_only_named_commands(url: Seq<char>)
    requires
        deep_link_command(url) is Some,
    ensures
        "clickless://"@.is_prefix_of(url) || "mouseless://"@.is_prefix_of(url),
        trim_slashes(url.skip(12)) == command_name(deep_link_command(url)->0),
{
    lemma_command_names_revealed();
}

} // verus!
