//! Logical keys, actions and the small value types shared by every module.
use vstd::prelude::*;

verus! {

/// Leader hold threshold before the Mouse layer engages, in milliseconds.
pub const LEADER_HOLD_MS: u64 = 200;

#[derive(Debug, Clone, Copy, PartialEq, Eq, Structural)]
pub enum Layer {
    Initial,
    Mouse,
    Grid,
}

#[derive(Debug, Clone, Copy, PartialEq, Eq, Hash, Structural)]
pub enum LogicalKey {
    CapsLock,
    ShiftLeft,
    ControlLeft,
    A,
    B,
    C,
    D,
    E,
    F,
    G,
    H,
    I,
    J,
    K,
    L,
    M,
    N,
    O,
    P,
    Q,
    R,
    S,
    T,
    U,
    V,
    W,
    X,
    Y,
    Z,
    Semicolon,
    Comma,
    Dot,
    Slash,
    Space,
    Esc,
    Backspace,
}


/// Number of logical keys; every key has an ordinal below this bound.
pub const KEY_COUNT: usize = 36;

impl LogicalKey {
    /// Position of the key in declaration order.
    pub open spec fn ordinal(self) -> nat {
        match self {
            LogicalKey::CapsLock => 0,
            LogicalKey::ShiftLeft => 1,
            LogicalKey::ControlLeft => 2,
            LogicalKey::A => 3,
            LogicalKey::B => 4,
            LogicalKey::C => 5,
            LogicalKey::D => 6,
            LogicalKey::E => 7,
            LogicalKey::F => 8,
            LogicalKey::G => 9,
            LogicalKey::H => 10,
            LogicalKey::I => 11,
            LogicalKey::J => 12,
            LogicalKey::K => 13,
            LogicalKey::L => 14,
            LogicalKey::M => 15,
            LogicalKey::N => 16,
            LogicalKey::O => 17,
            LogicalKey::P => 18,
            LogicalKey::Q => 19,
            LogicalKey::R => 20,
            LogicalKey::S => 21,
            LogicalKey::T => 22,
            LogicalKey::U => 23,
            LogicalKey::V => 24,
            LogicalKey::W => 25,
            LogicalKey::X => 26,
            LogicalKey::Y => 27,
            LogicalKey::Z => 28,
            LogicalKey::Semicolon => 29,
            LogicalKey::Comma => 30,
            LogicalKey::Dot => 31,
            LogicalKey::Slash => 32,
            LogicalKey::Space => 33,
            LogicalKey::Esc => 34,
            LogicalKey::Backspace => 35,
        }
    }

    /// The key at a given ordinal.
    pub open spec fn from_ordinal(i: nat) -> LogicalKey {
        if i == 0 { LogicalKey::CapsLock }
        else if i == 1 { LogicalKey::ShiftLeft }
        else if i == 2 { LogicalKey::ControlLeft }
        else if i == 3 { LogicalKey::A }
        else if i == 4 { LogicalKey::B }
        else if i == 5 { LogicalKey::C }
        else if i == 6 { LogicalKey::D }
        else if i == 7 { LogicalKey::E }
        else if i == 8 { LogicalKey::F }
        else if i == 9 { LogicalKey::G }
        else if i == 10 { LogicalKey::H }
        else if i == 11 { LogicalKey::I }
        else if i == 12 { LogicalKey::J }
        else if i == 13 { LogicalKey::K }
        else if i == 14 { LogicalKey::L }
        else if i == 15 { LogicalKey::M }
        else if i == 16 { LogicalKey::N }
        else if i == 17 { LogicalKey::O }
        else if i == 18 { LogicalKey::P }
        else if i == 19 { LogicalKey::Q }
        else if i == 20 { LogicalKey::R }
        else if i == 21 { LogicalKey::S }
        else if i == 22 { LogicalKey::T }
        else if i == 23 { LogicalKey::U }
        else if i == 24 { LogicalKey::V }
        else if i == 25 { LogicalKey::W }
        else if i == 26 { LogicalKey::X }
        else if i == 27 { LogicalKey::Y }
        else if i == 28 { LogicalKey::Z }
        else if i == 29 { LogicalKey::Semicolon }
        else if i == 30 { LogicalKey::Comma }
        else if i == 31 { LogicalKey::Dot }
        else if i == 32 { LogicalKey::Slash }
        else if i == 33 { LogicalKey::Space }
        else if i == 34 { LogicalKey::Esc }
        else { LogicalKey::Backspace }
    }

    /// Canonical lower-case name, also drawn as the grid label.
    pub open spec fn name(self) -> Seq<char> {
        match self {
            LogicalKey::CapsLock => seq!['c', 'a', 'p', 's', 'l', 'o', 'c', 'k'],
            LogicalKey::ShiftLeft => seq!['s', 'h', 'i', 'f', 't', '_', 'l', 'e', 'f', 't'],
            LogicalKey::ControlLeft => seq!['c', 'o', 'n', 't', 'r', 'o', 'l', '_', 'l', 'e', 'f', 't'],
            LogicalKey::A => seq!['a'],
            LogicalKey::B => seq!['b'],
            LogicalKey::C => seq!['c'],
            LogicalKey::D => seq!['d'],
            LogicalKey::E => seq!['e'],
            LogicalKey::F => seq!['f'],
            LogicalKey::G => seq!['g'],
            LogicalKey::H => seq!['h'],
            LogicalKey::I => seq!['i'],
            LogicalKey::J => seq!['j'],
            LogicalKey::K => seq!['k'],
            LogicalKey::L => seq!['l'],
            LogicalKey::M => seq!['m'],
            LogicalKey::N => seq!['n'],
            LogicalKey::O => seq!['o'],
            LogicalKey::P => seq!['p'],
            LogicalKey::Q => seq!['q'],
            LogicalKey::R => seq!['r'],
            LogicalKey::S => seq!['s'],
            LogicalKey::T => seq!['t'],
            LogicalKey::U => seq!['u'],
            LogicalKey::V => seq!['v'],
            LogicalKey::W => seq!['w'],
            LogicalKey::X => seq!['x'],
            LogicalKey::Y => seq!['y'],
            LogicalKey::Z => seq!['z'],
            LogicalKey::Semicolon => seq![';'],
            LogicalKey::Comma => seq![','],
            LogicalKey::Dot => seq!['.'],
            LogicalKey::Slash => seq!['/'],
            LogicalKey::Space => seq!['s', 'p', 'a', 'c', 'e'],
            LogicalKey::Esc => seq!['e', 's', 'c'],
            LogicalKey::Backspace => seq!['b', 'a', 'c', 'k', 's', 'p', 'a', 'c', 'e'],
        }
    }

    /// Position of the key in declaration order.
    pub fn index(self) -> (i: usize)
        ensures
            i as nat == self.ordinal(),
            i < KEY_COUNT,
    {
        match self {
            LogicalKey::CapsLock => 0,
            LogicalKey::ShiftLeft => 1,
            LogicalKey::ControlLeft => 2,
            LogicalKey::A => 3,
            LogicalKey::B => 4,
            LogicalKey::C => 5,
            LogicalKey::D => 6,
            LogicalKey::E => 7,
            LogicalKey::F => 8,
            LogicalKey::G => 9,
            LogicalKey::H => 10,
            LogicalKey::I => 11,
            LogicalKey::J => 12,
            LogicalKey::K => 13,
            LogicalKey::L => 14,
            LogicalKey::M => 15,
            LogicalKey::N => 16,
            LogicalKey::O => 17,
            LogicalKey::P => 18,
            LogicalKey::Q => 19,
            LogicalKey::R => 20,
            LogicalKey::S => 21,
            LogicalKey::T => 22,
            LogicalKey::U => 23,
            LogicalKey::V => 24,
            LogicalKey::W => 25,
            LogicalKey::X => 26,
            LogicalKey::Y => 27,
            LogicalKey::Z => 28,
            LogicalKey::Semicolon => 29,
            LogicalKey::Comma => 30,
            LogicalKey::Dot => 31,
            LogicalKey::Slash => 32,
            LogicalKey::Space => 33,
            LogicalKey::Esc => 34,
            LogicalKey::Backspace => 35,
        }
    }

    /// The key at a given ordinal.
    pub fn at_index(i: usize) -> (k: LogicalKey)
        requires
            i < KEY_COUNT,
        ensures
            k == LogicalKey::from_ordinal(i as nat),
            k.ordinal() == i,
    {
        if i == 0 {
            LogicalKey::CapsLock
        } else if i == 1 {
            LogicalKey::ShiftLeft
        } else if i == 2 {
            LogicalKey::ControlLeft
        } else if i == 3 {
            LogicalKey::A
        } else if i == 4 {
            LogicalKey::B
        } else if i == 5 {
            LogicalKey::C
        } else if i == 6 {
            LogicalKey::D
        } else if i == 7 {
            LogicalKey::E
        } else if i == 8 {
            LogicalKey::F
        } else if i == 9 {
            LogicalKey::G
        } else if i == 10 {
            LogicalKey::H
        } else if i == 11 {
            LogicalKey::I
        } else if i == 12 {
            LogicalKey::J
        } else if i == 13 {
            LogicalKey::K
        } else if i == 14 {
            LogicalKey::L
        } else if i == 15 {
            LogicalKey::M
        } else if i == 16 {
            LogicalKey::N
        } else if i == 17 {
            LogicalKey::O
        } else if i == 18 {
            LogicalKey::P
        } else if i == 19 {
            LogicalKey::Q
        } else if i == 20 {
            LogicalKey::R
        } else if i == 21 {
            LogicalKey::S
        } else if i == 22 {
            LogicalKey::T
        } else if i == 23 {
            LogicalKey::U
        } else if i == 24 {
            LogicalKey::V
        } else if i == 25 {
            LogicalKey::W
        } else if i == 26 {
            LogicalKey::X
        } else if i == 27 {
            LogicalKey::Y
        } else if i == 28 {
            LogicalKey::Z
        } else if i == 29 {
            LogicalKey::Semicolon
        } else if i == 30 {
            LogicalKey::Comma
        } else if i == 31 {
            LogicalKey::Dot
        } else if i == 32 {
            LogicalKey::Slash
        } else if i == 33 {
            LogicalKey::Space
        } else if i == 34 {
            LogicalKey::Esc
        } else {
            LogicalKey::Backspace
        }
    }

    /// Canonical lower-case name of the key; the grid draws it as the label.
    pub fn label(self) -> (s: &'static str)
        ensures
            s@ == self.name(),
    {
        match self {
            LogicalKey::CapsLock => {
                proof { reveal_strlit("capslock"); }
                "capslock"
            }
            LogicalKey::ShiftLeft => {
                proof { reveal_strlit("shift_left"); }
                "shift_left"
            }
            LogicalKey::ControlLeft => {
                proof { reveal_strlit("control_left"); }
                "control_left"
            }
            LogicalKey::A => {
                proof { reveal_strlit("a"); }
                "a"
            }
            LogicalKey::B => {
                proof { reveal_strlit("b"); }
                "b"
            }
            LogicalKey::C => {
                proof { reveal_strlit("c"); }
                "c"
            }
            LogicalKey::D => {
                proof { reveal_strlit("d"); }
                "d"
            }
            LogicalKey::E => {
                proof { reveal_strlit("e"); }
                "e"
            }
            LogicalKey::F => {
                proof { reveal_strlit("f"); }
                "f"
            }
            LogicalKey::G => {
                proof { reveal_strlit("g"); }
                "g"
            }
            LogicalKey::H => {
                proof { reveal_strlit("h"); }
                "h"
            }
            LogicalKey::I => {
                proof { reveal_strlit("i"); }
                "i"
            }
            LogicalKey::J => {
                proof { reveal_strlit("j"); }
                "j"
            }
            LogicalKey::K => {
                proof { reveal_strlit("k"); }
                "k"
            }
            LogicalKey::L => {
                proof { reveal_strlit("l"); }
                "l"
            }
            LogicalKey::M => {
                proof { reveal_strlit("m"); }
                "m"
            }
            LogicalKey::N => {
                proof { reveal_strlit("n"); }
                "n"
            }
            LogicalKey::O => {
                proof { reveal_strlit("o"); }
                "o"
            }
            LogicalKey::P => {
                proof { reveal_strlit("p"); }
                "p"
            }
            LogicalKey::Q => {
                proof { reveal_strlit("q"); }
                "q"
            }
            LogicalKey::R => {
                proof { reveal_strlit("r"); }
                "r"
            }
            LogicalKey::S => {
                proof { reveal_strlit("s"); }
                "s"
            }
            LogicalKey::T => {
                proof { reveal_strlit("t"); }
                "t"
            }
            LogicalKey::U => {
                proof { reveal_strlit("u"); }
                "u"
            }
            LogicalKey::V => {
                proof { reveal_strlit("v"); }
                "v"
            }
            LogicalKey::W => {
                proof { reveal_strlit("w"); }
                "w"
            }
            LogicalKey::X => {
                proof { reveal_strlit("x"); }
                "x"
            }
            LogicalKey::Y => {
                proof { reveal_strlit("y"); }
                "y"
            }
            LogicalKey::Z => {
                proof { reveal_strlit("z"); }
                "z"
            }
            LogicalKey::Semicolon => {
                proof { reveal_strlit(";"); }
                ";"
            }
            LogicalKey::Comma => {
                proof { reveal_strlit(","); }
                ","
            }
            LogicalKey::Dot => {
                proof { reveal_strlit("."); }
                "."
            }
            LogicalKey::Slash => {
                proof { reveal_strlit("/"); }
                "/"
            }
            LogicalKey::Space => {
                proof { reveal_strlit("space"); }
                "space"
            }
            LogicalKey::Esc => {
                proof { reveal_strlit("esc"); }
                "esc"
            }
            LogicalKey::Backspace => {
                proof { reveal_strlit("backspace"); }
                "backspace"
            }
        }
    }
}

/// Distinct keys have distinct ordinals, and ordinals round trip.
pub proof fn lemma_ordinal_injective(a: LogicalKey, b: LogicalKey)
    ensures
        a.ordinal() < KEY_COUNT,
        LogicalKey::from_ordinal(a.ordinal()) == a,
        a.ordinal() == b.ordinal() ==> a == b,
{
}

#[derive(Debug, Clone, Copy, PartialEq, Eq, Structural)]
pub enum Phase {
    Press,
    Release,
}

#[derive(Debug, Clone, Copy, PartialEq, Eq, Structural)]
pub struct KeyEvent {
    pub key: LogicalKey,
    pub phase: Phase,
}

impl KeyEvent {
    pub fn new(key: LogicalKey, phase: Phase) -> (e: Self)
        ensures
            e.key == key,
            e.phase == phase,
    {
        Self { key, phase }
    }
}

#[derive(Debug, Clone, Copy, PartialEq, Eq, Structural)]
pub enum Action {
    MoveLeft,
    MoveRight,
    MoveUp,
    MoveDown,
    SpeedDown,
    SpeedUp,
    ClickLeft,
    ClickRight,
    ScrollUp,
    ScrollDown,
    EnterGrid,
    /// Absolute pointer move chosen by the grid.
    MoveTo(i64, i64),
    /// Absolute move followed by one left click.
    ClickAt(i64, i64),
    /// Absolute move followed by a held left button.
    DragTo(i64, i64),
    /// Release of the left button held by `DragTo`.
    DragEnd,
}

#[derive(Debug, Clone, Copy, PartialEq, Eq, Structural)]
pub enum Direction {
    Left,
    Right,
    Up,
    Down,
}

pub const START_SPEED_PX_S: u64 = 300;
pub const MAX_SPEED_PX_S: u64 = 3000;
pub const RAMP_MS: u64 = 500;
pub const MULT_MIN_PCT: u64 = 25;
pub const MULT_MAX_PCT: u64 = 800;

/// Pointer acceleration profile: linear ramp from start to max speed.
#[derive(Debug, Clone, Copy, PartialEq, Eq, Structural)]
pub struct MotionConfig {
    pub start_speed_px_s: u64,
    pub max_speed_px_s: u64,
    pub ramp_ms: u64,
}

impl Default for MotionConfig {
    fn default() -> (m: Self)
        ensures
            m.start_speed_px_s == START_SPEED_PX_S,
            m.max_speed_px_s == MAX_SPEED_PX_S,
            m.ramp_ms == RAMP_MS,
    {
        MotionConfig { start_speed_px_s: START_SPEED_PX_S, max_speed_px_s: MAX_SPEED_PX_S, ramp_ms: RAMP_MS }
    }
}

/// Per-event decision: whether the key is swallowed and what to perform.
#[derive(Debug, Clone, Copy, PartialEq, Eq, Structural)]
pub struct Outcome {
    pub consumed: bool,
    pub action: Option<Action>,
}

impl Outcome {
    /// The key belongs to the focused application: not consumed, no action.
    pub fn pass() -> (o: Outcome)
        ensures
            !o.consumed,
            o.action is None,
    {
        Outcome { consumed: false, action: None }
    }
}

/// A total map from logical keys to optional values, stored by key ordinal so
/// that iteration order and equality are canonical.
#[derive(Debug, Clone, PartialEq, Eq)]
pub struct KeyMap<V> {
    slots: Vec<Option<V>>,
}

impl<V> KeyMap<V> {
    /// Value bound to the key, if any.
    pub closed spec fn spec_get(self, k: LogicalKey) -> Option<V> {
        if k.ordinal() < self.slots.len() {
            self.slots@[k.ordinal() as int]
        } else {
            None
        }
    }

    /// The bound keys and their values.
    pub open spec fn view_map(self) -> Map<LogicalKey, V> {
        Map::new(|k: LogicalKey| self.spec_get(k) is Some, |k: LogicalKey| self.spec_get(k)->0)
    }

    pub fn new() -> (m: Self)
        ensures
            forall|k: LogicalKey| m.spec_get(k) is None,
    {
        let mut slots: Vec<Option<V>> = Vec::new();
        while slots.len() < KEY_COUNT
            invariant
                slots.len() <= KEY_COUNT,
                forall|i: int| 0 <= i < slots.len() ==> slots@[i] is None,
            decreases KEY_COUNT - slots.len(),
        {
            slots.push(None);
        }
        KeyMap { slots }
    }

    pub fn get(&self, k: &LogicalKey) -> (r: Option<&V>)
        ensures
            r == match self.spec_get(*k) {
                Some(v) => Some(&v),
                None => None::<&V>,
            },
    {
        let i = k.index();
        if i < self.slots.len() {
            match &self.slots[i] {
                Some(v) => Some(v),
                None => None,
            }
        } else {
            None
        }
    }

    pub fn contains_key(&self, k: &LogicalKey) -> (r: bool)
        ensures
            r == self.spec_get(*k) is Some,
    {
        let i = k.index();
        i < self.slots.len() && self.slots[i].is_some()
    }

    /// Makes room so that every key ordinal has a slot, without binding anything.
    fn grow(&mut self)
        ensures
            final(self).slots.len() >= KEY_COUNT,
            forall|o: LogicalKey| final(self).spec_get(o) == old(self).spec_get(o),
    {
        while self.slots.len() < KEY_COUNT
            invariant
                forall|o: LogicalKey| self.spec_get(o) == old(self).spec_get(o),
            decreases KEY_COUNT - self.slots.len(),
        {
            self.slots.push(None);
            proof {
                assert forall|o: LogicalKey| self.spec_get(o) == old(self).spec_get(o) by {
                    lemma_ordinal_injective(o, o);
                }
            }
        }
    }

    /// Binds `k` to `v` and returns the previous value.
    pub fn insert(&mut self, k: LogicalKey, v: V) -> (prev: Option<V>)
        ensures
            prev == old(self).spec_get(k),
            final(self).spec_get(k) == Some(v),
            forall|o: LogicalKey| o != k ==> final(self).spec_get(o) == old(self).spec_get(o),
    {
        self.grow();
        let i = k.index();
        let mut slot = Some(v);
        std::mem::swap(&mut slot, &mut self.slots[i]);
        proof {
            assert forall|o: LogicalKey| o != k implies self.spec_get(o) == old(self).spec_get(o) by {
                lemma_ordinal_injective(o, k);
            }
        }
        slot
    }

    /// Unbinds `k` and returns the previous value.
    pub fn remove(&mut self, k: &LogicalKey) -> (prev: Option<V>)
        ensures
            prev == old(self).spec_get(*k),
            final(self).spec_get(*k) is None,
            forall|o: LogicalKey| o != *k ==> final(self).spec_get(o) == old(self).spec_get(o),
    {
        self.grow();
        let i = k.index();
        let mut slot = None;
        std::mem::swap(&mut slot, &mut self.slots[i]);
        proof {
            assert forall|o: LogicalKey| o != *k implies self.spec_get(o) == old(self).spec_get(o) by {
                lemma_ordinal_injective(o, *k);
            }
        }
        slot
    }

    /// Unbinds every key.
    pub fn clear(&mut self)
        ensures
            forall|k: LogicalKey| final(self).spec_get(k) is None,
    {
        *self = KeyMap::new();
    }

    pub fn is_empty(&self) -> (r: bool)
        ensures
            r == (forall|k: LogicalKey| self.spec_get(k) is None),
    {
        self.len() == 0
    }

    /// Number of bound keys.
    pub fn len(&self) -> (n: usize)
        ensures
            n <= KEY_COUNT,
            n == 0 <==> (forall|k: LogicalKey| self.spec_get(k) is None),
    {
        let mut i: usize = 0;
        let mut n: usize = 0;
        while i < KEY_COUNT
            invariant
                0 <= i <= KEY_COUNT,
                n <= i,
                n == 0 <==> (forall|j: nat| j < i ==> self.spec_get(LogicalKey::from_ordinal(j)) is None),
            decreases KEY_COUNT - i,
        {
            proof { lemma_ordinal_injective(LogicalKey::from_ordinal(i as nat), LogicalKey::from_ordinal(i as nat)); }
            if self.slot(i).is_some() {
                n = n + 1;
            }
            i = i + 1;
        }
        proof {
            if n == 0 {
                assert forall|k: LogicalKey| self.spec_get(k) is None by {
                    lemma_ordinal_injective(k, k);
                    assert(LogicalKey::from_ordinal(k.ordinal()) == k);
                }
            }
        }
        n
    }

    /// The value stored at ordinal `i`, for traversal in key order.
    pub fn slot(&self, i: usize) -> (r: Option<&V>)
        requires
            i < KEY_COUNT,
        ensures
            r == match self.spec_get(LogicalKey::from_ordinal(i as nat)) {
                Some(v) => Some(&v),
                None => None::<&V>,
            },
    {
        let k = LogicalKey::at_index(i);
        self.get(&k)
    }
}

/// The factory mouse-layer bindings: HJKL move, U/O speed, F/D click,
/// W/S scroll and Space enters the grid.
pub open spec fn spec_default_binding(k: LogicalKey) -> Option<Action> {
    match k {
        LogicalKey::H => Some(Action::MoveLeft),
        LogicalKey::J => Some(Action::MoveRight),
        LogicalKey::K => Some(Action::MoveUp),
        LogicalKey::L => Some(Action::MoveDown),
        LogicalKey::U => Some(Action::SpeedDown),
        LogicalKey::O => Some(Action::SpeedUp),
        LogicalKey::F => Some(Action::ClickLeft),
        LogicalKey::D => Some(Action::ClickRight),
        LogicalKey::W => Some(Action::ScrollUp),
        LogicalKey::S => Some(Action::ScrollDown),
        LogicalKey::Space => Some(Action::EnterGrid),
        _ => None,
    }
}

pub fn default_bindings() -> (m: KeyMap<Action>)
    ensures
        forall|k: LogicalKey| m.spec_get(k) == spec_default_binding(k),
{
    let mut m = KeyMap::new();
    m.insert(LogicalKey::H, Action::MoveLeft);
    m.insert(LogicalKey::J, Action::MoveRight);
    m.insert(LogicalKey::K, Action::MoveUp);
    m.insert(LogicalKey::L, Action::MoveDown);
    m.insert(LogicalKey::U, Action::SpeedDown);
    m.insert(LogicalKey::O, Action::SpeedUp);
    m.insert(LogicalKey::F, Action::ClickLeft);
    m.insert(LogicalKey::D, Action::ClickRight);
    m.insert(LogicalKey::W, Action::ScrollUp);
    m.insert(LogicalKey::S, Action::ScrollDown);
    m.insert(LogicalKey::Space, Action::EnterGrid);
    m
}


/// Distinct keys have distinct names.
pub proof fn lemma_name_injective(a: LogicalKey, b: LogicalKey)
    ensures
        a.name() == b.name() ==> a == b,
{
    if a.name() == b.name() {
        assert(a.name().len() == b.name().len());
        assert(a.name()[0] == b.name()[0]);
        if a.name().len() > 1 {
            assert(a.name()[1] == b.name()[1]);
        }
    }
}
} // verus!
