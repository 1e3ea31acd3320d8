//! First-run practice: a pure flow over the real machine with no output
//! backend, so practice can never move the pointer, click or scroll.
use vstd::prelude::*;
use crate::grid::{FrameView, CellView, GridConfig, OverlayFrame, opt_frame_view, config_ok, simple_keys};
use crate::keys::{KeyEvent, Layer, LogicalKey, Phase};
use crate::machine::{MachineView, StateMachine};
use crate::keycode::{vk_key, vk_to_logical};
use crate::text::{dec, push_dec, push_str};
use vstd::string::StringExecFns;

verus! {

/// Completion value stored in `practice_completed_version`.
pub const PRACTICE_VERSION: u32 = 2;

#[derive(Debug, Clone, Copy, PartialEq, Eq, Structural)]
pub enum Step {
    HoldLeader,
    GridPick,
    Done,
}

pub struct Practice {
    sm: StateMachine,
    step: Step,
    cancelled: bool,
    leader_down: bool,
}

/// The practice flow's state as the contracts see it.
pub struct PracticeView {
    pub machine: MachineView,
    pub step: Step,
    pub cancelled: bool,
    pub leader_down: bool,
}

/// The step after looking at the machine once: holding the leader reaches
/// the grid pick; closing the grid with a non-leader, non-Space key finishes.
pub open spec fn advanced(step: Step, m: MachineView, key: LogicalKey) -> Step {
    match step {
        Step::HoldLeader => if m.layer == Layer::Mouse || m.layer == Layer::Grid { Step::GridPick } else { step },
        Step::GridPick => if m.overlay() is None && key != LogicalKey::Space && key != LogicalKey::CapsLock {
            Step::Done
        } else {
            step
        },
        Step::Done => step,
    }
}

impl PracticeView {
    /// One dialog key, as `Practice::key` handles it.
    pub open spec fn keyed(self, e: KeyEvent, now_ms: u64) -> PracticeView {
        let release_leader = KeyEvent { key: LogicalKey::CapsLock, phase: Phase::Release };
        if self.cancelled || self.step == Step::Done {
            self
        } else if e.key == LogicalKey::Esc && e.phase == Phase::Press {
            PracticeView { cancelled: true, ..self }
        } else {
            let down = if e.key == LogicalKey::CapsLock { e.phase == Phase::Press } else { self.leader_down };
            if self.step == Step::GridPick && e.key == LogicalKey::CapsLock {
                PracticeView { machine: self.machine.step(release_leader, now_ms).0, leader_down: down, ..self }
            } else {
                let m = if self.step == Step::HoldLeader && e.key == LogicalKey::Space && e.phase == Phase::Press
                    && down {
                    self.machine.shown()
                } else {
                    self.machine.step(e, now_ms).0
                };
                let s1 = advanced(self.step, m, e.key);
                PracticeView { machine: m, step: advanced(s1, m, e.key), leader_down: down, ..self }
            }
        }
    }
}

impl View for Practice {
    type V = PracticeView;

    closed spec fn view(&self) -> PracticeView {
        PracticeView { machine: self.sm@, step: self.step, cancelled: self.cancelled, leader_down: self.leader_down }
    }
}

impl Practice {
    /// Practice over the simple grid on a 1920 x 1080 screen.
    pub fn new() -> (p: Self)
        ensures
            p@.step == Step::HoldLeader,
            !p@.cancelled,
            !p@.leader_down,
            p@.machine.inv(),
            p@.machine.layer == Layer::Initial,
            p@.machine.grid is Some,
    {
        let mut sm = StateMachine::new();
        let cfg = GridConfig::simple();
        proof {
            assert(config_ok(cfg));
        }
        sm.enable_grid(1920, 1080, cfg);
        Practice { sm, step: Step::HoldLeader, cancelled: false, leader_down: false }
    }

    pub fn step(&self) -> (s: Step)
        ensures
            s == self@.step,
    {
        self.step
    }

    pub fn cancelled(&self) -> (c: bool)
        ensures
            c == self@.cancelled,
    {
        self.cancelled
    }

    /// One-character labels in the current overlay, for the progress text.
    pub fn nested_count(&self) -> (n: usize)
        requires
            self@.machine.inv(),
        ensures
            n == match self@.machine.overlay() {
                Some(f) => f.cells.filter(|c: CellView| c.1.len() == 1).len(),
                None => 0,
            },
    {
        match self.sm.grid_overlay() {
            Some(frame) => frame.count_labels_of_len(1),
            None => 0,
        }
    }

    pub fn grid_overlay(&self) -> (f: Option<OverlayFrame>)
        requires
            self@.machine.inv(),
        ensures
            opt_frame_view(f) == self@.machine.overlay(),
    {
        self.sm.grid_overlay()
    }

    /// Feeds one dialog key to the engine and advances the step. Esc cancels
    /// from any step; keys after Done or cancel are ignored. In the grid step
    /// the leader key closes the grid, pressed or released.
    pub fn key(&mut self, event: KeyEvent, now_ms: u64)
        requires
            old(self)@.machine.inv(),
        ensures
            final(self)@ == old(self)@.keyed(event, now_ms),
            final(self)@.machine.inv(),
    {
        if self.cancelled || self.step == Step::Done {
            return;
        }
        if event.key == LogicalKey::Esc && event.phase == Phase::Press {
            self.cancelled = true;
            return;
        }
        if event.key == LogicalKey::CapsLock {
            self.leader_down = event.phase == Phase::Press;
        }
        if self.step == Step::GridPick && event.key == LogicalKey::CapsLock {
            self.sm.on_event(KeyEvent::new(LogicalKey::CapsLock, Phase::Release), now_ms);
            return;
        }
        if self.step == Step::HoldLeader && event.key == LogicalKey::Space && event.phase == Phase::Press
            && self.leader_down {
            self.sm.show_grid();
        } else {
            self.sm.on_event(event, now_ms);
        }
        self.advance(event.key);
        self.advance(event.key);
    }

    fn advance(&mut self, key: LogicalKey)
        requires
            old(self)@.machine.inv(),
        ensures
            final(self)@ == (PracticeView { step: advanced(old(self)@.step, old(self)@.machine, key), ..old(self)@ }),
    {
        let s = self.step;
        let l = self.sm.layer();
        self.step = match s {
            Step::HoldLeader => if l == Layer::Mouse || l == Layer::Grid { Step::GridPick } else { s },
            Step::GridPick => if self.sm.grid_overlay().is_none() && key != LogicalKey::Space
                && key != LogicalKey::CapsLock {
                Step::Done
            } else {
                s
            },
            Step::Done => s,
        };
    }

    /// Cancels practice (Esc, focus loss, Skip). Never touches output.
    pub fn cancel(&mut self)
        ensures
            final(self)@ == (PracticeView { cancelled: true, ..old(self)@ }),
    {
        self.cancelled = true;
    }
}

/// The instruction line of a practice step.
pub open spec fn step_line(step: Step) -> Seq<char> {
    match step {
        Step::HoldLeader => "Step 1 of 2: hold CapsLock to enter pointer mode."@,
        Step::GridPick => "Step 2 of 2: choose one outer cell, then one inner cell to click."@,
        Step::Done => "Done. Finish saves completion and closes."@,
    }
}

pub fn step_text(step: Step) -> (s: &'static str)
    ensures
        s@ == step_line(step),
{
    match step {
        Step::HoldLeader => "Step 1 of 2: hold CapsLock to enter pointer mode.",
        Step::GridPick => "Step 2 of 2: choose one outer cell, then one inner cell to click.",
        Step::Done => "Done. Finish saves completion and closes.",
    }
}

/// Labels separated by two spaces.
pub open spec fn joined_labels(labels: Seq<Seq<char>>) -> Seq<char>
    decreases labels.len(),
{
    if labels.len() == 0 {
        Seq::empty()
    } else if labels.len() == 1 {
        labels[0]
    } else {
        joined_labels(labels.drop_last()) + "  "@ + labels.last()
    }
}

/// The labels of the first thirty cells.
pub open spec fn first_labels(cells: Seq<CellView>) -> Seq<Seq<char>> {
    let shown = if cells.len() > 30 { cells.take(30) } else { cells };
    shown.map_values(|c: CellView| c.1)
}

/// The status line of a running practice: the grid's labels while the grid
/// is open, otherwise the nested-target count, which is zero with no grid.
pub open spec fn status_line(v: PracticeView) -> Seq<char> {
    match v.machine.overlay() {
        Some(f) => "Grid open. Choose a grid label:\n"@ + joined_labels(first_labels(f.cells)),
        None => "Nested targets so far: "@ + dec(0),
    }
}

/// What the practice dialog shows: its step line, its status line, and the
/// Finish button's state where the dialog sets it.
pub struct PracticeText {
    pub step: String,
    pub status: String,
    pub finish: Option<bool>,
}

fn labels_text(frame: &OverlayFrame) -> (s: String)
    ensures
        s@ == joined_labels(first_labels(frame@.cells)),
{
    let n = frame.cells.len();
    let m = if n > 30 { 30 } else { n };
    let ghost all = first_labels(frame@.cells);
    let mut s = String::new();
    let mut i: usize = 0;
    proof {
        assert(all.len() == m);
        assert(all.take(0) =~= Seq::<Seq<char>>::empty());
    }
    while i < m
        invariant
            i <= m,
            m <= n,
            n == frame@.cells.len(),
            m == (if n > 30 { 30 } else { n }),
            all == first_labels(frame@.cells),
            all.len() == m,
            s@ == joined_labels(all.take(i as int)),
        decreases m - i,
    {
        let ghost before = s@;
        if i > 0 {
            push_str(&mut s, "  ");
        }
        push_str(&mut s, frame.cells[i].label.as_str());
        proof {
            assert(all[i as int] == frame@.cells[i as int].1);
            assert(frame@.cells[i as int] == frame.cells@[i as int]@);
            let t = all.take(i + 1);
            assert(t.drop_last() =~= all.take(i as int));
            assert(t.last() == all[i as int]);
            if i == 0 {
                assert(t.len() == 1);
                assert(s@ =~= joined_labels(t));
            } else {
                assert(s@ =~= joined_labels(t));
            }
        }
        i = i + 1;
    }
    proof {
        assert(all.take(m as int) =~= all);
    }
    s
}

/// What refreshing the practice dialog shows for the practice it holds.
pub fn refresh(practice: &Option<Practice>) -> (t: PracticeText)
    requires
        practice matches Some(p) ==> p@.machine.inv(),
    ensures
        match practice {
            None => t.step@ == "Press Start, or Skip to leave."@ && t.status@ == Seq::<char>::empty()
                && t.finish is None,
            Some(p) => if p@.cancelled {
                t.step@ == "Practice cancelled."@ && t.status@ == "Start begins again; Esc closes."@
                    && t.finish is None
            } else {
                t.step@ == step_line(p@.step) && t.status@ == status_line(p@)
                    && t.finish == Some(p@.step == Step::Done)
            },
        },
{
    match practice {
        None => PracticeText {
            step: String::from_str("Press Start, or Skip to leave."),
            status: String::new(),
            finish: None,
        },
        Some(p) => {
            if p.cancelled() {
                PracticeText {
                    step: String::from_str("Practice cancelled."),
                    status: String::from_str("Start begins again; Esc closes."),
                    finish: None,
                }
            } else {
                let step = String::from_str(step_text(p.step()));
                let status = match p.grid_overlay() {
                    Some(frame) => {
                        let mut s = String::from_str("Grid open. Choose a grid label:\n");
                        let labels = labels_text(&frame);
                        push_str(&mut s, labels.as_str());
                        s
                    },
                    None => {
                        let mut s = String::from_str("Nested targets so far: ");
                        let count = p.nested_count();
                        push_dec(&mut s, count as i128);
                        s
                    },
                };
                PracticeText { step, status, finish: Some(p.step() == Step::Done) }
            }
        },
    }
}

/// A practice as Start creates it, as far as its construction pins it.
pub open spec fn started(v: PracticeView) -> bool {
    &&& v.step == Step::HoldLeader
    &&& !v.cancelled
    &&& !v.leader_down
    &&& v.machine.inv()
    &&& v.machine.layer == Layer::Initial
    &&& v.machine.grid is Some
}

/// One key the practice dialog receives. Keys without a mapping are ignored;
/// otherwise a practice starts if none runs, and the key goes to it. Returns
/// whether the dialog hides, which an Esc press always does.
pub fn feed_key(practice: &mut Option<Practice>, vk: u32, press: bool, now_ms: u64) -> (hide: bool)
    requires
        *old(practice) matches Some(p) ==> p@.machine.inv(),
    ensures
        *final(practice) matches Some(p) ==> p@.machine.inv(),
        match vk_key(vk) {
            None => *final(practice) == *old(practice) && !hide,
            Some(k) => {
                let e = KeyEvent { key: k, phase: if press { Phase::Press } else { Phase::Release } };
                &&& hide == (vk == 0x1B && press)
                &&& match (*old(practice), *final(practice)) {
                    (Some(a), Some(b)) => b@ == a@.keyed(e, now_ms),
                    (None, Some(b)) => exists|s: PracticeView| started(s) && b@ == s.keyed(e, now_ms),
                    (_, None) => false,
                }
            },
        },
{
    let key = match vk_to_logical(vk) {
        Some(k) => k,
        None => return false,
    };
    let event = KeyEvent::new(key, if press { Phase::Press } else { Phase::Release });
    let mut current = match practice.take() {
        Some(p) => p,
        None => Practice::new(),
    };
    let ghost before = current@;
    current.key(event, now_ms);
    proof {
        if (*old(practice)) is None {
            assert(started(before));
        }
    }
    *practice = Some(current);
    vk == 0x1B && press
}

} // verus!
