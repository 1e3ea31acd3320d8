//! What a keyboard hook does with the machine's decisions: the pointer
//! commands each action issues, and the shared hook core the Linux and macOS
//! hooks run.
use vstd::prelude::*;
use crate::backend::{logged, logged_all, logged_steps, Button, Dir, NullOverlay, OutputBackend, OverlayBackend};
use crate::grid::{opt_frame_eq, opt_frame_view, FrameView, OverlayFrame};
use crate::keys::{Action, KeyEvent, KeyMap, Layer, LogicalKey, MotionConfig, Phase};
use crate::machine::{MachineView, StateMachine};

verus! {

/// One call on the output backend.
#[derive(Debug, Clone, Copy, PartialEq, Eq, Structural)]
pub enum OutputCommand {
    MoveRel(i32, i32),
    MoveAbs(i32, i32),
    Press(Button, Dir),
    Click(Button),
    Scroll(i32, i32),
}

/// Scroll notches per scroll action: the configured step, at least one.
pub open spec fn notches(step: i64) -> i32 {
    (if step < 1 { 1 } else { step }) as i32
}

/// `v` negated with two's-complement wrap-around.
pub open spec fn wrapping_neg(v: i32) -> i32 {
    if v == i32::MIN { i32::MIN } else { (-v) as i32 }
}

/// The pointer commands an action issues, in order. Motion, speed and grid
/// entry actions issue none: the machine handles them.
pub open spec fn action_commands(a: Action, scroll_step: i64) -> Seq<OutputCommand> {
    match a {
        Action::ClickLeft => seq![OutputCommand::Click(Button::Left)],
        Action::ClickRight => seq![OutputCommand::Click(Button::Right)],
        Action::ScrollUp => seq![OutputCommand::Scroll(0, notches(scroll_step))],
        Action::ScrollDown => seq![OutputCommand::Scroll(0, wrapping_neg(notches(scroll_step)))],
        Action::MoveTo(x, y) => seq![OutputCommand::MoveAbs(x as i32, y as i32)],
        Action::ClickAt(x, y) => seq![
            OutputCommand::MoveAbs(x as i32, y as i32),
            OutputCommand::Click(Button::Left),
        ],
        Action::DragTo(x, y) => seq![
            OutputCommand::MoveAbs(x as i32, y as i32),
            OutputCommand::Press(Button::Left, Dir::Down),
        ],
        Action::DragEnd => seq![OutputCommand::Press(Button::Left, Dir::Up)],
        _ => Seq::empty(),
    }
}

/// No pointer command follows: there is no action, or the action issues none.
pub open spec fn issues_nothing(a: Option<Action>, scroll_step: i64) -> bool {
    match a {
        Some(x) => action_commands(x, scroll_step).len() == 0,
        None => true,
    }
}

/// The relative moves a tick's displacements issue.
pub open spec fn move_commands(moves: Seq<(i64, i64)>) -> Seq<OutputCommand> {
    moves.map_values(|m: (i64, i64)| OutputCommand::MoveRel(m.0 as i32, m.1 as i32))
}

pub fn commands_for(a: Action, scroll_step: i64) -> (cmds: Vec<OutputCommand>)
    ensures
        cmds@ == action_commands(a, scroll_step),
{
    let s: i32 = (if scroll_step < 1 { 1 } else { scroll_step }) as i32;
    let down: i32 = if s == i32::MIN { i32::MIN } else { -s };
    let mut v: Vec<OutputCommand> = Vec::new();
    match a {
        Action::ClickLeft => v.push(OutputCommand::Click(Button::Left)),
        Action::ClickRight => v.push(OutputCommand::Click(Button::Right)),
        Action::ScrollUp => v.push(OutputCommand::Scroll(0, s)),
        Action::ScrollDown => v.push(OutputCommand::Scroll(0, down)),
        Action::MoveTo(x, y) => v.push(OutputCommand::MoveAbs(x as i32, y as i32)),
        Action::ClickAt(x, y) => {
            v.push(OutputCommand::MoveAbs(x as i32, y as i32));
            v.push(OutputCommand::Click(Button::Left));
        }
        Action::DragTo(x, y) => {
            v.push(OutputCommand::MoveAbs(x as i32, y as i32));
            v.push(OutputCommand::Press(Button::Left, Dir::Down));
        }
        Action::DragEnd => v.push(OutputCommand::Press(Button::Left, Dir::Up)),
        _ => {}
    }
    proof {
        assert(v@ =~= action_commands(a, scroll_step));
    }
    v
}

pub fn move_commands_for(moves: &Vec<(i64, i64)>) -> (cmds: Vec<OutputCommand>)
    ensures
        cmds@ == move_commands(moves@),
{
    let mut v: Vec<OutputCommand> = Vec::new();
    let mut i: usize = 0;
    while i < moves.len()
        invariant
            i <= moves.len(),
            v@.len() == i,
            forall|j: int| 0 <= j < i ==> #[trigger] v@[j] == OutputCommand::MoveRel(moves@[j].0 as i32, moves@[j].1 as i32),
        decreases moves.len() - i,
    {
        let m = moves[i];
        v.push(OutputCommand::MoveRel(m.0 as i32, m.1 as i32));
        i = i + 1;
    }
    proof {
        assert(v@ =~= move_commands(moves@));
    }
    v
}

/// Issues one command on the backend.
pub(crate) fn perform<O: OutputBackend>(out: &mut O, c: OutputCommand) -> (r: Result<(), String>)
    ensures
        O::records() ==> logged(c, r is Ok, old(out).sent(), final(out).sent()),
{
    match c {
        OutputCommand::MoveRel(dx, dy) => out.move_rel(dx, dy),
        OutputCommand::MoveAbs(x, y) => out.move_abs(x, y),
        OutputCommand::Press(b, d) => out.button(b, d),
        OutputCommand::Click(b) => out.click(b),
        OutputCommand::Scroll(dx, dy) => out.scroll(dx, dy),
    }
}

/// Issues the commands in order and stops at the first failure; `sent`
/// gains each command as it is handed to the backend, the failing one too.
/// With no commands the backend is not called and the result is success.
pub(crate) fn perform_all<O: OutputBackend>(out: &mut O, cmds: &Vec<OutputCommand>, sent: &mut Ghost<Seq<OutputCommand>>)
    -> (r: Result<(), String>)
    ensures
        cmds@.len() == 0 ==> r is Ok && *final(out) == *old(out),
        r is Ok ==> final(sent)@ == old(sent)@ + cmds@,
        r is Err ==> exists|k: int| 0 < k <= cmds@.len() && final(sent)@ == old(sent)@ + #[trigger] cmds@.take(k),
        O::records() && r is Ok ==> logged_all(cmds@, old(out).sent(), final(out).sent()),
{
    let mut i: usize = 0;
    let ghost mut logs: Seq<Seq<OutputCommand>> = seq![out.sent()];
    while i < cmds.len()
        invariant
            i <= cmds@.len(),
            cmds@.len() == 0 ==> *out == *old(out),
            sent@ == old(sent)@ + cmds@.take(i as int),
            logs.len() == i + 1,
            logs[0] == old(out).sent(),
            logs.last() == out.sent(),
            O::records() ==> forall|j: int| 0 <= j < i ==> logged(#[trigger] cmds@[j], true, logs[j], logs[j + 1]),
        decreases cmds.len() - i,
    {
        proof {
            assert(cmds@.take(i as int + 1) =~= cmds@.take(i as int).push(cmds@[i as int]));
        }
        *sent = Ghost(sent@.push(cmds@[i as int]));
        match perform(out, cmds[i]) {
            Ok(()) => {}
            Err(e) => {
                assert(sent@ == old(sent)@ + cmds@.take(i as int + 1));
                return Err(e);
            }
        }
        proof {
            let prev = logs;
            logs = logs.push(out.sent());
            assert forall|j: int| 0 <= j < i + 1 implies O::records() ==> logged(#[trigger] cmds@[j], true, logs[j], logs[j + 1]) by {
                if j < i {
                    assert(logs[j] == prev[j] && logs[j + 1] == prev[j + 1]);
                }
            }
        }
        i = i + 1;
    }
    proof {
        assert(cmds@.take(cmds@.len() as int) =~= cmds@);
        if O::records() {
            assert(logged_steps(cmds@, logs));
        }
    }
    Ok(())
}

/// The commands an optional action issues.
pub open spec fn opt_commands(a: Option<Action>, scroll_step: i64) -> Seq<OutputCommand> {
    match a {
        Some(x) => action_commands(x, scroll_step),
        None => Seq::empty(),
    }
}

/// The hook state shared by the Linux and macOS hooks: the machine, the
/// output, the overlay renderer and the frame it last presented.
pub struct KeyHook<O: OutputBackend> {
    sm: StateMachine,
    out: O,
    overlay: Box<dyn OverlayBackend>,
    shown_overlay: Option<OverlayFrame>,
    scroll_step: i64,
    sent: Ghost<Seq<OutputCommand>>,
}

impl<O: OutputBackend> KeyHook<O> {
    pub closed spec fn machine(&self) -> MachineView {
        self.sm@
    }

    /// The frame the renderer shows, as far as the hook knows.
    pub closed spec fn shown(&self) -> Option<FrameView> {
        opt_frame_view(self.shown_overlay)
    }

    pub closed spec fn scroll_step(&self) -> i64 {
        self.scroll_step
    }

    pub closed spec fn output(&self) -> O {
        self.out
    }

    /// Every command the hook has handed to the output backend, in order.
    pub closed spec fn issued(&self) -> Seq<OutputCommand> {
        self.sent@
    }

    pub fn from_machine(sm: StateMachine, out: O) -> (h: Self)
        ensures
            h.machine() == sm@,
            h.output() == out,
            h.shown() is None,
            h.scroll_step() == 1,
            h.issued().len() == 0,
    {
        KeyHook { sm, out, overlay: Box::new(NullOverlay), shown_overlay: None, scroll_step: 1, sent: Ghost(Seq::empty()) }
    }

    /// Scroll notches per scroll action, at least one.
    pub fn set_scroll_step(&mut self, step: i64)
        ensures
            final(self).scroll_step() == (if step < 1 { 1 } else { step }),
            final(self).machine() == old(self).machine(),
            final(self).shown() == old(self).shown(),
    {
        self.scroll_step = if step < 1 { 1 } else { step };
    }

    /// Installs the grid overlay renderer; nothing is shown on it yet.
    pub fn set_overlay(&mut self, overlay: Box<dyn OverlayBackend>)
        ensures
            final(self).shown() is None,
            final(self).machine() == old(self).machine(),
            final(self).scroll_step() == old(self).scroll_step(),
    {
        self.overlay = overlay;
        self.shown_overlay = None;
    }

    /// Runs the pointer commands of one action. An action that issues no
    /// pointer command leaves the output untouched and succeeds.
    pub fn execute(&mut self, action: Action) -> (r: Result<(), String>)
        ensures
            final(self).machine() == old(self).machine(),
            final(self).shown() == old(self).shown(),
            final(self).scroll_step() == old(self).scroll_step(),
            action_commands(action, old(self).scroll_step()).len() == 0 ==> r is Ok
                && final(self).output() == old(self).output(),
            r is Ok ==> final(self).issued() == old(self).issued() + action_commands(action, old(self).scroll_step()),
            r is Err ==> exists|k: int| 0 < k <= action_commands(action, old(self).scroll_step()).len()
                && final(self).issued() == old(self).issued()
                    + #[trigger] action_commands(action, old(self).scroll_step()).take(k),
            O::records() && r is Ok ==> logged_all(action_commands(action, old(self).scroll_step()),
                old(self).output().sent(), final(self).output().sent()),
    {
        let cmds = commands_for(action, self.scroll_step);
        let ghost all = action_commands(action, self.scroll_step);
        let r = perform_all(&mut self.out, &cmds, &mut self.sent);
        proof {
            if r is Err {
                let k = choose|k: int| 0 < k <= cmds@.len() && self.issued() == old(self).issued() + #[trigger] cmds@.take(k);
                assert(all.take(k) == cmds@.take(k));
            }
        }
        r
    }

    /// Shows the grid overlay for the current level and hides it otherwise.
    fn sync_overlay(&mut self) -> (r: Result<(), String>)
        requires
            old(self).machine().inv(),
        ensures
            final(self).machine() == old(self).machine(),
            final(self).scroll_step() == old(self).scroll_step(),
            final(self).output() == old(self).output(),
            final(self).issued() == old(self).issued(),
            r is Ok ==> final(self).shown() == final(self).machine().overlay(),
            r is Err ==> final(self).shown() == old(self).shown(),
            old(self).shown() == old(self).machine().overlay() ==> r is Ok
                && final(self).shown() == old(self).shown(),
    {
        let frame = self.sm.grid_overlay();
        if opt_frame_eq(&frame, &self.shown_overlay) {
            return Ok(());
        }
        match frame {
            Some(f) => {
                self.overlay.show(&f)?;
                self.shown_overlay = Some(f);
            }
            None => {
                self.overlay.hide_frame()?;
                self.shown_overlay = None;
            }
        }
        Ok(())
    }

    /// Feeds one translated key (none for an unmapped code) to the machine,
    /// runs the resulting action and syncs the overlay.
    pub fn process(&mut self, key: Option<LogicalKey>, is_down: bool, now_ms: u64) -> (r: Result<Option<Action>, String>)
        requires
            old(self).machine().inv(),
        ensures
            final(self).machine().inv(),
            final(self).scroll_step() == old(self).scroll_step(),
            match key {
                None => r == Ok::<Option<Action>, String>(None) && final(self).machine() == old(self).machine()
                    && final(self).shown() == old(self).shown() && final(self).output() == old(self).output()
                    && final(self).issued() == old(self).issued(),
                Some(k) => {
                    let ev = KeyEvent { key: k, phase: if is_down { Phase::Press } else { Phase::Release } };
                    let st = old(self).machine().step(ev, now_ms);
                    &&& final(self).machine() == st.0
                    &&& r is Ok ==> r == Ok::<Option<Action>, String>(st.1.action)
                    &&& r is Ok ==> final(self).shown() == final(self).machine().overlay()
                    &&& r is Ok ==> final(self).issued() == old(self).issued() + opt_commands(st.1.action, old(self).scroll_step())
                    &&& O::records() && r is Ok ==> logged_all(opt_commands(st.1.action, old(self).scroll_step()),
                        old(self).output().sent(), final(self).output().sent())
                    &&& issues_nothing(st.1.action, old(self).scroll_step()) && old(self).shown() == st.0.overlay()
                        ==> r is Ok && final(self).output() == old(self).output()
                            && final(self).shown() == old(self).shown()
                },
            },
    {
        let key = match key {
            Some(k) => k,
            None => return Ok(None),
        };
        let phase = if is_down { Phase::Press } else { Phase::Release };
        let action = self.sm.on_event(KeyEvent::new(key, phase), now_ms);
        if let Some(a) = action {
            self.execute(a)?;
        } else {
            assert(old(self).issued() + opt_commands(action, self.scroll_step) =~= old(self).issued());
            assert(logged_steps(opt_commands(action, self.scroll_step), seq![self.out.sent()]));
        }
        self.sync_overlay()?;
        Ok(action)
    }

    /// Hides the overlay.
    pub fn hide_overlay(&mut self) -> (r: Result<(), String>)
        ensures
            final(self).shown() is None,
            final(self).machine() == old(self).machine(),
            final(self).scroll_step() == old(self).scroll_step(),
            final(self).output() == old(self).output(),
    {
        self.shown_overlay = None;
        self.overlay.hide_frame()
    }

    /// Advances motion and issues one relative move per held direction.
    pub fn tick(&mut self, dt_ms: u64) -> (r: Result<(), String>)
        requires
            old(self).machine().inv(),
        ensures
            final(self).machine() == old(self).machine().ticked(dt_ms).0,
            final(self).machine().inv(),
            final(self).shown() == old(self).shown(),
            final(self).scroll_step() == old(self).scroll_step(),
            old(self).machine().ticked(dt_ms).1.len() == 0 ==> r is Ok
                && final(self).output() == old(self).output(),
            r is Ok ==> final(self).issued() == old(self).issued() + move_commands(old(self).machine().ticked(dt_ms).1),
            O::records() && r is Ok ==> logged_all(move_commands(old(self).machine().ticked(dt_ms).1),
                old(self).output().sent(), final(self).output().sent()),
    {
        let moves = self.sm.tick(dt_ms);
        let cmds = move_commands_for(&moves);
        perform_all(&mut self.out, &cmds, &mut self.sent)
    }

    pub fn sm(&self) -> (m: &StateMachine)
        ensures
            m@ == self.machine(),
    {
        &self.sm
    }

    pub fn sm_mut(&mut self) -> (m: &mut StateMachine)
        ensures
            m@ == old(self).machine(),
            final(self).machine() == final(m)@,
            final(self).shown() == old(self).shown(),
            final(self).scroll_step() == old(self).scroll_step(),
    {
        &mut self.sm
    }

    /// Capture is on: the pointer or grid layer is up.
    pub fn is_intercepting(&self) -> (b: bool)
        ensures
            b == (self.machine().layer == Layer::Mouse || self.machine().layer == Layer::Grid),
    {
        let l = self.sm.layer();
        l == Layer::Mouse || l == Layer::Grid
    }

    pub fn out(&self) -> (o: &O)
        ensures
            *o == self.output(),
    {
        &self.out
    }
}

} // verus!
