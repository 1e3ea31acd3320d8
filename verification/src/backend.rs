//! Output and overlay backend interfaces the hooks drive.
use vstd::prelude::*;
use crate::grid::OverlayFrame;
use crate::hook::OutputCommand;

verus! {

/// Renderer interface for grid overlays. The navigator produces pure frames;
/// a backend draws them.
pub trait OverlayBackend {
    fn show(&mut self, frame: &OverlayFrame) -> Result<(), String>;

    fn hide_frame(&mut self) -> Result<(), String>;
}

/// The renderer installed when none is: accepts every frame and draws nothing.
#[derive(Debug, Default, Clone, Copy)]
pub struct NullOverlay;

impl OverlayBackend for NullOverlay {
    fn show(&mut self, _frame: &OverlayFrame) -> (r: Result<(), String>)
        ensures
            r is Ok,
    {
        Ok(())
    }

    fn hide_frame(&mut self) -> (r: Result<(), String>)
        ensures
            r is Ok,
    {
        Ok(())
    }
}

#[derive(Debug, Clone, Copy, PartialEq, Eq, Structural)]
pub enum Button {
    Left,
    Right,
    Middle,
}

#[derive(Debug, Clone, Copy, PartialEq, Eq, Structural)]
pub enum Dir {
    Down,
    Up,
}

/// Pointer output. `click` presses then releases, and a failed press is never
/// followed by a release.
///
/// A backend may keep a log of what it is handed (`records` and `sent`):
/// each call then adds its command to the log. A click may be logged as its
/// press and release, and one whose press failed as the press alone; a
/// backend without absolute positioning logs nothing for an absolute move.
pub trait OutputBackend {
    /// Whether the backend keeps `sent`, the log of what it was handed.
    /// A backend written outside the verifier keeps none.
    open spec fn records() -> bool {
        false
    }

    /// What the backend was handed, oldest first, where it keeps a log.
    open spec fn sent(&self) -> Seq<OutputCommand> {
        Seq::empty()
    }

    fn move_rel(&mut self, dx: i32, dy: i32) -> (r: Result<(), String>)
        ensures
            Self::records() ==> final(self).sent() == old(self).sent().push(OutputCommand::MoveRel(dx, dy)),
    ;

    /// Moves the pointer to a screen position. The provided body is for a
    /// backend without absolute positioning: it accepts the move and does
    /// nothing.
    fn move_abs(&mut self, x: i32, y: i32) -> (r: Result<(), String>)
        ensures
            Self::records() ==> final(self).sent() == old(self).sent().push(OutputCommand::MoveAbs(x, y))
                || final(self).sent() == old(self).sent(),
        default_ensures
            r is Ok && final(self).sent() == old(self).sent(),
    {
        Ok(())
    }

    fn button(&mut self, b: Button, d: Dir) -> (r: Result<(), String>)
        ensures
            Self::records() ==> final(self).sent() == old(self).sent().push(OutputCommand::Press(b, d)),
    ;

    fn click(&mut self, b: Button) -> (r: Result<(), String>)
        ensures
            Self::records() ==> logged(OutputCommand::Click(b), r is Ok, old(self).sent(), final(self).sent()),
    {
        match self.button(b, Dir::Down) {
            Err(e) => Err(e),
            Ok(()) => self.button(b, Dir::Up),
        }
    }

    fn scroll(&mut self, dx: i32, dy: i32) -> (r: Result<(), String>)
        ensures
            Self::records() ==> final(self).sent() == old(self).sent().push(OutputCommand::Scroll(dx, dy)),
    ;
}

/// `after` is the log `before` with the command `c` handed to the backend:
/// the command itself; for a click, its press and release, or the press
/// alone when the click failed; for an absolute move, nothing at all.
pub open spec fn logged(c: OutputCommand, ok: bool, before: Seq<OutputCommand>, after: Seq<OutputCommand>) -> bool {
    ||| after == before.push(c)
    ||| (c matches OutputCommand::Click(b) && (after == before.push(OutputCommand::Press(b, Dir::Down))
            .push(OutputCommand::Press(b, Dir::Up))
        || (!ok && after == before.push(OutputCommand::Press(b, Dir::Down)))))
    ||| (c is MoveAbs && after == before)
}

/// `logs` holds the log before each command and after the last, each
/// command going through.
pub open spec fn logged_steps(cmds: Seq<OutputCommand>, logs: Seq<Seq<OutputCommand>>) -> bool {
    &&& logs.len() == cmds.len() + 1
    &&& forall|i: int| 0 <= i < cmds.len() ==> logged(#[trigger] cmds[i], true, logs[i], logs[i + 1])
}

/// `after` is the log `before` with the commands handed over in order, each
/// one going through.
pub open spec fn logged_all(cmds: Seq<OutputCommand>, before: Seq<OutputCommand>, after: Seq<OutputCommand>) -> bool {
    exists|logs: Seq<Seq<OutputCommand>>| #[trigger] logged_steps(cmds, logs) && logs[0] == before
        && logs.last() == after
}


/// A backend that performs nothing and keeps the log of what it is handed:
/// for dry runs and for checking what a hook sends.
pub struct CommandLog {
    pub entries: Vec<OutputCommand>,
}

impl CommandLog {
    pub fn new() -> (l: Self)
        ensures
            l.entries@.len() == 0,
    {
        CommandLog { entries: Vec::new() }
    }
}

impl OutputBackend for CommandLog {
    open spec fn records() -> bool {
        true
    }

    open spec fn sent(&self) -> Seq<OutputCommand> {
        self.entries@
    }

    fn move_rel(&mut self, dx: i32, dy: i32) -> (r: Result<(), String>) {
        self.entries.push(OutputCommand::MoveRel(dx, dy));
        Ok(())
    }

    fn move_abs(&mut self, x: i32, y: i32) -> (r: Result<(), String>) {
        self.entries.push(OutputCommand::MoveAbs(x, y));
        Ok(())
    }

    fn button(&mut self, b: Button, d: Dir) -> (r: Result<(), String>) {
        self.entries.push(OutputCommand::Press(b, d));
        Ok(())
    }

    fn click(&mut self, b: Button) -> (r: Result<(), String>) {
        self.entries.push(OutputCommand::Click(b));
        Ok(())
    }

    fn scroll(&mut self, dx: i32, dy: i32) -> (r: Result<(), String>) {
        self.entries.push(OutputCommand::Scroll(dx, dy));
        Ok(())
    }
}

} // verus!
