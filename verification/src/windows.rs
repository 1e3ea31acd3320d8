//! The Windows keyboard hook: virtual-key codes into the machine, with the
//! per-event suppression decision, screenshot-chord pass-through, overlay
//! frames queued for presentation between message drains, nested-grid keys
//! held back until the subgrid is on screen, runtime Apply, pause and the
//! Settings-focus suspension.
use vstd::prelude::*;
use crate::backend::{logged_all, logged_steps, Button, Dir, NullOverlay, OutputBackend, OverlayBackend};
use crate::config::{overlay_theme_of, Config, is_default_config};
use crate::grid::{opt_frame_eq, opt_frame_view, FrameView, CellView, OverlayFrame, Rect, config_ok};
use crate::hook::{action_commands, commands_for, issues_nothing, move_commands, move_commands_for, opt_commands, perform_all, OutputCommand};
use crate::keycode::{vk_key, vk_to_logical};
use crate::keys::{Action, KeyEvent, KeyMap, Layer, LogicalKey, MotionConfig, Outcome, Phase};
use crate::machine::{default_motion, fresh_machine, MachineView, StateMachine};
use crate::overlay::OverlayTheme;

verus! {

pub const VK_LWIN: u32 = 0x5B;
pub const VK_RWIN: u32 = 0x5C;
pub const VK_S: u32 = 0x53;
/// Keys held back while a required subgrid waits for presentation.
pub const MAX_DEFERRED_KEYS: usize = 16;

/// Modifier tracking for the OS screenshot chord: while Win is held, S
/// belongs to Win+Shift+S and must reach the OS, never the engine.
#[derive(Debug, Default, Clone, Copy, PartialEq, Eq, Structural)]
pub struct ChordGuard {
    pub win_down: bool,
}

impl ChordGuard {
    pub open spec fn observed(self, vk: u32, is_down: bool) -> ChordGuard {
        if vk == VK_LWIN || vk == VK_RWIN { ChordGuard { win_down: is_down } } else { self }
    }

    pub open spec fn spec_blocks(self, vk: u32) -> bool {
        self.win_down && vk == VK_S
    }

    pub fn observe(&mut self, vk: u32, is_down: bool)
        ensures
            *final(self) == old(self).observed(vk, is_down),
    {
        if vk == VK_LWIN || vk == VK_RWIN {
            self.win_down = is_down;
        }
    }

    pub fn blocks(&self, vk: u32) -> (b: bool)
        ensures
            b == self.spec_blocks(vk),
    {
        self.win_down && vk == VK_S
    }
}

/// A key event held back for replay.
#[derive(Debug, Clone, Copy, PartialEq, Eq, Structural)]
pub struct DeferredKey {
    pub vk: u32,
    pub is_down: bool,
    pub now_ms: u64,
}

/// The machine and chord guard after the held-back keys run in order, as a
/// replay runs them: a key the chord guard blocks or that has no engine key
/// passes; any other steps the machine.
pub open spec fn replayed(m: MachineView, c: ChordGuard, keys: Seq<DeferredKey>) -> (MachineView, ChordGuard)
    decreases keys.len(),
{
    if keys.len() == 0 {
        (m, c)
    } else {
        let k = keys[0];
        let c2 = c.observed(k.vk, k.is_down);
        let m2 = if c2.spec_blocks(k.vk) || vk_key(k.vk) is None {
            m
        } else {
            m.step(KeyEvent { key: vk_key(k.vk)->0, phase: if k.is_down { Phase::Press } else { Phase::Release } }, k.now_ms).0
        };
        replayed(m2, c2, keys.drop_first())
    }
}

/// The commands the held-back keys hand the backend as a replay runs them
/// in order, scrolling by `step`.
pub open spec fn replayed_commands(m: MachineView, c: ChordGuard, keys: Seq<DeferredKey>, step: i64) -> Seq<OutputCommand>
    decreases keys.len(),
{
    if keys.len() == 0 {
        Seq::empty()
    } else {
        let k = keys[0];
        let c2 = c.observed(k.vk, k.is_down);
        if c2.spec_blocks(k.vk) || vk_key(k.vk) is None {
            replayed_commands(m, c2, keys.drop_first(), step)
        } else {
            let st = m.step(KeyEvent { key: vk_key(k.vk)->0, phase: if k.is_down { Phase::Press } else { Phase::Release } }, k.now_ms);
            opt_commands(st.1.action, step) + replayed_commands(st.0, c2, keys.drop_first(), step)
        }
    }
}

/// What ending capture hands the backend: the left button's release while
/// a drag holds it, nothing otherwise.
pub open spec fn release_commands(drag: bool) -> Seq<OutputCommand> {
    if drag { seq![OutputCommand::Press(Button::Left, Dir::Up)] } else { Seq::empty() }
}

/// A boxed overlay renderer.
pub struct Renderer(pub Box<dyn OverlayBackend>);

/// Builds the overlay renderer for an applied theme.
pub trait OverlayFactory {
    fn build(&self, theme: OverlayTheme) -> Renderer;
}

/// The frame that must be on screen before nested keys may run: the dense
/// level 2 frame, with its 30 one-character and 299 two-character labels.
pub open spec fn is_required_subgrid(f: FrameView) -> bool {
    &&& f.level == 2
    &&& f.cells.filter(|c: CellView| c.1.len() == 1).len() == 30
    &&& f.cells.filter(|c: CellView| c.1.len() == 2).len() == 299
}

pub fn is_required_subgrid_frame(frame: &OverlayFrame) -> (b: bool)
    ensures
        b == is_required_subgrid(frame@),
{
    frame.level == 2 && frame.count_labels_of_len(1) == 30 && frame.count_labels_of_len(2) == 299
}

pub open spec fn opt_required(f: Option<FrameView>) -> bool {
    match f {
        Some(v) => is_required_subgrid(v),
        None => false,
    }
}

pub struct WindowsHook<O: OutputBackend> {
    sm: StateMachine,
    out: O,
    overlay: Box<dyn OverlayBackend>,
    shown_overlay: Option<OverlayFrame>,
    /// Frames the overlay must display, oldest first; presented by `flush_overlay`.
    overlay_queue: Vec<Option<OverlayFrame>>,
    deferred_keys: Vec<DeferredKey>,
    draining_deferred: bool,
    chord: ChordGuard,
    /// Monitor rects captured at startup so Apply can re-arm the grid.
    monitors: Vec<Rect>,
    overlay_factory: Option<Box<dyn OverlayFactory>>,
    /// Last applied full config, so the Settings editor opens on live values.
    applied_config: Option<Config>,
    /// The paused state to restore when Settings gives focus back.
    settings_saved_paused: Option<bool>,
    sent: Ghost<Seq<OutputCommand>>,
    themes_built: Ghost<Seq<OverlayTheme>>,
    drawn: Ghost<Seq<Option<FrameView>>>,
}

/// The scroll step an action runs with: the applied config's, or one.
pub open spec fn applied_scroll_step(applied: Option<Config>) -> i64 {
    match applied {
        Some(c) => c.settings.scroll_step,
        None => 1,
    }
}

pub open spec fn queue_view(q: Seq<Option<OverlayFrame>>) -> Seq<Option<FrameView>> {
    q.map_values(|f: Option<OverlayFrame>| opt_frame_view(f))
}

impl<O: OutputBackend> WindowsHook<O> {
    pub closed spec fn machine(&self) -> MachineView {
        self.sm@
    }

    pub closed spec fn shown(&self) -> Option<FrameView> {
        opt_frame_view(self.shown_overlay)
    }

    pub closed spec fn queue(&self) -> Seq<Option<FrameView>> {
        queue_view(self.overlay_queue@)
    }

    pub closed spec fn deferred(&self) -> Seq<DeferredKey> {
        self.deferred_keys@
    }

    pub closed spec fn draining(&self) -> bool {
        self.draining_deferred
    }

    pub closed spec fn chord(&self) -> ChordGuard {
        self.chord
    }

    pub closed spec fn monitors(&self) -> Seq<Rect> {
        self.monitors@
    }

    pub closed spec fn saved_paused(&self) -> Option<bool> {
        self.settings_saved_paused
    }

    pub closed spec fn applied(&self) -> Option<Config> {
        self.applied_config
    }

    pub closed spec fn output(&self) -> O {
        self.out
    }

    /// Every command the hook has handed to the output backend, in order.
    pub closed spec fn issued(&self) -> Seq<OutputCommand> {
        self.sent@
    }

    /// Every theme the hook has handed the overlay factory, in order.
    pub closed spec fn built(&self) -> Seq<OverlayTheme> {
        self.themes_built@
    }

    /// Every call the hook has made on the overlay renderer, in order: the
    /// frame for a show, nothing for a hide.
    pub closed spec fn renderer_calls(&self) -> Seq<Option<FrameView>> {
        self.drawn@
    }

    /// The overlay renderer the hook holds.
    pub closed spec fn renderer(&self) -> Box<dyn OverlayBackend> {
        self.overlay
    }

    /// The factory Apply rebuilds the overlay with, if one was supplied.
    pub closed spec fn factory(&self) -> Option<Box<dyn OverlayFactory>> {
        self.overlay_factory
    }

    /// The hook's settings-side state is the same in both.
    pub open spec fn same_settings(&self, other: &Self) -> bool {
        &&& self.saved_paused() == other.saved_paused()
        &&& self.applied() == other.applied()
        &&& self.monitors() == other.monitors()
        &&& self.machine().paused == other.machine().paused
    }

    /// What holds between calls: the machine's invariant.
    pub open spec fn wf(&self) -> bool {
        self.machine().inv()
    }

    fn from_machine(sm: StateMachine, out: O) -> (h: Self)
        ensures
            h.machine() == sm@,
            h.output() == out,
            h.shown() is None,
            h.queue().len() == 0,
            h.deferred().len() == 0,
            !h.draining(),
            !h.chord().win_down,
            h.monitors().len() == 0,
            h.saved_paused() is None,
            h.applied() is None,
            h.issued().len() == 0,
            h.built().len() == 0,
            h.renderer_calls().len() == 0,
    {
        let h = WindowsHook {
            sm,
            out,
            overlay: Box::new(NullOverlay),
            shown_overlay: None,
            overlay_queue: Vec::new(),
            deferred_keys: Vec::new(),
            draining_deferred: false,
            chord: ChordGuard { win_down: false },
            monitors: Vec::new(),
            overlay_factory: None,
            applied_config: None,
            settings_saved_paused: None,
            sent: Ghost(Seq::empty()),
            themes_built: Ghost(Seq::empty()),
            drawn: Ghost(Seq::empty()),
        };
        proof {
            assert(h.queue() =~= Seq::<Option<FrameView>>::empty());
        }
        h
    }

    /// A hook with the factory machine and no renderer.
    pub fn new(out: O) -> (h: Self)
        ensures
            h.machine() == fresh_machine(LogicalKey::CapsLock, h.machine().bindings, default_motion()),
            forall|k: LogicalKey| h.machine().bindings.spec_get(k) == crate::keys::spec_default_binding(k),
            h.wf(),
            h.output() == out,
            h.shown() is None,
            h.queue().len() == 0,
            h.applied() is None,
            h.issued().len() == 0,
    {
        Self::from_machine(StateMachine::new(), out)
    }

    pub fn with_config(out: O, leader: LogicalKey, bindings: KeyMap<Action>, motion: MotionConfig) -> (h: Self)
        ensures
            h.machine() == fresh_machine(leader, bindings, motion),
            h.wf(),
            h.output() == out,
            h.shown() is None,
            h.queue().len() == 0,
            h.applied() is None,
            h.issued().len() == 0,
    {
        Self::from_machine(StateMachine::with_config(leader, bindings, motion), out)
    }

    /// Installs the grid overlay renderer; queued frames and held-back keys
    /// belong to the old renderer and are dropped.
    pub fn set_overlay(&mut self, overlay: Box<dyn OverlayBackend>)
        ensures
            final(self).machine() == old(self).machine(),
            final(self).shown() is None,
            final(self).queue().len() == 0,
            final(self).deferred().len() == 0,
            !final(self).draining(),
            final(self).output() == old(self).output(),
            final(self).issued() == old(self).issued(),
    {
        self.overlay = overlay;
        self.shown_overlay = None;
        self.overlay_queue = Vec::new();
        self.deferred_keys = Vec::new();
        self.draining_deferred = false;
        proof {
            assert(self.queue() =~= Seq::<Option<FrameView>>::empty());
        }
    }

    /// Whether a required subgrid frame waits in the queue.
    fn must_present_subgrid(&self) -> (b: bool)
        ensures
            b == exists|i: int| 0 <= i < self.queue().len() && opt_required(#[trigger] self.queue()[i]),
    {
        let mut i: usize = 0;
        while i < self.overlay_queue.len()
            invariant
                i <= self.overlay_queue.len(),
                forall|j: int| 0 <= j < i ==> !opt_required(#[trigger] self.queue()[j]),
            decreases self.overlay_queue.len() - i,
        {
            let required = match &self.overlay_queue[i] {
                Some(f) => is_required_subgrid_frame(f),
                None => false,
            };
            if required {
                proof {
                    assert(opt_required(self.queue()[i as int]));
                }
                return true;
            }
            i = i + 1;
        }
        false
    }

    /// Records that `frame` should be on screen, unless it already is or is
    /// already the newest queued frame.
    fn queue_overlay_intent(&mut self, frame: Option<OverlayFrame>)
        ensures
            final(self).machine() == old(self).machine(),
            final(self).shown() == old(self).shown(),
            final(self).deferred() == old(self).deferred(),
            final(self).draining() == old(self).draining(),
            final(self).chord() == old(self).chord(),
            final(self).saved_paused() == old(self).saved_paused(),
            final(self).applied() == old(self).applied(),
            final(self).monitors() == old(self).monitors(),
            final(self).output() == old(self).output(),
            final(self).renderer() == old(self).renderer(),
            final(self).issued() == old(self).issued(),
            final(self).renderer_calls() == old(self).renderer_calls(),
            final(self).queue() == (if (old(self).queue().len() > 0 && old(self).queue().last() == opt_frame_view(frame))
                || (old(self).queue().len() == 0 && old(self).shown() == opt_frame_view(frame)) {
                old(self).queue()
            } else {
                old(self).queue().push(opt_frame_view(frame))
            }),
    {
        let n = self.overlay_queue.len();
        if n > 0 && opt_frame_eq(&self.overlay_queue[n - 1], &frame) {
            return;
        }
        if n == 0 && opt_frame_eq(&self.shown_overlay, &frame) {
            return;
        }
        self.overlay_queue.push(frame);
        proof {
            assert(self.queue() =~= old(self).queue().push(opt_frame_view(frame)));
        }
    }

    /// Records what should be on screen after a machine step. Leaving the
    /// grid (outside a replay) drops queued frames and held-back keys of the
    /// dead session first.
    fn update_overlay_intent(&mut self)
        requires
            old(self).wf(),
        ensures
            final(self).machine() == old(self).machine(),
            final(self).shown() == old(self).shown(),
            final(self).chord() == old(self).chord(),
            final(self).saved_paused() == old(self).saved_paused(),
            final(self).applied() == old(self).applied(),
            final(self).monitors() == old(self).monitors(),
            final(self).draining() == old(self).draining(),
            final(self).output() == old(self).output(),
            final(self).renderer() == old(self).renderer(),
            final(self).issued() == old(self).issued(),
            final(self).renderer_calls() == old(self).renderer_calls(),
            !old(self).draining() && old(self).machine().layer != Layer::Grid ==> final(self).deferred().len() == 0,
            old(self).draining() || old(self).machine().layer == Layer::Grid ==> final(self).deferred() == old(self).deferred(),
            final(self).queue().len() > 0 ==> final(self).queue().last() == old(self).machine().overlay(),
            final(self).queue().len() == 0 ==> final(self).shown() == old(self).machine().overlay(),
    {
        if !self.draining_deferred && self.sm.layer() != Layer::Grid {
            self.overlay_queue = Vec::new();
            self.deferred_keys = Vec::new();
        }
        let frame = self.sm.grid_overlay();
        self.queue_overlay_intent(frame);
    }

    fn defer_key(&mut self, key: DeferredKey) -> (r: Result<(), String>)
        requires
            old(self).wf(),
        ensures
            final(self).wf(),
            final(self).chord() == old(self).chord(),
            final(self).same_settings(old(self)),
            r is Ok <==> old(self).deferred().len() < MAX_DEFERRED_KEYS,
            r is Ok ==> final(self).deferred() == old(self).deferred().push(key)
                && final(self).machine() == old(self).machine()
                && final(self).queue() == old(self).queue()
                && final(self).shown() == old(self).shown()
                && final(self).output() == old(self).output()
                && final(self).renderer() == old(self).renderer()
                && final(self).issued() == old(self).issued()
                && final(self).renderer_calls() == old(self).renderer_calls(),
            r is Err ==> final(self).machine() == old(self).machine().exited().0,
    {
        if self.deferred_keys.len() >= MAX_DEFERRED_KEYS {
            self.release_capture();
            return Err(String::from_str("deferred input queue overflow while presenting subgrid"));
        }
        self.deferred_keys.push(key);
        Ok(())
    }

    /// Runs the pointer commands of one action, scrolling by the applied
    /// config's step (one when nothing was applied). An action that issues no
    /// pointer command leaves the output untouched and succeeds.
    pub fn execute(&mut self, action: Action) -> (r: Result<(), String>)
        ensures
            action_commands(action, applied_scroll_step(old(self).applied())).len() == 0 ==> r is Ok
                && final(self).output() == old(self).output(),
            final(self).machine() == old(self).machine(),
            final(self).shown() == old(self).shown(),
            final(self).queue() == old(self).queue(),
            final(self).deferred() == old(self).deferred(),
            final(self).draining() == old(self).draining(),
            final(self).chord() == old(self).chord(),
            final(self).saved_paused() == old(self).saved_paused(),
            final(self).applied() == old(self).applied(),
            final(self).monitors() == old(self).monitors(),
            final(self).renderer() == old(self).renderer(),
            final(self).built() == old(self).built(),
            final(self).factory() == old(self).factory(),
            final(self).renderer_calls() == old(self).renderer_calls(),
            r is Ok ==> final(self).issued() == old(self).issued()
                + action_commands(action, applied_scroll_step(old(self).applied())),
            r is Err ==> exists|k: int| 0 < k <= action_commands(action, applied_scroll_step(old(self).applied())).len()
                && final(self).issued() == old(self).issued()
                    + #[trigger] action_commands(action, applied_scroll_step(old(self).applied())).take(k),
            O::records() && r is Ok ==> logged_all(action_commands(action, applied_scroll_step(old(self).applied())),
                old(self).output().sent(), final(self).output().sent()),
    {
        let step: i64 = match &self.applied_config {
            Some(c) => c.settings.scroll_step,
            None => 1,
        };
        let cmds = commands_for(action, step);
        let ghost all = action_commands(action, applied_scroll_step(self.applied()));
        assert(cmds@ == all);
        let r = perform_all(&mut self.out, &cmds, &mut self.sent);
        proof {
            if r is Err {
                let k = choose|k: int| 0 < k <= cmds@.len() && self.issued() == old(self).issued() + #[trigger] cmds@.take(k);
                assert(all.take(k) == cmds@.take(k));
            }
        }
        r
    }

    /// Processes one key and reports the per-event suppression decision. It
    /// only records overlay intent; presentation happens in `flush_overlay`.
    pub fn process_key(&mut self, vk: u32, is_down: bool, now_ms: u64) -> (r: Result<Outcome, String>)
        requires
            old(self).wf(),
        ensures
            final(self).wf(),
            final(self).chord() == old(self).chord().observed(vk, is_down),
            old(self).draining() ==> final(self).draining() && final(self).deferred() == old(self).deferred(),
            final(self).same_settings(old(self)),
            old(self).draining() || r is Ok ==> final(self).renderer_calls() == old(self).renderer_calls(),
            ({
                let c = old(self).chord().observed(vk, is_down);
                let ev = KeyEvent {
                    key: vk_key(vk)->0,
                    phase: if is_down { Phase::Press } else { Phase::Release },
                };
                if c.spec_blocks(vk) || vk_key(vk) is None {
                    &&& r == Ok::<Outcome, String>(Outcome { consumed: false, action: None })
                    &&& final(self).machine() == old(self).machine()
                    &&& final(self).output() == old(self).output()
                    &&& final(self).shown() == old(self).shown()
                    &&& final(self).queue() == old(self).queue()
                    &&& final(self).deferred() == old(self).deferred()
                    &&& final(self).renderer() == old(self).renderer()
                    &&& final(self).issued() == old(self).issued()
                } else if !old(self).draining() && exists|i: int| 0 <= i < old(self).queue().len()
                    && opt_required(#[trigger] old(self).queue()[i]) {
                    &&& r is Ok <==> old(self).deferred().len() < MAX_DEFERRED_KEYS
                    &&& r is Ok ==> r == Ok::<Outcome, String>(Outcome { consumed: true, action: None })
                        && final(self).deferred() == old(self).deferred().push(
                        DeferredKey { vk, is_down, now_ms },
                    ) && final(self).machine() == old(self).machine()
                        && final(self).output() == old(self).output()
                        && final(self).shown() == old(self).shown()
                        && final(self).queue() == old(self).queue()
                        && final(self).issued() == old(self).issued()
                    &&& r is Err ==> final(self).machine() == old(self).machine().exited().0
                } else {
                    let st = old(self).machine().step(ev, now_ms);
                    &&& final(self).machine() == st.0
                    &&& r is Ok ==> r == Ok::<Outcome, String>(st.1)
                    &&& r is Ok ==> final(self).issued() == old(self).issued()
                        + opt_commands(st.1.action, applied_scroll_step(old(self).applied()))
                    &&& O::records() && r is Ok ==> logged_all(opt_commands(st.1.action, applied_scroll_step(old(self).applied())),
                        old(self).output().sent(), final(self).output().sent())
                    &&& issues_nothing(st.1.action, applied_scroll_step(old(self).applied()))
                        ==> r is Ok && final(self).output() == old(self).output()
                }
            }),
    {
        self.chord.observe(vk, is_down);
        if self.chord.blocks(vk) {
            return Ok(Outcome { consumed: false, action: None });
        }
        let key = match vk_to_logical(vk) {
            Some(k) => k,
            None => return Ok(Outcome { consumed: false, action: None }),
        };
        if !self.draining_deferred && self.must_present_subgrid() {
            self.defer_key(DeferredKey { vk, is_down, now_ms })?;
            return Ok(Outcome { consumed: true, action: None });
        }
        let phase = if is_down { Phase::Press } else { Phase::Release };
        let outcome = self.sm.on_event_outcome(KeyEvent::new(key, phase), now_ms);
        if let Some(a) = outcome.action {
            self.execute(a)?;
        } else {
            assert(self.issued() + opt_commands(outcome.action, applied_scroll_step(self.applied())) =~= self.issued());
            assert(logged_steps(opt_commands(outcome.action, applied_scroll_step(self.applied())), seq![self.out.sent()]));
        }
        self.update_overlay_intent();
        Ok(outcome)
    }

    /// Captures the monitor rects used by Apply to re-arm the grid.
    pub fn set_monitors(&mut self, monitors: Vec<Rect>)
        requires
            forall|i: int| 0 <= i < monitors@.len() ==> #[trigger] monitors@[i].screen(),
        ensures
            final(self).monitors() == monitors@,
            final(self).machine() == old(self).machine(),
            final(self).queue() == old(self).queue(),
            final(self).shown() == old(self).shown(),
    {
        self.monitors = monitors;
    }

    /// Supplies a factory so Apply can rebuild the overlay for a new theme.
    pub fn set_overlay_factory(&mut self, factory: Box<dyn OverlayFactory>)
        ensures
            final(self).factory() is Some,
            final(self).machine() == old(self).machine(),
            final(self).queue() == old(self).queue(),
            final(self).shown() == old(self).shown(),
            final(self).applied() == old(self).applied(),
            final(self).deferred() == old(self).deferred(),
            final(self).draining() == old(self).draining(),
            final(self).chord() == old(self).chord(),
            final(self).saved_paused() == old(self).saved_paused(),
            final(self).monitors() == old(self).monitors(),
            final(self).output() == old(self).output(),
            final(self).issued() == old(self).issued(),
            final(self).built() == old(self).built(),
    {
        self.overlay_factory = Some(factory);
    }

    /// Seeds the config the Settings editor opens on.
    pub fn with_boot_config(self, config: Config) -> (h: Self)
        ensures
            h.applied() == Some(config),
            h.machine() == self.machine(),
            h.queue() == self.queue(),
            h.shown() == self.shown(),
    {
        let mut h = self;
        h.applied_config = Some(config);
        h
    }

    /// The last applied config, or the factory config when none was.
    pub fn current_config(&self) -> (c: Config)
        ensures
            match self.applied() {
                Some(a) => c.same(a),
                None => is_default_config(c),
            },
    {
        match &self.applied_config {
            Some(c) => c.duplicate(),
            None => Config::default(),
        }
    }
}


impl<O: OutputBackend> WindowsHook<O> {
    /// Drops queued frames and held-back keys and hides the overlay if it shows.
    pub fn hide_overlay(&mut self) -> (r: Result<(), String>)
        ensures
            final(self).machine() == old(self).machine(),
            final(self).shown() is None,
            final(self).queue().len() == 0,
            final(self).deferred().len() == 0,
            !final(self).draining(),
            final(self).chord() == old(self).chord(),
            final(self).saved_paused() == old(self).saved_paused(),
            final(self).applied() == old(self).applied(),
            final(self).monitors() == old(self).monitors(),
            final(self).output() == old(self).output(),
            final(self).issued() == old(self).issued(),
            final(self).built() == old(self).built(),
            final(self).factory() == old(self).factory(),
            old(self).shown() is None ==> r is Ok && final(self).renderer() == old(self).renderer()
                && final(self).renderer_calls() == old(self).renderer_calls(),
            old(self).shown() is Some ==> final(self).renderer_calls() == old(self).renderer_calls().push(None),
    {
        self.overlay_queue = Vec::new();
        self.deferred_keys = Vec::new();
        self.draining_deferred = false;
        proof {
            assert(self.queue() =~= Seq::<Option<FrameView>>::empty());
        }
        if self.shown_overlay.take().is_some() {
            self.drawn = Ghost(self.drawn@.push(None));
            self.overlay.hide_frame()?;
        }
        Ok(())
    }

    /// Escalation stop for errors and shutdown: back to the initial layer,
    /// a held drag button released, the overlay hidden. Best effort.
    pub fn release_capture(&mut self)
        requires
            old(self).wf(),
        ensures
            final(self).wf(),
            final(self).machine() == old(self).machine().exited().0,
            final(self).shown() is None,
            final(self).queue().len() == 0,
            final(self).deferred().len() == 0,
            !final(self).draining(),
            final(self).chord() == old(self).chord(),
            final(self).saved_paused() == old(self).saved_paused(),
            final(self).applied() == old(self).applied(),
            final(self).monitors() == old(self).monitors(),
            final(self).issued() == old(self).issued() + release_commands(old(self).machine().drag),
            final(self).built() == old(self).built(),
            final(self).factory() == old(self).factory(),
    {
        proof {
            crate::machine::law_exit_releases_everything(self.sm@);
        }
        if let Some(action) = self.sm.force_exit() {
            let _ = self.execute(action);
            proof {
                assert(action_commands(action, applied_scroll_step(self.applied())).take(1)
                    =~= release_commands(old(self).machine().drag));
            }
        } else {
            assert(old(self).issued() + release_commands(old(self).machine().drag) =~= old(self).issued());
        }
        let _ = self.hide_overlay();
    }

    fn drain_deferred_keys(&mut self) -> (r: Result<(), String>)
        requires
            old(self).wf(),
        ensures
            final(self).wf(),
            final(self).same_settings(old(self)),
            old(self).deferred().len() == 0 ==> final(self).machine() == old(self).machine()
                && final(self).queue() == old(self).queue() && final(self).shown() == old(self).shown()
                && final(self).issued() == old(self).issued(),
            final(self).renderer_calls() == old(self).renderer_calls(),
            r is Ok ==> final(self).deferred().len() == 0
                && (final(self).machine(), final(self).chord())
                    == replayed(old(self).machine(), old(self).chord(), old(self).deferred())
                && final(self).issued() == old(self).issued() + replayed_commands(old(self).machine(),
                    old(self).chord(), old(self).deferred(), applied_scroll_step(old(self).applied())),
            !final(self).draining(),
    {
        self.draining_deferred = true;
        while self.deferred_keys.len() > 0
            invariant
                self.wf(),
                self.draining(),
                self.same_settings(old(self)),
                self.renderer_calls() == old(self).renderer_calls(),
                old(self).deferred().len() == 0 ==> self.machine() == old(self).machine() && self.deferred().len() == 0
                    && self.queue() == old(self).queue() && self.shown() == old(self).shown()
                    && self.issued() == old(self).issued(),
                replayed(self.machine(), self.chord(), self.deferred())
                    == replayed(old(self).machine(), old(self).chord(), old(self).deferred()),
                self.issued() + replayed_commands(self.machine(), self.chord(), self.deferred(),
                    applied_scroll_step(old(self).applied()))
                    == old(self).issued() + replayed_commands(old(self).machine(), old(self).chord(),
                        old(self).deferred(), applied_scroll_step(old(self).applied())),
            decreases self.deferred_keys.len(),
        {
            let ghost before = self.deferred();
            let ghost pre = *self;
            let event = self.deferred_keys.remove(0);
            proof {
                assert(self.deferred() =~= before.drop_first());
            }
            let res = self.process_key(event.vk, event.is_down, event.now_ms);
            if let Err(err) = res {
                self.draining_deferred = false;
                return Err(err);
            }
            proof {
                let step = applied_scroll_step(old(self).applied());
                let c2 = pre.chord().observed(event.vk, event.is_down);
                if !(c2.spec_blocks(event.vk) || vk_key(event.vk) is None) {
                    let st = pre.machine().step(KeyEvent { key: vk_key(event.vk)->0,
                        phase: if event.is_down { Phase::Press } else { Phase::Release } }, event.now_ms);
                    let rest = replayed_commands(st.0, c2, before.drop_first(), step);
                    assert(pre.issued() + (opt_commands(st.1.action, step) + rest)
                        =~= (pre.issued() + opt_commands(st.1.action, step)) + rest);
                }
            }
        }
        self.draining_deferred = false;
        Ok(())
    }

    /// Presents the oldest queued frame. Presenting the required subgrid
    /// replays the keys held back for it.
    pub fn flush_overlay(&mut self) -> (r: Result<(), String>)
        requires
            old(self).wf(),
        ensures
            final(self).wf(),
            final(self).same_settings(old(self)),
            old(self).deferred().len() == 0 ==> final(self).machine() == old(self).machine()
                && final(self).issued() == old(self).issued(),
            old(self).queue().len() == 0 ==> r is Ok && final(self).machine() == old(self).machine()
                && final(self).shown() == old(self).shown() && final(self).output() == old(self).output()
                && final(self).renderer() == old(self).renderer(),
            old(self).queue().len() == 0 ==> final(self).renderer_calls() == old(self).renderer_calls(),
            old(self).queue().len() > 0 && old(self).queue()[0] != old(self).shown() ==> final(self).renderer_calls()
                == old(self).renderer_calls().push(old(self).queue()[0]),
            old(self).queue().len() > 0 && old(self).queue()[0] == old(self).shown() ==> final(self).renderer_calls()
                == old(self).renderer_calls(),
            old(self).queue().len() > 0 && old(self).queue()[0] == old(self).shown() ==> r is Ok
                && final(self).machine() == old(self).machine() && final(self).shown() == old(self).shown()
                && final(self).queue() == old(self).queue().drop_first()
                && final(self).output() == old(self).output() && final(self).renderer() == old(self).renderer(),
            old(self).queue().len() > 0 && r is Ok && old(self).deferred().len() == 0
                ==> final(self).shown() == old(self).queue()[0] && final(self).queue() == old(self).queue().drop_first(),
            old(self).queue().len() > 0 && old(self).queue()[0] != old(self).shown() && opt_required(old(self).queue()[0])
                && r is Ok ==> final(self).deferred().len() == 0
                    && (final(self).machine(), final(self).chord())
                        == replayed(old(self).machine(), old(self).chord(), old(self).deferred())
                    && final(self).issued() == old(self).issued() + replayed_commands(old(self).machine(),
                        old(self).chord(), old(self).deferred(), applied_scroll_step(old(self).applied())),
    {
        if self.overlay_queue.len() == 0 {
            return Ok(());
        }
        let ghost q0 = self.queue();
        let next = self.overlay_queue.remove(0);
        proof {
            assert(self.queue() =~= q0.drop_first());
        }
        if opt_frame_eq(&next, &self.shown_overlay) {
            return Ok(());
        }
        let presented_subgrid = match &next {
            Some(f) => is_required_subgrid_frame(f),
            None => false,
        };
        match next {
            Some(frame) => {
                self.drawn = Ghost(self.drawn@.push(Some(frame@)));
                self.overlay.show(&frame)?;
                self.shown_overlay = Some(frame);
            }
            None => {
                self.drawn = Ghost(self.drawn@.push(None));
                self.overlay.hide_frame()?;
                self.shown_overlay = None;
            }
        }
        if presented_subgrid {
            self.drain_deferred_keys()?;
        }
        Ok(())
    }

    /// Advances motion and moves the pointer once per held direction.
    pub fn tick(&mut self, dt_ms: u64) -> (r: Result<(), String>)
        requires
            old(self).wf(),
        ensures
            final(self).wf(),
            final(self).machine() == old(self).machine().ticked(dt_ms).0,
            final(self).shown() == old(self).shown(),
            final(self).queue() == old(self).queue(),
            old(self).machine().ticked(dt_ms).1.len() == 0 ==> r is Ok
                && final(self).output() == old(self).output(),
            r is Ok ==> final(self).issued() == old(self).issued() + move_commands(old(self).machine().ticked(dt_ms).1),
            O::records() && r is Ok ==> logged_all(move_commands(old(self).machine().ticked(dt_ms).1),
                old(self).output().sent(), final(self).output().sent()),
    {
        let moves = self.sm.tick(dt_ms);
        let cmds = move_commands_for(&moves);
        perform_all(&mut self.out, &cmds, &mut self.sent)
    }

    pub fn sm(&self) -> (m: &StateMachine)
        ensures
            m@ == self.machine(),
    {
        &self.sm
    }

    pub fn sm_mut(&mut self) -> (m: &mut StateMachine)
        ensures
            m@ == old(self).machine(),
            final(self).machine() == final(m)@,
            final(self).shown() == old(self).shown(),
            final(self).queue() == old(self).queue(),
            final(self).deferred() == old(self).deferred(),
            final(self).draining() == old(self).draining(),
            final(self).monitors() == old(self).monitors(),
            final(self).saved_paused() == old(self).saved_paused(),
            final(self).applied() == old(self).applied(),
    {
        &mut self.sm
    }

    /// Capture is on: the pointer or grid layer is up.
    pub fn is_intercepting(&self) -> (b: bool)
        ensures
            b == (self.machine().layer == Layer::Mouse || self.machine().layer == Layer::Grid),
    {
        let l = self.sm.layer();
        l == Layer::Mouse || l == Layer::Grid
    }

    pub fn out(&self) -> (o: &O)
        ensures
            *o == self.output(),
    {
        &self.out
    }

    fn apply_paused(&mut self, paused: bool) -> (r: Result<(), String>)
        requires
            old(self).wf(),
        ensures
            final(self).wf(),
            final(self).machine().paused == paused,
            paused ==> final(self).machine().layer == Layer::Initial && !final(self).machine().drag,
            final(self).saved_paused() == old(self).saved_paused(),
            final(self).applied() == old(self).applied(),
            final(self).monitors() == old(self).monitors(),
            paused && !old(self).draining() ==> final(self).issued()
                == old(self).issued() + release_commands(old(self).machine().drag),
    {
        proof {
            crate::machine::law_exit_releases_everything(self.sm@);
        }
        if let Some(action) = self.sm.set_paused(paused) {
            let done = self.execute(action);
            proof {
                assert(action_commands(action, applied_scroll_step(self.applied())).take(1)
                    =~= release_commands(old(self).machine().drag));
            }
            done?;
        } else if paused {
            assert(old(self).issued() + release_commands(old(self).machine().drag) =~= old(self).issued());
        }
        self.update_overlay_intent();
        self.flush_overlay()
    }

    /// Tray pause and resume. While Settings owns focus the request is only
    /// recorded, and focus-leave restores it.
    pub fn set_paused(&mut self, paused: bool) -> (r: Result<(), String>)
        requires
            old(self).wf(),
        ensures
            final(self).wf(),
            old(self).saved_paused() is Some ==> final(self).saved_paused() == Some(paused)
                && final(self).machine() == old(self).machine() && r is Ok,
            old(self).saved_paused() is None ==> final(self).machine().paused == paused
                && final(self).saved_paused() is None,
            old(self).saved_paused() is None && paused && !old(self).draining() ==> final(self).issued()
                == old(self).issued() + release_commands(old(self).machine().drag),
    {
        if self.settings_saved_paused.is_some() {
            self.settings_saved_paused = Some(paused);
            return Ok(());
        }
        self.apply_paused(paused)
    }

    /// Settings-focus suspension: capture pauses while Settings has focus,
    /// and the paused state from before comes back when focus leaves.
    pub fn suspend_for_settings_focus(&mut self, focused: bool) -> (r: Result<(), String>)
        requires
            old(self).wf(),
        ensures
            final(self).wf(),
            focused && old(self).saved_paused() is None ==> final(self).saved_paused()
                == Some(old(self).machine().paused) && final(self).machine().paused,
            !focused && old(self).saved_paused() is Some ==> final(self).saved_paused() is None
                && final(self).machine().paused == old(self).saved_paused()->0,
            focused == old(self).saved_paused() is Some ==> final(self).machine() == old(self).machine()
                && final(self).saved_paused() == old(self).saved_paused() && r is Ok
                && final(self).output() == old(self).output() && final(self).issued() == old(self).issued()
                && final(self).chord() == old(self).chord(),
            final(self).monitors() == old(self).monitors(),
            final(self).applied() == old(self).applied(),
            focused && old(self).saved_paused() is None && !old(self).draining() ==> final(self).issued()
                == old(self).issued() + release_commands(old(self).machine().drag),
    {
        match (focused, self.settings_saved_paused) {
            (true, None) => {
                let was_paused = self.sm.is_paused();
                self.settings_saved_paused = Some(was_paused);
                self.apply_paused(true)
            }
            (false, Some(was_paused)) => {
                self.settings_saved_paused = None;
                self.apply_paused(was_paused)
            }
            _ => Ok(()),
        }
    }

    /// Tray show/hide grid: show opens the grid without a leader hold; hide
    /// ends capture, releasing a held drag button.
    pub fn show_grid(&mut self, show: bool) -> (r: Result<(), String>)
        requires
            old(self).wf(),
        ensures
            final(self).wf(),
            old(self).deferred().len() == 0 && show ==> final(self).machine() == old(self).machine().shown(),
            !show ==> final(self).machine().layer == Layer::Initial || old(self).deferred().len() > 0,
            final(self).saved_paused() == old(self).saved_paused(),
    {
        proof {
            crate::machine::law_exit_releases_everything(self.sm@);
        }
        if show {
            self.sm.show_grid();
        } else if let Some(action) = self.sm.force_exit() {
            self.execute(action)?;
        }
        self.update_overlay_intent();
        self.flush_overlay()
    }
}


fn copy_rects(v: &Vec<Rect>) -> (r: Vec<Rect>)
    ensures
        r@ == v@,
{
    let mut r: Vec<Rect> = Vec::new();
    let mut i: usize = 0;
    while i < v.len()
        invariant
            i <= v.len(),
            r@ == v@.subrange(0, i as int),
        decreases v.len() - i,
    {
        r.push(v[i]);
        i = i + 1;
        proof {
            assert(r@ =~= v@.subrange(0, i as int));
        }
    }
    proof {
        assert(v@.subrange(0, v@.len() as int) =~= v@);
    }
    r
}

impl<O: OutputBackend> WindowsHook<O> {
    /// Applies a configuration at a safe boundary: ends capture, swaps the
    /// leader, bindings, motion and hold time, re-arms the grid over the
    /// captured monitors, rebuilds the themed overlay, and pauses or resumes
    /// as the config's `enabled` says (recorded only while Settings has focus).
    pub fn apply_config(&mut self, config: Config) -> (r: Result<(), String>)
        requires
            old(self).wf(),
            config_ok(config.grid),
            forall|i: int| 0 <= i < old(self).monitors().len() ==> #[trigger] old(self).monitors()[i].screen(),
        ensures
            final(self).wf(),
            final(self).applied() matches Some(a) && a.same(config),
            final(self).machine().leader == config.settings.leader,
            final(self).machine().hold_ms == config.settings.hold_ms,
            final(self).machine().motion == (MotionConfig {
                start_speed_px_s: config.settings.start_speed_px_s,
                max_speed_px_s: config.settings.max_speed_px_s,
                ramp_ms: config.settings.ramp_ms,
            }),
            forall|k: LogicalKey| #[trigger] final(self).machine().bindings.spec_get(k)
                == config.mouse_bindings.spec_get(k),
            old(self).saved_paused() is Some ==> final(self).saved_paused() == Some(!config.enabled),
            old(self).saved_paused() is None && r is Ok ==> final(self).machine().paused == !config.enabled,
            old(self).monitors().len() > 0 ==> final(self).machine().grid
                == Some(crate::grid::fresh_nav(old(self).monitors(), (0, 0), config.grid)),
            final(self).monitors() == old(self).monitors(),
            r is Ok,
            final(self).issued() == old(self).issued() + release_commands(old(self).machine().drag),
            final(self).factory() is Some == old(self).factory() is Some,
            old(self).factory() is Some ==> final(self).built() == old(self).built().push(overlay_theme_of(config.theme))
                && final(self).shown() is None && final(self).queue().len() == 0 && final(self).deferred().len() == 0,
            old(self).factory() is None ==> final(self).built() == old(self).built(),
    {
        self.release_capture();
        self.applied_config = Some(config.duplicate());
        let motion = MotionConfig {
            start_speed_px_s: config.settings.start_speed_px_s,
            max_speed_px_s: config.settings.max_speed_px_s,
            ramp_ms: config.settings.ramp_ms,
        };
        let enabled = config.enabled;
        let leader = config.settings.leader;
        let hold_ms = config.settings.hold_ms;
        let theme = config.theme.to_overlay_theme();
        let Config { mouse_bindings, grid, .. } = config;
        self.sm.reconfigure(leader, mouse_bindings, motion);
        self.sm.set_hold_ms(hold_ms);
        if self.monitors.len() > 0 {
            let monitors = copy_rects(&self.monitors);
            self.sm.enable_grid_with_monitors(monitors, (0, 0), grid);
        }
        let factory = self.overlay_factory.take();
        match factory {
            Some(f) => {
                self.themes_built = Ghost(self.themes_built@.push(theme));
                let Renderer(overlay) = f.build(theme);
                self.overlay = overlay;
                self.overlay_factory = Some(f);
                self.shown_overlay = None;
                self.overlay_queue = Vec::new();
                self.deferred_keys = Vec::new();
                self.draining_deferred = false;
            }
            None => {}
        }
        if self.settings_saved_paused.is_some() {
            self.settings_saved_paused = Some(!enabled);
        } else if let Some(action) = self.sm.set_paused(!enabled) {
            self.execute(action)?;
        }
        Ok(())
    }
}


/// Where the runtime stands after failures: the first error, which is what
/// reaches the command line, and whether the loop is to stop.
pub struct Failure {
    pub error: Option<String>,
    pub quit_requested: bool,
}

impl<O: OutputBackend> WindowsHook<O> {
    /// Records a failure: the first error is kept, capture is released so
    /// the user keeps control of the pointer, and the loop is told to stop.
    pub fn fail(&mut self, state: &mut Failure, err: String)
        requires
            old(self).wf(),
        ensures
            final(self).wf(),
            final(state).error == (match old(state).error {
                Some(e) => Some(e),
                None => Some(err),
            }),
            final(state).quit_requested,
            final(self).machine() == old(self).machine().exited().0,
            final(self).shown() is None,
            final(self).queue().len() == 0,
            final(self).deferred().len() == 0,
            final(self).issued() == old(self).issued() + release_commands(old(self).machine().drag),
    {
        if state.error.is_none() {
            state.error = Some(err);
        }
        self.release_capture();
        state.quit_requested = true;
    }
}

} // verus!
