//! The Linux keyboard hook: evdev key codes into the machine, actions
//! out to the pointer backend.
use vstd::prelude::*;
use crate::backend::{logged_all, OutputBackend, OverlayBackend};
use crate::grid::FrameView;
use crate::hook::{issues_nothing, move_commands, opt_commands, KeyHook, OutputCommand};
use crate::keycode::{evdev_to_logical, evdev_key};
use crate::keys::{Action, KeyEvent, KeyMap, Layer, LogicalKey, MotionConfig, Phase};
use crate::machine::{default_motion, fresh_machine, MachineView, StateMachine};

verus! {

pub struct LinuxHook<O: OutputBackend> {
    core: KeyHook<O>,
}

impl<O: OutputBackend> LinuxHook<O> {
    pub closed spec fn machine(&self) -> MachineView {
        self.core.machine()
    }

    pub closed spec fn shown(&self) -> Option<FrameView> {
        self.core.shown()
    }

    pub closed spec fn scroll_step(&self) -> i64 {
        self.core.scroll_step()
    }

    pub closed spec fn output(&self) -> O {
        self.core.output()
    }

    /// Every command the hook has handed to the output backend, in order.
    pub closed spec fn issued(&self) -> Seq<OutputCommand> {
        self.core.issued()
    }

    /// A hook with the factory machine, one scroll notch and no renderer.
    pub fn new(out: O) -> (h: Self)
        ensures
            h.machine() == fresh_machine(LogicalKey::CapsLock, h.machine().bindings, default_motion()),
            forall|k: LogicalKey| h.machine().bindings.spec_get(k) == crate::keys::spec_default_binding(k),
            h.machine().inv(),
            h.output() == out,
            h.shown() is None,
            h.scroll_step() == 1,
            h.issued().len() == 0,
    {
        LinuxHook { core: KeyHook::from_machine(StateMachine::new(), out) }
    }

    pub fn with_config(out: O, leader: LogicalKey, bindings: KeyMap<Action>, motion: MotionConfig) -> (h: Self)
        ensures
            h.machine() == fresh_machine(leader, bindings, motion),
            h.machine().inv(),
            h.output() == out,
            h.shown() is None,
            h.scroll_step() == 1,
            h.issued().len() == 0,
    {
        LinuxHook { core: KeyHook::from_machine(StateMachine::with_config(leader, bindings, motion), out) }
    }

    /// Scroll notches per scroll action, at least one.
    pub fn set_scroll_step(&mut self, step: i64)
        ensures
            final(self).scroll_step() == (if step < 1 { 1 } else { step }),
            final(self).machine() == old(self).machine(),
            final(self).shown() == old(self).shown(),
    {
        self.core.set_scroll_step(step);
    }

    /// Installs the grid overlay renderer.
    pub fn set_overlay(&mut self, overlay: Box<dyn OverlayBackend>)
        ensures
            final(self).shown() is None,
            final(self).machine() == old(self).machine(),
            final(self).scroll_step() == old(self).scroll_step(),
    {
        self.core.set_overlay(overlay);
    }

    /// Handles one key code: unmapped codes pass untouched; mapped keys go
    /// through the machine, then the action runs and the overlay syncs.
    pub fn process_key(&mut self, code: u16, is_down: bool, now_ms: u64) -> (r: Result<Option<Action>, String>)
        requires
            old(self).machine().inv(),
        ensures
            final(self).machine().inv(),
            final(self).scroll_step() == old(self).scroll_step(),
            match evdev_key(code) {
                None => r == Ok::<Option<Action>, String>(None) && final(self).machine() == old(self).machine()
                    && final(self).shown() == old(self).shown() && final(self).output() == old(self).output()
                    && final(self).issued() == old(self).issued(),
                Some(k) => {
                    let ev = KeyEvent { key: k, phase: if is_down { Phase::Press } else { Phase::Release } };
                    let st = old(self).machine().step(ev, now_ms);
                    &&& final(self).machine() == st.0
                    &&& r is Ok ==> r == Ok::<Option<Action>, String>(st.1.action)
                    &&& r is Ok ==> final(self).shown() == final(self).machine().overlay()
                    &&& r is Ok ==> final(self).issued() == old(self).issued() + opt_commands(st.1.action, old(self).scroll_step())
                    &&& O::records() && r is Ok ==> logged_all(opt_commands(st.1.action, old(self).scroll_step()),
                        old(self).output().sent(), final(self).output().sent())
                    &&& issues_nothing(st.1.action, old(self).scroll_step()) && old(self).shown() == st.0.overlay()
                        ==> r is Ok && final(self).output() == old(self).output()
                            && final(self).shown() == old(self).shown()
                },
            },
    {
        self.core.process(evdev_to_logical(code), is_down, now_ms)
    }

    pub fn hide_overlay(&mut self) -> (r: Result<(), String>)
        ensures
            final(self).shown() is None,
            final(self).machine() == old(self).machine(),
            final(self).output() == old(self).output(),
    {
        self.core.hide_overlay()
    }

    /// Advances motion and moves the pointer once per held direction.
    pub fn tick(&mut self, dt_ms: u64) -> (r: Result<(), String>)
        requires
            old(self).machine().inv(),
        ensures
            final(self).machine() == old(self).machine().ticked(dt_ms).0,
            final(self).machine().inv(),
            final(self).shown() == old(self).shown(),
            old(self).machine().ticked(dt_ms).1.len() == 0 ==> r is Ok
                && final(self).output() == old(self).output(),
            r is Ok ==> final(self).issued() == old(self).issued() + move_commands(old(self).machine().ticked(dt_ms).1),
            O::records() && r is Ok ==> logged_all(move_commands(old(self).machine().ticked(dt_ms).1),
                old(self).output().sent(), final(self).output().sent()),
    {
        self.core.tick(dt_ms)
    }

    pub fn sm(&self) -> (m: &StateMachine)
        ensures
            m@ == self.machine(),
    {
        self.core.sm()
    }

    pub fn sm_mut(&mut self) -> (m: &mut StateMachine)
        ensures
            m@ == old(self).machine(),
            final(self).machine() == final(m)@,
            final(self).shown() == old(self).shown(),
            final(self).scroll_step() == old(self).scroll_step(),
    {
        self.core.sm_mut()
    }

    /// Capture is on: the pointer or grid layer is up.
    pub fn is_intercepting(&self) -> (b: bool)
        ensures
            b == (self.machine().layer == Layer::Mouse || self.machine().layer == Layer::Grid),
    {
        self.core.is_intercepting()
    }

    pub fn out(&self) -> (o: &O)
        ensures
            *o == self.output(),
    {
        self.core.out()
    }
}

} // verus!
