//! Pointer and keyboard events.

use crate::coord::Coord;
use crate::eis_server::EisCommand;
use crate::wayland::outcomes::one_event_goes_out_with_a_frame;
use crate::wayland::state::{surface_at, Action, AppState, AppView, Modifiers, KEYSYM_ESCAPE};
use crate::wayland::WaylandEvent;
use vstd::prelude::*;

verus! {

/// One axis of a scroll event. The distance is carried as the bit patterns of
/// its double-precision value and of that value in single precision.
#[derive(Debug, Clone, Copy, PartialEq, Eq, Structural)]
pub struct AxisScroll {
    pub absolute: u64,
    pub narrowed: u32,
    pub discrete: i32,
    pub value120: i32,
    pub stop: bool,
}

/// What happened to the pointer.
#[derive(Debug, Clone, Copy, PartialEq, Eq, Structural)]
pub enum PointerEventKind {
    Enter { serial: u32 },
    Leave,
    Motion,
    Press { button: u32 },
    Release { button: u32 },
    Axis { horizontal: AxisScroll, vertical: AxisScroll },
}

/// One pointer event, at a position local to a surface.
#[derive(Debug, Clone, Copy, PartialEq, Eq)]
pub struct PointerEvent {
    pub surface: u64,
    pub position: (Coord, Coord),
    pub kind: PointerEventKind,
}

/// The bit pattern of negative zero in double precision.
pub const NEGATIVE_ZERO: u64 = 0x8000_0000_0000_0000;

/// Whether a double-precision bit pattern stands for a value other than zero.
pub open spec fn nonzero(bits: u64) -> bool {
    bits != 0 && bits != NEGATIVE_ZERO
}

/// The wheel steps of an axis event, in 120ths of a click. The high-resolution
/// values count if either is there; else the legacy clicks do.
pub open spec fn wheel_steps(h: AxisScroll, v: AxisScroll) -> (i32, i32) {
    if h.value120 != 0 || v.value120 != 0 {
        (h.value120, v.value120)
    } else {
        (h.discrete.wrapping_mul(120), v.discrete.wrapping_mul(120))
    }
}

/// One command if a condition holds, else none.
pub open spec fn command_if(cond: bool, cmd: EisCommand) -> Seq<EisCommand> {
    if cond {
        seq![cmd]
    } else {
        Seq::empty()
    }
}

/// What an axis event comes to: the end of a scroll, wheel steps, a distance,
/// and a frame behind them.
pub open spec fn axis_commands(h: AxisScroll, v: AxisScroll) -> Seq<EisCommand> {
    let (dx, dy) = wheel_steps(h, v);
    command_if(h.stop || v.stop, EisCommand::ScrollStop) + command_if(
        dx != 0 || dy != 0,
        EisCommand::ScrollDiscrete { dx, dy },
    ) + command_if(
        nonzero(h.absolute) || nonzero(v.absolute),
        EisCommand::Scroll { dx: h.narrowed, dy: v.narrowed },
    ) + seq![EisCommand::Frame]
}

/// A command and a frame behind it.
pub open spec fn framed(cmd: EisCommand) -> Seq<EisCommand> {
    seq![cmd, EisCommand::Frame]
}

impl AppView {
    /// Where an event took place on the desktop, given the surface it came on.
    pub open spec fn on_desktop(self, e: PointerEvent, index: int) -> (Coord, Coord) {
        let origin = self.surfaces[index].origin;
        (e.position.0.moved(origin.0 as int), e.position.1.moved(origin.1 as int))
    }

    /// The state after one pointer event.
    pub open spec fn after_event(self, e: PointerEvent, now: u128) -> AppView {
        match e.kind {
            PointerEventKind::Enter { serial } => {
                let s = AppView { last_enter_serial: serial, ..self };
                match surface_at(self.surfaces, e.surface) {
                    Some(i) => if s.can_capture() {
                        s.captured(i, self.on_desktop(e, i), now)
                    } else {
                        s
                    },
                    None => s,
                }
            },
            PointerEventKind::Press { button } => self.delivered(
                framed(EisCommand::Button { button, press: true }),
                now,
            ),
            PointerEventKind::Release { button } => self.delivered(
                framed(EisCommand::Button { button, press: false }),
                now,
            ),
            PointerEventKind::Axis { horizontal, vertical } => self.delivered(
                axis_commands(horizontal, vertical),
                now,
            ),
            PointerEventKind::Motion | PointerEventKind::Leave => self,
        }
    }

    /// What one pointer event asks for.
    pub open spec fn event_actions(self, e: PointerEvent) -> Seq<Action> {
        match e.kind {
            PointerEventKind::Enter { serial } => {
                let s = AppView { last_enter_serial: serial, ..self };
                match surface_at(self.surfaces, e.surface) {
                    Some(i) => if s.can_capture() {
                        s.capture_actions(i, self.on_desktop(e, i))
                    } else {
                        Seq::empty()
                    },
                    None => Seq::empty(),
                }
            },
            PointerEventKind::Press { button } => self.sends(
                framed(EisCommand::Button { button, press: true }),
            ),
            PointerEventKind::Release { button } => self.sends(
                framed(EisCommand::Button { button, press: false }),
            ),
            PointerEventKind::Axis { horizontal, vertical } => self.sends(
                axis_commands(horizontal, vertical),
            ),
            PointerEventKind::Motion | PointerEventKind::Leave => Seq::empty(),
        }
    }

    /// The state after some pointer events, in order.
    pub open spec fn after_events(self, events: Seq<PointerEvent>, now: u128) -> AppView
        decreases events.len(),
    {
        if events.len() == 0 {
            self
        } else {
            self.after_events(events.drop_last(), now).after_event(events.last(), now)
        }
    }

    /// What some pointer events ask for, in order.
    pub open spec fn events_actions(self, events: Seq<PointerEvent>, now: u128) -> Seq<Action>
        decreases events.len(),
    {
        if events.len() == 0 {
            Seq::empty()
        } else {
            self.events_actions(events.drop_last(), now) + self.after_events(
                events.drop_last(),
                now,
            ).event_actions(events.last())
        }
    }

    /// Routing events to the client changes nothing but the capture, and not
    /// where it goes.
    pub proof fn delivery_keeps(self, cmds: Seq<EisCommand>, now: u128)
        ensures
            self.delivered(cmds, now).destination() == self.destination(),
            self.delivered(cmds, now).capture is Some == self.capture is Some,
            self.capture is None ==> self.delivered(cmds, now) == self,
            self.delivered(cmds, now) == (AppView {
                capture: self.delivered(cmds, now).capture,
                ..self
            }),
            self.wf() ==> self.delivered(cmds, now).wf(),
        decreases cmds.len(),
    {
        if cmds.len() > 0 {
            self.delivery_keeps(cmds.drop_last(), now);
        }
    }
}

impl AppState {
    /// Route some events to the client, in order.
    fn deliver(&mut self, cmds: &Vec<EisCommand>, now: u128) -> (r: Vec<Action>)
        requires
            old(self)@.wf(),
        ensures
            final(self)@ == old(self)@.delivered(cmds@, now),
            r@ == old(self)@.sends(cmds@),
            final(self)@.wf(),
    {
        let mut r: Vec<Action> = Vec::new();
        let mut i: usize = 0;
        assert(cmds@.take(0) =~= Seq::empty());
        assert(r@ =~= old(self)@.sends(cmds@.take(0)));
        while i < cmds.len()
            invariant
                i <= cmds.len(),
                self@ == old(self)@.delivered(cmds@.take(i as int), now),
                r@ == old(self)@.sends(cmds@.take(i as int)),
                self@.wf(),
            decreases cmds.len() - i,
        {
            proof {
                old(self)@.delivery_keeps(cmds@.take(i as int), now);
                assert(cmds@.take(i + 1).drop_last() =~= cmds@.take(i as int));
                assert(cmds@.take(i + 1).last() == cmds@[i as int]);
            }
            let ghost before = r@;
            let mut one = self.forward(cmds[i], now);
            let ghost added = one@;
            r.append(&mut one);
            i += 1;
            proof {
                assert(r@ =~= before + added);
                assert(r@ =~= old(self)@.sends(cmds@.take(i as int)));
            }
        }
        assert(cmds@.take(cmds@.len() as int) =~= cmds@);
        r
    }

    /// Route one event to the client, and a frame behind it.
    fn deliver_framed(&mut self, cmd: EisCommand, now: u128) -> (r: Vec<Action>)
        requires
            old(self)@.wf(),
        ensures
            final(self)@ == old(self)@.delivered(framed(cmd), now),
            r@ == old(self)@.sends(framed(cmd)),
            final(self)@.wf(),
    {
        let mut cmds: Vec<EisCommand> = Vec::new();
        cmds.push(cmd);
        cmds.push(EisCommand::Frame);
        assert(cmds@ =~= framed(cmd));
        self.deliver(&cmds, now)
    }

    /// What one axis event comes to.
    fn scroll(horizontal: &AxisScroll, vertical: &AxisScroll) -> (r: Vec<EisCommand>)
        ensures
            r@ == axis_commands(*horizontal, *vertical),
    {
        let mut cmds: Vec<EisCommand> = Vec::new();
        if horizontal.stop || vertical.stop {
            cmds.push(EisCommand::ScrollStop);
        }
        let (dx, dy): (i32, i32) = if horizontal.value120 != 0 || vertical.value120 != 0 {
            (horizontal.value120, vertical.value120)
        } else {
            (horizontal.discrete.wrapping_mul(120), vertical.discrete.wrapping_mul(120))
        };
        if dx != 0 || dy != 0 {
            cmds.push(EisCommand::ScrollDiscrete { dx, dy });
        }
        let moved = (horizontal.absolute != 0 && horizontal.absolute != NEGATIVE_ZERO) || (
        vertical.absolute != 0 && vertical.absolute != NEGATIVE_ZERO);
        if moved {
            cmds.push(EisCommand::Scroll { dx: horizontal.narrowed, dy: vertical.narrowed });
        }
        cmds.push(EisCommand::Frame);
        assert(cmds@ =~= axis_commands(*horizontal, *vertical));
        cmds
    }

    /// Take in one pointer event.
    fn pointer_event(&mut self, event: &PointerEvent, now: u128) -> (r: Vec<Action>)
        requires
            old(self)@.wf(),
        ensures
            final(self)@ == old(self)@.after_event(*event, now),
            r@ == old(self)@.event_actions(*event),
            final(self)@.wf(),
    {
        match event.kind {
            PointerEventKind::Enter { serial } => {
                self.last_enter_serial = serial;
                match self.find_surface(event.surface) {
                    Some(index) => {
                        let origin = self.surfaces[index].origin;
                        let position = (
                            event.position.0.moved_by(origin.0 as i64),
                            event.position.1.moved_by(origin.1 as i64),
                        );
                        let r = self.begin_capture(index, position, now);
                        assert(r@ =~= old(self)@.event_actions(*event));
                        r
                    },
                    None => {
                        let r: Vec<Action> = Vec::new();
                        assert(r@ =~= old(self)@.event_actions(*event));
                        r
                    },
                }
            },
            PointerEventKind::Press { button } => self.deliver_framed(
                EisCommand::Button { button, press: true },
                now,
            ),
            PointerEventKind::Release { button } => self.deliver_framed(
                EisCommand::Button { button, press: false },
                now,
            ),
            PointerEventKind::Axis { horizontal, vertical } => {
                let cmds = AppState::scroll(&horizontal, &vertical);
                self.deliver(&cmds, now)
            },
            PointerEventKind::Motion | PointerEventKind::Leave => {
                let r: Vec<Action> = Vec::new();
                assert(r@ =~= Seq::empty());
                r
            },
        }
    }

    /// Take in a batch of pointer events.
    pub fn pointer_frame(&mut self, events: &Vec<PointerEvent>, now: u128) -> (r: Vec<Action>)
        requires
            old(self)@.wf(),
        ensures
            final(self)@ == old(self)@.after_events(events@, now),
            r@ == old(self)@.events_actions(events@, now),
            final(self)@.wf(),
    {
        let mut r: Vec<Action> = Vec::new();
        let mut i: usize = 0;
        assert(events@.take(0) =~= Seq::empty());
        assert(r@ =~= Seq::empty());
        while i < events.len()
            invariant
                i <= events.len(),
                self@ == old(self)@.after_events(events@.take(i as int), now),
                r@ == old(self)@.events_actions(events@.take(i as int), now),
                self@.wf(),
            decreases events.len() - i,
        {
            proof {
                assert(events@.take(i + 1).drop_last() =~= events@.take(i as int));
                assert(events@.take(i + 1).last() == events@[i as int]);
            }
            let ghost before = r@;
            let mut one = self.pointer_event(&events[i], now);
            let ghost added = one@;
            r.append(&mut one);
            assert(r@ =~= before + added);
            i += 1;
        }
        assert(events@.take(events@.len() as int) =~= events@);
        r
    }

    /// Take in relative motion, in single-precision bit patterns. The deltas are
    /// the accelerated ones, so pointer feel on the remote screen matches the
    /// local pointer settings.
    pub fn relative_pointer_motion(&mut self, dx: u32, dy: u32, now: u128) -> (r: Vec<Action>)
        requires
            old(self)@.wf(),
        ensures
            final(self)@ == old(self)@.delivered(framed(EisCommand::Motion { dx, dy }), now),
            r@ == old(self)@.sends(framed(EisCommand::Motion { dx, dy })),
            old(self)@.capture matches Some(c) ==> ({
                let done = EisCommand::Motion { dx, dy };
                &&& c.eis matches Some(to) ==> r@ == seq![
                    Action::Send { to, cmd: done },
                    Action::Send { to, cmd: EisCommand::Frame },
                ]
                &&& c.eis is None ==> r@.len() == 0
                &&& final(self)@.capture matches Some(d) && d.last_input == now && d.eis == c.eis
                    && if c.eis is None {
                    d.pending == c.pending.push(done).push(EisCommand::Frame)
                } else {
                    d.pending == c.pending
                }
            }),
            final(self)@.wf(),
    {
        proof {
            if let Some(c) = self@.capture {
                one_event_goes_out_with_a_frame(self@, c, EisCommand::Motion { dx, dy }, now);
            }
        }
        self.deliver_framed(EisCommand::Motion { dx, dy }, now)
    }

    /// Best-effort keyboard escape.
    ///
    /// Do not rely on this: niri handles compositor bindings before clients see
    /// them, so a combination it claims never arrives here. It is a convenience
    /// for the cases it does work in, not a safety mechanism.
    pub fn is_panic_key(&self, keysym: u32) -> (r: bool)
        ensures
            r == (self@.modifiers.ctrl && self@.modifiers.alt && keysym == KEYSYM_ESCAPE),
    {
        self.modifiers.ctrl && self.modifiers.alt && keysym == KEYSYM_ESCAPE
    }

    /// Take in a key that went down. The code is passed through untouched: it is
    /// the evdev code on both sides.
    pub fn press_key(&mut self, keycode: u32, keysym: u32, now: u128) -> (r: Vec<Action>)
        requires
            old(self)@.wf(),
        ensures
            old(self)@.panic_key(keysym) ==> {
                &&& final(self)@ == old(self)@.ended()
                &&& r@ == old(self)@.lost_actions()
            },
            !old(self)@.panic_key(keysym) ==> {
                &&& final(self)@ == old(self)@.delivered(
                    framed(EisCommand::Key { keycode, press: true }),
                    now,
                )
                &&& r@ == old(self)@.sends(framed(EisCommand::Key { keycode, press: true }))
            },
            old(self)@.capture matches Some(c) ==> (!(old(self)@.modifiers.ctrl
                && old(self)@.modifiers.alt && keysym == 0xff1b) ==> {
                let done = EisCommand::Key { keycode, press: true };
                &&& c.eis matches Some(to) ==> r@ == seq![
                    Action::Send { to, cmd: done },
                    Action::Send { to, cmd: EisCommand::Frame },
                ]
                &&& c.eis is None ==> r@.len() == 0
                &&& final(self)@.capture matches Some(d) && d.last_input == now && d.eis == c.eis
                    && if c.eis is None {
                    d.pending == c.pending.push(done).push(EisCommand::Frame)
                } else {
                    d.pending == c.pending
                }
            }),
            old(self)@.capture is Some && old(self)@.modifiers.ctrl && old(self)@.modifiers.alt
                && keysym == 0xff1b ==> final(self)@.capture is None && r@.last() == Action::Emit(
                WaylandEvent::CaptureLost,
            ),
            old(self)@.capture is None ==> r@.len() == 0 && final(self)@ == old(self)@,
            final(self)@.wf(),
    {
        if self.capture.is_some() && self.is_panic_key(keysym) {
            self.lose_capture()
        } else {
            proof {
                self@.delivery_keeps(framed(EisCommand::Key { keycode, press: true }), now);
                if let Some(c) = self@.capture {
                    let done = EisCommand::Key { keycode, press: true };
                    one_event_goes_out_with_a_frame(self@, c, done, now);
                }
            }
            self.deliver_framed(EisCommand::Key { keycode, press: true }, now)
        }
    }

    /// Take in a key that came up.
    pub fn release_key(&mut self, keycode: u32, now: u128) -> (r: Vec<Action>)
        requires
            old(self)@.wf(),
        ensures
            final(self)@ == old(self)@.delivered(
                framed(EisCommand::Key { keycode, press: false }),
                now,
            ),
            r@ == old(self)@.sends(framed(EisCommand::Key { keycode, press: false })),
            old(self)@.capture matches Some(c) ==> ({
                let done = EisCommand::Key { keycode, press: false };
                &&& c.eis matches Some(to) ==> r@ == seq![
                    Action::Send { to, cmd: done },
                    Action::Send { to, cmd: EisCommand::Frame },
                ]
                &&& c.eis is None ==> r@.len() == 0
                &&& final(self)@.capture matches Some(d) && d.last_input == now && d.eis == c.eis
                    && if c.eis is None {
                    d.pending == c.pending.push(done).push(EisCommand::Frame)
                } else {
                    d.pending == c.pending
                }
            }),
            final(self)@.wf(),
    {
        proof {
            if let Some(c) = self@.capture {
                one_event_goes_out_with_a_frame(self@, c, EisCommand::Key { keycode, press: false }, now);
            }
        }
        self.deliver_framed(EisCommand::Key { keycode, press: false }, now)
    }

    /// A key that repeats. Deliberately not forwarded: the remote machine already
    /// generates its own repeats from the held key, so passing these along would
    /// double every one.
    pub fn repeat_key(&self) -> (r: Vec<Action>)
        ensures
            r@.len() == 0,
    {
        Vec::new()
    }

    /// Note which modifiers are held.
    pub fn update_modifiers(&mut self, modifiers: Modifiers)
        ensures
            final(self)@ == (AppView { modifiers, ..old(self)@ }),
    {
        self.modifiers = modifiers;
    }
}

impl AppView {
    /// Whether a key is the escape combination.
    pub open spec fn panic_key(self, keysym: u32) -> bool {
        self.capture is Some && self.modifiers.ctrl && self.modifiers.alt && keysym
            == KEYSYM_ESCAPE
    }
}

} // verus!
