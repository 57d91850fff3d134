//! Taking over pointer and keyboard, routing what they do to the client, and
//! giving them back.

use crate::coord::Coord;
use crate::eis_server::{EisCommand, EisHandle};
use crate::wayland::state::{
    action_if, Action, AppState, AppView, Capture, CaptureView, NANOS,
};
use crate::wayland::{Edge, IdleTimeout, WaylandEvent};
use vstd::prelude::*;

verus! {

impl AppState {
    /// Take over the pointer and keyboard the moment a barrier is crossed.
    ///
    /// Nothing happens while a capture is already in progress, or when there is
    /// no pointer or no way to lock it.
    pub fn begin_capture(
        &mut self,
        index: usize,
        position: (Coord, Coord),
        now: u128,
    ) -> (r: Vec<Action>)
        requires
            index < old(self)@.surfaces.len(),
            old(self)@.wf(),
        ensures
            old(self)@.can_capture() ==> {
                &&& final(self)@ == old(self)@.captured(index as int, position, now)
                &&& r@ == old(self)@.capture_actions(index as int, position)
            },
            !old(self)@.can_capture() ==> final(self)@ == old(self)@ && r@.len() == 0,
            final(self)@.wf(),
    {
        let mut r: Vec<Action> = Vec::new();
        if self.capture.is_some() || !self.pointer || !self.can_lock {
            return r;
        }
        let s = &self.surfaces[index];
        let layer: u64 = s.layer;
        let barrier_id: u32 = s.id;
        let origin = s.origin;
        let placed = s.placed.clone();
        // Position along the edge that the pointer crossed at, in surface-local
        // coordinates — the axis depends on whether the edge is vertical.
        let entry_along = match placed.edge {
            Edge::Left | Edge::Right => position.1.moved_by(-(origin.1 as i64)),
            Edge::Top | Edge::Bottom => position.0.moved_by(-(origin.0 as i64)),
        };
        r.push(Action::LockPointer { layer });
        // Exclusive keyboard focus is what lets keystrokes reach the remote
        // screen instead of whatever window happens to be focused locally.
        r.push(Action::SetKeyboardFocus { layer, exclusive: true });
        // Widen the input region to the whole surface for the duration of the
        // capture; the pointer is locked anyway and this keeps focus stable.
        r.push(Action::SetInputRegion { layer, strip: None });
        r.push(Action::Commit { layer });
        // A locked pointer still draws a cursor; hide it so the screen looks
        // like the pointer really left.
        r.push(Action::ClearCursor { serial: self.last_enter_serial });
        r.push(Action::Emit(WaylandEvent::Activated { barrier_id, position }));
        let pending: Vec<EisCommand> = Vec::new();
        assert(pending@ =~= Seq::empty());
        self.capture = Some(
            Capture {
                barrier_id,
                layer,
                origin,
                eis: None,
                pending,
                placed,
                entry_along,
                motions: 0,
                keys: 0,
                buttons: 0,
                scrolls: 0,
                last_input: now,
            },
        );
        r
    }

    /// Hand over the connection that captured input goes to, and flush whatever
    /// happened between the crossing and this handover.
    pub fn attach_eis(&mut self, eis: EisHandle) -> (r: Vec<Action>)
        ensures
            match old(self)@.capture {
                None => final(self)@ == old(self)@ && r@.len() == 0,
                Some(c) => {
                    &&& final(self)@ == (AppView {
                        capture: Some(
                            CaptureView { eis: Some(eis), pending: Seq::empty(), ..c },
                        ),
                        ..old(self)@
                    })
                    &&& r@ == flushed(c.pending, eis)
                },
            },
            old(self)@.capture matches Some(c) ==> (final(self)@.capture matches Some(d) && {
                &&& d.eis == Some(eis)
                &&& d.pending.len() == 0
                &&& d.last_input == c.last_input
                &&& d.layer == c.layer
                &&& d.entry_along == c.entry_along
                &&& c.pending.len() > 0 ==> r@.len() == c.pending.len() + 1
                &&& forall|i: int|
                    0 <= i < c.pending.len() ==> #[trigger] r@[i] == (Action::Send {
                        to: eis,
                        cmd: c.pending[i],
                    })
            }),
            old(self)@.wf() ==> final(self)@.wf(),
    {
        let mut r: Vec<Action> = Vec::new();
        match self.capture.take() {
            None => {},
            Some(mut c) => {
                let n: usize = c.pending.len();
                let mut i: usize = 0;
                while i < n
                    invariant
                        n == c.pending@.len(),
                        i <= n,
                        r@ == flushed(c.pending@, eis).take(i as int),
                    decreases n - i,
                {
                    r.push(Action::Send { to: eis, cmd: c.pending[i] });
                    i += 1;
                    assert(r@ =~= flushed(c.pending@, eis).take(i as int));
                }
                if n > 0 {
                    r.push(Action::Send { to: eis, cmd: EisCommand::Frame });
                }
                assert(r@ =~= flushed(c.pending@, eis));
                c.pending.clear();
                c.eis = Some(eis);
                self.capture = Some(c);
            },
        }
        r
    }
}

/// What a handover writes: the buffered events in order, and a frame behind
/// them if there are any.
pub open spec fn flushed(pending: Seq<EisCommand>, to: EisHandle) -> Seq<Action> {
    if pending.len() == 0 {
        Seq::empty()
    } else {
        pending.map_values(|cmd: EisCommand| Action::Send { to, cmd }).push(
            Action::Send { to, cmd: EisCommand::Frame },
        )
    }
}

impl Capture {
    /// Decide whether a client's `cursor_position` is worth honouring.
    ///
    /// Returns the position along the barrier's edge if the hint lands on this
    /// barrier's surface, `None` if it is nonsense and the entry point should be
    /// used instead.
    pub fn usable_hint(&self, hint: (Coord, Coord)) -> (r: Option<Coord>)
        ensures
            r == self@.hinted(hint),
    {
        let x = hint.0.moved_by(-(self.origin.0 as i64));
        let y = hint.1.moved_by(-(self.origin.1 as i64));
        // A hint that does not even fall within the barrier surface is telling
        // us nothing about where along this edge the pointer should land.
        if x.is_before(0) || y.is_before(0) || x.is_after(self.placed.size.0 as i64) || y.is_after(
            self.placed.size.1 as i64,
        ) {
            return None;
        }
        match self.placed.edge {
            Edge::Left | Edge::Right => Some(y),
            Edge::Top | Edge::Bottom => Some(x),
        }
    }
}

impl AppState {
    /// Release the pointer and give the local cursor back.
    pub fn end_capture(&mut self, cursor_hint: Option<(Coord, Coord)>) -> (r: Vec<Action>)
        requires
            old(self)@.wf(),
        ensures
            final(self)@ == old(self)@.ended(),
            r@ == old(self)@.end_actions(cursor_hint),
            final(self)@.wf(),
    {
        let mut r: Vec<Action> = Vec::new();
        match self.capture.take() {
            None => {},
            Some(c) => {
                // Where along the edge to come back. The client's suggestion is
                // only used when it is actually usable: some clients send a
                // constant on every release, which would pin the cursor to the
                // same corner for ever.
                let along = match cursor_hint {
                    Some(h) => match c.usable_hint(h) {
                        Some(along) => along,
                        None => c.entry_along,
                    },
                    None => c.entry_along,
                };
                let layer: u64 = c.layer;
                let (x, y) = c.placed.release_hint(along);
                r.push(Action::SetCursorHint { x, y });
                // The hint only takes effect when the lock is destroyed, and only
                // if it has been committed first.
                r.push(Action::Commit { layer });
                r.push(Action::DestroyLock);
                r.push(Action::SetKeyboardFocus { layer, exclusive: false });
                // Shrink the input region back to the outer strip so the rest of
                // the surface stops swallowing clicks.
                r.push(Action::SetInputRegion { layer, strip: Some(c.placed.input_strip()) });
                r.push(Action::Commit { layer });
                if self.pointer {
                    // Hand the cursor image back to the compositor default.
                    r.push(Action::ClearCursor { serial: self.last_enter_serial });
                }
                r.push(
                    Action::DropCapture {
                        layer,
                        barrier_id: c.barrier_id,
                        motions: c.motions,
                        keys: c.keys,
                        buttons: c.buttons,
                        scrolls: c.scrolls,
                    },
                );
            },
        }
        assert(r@ =~= old(self)@.end_actions(cursor_hint));
        r
    }

    /// Route one event to the client, buffering if EIS is not attached yet.
    pub fn forward(&mut self, cmd: EisCommand, now: u128) -> (r: Vec<Action>)
        ensures
            final(self)@ == old(self)@.forwarded(cmd, now),
            r@ == old(self)@.sends(seq![cmd]),
            old(self)@.wf() ==> final(self)@.wf(),
    {
        let mut r: Vec<Action> = Vec::new();
        match self.capture.take() {
            None => {},
            Some(mut c) => {
                let is_input = match cmd {
                    EisCommand::Motion { .. } => {
                        c.motions = c.motions.wrapping_add(1);
                        true
                    },
                    EisCommand::Key { .. } => {
                        c.keys = c.keys.wrapping_add(1);
                        true
                    },
                    EisCommand::Button { .. } => {
                        c.buttons = c.buttons.wrapping_add(1);
                        true
                    },
                    EisCommand::Scroll { .. } | EisCommand::ScrollDiscrete { .. } => {
                        c.scrolls = c.scrolls.wrapping_add(1);
                        true
                    },
                    _ => false,
                };
                if is_input {
                    c.last_input = now;
                }
                match c.eis {
                    Some(to) => {
                        r.push(Action::Send { to, cmd });
                    },
                    None => {
                        c.pending.push(cmd);
                    },
                }
                self.capture = Some(c);
            },
        }
        assert(r@ =~= old(self)@.sends(seq![cmd]));
        r
    }

    /// End the capture and tell the portal that it is gone, if there is one.
    pub(crate) fn lose_capture(&mut self) -> (r: Vec<Action>)
        requires
            old(self)@.wf(),
        ensures
            final(self)@ == old(self)@.ended(),
            r@ == old(self)@.lost_actions(),
            final(self)@.wf(),
    {
        let capturing = self.capture.is_some();
        let mut r = self.end_capture(None);
        if capturing {
            r.push(Action::Emit(WaylandEvent::CaptureLost));
        }
        assert(r@ =~= old(self)@.lost_actions());
        r
    }

    /// The compositor dropped the lock on its own, e.g. when the surface lost
    /// focus. Capture cannot continue without it.
    pub fn unlocked(&mut self) -> (r: Vec<Action>)
        requires
            old(self)@.wf(),
        ensures
            final(self)@ == old(self)@.ended(),
            r@ == old(self)@.lost_actions(),
            final(self)@.wf(),
    {
        self.lose_capture()
    }

    /// Force-release a capture that has gone quiet.
    ///
    /// A capture that is working generates a constant stream of input, because
    /// the user is driving the remote screen with this machine's own devices.
    /// Silence means the input is going nowhere and the pointer is stranded.
    pub fn check_watchdog(&mut self, now: u128) -> (r: Vec<Action>)
        requires
            old(self)@.wf(),
        ensures
            old(self)@.stranded(now) ==> {
                &&& final(self)@ == old(self)@.ended()
                &&& r@ == old(self)@.lost_actions()
            },
            !old(self)@.stranded(now) ==> final(self)@ == old(self)@ && r@.len() == 0,
            old(self)@.capture is None || old(self)@.idle_timeout is Never ==> final(self)@ == old(self)@ && r@.len() == 0,
            old(self)@.capture matches Some(c) ==> (old(self)@.idle_timeout
                matches IdleTimeout::After { secs } ==> if secs > 0 && now - c.last_input < secs
                * 1_000_000_000 {
                final(self)@ == old(self)@ && r@.len() == 0
            } else {
                final(self)@.capture is None && r@.last() == Action::Emit(WaylandEvent::CaptureLost)
            }),
            final(self)@.wf(),
    {
        let quiet = match &self.capture {
            None => false,
            Some(c) => {
                let idle: u128 = if now > c.last_input {
                    now - c.last_input
                } else {
                    0
                };
                match self.idle_timeout {
                    IdleTimeout::After { secs } => idle >= secs as u128 * NANOS,
                    IdleTimeout::Never => false,
                }
            },
        };
        if quiet {
            self.lose_capture()
        } else {
            Vec::new()
        }
    }
}

impl AppView {
    /// What losing a capture asks for: what ending it does, and word to the
    /// portal.
    pub open spec fn lost_actions(self) -> Seq<Action> {
        self.end_actions(None) + action_if(
            self.capture is Some,
            Action::Emit(WaylandEvent::CaptureLost),
        )
    }

    /// Whether there is a capture that has gone quiet.
    pub open spec fn stranded(self, now: u128) -> bool {
        self.capture matches Some(c) && c.gone_quiet(now, self.idle_timeout)
    }
}

} // verus!
