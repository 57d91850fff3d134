//! The Wayland client that owns the barrier surfaces and the capture grab.
//!
//! Every handler takes in one event and hands back what to ask of the
//! compositor, in order. Surfaces are named by numbers.

use crate::coord::Coord;
use crate::counting::counted;
use crate::eis_server::{EisCommand, EisHandle};
use crate::wayland::clipboard::ClipboardState;
use crate::wayland::{runs_down, IdleTimeout, PlacedBarrier, WaylandEvent};
use vstd::prelude::*;

verus! {

/// The keysym of the Escape key.
pub const KEYSYM_ESCAPE: u32 = 0xff1b;

/// Nanoseconds to the second.
pub const NANOS: u128 = 1_000_000_000;

/// What the compositor has said of one output.
#[derive(Debug)]
pub struct OutputInfo {
    pub name: Option<String>,
    pub logical_position: Option<(i32, i32)>,
    pub logical_size: Option<(i32, i32)>,
}

/// Which sides a surface is anchored to.
#[derive(Debug, Clone, Copy, PartialEq, Eq, Structural)]
pub struct Anchor {
    pub top: bool,
    pub bottom: bool,
    pub left: bool,
    pub right: bool,
}

/// One barrier's surface.
#[derive(Debug)]
pub struct BarrierSurface {
    pub id: u32,
    pub layer: u64,
    pub origin: (i32, i32),
    pub placed: PlacedBarrier,
    pub drawn: bool,
}

/// State held while input is being redirected to the client.
#[derive(Debug)]
pub struct Capture {
    pub barrier_id: u32,
    pub layer: u64,
    pub origin: (i32, i32),
    /// Absent until the portal hands over the session's EIS connection.
    pub eis: Option<EisHandle>,
    /// Events observed before the EIS handle arrived.
    pub pending: Vec<EisCommand>,
    pub placed: PlacedBarrier,
    /// Where the pointer sat on the barrier when capture began, surface-local.
    /// This is the honest answer to "where should the cursor come back", and it
    /// is used whenever the client's own suggestion is unusable.
    pub entry_along: Coord,
    /// Counted per kind so a capture that produced nothing is distinguishable
    /// from one that was never wired up. The counts wrap.
    pub motions: u32,
    pub keys: u32,
    pub buttons: u32,
    pub scrolls: u32,
    /// Last time anything at all was captured, for the idle watchdog, in
    /// nanoseconds.
    pub last_input: u128,
}

/// Modifier keys that are held.
#[derive(Debug, Clone, Copy, PartialEq, Eq, Structural)]
pub struct Modifiers {
    pub ctrl: bool,
    pub alt: bool,
}

/// Everything the Wayland thread decides from.
#[derive(Debug)]
pub struct AppState {
    pub pointer: bool,
    pub relative_pointer: bool,
    pub keyboard: bool,
    /// Whether the compositor offers pointer constraints, without which the
    /// pointer cannot be locked.
    pub can_lock: bool,
    pub modifiers: Modifiers,
    pub last_enter_serial: u32,
    /// The number that the next surface is given.
    pub next_layer: u64,
    pub surfaces: Vec<BarrierSurface>,
    pub capture: Option<Capture>,
    /// Absent when the compositor does not advertise `ext-data-control`, which
    /// costs the clipboard but nothing else.
    pub clipboard: Option<ClipboardState>,
    /// How long a capture may see no input at all before it is force-released.
    pub idle_timeout: IdleTimeout,
    pub exit: bool,
}

/// One thing to ask of the compositor, of an EIS connection, or of the portal.
#[derive(Debug)]
pub enum Action {
    /// Create an overlay surface on an output, anchored and sized, that reserves
    /// no space, takes no keyboard focus, and takes input on a strip only.
    CreateSurface {
        layer: u64,
        output: usize,
        anchor: Anchor,
        size: (u32, u32),
        margin: (i32, i32, i32, i32),
        input_strip: (i32, i32, i32, i32),
    },
    /// Let go of a barrier's surface. One that a capture still holds stays until
    /// the capture lets go of it too.
    DropSurface { layer: u64 },
    /// Attach a fully transparent buffer so the surface maps and can take input.
    Draw { layer: u64, width: i32, height: i32, stride: i32 },
    /// Lock the pointer to a surface, which the capture holds from here on.
    LockPointer { layer: u64 },
    SetKeyboardFocus { layer: u64, exclusive: bool },
    /// Restrict a surface's input region, or open the whole surface.
    SetInputRegion { layer: u64, strip: Option<(i32, i32, i32, i32)> },
    Commit { layer: u64 },
    /// Set no cursor image. That hides the cursor of a locked pointer, and hands
    /// the image back to the compositor's default otherwise.
    ClearCursor { serial: u32 },
    /// Say where the locked pointer should come back, surface-local.
    SetCursorHint { x: Coord, y: Coord },
    DestroyLock,
    /// The capture is over: let go of the surface that it held. With it goes the
    /// count of what was captured.
    DropCapture {
        layer: u64,
        barrier_id: u32,
        motions: u32,
        keys: u32,
        buttons: u32,
        scrolls: u32,
    },
    /// Write to an EIS connection.
    Send { to: EisHandle, cmd: EisCommand },
    /// Tell the portal.
    Emit(WaylandEvent),
    AcquirePointer,
    AcquireKeyboard,
    /// Watch the clipboard of the seat.
    WatchSeat,
    ReleasePointer,
    DestroyRelativePointer,
    ReleaseKeyboard,
}

/// A capture, seen from outside.
pub struct CaptureView {
    pub barrier_id: u32,
    pub layer: u64,
    pub origin: (i32, i32),
    pub eis: Option<EisHandle>,
    pub pending: Seq<EisCommand>,
    pub placed: PlacedBarrier,
    pub entry_along: Coord,
    pub motions: u32,
    pub keys: u32,
    pub buttons: u32,
    pub scrolls: u32,
    pub last_input: u128,
}

impl View for Capture {
    type V = CaptureView;

    open spec fn view(&self) -> CaptureView {
        CaptureView {
            barrier_id: self.barrier_id,
            layer: self.layer,
            origin: self.origin,
            eis: self.eis,
            pending: self.pending@,
            placed: self.placed,
            entry_along: self.entry_along,
            motions: self.motions,
            keys: self.keys,
            buttons: self.buttons,
            scrolls: self.scrolls,
            last_input: self.last_input,
        }
    }
}

/// The state, seen from outside.
pub struct AppView {
    pub pointer: bool,
    pub relative_pointer: bool,
    pub keyboard: bool,
    pub can_lock: bool,
    pub modifiers: Modifiers,
    pub last_enter_serial: u32,
    pub next_layer: u64,
    pub surfaces: Seq<BarrierSurface>,
    pub capture: Option<CaptureView>,
    pub clipboard: Option<ClipboardState>,
    pub idle_timeout: IdleTimeout,
    pub exit: bool,
}

impl View for AppState {
    type V = AppView;

    open spec fn view(&self) -> AppView {
        AppView {
            pointer: self.pointer,
            relative_pointer: self.relative_pointer,
            keyboard: self.keyboard,
            can_lock: self.can_lock,
            modifiers: self.modifiers,
            last_enter_serial: self.last_enter_serial,
            next_layer: self.next_layer,
            surfaces: self.surfaces@,
            capture: match self.capture {
                Some(c) => Some(c@),
                None => None,
            },
            clipboard: self.clipboard,
            idle_timeout: self.idle_timeout,
            exit: self.exit,
        }
    }
}

/// Whether a command carries user intent. Frames are bookkeeping and do not, so
/// they must not feed the idle watchdog — otherwise it could never fire.
pub open spec fn is_input(cmd: EisCommand) -> bool {
    cmd is Motion || cmd is Key || cmd is Button || cmd is Scroll || cmd is ScrollDiscrete
}

impl CaptureView {
    /// The capture after one more event was routed to the client: counted,
    /// timed if it carries intent, and buffered if EIS is not attached yet.
    pub open spec fn received(self, cmd: EisCommand, now: u128) -> CaptureView {
        CaptureView {
            motions: if cmd is Motion {
                counted(self.motions)
            } else {
                self.motions
            },
            keys: if cmd is Key {
                counted(self.keys)
            } else {
                self.keys
            },
            buttons: if cmd is Button {
                counted(self.buttons)
            } else {
                self.buttons
            },
            scrolls: if cmd is Scroll || cmd is ScrollDiscrete {
                counted(self.scrolls)
            } else {
                self.scrolls
            },
            last_input: if is_input(cmd) {
                now
            } else {
                self.last_input
            },
            pending: if self.eis is None {
                self.pending.push(cmd)
            } else {
                self.pending
            },
            ..self
        }
    }

    /// Where along the edge a client's hint asks the cursor to come back, if the
    /// hint lands on this barrier's surface.
    pub open spec fn hinted(self, hint: (Coord, Coord)) -> Option<Coord> {
        let x = hint.0.moved(-self.origin.0);
        let y = hint.1.moved(-self.origin.1);
        if x.before(0) || y.before(0) || x.after(self.placed.size.0 as int) || y.after(
            self.placed.size.1 as int,
        ) {
            None
        } else if runs_down(self.placed.edge) {
            Some(y)
        } else {
            Some(x)
        }
    }

    /// Where along the edge the cursor comes back: where a usable hint says,
    /// else where it left.
    pub open spec fn comes_back(self, hint: Option<(Coord, Coord)>) -> Coord {
        match hint {
            Some(h) => match self.hinted(h) {
                Some(along) => along,
                None => self.entry_along,
            },
            None => self.entry_along,
        }
    }

    /// Whether nothing was captured for the whole of the timeout.
    pub open spec fn gone_quiet(self, now: u128, timeout: IdleTimeout) -> bool {
        match timeout {
            IdleTimeout::After { secs } => now >= self.last_input + secs * NANOS || secs == 0,
            IdleTimeout::Never => false,
        }
    }
}

/// The strip of a placed barrier in the compositor's numbers.
pub open spec fn strip_of(p: PlacedBarrier) -> (i32, i32, i32, i32) {
    (p.strip().0 as i32, p.strip().1 as i32, p.strip().2 as i32, p.strip().3 as i32)
}

/// The first surface with a number.
pub open spec fn surface_at(surfaces: Seq<BarrierSurface>, layer: u64) -> Option<int>
    decreases surfaces.len(),
{
    if surfaces.len() == 0 {
        None
    } else if surfaces[0].layer == layer {
        Some(0)
    } else {
        match surface_at(surfaces.drop_first(), layer) {
            Some(i) => Some(i + 1),
            None => None,
        }
    }
}

/// One action if a condition holds, else none.
pub open spec fn action_if(cond: bool, action: Action) -> Seq<Action> {
    if cond {
        seq![action]
    } else {
        Seq::empty()
    }
}

impl AppView {
    /// Every surface has been placed soundly, and so has the captured one.
    pub open spec fn wf(self) -> bool {
        &&& forall|i: int| 0 <= i < self.surfaces.len() ==> (#[trigger] self.surfaces[i]).placed.sound()
        &&& self.capture matches Some(c) ==> c.placed.sound()
    }

    /// The state after one event was routed to the client.
    pub open spec fn forwarded(self, cmd: EisCommand, now: u128) -> AppView {
        AppView {
            capture: match self.capture {
                Some(c) => Some(c.received(cmd, now)),
                None => None,
            },
            ..self
        }
    }

    /// The connection that captured input goes to.
    pub open spec fn destination(self) -> Option<EisHandle> {
        match self.capture {
            Some(c) => c.eis,
            None => None,
        }
    }

    /// What routing some events to the client writes.
    pub open spec fn sends(self, cmds: Seq<EisCommand>) -> Seq<Action> {
        match self.destination() {
            Some(to) => cmds.map_values(|cmd: EisCommand| Action::Send { to, cmd }),
            None => Seq::empty(),
        }
    }

    /// The state after some events were routed to the client, in order.
    pub open spec fn delivered(self, cmds: Seq<EisCommand>, now: u128) -> AppView
        decreases cmds.len(),
    {
        if cmds.len() == 0 {
            self
        } else {
            self.delivered(cmds.drop_last(), now).forwarded(cmds.last(), now)
        }
    }

    /// The state once no capture is in progress.
    pub open spec fn ended(self) -> AppView {
        AppView { capture: None, ..self }
    }

    /// What ending a capture asks for: the hint is committed before the lock
    /// goes, which is what makes it count; then the keyboard is given back, the
    /// input region shrinks to the strip, and the cursor image is handed back.
    pub open spec fn end_actions(self, hint: Option<(Coord, Coord)>) -> Seq<Action> {
        match self.capture {
            None => Seq::empty(),
            Some(c) => {
                let (x, y) = c.placed.hint(c.comes_back(hint));
                seq![
                    Action::SetCursorHint { x, y },
                    Action::Commit { layer: c.layer },
                    Action::DestroyLock,
                    Action::SetKeyboardFocus { layer: c.layer, exclusive: false },
                    Action::SetInputRegion { layer: c.layer, strip: Some(strip_of(c.placed)) },
                    Action::Commit { layer: c.layer },
                ] + action_if(
                    self.pointer,
                    Action::ClearCursor { serial: self.last_enter_serial },
                ) + seq![
                    Action::DropCapture {
                        layer: c.layer,
                        barrier_id: c.barrier_id,
                        motions: c.motions,
                        keys: c.keys,
                        buttons: c.buttons,
                        scrolls: c.scrolls,
                    },
                ]
            },
        }
    }

    /// The state once every surface is let go of.
    pub open spec fn disarmed(self) -> AppView {
        AppView { surfaces: Seq::empty(), ..self }
    }

    /// What letting go of every surface asks for.
    pub open spec fn disarm_actions(self) -> Seq<Action> {
        self.surfaces.map_values(|s: BarrierSurface| Action::DropSurface { layer: s.layer })
    }

    /// Whether a pointer that enters a surface starts a capture.
    pub open spec fn can_capture(self) -> bool {
        self.capture is None && self.pointer && self.can_lock
    }

    /// The state once the pointer has entered a surface at a global position.
    pub open spec fn captured(self, index: int, position: (Coord, Coord), now: u128) -> AppView {
        let s = self.surfaces[index];
        AppView {
            capture: Some(
                CaptureView {
                    barrier_id: s.id,
                    layer: s.layer,
                    origin: s.origin,
                    eis: None,
                    pending: Seq::empty(),
                    placed: s.placed,
                    entry_along: if runs_down(s.placed.edge) {
                        position.1.moved(-s.origin.1)
                    } else {
                        position.0.moved(-s.origin.0)
                    },
                    motions: 0,
                    keys: 0,
                    buttons: 0,
                    scrolls: 0,
                    last_input: now,
                },
            ),
            ..self
        }
    }

    /// What starting a capture asks for. The pointer is locked first, and the
    /// portal is told last, so that the round trip through it cannot leak motion
    /// onto the local screen.
    pub open spec fn capture_actions(self, index: int, position: (Coord, Coord)) -> Seq<Action> {
        let s = self.surfaces[index];
        seq![
            Action::LockPointer { layer: s.layer },
            Action::SetKeyboardFocus { layer: s.layer, exclusive: true },
            Action::SetInputRegion { layer: s.layer, strip: None },
            Action::Commit { layer: s.layer },
            Action::ClearCursor { serial: self.last_enter_serial },
            Action::Emit(WaylandEvent::Activated { barrier_id: s.id, position }),
        ]
    }
}

impl AppState {
    /// A client that has seen nothing yet.
    pub fn new(
        idle_timeout: IdleTimeout,
        can_lock: bool,
        clipboard: Option<ClipboardState>,
    ) -> (r: AppState)
        ensures
            r@ == (AppView {
                pointer: false,
                relative_pointer: false,
                keyboard: false,
                can_lock,
                modifiers: (Modifiers { ctrl: false, alt: false }),
                last_enter_serial: 0,
                next_layer: 0,
                surfaces: Seq::empty(),
                capture: None,
                clipboard,
                idle_timeout,
                exit: false,
            }),
            r@.wf(),
    {
        let r = AppState {
            pointer: false,
            relative_pointer: false,
            keyboard: false,
            can_lock,
            modifiers: Modifiers { ctrl: false, alt: false },
            last_enter_serial: 0,
            next_layer: 0,
            surfaces: Vec::new(),
            capture: None,
            clipboard,
            idle_timeout,
            exit: false,
        };
        assert(r@.surfaces =~= Seq::empty());
        r
    }
}

/// A capture is seen as it is, field by field.
pub proof fn a_capture_is_seen_as_it_is(c: Capture)
    ensures
        c@.barrier_id == c.barrier_id,
        c@.layer == c.layer,
        c@.origin == c.origin,
        c@.eis == c.eis,
        c@.pending == c.pending@,
        c@.placed == c.placed,
        c@.entry_along == c.entry_along,
        c@.motions == c.motions,
        c@.keys == c.keys,
        c@.buttons == c.buttons,
        c@.scrolls == c.scrolls,
        c@.last_input == c.last_input,
{
}

/// The client's state is seen as it is, field by field.
pub proof fn the_client_is_seen_as_it_is(a: AppState)
    ensures
        a@.pointer == a.pointer,
        a@.relative_pointer == a.relative_pointer,
        a@.keyboard == a.keyboard,
        a@.can_lock == a.can_lock,
        a@.modifiers == a.modifiers,
        a@.last_enter_serial == a.last_enter_serial,
        a@.next_layer == a.next_layer,
        a@.surfaces == a.surfaces@,
        match (a.capture, a@.capture) {
            (Some(c), Some(seen)) => seen == c@,
            (None, None) => true,
            _ => false,
        },
        a@.clipboard == a.clipboard,
        a@.idle_timeout == a.idle_timeout,
        a@.exit == a.exit,
{
}

} // verus!
