//! What crossings, captures and watchdog checks come to, said of what goes in and
//! what comes out.

use crate::coord::Coord;
use crate::eis_server::{EisCommand, EisHandle};
use crate::wayland::capture::flushed;
use crate::wayland::input::{
    axis_commands, framed, AxisScroll, PointerEvent, PointerEventKind, NEGATIVE_ZERO,
};
use crate::wayland::laws::nothing_is_lost_before_the_handover;
use crate::wayland::state::{surface_at, Action, AppView, CaptureView};
use crate::wayland::{Edge, IdleTimeout, WaylandEvent};
use vstd::prelude::*;

verus! {

/// A surface is found by its number: the first that has it.
pub proof fn a_surface_is_found_by_its_number(v: AppView, layer: u64)
    ensures
        match surface_at(v.surfaces, layer) {
            Some(i) => 0 <= i < v.surfaces.len() && v.surfaces[i].layer == layer && forall|j: int|
                0 <= j < i ==> (#[trigger] v.surfaces[j]).layer != layer,
            None => forall|j: int|
                0 <= j < v.surfaces.len() ==> (#[trigger] v.surfaces[j]).layer != layer,
        },
    decreases v.surfaces.len(),
{
    if v.surfaces.len() > 0 && v.surfaces[0].layer != layer {
        let rest = AppView { surfaces: v.surfaces.drop_first(), ..v };
        a_surface_is_found_by_its_number(rest, layer);
        assert forall|j: int|
            1 <= j < v.surfaces.len() && rest.surfaces[j - 1].layer != layer implies (
        #[trigger] v.surfaces[j]).layer != layer by {}
    }
}

/// A batch of pointer events is its events one by one: a batch of one is that
/// event, and of two batches the second starts from where the first leaves things.
pub proof fn a_batch_is_its_events_one_by_one(
    v: AppView,
    first: Seq<PointerEvent>,
    e: PointerEvent,
    now: u128,
)
    ensures
        v.after_events(Seq::empty(), now) == v,
        v.events_actions(Seq::empty(), now) == Seq::<Action>::empty(),
        v.after_events(seq![e], now) == v.after_event(e, now),
        v.events_actions(seq![e], now) == v.event_actions(e),
        v.after_events(first.push(e), now) == v.after_events(first, now).after_event(e, now),
        v.events_actions(first.push(e), now) == v.events_actions(first, now) + v.after_events(
            first,
            now,
        ).event_actions(e),
{
    assert(seq![e].drop_last() =~= Seq::empty());
    assert(first.push(e).drop_last() =~= first);
    assert(v.after_events(seq![e].drop_last(), now) == v);
    assert(v.events_actions(seq![e].drop_last(), now) =~= Seq::empty());
    assert(v.events_actions(seq![e], now) =~= v.event_actions(e));
}

/// One pointer's entry on an armed surface takes pointer and keyboard over and is
/// reported where it happened: the position that the portal is told exceeds the
/// event's own by the surface's origin, on both axes. Nothing but the serial and
/// the capture changes, and the place kept for the return is the event's own
/// coordinate along the edge.
pub proof fn a_crossing_is_reported_where_it_happened(
    v: AppView,
    e: PointerEvent,
    serial: u32,
    i: int,
    now: u128,
)
    requires
        e.kind == (PointerEventKind::Enter { serial }),
        0 <= i < v.surfaces.len(),
        v.surfaces[i].layer == e.surface,
        forall|j: int| 0 <= j < i ==> (#[trigger] v.surfaces[j]).layer != e.surface,
        v.capture is None,
        v.pointer,
        v.can_lock,
        e.position.0 matches Coord::At { steps, .. } ==> i64::MIN <= steps + 256
            * v.surfaces[i].origin.0 <= i64::MAX,
        e.position.1 matches Coord::At { steps, .. } ==> i64::MIN <= steps + 256
            * v.surfaces[i].origin.1 <= i64::MAX,
    ensures
        ({
            let s = v.surfaces[i];
            let todo = v.events_actions(seq![e], now);
            let after = v.after_events(seq![e], now);
            &&& todo == v.event_actions(e)
            &&& todo.len() == 6
            &&& todo[0] == (Action::LockPointer { layer: e.surface })
            &&& todo[1] == (Action::SetKeyboardFocus { layer: e.surface, exclusive: true })
            &&& todo[2] == (Action::SetInputRegion { layer: e.surface, strip: None })
            &&& todo[3] == (Action::Commit { layer: e.surface })
            &&& todo[4] == (Action::ClearCursor { serial })
            &&& todo[5] matches Action::Emit(WaylandEvent::Activated { barrier_id, position }) && {
                &&& barrier_id == s.id
                &&& match (e.position.0, position.0) {
                    (
                        Coord::At { steps: local, exact: a },
                        Coord::At { steps: global, exact: b },
                    ) => global - local == 256 * s.origin.0 && a == b,
                    (Coord::NotANumber, Coord::NotANumber) => true,
                    _ => false,
                }
                &&& match (e.position.1, position.1) {
                    (
                        Coord::At { steps: local, exact: a },
                        Coord::At { steps: global, exact: b },
                    ) => global - local == 256 * s.origin.1 && a == b,
                    (Coord::NotANumber, Coord::NotANumber) => true,
                    _ => false,
                }
            }
            &&& after == (AppView { last_enter_serial: serial, capture: after.capture, ..v })
            &&& after.capture matches Some(c) && {
                &&& c.barrier_id == s.id
                &&& c.layer == e.surface
                &&& c.origin == s.origin
                &&& c.placed == s.placed
                &&& c.eis is None
                &&& c.pending.len() == 0
                &&& c.entry_along == match s.placed.edge {
                    Edge::Left => e.position.1,
                    Edge::Right => e.position.1,
                    Edge::Top => e.position.0,
                    Edge::Bottom => e.position.0,
                }
                &&& (c.motions, c.keys, c.buttons, c.scrolls) == (0u32, 0u32, 0u32, 0u32)
                &&& c.last_input == now
            }
        }),
{
    a_batch_is_its_events_one_by_one(v, Seq::empty(), e, now);
    a_surface_is_found_by_its_number(v, e.surface);
}

/// A pointer's entry takes nothing over while a capture is in progress, without a
/// pointer, without a way to lock it, or on a surface that is no barrier's: all
/// that is kept of it is the serial.
pub proof fn an_entry_elsewhere_only_leaves_its_serial(
    v: AppView,
    e: PointerEvent,
    serial: u32,
    now: u128,
)
    requires
        e.kind == (PointerEventKind::Enter { serial }),
        v.capture is Some || !v.pointer || !v.can_lock || forall|j: int|
            0 <= j < v.surfaces.len() ==> (#[trigger] v.surfaces[j]).layer != e.surface,
    ensures
        v.event_actions(e) == Seq::<Action>::empty(),
        v.after_event(e, now) == (AppView { last_enter_serial: serial, ..v }),
{
    a_surface_is_found_by_its_number(v, e.surface);
}

/// The place on one axis, in steps, of a position brought onto a span of so many
/// pixels.
pub open spec fn brought_onto(c: Coord, pixels: int, r: Coord) -> bool {
    match c {
        Coord::At { steps, exact } => if steps < 0 {
            r == (Coord::At { steps: 0, exact: true })
        } else if steps > 256 * (pixels - 1) || (steps == 256 * (pixels - 1) && !exact) {
            r == (Coord::At { steps: (256 * (pixels - 1)) as i64, exact: true })
        } else {
            r == c
        },
        Coord::NotANumber => r is NotANumber,
    }
}

/// Ending a capture without a hint puts the cursor eight pixels inside the edge it
/// crossed and, along the edge, where it crossed; gives the keyboard back; shrinks
/// the input region to the outermost pixels of the edge; and lets go of the
/// surface, all of the surface that the capture held.
pub proof fn an_end_undoes_the_crossing(v: AppView, c: CaptureView)
    requires
        v.capture == Some(c),
        v.wf(),
    ensures
        ({
            let todo = v.end_actions(None);
            let (w, h) = (c.placed.size.0 as int, c.placed.size.1 as int);
            &&& todo.len() == if v.pointer {
                8int
            } else {
                7int
            }
            &&& todo[0] matches Action::SetCursorHint { x, y } && match c.placed.edge {
                Edge::Left => x == (Coord::At { steps: 2048, exact: true }) && brought_onto(
                    c.entry_along,
                    h,
                    y,
                ),
                Edge::Right => x == (Coord::At {
                    steps: (256 * (w - 9)) as i64,
                    exact: true,
                }) && brought_onto(c.entry_along, h, y),
                Edge::Top => y == (Coord::At { steps: 2048, exact: true }) && brought_onto(
                    c.entry_along,
                    w,
                    x,
                ),
                Edge::Bottom => y == (Coord::At {
                    steps: (256 * (h - 9)) as i64,
                    exact: true,
                }) && brought_onto(c.entry_along, w, x),
            }
            &&& todo[1] == (Action::Commit { layer: c.layer })
            &&& todo[2] == Action::DestroyLock
            &&& todo[3] == (Action::SetKeyboardFocus { layer: c.layer, exclusive: false })
            &&& todo[4] matches Action::SetInputRegion { layer, strip: Some((x, y, sw, sh)) }
                && layer == c.layer && match c.placed.edge {
                Edge::Left => (x as int, y as int, sw as int, sh as int) == (0int, 0int, 1int, h),
                Edge::Right => (x as int, y as int, sw as int, sh as int) == (w - 1, 0int, 1int, h),
                Edge::Top => (x as int, y as int, sw as int, sh as int) == (0int, 0int, w, 1int),
                Edge::Bottom => (x as int, y as int, sw as int, sh as int) == (
                    0int,
                    h - 1,
                    w,
                    1int,
                ),
            }
            &&& todo[5] == (Action::Commit { layer: c.layer })
            &&& v.pointer ==> todo[6] == (Action::ClearCursor { serial: v.last_enter_serial })
            &&& todo.last() == (Action::DropCapture {
                layer: c.layer,
                barrier_id: c.barrier_id,
                motions: c.motions,
                keys: c.keys,
                buttons: c.buttons,
                scrolls: c.scrolls,
            })
            &&& v.ended() == (AppView { capture: None, ..v })
        }),
{
}

/// A position less a whole number of pixels.
pub open spec fn less(c: Coord, pixels: i32) -> Coord {
    match c {
        Coord::At { steps, exact } => Coord::At { steps: (steps - 256 * pixels) as i64, exact },
        Coord::NotANumber => Coord::NotANumber,
    }
}

/// Whether a position lies off a span of so many pixels. What is no number does not.
pub open spec fn lies_off(c: Coord, pixels: u32) -> bool {
    match c {
        Coord::At { steps, exact } => steps < 0 || steps > 256 * pixels || (steps == 256 * pixels
            && !exact),
        Coord::NotANumber => false,
    }
}

/// A hint that lands on the barrier's surface moves the cursor along the edge to
/// where it lands, and changes nothing else about the end; one that lies off it on
/// either axis is as good as none. Where it lands is the hint less the surface's
/// origin.
pub proof fn a_hint_on_the_surface_is_followed(v: AppView, c: CaptureView, hint: (Coord, Coord))
    requires
        v.capture == Some(c),
        hint.0 matches Coord::At { steps, .. } ==> i64::MIN <= steps - 256 * c.origin.0 <= i64::MAX,
        hint.1 matches Coord::At { steps, .. } ==> i64::MIN <= steps - 256 * c.origin.1 <= i64::MAX,
    ensures
        ({
            let (x, y) = (less(hint.0, c.origin.0), less(hint.1, c.origin.1));
            let led = CaptureView {
                entry_along: match c.placed.edge {
                    Edge::Left => y,
                    Edge::Right => y,
                    Edge::Top => x,
                    Edge::Bottom => x,
                },
                ..c
            };
            v.end_actions(Some(hint)) == if lies_off(x, c.placed.size.0) || lies_off(
                y,
                c.placed.size.1,
            ) {
                v.end_actions(None)
            } else {
                (AppView { capture: Some(led), ..v }).end_actions(None)
            }
        }),
{
}

/// What a batch of events means to the client is what happened: a button with its
/// number, pressed or let go, and a frame behind it. Motion on a surface and
/// leaving one mean nothing.
pub proof fn buttons_go_out_as_they_are(v: AppView, e: PointerEvent, to: EisHandle, c: CaptureView)
    requires
        v.capture == Some(c),
        c.eis == Some(to),
    ensures
        e.kind matches PointerEventKind::Press { button } ==> v.event_actions(e) == seq![
            Action::Send { to, cmd: EisCommand::Button { button, press: true } },
            Action::Send { to, cmd: EisCommand::Frame },
        ],
        e.kind matches PointerEventKind::Release { button } ==> v.event_actions(e) == seq![
            Action::Send { to, cmd: EisCommand::Button { button, press: false } },
            Action::Send { to, cmd: EisCommand::Frame },
        ],
        e.kind is Motion || e.kind is Leave ==> v.event_actions(e) == Seq::<Action>::empty(),
{
    if let PointerEventKind::Press { button } = e.kind {
        assert(v.event_actions(e) =~= seq![
            Action::Send { to, cmd: EisCommand::Button { button, press: true } },
            Action::Send { to, cmd: EisCommand::Frame },
        ]);
    }
    if let PointerEventKind::Release { button } = e.kind {
        assert(v.event_actions(e) =~= seq![
            Action::Send { to, cmd: EisCommand::Button { button, press: false } },
            Action::Send { to, cmd: EisCommand::Frame },
        ]);
    }
}

/// A scroll goes out as the end of it if either axis stopped, wheel steps if there
/// are any, and a distance if there is one, in this order, with a frame behind
/// them. The high-resolution steps of both axes count as soon as one axis has
/// some; else each legacy click is worth a hundred and twenty. The horizontal axis
/// stays horizontal, and the vertical one vertical.
pub proof fn a_scroll_goes_out_axis_by_axis(
    v: AppView,
    e: PointerEvent,
    h: AxisScroll,
    w: AxisScroll,
    to: EisHandle,
    c: CaptureView,
)
    requires
        v.capture == Some(c),
        c.eis == Some(to),
        e.kind == (PointerEventKind::Axis { horizontal: h, vertical: w }),
        i32::MIN <= h.discrete * 120 <= i32::MAX,
        i32::MIN <= w.discrete * 120 <= i32::MAX,
    ensures
        ({
            let todo = v.event_actions(e);
            let fine = h.value120 != 0 || w.value120 != 0;
            let stopped = h.stop || w.stop;
            let stepped = fine || h.discrete != 0 || w.discrete != 0;
            let moved = (h.absolute != 0 && h.absolute != 0x8000_0000_0000_0000) || (w.absolute != 0
                && w.absolute != 0x8000_0000_0000_0000);
            let before_steps: int = if stopped {
                1
            } else {
                0
            };
            let before_distance: int = before_steps + if stepped {
                1int
            } else {
                0int
            };
            let before_frame: int = before_distance + if moved {
                1int
            } else {
                0int
            };
            &&& todo.len() == before_frame + 1
            &&& stopped ==> todo[0] == (Action::Send { to, cmd: EisCommand::ScrollStop })
            &&& stepped ==> (todo[before_steps] matches Action::Send {
                to: there,
                cmd: EisCommand::ScrollDiscrete { dx, dy },
            } && there == to && if fine {
                dx == h.value120 && dy == w.value120
            } else {
                dx == h.discrete * 120 && dy == w.discrete * 120
            })
            &&& moved ==> todo[before_distance] == (Action::Send {
                to,
                cmd: EisCommand::Scroll { dx: h.narrowed, dy: w.narrowed },
            })
            &&& todo[before_frame] == (Action::Send { to, cmd: EisCommand::Frame })
        }),
{
    assert(NEGATIVE_ZERO == 0x8000_0000_0000_0000);
}

/// Whatever is routed to the client is counted under its own kind and no other,
/// and times the capture if it is something that the user did: a motion, a key, a
/// button, a scroll or a wheel step. A frame, the end of a scroll, and the start
/// or stop of the stream are no such thing. Where the connection is not there yet
/// the event is kept behind those that came before; else it goes out and is not
/// kept. Nothing else changes.
pub proof fn an_event_is_counted_and_timed_by_its_kind(
    v: AppView,
    c: CaptureView,
    cmd: EisCommand,
    now: u128,
)
    requires
        v.capture == Some(c),
    ensures
        ({
            let after = v.forwarded(cmd, now);
            &&& after == (AppView { capture: after.capture, ..v })
            &&& after.capture matches Some(d) && {
                &&& cmd is Key || cmd is Motion || cmd is Button || cmd is Scroll
                    || cmd is ScrollDiscrete ==> d.last_input == now
                &&& cmd is Frame || cmd is ScrollStop || cmd is StartEmulating
                    || cmd is StopEmulating ==> d.last_input == c.last_input
                &&& c.motions < u32::MAX ==> d.motions - c.motions == if cmd is Motion {
                    1int
                } else {
                    0int
                }
                &&& c.keys < u32::MAX ==> d.keys - c.keys == if cmd is Key {
                    1int
                } else {
                    0int
                }
                &&& c.buttons < u32::MAX ==> d.buttons - c.buttons == if cmd is Button {
                    1int
                } else {
                    0int
                }
                &&& c.scrolls < u32::MAX ==> d.scrolls - c.scrolls == if cmd is Scroll
                    || cmd is ScrollDiscrete {
                    1int
                } else {
                    0int
                }
                &&& c.eis is None ==> d.pending == c.pending.push(cmd)
                &&& c.eis is Some ==> d.pending == c.pending
                &&& (d.barrier_id, d.layer, d.origin, d.eis) == (
                    c.barrier_id,
                    c.layer,
                    c.origin,
                    c.eis,
                )
                &&& d.placed == c.placed
                &&& d.entry_along == c.entry_along
            }
        }),
{
}

/// Routing some events is routing them one by one.
pub proof fn events_are_routed_one_by_one(
    v: AppView,
    cmds: Seq<EisCommand>,
    cmd: EisCommand,
    now: u128,
)
    ensures
        v.delivered(Seq::empty(), now) == v,
        v.delivered(cmds.push(cmd), now) == v.delivered(cmds, now).forwarded(cmd, now),
{
    assert(cmds.push(cmd).drop_last() =~= cmds);
}

/// One thing that the user does is routed with a frame behind it: written at once
/// where the connection is there, kept where it is not yet. Either way it times the
/// capture.
pub proof fn one_event_goes_out_with_a_frame(v: AppView, c: CaptureView, cmd: EisCommand, now: u128)
    requires
        v.capture == Some(c),
    ensures
        framed(cmd) == seq![cmd, EisCommand::Frame],
        c.eis matches Some(to) ==> v.sends(framed(cmd)) == seq![
            Action::Send { to, cmd },
            Action::Send { to, cmd: EisCommand::Frame },
        ],
        c.eis is None ==> v.sends(framed(cmd)).len() == 0,
        v.delivered(framed(cmd), now).capture matches Some(d) && {
            &&& c.eis is None ==> d.pending == c.pending.push(cmd).push(EisCommand::Frame)
            &&& c.eis is Some ==> d.pending == c.pending
            &&& cmd is Key || cmd is Motion || cmd is Button || cmd is Scroll
                || cmd is ScrollDiscrete ==> d.last_input == now
            &&& d.eis == c.eis
        },
{
    assert(framed(cmd) =~= seq![cmd, EisCommand::Frame]);
    let one = Seq::<EisCommand>::empty().push(cmd);
    assert(framed(cmd) =~= one.push(EisCommand::Frame));
    events_are_routed_one_by_one(v, Seq::empty(), cmd, now);
    events_are_routed_one_by_one(v, one, EisCommand::Frame, now);
    an_event_is_counted_and_timed_by_its_kind(v, c, cmd, now);
    let w = v.forwarded(cmd, now);
    an_event_is_counted_and_timed_by_its_kind(w, w.capture.unwrap(), EisCommand::Frame, now);
    if let Some(to) = c.eis {
        assert(v.sends(framed(cmd)) =~= seq![
            Action::Send { to, cmd },
            Action::Send { to, cmd: EisCommand::Frame },
        ]);
    }
}

/// A capture is stranded once nothing was captured for the whole timeout, and not a
/// nanosecond before; never while the watchdog is off, and never where there is no
/// capture.
pub proof fn silence_for_the_whole_timeout_strands(v: AppView, now: u128)
    ensures
        v.stranded(now) == (v.capture matches Some(c) && (v.idle_timeout matches IdleTimeout::After {
            secs,
        } && (secs == 0 || now - c.last_input >= secs * 1_000_000_000))),
{
}

/// What the user does keeps a capture: after a key, a motion, a button, a scroll
/// or a wheel step is routed at some time, with whatever else at the same time, no
/// check of the watchdog before the timeout has passed since then ends the capture.
pub proof fn whatever_the_user_does_keeps_the_capture(
    v: AppView,
    cmds: Seq<EisCommand>,
    i: int,
    now: u128,
    later: u128,
    secs: u64,
)
    requires
        0 <= i < cmds.len(),
        cmds[i] is Key || cmds[i] is Motion || cmds[i] is Button || cmds[i] is Scroll
            || cmds[i] is ScrollDiscrete,
        v.idle_timeout == (IdleTimeout::After { secs }),
        0 < secs,
        later < now + secs * 1_000_000_000,
    ensures
        !v.delivered(cmds, now).stranded(later),
    decreases cmds.len(),
{
    v.delivery_keeps(cmds, now);
    v.delivery_keeps(cmds.drop_last(), now);
    if i < cmds.len() - 1 {
        whatever_the_user_does_keeps_the_capture(v, cmds.drop_last(), i, now, later, secs);
    }
}

/// Each thing that the user does keeps a capture by itself: a key that goes down or
/// comes up, a motion, a button, a scroll by distance and one by wheel steps.
pub proof fn each_thing_the_user_does_keeps_the_capture(
    v: AppView,
    code: u32,
    press: bool,
    dx: u32,
    dy: u32,
    sx: i32,
    sy: i32,
    now: u128,
    later: u128,
    secs: u64,
)
    requires
        v.idle_timeout == (IdleTimeout::After { secs }),
        0 < secs,
        later < now + secs * 1_000_000_000,
    ensures
        !v.delivered(framed(EisCommand::Key { keycode: code, press }), now).stranded(later),
        !v.delivered(framed(EisCommand::Motion { dx, dy }), now).stranded(later),
        !v.delivered(framed(EisCommand::Button { button: code, press }), now).stranded(later),
        !v.delivered(framed(EisCommand::Scroll { dx, dy }), now).stranded(later),
        !v.delivered(framed(EisCommand::ScrollDiscrete { dx: sx, dy: sy }), now).stranded(later),
{
    let key = EisCommand::Key { keycode: code, press };
    let motion = EisCommand::Motion { dx, dy };
    let button = EisCommand::Button { button: code, press };
    let scroll = EisCommand::Scroll { dx, dy };
    let wheel = EisCommand::ScrollDiscrete { dx: sx, dy: sy };
    whatever_the_user_does_keeps_the_capture(v, framed(key), 0, now, later, secs);
    whatever_the_user_does_keeps_the_capture(v, framed(motion), 0, now, later, secs);
    whatever_the_user_does_keeps_the_capture(v, framed(button), 0, now, later, secs);
    whatever_the_user_does_keeps_the_capture(v, framed(scroll), 0, now, later, secs);
    whatever_the_user_does_keeps_the_capture(v, framed(wheel), 0, now, later, secs);
}

/// Nothing but what the user does keeps a capture: frames, the ends of scrolls, and
/// the start or stop of the stream leave a capture as stranded as it was.
pub proof fn bookkeeping_keeps_no_capture(
    v: AppView,
    cmds: Seq<EisCommand>,
    now: u128,
    later: u128,
)
    requires
        forall|i: int|
            0 <= i < cmds.len() ==> (#[trigger] cmds[i] is Frame || cmds[i] is ScrollStop
                || cmds[i] is StartEmulating || cmds[i] is StopEmulating),
    ensures
        v.delivered(cmds, now).stranded(later) == v.stranded(later),
    decreases cmds.len(),
{
    if cmds.len() > 0 {
        let rest = cmds.drop_last();
        assert forall|i: int| 0 <= i < rest.len() implies (#[trigger] rest[i] is Frame
            || rest[i] is ScrollStop || rest[i] is StartEmulating || rest[i] is StopEmulating) by {
            assert(rest[i] == cmds[i]);
        }
        assert(cmds[cmds.len() - 1] == cmds.last());
        bookkeeping_keeps_no_capture(v, rest, now, later);
    }
}

/// A handover writes what was kept, in order, to the connection that is handed over,
/// with one frame behind it, and nothing where nothing was kept.
pub proof fn a_handover_writes_what_was_kept(pending: Seq<EisCommand>, to: EisHandle)
    ensures
        pending.len() == 0 ==> flushed(pending, to).len() == 0,
        pending.len() > 0 ==> {
            &&& flushed(pending, to).len() == pending.len() + 1
            &&& forall|i: int|
                0 <= i < pending.len() ==> #[trigger] flushed(pending, to)[i] == (Action::Send {
                    to,
                    cmd: pending[i],
                })
            &&& flushed(pending, to)[pending.len() as int] == (Action::Send {
                to,
                cmd: EisCommand::Frame,
            })
        },
{
}

/// What is routed goes to the connection of the capture, each event once and in
/// order; without a connection, and without a capture, nothing is written.
pub proof fn events_go_to_the_connection(v: AppView, cmds: Seq<EisCommand>)
    ensures
        match v.capture {
            Some(c) => match c.eis {
                Some(to) => v.sends(cmds).len() == cmds.len() && forall|i: int|
                    0 <= i < cmds.len() ==> #[trigger] v.sends(cmds)[i] == (Action::Send {
                        to,
                        cmd: cmds[i],
                    }),
                None => v.sends(cmds).len() == 0,
            },
            None => v.sends(cmds).len() == 0,
        },
{
}

/// Losing a capture is ending it and telling the portal, once and last; where there
/// is none, nothing happens.
pub proof fn a_lost_capture_is_told_last(v: AppView)
    ensures
        match v.capture {
            Some(_) => v.lost_actions() == v.end_actions(None).push(
                Action::Emit(WaylandEvent::CaptureLost),
            ),
            None => v.lost_actions().len() == 0,
        },
{
    if v.capture is Some {
        assert(v.lost_actions() =~= v.end_actions(None).push(
            Action::Emit(WaylandEvent::CaptureLost),
        ));
    }
}

/// The escape keys are Control, Alt and Escape together, and only while a capture
/// is in progress.
pub proof fn the_escape_keys_are_all_three(v: AppView, keysym: u32)
    ensures
        v.panic_key(keysym) == (v.capture is Some && v.modifiers.ctrl && v.modifiers.alt && keysym
            == 0xff1b),
{
}

/// Disarming lets go of each surface, once and in order, and of nothing else.
pub proof fn disarming_lets_go_of_every_surface(v: AppView)
    ensures
        v.disarm_actions().len() == v.surfaces.len(),
        forall|i: int|
            0 <= i < v.surfaces.len() ==> #[trigger] v.disarm_actions()[i]
                == (Action::DropSurface { layer: v.surfaces[i].layer }),
        v.disarmed().surfaces.len() == 0,
        v.disarmed() == (AppView { surfaces: v.disarmed().surfaces, ..v }),
{
}

/// What happens before the handover is kept as it would have been written after it:
/// the same events in the same order, behind those that were kept before.
pub proof fn what_is_kept_is_what_would_be_written(
    v: AppView,
    c: CaptureView,
    e: PointerEvent,
    to: EisHandle,
    now: u128,
)
    requires
        v.capture == Some(c),
        c.eis is None,
        !(e.kind is Enter),
    ensures
        ({
            let there = AppView { capture: Some(CaptureView { eis: Some(to), ..c }), ..v };
            let written = there.event_actions(e);
            let kept = v.after_event(e, now).capture.unwrap().pending;
            let first = c.pending.len() as int;
            &&& v.event_actions(e).len() == 0
            &&& kept.len() == first + written.len()
            &&& kept.take(first) == c.pending
            &&& forall|i: int|
                0 <= i < written.len() ==> #[trigger] written[i] == (Action::Send {
                    to,
                    cmd: kept[first + i],
                })
        }),
{
    let cmds = match e.kind {
        PointerEventKind::Press { button } => framed(EisCommand::Button { button, press: true }),
        PointerEventKind::Release { button } => framed(
            EisCommand::Button { button, press: false },
        ),
        PointerEventKind::Axis { horizontal, vertical } => axis_commands(horizontal, vertical),
        _ => Seq::empty(),
    };
    nothing_is_lost_before_the_handover(v, cmds, now, to);
    let kept = v.after_event(e, now).capture.unwrap().pending;
    assert(kept =~= c.pending + cmds);
    assert(kept.take(c.pending.len() as int) =~= c.pending);
}

/// A button times the capture and is counted; a scroll does so where it has steps or
/// a distance; moving over a surface and leaving it do not.
pub proof fn pointer_events_time_the_capture(
    v: AppView,
    c: CaptureView,
    e: PointerEvent,
    now: u128,
)
    requires
        v.capture == Some(c),
    ensures
        v.after_event(e, now).capture matches Some(d) && {
            &&& e.kind is Press || e.kind is Release ==> d.last_input == now
            &&& (e.kind is Press || e.kind is Release) && c.buttons < u32::MAX ==> d.buttons
                == c.buttons + 1
            &&& e.kind matches PointerEventKind::Axis { horizontal, vertical } ==> {
                &&& horizontal.value120 != 0 || vertical.value120 != 0 || (horizontal.absolute != 0
                    && horizontal.absolute != 0x8000_0000_0000_0000) ==> d.last_input == now
                &&& horizontal.value120 == 0 && vertical.value120 == 0 && horizontal.discrete == 0
                    && vertical.discrete == 0 && horizontal.absolute == 0 && vertical.absolute == 0
                    ==> d.last_input == c.last_input
            }
            &&& e.kind is Motion || e.kind is Leave || e.kind is Enter ==> d == c
        },
{
    match e.kind {
        PointerEventKind::Press { button } => {
            let cmd = EisCommand::Button { button, press: true };
            one_event_goes_out_with_a_frame(v, c, cmd, now);
            a_framed_event_is_counted_once(v, c, cmd, now);
        },
        PointerEventKind::Release { button } => {
            let cmd = EisCommand::Button { button, press: false };
            one_event_goes_out_with_a_frame(v, c, cmd, now);
            a_framed_event_is_counted_once(v, c, cmd, now);
        },
        PointerEventKind::Axis { horizontal, vertical } => {
            let cmds = axis_commands(horizontal, vertical);
            timed_by_any(v, c, cmds, now);
            assert(NEGATIVE_ZERO == 0x8000_0000_0000_0000);
            if horizontal.value120 != 0 || vertical.value120 != 0 {
                let i: int = if horizontal.stop || vertical.stop {
                    1
                } else {
                    0
                };
                assert(cmds[i] is ScrollDiscrete);
            } else if horizontal.absolute != 0 && horizontal.absolute != NEGATIVE_ZERO {
                assert(cmds[cmds.len() - 2] is Scroll);
            }
        },
        _ => {},
    }
}

proof fn a_framed_event_is_counted_once(v: AppView, c: CaptureView, cmd: EisCommand, now: u128)
    requires
        v.capture == Some(c),
    ensures
        v.delivered(framed(cmd), now) == v.forwarded(cmd, now).forwarded(EisCommand::Frame, now),
{
    let one = Seq::<EisCommand>::empty().push(cmd);
    assert(framed(cmd) =~= one.push(EisCommand::Frame));
    events_are_routed_one_by_one(v, Seq::empty(), cmd, now);
    events_are_routed_one_by_one(v, one, EisCommand::Frame, now);
}

/// Whether a command is something that the user did.
pub open spec fn done_by_the_user(cmd: EisCommand) -> bool {
    cmd is Key || cmd is Motion || cmd is Button || cmd is Scroll || cmd is ScrollDiscrete
}

proof fn timed_by_any(v: AppView, c: CaptureView, cmds: Seq<EisCommand>, now: u128)
    requires
        v.capture == Some(c),
    ensures
        v.delivered(cmds, now).capture matches Some(d) && {
            &&& (exists|i: int| 0 <= i < cmds.len() && done_by_the_user(#[trigger] cmds[i]))
                ==> d.last_input == now
            &&& (forall|i: int| 0 <= i < cmds.len() ==> !done_by_the_user(#[trigger] cmds[i]))
                ==> d.last_input == c.last_input
        },
    decreases cmds.len(),
{
    if cmds.len() > 0 {
        let rest = cmds.drop_last();
        timed_by_any(v, c, rest, now);
        v.delivery_keeps(rest, now);
        assert forall|i: int| 0 <= i < rest.len() implies #[trigger] rest[i] == cmds[i] by {}
        assert(cmds.last() == cmds[cmds.len() - 1]);
        if exists|i: int| 0 <= i < cmds.len() && done_by_the_user(#[trigger] cmds[i]) {
            let i = choose|i: int| 0 <= i < cmds.len() && done_by_the_user(#[trigger] cmds[i]);
            if i < rest.len() {
                assert(done_by_the_user(rest[i]));
            }
        }
        if forall|i: int| 0 <= i < cmds.len() ==> !done_by_the_user(#[trigger] cmds[i]) {
            assert forall|i: int| 0 <= i < rest.len() implies !done_by_the_user(
                #[trigger] rest[i],
            ) by {
                assert(!done_by_the_user(cmds[i]));
            }
        }
    }
}

} // verus!
