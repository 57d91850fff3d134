//! What holds of barriers and captures over several steps.

use crate::coord::{clamping_bounds, pixel, Coord};
use crate::eis_server::{EisCommand, EisHandle};
use crate::portal::Barrier;
use crate::text::{
    is_digit, is_white, trimmed, u64_of, unsigned_digits, white_space_around_a_text_is_dropped,
};
use crate::wayland::capture::flushed;
use crate::wayland::input::{axis_commands, framed, PointerEvent, PointerEventKind};
use crate::wayland::state::{
    is_input, surface_at, Action, AppView, CaptureView, NANOS,
};
use crate::wayland::{
    corner_fits, host, off_every_edge, on_an_edge, placed_on, runs_down, timeout_for, Edge,
    IdleTimeout, PlacedBarrier, DEFAULT_IDLE_TIMEOUT, RELEASE_INSET,
};
use vstd::prelude::*;

verus! {

/// Every barrier is either placed or reported back.
pub proof fn every_barrier_is_placed_or_reported(
    barriers: Seq<Barrier>,
    outputs: Seq<(String, (i32, i32), (i32, i32))>,
)
    ensures
        on_an_edge(barriers, outputs).len() + off_every_edge(barriers, outputs).len()
            == barriers.len(),
    decreases barriers.len(),
{
    reveal(Seq::filter);
    if barriers.len() > 0 {
        every_barrier_is_placed_or_reported(barriers.drop_last(), outputs);
    }
}

/// The part of a placed barrier that takes input is one pixel deep, lies on the
/// outermost pixels of the output's edge, and stays within the output and the
/// barrier along that edge.
pub proof fn the_strip_is_the_outermost_pixel(
    p: PlacedBarrier,
    b: Barrier,
    outputs: Seq<(String, (i32, i32), (i32, i32))>,
)
    requires
        host(b, outputs) is Some,
        corner_fits(b, outputs),
        placed_on(p, b, outputs[host(b, outputs).unwrap()]),
    ensures
        ({
            let (name, at, size) = outputs[host(b, outputs).unwrap()];
            let (x, y, w, h) = p.strip();
            let (left, top) = (p.origin.0 + x, p.origin.1 + y);
            let (right, bottom) = (left + w, top + h);
            &&& match p.edge {
                Edge::Left => left == at.0 && w == 1,
                Edge::Right => right == at.0 + size.0 && w == 1,
                Edge::Top => top == at.1 && h == 1,
                Edge::Bottom => bottom == at.1 + size.1 && h == 1,
            }
            &&& runs_down(p.edge) ==> {
                &&& at.1 <= top < bottom <= at.1 + size.1
                &&& (b.y1 <= top && bottom <= b.y2) || (b.y2 <= top && bottom <= b.y1)
            }
            &&& !runs_down(p.edge) ==> {
                &&& at.0 <= left < right <= at.0 + size.0
                &&& (b.x1 <= left && right <= b.x2) || (b.x2 <= left && right <= b.x1)
            }
        }),
{
}

/// Wherever along the edge a cursor comes back, it lands on the barrier's
/// surface, [`RELEASE_INSET`] pixels from the strip it crossed; and a place along
/// the edge that lies on the surface is kept.
pub proof fn the_cursor_comes_back_clear_of_the_strip(
    p: PlacedBarrier,
    b: Barrier,
    o: (String, (i32, i32), (i32, i32)),
    along: Coord,
)
    requires
        placed_on(p, b, o),
    ensures
        ({
            let (x, y) = p.hint(along);
            let strip = p.strip();
            &&& match p.edge {
                Edge::Left => x == pixel(strip.0 + RELEASE_INSET),
                Edge::Right => x == pixel(strip.0 - RELEASE_INSET),
                Edge::Top => y == pixel(strip.1 + RELEASE_INSET),
                Edge::Bottom => y == pixel(strip.1 - RELEASE_INSET),
            }
            &&& !x.before(0) && !x.after(p.size.0 - 1)
            &&& !y.before(0) && !y.after(p.size.1 - 1)
            &&& runs_down(p.edge) && !along.before(0) && !along.after(p.size.1 - 1) ==> y == along
            &&& !runs_down(p.edge) && !along.before(0) && !along.after(p.size.0 - 1) ==> x == along
        }),
{
    clamping_bounds(along, if runs_down(p.edge) {
        p.size.1 - 1
    } else {
        p.size.0 - 1
    });
}

/// A hint that lies off the barrier's surface makes no difference: the cursor
/// comes back where it crossed.
pub proof fn a_hint_off_the_surface_is_ignored(c: CaptureView, hint: (Coord, Coord))
    requires
        ({
            let x = hint.0.moved(-c.origin.0);
            let y = hint.1.moved(-c.origin.1);
            x.before(0) || y.before(0) || x.after(c.placed.size.0 as int) || y.after(
                c.placed.size.1 as int,
            )
        }),
    ensures
        c.comes_back(Some(hint)) == c.comes_back(None),
        c.comes_back(None) == c.entry_along,
{
}

/// Without a hint the cursor comes back at the very place along the edge where it
/// crossed.
pub proof fn the_cursor_comes_back_where_it_crossed(
    v: AppView,
    index: int,
    position: (Coord, Coord),
    now: u128,
)
    requires
        0 <= index < v.surfaces.len(),
    ensures
        ({
            let s = v.surfaces[index];
            v.captured(index, position, now).capture.unwrap().comes_back(None) == if runs_down(
                s.placed.edge,
            ) {
                position.1.moved(-s.origin.1)
            } else {
                position.0.moved(-s.origin.0)
            }
        }),
{
}

/// A crossing locks the pointer before anything else, and tells the portal after
/// everything else.
pub proof fn a_crossing_locks_before_it_tells(v: AppView, index: int, position: (Coord, Coord))
    ensures
        ({
            let all = v.capture_actions(index, position);
            &&& all[0] == (Action::LockPointer { layer: v.surfaces[index].layer })
            &&& all.last() is Emit
            &&& forall|i: int| 0 <= i < all.len() - 1 ==> !(#[trigger] all[i] is Emit)
        }),
{
}

/// What a step does to something that can be held once: taken, let go of, or
/// neither.
pub open spec fn tally(actions: Seq<Action>, change: spec_fn(Action) -> int) -> int
    decreases actions.len(),
{
    if actions.len() == 0 {
        0
    } else {
        tally(actions.drop_last(), change) + change(actions.last())
    }
}

/// What an action does to the pointer lock.
pub open spec fn lock_change() -> spec_fn(Action) -> int {
    |a: Action|
        match a {
            Action::LockPointer { .. } => 1,
            Action::DestroyLock => -1,
            _ => 0,
        }
}

/// What an action does to the keyboard grab.
pub open spec fn grab_change() -> spec_fn(Action) -> int {
    |a: Action|
        match a {
            Action::SetKeyboardFocus { exclusive: true, .. } => 1,
            Action::SetKeyboardFocus { exclusive: false, .. } => -1,
            _ => 0,
        }
}

/// How many captures are in progress.
pub open spec fn captures(v: AppView) -> int {
    if v.capture is Some {
        1
    } else {
        0
    }
}

proof fn tally_adds(a: Seq<Action>, b: Seq<Action>, change: spec_fn(Action) -> int)
    ensures
        tally(a + b, change) == tally(a, change) + tally(b, change),
    decreases b.len(),
{
    if b.len() == 0 {
        assert(a + b =~= a);
    } else {
        assert((a + b).drop_last() =~= a + b.drop_last());
        tally_adds(a, b.drop_last(), change);
    }
}

proof fn tally_of_indifferent(actions: Seq<Action>, change: spec_fn(Action) -> int)
    requires
        forall|i: int| 0 <= i < actions.len() ==> change(#[trigger] actions[i]) == 0,
    ensures
        tally(actions, change) == 0,
    decreases actions.len(),
{
    if actions.len() > 0 {
        assert forall|i: int| 0 <= i < actions.drop_last().len() implies change(
            #[trigger] actions.drop_last()[i],
        ) == 0 by {
            assert(actions.drop_last()[i] == actions[i]);
        }
        tally_of_indifferent(actions.drop_last(), change);
    }
}

proof fn tally_of_one(a: Action, change: spec_fn(Action) -> int)
    ensures
        tally(seq![a], change) == change(a),
{
    assert(seq![a].drop_last() =~= Seq::empty());
    assert(tally(seq![a].drop_last(), change) == 0);
}

/// A capture that starts takes the pointer lock and the keyboard grab once each.
pub proof fn a_capture_takes_pointer_and_keyboard(
    v: AppView,
    index: int,
    position: (Coord, Coord),
    now: u128,
)
    requires
        v.can_capture(),
    ensures
        tally(v.capture_actions(index, position), lock_change()) == captures(
            v.captured(index, position, now),
        ) - captures(v),
        tally(v.capture_actions(index, position), grab_change()) == captures(
            v.captured(index, position, now),
        ) - captures(v),
{
    let all = v.capture_actions(index, position);
    let rest = all.skip(2);
    assert(all =~= seq![all[0]] + seq![all[1]] + rest);
    tally_adds(seq![all[0]] + seq![all[1]], rest, lock_change());
    tally_adds(seq![all[0]], seq![all[1]], lock_change());
    tally_adds(seq![all[0]] + seq![all[1]], rest, grab_change());
    tally_adds(seq![all[0]], seq![all[1]], grab_change());
    tally_of_one(all[0], lock_change());
    tally_of_one(all[1], lock_change());
    tally_of_one(all[0], grab_change());
    tally_of_one(all[1], grab_change());
    tally_of_indifferent(rest, lock_change());
    tally_of_indifferent(rest, grab_change());
}

/// A capture that ends gives the pointer lock and the keyboard grab back; where
/// there is none, nothing is given back.
pub proof fn an_end_gives_pointer_and_keyboard_back(v: AppView, hint: Option<(Coord, Coord)>)
    ensures
        tally(v.end_actions(hint), lock_change()) == captures(v.ended()) - captures(v),
        tally(v.end_actions(hint), grab_change()) == captures(v.ended()) - captures(v),
{
    if v.capture is Some {
        let all = v.end_actions(hint);
        let front = all.take(2);
        let rest = all.skip(4);
        assert(all =~= front + seq![all[2]] + seq![all[3]] + rest);
        tally_adds(front + seq![all[2]] + seq![all[3]], rest, lock_change());
        tally_adds(front + seq![all[2]], seq![all[3]], lock_change());
        tally_adds(front, seq![all[2]], lock_change());
        tally_adds(front + seq![all[2]] + seq![all[3]], rest, grab_change());
        tally_adds(front + seq![all[2]], seq![all[3]], grab_change());
        tally_adds(front, seq![all[2]], grab_change());
        tally_of_one(all[2], lock_change());
        tally_of_one(all[3], lock_change());
        tally_of_one(all[2], grab_change());
        tally_of_one(all[3], grab_change());
        tally_of_indifferent(front, lock_change());
        tally_of_indifferent(front, grab_change());
        tally_of_indifferent(rest, lock_change());
        tally_of_indifferent(rest, grab_change());
    }
}

proof fn delivery_takes_nothing(v: AppView, cmds: Seq<EisCommand>, now: u128)
    ensures
        tally(v.sends(cmds), lock_change()) == 0,
        tally(v.sends(cmds), grab_change()) == 0,
        captures(v.delivered(cmds, now)) == captures(v),
{
    v.delivery_keeps(cmds, now);
    tally_of_indifferent(v.sends(cmds), lock_change());
    tally_of_indifferent(v.sends(cmds), grab_change());
}

/// Over any batch of pointer events the pointer lock and the keyboard grab are
/// held exactly while a capture is in progress.
pub proof fn pointer_events_hold_what_a_capture_holds(
    v: AppView,
    events: Seq<PointerEvent>,
    now: u128,
)
    ensures
        tally(v.events_actions(events, now), lock_change()) == captures(v.after_events(events, now))
            - captures(v),
        tally(v.events_actions(events, now), grab_change()) == captures(v.after_events(events, now))
            - captures(v),
    decreases events.len(),
{
    if events.len() > 0 {
        let before = v.after_events(events.drop_last(), now);
        let e = events.last();
        pointer_events_hold_what_a_capture_holds(v, events.drop_last(), now);
        tally_adds(v.events_actions(events.drop_last(), now), before.event_actions(e), lock_change());
        tally_adds(v.events_actions(events.drop_last(), now), before.event_actions(e), grab_change());
        match e.kind {
            PointerEventKind::Enter { serial } => {
                let s = AppView { last_enter_serial: serial, ..before };
                if let Some(i) = surface_at(before.surfaces, e.surface) {
                    if s.can_capture() {
                        a_capture_takes_pointer_and_keyboard(s, i, before.on_desktop(e, i), now);
                    }
                }
            },
            PointerEventKind::Press { button } => {
                delivery_takes_nothing(
                    before,
                    framed(EisCommand::Button { button, press: true }),
                    now,
                );
            },
            PointerEventKind::Release { button } => {
                delivery_takes_nothing(
                    before,
                    framed(EisCommand::Button { button, press: false }),
                    now,
                );
            },
            PointerEventKind::Axis { horizontal, vertical } => {
                delivery_takes_nothing(before, axis_commands(horizontal, vertical), now);
            },
            PointerEventKind::Motion | PointerEventKind::Leave => {},
        }
    }
}

/// Losing a capture, by the watchdog, the escape keys or the compositor, gives
/// pointer and keyboard back and leaves none in progress.
pub proof fn a_lost_capture_gives_pointer_and_keyboard_back(v: AppView)
    ensures
        tally(v.lost_actions(), lock_change()) == -captures(v),
        tally(v.lost_actions(), grab_change()) == -captures(v),
        captures(v.ended()) == 0,
{
    an_end_gives_pointer_and_keyboard_back(v, None);
    let more = v.lost_actions().skip(v.end_actions(None).len() as int);
    assert(v.lost_actions() =~= v.end_actions(None) + more);
    tally_adds(v.end_actions(None), more, lock_change());
    tally_adds(v.end_actions(None), more, grab_change());
    tally_of_indifferent(more, lock_change());
    tally_of_indifferent(more, grab_change());
}

/// Ending a capture that has ended asks for nothing.
pub proof fn ending_twice_ends_once(v: AppView, hint: Option<(Coord, Coord)>)
    ensures
        v.ended().end_actions(hint) == Seq::<Action>::empty(),
        v.ended().ended() == v.ended(),
{
}

/// The hint for the cursor is committed before the lock goes, which is what makes
/// it count.
pub proof fn the_hint_is_committed_before_the_lock_goes(v: AppView, hint: Option<(Coord, Coord)>)
    requires
        v.capture is Some,
    ensures
        ({
            let all = v.end_actions(hint);
            let layer = v.capture.unwrap().layer;
            &&& all[0] is SetCursorHint
            &&& all[1] == (Action::Commit { layer })
            &&& all[2] is DestroyLock
        }),
{
}

/// Whatever happens between a crossing and the handover is kept in order, and the
/// handover writes all of it.
pub proof fn nothing_is_lost_before_the_handover(
    v: AppView,
    cmds: Seq<EisCommand>,
    now: u128,
    to: EisHandle,
)
    requires
        v.capture matches Some(c) && c.eis is None,
    ensures
        v.sends(cmds) == Seq::<Action>::empty(),
        v.delivered(cmds, now).capture matches Some(c) && {
            let all = v.capture.unwrap().pending + cmds;
            &&& c.eis is None
            &&& c.pending == all
            &&& forall|i: int|
                0 <= i < all.len() ==> #[trigger] flushed(c.pending, to)[i] == (Action::Send {
                    to,
                    cmd: all[i],
                })
        },
    decreases cmds.len(),
{
    if cmds.len() > 0 {
        nothing_is_lost_before_the_handover(v, cmds.drop_last(), now, to);
        assert(cmds.drop_last().push(cmds.last()) =~= cmds);
        let pending = v.capture.unwrap().pending;
        assert((pending + cmds.drop_last()).push(cmds.last()) =~= pending + cmds);
    } else {
        assert(v.capture.unwrap().pending + cmds =~= v.capture.unwrap().pending);
    }
}

/// Whatever is written to the client ends in a frame, without which it would not
/// be delivered.
pub proof fn every_batch_ends_in_a_frame(
    v: AppView,
    e: PointerEvent,
    pending: Seq<EisCommand>,
    to: EisHandle,
)
    ensures
        v.destination() == Some(to) && (e.kind is Press || e.kind is Release || e.kind is Axis)
            ==> v.event_actions(e).last() == (Action::Send { to, cmd: EisCommand::Frame }),
        pending.len() > 0 ==> flushed(pending, to).last() == (Action::Send {
            to,
            cmd: EisCommand::Frame,
        }),
{
}

/// Once the connection is there, every event is written to it as it comes, in
/// order, and none is kept.
pub proof fn input_goes_straight_through_after_the_handover(
    v: AppView,
    cmds: Seq<EisCommand>,
    now: u128,
)
    requires
        v.destination() is Some,
    ensures
        v.sends(cmds).len() == cmds.len(),
        forall|i: int|
            0 <= i < cmds.len() ==> #[trigger] v.sends(cmds)[i] == (Action::Send {
                to: v.destination().unwrap(),
                cmd: cmds[i],
            }),
        v.delivered(cmds, now).capture matches Some(c) && c.pending
            == v.capture.unwrap().pending,
    decreases cmds.len(),
{
    if cmds.len() > 0 {
        input_goes_straight_through_after_the_handover(v, cmds.drop_last(), now);
        v.delivery_keeps(cmds.drop_last(), now);
    }
}

/// Without a capture in progress nothing is written and nothing changes.
pub proof fn input_stays_local_without_a_capture(v: AppView, cmds: Seq<EisCommand>, now: u128)
    requires
        v.capture is None,
    ensures
        v.sends(cmds) == Seq::<Action>::empty(),
        v.delivered(cmds, now) == v,
{
    v.delivery_keeps(cmds, now);
}

/// While a capture is in progress a pointer that enters a surface starts no other.
pub proof fn a_second_crossing_changes_nothing(v: AppView, e: PointerEvent, now: u128)
    requires
        v.capture is Some,
        e.kind is Enter,
    ensures
        v.event_actions(e) == Seq::<Action>::empty(),
        v.after_event(e, now).capture == v.capture,
{
}

/// Bookkeeping does not feed the watchdog: however many frames pass, a capture
/// that has gone quiet is released all the same.
pub proof fn frames_do_not_feed_the_watchdog(
    v: AppView,
    cmds: Seq<EisCommand>,
    now: u128,
    later: u128,
)
    requires
        forall|i: int| 0 <= i < cmds.len() ==> !is_input(#[trigger] cmds[i]),
    ensures
        v.delivered(cmds, now).stranded(later) == v.stranded(later),
    decreases cmds.len(),
{
    if cmds.len() > 0 {
        assert(!is_input(cmds[cmds.len() - 1]));
        assert forall|i: int| 0 <= i < cmds.drop_last().len() implies !is_input(
            #[trigger] cmds.drop_last()[i],
        ) by {
            assert(cmds.drop_last()[i] == cmds[i]);
        }
        frames_do_not_feed_the_watchdog(v, cmds.drop_last(), now, later);
    }
}

/// Input feeds the watchdog: a capture that saw some within the timeout is left
/// alone.
pub proof fn input_feeds_the_watchdog(
    v: AppView,
    cmds: Seq<EisCommand>,
    i: int,
    now: u128,
    later: u128,
)
    requires
        0 <= i < cmds.len(),
        is_input(cmds[i]),
        v.idle_timeout matches IdleTimeout::After { secs } && 0 < secs && later < now + secs * NANOS,
    ensures
        !v.delivered(cmds, now).stranded(later),
    decreases cmds.len(),
{
    v.delivery_keeps(cmds, now);
    v.delivery_keeps(cmds.drop_last(), now);
    if i < cmds.len() - 1 {
        input_feeds_the_watchdog(v, cmds.drop_last(), i, now, later);
    }
}

/// A capture without input for the whole timeout is stranded, from then on until
/// something is captured.
pub proof fn a_quiet_capture_is_stranded(v: AppView, c: CaptureView, secs: u64, now: u128)
    requires
        v.capture == Some(c),
        v.idle_timeout == (IdleTimeout::After { secs }),
        now >= c.last_input + secs * NANOS,
    ensures
        v.stranded(now),
        forall|later: u128| later >= now ==> #[trigger] v.stranded(later),
{
}

/// White space around the number that a setting spells makes no difference.
pub proof fn white_space_around_a_setting_is_ignored(
    front: Seq<char>,
    number: Seq<char>,
    back: Seq<char>,
)
    requires
        forall|i: int| 0 <= i < front.len() ==> is_white(#[trigger] front[i]),
        forall|i: int| 0 <= i < back.len() ==> is_white(#[trigger] back[i]),
        u64_of(number) is Some,
    ensures
        timeout_for(u64_of(trimmed(front + number + back))) == timeout_for(u64_of(number)),
{
    let digits = unsigned_digits(number);
    assert(is_digit(digits[0]) && is_digit(digits.last()));
    assert(number.last() == digits.last());
    assert(number[0] == '+' || number[0] == digits[0]);
    white_space_around_a_text_is_dropped(front, number, back);
}

/// The default timeout is fifteen seconds, and zero turns the watchdog off for
/// good.
pub proof fn zero_turns_the_watchdog_off(v: AppView, now: u128)
    requires
        v.idle_timeout == timeout_for(Some(0)),
    ensures
        !v.stranded(now),
        timeout_for(None) == (IdleTimeout::After { secs: DEFAULT_IDLE_TIMEOUT }),
{
}

} // verus!
