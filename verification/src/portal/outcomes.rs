//! What calls and events come to, said of what goes in and what comes out.

use crate::coord::Coord;
use crate::eis_server::EisCommand;
use crate::niri::OutputZone;
use crate::portal::clipboard::{denied, selection_effects};
use crate::portal::control::{farewells, status_line, stops};
use crate::portal::dict::{line_of, number_of, point_of, texts_of, value_of, ValueView};
use crate::portal::effects::{granted, refused, EffectView, FaultView, SignalView};
use crate::portal::input_capture::{all_accepted, all_failed, grant, requested, tuples_of, zones_of};
use crate::portal::session::{position, position_finds, watcher, SessionView, StateView};
use crate::portal::tracker::serial_after;
use crate::portal::Barrier;
use crate::text::{decimal, texts, truth};
use crate::wayland::{CmdView, WaylandEvent};
use vstd::prelude::*;

verus! {

/// Whether some barrier of a list has a number, at whatever place.
pub open spec fn has_barrier(barriers: Seq<Barrier>, barrier_id: u32) -> bool {
    exists|k: int| 0 <= k < barriers.len() && (#[trigger] barriers[k]).id == barrier_id
}

/// A barrier finds the first enabled session that has it anywhere in its list, and
/// none only if no enabled session has it.
pub proof fn a_barrier_finds_the_first_session_that_has_it(
    list: Seq<SessionView>,
    barrier_id: u32,
)
    ensures
        match watcher(list, barrier_id) {
            Some(i) => {
                &&& 0 <= i < list.len()
                &&& list[i].enabled
                &&& has_barrier(list[i].barriers, barrier_id)
                &&& forall|j: int|
                    0 <= j < i ==> !((#[trigger] list[j]).enabled && has_barrier(
                        list[j].barriers,
                        barrier_id,
                    ))
            },
            None => forall|j: int|
                0 <= j < list.len() ==> !((#[trigger] list[j]).enabled && has_barrier(
                    list[j].barriers,
                    barrier_id,
                )),
        },
    decreases list.len(),
{
    if list.len() > 0 {
        let rest = list.drop_first();
        assert(list[0].watches(barrier_id) == (list[0].enabled && has_barrier(
            list[0].barriers,
            barrier_id,
        ))) by {
            if has_barrier(list[0].barriers, barrier_id) {
                let k = choose|k: int|
                    0 <= k < list[0].barriers.len() && (#[trigger] list[0].barriers[k]).id
                        == barrier_id;
                assert(list[0].barriers[k].id == barrier_id);
            }
        }
        a_barrier_finds_the_first_session_that_has_it(rest, barrier_id);
        assert forall|j: int| 1 <= j < list.len() implies #[trigger] list[j] == rest[j - 1] by {}
    }
}

/// The session at a place is the one that its handle finds.
proof fn a_handle_finds_its_place(list: Seq<SessionView>, i: int)
    requires
        0 <= i < list.len(),
        forall|a: int, b: int|
            0 <= a < b < list.len() ==> (#[trigger] list[a]).handle != (#[trigger] list[b]).handle,
    ensures
        position(list, list[i].handle) == Some(i),
{
    position_finds(list, list[i].handle);
    let p = position(list, list[i].handle).unwrap();
    if p < i {
        assert(list[p].handle != list[i].handle);
    } else if i < p {
        assert(list[i].handle != list[p].handle);
    }
}

/// A crossing of any barrier of an enabled session that has no run in flight starts
/// one: the event stream starts under the next number, the Wayland thread learns
/// where captured input goes, and the client is told the barrier and the place. The
/// session's run has that number, and nothing else changes.
pub proof fn a_crossing_starts_a_run_for_the_session_with_the_barrier<F>(
    v: StateView<F>,
    i: int,
    k: int,
    barrier_id: u32,
    cursor: (Coord, Coord),
)
    requires
        v.wf(),
        v.connected,
        0 <= i < v.sessions.len(),
        v.sessions[i].enabled,
        v.sessions[i].activation_id == 0,
        0 <= k < v.sessions[i].barriers.len(),
        v.sessions[i].barriers[k].id == barrier_id,
        forall|j: int|
            0 <= j < i ==> !((#[trigger] v.sessions[j]).enabled && has_barrier(
                v.sessions[j].barriers,
                barrier_id,
            )),
    ensures
        ({
            let event = WaylandEvent::Activated { barrier_id, position: cursor };
            let s = v.sessions[i];
            let id = v.next_activation;
            let todo = v.event_effects(event);
            let after = v.after_event(event);
            let told = EffectView::Signal(
                SignalView::Activated { session: s.handle, activation_id: id, barrier_id, cursor },
            );
            &&& s.eis matches Some(to) ==> todo == seq![
                EffectView::Eis { to, cmd: EisCommand::StartEmulating { sequence: id } },
                EffectView::Wayland(CmdView::AttachEis(to)),
                told,
            ]
            &&& s.eis is None ==> todo == seq![told]
            &&& after.sessions == v.sessions.update(i, SessionView { activation_id: id, ..s })
            &&& id < u32::MAX ==> after.next_activation == id + 1
            &&& id == u32::MAX ==> after.next_activation == 0
            &&& after.next_zone_set == v.next_zone_set
            &&& after.clipboard == v.clipboard
            &&& after.connected
        }),
{
    let event = WaylandEvent::Activated { barrier_id, position: cursor };
    let s = v.sessions[i];
    a_barrier_finds_the_first_session_that_has_it(v.sessions, barrier_id);
    assert(has_barrier(s.barriers, barrier_id));
    let p = watcher(v.sessions, barrier_id).unwrap();
    assert(p == i) by {
        if p < i {
            assert(!(v.sessions[p].enabled && has_barrier(v.sessions[p].barriers, barrier_id)));
        } else if i < p {
            assert(!(v.sessions[i].enabled && has_barrier(v.sessions[i].barriers, barrier_id)));
        }
    }
    a_handle_finds_its_place(v.sessions, i);
    let told = EffectView::Signal(
        SignalView::Activated {
            session: s.handle,
            activation_id: v.next_activation,
            barrier_id,
            cursor,
        },
    );
    match s.eis {
        Some(to) => {
            assert(v.event_effects(event) =~= seq![
                EffectView::Eis {
                    to,
                    cmd: EisCommand::StartEmulating { sequence: v.next_activation },
                },
                EffectView::Wayland(CmdView::AttachEis(to)),
                told,
            ]);
        },
        None => {
            assert(v.event_effects(event) =~= seq![told]);
        },
    }
}

/// A crossing of a barrier that no enabled session has changes nothing and asks for
/// nothing.
pub proof fn a_crossing_nobody_watches_is_dropped<F>(
    v: StateView<F>,
    barrier_id: u32,
    cursor: (Coord, Coord),
)
    requires
        forall|j: int|
            0 <= j < v.sessions.len() ==> !((#[trigger] v.sessions[j]).enabled && has_barrier(
                v.sessions[j].barriers,
                barrier_id,
            )),
    ensures
        ({
            let event = WaylandEvent::Activated { barrier_id, position: cursor };
            &&& v.event_effects(event) == Seq::<EffectView>::empty()
            &&& v.after_event(event) == v
        }),
{
    a_barrier_finds_the_first_session_that_has_it(v.sessions, barrier_id);
}

/// Each output's zone goes out field by field: one for each output, in order, with
/// the width, the height and the offsets of that output's own zone.
pub proof fn zones_go_out_as_they_are(outputs: Seq<OutputZone>)
    ensures
        tuples_of(outputs).len() == outputs.len(),
        forall|i: int| #![trigger tuples_of(outputs)[i]]
            0 <= i < outputs.len() ==> {
                &&& tuples_of(outputs)[i].width == outputs[i].zone.width
                &&& tuples_of(outputs)[i].height == outputs[i].zone.height
                &&& tuples_of(outputs)[i].x == outputs[i].zone.x
                &&& tuples_of(outputs)[i].y == outputs[i].zone.y
            },
{
}

/// Whether two lists of outputs have the same rectangles in the same order.
pub open spec fn same_rectangles(a: Seq<OutputZone>, b: Seq<OutputZone>) -> bool {
    &&& a.len() == b.len()
    &&& forall|i: int| #![trigger a[i]]
        0 <= i < a.len() ==> {
            &&& a[i].zone.width == b[i].zone.width
            &&& a[i].zone.height == b[i].zone.height
            &&& a[i].zone.x == b[i].zone.x
            &&& a[i].zone.y == b[i].zone.y
        }
}

/// A session that learns of the outputs keeps its barriers and its zone set where
/// every rectangle is as it was, and has none of its barriers and the next zone set
/// where any differs. Either way it knows the outputs from then on, and no other
/// session changes.
pub proof fn a_session_learns_of_its_outputs<F>(v: StateView<F>, i: int, outputs: Seq<OutputZone>)
    requires
        v.wf(),
        0 <= i < v.sessions.len(),
    ensures
        ({
            let s = v.sessions[i];
            let after = v.rezoned(s.handle, outputs);
            &&& same_rectangles(s.zones, outputs) ==> after == (StateView {
                sessions: v.sessions.update(i, SessionView { zones: outputs, ..s }),
                ..v
            })
            &&& !same_rectangles(s.zones, outputs) ==> {
                &&& after.sessions == v.sessions.update(
                    i,
                    SessionView {
                        zones: outputs,
                        barriers: Seq::empty(),
                        zone_set: v.next_zone_set,
                        ..s
                    },
                )
                &&& v.next_zone_set < u32::MAX ==> after.next_zone_set == v.next_zone_set + 1
                &&& v.next_zone_set == u32::MAX ==> after.next_zone_set == 0
                &&& after.clipboard == v.clipboard
                &&& after.next_activation == v.next_activation
                &&& after.connected == v.connected
            }
        }),
{
    let s = v.sessions[i];
    a_handle_finds_its_place(v.sessions, i);
    let (a, b) = (zones_of(s.zones), zones_of(outputs));
    assert((a == b) == same_rectangles(s.zones, outputs)) by {
        if a == b {
            assert(s.zones.len() == a.len() && outputs.len() == b.len());
            assert forall|j: int| #![trigger s.zones[j]] 0 <= j < s.zones.len() implies {
                &&& s.zones[j].zone.width == outputs[j].zone.width
                &&& s.zones[j].zone.height == outputs[j].zone.height
                &&& s.zones[j].zone.x == outputs[j].zone.x
                &&& s.zones[j].zone.y == outputs[j].zone.y
            } by {
                assert(a[j] == b[j]);
            }
        }
        if same_rectangles(s.zones, outputs) {
            assert forall|j: int| 0 <= j < a.len() implies a[j] == b[j] by {
                assert(s.zones[j].zone.width == outputs[j].zone.width);
            }
            assert(a =~= b);
        }
    }
}

/// A new session stands behind all others, or in the place of the one that had its
/// handle. It has what it was made with, the next zone set, and nothing else yet:
/// no barriers, no connection, no run, no clipboard, and it is not enabled.
pub proof fn a_new_session_has_nothing_yet<F>(
    v: StateView<F>,
    handle: Seq<char>,
    app_id: Seq<char>,
    capabilities: u32,
    started: bool,
    zones: Seq<OutputZone>,
)
    requires
        v.wf(),
    ensures
        ({
            let after = v.created(handle, app_id, capabilities, started, zones);
            let place = |i: int|
                {
                    let s = after.sessions[i];
                    &&& s.handle == handle
                    &&& s.app_id == app_id
                    &&& s.capabilities == capabilities
                    &&& s.started == started
                    &&& s.zones == zones
                    &&& s.zone_set == v.next_zone_set
                    &&& s.barriers.len() == 0
                    &&& s.eis is None
                    &&& !s.enabled
                    &&& s.activation_id == 0
                    &&& !s.clipboard_requested
                };
            &&& (forall|j: int| 0 <= j < v.sessions.len() ==> (#[trigger] v.sessions[j]).handle
                != handle) ==> {
                &&& after.sessions.len() == v.sessions.len() + 1
                &&& after.sessions.drop_last() == v.sessions
                &&& place(v.sessions.len() as int)
            }
            &&& forall|i: int|
                0 <= i < v.sessions.len() && (#[trigger] v.sessions[i]).handle == handle ==> {
                    &&& after.sessions == v.sessions.update(i, after.sessions[i])
                    &&& place(i)
                }
            &&& v.next_zone_set < u32::MAX ==> after.next_zone_set == v.next_zone_set + 1
            &&& after.next_activation == v.next_activation
            &&& after.clipboard == v.clipboard
            &&& after.connected == v.connected
        }),
{
    let after = v.created(handle, app_id, capabilities, started, zones);
    position_finds(v.sessions, handle);
    assert forall|i: int|
        0 <= i < v.sessions.len() && (#[trigger] v.sessions[i]).handle == handle implies position(
        v.sessions,
        handle,
    ) == Some(i) by {
        a_handle_finds_its_place(v.sessions, i);
    }
    if position(v.sessions, handle) is None {
        assert(after.sessions.drop_last() =~= v.sessions);
    }
}

/// A call that changes a session changes that one alone, and one that forgets a
/// session forgets that one alone: the others stay as they are and in order.
pub proof fn a_session_is_changed_or_forgotten_alone<F>(v: StateView<F>, i: int, s: SessionView)
    requires
        v.wf(),
        0 <= i < v.sessions.len(),
    ensures
        ({
            let handle = v.sessions[i].handle;
            &&& v.knows(handle)
            &&& v.at(handle) == v.sessions[i]
            &&& v.with(handle, s) == (StateView { sessions: v.sessions.update(i, s), ..v })
            &&& v.without(handle) == (StateView { sessions: v.sessions.remove(i), ..v })
            &&& v.dropped(handle) == match v.sessions[i].eis {
                Some(eis) => seq![EffectView::DropEis(eis)],
                None => Seq::empty(),
            }
            &&& v.may_paste(handle) == v.sessions[i].clipboard_requested
        }),
{
    a_handle_finds_its_place(v.sessions, i);
}

/// A handle that no session has is known to nobody: nothing is forgotten with it,
/// nothing is let go of, and it may not use the clipboard.
pub proof fn an_unknown_handle_stands_for_nothing<F>(v: StateView<F>, handle: Seq<char>)
    requires
        forall|j: int| 0 <= j < v.sessions.len() ==> (#[trigger] v.sessions[j]).handle != handle,
    ensures
        !v.knows(handle),
        v.without(handle) == v,
        v.dropped(handle) == Seq::<EffectView>::empty(),
        !v.may_paste(handle),
        !v.can_enable(handle),
        !v.can_activate(handle),
        v.deactivated(handle) == v,
{
    position_finds(v.sessions, handle);
}

/// What is asked for is the number under "capabilities", and nothing without one;
/// and what is granted of it are the bits for keyboard and pointer.
pub proof fn capabilities_are_asked_for_by_name(options: Seq<(Seq<char>, ValueView)>)
    ensures
        requested(options) == match value_of(options, "capabilities"@) {
            Some(ValueView::U32(n)) => n,
            _ => 0,
        },
        grant(requested(options)) == requested(options) & 3,
        grant(requested(options)) != 0 <==> requested(options) & 1 != 0 || requested(options) & 2
            != 0,
{
    let n = requested(options);
    assert(n & (1u32 | 2u32) == n & 3) by (bit_vector);
    assert(n & 3 != 0 <==> n & 1 != 0 || n & 2 != 0) by (bit_vector);
}

/// A session is started if it is not yet and is granted something; it is enabled if
/// it is started and has a connection; and a crossing starts a run for it if it is
/// enabled and has none in flight.
pub proof fn what_a_session_may_do<F>(
    v: StateView<F>,
    i: int,
    options: Seq<(Seq<char>, ValueView)>,
)
    requires
        v.wf(),
        0 <= i < v.sessions.len(),
    ensures
        ({
            let s = v.sessions[i];
            &&& v.can_start(s.handle, options) == (!s.started && requested(options) & 3 != 0)
            &&& v.can_enable(s.handle) == (s.started && s.eis is Some)
            &&& v.can_activate(s.handle) == (s.enabled && s.activation_id == 0)
        }),
{
    a_handle_finds_its_place(v.sessions, i);
    capabilities_are_asked_for_by_name(options);
}

/// A release stops the event stream of the session's connection, gives the pointer
/// back where the client says, and has the session's own barriers armed again if it
/// is enabled, in this order.
pub proof fn a_release_gives_the_pointer_back<F>(
    v: StateView<F>,
    i: int,
    cursor: Option<(Coord, Coord)>,
)
    requires
        v.wf(),
        0 <= i < v.sessions.len(),
    ensures
        ({
            let s = v.sessions[i];
            let end = EffectView::Wayland(CmdView::EndCapture { cursor_hint: cursor });
            let arm = EffectView::Wayland(CmdView::Arm(s.barriers));
            v.release_effects(s.handle, cursor) == match (s.eis, s.enabled) {
                (Some(to), true) => seq![
                    EffectView::Eis { to, cmd: EisCommand::StopEmulating },
                    end,
                    arm,
                ],
                (Some(to), false) => seq![
                    EffectView::Eis { to, cmd: EisCommand::StopEmulating },
                    end,
                ],
                (None, true) => seq![end, arm],
                (None, false) => seq![end],
            }
        }),
{
    let s = v.sessions[i];
    a_handle_finds_its_place(v.sessions, i);
    let end = EffectView::Wayland(CmdView::EndCapture { cursor_hint: cursor });
    let arm = EffectView::Wayland(CmdView::Arm(s.barriers));
    assert(v.release_effects(s.handle, cursor) =~= match (s.eis, s.enabled) {
        (Some(to), true) => seq![
            EffectView::Eis { to, cmd: EisCommand::StopEmulating },
            end,
            arm,
        ],
        (Some(to), false) => seq![EffectView::Eis { to, cmd: EisCommand::StopEmulating }, end],
        (None, true) => seq![end, arm],
        (None, false) => seq![end],
    });
}

/// One description more is one barrier more to watch, behind all others, if it has
/// a number other than zero, a line along an axis, and was made for the current
/// zones; the barrier has that number and that line. Otherwise it is one number more
/// that is turned down, behind all others, if it has a number at all.
pub proof fn one_description_more_is_accepted_or_turned_down(
    list: Seq<Seq<(Seq<char>, ValueView)>>,
    d: Seq<(Seq<char>, ValueView)>,
    stale: bool,
)
    ensures
        all_accepted(Seq::empty(), stale).len() == 0,
        all_failed(Seq::empty(), stale).len() == 0,
        ({
            let accepted = all_accepted(list.push(d), stale);
            let failed = all_failed(list.push(d), stale);
            match value_of(d, "barrier_id"@) {
                Some(ValueView::U32(id)) => match value_of(d, "position"@) {
                    Some(ValueView::Line { x1, y1, x2, y2 }) => if !stale && id != 0 && (x1 == x2
                        || y1 == y2) {
                        &&& accepted == all_accepted(list, stale).push(
                            Barrier { id, x1, y1, x2, y2 },
                        )
                        &&& failed == all_failed(list, stale)
                    } else {
                        &&& accepted == all_accepted(list, stale)
                        &&& failed == all_failed(list, stale).push(id)
                    },
                    _ => {
                        &&& accepted == all_accepted(list, stale)
                        &&& failed == all_failed(list, stale).push(id)
                    },
                },
                _ => {
                    &&& accepted == all_accepted(list, stale)
                    &&& failed == all_failed(list, stale)
                },
            }
        }),
{
    assert(list.push(d).drop_last() =~= list);
}

/// What goes out for one session when its capture is gone: its stream stops, its
/// client is told under the number of its run, and its barriers are put back.
pub open spec fn loss_of(s: SessionView) -> Seq<EffectView> {
    let zero = Coord::At { steps: 0, exact: true };
    let told = EffectView::Signal(
        SignalView::Deactivated {
            session: s.handle,
            activation_id: s.activation_id,
            cursor: Some((zero, zero)),
        },
    );
    let arm = EffectView::Wayland(CmdView::Arm(s.barriers));
    match s.eis {
        Some(to) => seq![EffectView::Eis { to, cmd: EisCommand::StopEmulating }, told, arm],
        None => seq![told, arm],
    }
}

/// A lost capture is told to each session that has a run in flight, in order, and
/// to no other: one session more hears of it behind all others if it has one. After
/// it no session has a run in flight, and nothing else about any changes.
pub proof fn a_lost_capture_is_told_to_those_who_had_one<F>(v: StateView<F>, s: SessionView)
    requires
        v.connected,
    ensures
        ({
            let w = StateView { sessions: v.sessions.push(s), ..v };
            let none = StateView { sessions: Seq::empty(), ..v };
            let after = v.after_event(WaylandEvent::CaptureLost);
            &&& none.event_effects(WaylandEvent::CaptureLost).len() == 0
            &&& s.activation_id != 0 ==> w.event_effects(WaylandEvent::CaptureLost)
                == v.event_effects(WaylandEvent::CaptureLost) + loss_of(s)
            &&& s.activation_id == 0 ==> w.event_effects(WaylandEvent::CaptureLost)
                == v.event_effects(WaylandEvent::CaptureLost)
            &&& after.sessions.len() == v.sessions.len()
            &&& forall|i: int|
                0 <= i < v.sessions.len() ==> #[trigger] after.sessions[i] == (SessionView {
                    activation_id: 0,
                    ..v.sessions[i]
                })
            &&& after == (StateView { sessions: after.sessions, ..v })
        }),
{
    reveal(Seq::filter);
    let w = StateView { sessions: v.sessions.push(s), ..v };
    let none = StateView { sessions: Seq::<SessionView>::empty(), ..v };
    assert(w.sessions.drop_last() =~= v.sessions);
    assert(none.active() =~= Seq::empty());
    if s.activation_id != 0 {
        assert(w.active() =~= v.active().push(s));
        assert(w.active().drop_last() =~= v.active());
        assert(w.event_effects(WaylandEvent::CaptureLost) =~= v.event_effects(
            WaylandEvent::CaptureLost,
        ) + loss_of(s));
    } else {
        assert(w.active() =~= v.active());
    }
}

/// A forced release stops the stream of each session that has a run in flight and
/// a connection, then gives the pointer back, then tells each of those sessions, in
/// order; and it tells none before the bus connection is up.
pub proof fn a_forced_release_reaches_those_who_had_a_run<F>(v: StateView<F>, s: SessionView)
    ensures
        ({
            let w = StateView { sessions: v.sessions.push(s), ..v };
            let none = StateView { sessions: Seq::empty(), ..v };
            let end = EffectView::Wayland(CmdView::EndCapture { cursor_hint: None });
            let told = EffectView::Signal(
                SignalView::Deactivated { session: s.handle, activation_id: 0, cursor: None },
            );
            &&& none.force_effects() == seq![end]
            &&& none.active().len() == 0
            &&& s.activation_id != 0 ==> w.active() == v.active().push(s)
            &&& s.activation_id == 0 ==> w.active() == v.active()
            &&& s.activation_id == 0 ==> w.force_effects() == v.force_effects()
            &&& v.connected ==> v.force_effects() == stops(v.active()).push(end) + farewells(
                v.active(),
            )
            &&& !v.connected ==> v.force_effects() == stops(v.active()).push(end)
            &&& s.eis matches Some(to) ==> stops(v.active().push(s)) == stops(v.active()).push(
                EffectView::Eis { to, cmd: EisCommand::StopEmulating },
            )
            &&& s.eis is None ==> stops(v.active().push(s)) == stops(v.active())
            &&& farewells(v.active().push(s)) == farewells(v.active()).push(told)
        }),
{
    reveal(Seq::filter);
    let w = StateView { sessions: v.sessions.push(s), ..v };
    let none = StateView { sessions: Seq::<SessionView>::empty(), ..v };
    let end = EffectView::Wayland(CmdView::EndCapture { cursor_hint: None });
    let told = EffectView::Signal(
        SignalView::Deactivated { session: s.handle, activation_id: 0, cursor: None },
    );
    assert(w.sessions.drop_last() =~= v.sessions);
    assert(none.active() =~= Seq::empty());
    assert(none.force_effects() =~= seq![end]);
    assert(v.active().push(s).drop_last() =~= v.active());
    if s.activation_id != 0 {
        assert(w.active() =~= v.active().push(s));
    } else {
        assert(w.active() =~= v.active());
    }
    assert(v.force_effects() =~= if v.connected {
        stops(v.active()).push(end) + farewells(v.active())
    } else {
        stops(v.active()).push(end)
    });
    assert(farewells(v.active().push(s)) =~= farewells(v.active()).push(told));
    assert(stops(v.active().push(s)) =~= match s.eis {
        Some(to) => stops(v.active()).push(
            EffectView::Eis { to, cmd: EisCommand::StopEmulating },
        ),
        None => stops(v.active()),
    });
}

/// Ending every run and disabling every session change just that, for each session.
pub proof fn every_session_is_put_to_rest_by_itself<F>(v: StateView<F>, i: int)
    requires
        0 <= i < v.sessions.len(),
    ensures
        v.all_idle().sessions.len() == v.sessions.len(),
        v.all_idle().sessions[i] == (SessionView { activation_id: 0, ..v.sessions[i] }),
        v.all_idle() == (StateView { sessions: v.all_idle().sessions, ..v }),
        v.all_disabled().sessions.len() == v.sessions.len(),
        v.all_disabled().sessions[i] == (SessionView { enabled: false, ..v.sessions[i] }),
        v.all_disabled() == (StateView { sessions: v.all_disabled().sessions, ..v }),
{
}

/// The end of a session's run is told with the number that the run had, to that
/// session, once; a session without a run in flight is told nothing.
pub proof fn the_end_of_a_run_is_told_to_its_session<F>(
    v: StateView<F>,
    i: int,
    cursor: (Coord, Coord),
)
    requires
        v.wf(),
        0 <= i < v.sessions.len(),
    ensures
        ({
            let s = v.sessions[i];
            let told = EffectView::Signal(
                SignalView::Deactivated {
                    session: s.handle,
                    activation_id: s.activation_id,
                    cursor: Some(cursor),
                },
            );
            &&& v.deactivate_effects(s.handle, cursor) == if s.activation_id == 0 {
                Seq::empty()
            } else {
                match s.eis {
                    Some(to) => seq![
                        EffectView::Eis { to, cmd: EisCommand::StopEmulating },
                        told,
                    ],
                    None => seq![told],
                }
            }
            &&& v.deactivated(s.handle).sessions == v.sessions.update(
                i,
                SessionView { activation_id: 0, ..s },
            )
        }),
{
    let s = v.sessions[i];
    a_handle_finds_its_place(v.sessions, i);
    let told = EffectView::Signal(
        SignalView::Deactivated {
            session: s.handle,
            activation_id: s.activation_id,
            cursor: Some(cursor),
        },
    );
    assert(v.deactivate_effects(s.handle, cursor) =~= if s.activation_id == 0 {
        Seq::empty()
    } else {
        match s.eis {
            Some(to) => seq![EffectView::Eis { to, cmd: EisCommand::StopEmulating }, told],
            None => seq![told],
        }
    });
}

/// What is on the selection is told to each session that asked for the clipboard,
/// in order, and to no other; and it is what the clipboard holds from then on. That
/// the claim is lost is told with the types that were there, as nobody's own.
pub proof fn a_selection_is_told_to_those_who_asked<F>(
    v: StateView<F>,
    s: SessionView,
    mime_types: Vec<String>,
    is_ours: bool,
)
    requires
        v.connected,
    ensures
        ({
            let w = StateView { sessions: v.sessions.push(s), ..v };
            let none = StateView { sessions: Seq::empty(), ..v };
            let event = WaylandEvent::ClipboardSelection { mime_types, is_ours };
            let lost = WaylandEvent::ClipboardCancelled;
            let after = v.after_event(event);
            &&& none.event_effects(event).len() == 0
            &&& w.event_effects(event) == if s.clipboard_requested {
                v.event_effects(event).push(
                    EffectView::Signal(
                        SignalView::SelectionOwnerChanged {
                            session: s.handle,
                            mime_types: texts(mime_types@),
                            session_is_owner: is_ours,
                        },
                    ),
                )
            } else {
                v.event_effects(event)
            }
            &&& none.event_effects(lost).len() == 0
            &&& w.event_effects(lost) == if s.clipboard_requested {
                v.event_effects(lost).push(
                    EffectView::Signal(
                        SignalView::SelectionOwnerChanged {
                            session: s.handle,
                            mime_types: v.clipboard.mime_types,
                            session_is_owner: false,
                        },
                    ),
                )
            } else {
                v.event_effects(lost)
            }
            &&& after.clipboard.mime_types == texts(mime_types@)
            &&& after.clipboard.owned_by_session == is_ours
            &&& after.clipboard.transfers == v.clipboard.transfers
            &&& after.clipboard.owner_session == v.clipboard.owner_session
            &&& after.clipboard.order == v.clipboard.order
            &&& after.clipboard.next_serial == v.clipboard.next_serial
            &&& after == (StateView { clipboard: after.clipboard, ..v })
            &&& v.after_event(lost) == v.unclaimed()
        }),
{
    reveal(Seq::filter);
    let w = StateView { sessions: v.sessions.push(s), ..v };
    assert(w.sessions.drop_last() =~= v.sessions);
    let event = WaylandEvent::ClipboardSelection { mime_types, is_ours };
    let lost = WaylandEvent::ClipboardCancelled;
    let told = EffectView::Signal(
        SignalView::SelectionOwnerChanged {
            session: s.handle,
            mime_types: texts(mime_types@),
            session_is_owner: is_ours,
        },
    );
    let told_lost = EffectView::Signal(
        SignalView::SelectionOwnerChanged {
            session: s.handle,
            mime_types: v.clipboard.mime_types,
            session_is_owner: false,
        },
    );
    assert(w.event_effects(event) =~= if s.clipboard_requested {
        v.event_effects(event).push(told)
    } else {
        v.event_effects(event)
    });
    assert(w.event_effects(lost) =~= if s.clipboard_requested {
        v.event_effects(lost).push(told_lost)
    } else {
        v.event_effects(lost)
    });
}

/// That the outputs changed is told to every session, in order, and changes nothing.
pub proof fn every_session_hears_of_new_outputs<F>(v: StateView<F>)
    requires
        v.connected,
    ensures
        ({
            let todo = v.event_effects(WaylandEvent::OutputsChanged);
            &&& todo.len() == v.sessions.len()
            &&& forall|i: int|
                0 <= i < todo.len() ==> #[trigger] todo[i] == EffectView::Signal(
                    SignalView::ZonesChanged { session: v.sessions[i].handle },
                )
            &&& v.after_event(WaylandEvent::OutputsChanged) == v
        }),
{
}

/// Nothing comes of any event before the bus connection is up.
pub proof fn nothing_happens_before_the_bus_is_up<F>(v: StateView<F>, event: WaylandEvent)
    requires
        !v.connected,
    ensures
        v.event_effects(event).len() == 0,
        v.after_event(event) == v,
{
}

/// Closing a session forgets it and lets go of its connection. If it had claimed the
/// clipboard the claim goes with it, last of all, and the types that were there stay
/// known; if it had not, the clipboard stays as it is.
pub proof fn a_closed_session_takes_its_claim_along<F>(v: StateView<F>, i: int)
    requires
        v.wf(),
        0 <= i < v.sessions.len(),
    ensures
        ({
            let s = v.sessions[i];
            let after = v.closed(s.handle);
            let todo = v.close_effects(s.handle);
            let gone = EffectView::Wayland(CmdView::ClipboardRelease);
            let owner = v.clipboard.owner_session == Some(s.handle);
            &&& after.sessions == v.sessions.remove(i)
            &&& todo == match (s.eis, owner) {
                (Some(eis), true) => seq![EffectView::DropEis(eis), gone],
                (Some(eis), false) => seq![EffectView::DropEis(eis)],
                (None, true) => seq![gone],
                (None, false) => Seq::empty(),
            }
            &&& !owner ==> after.clipboard == v.clipboard
            &&& owner ==> {
                &&& after.clipboard.owner_session is None
                &&& !after.clipboard.owned_by_session
                &&& after.clipboard.transfers == Map::<u32, F>::empty()
                &&& after.clipboard.order.len() == 0
                &&& after.clipboard.mime_types == v.clipboard.mime_types
                &&& after.clipboard.next_serial == v.clipboard.next_serial
            }
        }),
{
    let s = v.sessions[i];
    a_handle_finds_its_place(v.sessions, i);
    let gone = EffectView::Wayland(CmdView::ClipboardRelease);
    let owner = v.clipboard.owner_session == Some(s.handle);
    assert(v.close_effects(s.handle) =~= match (s.eis, owner) {
        (Some(eis), true) => seq![EffectView::DropEis(eis), gone],
        (Some(eis), false) => seq![EffectView::DropEis(eis)],
        (None, true) => seq![gone],
        (None, false) => Seq::empty(),
    });
}

/// A claim makes its session the owner and abandons the reads that waited for the
/// one before; a claim of nothing gives the clipboard up; and one that no session is
/// behind has no owner. None of them changes the types that are known, the serials,
/// or any session.
pub proof fn a_claim_has_one_owner<F>(v: StateView<F>, handle: Seq<char>, types: Seq<Seq<char>>)
    ensures
        ({
            let claimed = v.selected(handle, types);
            let bare = v.unbacked();
            &&& claimed == (StateView { clipboard: claimed.clipboard, ..v })
            &&& bare == (StateView { clipboard: bare.clipboard, ..v })
            &&& claimed.clipboard.transfers == Map::<u32, F>::empty()
            &&& claimed.clipboard.order.len() == 0
            &&& claimed.clipboard.mime_types == v.clipboard.mime_types
            &&& claimed.clipboard.next_serial == v.clipboard.next_serial
            &&& types.len() > 0 ==> claimed.clipboard.owner_session == Some(handle)
                && claimed.clipboard.owned_by_session == v.clipboard.owned_by_session
            &&& types.len() == 0 ==> claimed.clipboard.owner_session is None
                && !claimed.clipboard.owned_by_session
            &&& bare.clipboard.owner_session is None
            &&& bare.clipboard.transfers == Map::<u32, F>::empty()
            &&& bare.clipboard.order.len() == 0
            &&& bare.clipboard.mime_types == v.clipboard.mime_types
            &&& bare.clipboard.next_serial == v.clipboard.next_serial
            &&& types.len() > 0 ==> selection_effects(types) == seq![
                EffectView::Wayland(CmdView::ClipboardClaim { mime_types: types }),
            ]
            &&& types.len() == 0 ==> selection_effects(types) == seq![
                EffectView::Wayland(CmdView::ClipboardRelease),
            ]
        }),
{
}

/// A paste is asked of the session that claimed the clipboard, for the type that is
/// wanted and under the next serial, and of nobody where no session did.
pub proof fn a_paste_is_asked_of_the_owner<F>(v: StateView<F>, mime_type: Seq<char>)
    ensures
        match v.clipboard.owner_session {
            Some(owner) => v.transfer_effects(mime_type) == seq![
                EffectView::Signal(
                    SignalView::SelectionTransfer {
                        session: owner,
                        mime_type,
                        serial: serial_after(v.clipboard.next_serial),
                    },
                ),
            ],
            None => v.transfer_effects(mime_type).len() == 0,
        },
        v.clipboard.next_serial < u32::MAX ==> serial_after(v.clipboard.next_serial)
            == v.clipboard.next_serial + 1,
        v.clipboard.next_serial == u32::MAX ==> serial_after(v.clipboard.next_serial) == 1,
{
}

/// Signals carry what happened under the names that clients look for.
pub proof fn signals_carry_what_happened(
    session: Seq<char>,
    id: u32,
    barrier: u32,
    at: (Coord, Coord),
    types: Seq<Seq<char>>,
    owner: bool,
)
    ensures
        ({
            let begun = SignalView::Activated {
                session,
                activation_id: id,
                barrier_id: barrier,
                cursor: at,
            }.options();
            let ended = SignalView::Deactivated {
                session,
                activation_id: id,
                cursor: Some(at),
            }.options();
            let forced = SignalView::Deactivated {
                session,
                activation_id: id,
                cursor: None,
            }.options();
            let selection = SignalView::SelectionOwnerChanged {
                session,
                mime_types: types,
                session_is_owner: owner,
            }.options();
            let place = ValueView::Point { x: at.0, y: at.1 };
            &&& begun.len() == 3
            &&& value_of(begun, "activation_id"@) == Some(ValueView::U32(id))
            &&& value_of(begun, "barrier_id"@) == Some(ValueView::U32(barrier))
            &&& value_of(begun, "cursor_position"@) == Some(place)
            &&& ended.len() == 2
            &&& value_of(ended, "activation_id"@) == Some(ValueView::U32(id))
            &&& value_of(ended, "cursor_position"@) == Some(place)
            &&& forced.len() == 1
            &&& value_of(forced, "activation_id"@) == Some(ValueView::U32(id))
            &&& selection.len() == 2
            &&& value_of(selection, "mime_types"@) == Some(ValueView::Texts(types))
            &&& value_of(selection, "session_is_owner"@) == Some(ValueView::Bool(owner))
            &&& SignalView::ZonesChanged { session }.options().len() == 0
        }),
{
    reveal_strlit("activation_id");
    reveal_strlit("barrier_id");
    reveal_strlit("cursor_position");
    reveal_strlit("mime_types");
    reveal_strlit("session_is_owner");
    assert("barrier_id"@.len() < "activation_id"@.len() < "cursor_position"@.len());
    assert("mime_types"@.len() < "session_is_owner"@.len());
    reveal_with_fuel(value_of, 4);
}

/// A value is read as what it is: a number, a line, a point or texts, and as nothing
/// where another kind of value, or none, stands under the name.
pub proof fn values_are_read_as_what_they_are(
    dict: Seq<(Seq<char>, ValueView)>,
    name: Seq<char>,
)
    ensures
        number_of(dict, name) == match value_of(dict, name) {
            Some(ValueView::U32(n)) => Some(n),
            _ => None,
        },
        line_of(dict, name) == match value_of(dict, name) {
            Some(ValueView::Line { x1, y1, x2, y2 }) => Some((x1, y1, x2, y2)),
            _ => None,
        },
        point_of(dict, name) == match value_of(dict, name) {
            Some(ValueView::Point { x, y }) => Some((x, y)),
            _ => None,
        },
        match value_of(dict, name) {
            Some(ValueView::Texts(list)) => texts_of(dict, name) == list,
            _ => texts_of(dict, name).len() == 0,
        },
{
}

/// A refusal answers with two and tells nothing; a call that went through answers
/// with zero and tells what it has to tell.
pub proof fn answers_say_whether_a_call_went_through(results: Seq<(Seq<char>, ValueView)>)
    ensures
        refused().response == 2,
        refused().results.len() == 0,
        granted(results).response == 0,
        granted(results).results == results,
        denied() == FaultView::AccessDenied("this session has no clipboard access"@),
{
}

/// A session's line says whether it is enabled, how many barriers it has and
/// whether it has a run in flight.
pub proof fn a_status_line_says_how_a_session_stands(s: SessionView)
    ensures
        status_line(s) == s.handle + ": enabled="@ + (if s.enabled {
            "true"@
        } else {
            "false"@
        }) + " barriers="@ + decimal(s.barriers.len()) + " capturing="@ + (if s.activation_id != 0 {
            "true"@
        } else {
            "false"@
        }),
        truth(true) == "true"@,
        truth(false) == "false"@,
{
}

} // verus!
