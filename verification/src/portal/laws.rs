//! What holds of sessions and the clipboard over several calls.

use crate::coord::Coord;
use crate::counting::counted;
use crate::eis_server::{EisCommand, EisHandle};
use crate::niri::OutputZone;
use crate::portal::control::stops;
use crate::portal::dict::{number_of, ValueView};
use crate::portal::effects::{to_eis, EffectView, SignalView};
use crate::portal::input_capture::{
    all_accepted, all_failed, axis_aligned, fresh, grant, requested,
};
use crate::portal::session::{
    is_capturing, position, position_finds, watcher_finds, SessionView, StateView,
};
use crate::portal::{Barrier, CAP_KEYBOARD, CAP_POINTER};
use crate::wayland::{CmdView, WaylandEvent};
use vstd::prelude::*;

verus! {

/// What is granted was asked for, and can be captured; and of what was asked for
/// nothing is held back that can be captured.
pub proof fn a_grant_is_what_was_asked_for_and_is_supported(asked: u32)
    ensures
        grant(asked) & !asked == 0,
        grant(asked) & !(CAP_KEYBOARD | CAP_POINTER) == 0,
        grant(asked) & CAP_KEYBOARD == asked & CAP_KEYBOARD,
        grant(asked) & CAP_POINTER == asked & CAP_POINTER,
        CAP_KEYBOARD | CAP_POINTER == 3,
{
    assert((asked & (1u32 | 2u32)) & !asked == 0) by (bit_vector);
    assert((asked & (1u32 | 2u32)) & !(1u32 | 2u32) == 0) by (bit_vector);
    assert((asked & (1u32 | 2u32)) & 1u32 == asked & 1u32) by (bit_vector);
    assert((asked & (1u32 | 2u32)) & 2u32 == asked & 2u32) by (bit_vector);
    assert(1u32 | 2u32 == 3u32) by (bit_vector);
}

/// The one session that a crossing starts a run for gets an event stream whose
/// sequence is the activation number that its client is told, and the stream
/// starts before the client is told.
pub proof fn the_event_stream_carries_the_activation_number<F>(
    v: StateView<F>,
    handle: Seq<char>,
    barrier_id: u32,
    cursor: (Coord, Coord),
    eis: EisHandle,
)
    requires
        v.wf(),
        v.can_activate(handle),
        v.at(handle).eis == Some(eis),
    ensures
        ({
            let id = v.next_activation;
            let todo = v.activate_effects(handle, barrier_id, cursor);
            &&& v.activated(handle).at(handle).activation_id == id
            &&& todo[0] == (EffectView::Eis {
                to: eis,
                cmd: EisCommand::StartEmulating { sequence: id },
            })
            &&& todo.last() == EffectView::Signal(
                SignalView::Activated { session: handle, activation_id: id, barrier_id, cursor },
            )
        }),
{
    let counting = StateView { next_activation: counted(v.next_activation), ..v };
    position_finds(v.sessions, handle);
    counting.with_keeps(
        handle,
        SessionView { activation_id: v.next_activation, ..v.at(handle) },
    );
}

/// A second crossing while a run is in flight is noise.
pub proof fn a_second_crossing_starts_no_run<F>(
    v: StateView<F>,
    handle: Seq<char>,
    barrier_id: u32,
    cursor: (Coord, Coord),
)
    requires
        v.wf(),
        v.can_activate(handle),
        v.next_activation != 0,
    ensures
        v.activated(handle).at(handle).capturing(),
        v.activated(handle).activate_effects(handle, barrier_id, cursor)
            == Seq::<EffectView>::empty(),
        v.activated(handle).activated(handle).sessions == v.activated(handle).sessions,
{
    let counting = StateView { next_activation: counted(v.next_activation), ..v };
    position_finds(v.sessions, handle);
    counting.with_keeps(
        handle,
        SessionView { activation_id: v.next_activation, ..v.at(handle) },
    );
}

/// The end of a run undoes its start, for that session and every other.
pub proof fn deactivating_undoes_activating<F>(v: StateView<F>, handle: Seq<char>)
    requires
        v.wf(),
        v.can_activate(handle),
    ensures
        v.activated(handle).deactivated(handle).sessions == v.sessions,
{
    let counting = StateView { next_activation: counted(v.next_activation), ..v };
    let on = SessionView { activation_id: v.next_activation, ..v.at(handle) };
    position_finds(v.sessions, handle);
    counting.with_keeps(handle, on);
    let i = position(v.sessions, handle).unwrap();
    position_finds(v.activated(handle).sessions, handle);
    assert(v.activated(handle).sessions[i].handle == handle);
    assert(v.activated(handle).deactivated(handle).sessions =~= v.sessions);
}

/// Releasing a run unlocks the pointer before the barriers can trigger again.
pub proof fn the_pointer_is_unlocked_before_barriers_are_armed<F>(
    v: StateView<F>,
    handle: Seq<char>,
    cursor: Option<(Coord, Coord)>,
)
    ensures
        ({
            let todo = v.release_effects(handle, cursor);
            let end = to_eis(v.at(handle).eis, EisCommand::StopEmulating).len() as int;
            &&& todo[end] == EffectView::Wayland(CmdView::EndCapture { cursor_hint: cursor })
            &&& v.at(handle).enabled ==> todo.last() == EffectView::Wayland(
                CmdView::Arm(v.at(handle).barriers),
            ) && todo.len() == end + 2
            &&& !v.at(handle).enabled ==> todo.len() == end + 1
        }),
{
}

/// A forced release always unlocks the pointer, ends every run, and neither arms
/// nor disarms a barrier.
pub proof fn a_forced_release_ends_every_run_and_keeps_the_barriers<F>(v: StateView<F>)
    requires
        v.wf(),
    ensures
        v.force_effects().contains(
            EffectView::Wayland(CmdView::EndCapture { cursor_hint: None }),
        ),
        forall|i: int|
            0 <= i < v.sessions.len() ==> !(#[trigger] v.all_idle().sessions[i]).capturing(),
        forall|i: int| #![trigger v.force_effects()[i]]
            0 <= i < v.force_effects().len() ==> (v.force_effects()[i] matches EffectView::Wayland(
                cmd,
            ) ==> cmd is EndCapture),
        v.all_idle().active() == Seq::<SessionView>::empty(),
{
    let todo = v.force_effects();
    let stopped = stops(v.active());
    stops_are_for_connections(v.active());
    assert(todo[stopped.len() as int] == EffectView::Wayland(
        CmdView::EndCapture { cursor_hint: None },
    ));
    v.idling_keeps();
    assert forall|i: int| #![trigger todo[i]] 0 <= i < todo.len() implies (
    todo[i] matches EffectView::Wayland(cmd) ==> cmd is EndCapture) by {
        if i < stopped.len() {
            assert(todo[i] == stopped[i]);
        } else if i > stopped.len() {
            assert(todo[i] is Signal);
        }
    }
    none_passes(v.all_idle().sessions);
}

proof fn stops_are_for_connections(list: Seq<SessionView>)
    ensures
        forall|i: int|
            0 <= i < stops(list).len()
                ==> #[trigger] stops(list)[i] is Eis,
    decreases list.len(),
{
    if list.len() > 0 {
        stops_are_for_connections(list.drop_last());
    }
}

proof fn none_passes(list: Seq<SessionView>)
    requires
        forall|i: int| 0 <= i < list.len() ==> !(#[trigger] list[i]).capturing(),
    ensures
        list.filter(is_capturing()) == Seq::<SessionView>::empty(),
    decreases list.len(),
{
    reveal(Seq::filter);
    if list.len() > 0 {
        assert(!list[list.len() - 1].capturing());
        assert forall|i: int| 0 <= i < list.drop_last().len() implies !(
        #[trigger] list.drop_last()[i]).capturing() by {
            assert(list.drop_last()[i] == list[i]);
        }
        none_passes(list.drop_last());
    }
}

/// After a disarm no session is enabled, and none has a capture run in flight.
pub proof fn a_disarm_puts_every_session_to_rest<F>(v: StateView<F>)
    ensures
        v.all_idle().all_disabled().at_rest(),
{
}

/// Whether some effects put barriers on screen.
pub open spec fn arms(todo: Seq<EffectView>) -> bool {
    exists|i: int|
        0 <= i < todo.len() && (#[trigger] todo[i] matches EffectView::Wayland(cmd) && cmd is Arm)
}

/// While no session is enabled nothing puts barriers on screen: not the release of
/// a session, not any event of the Wayland thread, not a forced release, and not a
/// session that goes. Nor does any crossing start a run.
pub proof fn nothing_is_armed_at_rest<F>(
    v: StateView<F>,
    handle: Seq<char>,
    cursor: Option<(Coord, Coord)>,
    event: WaylandEvent,
)
    requires
        v.wf(),
        v.at_rest(),
    ensures
        v.knows(handle) ==> !arms(v.release_effects(handle, cursor)),
        !arms(v.event_effects(event)),
        event is Activated ==> v.event_effects(event) == Seq::<EffectView>::empty(),
        event is CaptureLost ==> v.event_effects(event) == Seq::<EffectView>::empty(),
        !arms(v.force_effects()),
        !arms(v.close_effects(handle)),
        !arms(v.dropped(handle)),
{
    position_finds(v.sessions, handle);
    none_passes(v.sessions);
    if let WaylandEvent::Activated { barrier_id, position } = event {
        watcher_finds(v.sessions, barrier_id);
    }
    a_forced_release_ends_every_run_and_keeps_the_barriers(v);
}

/// Only `Enable` ends that rest. Every other change to a session leaves it enabled
/// or not as it was and starts no run, and every call and event but `Enable` keeps
/// all sessions at rest.
pub proof fn rest_lasts_until_a_client_enables<F>(
    v: StateView<F>,
    handle: Seq<char>,
    app_id: Seq<char>,
    capabilities: u32,
    started: bool,
    zones: Seq<OutputZone>,
    session: SessionView,
    types: Seq<Seq<char>>,
    event: WaylandEvent,
)
    requires
        v.wf(),
        v.at_rest(),
    ensures
        v.created(handle, app_id, capabilities, started, zones).at_rest(),
        v.without(handle).at_rest(),
        v.closed(handle).at_rest(),
        v.knows(handle) ==> v.rezoned(handle, zones).at_rest(),
        v.knows(handle) && !session.enabled && (session.activation_id == v.at(handle).activation_id
            || session.activation_id == 0) ==> v.with(handle, session).at_rest(),
        v.selected(handle, types).at_rest(),
        v.unclaimed().at_rest(),
        v.unbacked().at_rest(),
        v.activated(handle).at_rest(),
        v.deactivated(handle).at_rest(),
        v.after_event(event).at_rest(),
        v.all_idle().at_rest(),
        v.all_idle().all_disabled().at_rest(),
{
    position_finds(v.sessions, handle);
    if let WaylandEvent::Activated { barrier_id, position } = event {
        watcher_finds(v.sessions, barrier_id);
    }
}

/// Enabling a session at rest is what has its barriers armed, there and on its
/// releases from then on.
pub proof fn enabling_ends_the_rest<F>(
    v: StateView<F>,
    handle: Seq<char>,
    cursor: Option<(Coord, Coord)>,
)
    requires
        v.wf(),
        v.can_enable(handle),
    ensures
        ({
            let on = v.with(handle, SessionView { enabled: true, ..v.at(handle) });
            &&& !on.at_rest()
            &&& on.release_effects(handle, cursor).last() == EffectView::Wayland(
                CmdView::Arm(v.at(handle).barriers),
            )
        }),
{
    position_finds(v.sessions, handle);
    let s = SessionView { enabled: true, ..v.at(handle) };
    v.with_keeps(handle, s);
    let i = position(v.sessions, handle).unwrap();
    assert(v.with(handle, s).sessions[i].enabled);
}

/// A stale zone set has every numbered barrier turned down and none accepted.
pub proof fn a_stale_zone_set_turns_every_barrier_down(list: Seq<Seq<(Seq<char>, ValueView)>>)
    ensures
        all_accepted(list, true) == Seq::<Barrier>::empty(),
        forall|i: int|
            0 <= i < list.len() ==> (number_of(#[trigger] list[i], "barrier_id"@) matches Some(id)
                ==> all_failed(list, true).contains(id)),
    decreases list.len(),
{
    if list.len() > 0 {
        let rest = list.drop_last();
        a_stale_zone_set_turns_every_barrier_down(rest);
        assert forall|i: int| 0 <= i < list.len() implies (number_of(
            #[trigger] list[i],
            "barrier_id"@,
        ) matches Some(id) ==> all_failed(list, true).contains(id)) by {
            if let Some(id) = number_of(list[i], "barrier_id"@) {
                let before = all_failed(rest, true);
                let all = all_failed(list, true);
                if i < rest.len() {
                    assert(rest[i] == list[i]);
                    let j = choose|j: int| 0 <= j < before.len() && before[j] == id;
                    assert(all[j] == id);
                } else {
                    assert(all[all.len() - 1] == id);
                }
            }
        }
    }
}

/// How many of some descriptions have a number.
pub open spec fn numbered(list: Seq<Seq<(Seq<char>, ValueView)>>) -> nat
    decreases list.len(),
{
    if list.len() == 0 {
        0
    } else {
        numbered(list.drop_last()) + if number_of(list.last(), "barrier_id"@) is Some {
            1nat
        } else {
            0nat
        }
    }
}

/// Every description with a number is either accepted or turned down, never both;
/// and what is accepted lies along an axis and has a number other than zero.
pub proof fn numbered_barriers_are_accepted_or_turned_down(
    list: Seq<Seq<(Seq<char>, ValueView)>>,
    stale: bool,
)
    ensures
        all_accepted(list, stale).len() + all_failed(list, stale).len() == numbered(list),
        forall|i: int| #![trigger all_accepted(list, stale)[i]]
            0 <= i < all_accepted(list, stale).len() ==> {
                &&& axis_aligned(all_accepted(list, stale)[i])
                &&& all_accepted(list, stale)[i].id != 0
            },
    decreases list.len(),
{
    if list.len() > 0 {
        numbered_barriers_are_accepted_or_turned_down(list.drop_last(), stale);
    }
}

/// Every session's zone set was handed out before the next one.
pub open spec fn zone_sets_are_spent<F>(v: StateView<F>) -> bool {
    forall|i: int| 0 <= i < v.sessions.len() ==> (#[trigger] v.sessions[i]).zone_set < v.next_zone_set
}

/// Creating a session and learning of a new layout use up a zone set each, so the
/// next one has always been handed out to nobody yet.
pub proof fn zone_sets_are_handed_out_once<F>(
    v: StateView<F>,
    handle: Seq<char>,
    app_id: Seq<char>,
    capabilities: u32,
    started: bool,
    zones: Seq<OutputZone>,
)
    requires
        v.wf(),
        zone_sets_are_spent(v),
        v.next_zone_set < u32::MAX,
    ensures
        zone_sets_are_spent(v.created(handle, app_id, capabilities, started, zones)),
        v.knows(handle) ==> zone_sets_are_spent(v.rezoned(handle, zones)),
{
    position_finds(v.sessions, handle);
}

/// A changed layout drops a session's barriers and gives it a zone set it did not
/// have, so whatever its client still sends for the old layout is stale. An
/// unchanged one leaves both alone.
pub proof fn a_new_layout_makes_old_barriers_stale<F>(
    v: StateView<F>,
    handle: Seq<char>,
    outputs: Seq<OutputZone>,
)
    requires
        v.wf(),
        v.knows(handle),
        zone_sets_are_spent(v),
    ensures
        ({
            let before = v.at(handle);
            let after = v.rezoned(handle, outputs).at(handle);
            &&& v.moved(handle, outputs) ==> after.zone_set != before.zone_set
                && after.barriers.len() == 0
            &&& !v.moved(handle, outputs) ==> after.zone_set == before.zone_set
                && after.barriers == before.barriers
            &&& after.zones == outputs
        }),
{
    position_finds(v.sessions, handle);
    let i = position(v.sessions, handle).unwrap();
    v.with_keeps(handle, v.rezoned(handle, outputs).sessions[i]);
    assert(v.with(handle, v.rezoned(handle, outputs).sessions[i]).sessions =~= v.rezoned(
        handle,
        outputs,
    ).sessions);
}

/// A session of the second version cannot be enabled before it is started, and is
/// started only once; one of the first version is started from the outset.
pub proof fn a_session_is_started_once<F>(
    v: StateView<F>,
    handle: Seq<char>,
    app_id: Seq<char>,
    capabilities: u32,
    zones: Seq<OutputZone>,
    options: Seq<(Seq<char>, ValueView)>,
)
    requires
        v.wf(),
        grant(requested(options)) != 0,
    ensures
        ({
            let v1 = v.created(handle, app_id, capabilities, true, zones);
            let v2 = v.created(handle, app_id, capabilities, false, zones);
            let started = v2.with(
                handle,
                SessionView { capabilities: grant(requested(options)), started: true, ..v2.at(handle) },
            );
            &&& !v1.can_start(handle, options)
            &&& v2.can_start(handle, options)
            &&& !v2.can_enable(handle)
            &&& !started.can_start(handle, options)
        }),
{
    let s1 = fresh(handle, app_id, capabilities, true, v.next_zone_set, zones);
    let s2 = fresh(handle, app_id, capabilities, false, v.next_zone_set, zones);
    v.registering_keeps(s1);
    v.registering_keeps(s2);
    let v2 = v.created(handle, app_id, capabilities, false, zones);
    v2.with_keeps(
        handle,
        SessionView { capabilities: grant(requested(options)), started: true, ..v2.at(handle) },
    );
}

/// Only a session that asked for the clipboard may use it; asking is enough, and
/// changes nothing for any other session.
pub proof fn the_clipboard_is_for_those_who_asked<F>(
    v: StateView<F>,
    handle: Seq<char>,
    other: Seq<char>,
)
    requires
        v.wf(),
        v.knows(handle),
        other != handle,
    ensures
        ({
            let asked = v.with(
                handle,
                SessionView { clipboard_requested: true, ..v.at(handle) },
            );
            &&& asked.may_paste(handle)
            &&& asked.may_paste(other) == v.may_paste(other)
        }),
{
    let s = SessionView { clipboard_requested: true, ..v.at(handle) };
    position_finds(v.sessions, handle);
    v.with_keeps(handle, s);
    same_place(v.sessions, v.with(handle, s).sessions, other);
    position_finds(v.sessions, other);
}

proof fn same_place(a: Seq<SessionView>, b: Seq<SessionView>, handle: Seq<char>)
    requires
        a.len() == b.len(),
        forall|i: int| 0 <= i < a.len() ==> (#[trigger] a[i]).handle == (#[trigger] b[i]).handle,
    ensures
        position(a, handle) == position(b, handle),
    decreases a.len(),
{
    if a.len() > 0 {
        let (at, bt) = (a.drop_first(), b.drop_first());
        assert(a[0].handle == b[0].handle);
        assert forall|i: int| 0 <= i < at.len() implies (#[trigger] at[i]).handle == (
        #[trigger] bt[i]).handle by {
            assert(at[i] == a[i + 1] && bt[i] == b[i + 1]);
        }
        same_place(at, bt, handle);
    }
}

/// Nothing ever answers a paste of a claim that no session is behind: the paste is
/// parked, no session is asked for its content, and the claim outlives every
/// session, the one that had claimed the clipboard before among them.
pub proof fn an_unbacked_claim_asks_no_session<F>(
    v: StateView<F>,
    handle: Seq<char>,
    mime_type: Seq<char>,
    fd: F,
)
    requires
        v.wf(),
    ensures
        ({
            let now = v.unbacked();
            let parked = now.clipboard.parked(fd);
            &&& now.clipboard.transfers == Map::<u32, F>::empty()
            &&& now.transfer_effects(mime_type) == Seq::<EffectView>::empty()
            &&& parked.owner_session is None
            &&& parked.transfers == Map::<u32, F>::empty().insert(parked.next_serial, fd)
            &&& now.closed(handle).clipboard == now.clipboard
            &&& now.close_effects(handle) == now.dropped(handle)
        }),
{
    let now = v.unbacked();
    assert(now.close_effects(handle) =~= now.dropped(handle));
}

/// No claim to the clipboard outlives its session, and with the claim go the reads
/// that waited on it.
pub proof fn a_closed_session_leaves_no_claim<F>(v: StateView<F>, handle: Seq<char>)
    requires
        v.wf(),
    ensures
        ({
            let after = v.closed(handle);
            &&& !after.knows(handle)
            &&& after.clipboard.owner_session != Some(handle)
            &&& v.clipboard.owner_session == Some(handle) ==> {
                &&& after.clipboard.owner_session is None
                &&& !after.clipboard.owned_by_session
                &&& after.clipboard.transfers == Map::<u32, F>::empty()
                &&& v.close_effects(handle).last() == EffectView::Wayland(
                    CmdView::ClipboardRelease,
                )
            }
        }),
{
    v.removing_keeps(handle);
}

} // verus!
