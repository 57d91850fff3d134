//! What the portal makes of the things that happen around it: crossings, lost
//! captures, clipboard changes, and sessions that are closed.

use crate::coord::{pixel, Coord};
use crate::counting::counted;
use crate::eis_server::EisCommand;
use crate::portal::effects::{effects, to_eis, Effect, EffectView, Signal, SignalView};
use crate::portal::session::{
    handles, has_clipboard, is_capturing, position, position_finds, sessions, watcher, SessionView,
    State, StateView,
};
use crate::portal::tracker::{serial_after, TrackerView};
use crate::text::texts;
use crate::wayland::{CmdView, WaylandCmd, WaylandEvent};
use vstd::prelude::*;

verus! {

impl<F> StateView<F> {
    /// Whether a crossing starts a capture run for a session: it is enabled, and
    /// not capturing already; a second crossing is noise.
    pub open spec fn can_activate(self, handle: Seq<char>) -> bool {
        self.knows(handle) && self.at(handle).enabled && !self.at(handle).capturing()
    }

    /// The state once a crossing was answered. A number is used up either way.
    pub open spec fn activated(self, handle: Seq<char>) -> StateView<F> {
        let counted = StateView { next_activation: counted(self.next_activation), ..self };
        if self.can_activate(handle) {
            counted.with(
                handle,
                SessionView { activation_id: self.next_activation, ..self.at(handle) },
            )
        } else {
            counted
        }
    }

    /// What a crossing asks for. The EIS sequence equals the activation number so
    /// the client can line up the event stream with the signal, and the Wayland
    /// thread, which already locked the pointer, learns where to send what it
    /// captures.
    pub open spec fn activate_effects(
        self,
        handle: Seq<char>,
        barrier_id: u32,
        cursor: (Coord, Coord),
    ) -> Seq<EffectView> {
        if self.can_activate(handle) {
            match self.at(handle).eis {
                Some(eis) => seq![
                    EffectView::Eis {
                        to: eis,
                        cmd: EisCommand::StartEmulating { sequence: self.next_activation },
                    },
                    EffectView::Wayland(CmdView::AttachEis(eis)),
                ],
                None => Seq::empty(),
            }.push(
                EffectView::Signal(
                    SignalView::Activated {
                        session: handle,
                        activation_id: self.next_activation,
                        barrier_id,
                        cursor,
                    },
                ),
            )
        } else {
            Seq::empty()
        }
    }

    /// The state once a session's capture run ended.
    pub open spec fn deactivated(self, handle: Seq<char>) -> StateView<F> {
        if self.knows(handle) {
            self.with(handle, self.at(handle).idle())
        } else {
            self
        }
    }

    /// What goes out when a session's capture run ends.
    pub open spec fn deactivate_effects(
        self,
        handle: Seq<char>,
        cursor: (Coord, Coord),
    ) -> Seq<EffectView> {
        if self.knows(handle) && self.at(handle).capturing() {
            goodbye(self.at(handle), cursor)
        } else {
            Seq::empty()
        }
    }

    /// The state once something else is on the clipboard.
    pub open spec fn reselected(self, types: Seq<Seq<char>>, is_ours: bool) -> StateView<F> {
        StateView {
            clipboard: TrackerView {
                mime_types: types,
                owned_by_session: is_ours,
                ..self.clipboard
            },
            ..self
        }
    }

    /// What every clipboard-enabled session is told.
    pub open spec fn announcement(self, types: Seq<Seq<char>>, is_ours: bool) -> Seq<EffectView> {
        announcements(handles(self.sessions.filter(has_clipboard())), types, is_ours)
    }

    /// The state once a session is closed. A claim to the clipboard goes with the
    /// session that made it.
    pub open spec fn closed(self, handle: Seq<char>) -> StateView<F> {
        if self.clipboard.owner_session == Some(handle) {
            self.without(handle).unclaimed()
        } else {
            self.without(handle)
        }
    }

    /// What closing a session asks for.
    pub open spec fn close_effects(self, handle: Seq<char>) -> Seq<EffectView> {
        self.dropped(handle) + if self.clipboard.owner_session == Some(handle) {
            seq![EffectView::Wayland(CmdView::ClipboardRelease)]
        } else {
            Seq::empty()
        }
    }

    /// The state once an event of the Wayland thread was answered.
    pub open spec fn after_event(self, event: WaylandEvent) -> StateView<F> {
        if !self.connected {
            self
        } else {
            match event {
                WaylandEvent::Activated { barrier_id, position } => match watcher(
                    self.sessions,
                    barrier_id,
                ) {
                    Some(i) => self.activated(self.sessions[i].handle),
                    None => self,
                },
                WaylandEvent::CaptureLost => self.all_idle(),
                WaylandEvent::ClipboardSelection { mime_types, is_ours } => self.reselected(
                    texts(mime_types@),
                    is_ours,
                ),
                WaylandEvent::ClipboardCancelled => self.unclaimed(),
                WaylandEvent::OutputsChanged => self,
            }
        }
    }

    /// What an event of the Wayland thread asks for.
    pub open spec fn event_effects(self, event: WaylandEvent) -> Seq<EffectView> {
        if !self.connected {
            Seq::empty()
        } else {
            match event {
                WaylandEvent::Activated { barrier_id, position } => match watcher(
                    self.sessions,
                    barrier_id,
                ) {
                    Some(i) => self.activate_effects(self.sessions[i].handle, barrier_id, position),
                    None => Seq::empty(),
                },
                WaylandEvent::CaptureLost => losses(self.active()),
                WaylandEvent::ClipboardSelection { mime_types, is_ours } => self.announcement(
                    texts(mime_types@),
                    is_ours,
                ),
                WaylandEvent::ClipboardCancelled => self.announcement(
                    self.clipboard.mime_types,
                    false,
                ),
                WaylandEvent::OutputsChanged => rezonings(handles(self.sessions)),
            }
        }
    }
}

/// What goes out when one capture run ends: the event stream stops, and the
/// client is told.
pub open spec fn goodbye(s: SessionView, cursor: (Coord, Coord)) -> Seq<EffectView> {
    to_eis(s.eis, EisCommand::StopEmulating).push(
        EffectView::Signal(
            SignalView::Deactivated {
                session: s.handle,
                activation_id: s.activation_id,
                cursor: Some(cursor),
            },
        ),
    )
}

/// What goes out for captures that are gone: each client stops expecting events,
/// and its barriers are put back.
pub open spec fn losses(list: Seq<SessionView>) -> Seq<EffectView>
    decreases list.len(),
{
    if list.len() == 0 {
        Seq::empty()
    } else {
        losses(list.drop_last()) + goodbye(list.last(), (pixel(0), pixel(0))).push(
            EffectView::Wayland(CmdView::Arm(list.last().barriers)),
        )
    }
}

/// The selection, told to each of some sessions.
pub open spec fn announcements(
    to: Seq<Seq<char>>,
    types: Seq<Seq<char>>,
    is_ours: bool,
) -> Seq<EffectView> {
    to.map_values(
        |session: Seq<char>|
            EffectView::Signal(
                SignalView::SelectionOwnerChanged {
                    session,
                    mime_types: types,
                    session_is_owner: is_ours,
                },
            ),
    )
}

/// That zones are stale, told to each of some sessions.
pub open spec fn rezonings(to: Seq<Seq<char>>) -> Seq<EffectView> {
    to.map_values(
        |session: Seq<char>| EffectView::Signal(SignalView::ZonesChanged { session }),
    )
}

/// Start a capture run for a session: the EIS event stream begins and `Activated`
/// goes out.
pub fn activate<F>(
    state: &mut State<F>,
    session_handle: &String,
    barrier_id: u32,
    cursor: (Coord, Coord),
) -> (r: Vec<Effect>)
    requires
        old(state)@.wf(),
    ensures
        final(state)@ == old(state)@.activated(session_handle@),
        effects(r@) == old(state)@.activate_effects(session_handle@, barrier_id, cursor),
        final(state)@.wf(),
{
    let activation_id: u32 = state.take_activation();
    let ghost before = state@;
    let mut todo: Vec<Effect> = Vec::new();
    assert(effects(todo@) =~= Seq::empty());
    let i: usize = match state.find(session_handle) {
        Some(i) => i,
        None => {
            return todo;
        },
    };
    if !state.sessions[i].enabled {
        return todo;
    }
    if state.sessions[i].activation_id != 0 {
        return todo;
    }
    state.sessions[i].activation_id = activation_id;
    if let Some(eis) = state.sessions[i].eis {
        todo.push(Effect::Eis { to: eis, cmd: EisCommand::StartEmulating { sequence: activation_id } });
        todo.push(Effect::Wayland(WaylandCmd::AttachEis(eis)));
    }
    todo.push(
        Effect::Signal(
            Signal::Activated { session: session_handle.clone(), activation_id, barrier_id, cursor },
        ),
    );
    proof {
        let next = SessionView { activation_id, ..before.at(session_handle@) };
        before.with_keeps(session_handle@, next);
        assert(sessions(state.sessions@) =~= before.with(session_handle@, next).sessions);
        assert(effects(todo@) =~= old(state)@.activate_effects(session_handle@, barrier_id, cursor));
    }
    todo
}

/// End a session's capture run: the EIS event stream stops and `Deactivated` goes
/// out.
pub fn deactivate<F>(
    state: &mut State<F>,
    session_handle: &String,
    cursor: (Coord, Coord),
) -> (r: Vec<Effect>)
    requires
        old(state)@.wf(),
    ensures
        final(state)@ == old(state)@.deactivated(session_handle@),
        effects(r@) == old(state)@.deactivate_effects(session_handle@, cursor),
        final(state)@.wf(),
{
    let ghost before = state@;
    let mut todo: Vec<Effect> = Vec::new();
    assert(effects(todo@) =~= Seq::empty());
    let i: usize = match state.find(session_handle) {
        Some(i) => i,
        None => {
            return todo;
        },
    };
    proof {
        before.with_keeps(session_handle@, before.at(session_handle@).idle());
    }
    let activation_id: u32 = state.sessions[i].activation_id;
    if activation_id == 0 {
        assert(before.sessions =~= before.deactivated(session_handle@).sessions);
        return todo;
    }
    state.sessions[i].activation_id = 0;
    if let Some(eis) = state.sessions[i].eis {
        todo.push(Effect::Eis { to: eis, cmd: EisCommand::StopEmulating });
    }
    todo.push(
        Effect::Signal(
            Signal::Deactivated {
                session: session_handle.clone(),
                activation_id,
                cursor: Some(cursor),
            },
        ),
    );
    proof {
        assert(sessions(state.sessions@) =~= before.deactivated(session_handle@).sessions);
        assert(effects(todo@) =~= before.deactivate_effects(session_handle@, cursor));
    }
    todo
}

/// Tell every clipboard-enabled session what is on the selection now.
pub fn announce_selection<F>(state: &State<F>, mime_types: &Vec<String>, is_ours: bool) -> (r: Vec<
    Effect,
>)
    ensures
        effects(r@) == state@.announcement(texts(mime_types@), is_ours),
{
    let to = state.clipboard_sessions();
    let mut r: Vec<Effect> = Vec::new();
    let ghost all = announcements(texts(to@), texts(mime_types@), is_ours);
    let mut i: usize = 0;
    assert(effects(r@) =~= all.take(0));
    while i < to.len()
        invariant
            i <= to@.len(),
            all == announcements(texts(to@), texts(mime_types@), is_ours),
            effects(r@) == all.take(i as int),
        decreases to@.len() - i,
    {
        let copy = mime_types.clone();
        assert(copy@ =~= mime_types@);
        let ghost before = effects(r@);
        r.push(
            Effect::Signal(
                Signal::SelectionOwnerChanged {
                    session: to[i].clone(),
                    mime_types: copy,
                    session_is_owner: is_ours,
                },
            ),
        );
        assert(effects(r@) =~= before.push(all[i as int]));
        assert(all.take(i + 1) =~= all.take(i as int).push(all[i as int]));
        i += 1;
    }
    assert(all.take(i as int) =~= all);
    r
}

/// Tell every session that its zones are stale; clients call GetZones again as
/// soon as they see this.
fn announce_zones<F>(state: &State<F>) -> (r: Vec<Effect>)
    ensures
        effects(r@) == rezonings(handles(state@.sessions)),
{
    let to = state.session_handles();
    let mut r: Vec<Effect> = Vec::new();
    let ghost all = rezonings(texts(to@));
    let mut i: usize = 0;
    assert(effects(r@) =~= all.take(0));
    while i < to.len()
        invariant
            i <= to@.len(),
            all == rezonings(texts(to@)),
            effects(r@) == all.take(i as int),
        decreases to@.len() - i,
    {
        let ghost before = effects(r@);
        r.push(Effect::Signal(Signal::ZonesChanged { session: to[i].clone() }));
        assert(effects(r@) =~= before.push(all[i as int]));
        assert(all.take(i + 1) =~= all.take(i as int).push(all[i as int]));
        i += 1;
    }
    assert(all.take(i as int) =~= all);
    r
}

/// The grab is already gone; tell whichever session owned it so the client stops
/// expecting events, and put the barriers back.
fn capture_lost<F>(state: &mut State<F>) -> (r: Vec<Effect>)
    requires
        old(state)@.wf(),
    ensures
        final(state)@ == old(state)@.all_idle(),
        effects(r@) == losses(old(state)@.active()),
        final(state)@.wf(),
{
    let ghost all = state@.sessions;
    let mut todo: Vec<Effect> = Vec::new();
    let mut i: usize = 0;
    proof {
        reveal(Seq::filter);
        assert(all.take(0) =~= Seq::empty());
        assert(effects(todo@) =~= losses(all.take(0).filter(is_capturing())));
    }
    while i < state.sessions.len()
        invariant
            i <= state.sessions@.len(),
            state.sessions@.len() == all.len(),
            state@.wf(),
            forall|j: int| 0 <= j < i ==> #[trigger] state.sessions@[j]@ == all[j].idle(),
            forall|j: int| i <= j < all.len() ==> #[trigger] state.sessions@[j]@ == all[j],
            state@ == (StateView { sessions: sessions(state.sessions@), ..old(state)@ }),
            effects(todo@) == losses(all.take(i as int).filter(is_capturing())),
        decreases state.sessions@.len() - i,
    {
        let ghost so_far = all.take(i as int).filter(is_capturing());
        let ghost before = state@;
        let ghost todo_before = effects(todo@);
        proof {
            reveal(Seq::filter);
            assert(all.take(i + 1).drop_last() =~= all.take(i as int));
            assert(all.take(i + 1).last() == state.sessions@[i as int]@);
        }
        if state.sessions[i].activation_id != 0 {
            let handle = state.sessions[i].handle.clone();
            let barriers = state.sessions[i].barriers.clone();
            proof {
                assert(barriers@ =~= all[i as int].barriers);
                assert(so_far.push(all[i as int]).drop_last() =~= so_far);
                position_finds(before.sessions, handle@);
                assert(before.sessions[i as int].handle == handle@);
                assert(position(before.sessions, handle@) == Some(i as int));
            }
            let mut ended = deactivate(state, &handle, (Coord::of_pixel(0), Coord::of_pixel(0)));
            ended.push(Effect::Wayland(WaylandCmd::Arm(barriers)));
            proof {
                assert(effects(ended@) =~= goodbye(all[i as int], (pixel(0), pixel(0))).push(
                    EffectView::Wayland(CmdView::Arm(all[i as int].barriers)),
                ));
                assert(state@.sessions =~= before.sessions.update(i as int, all[i as int].idle()));
                assert(state@.sessions.len() == state.sessions@.len());
                assert forall|j: int| 0 <= j < all.len() implies #[trigger] state.sessions@[j]@
                    == state@.sessions[j] by {}
            }
            let ghost more = ended@;
            let ghost todo_list = todo@;
            todo.append(&mut ended);
            proof {
                assert(todo@ =~= todo_list + more);
                assert(effects(todo@) =~= todo_before + effects(more));
            }
        }
        i += 1;
    }
    proof {
        assert(all.take(i as int) =~= all);
        assert(sessions(state.sessions@) =~= old(state)@.all_idle().sessions);
    }
    todo
}

/// Drive portal signals from what the Wayland thread observes. Nothing comes of
/// an event before the bus connection is up.
pub fn pump_wayland_events<F>(state: &mut State<F>, event: WaylandEvent) -> (r: Vec<Effect>)
    requires
        old(state)@.wf(),
    ensures
        final(state)@ == old(state)@.after_event(event),
        effects(r@) == old(state)@.event_effects(event),
        final(state)@.wf(),
{
    let none: Vec<Effect> = Vec::new();
    assert(effects(none@) =~= Seq::empty());
    if !state.connected {
        return none;
    }
    match event {
        WaylandEvent::Activated { barrier_id, position } => match state.session_for_barrier(
            barrier_id,
        ) {
            Some(handle) => activate(state, &handle, barrier_id, position),
            None => none,
        },
        WaylandEvent::CaptureLost => capture_lost(state),
        WaylandEvent::ClipboardSelection { mime_types, is_ours } => {
            // Every session with clipboard access needs to know, so it can
            // offer the new content to the machine on the other end.
            let todo = announce_selection(state, &mime_types, is_ours);
            state.clipboard.mime_types = mime_types;
            state.clipboard.owned_by_session = is_ours;
            todo
        },
        WaylandEvent::ClipboardCancelled => {
            // Nobody is going to answer the parked reads now.
            state.clipboard.unclaim();
            announce_selection(state, &state.clipboard.mime_types, false)
        },
        WaylandEvent::OutputsChanged => announce_zones(state),
    }
}

impl<F> StateView<F> {
    /// What a paste of the claimed selection asks for: its content, of the session
    /// that claimed it, if one did.
    pub open spec fn transfer_effects(self, mime_type: Seq<char>) -> Seq<EffectView> {
        match self.clipboard.owner_session {
            Some(owner) => seq![
                EffectView::Signal(
                    SignalView::SelectionTransfer {
                        session: owner,
                        mime_type,
                        serial: serial_after(self.clipboard.next_serial),
                    },
                ),
            ],
            None => Seq::empty(),
        }
    }
}

/// Park an application's read of the claimed selection, and ask the session that
/// claimed it for the content. Where no session is behind the claim the read
/// stays parked, and before the bus connection is up it is dropped.
pub fn clipboard_send<F>(state: &mut State<F>, mime_type: String, fd: F) -> (r: Vec<Effect>)
    requires
        old(state)@.wf(),
    ensures
        ({
            let before = old(state)@;
            if !before.connected {
                &&& final(state)@ == before
                &&& effects(r@) == Seq::<EffectView>::empty()
            } else {
                &&& final(state)@ == (StateView { clipboard: before.clipboard.parked(fd), ..before })
                &&& effects(r@) == before.transfer_effects(mime_type@)
            }
        }),
        final(state)@.wf(),
{
    let mut todo: Vec<Effect> = Vec::new();
    assert(effects(todo@) =~= Seq::empty());
    if !state.connected {
        return todo;
    }
    let serial: u32 = state.clipboard.begin_transfer(fd);
    if let Some(owner) = &state.clipboard.owner_session {
        todo.push(
            Effect::Signal(Signal::SelectionTransfer { session: owner.clone(), mime_type, serial }),
        );
        assert(effects(todo@) =~= seq![
            EffectView::Signal(
                SignalView::SelectionTransfer { session: owner@, mime_type: mime_type@, serial },
            ),
        ]);
    }
    todo
}

/// The impl-side Session object xdg-desktop-portal closes when it is done.
#[derive(Debug, Clone, Copy)]
pub struct SessionObject;

impl SessionObject {
    pub fn version() -> (r: u32)
        ensures
            r == 1,
    {
        1
    }

    /// Forget a session.
    ///
    /// A selection whose owner has gone is a clipboard that hangs every paste on
    /// this machine, so the claim has to go with the session.
    pub fn close<F>(state: &mut State<F>, handle: &String) -> (r: Vec<Effect>)
        requires
            old(state)@.wf(),
        ensures
            final(state)@ == old(state)@.closed(handle@),
            effects(r@) == old(state)@.close_effects(handle@),
            final(state)@.wf(),
    {
        proof {
            old(state)@.removing_keeps(handle@);
        }
        let mut todo = state.remove(handle);
        if state.owns_clipboard(handle) {
            let ghost before = todo@;
            let mut released = state.release_clipboard_claim();
            let ghost more = released@;
            todo.append(&mut released);
            proof {
                assert(todo@ =~= before + more);
                assert(effects(todo@) =~= effects(before) + effects(more));
            }
        }
        assert(effects(todo@) =~= old(state)@.close_effects(handle@));
        todo
    }
}

} // verus!
