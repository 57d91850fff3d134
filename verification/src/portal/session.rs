//! The sessions that clients hold, and what they share.

use crate::counting::counted;
use crate::eis_server::EisHandle;
use crate::niri::OutputZone;
use crate::portal::effects::{EffectView, Effect, effects};
use crate::portal::outcomes::{a_barrier_finds_the_first_session_that_has_it, has_barrier};
use crate::portal::tracker::{text_view, ClipboardTracker, TrackerView};
use crate::portal::Barrier;
use crate::text::texts;
use crate::wayland::{CmdView, WaylandCmd};
use vstd::prelude::*;

verus! {

/// One session, as its client left it.
#[derive(Debug)]
pub struct Session {
    pub handle: String,
    pub app_id: String,
    pub capabilities: u32,
    pub zone_set: u32,
    pub zones: Vec<OutputZone>,
    pub barriers: Vec<Barrier>,
    pub eis: Option<EisHandle>,
    /// False between `CreateSession2` and `Start`. The deprecated `CreateSession`
    /// produces a session that is started from the outset, which is the whole
    /// difference between the two.
    pub started: bool,
    pub enabled: bool,
    /// Non-zero while a capture run is in flight.
    pub activation_id: u32,
    /// Set by `Clipboard.RequestClipboard`, which comes before the session
    /// starts. `Start` reports it back as `clipboard_enabled`, and every
    /// other clipboard method refuses a session that never asked.
    pub clipboard_requested: bool,
}

/// A session, seen from outside.
pub struct SessionView {
    pub handle: Seq<char>,
    pub app_id: Seq<char>,
    pub capabilities: u32,
    pub zone_set: u32,
    pub zones: Seq<OutputZone>,
    pub barriers: Seq<Barrier>,
    pub eis: Option<EisHandle>,
    pub started: bool,
    pub enabled: bool,
    pub activation_id: u32,
    pub clipboard_requested: bool,
}

impl View for Session {
    type V = SessionView;

    open spec fn view(&self) -> SessionView {
        SessionView {
            handle: self.handle@,
            app_id: self.app_id@,
            capabilities: self.capabilities,
            zone_set: self.zone_set,
            zones: self.zones@,
            barriers: self.barriers@,
            eis: self.eis,
            started: self.started,
            enabled: self.enabled,
            activation_id: self.activation_id,
            clipboard_requested: self.clipboard_requested,
        }
    }
}

impl SessionView {
    /// Whether a capture run is in flight.
    pub open spec fn capturing(self) -> bool {
        self.activation_id != 0
    }

    /// Whether the session watches a barrier with this number.
    pub open spec fn watches(self, barrier_id: u32) -> bool {
        self.enabled && exists|i: int|
            0 <= i < self.barriers.len() && #[trigger] self.barriers[i].id == barrier_id
    }

    /// The session with no capture run in flight.
    pub open spec fn idle(self) -> SessionView {
        SessionView { activation_id: 0, ..self }
    }

    /// The session with none of its barriers watched.
    pub open spec fn disabled(self) -> SessionView {
        SessionView { enabled: false, ..self }
    }
}

/// The sessions, and what they share. Each session has a handle of its own; the
/// first to be registered comes first.
#[derive(Debug)]
pub struct State<F> {
    pub sessions: Vec<Session>,
    pub clipboard: ClipboardTracker<F>,
    pub next_zone_set: u32,
    pub next_activation: u32,
    /// Set once the bus connection exists, which is after the interface itself
    /// has to be constructed.
    pub connected: bool,
}

/// The state, seen from outside.
pub struct StateView<F> {
    pub sessions: Seq<SessionView>,
    pub clipboard: TrackerView<F>,
    pub next_zone_set: u32,
    pub next_activation: u32,
    pub connected: bool,
}

/// A list of sessions, seen from outside.
pub open spec fn sessions(list: Seq<Session>) -> Seq<SessionView> {
    list.map_values(|s: Session| s@)
}

impl<F> View for State<F> {
    type V = StateView<F>;

    open spec fn view(&self) -> StateView<F> {
        StateView {
            sessions: sessions(self.sessions@),
            clipboard: self.clipboard@,
            next_zone_set: self.next_zone_set,
            next_activation: self.next_activation,
            connected: self.connected,
        }
    }
}

/// Where the first session with a handle stands.
pub open spec fn position(list: Seq<SessionView>, handle: Seq<char>) -> Option<int>
    decreases list.len(),
{
    if list.len() == 0 {
        None
    } else if list[0].handle == handle {
        Some(0)
    } else {
        match position(list.drop_first(), handle) {
            Some(i) => Some(i + 1),
            None => None,
        }
    }
}

/// No two sessions share a handle.
pub open spec fn distinct(list: Seq<SessionView>) -> bool {
    forall|i: int, j: int|
        0 <= i < j < list.len() ==> (#[trigger] list[i]).handle != (#[trigger] list[j]).handle
}

/// Holds of the sessions with a capture run in flight.
pub open spec fn is_capturing() -> spec_fn(SessionView) -> bool {
    |s: SessionView| s.capturing()
}

/// Holds of the sessions that may use the clipboard.
pub open spec fn has_clipboard() -> spec_fn(SessionView) -> bool {
    |s: SessionView| s.clipboard_requested
}

/// The handles of some sessions.
pub open spec fn handles(list: Seq<SessionView>) -> Seq<Seq<char>> {
    list.map_values(|s: SessionView| s.handle)
}

/// Where the first session stands that watches a barrier.
pub open spec fn watcher(list: Seq<SessionView>, barrier_id: u32) -> Option<int>
    decreases list.len(),
{
    if list.len() == 0 {
        None
    } else if list[0].watches(barrier_id) {
        Some(0)
    } else {
        match watcher(list.drop_first(), barrier_id) {
            Some(i) => Some(i + 1),
            None => None,
        }
    }
}

/// A handle is found where a session has it, and nowhere before.
pub proof fn position_finds(list: Seq<SessionView>, handle: Seq<char>)
    ensures
        match position(list, handle) {
            Some(i) => 0 <= i < list.len() && list[i].handle == handle && forall|j: int|
                0 <= j < i ==> (#[trigger] list[j]).handle != handle,
            None => forall|j: int| 0 <= j < list.len() ==> (#[trigger] list[j]).handle != handle,
        },
    decreases list.len(),
{
    if list.len() > 0 && list[0].handle != handle {
        position_finds(list.drop_first(), handle);
        assert forall|j: int|
            1 <= j < list.len() && list.drop_first()[j - 1].handle != handle implies (
        #[trigger] list[j]).handle != handle by {}
    }
}

/// The session found for a barrier is enabled and has that barrier; if none is
/// found, no session watches it.
pub proof fn watcher_finds(list: Seq<SessionView>, barrier_id: u32)
    ensures
        match watcher(list, barrier_id) {
            Some(i) => 0 <= i < list.len() && list[i].watches(barrier_id),
            None => forall|j: int| 0 <= j < list.len() ==> !(#[trigger] list[j]).watches(barrier_id),
        },
    decreases list.len(),
{
    if list.len() > 0 && !list[0].watches(barrier_id) {
        watcher_finds(list.drop_first(), barrier_id);
        assert forall|j: int|
            1 <= j < list.len() && !list.drop_first()[j - 1].watches(barrier_id) implies !(
        #[trigger] list[j]).watches(barrier_id) by {}
    }
}

impl<F> StateView<F> {
    /// Handles are distinct, and the clipboard's bookkeeping is in order.
    pub open spec fn wf(self) -> bool {
        &&& distinct(self.sessions)
        &&& self.clipboard.wf()
    }

    /// Whether a session has this handle.
    pub open spec fn knows(self, handle: Seq<char>) -> bool {
        position(self.sessions, handle) is Some
    }

    /// The session with this handle.
    pub open spec fn at(self, handle: Seq<char>) -> SessionView {
        self.sessions[position(self.sessions, handle).unwrap()]
    }

    /// The state with the session of a handle replaced.
    pub open spec fn with(self, handle: Seq<char>, session: SessionView) -> StateView<F> {
        StateView {
            sessions: self.sessions.update(position(self.sessions, handle).unwrap(), session),
            ..self
        }
    }

    /// The state without the session of a handle.
    pub open spec fn without(self, handle: Seq<char>) -> StateView<F> {
        match position(self.sessions, handle) {
            Some(i) => StateView { sessions: self.sessions.remove(i), ..self },
            None => self,
        }
    }

    /// The state with a session registered, in the place of the one that had its
    /// handle before or behind all others.
    pub open spec fn registered(self, session: SessionView) -> StateView<F> {
        match position(self.sessions, session.handle) {
            Some(i) => StateView { sessions: self.sessions.update(i, session), ..self },
            None => StateView { sessions: self.sessions.push(session), ..self },
        }
    }

    /// Whether a session with this handle may use the clipboard.
    pub open spec fn may_paste(self, handle: Seq<char>) -> bool {
        self.knows(handle) && self.at(handle).clipboard_requested
    }

    /// The sessions with a capture run in flight.
    pub open spec fn active(self) -> Seq<SessionView> {
        self.sessions.filter(is_capturing())
    }

    /// The state with every capture run ended.
    pub open spec fn all_idle(self) -> StateView<F> {
        StateView { sessions: self.sessions.map_values(|s: SessionView| s.idle()), ..self }
    }

    /// The state with every session disabled.
    pub open spec fn all_disabled(self) -> StateView<F> {
        StateView { sessions: self.sessions.map_values(|s: SessionView| s.disabled()), ..self }
    }

    /// No session is enabled, and none has a capture run in flight.
    pub open spec fn at_rest(self) -> bool {
        forall|i: int|
            0 <= i < self.sessions.len() ==> !(#[trigger] self.sessions[i]).enabled
                && !self.sessions[i].capturing()
    }
}

impl<F> State<F> {
    /// A state with no session and nothing on the clipboard.
    pub fn new() -> (r: State<F>)
        ensures
            r@ == (StateView {
                sessions: Seq::<SessionView>::empty(),
                clipboard: TrackerView {
                    mime_types: Seq::empty(),
                    owned_by_session: false,
                    transfers: Map::<u32, F>::empty(),
                    owner_session: None,
                    order: Seq::empty(),
                    next_serial: 0,
                },
                next_zone_set: 1,
                next_activation: 1,
                connected: false,
            }),
            r@.wf(),
    {
        let r = State {
            sessions: Vec::new(),
            clipboard: ClipboardTracker::default(),
            next_zone_set: 1,
            next_activation: 1,
            connected: false,
        };
        assert(sessions(r.sessions@) =~= Seq::empty());
        r
    }

    /// The bus connection is up.
    pub fn set_connection(&mut self)
        ensures
            final(self)@ == (StateView { connected: true, ..old(self)@ }),
    {
        self.connected = true;
    }

    /// Where the session with a handle stands.
    pub(crate) fn find(&self, handle: &String) -> (r: Option<usize>)
        ensures
            match (r, position(self@.sessions, handle@)) {
                (Some(i), Some(j)) => i == j,
                (None, None) => true,
                _ => false,
            },
            r matches Some(i) ==> i < self.sessions@.len() && self.sessions@[i as int].handle@
                == handle@,
    {
        let ghost all = self@.sessions;
        let mut i: usize = 0;
        assert(all.skip(0) =~= all);
        while i < self.sessions.len()
            invariant
                i <= self.sessions.len(),
                all == sessions(self.sessions@),
                match (position(all, handle@), position(all.skip(i as int), handle@)) {
                    (Some(a), Some(b)) => a == b + i,
                    (None, None) => true,
                    _ => false,
                },
            decreases self.sessions.len() - i,
        {
            proof {
                assert(all.skip(i as int).drop_first() =~= all.skip(i + 1));
                assert(all.skip(i as int)[0] == self.sessions@[i as int]@);
            }
            if self.sessions[i].handle == *handle {
                return Some(i);
            }
            i += 1;
        }
        None
    }

    /// Register a session under its handle. The connection of a session that had
    /// the handle before goes with it.
    pub(crate) fn register(&mut self, session: Session) -> (r: Vec<Effect>)
        ensures
            final(self)@ == old(self)@.registered(session@),
            effects(r@) == old(self)@.dropped(session.handle@),
    {
        let mut r: Vec<Effect> = Vec::new();
        match self.find(&session.handle) {
            Some(i) => {
                let ghost before = self.sessions@;
                let old_session = self.sessions.remove(i);
                if let Some(eis) = old_session.eis {
                    r.push(Effect::DropEis(eis));
                }
                self.sessions.insert(i, session);
                assert(sessions(self.sessions@) =~= sessions(before).update(i as int, session@));
            },
            None => {
                self.sessions.push(session);
                assert(sessions(self.sessions@) =~= old(self)@.sessions.push(session@));
            },
        }
        assert(effects(r@) =~= old(self)@.dropped(session.handle@));
        r
    }

    /// Forget a session.
    pub(crate) fn remove(&mut self, handle: &String) -> (r: Vec<Effect>)
        ensures
            final(self)@ == old(self)@.without(handle@),
            effects(r@) == old(self)@.dropped(handle@),
    {
        let mut r: Vec<Effect> = Vec::new();
        if let Some(i) = self.find(handle) {
            let ghost before = self.sessions@;
            let old_session = self.sessions.remove(i);
            if let Some(eis) = old_session.eis {
                r.push(Effect::DropEis(eis));
            }
            assert(sessions(self.sessions@) =~= sessions(before).remove(i as int));
        }
        assert(effects(r@) =~= old(self)@.dropped(handle@));
        r
    }

    /// Give up the clipboard claim and abandon whatever reads were waiting on it.
    ///
    /// The two go together: once the selection is no longer ours, no
    /// `SelectionWrite` can arrive for a parked transfer, so holding those pipes
    /// open would leave the applications blocked on them waiting for a write that
    /// will never come.
    pub fn release_clipboard_claim(&mut self) -> (r: Vec<Effect>)
        ensures
            final(self)@ == old(self)@.unclaimed(),
            effects(r@) == seq![EffectView::Wayland(CmdView::ClipboardRelease)],
            final(self)@.clipboard.wf(),
    {
        self.clipboard.unclaim();
        let mut r: Vec<Effect> = Vec::new();
        r.push(Effect::Wayland(WaylandCmd::ClipboardRelease));
        assert(effects(r@) =~= seq![EffectView::Wayland(CmdView::ClipboardRelease)]);
        r
    }

    /// Sessions that may use the clipboard interface.
    pub fn clipboard_sessions(&self) -> (r: Vec<String>)
        ensures
            texts(r@) == handles(self@.sessions.filter(has_clipboard())),
    {
        let mut r: Vec<String> = Vec::new();
        let ghost all = self@.sessions;
        let mut i: usize = 0;
        proof {
            reveal(Seq::filter);
            assert(texts(r@) =~= handles(all.take(0).filter(has_clipboard())));
        }
        while i < self.sessions.len()
            invariant
                i <= self.sessions.len(),
                all == sessions(self.sessions@),
                texts(r@) == handles(all.take(i as int).filter(has_clipboard())),
            decreases self.sessions.len() - i,
        {
            proof {
                reveal(Seq::filter);
                assert(all.take(i + 1).drop_last() =~= all.take(i as int));
                assert(all.take(i + 1).last() == self.sessions@[i as int]@);
            }
            let ghost before = r@;
            if self.sessions[i].clipboard_requested {
                r.push(self.sessions[i].handle.clone());
                assert(texts(r@) =~= texts(before).push(self.sessions@[i as int].handle@));
                assert(handles(all.take(i + 1).filter(has_clipboard())) =~= handles(
                    all.take(i as int).filter(has_clipboard()),
                ).push(self.sessions@[i as int].handle@));
            }
            i += 1;
        }
        assert(all.take(i as int) =~= all);
        r
    }

    pub fn session_has_clipboard(&self, handle: &String) -> (r: bool)
        ensures
            r == self@.may_paste(handle@),
    {
        match self.find(handle) {
            Some(i) => self.sessions[i].clipboard_requested,
            None => false,
        }
    }

    /// Whether this session is the one currently holding the selection.
    pub fn owns_clipboard(&self, handle: &String) -> (r: bool)
        ensures
            r == (self@.clipboard.owner_session == Some(handle@)),
    {
        match &self.clipboard.owner_session {
            Some(owner) => *owner == *handle,
            None => false,
        }
    }

    /// Find the enabled session that owns `barrier_id`.
    pub fn session_for_barrier(&self, barrier_id: u32) -> (r: Option<String>)
        ensures
            text_view(r) == match watcher(self@.sessions, barrier_id) {
                Some(i) => Some(self@.sessions[i].handle),
                None => None,
            },
            r is Some <==> exists|i: int|
                0 <= i < self@.sessions.len() && (#[trigger] self@.sessions[i]).enabled
                    && has_barrier(self@.sessions[i].barriers, barrier_id),
            r matches Some(handle) ==> exists|i: int|
                0 <= i < self@.sessions.len() && (#[trigger] self@.sessions[i]).enabled
                    && has_barrier(self@.sessions[i].barriers, barrier_id)
                    && self@.sessions[i].handle == handle@,
    {
        proof {
            a_barrier_finds_the_first_session_that_has_it(self@.sessions, barrier_id);
        }
        let ghost all = self@.sessions;
        let mut i: usize = 0;
        assert(all.skip(0) =~= all);
        while i < self.sessions.len()
            invariant
                i <= self.sessions.len(),
                all == sessions(self.sessions@),
                match (watcher(all, barrier_id), watcher(all.skip(i as int), barrier_id)) {
                    (Some(a), Some(b)) => a == b + i,
                    (None, None) => true,
                    _ => false,
                },
            decreases self.sessions.len() - i,
        {
            proof {
                assert(all.skip(i as int).drop_first() =~= all.skip(i + 1));
                assert(all.skip(i as int)[0] == self.sessions@[i as int]@);
            }
            if watches(&self.sessions[i], barrier_id) {
                assert(self@.sessions[i as int] == self.sessions@[i as int]@);
                return Some(self.sessions[i].handle.clone());
            }
            i += 1;
        }
        None
    }

    /// Every session's handle.
    pub fn session_handles(&self) -> (r: Vec<String>)
        ensures
            texts(r@) == handles(self@.sessions),
    {
        let mut r: Vec<String> = Vec::new();
        let mut i: usize = 0;
        while i < self.sessions.len()
            invariant
                i <= self.sessions.len(),
                r@.len() == i,
                forall|j: int| 0 <= j < i ==> (#[trigger] r@[j])@ == self.sessions@[j].handle@,
            decreases self.sessions.len() - i,
        {
            r.push(self.sessions[i].handle.clone());
            i += 1;
        }
        assert(texts(r@) =~= handles(self@.sessions));
        r
    }

    /// Unlock the pointer and clear the screen edges. Used on shutdown so the
    /// session is never left with a grab owned by a process that is going away.
    pub fn release_everything(&self) -> (r: Vec<Effect>)
        ensures
            effects(r@) == seq![
                EffectView::Wayland(CmdView::EndCapture { cursor_hint: None }),
                EffectView::Wayland(CmdView::Disarm),
            ],
    {
        let mut r: Vec<Effect> = Vec::new();
        r.push(Effect::Wayland(WaylandCmd::EndCapture { cursor_hint: None }));
        r.push(Effect::Wayland(WaylandCmd::Disarm));
        assert(effects(r@) =~= seq![
            EffectView::Wayland(CmdView::EndCapture { cursor_hint: None }),
            EffectView::Wayland(CmdView::Disarm),
        ]);
        r
    }

    /// Take the next zone set number.
    pub(crate) fn take_zone_set(&mut self) -> (r: u32)
        ensures
            r == old(self)@.next_zone_set,
            final(self)@ == (StateView {
                next_zone_set: counted(old(self)@.next_zone_set),
                ..old(self)@
            }),
    {
        let r: u32 = self.next_zone_set;
        self.next_zone_set = r.wrapping_add(1);
        r
    }

    /// Take the next activation number.
    pub(crate) fn take_activation(&mut self) -> (r: u32)
        ensures
            r == old(self)@.next_activation,
            final(self)@ == (StateView {
                next_activation: counted(old(self)@.next_activation),
                ..old(self)@
            }),
    {
        let r: u32 = self.next_activation;
        self.next_activation = r.wrapping_add(1);
        r
    }
}

impl<F> StateView<F> {
    /// The connection that goes when a session does.
    pub open spec fn dropped(self, handle: Seq<char>) -> Seq<EffectView> {
        if self.knows(handle) {
            match self.at(handle).eis {
                Some(eis) => seq![EffectView::DropEis(eis)],
                None => Seq::empty(),
            }
        } else {
            Seq::empty()
        }
    }

    /// The state once no session claims the clipboard.
    pub open spec fn unclaimed(self) -> StateView<F> {
        StateView { clipboard: self.clipboard.unclaimed(), ..self }
    }
}

/// Whether a session watches a barrier with this number.
fn watches(session: &Session, barrier_id: u32) -> (r: bool)
    ensures
        r == session@.watches(barrier_id),
{
    if !session.enabled {
        return false;
    }
    let mut i: usize = 0;
    while i < session.barriers.len()
        invariant
            session.enabled,
            i <= session.barriers.len(),
            forall|j: int| 0 <= j < i ==> #[trigger] session.barriers@[j].id != barrier_id,
        decreases session.barriers.len() - i,
    {
        if session.barriers[i].id == barrier_id {
            assert(session@.barriers[i as int].id == barrier_id);
            return true;
        }
        i += 1;
    }
    false
}

/// A session is seen as it is, field by field.
pub proof fn a_session_is_seen_as_it_is(s: Session)
    ensures
        s@.handle == s.handle@,
        s@.app_id == s.app_id@,
        s@.capabilities == s.capabilities,
        s@.zone_set == s.zone_set,
        s@.zones == s.zones@,
        s@.barriers == s.barriers@,
        s@.eis == s.eis,
        s@.started == s.started,
        s@.enabled == s.enabled,
        s@.activation_id == s.activation_id,
        s@.clipboard_requested == s.clipboard_requested,
{
}

/// The state is seen as it is, its sessions one by one and in order.
pub proof fn the_state_is_seen_as_it_is<F>(v: State<F>)
    ensures
        v@.sessions.len() == v.sessions@.len(),
        forall|i: int|
            0 <= i < v.sessions@.len() ==> #[trigger] v@.sessions[i] == v.sessions@[i]@,
        v@.clipboard == v.clipboard@,
        v@.next_zone_set == v.next_zone_set,
        v@.next_activation == v.next_activation,
        v@.connected == v.connected,
{
}

/// The handles of some sessions are their own, in order.
pub proof fn handles_are_the_sessions_own(list: Seq<SessionView>)
    ensures
        handles(list).len() == list.len(),
        forall|i: int| 0 <= i < list.len() ==> #[trigger] handles(list)[i] == list[i].handle,
{
}

/// Of one session more, its handle is told behind all others if it asked for the
/// clipboard, and not at all if it did not.
pub proof fn those_who_asked_may_use_the_clipboard(list: Seq<SessionView>, s: SessionView)
    ensures
        handles(Seq::<SessionView>::empty().filter(has_clipboard())).len() == 0,
        handles(list.push(s).filter(has_clipboard())) == if s.clipboard_requested {
            handles(list.filter(has_clipboard())).push(s.handle)
        } else {
            handles(list.filter(has_clipboard()))
        },
{
    reveal(Seq::filter);
    assert(list.push(s).drop_last() =~= list);
    assert(handles(list.push(s).filter(has_clipboard())) =~= if s.clipboard_requested {
        handles(list.filter(has_clipboard())).push(s.handle)
    } else {
        handles(list.filter(has_clipboard()))
    });
}

} // verus!
