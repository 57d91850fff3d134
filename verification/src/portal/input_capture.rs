//! The calls of `org.freedesktop.impl.portal.InputCapture`.
//!
//! xdg-desktop-portal owns the public-facing portal API and the Request objects;
//! a backend only has to answer the impl-side calls and emit the three session
//! signals.

use crate::coord::Coord;
use crate::counting::counted;
use crate::eis_server::{EisCommand, EisHandle};
use crate::niri::{OutputZone, Zone};
use crate::portal::dict::{
    a_new_name_goes_last, empty, entries, get_line, get_number, get_point, insert, line_of,
    number_of, point_of, value_of, Dict, DictValue, ValueView,
};
use crate::portal::effects::{
    effects, granted, refused, to_eis, Effect, EffectView, Fault, FaultView, Reply,
};
use crate::portal::session::{
    position, position_finds, sessions, Session, SessionView, State, StateView,
};
use crate::portal::{zone_tuple, Barrier, ZoneTuple, CAP_KEYBOARD, CAP_POINTER};
use crate::wayland::{CmdView, WaylandCmd};
use vstd::prelude::*;

verus! {

/// `org.freedesktop.impl.portal.InputCapture`.
#[derive(Debug, Clone, Copy)]
pub struct InputCapture;

/// The capabilities in a mask that this backend can capture.
pub open spec fn grant(requested: u32) -> u32 {
    requested & (CAP_KEYBOARD | CAP_POINTER)
}

/// The capability bitmask that options ask for, zero if they ask for nothing.
pub open spec fn requested(options: Seq<(Seq<char>, ValueView)>) -> u32 {
    match number_of(options, "capabilities"@) {
        Some(n) => n,
        None => 0,
    }
}

/// The capability bitmask a client asked for, or zero if it asked for nothing.
pub fn requested_capabilities(options: &Dict) -> (r: u32)
    ensures
        r == requested(entries(options@)),
{
    match get_number(options, "capabilities") {
        Some(n) => n,
        None => 0,
    }
}

/// How a `CreateSession` call goes on.
#[derive(Debug)]
pub enum CreateStep {
    /// Answer with this.
    Refuse(Reply),
    /// Enumerate the outputs and register a session with these capabilities.
    Register { capabilities: u32 },
}

/// Why no session came of a call.
#[derive(Debug)]
pub enum CreateFailure {
    /// The outputs could not be enumerated.
    Outputs(String),
    /// The session object could not be exported.
    Export(String),
}

/// What an attempt to set up an EIS connection came to.
#[derive(Debug)]
pub enum EisSetup {
    Connected(EisHandle),
    /// There was no socket pair to be had.
    NoSocket(String),
    /// The server end could not be set up.
    NoServer(String),
}

/// A session just made.
pub open spec fn fresh(
    handle: Seq<char>,
    app_id: Seq<char>,
    capabilities: u32,
    started: bool,
    zone_set: u32,
    zones: Seq<OutputZone>,
) -> SessionView {
    SessionView {
        handle,
        app_id,
        capabilities,
        zone_set,
        zones,
        barriers: Seq::empty(),
        eis: None,
        started,
        enabled: false,
        activation_id: 0,
        clipboard_requested: false,
    }
}

/// The zones alone of some outputs.
pub open spec fn zones_of(outputs: Seq<OutputZone>) -> Seq<Zone> {
    outputs.map_values(|o: OutputZone| o.zone)
}

/// The zones of some outputs in wire order.
pub open spec fn tuples_of(outputs: Seq<OutputZone>) -> Seq<ZoneTuple> {
    outputs.map_values(|o: OutputZone| zone_tuple(o.zone))
}

/// Whether a barrier lies along an axis.
pub open spec fn axis_aligned(b: Barrier) -> bool {
    b.x1 == b.x2 || b.y1 == b.y2
}

/// The barrier that a description spells out, if it does.
pub open spec fn described(d: Seq<(Seq<char>, ValueView)>) -> Option<Barrier> {
    match (number_of(d, "barrier_id"@), line_of(d, "position"@)) {
        (Some(id), Some((x1, y1, x2, y2))) => Some(Barrier { id, x1, y1, x2, y2 }),
        _ => None,
    }
}

/// The barrier to watch for a description: a whole one, along an axis, with a
/// number other than zero, and made for the current zones.
pub open spec fn accepted(d: Seq<(Seq<char>, ValueView)>, stale: bool) -> Option<Barrier> {
    match described(d) {
        Some(b) => if !stale && b.id != 0 && axis_aligned(b) {
            Some(b)
        } else {
            None
        },
        None => None,
    }
}

/// The number under which a description is turned down: its own, where it has
/// one and is not accepted.
pub open spec fn failed(d: Seq<(Seq<char>, ValueView)>, stale: bool) -> Option<u32> {
    if accepted(d, stale) is Some {
        None
    } else {
        number_of(d, "barrier_id"@)
    }
}

/// A list with one more element, if there is one more.
pub open spec fn with_one<T>(list: Seq<T>, one: Option<T>) -> Seq<T> {
    match one {
        Some(x) => list.push(x),
        None => list,
    }
}

/// The barriers to watch, in the order of their descriptions.
pub open spec fn all_accepted(list: Seq<Seq<(Seq<char>, ValueView)>>, stale: bool) -> Seq<Barrier>
    decreases list.len(),
{
    if list.len() == 0 {
        Seq::empty()
    } else {
        with_one(all_accepted(list.drop_last(), stale), accepted(list.last(), stale))
    }
}

/// The numbers turned down, in the order of their descriptions.
pub open spec fn all_failed(list: Seq<Seq<(Seq<char>, ValueView)>>, stale: bool) -> Seq<u32>
    decreases list.len(),
{
    if list.len() == 0 {
        Seq::empty()
    } else {
        with_one(all_failed(list.drop_last(), stale), failed(list.last(), stale))
    }
}

/// Some dictionaries, seen from outside.
pub open spec fn dicts(list: Seq<Dict>) -> Seq<Seq<(Seq<char>, ValueView)>> {
    list.map_values(|d: Dict| entries(d@))
}

impl<F> StateView<F> {
    /// The state once a session is made with these zones.
    pub open spec fn created(
        self,
        handle: Seq<char>,
        app_id: Seq<char>,
        capabilities: u32,
        started: bool,
        zones: Seq<OutputZone>,
    ) -> StateView<F> {
        let session = fresh(handle, app_id, capabilities, started, self.next_zone_set, zones);
        StateView { next_zone_set: counted(self.next_zone_set), ..self.registered(session) }
    }

    /// Whether `Start` goes through.
    pub open spec fn can_start(self, handle: Seq<char>, options: Seq<(Seq<char>, ValueView)>) -> bool {
        grant(requested(options)) != 0 && self.knows(handle) && !self.at(handle).started
    }

    /// Whether some outputs differ in their zones from those a session knows.
    pub open spec fn moved(self, handle: Seq<char>, outputs: Seq<OutputZone>) -> bool {
        zones_of(self.at(handle).zones) != zones_of(outputs)
    }

    /// The state once a session learns of the outputs. A changed layout
    /// invalidates existing barriers, and the zone set moves with it.
    pub open spec fn rezoned(self, handle: Seq<char>, outputs: Seq<OutputZone>) -> StateView<F> {
        let s = self.at(handle);
        if self.moved(handle, outputs) {
            StateView {
                next_zone_set: counted(self.next_zone_set),
                ..self.with(
                    handle,
                    SessionView {
                        zone_set: self.next_zone_set,
                        barriers: Seq::empty(),
                        zones: outputs,
                        ..s
                    },
                )
            }
        } else {
            self.with(handle, SessionView { zones: outputs, ..s })
        }
    }

    /// Whether `Enable` goes through.
    pub open spec fn can_enable(self, handle: Seq<char>) -> bool {
        self.knows(handle) && self.at(handle).started && self.at(handle).eis is Some
    }

    /// What `Release` asks for. The pointer is unlocked first, and the barriers
    /// are rebuilt behind it, so that the pointer is back under local control
    /// before an edge can trigger again.
    pub open spec fn release_effects(
        self,
        handle: Seq<char>,
        cursor: Option<(Coord, Coord)>,
    ) -> Seq<EffectView> {
        let s = self.at(handle);
        to_eis(s.eis, EisCommand::StopEmulating) + seq![
            EffectView::Wayland(CmdView::EndCapture { cursor_hint: cursor }),
        ] + if s.enabled {
            seq![EffectView::Wayland(CmdView::Arm(s.barriers))]
        } else {
            Seq::empty()
        }
    }

    /// Replacing a session by another under the same handle keeps the state in
    /// order.
    pub proof fn with_keeps(self, handle: Seq<char>, session: SessionView)
        requires
            self.wf(),
            self.knows(handle),
            session.handle == handle,
        ensures
            self.with(handle, session).wf(),
            self.with(handle, session).knows(handle),
            self.with(handle, session).at(handle) == session,
    {
        position_finds(self.sessions, handle);
        let next = self.with(handle, session).sessions;
        position_finds(next, handle);
        assert(next[position(self.sessions, handle).unwrap()] == session);
    }

    /// Registering a session keeps the state in order.
    pub proof fn registering_keeps(self, session: SessionView)
        requires
            self.wf(),
        ensures
            self.registered(session).wf(),
            self.registered(session).knows(session.handle),
            self.registered(session).at(session.handle) == session,
    {
        position_finds(self.sessions, session.handle);
        let next = self.registered(session).sessions;
        position_finds(next, session.handle);
        match position(self.sessions, session.handle) {
            Some(i) => assert(next[i] == session),
            None => assert(next[next.len() - 1] == session),
        }
    }

    /// Forgetting a session keeps the state in order, and the handle is free.
    pub proof fn removing_keeps(self, handle: Seq<char>)
        requires
            self.wf(),
        ensures
            self.without(handle).wf(),
            !self.without(handle).knows(handle),
    {
        position_finds(self.sessions, handle);
        position_finds(self.without(handle).sessions, handle);
    }
}

impl InputCapture {
    /// Bitmask of what this backend can capture. It is constant, not
    /// the currently-available set.
    pub fn supported_capabilities() -> (r: u32)
        ensures
            r == CAP_KEYBOARD | CAP_POINTER,
    {
        CAP_KEYBOARD | CAP_POINTER
    }

    /// Version 2 is what makes clipboard sharing reachable: xdg-desktop-portal
    /// only offers the Clipboard interface to an InputCapture session from 1.21.1
    /// onwards, and only through the v2 handshake. A 1.20 frontend ignores the
    /// v2 members and keeps using CreateSession, so this stays backwards
    /// compatible.
    pub fn version() -> (r: u32)
        ensures
            r == 2,
    {
        2
    }

    /// Register a session.
    ///
    /// Shared by both entry points; they differ only in whether the session
    /// arrives already started and with capabilities settled.
    pub fn create<F>(
        state: &mut State<F>,
        session_handle: &String,
        app_id: &String,
        capabilities: u32,
        started: bool,
        zones: Vec<OutputZone>,
    ) -> (r: Vec<Effect>)
        requires
            old(state)@.wf(),
        ensures
            final(state)@ == old(state)@.created(
                session_handle@,
                app_id@,
                capabilities,
                started,
                zones@,
            ),
            effects(r@) == old(state)@.dropped(session_handle@),
            final(state)@.wf(),
    {
        let zone_set: u32 = state.take_zone_set();
        let session = Session {
            handle: session_handle.clone(),
            app_id: app_id.clone(),
            capabilities,
            zone_set,
            zones,
            barriers: Vec::new(),
            eis: None,
            started,
            enabled: false,
            activation_id: 0,
            clipboard_requested: false,
        };
        proof {
            old(state)@.registering_keeps(session@);
        }
        state.register(session)
    }

    /// The session object could not be exported, so the session goes again.
    pub fn export_failed<F>(state: &mut State<F>, session_handle: &String) -> (r: Vec<Effect>)
        requires
            old(state)@.wf(),
        ensures
            final(state)@ == old(state)@.without(session_handle@),
            effects(r@) == old(state)@.dropped(session_handle@),
            final(state)@.wf(),
    {
        proof {
            old(state)@.removing_keeps(session_handle@);
        }
        state.remove(session_handle)
    }

    /// The deprecated v1 entry point. The session it makes is already started.
    pub fn create_session(options: &Dict) -> (r: CreateStep)
        ensures
            match r {
                CreateStep::Refuse(reply) => grant(requested(entries(options@))) == 0 && reply@
                    == refused(),
                CreateStep::Register { capabilities } => capabilities == grant(
                    requested(entries(options@)),
                ) && capabilities != 0,
            },
    {
        let granted: u32 = requested_capabilities(options) & (CAP_KEYBOARD | CAP_POINTER);
        if granted == 0 {
            CreateStep::Refuse(Reply::refuse())
        } else {
            CreateStep::Register { capabilities: granted }
        }
    }

    /// What `CreateSession` answers once the session is exported, or is not.
    pub fn session_created(session_handle: &String, capabilities: u32, exported: bool) -> (r: Reply)
        ensures
            r@ == if exported {
                granted(
                    seq![
                        ("session_id"@, ValueView::Text(session_handle@)),
                        ("capabilities"@, ValueView::U32(capabilities)),
                    ],
                )
            } else {
                refused()
            },
    {
        if !exported {
            return Reply::refuse();
        }
        let mut results = empty();
        insert(&mut results, "session_id", DictValue::Text(session_handle.clone()));
        proof {
            reveal_strlit("session_id");
            reveal_strlit("capabilities");
            assert("session_id"@.len() < "capabilities"@.len());
            a_new_name_goes_last(entries(results@), "capabilities"@, ValueView::U32(capabilities));
        }
        insert(&mut results, "capabilities", DictValue::U32(capabilities));
        assert(entries(results@) =~= seq![
            ("session_id"@, ValueView::Text(session_handle@)),
            ("capabilities"@, ValueView::U32(capabilities)),
        ]);
        Reply::success(results)
    }

    /// What `CreateSession2` answers where no session came of it. That method has
    /// no response code, so a failure has to be a D-Bus error.
    pub fn create_session2_failed(failure: CreateFailure) -> (r: Fault)
        ensures
            r@ == FaultView::Failed(
                match failure {
                    CreateFailure::Outputs(err) => "cannot enumerate niri outputs: "@ + err@,
                    CreateFailure::Export(err) => "failed to export session object: "@ + err@,
                },
            ),
    {
        match failure {
            CreateFailure::Outputs(err) => {
                let mut text = "cannot enumerate niri outputs: ".to_owned();
                text.append(err.as_str());
                Fault::Failed(text)
            },
            CreateFailure::Export(err) => {
                let mut text = "failed to export session object: ".to_owned();
                text.append(err.as_str());
                Fault::Failed(text)
            },
        }
    }

    /// Negotiate capabilities and start a session made by `CreateSession2`.
    ///
    /// Persistence is deliberately not offered: `restore_data` is omitted, so a
    /// client asking for persist_mode gets a fresh prompt-free session each time
    /// rather than a token that would restore nothing.
    pub fn start<F>(state: &mut State<F>, session_handle: &String, options: &Dict) -> (r: Reply)
        requires
            old(state)@.wf(),
        ensures
            ({
                let before = old(state)@;
                let asked = entries(options@);
                if before.can_start(session_handle@, asked) {
                    let s = before.at(session_handle@);
                    &&& final(state)@ == before.with(
                        session_handle@,
                        SessionView { capabilities: grant(requested(asked)), started: true, ..s },
                    )
                    &&& r@ == granted(
                        seq![
                            ("capabilities"@, ValueView::U32(grant(requested(asked)))),
                            ("clipboard_enabled"@, ValueView::Bool(s.clipboard_requested)),
                        ],
                    )
                } else {
                    &&& final(state)@ == before
                    &&& r@ == refused()
                }
            }),
            r.response == 0 ==> {
                let s = final(state)@.at(session_handle@);
                &&& s.started
                &&& s.capabilities == requested(entries(options@)) & 3
                &&& s.capabilities != 0
                &&& value_of(r@.results, "capabilities"@) == Some(ValueView::U32(s.capabilities))
                &&& value_of(r@.results, "clipboard_enabled"@) == Some(
                    ValueView::Bool(s.clipboard_requested),
                )
            },
            r.response == 0 || r.response == 2,
            final(state)@.wf(),
    {
        proof {
            let n = requested(entries(options@));
            assert(n & (1u32 | 2u32) == n & 3) by (bit_vector);
        }
        let granted: u32 = requested_capabilities(options) & (CAP_KEYBOARD | CAP_POINTER);
        if granted == 0 {
            return Reply::refuse();
        }
        let clipboard_enabled = match state.find(session_handle) {
            Some(i) => {
                if state.sessions[i].started {
                    return Reply::refuse();
                }
                state.sessions[i].capabilities = granted;
                state.sessions[i].started = true;
                proof {
                    let s = old(state)@.at(session_handle@);
                    let next = SessionView { capabilities: granted, started: true, ..s };
                    assert(sessions(state.sessions@) =~= old(state)@.with(
                        session_handle@,
                        next,
                    ).sessions);
                    old(state)@.with_keeps(session_handle@, next);
                }
                state.sessions[i].clipboard_requested
            },
            None => {
                return Reply::refuse();
            },
        };
        let mut results = empty();
        insert(&mut results, "capabilities", DictValue::U32(granted));
        proof {
            reveal_strlit("capabilities");
            reveal_strlit("clipboard_enabled");
            assert("capabilities"@.len() < "clipboard_enabled"@.len());
            a_new_name_goes_last(
                entries(results@),
                "clipboard_enabled"@,
                ValueView::Bool(clipboard_enabled),
            );
        }
        insert(&mut results, "clipboard_enabled", DictValue::Bool(clipboard_enabled));
        assert(entries(results@) =~= seq![
            ("capabilities"@, ValueView::U32(granted)),
            ("clipboard_enabled"@, ValueView::Bool(clipboard_enabled)),
        ]);
        proof {
            reveal_with_fuel(value_of, 3);
        }
        Reply::success(results)
    }

    /// Tell a session its zones.
    ///
    /// The outputs are those that were just enumerated, if they could be, rather
    /// than the snapshot of the session: outputs may have changed since
    /// CreateSession, and the client calls this after ZonesChanged.
    pub fn get_zones<F>(
        state: &mut State<F>,
        session_handle: &String,
        outputs: Option<Vec<OutputZone>>,
    ) -> (r: Reply)
        requires
            old(state)@.wf(),
        ensures
            match outputs {
                Some(outputs) if old(state)@.knows(session_handle@) => {
                    &&& final(state)@ == old(state)@.rezoned(session_handle@, outputs@)
                    &&& r@ == granted(
                        seq![
                            ("zones"@, ValueView::Zones(tuples_of(outputs@))),
                            (
                                "zone_set"@,
                                ValueView::U32(final(state)@.at(session_handle@).zone_set),
                            ),
                        ],
                    )
                },
                _ => {
                    &&& final(state)@ == old(state)@
                    &&& r@ == refused()
                },
            },
            outputs matches Some(all) ==> (old(state)@.knows(session_handle@) ==> {
                &&& r.response == 0
                &&& value_of(r@.results, "zones"@) matches Some(ValueView::Zones(list)) && {
                    &&& list.len() == all@.len()
                    &&& forall|i: int| #![trigger list[i]]
                        0 <= i < list.len() ==> {
                            &&& list[i].width == all@[i].zone.width
                            &&& list[i].height == all@[i].zone.height
                            &&& list[i].x == all@[i].zone.x
                            &&& list[i].y == all@[i].zone.y
                        }
                }
                &&& value_of(r@.results, "zone_set"@) == Some(
                    ValueView::U32(final(state)@.at(session_handle@).zone_set),
                )
                &&& final(state)@.at(session_handle@).zones == all@
            }),
            outputs is None || !old(state)@.knows(session_handle@) ==> r.response == 2,
            final(state)@.wf(),
    {
        let outputs = match outputs {
            Some(outputs) => outputs,
            None => {
                return Reply::refuse();
            },
        };
        let i: usize = match state.find(session_handle) {
            Some(i) => i,
            None => {
                return Reply::refuse();
            },
        };
        let ghost before = state@;
        if !same_layout(&state.sessions[i].zones, &outputs) {
            let zone_set: u32 = state.take_zone_set();
            state.sessions[i].zone_set = zone_set;
            state.sessions[i].barriers.clear();
        }
        let tuples = wire_zones(&outputs);
        state.sessions[i].zones = outputs;
        proof {
            let next = before.rezoned(session_handle@, outputs@);
            assert(sessions(state.sessions@) =~= next.sessions);
            before.with_keeps(session_handle@, next.sessions[i as int]);
            assert(next.sessions =~= before.with(
                session_handle@,
                next.sessions[i as int],
            ).sessions);
        }
        let zone_set: u32 = state.sessions[i].zone_set;
        let mut results = empty();
        insert(&mut results, "zones", DictValue::Zones(tuples));
        proof {
            reveal_strlit("zones");
            reveal_strlit("zone_set");
            assert("zones"@.len() < "zone_set"@.len());
            a_new_name_goes_last(entries(results@), "zone_set"@, ValueView::U32(zone_set));
        }
        insert(&mut results, "zone_set", DictValue::U32(zone_set));
        assert(entries(results@) =~= seq![
            ("zones"@, ValueView::Zones(tuples_of(outputs@))),
            ("zone_set"@, ValueView::U32(zone_set)),
        ]);
        proof {
            reveal_with_fuel(value_of, 3);
        }
        Reply::success(results)
    }

    /// Take the barriers a session wants watched, and say which were turned down.
    ///
    /// A stale zone set means the client is describing a layout we no longer
    /// have: every barrier is rejected so that it reads the zones again first, and
    /// those it set before stay.
    pub fn set_pointer_barriers<F>(
        state: &mut State<F>,
        session_handle: &String,
        barriers: &Vec<Dict>,
        zone_set: u32,
    ) -> (r: Reply)
        requires
            old(state)@.wf(),
        ensures
            ({
                let before = old(state)@;
                if before.knows(session_handle@) {
                    let s = before.at(session_handle@);
                    let stale = zone_set != s.zone_set;
                    &&& final(state)@ == if stale {
                        before
                    } else {
                        before.with(
                            session_handle@,
                            SessionView {
                                barriers: all_accepted(dicts(barriers@), false),
                                ..s
                            },
                        )
                    }
                    &&& r@ == granted(
                        seq![
                            (
                                "failed_barriers"@,
                                ValueView::Numbers(all_failed(dicts(barriers@), stale)),
                            ),
                        ],
                    )
                } else {
                    &&& final(state)@ == before
                    &&& r@ == refused()
                }
            }),
            r.response == 0 <==> old(state)@.knows(session_handle@),
            r.response == 0 ==> {
                let (s, t) = (old(state)@.at(session_handle@), final(state)@.at(session_handle@));
                &&& zone_set == s.zone_set ==> t.barriers == all_accepted(dicts(barriers@), false)
                &&& zone_set != s.zone_set ==> t.barriers == s.barriers
                &&& t.zone_set == s.zone_set
                &&& t.enabled == s.enabled
            },
            final(state)@.wf(),
    {
        let i: usize = match state.find(session_handle) {
            Some(i) => i,
            None => {
                return Reply::refuse();
            },
        };
        let stale = zone_set != state.sessions[i].zone_set;
        let (accepted, failed) = sort_out(barriers, stale);
        if !stale {
            state.sessions[i].barriers = accepted;
            proof {
                let s = old(state)@.at(session_handle@);
                let next = SessionView { barriers: all_accepted(dicts(barriers@), false), ..s };
                assert(sessions(state.sessions@) =~= old(state)@.with(
                    session_handle@,
                    next,
                ).sessions);
                old(state)@.with_keeps(session_handle@, next);
            }
        }
        let mut results = empty();
        insert(&mut results, "failed_barriers", DictValue::Numbers(failed));
        assert(entries(results@) =~= seq![
            ("failed_barriers"@, ValueView::Numbers(all_failed(dicts(barriers@), stale))),
        ]);
        Reply::success(results)
    }

    /// Whether a session may have an EIS connection set up for it. It may not if
    /// it has one.
    pub fn connect_to_eis<F>(state: &State<F>, session_handle: &String) -> (r: Result<(), Fault>)
        ensures
            match r {
                Ok(_) => state@.knows(session_handle@) && state@.at(session_handle@).eis is None,
                Err(fault) => if !state@.knows(session_handle@) {
                    fault@ == FaultView::InvalidArgs("unknown session"@)
                } else {
                    &&& state@.at(session_handle@).eis is Some
                    &&& fault@ == FaultView::Failed(
                        "EIS connection already established for this session"@,
                    )
                },
            },
    {
        match state.find(session_handle) {
            Some(i) => {
                if state.sessions[i].eis.is_some() {
                    Err(
                        Fault::Failed(
                            "EIS connection already established for this session".to_owned(),
                        ),
                    )
                } else {
                    Ok(())
                }
            },
            None => Err(Fault::InvalidArgs("unknown session".to_owned())),
        }
    }

    /// Give a session the connection that was set up for it, if one was.
    pub fn eis_set_up<F>(state: &mut State<F>, session_handle: &String, setup: EisSetup) -> (r: Result<
        (),
        Fault,
    >)
        requires
            old(state)@.wf(),
        ensures
            match setup {
                EisSetup::Connected(eis) if old(state)@.knows(session_handle@) => {
                    &&& final(state)@ == old(state)@.with(
                        session_handle@,
                        SessionView { eis: Some(eis), ..old(state)@.at(session_handle@) },
                    )
                    &&& r is Ok
                },
                _ => {
                    &&& final(state)@ == old(state)@
                    &&& r matches Err(fault) && fault@ == match setup {
                        EisSetup::Connected(_) => FaultView::InvalidArgs("unknown session"@),
                        EisSetup::NoSocket(err) => FaultView::Failed("socketpair failed: "@ + err@),
                        EisSetup::NoServer(err) => FaultView::Failed("EIS setup failed: "@ + err@),
                    }
                },
            },
            r is Ok <==> setup is Connected && old(state)@.knows(session_handle@),
            r is Ok ==> (setup matches EisSetup::Connected(eis) && final(state)@.at(
                session_handle@,
            ).eis == Some(eis)),
            final(state)@.wf(),
    {
        match setup {
            EisSetup::Connected(eis) => match state.find(session_handle) {
                Some(i) => {
                    state.sessions[i].eis = Some(eis);
                    proof {
                        let s = old(state)@.at(session_handle@);
                        let next = SessionView { eis: Some(eis), ..s };
                        assert(sessions(state.sessions@) =~= old(state)@.with(
                            session_handle@,
                            next,
                        ).sessions);
                        old(state)@.with_keeps(session_handle@, next);
                    }
                    Ok(())
                },
                None => Err(Fault::InvalidArgs("unknown session".to_owned())),
            },
            EisSetup::NoSocket(err) => {
                let mut text = "socketpair failed: ".to_owned();
                text.append(err.as_str());
                Err(Fault::Failed(text))
            },
            EisSetup::NoServer(err) => {
                let mut text = "EIS setup failed: ".to_owned();
                text.append(err.as_str());
                Err(Fault::Failed(text))
            },
        }
    }

    /// Arm a session's barriers.
    ///
    /// A v2 session has no negotiated capabilities until `Start`, so arming
    /// barriers before would capture on behalf of a session that was never granted
    /// anything; and a session without an EIS connection has nowhere for input to
    /// go. Neither is enabled.
    pub fn enable<F>(state: &mut State<F>, session_handle: &String) -> (r: (Reply, Vec<Effect>))
        requires
            old(state)@.wf(),
        ensures
            ({
                let before = old(state)@;
                if before.can_enable(session_handle@) {
                    let s = before.at(session_handle@);
                    &&& final(state)@ == before.with(
                        session_handle@,
                        SessionView { enabled: true, ..s },
                    )
                    &&& r.0@ == granted(Seq::empty())
                    &&& effects(r.1@) == seq![EffectView::Wayland(CmdView::Arm(s.barriers))]
                } else {
                    &&& final(state)@ == before
                    &&& r.0@ == refused()
                    &&& effects(r.1@) == Seq::<EffectView>::empty()
                }
            }),
            r.0.response == 0 ==> {
                let s = final(state)@.at(session_handle@);
                &&& s.enabled
                &&& s.started
                &&& s.eis is Some
                &&& r.1@.len() == 1
                &&& r.1@[0] matches Effect::Wayland(WaylandCmd::Arm(armed)) && armed@ == s.barriers
            },
            r.0.response != 0 ==> r.0.response == 2 && r.1@.len() == 0,
            final(state)@.wf(),
    {
        let mut todo: Vec<Effect> = Vec::new();
        assert(effects(todo@) =~= Seq::empty());
        let i: usize = match state.find(session_handle) {
            Some(i) => i,
            None => {
                return (Reply::refuse(), todo);
            },
        };
        if !state.sessions[i].started {
            return (Reply::refuse(), todo);
        }
        if state.sessions[i].eis.is_none() {
            return (Reply::refuse(), todo);
        }
        state.sessions[i].enabled = true;
        let barriers = state.sessions[i].barriers.clone();
        todo.push(Effect::Wayland(WaylandCmd::Arm(barriers)));
        proof {
            let s = old(state)@.at(session_handle@);
            let next = SessionView { enabled: true, ..s };
            assert(barriers@ =~= s.barriers);
            assert(effects(todo@) =~= seq![EffectView::Wayland(CmdView::Arm(s.barriers))]);
            assert(sessions(state.sessions@) =~= old(state)@.with(session_handle@, next).sessions);
            old(state)@.with_keeps(session_handle@, next);
        }
        (Reply::success(empty()), todo)
    }

    /// Stop watching a session's barriers.
    ///
    /// This frees the screen edges; leaving the surfaces up would keep swallowing
    /// clicks on the edge pixel column for no reason.
    pub fn disable<F>(state: &mut State<F>, session_handle: &String) -> (r: (Reply, Vec<Effect>))
        requires
            old(state)@.wf(),
        ensures
            ({
                let before = old(state)@;
                if before.knows(session_handle@) {
                    let s = before.at(session_handle@);
                    &&& final(state)@ == before.with(
                        session_handle@,
                        SessionView { enabled: false, activation_id: 0, ..s },
                    )
                    &&& r.0@ == granted(Seq::empty())
                    &&& effects(r.1@) == seq![EffectView::Wayland(CmdView::Disarm)]
                } else {
                    &&& final(state)@ == before
                    &&& r.0@ == refused()
                    &&& effects(r.1@) == Seq::<EffectView>::empty()
                }
            }),
            r.0.response == 0 ==> {
                let s = final(state)@.at(session_handle@);
                &&& !s.enabled
                &&& s.activation_id == 0
                &&& r.1@.len() == 1
                &&& r.1@[0] is Wayland
                &&& r.1@[0]->Wayland_0 is Disarm
            },
            final(state)@.wf(),
    {
        let mut todo: Vec<Effect> = Vec::new();
        assert(effects(todo@) =~= Seq::empty());
        let i: usize = match state.find(session_handle) {
            Some(i) => i,
            None => {
                return (Reply::refuse(), todo);
            },
        };
        state.sessions[i].enabled = false;
        state.sessions[i].activation_id = 0;
        todo.push(Effect::Wayland(WaylandCmd::Disarm));
        proof {
            let s = old(state)@.at(session_handle@);
            let next = SessionView { enabled: false, activation_id: 0, ..s };
            assert(effects(todo@) =~= seq![EffectView::Wayland(CmdView::Disarm)]);
            assert(sessions(state.sessions@) =~= old(state)@.with(session_handle@, next).sessions);
            old(state)@.with_keeps(session_handle@, next);
        }
        (Reply::success(empty()), todo)
    }

    /// End a session's capture run, leaving the cursor where the client says.
    pub fn release<F>(state: &mut State<F>, session_handle: &String, options: &Dict) -> (r: (
        Reply,
        Vec<Effect>,
    ))
        requires
            old(state)@.wf(),
        ensures
            ({
                let before = old(state)@;
                if before.knows(session_handle@) {
                    &&& final(state)@ == before.with(
                        session_handle@,
                        before.at(session_handle@).idle(),
                    )
                    &&& r.0@ == granted(Seq::empty())
                    &&& effects(r.1@) == before.release_effects(
                        session_handle@,
                        point_of(entries(options@), "cursor_position"@),
                    )
                } else {
                    &&& final(state)@ == before
                    &&& r.0@ == refused()
                    &&& effects(r.1@) == Seq::<EffectView>::empty()
                }
            }),
            r.0.response == 0 ==> {
                let s = final(state)@.at(session_handle@);
                &&& old(state)@.knows(session_handle@)
                &&& s.activation_id == 0
                &&& s.enabled == old(state)@.at(session_handle@).enabled
                &&& s.barriers == old(state)@.at(session_handle@).barriers
            },
            r.0.response != 0 ==> r.0.response == 2 && r.1@.len() == 0,
            final(state)@.wf(),
    {
        let cursor = get_point(options, "cursor_position");
        let mut todo: Vec<Effect> = Vec::new();
        assert(effects(todo@) =~= Seq::empty());
        let i: usize = match state.find(session_handle) {
            Some(i) => i,
            None => {
                return (Reply::refuse(), todo);
            },
        };
        if let Some(eis) = state.sessions[i].eis {
            todo.push(Effect::Eis { to: eis, cmd: EisCommand::StopEmulating });
        }
        state.sessions[i].activation_id = 0;
        todo.push(Effect::Wayland(WaylandCmd::EndCapture { cursor_hint: cursor }));
        if state.sessions[i].enabled {
            let barriers = state.sessions[i].barriers.clone();
            assert(barriers@ =~= state.sessions@[i as int].barriers@);
            todo.push(Effect::Wayland(WaylandCmd::Arm(barriers)));
        }
        proof {
            let next = old(state)@.at(session_handle@).idle();
            assert(sessions(state.sessions@) =~= old(state)@.with(session_handle@, next).sessions);
            old(state)@.with_keeps(session_handle@, next);
        }
        (Reply::success(empty()), todo)
    }
}

/// Whether two lists of outputs have the same zones in the same order.
fn same_layout(a: &Vec<OutputZone>, b: &Vec<OutputZone>) -> (r: bool)
    ensures
        r == (zones_of(a@) == zones_of(b@)),
{
    if a.len() != b.len() {
        assert(zones_of(a@).len() != zones_of(b@).len());
        return false;
    }
    let mut i: usize = 0;
    while i < a.len()
        invariant
            i <= a.len(),
            a.len() == b.len(),
            forall|j: int| 0 <= j < i ==> (#[trigger] a@[j]).zone == b@[j].zone,
        decreases a.len() - i,
    {
        if a[i].zone != b[i].zone {
            assert(zones_of(a@)[i as int] != zones_of(b@)[i as int]);
            return false;
        }
        i += 1;
    }
    assert(zones_of(a@) =~= zones_of(b@));
    true
}

/// The zones of some outputs, as the wire wants them.
fn wire_zones(outputs: &Vec<OutputZone>) -> (r: Vec<ZoneTuple>)
    ensures
        r@ == tuples_of(outputs@),
{
    let mut r: Vec<ZoneTuple> = Vec::new();
    let mut i: usize = 0;
    while i < outputs.len()
        invariant
            i <= outputs.len(),
            r@ == tuples_of(outputs@).take(i as int),
        decreases outputs.len() - i,
    {
        r.push(ZoneTuple::from(outputs[i].zone));
        assert(tuples_of(outputs@).take(i + 1) =~= tuples_of(outputs@).take(i as int).push(
            tuples_of(outputs@)[i as int],
        ));
        i += 1;
    }
    assert(tuples_of(outputs@).take(i as int) =~= tuples_of(outputs@));
    r
}

/// Split descriptions into the barriers to watch and the numbers turned down. A
/// description without a number is passed over.
fn sort_out(barriers: &Vec<Dict>, stale: bool) -> (r: (Vec<Barrier>, Vec<u32>))
    ensures
        r.0@ == all_accepted(dicts(barriers@), stale),
        r.1@ == all_failed(dicts(barriers@), stale),
{
    let mut accepted: Vec<Barrier> = Vec::new();
    let mut failed: Vec<u32> = Vec::new();
    let ghost all = dicts(barriers@);
    let mut i: usize = 0;
    assert(all.take(0) =~= Seq::empty());
    while i < barriers.len()
        invariant
            i <= barriers.len(),
            all == dicts(barriers@),
            accepted@ == all_accepted(all.take(i as int), stale),
            failed@ == all_failed(all.take(i as int), stale),
        decreases barriers.len() - i,
    {
        proof {
            assert(all.take(i + 1).drop_last() =~= all.take(i as int));
            assert(all.take(i + 1).last() == entries(barriers@[i as int]@));
        }
        let id = get_number(&barriers[i], "barrier_id");
        let position = get_line(&barriers[i], "position");
        match (id, position) {
            (Some(id), Some((x1, y1, x2, y2))) => {
                let barrier = Barrier { id, x1, y1, x2, y2 };
                // Only axis-aligned barriers can be watched.
                if stale || id == 0 || (!barrier.is_vertical() && !barrier.is_horizontal()) {
                    failed.push(id);
                } else {
                    accepted.push(barrier);
                }
            },
            (Some(id), None) => {
                failed.push(id);
            },
            _ => {},
        }
        i += 1;
    }
    assert(all.take(i as int) =~= all);
    (accepted, failed)
}

} // verus!
