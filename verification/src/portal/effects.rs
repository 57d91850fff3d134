//! What the portal side asks of the world around it: commands for the Wayland
//! thread and the EIS connections, signals on the bus, and answers to calls.

use crate::coord::Coord;
use crate::eis_server::{EisCommand, EisHandle};
use crate::portal::dict::{
    a_new_name_goes_last, empty, entries, insert, Dict, DictValue, ValueView,
};
use crate::text::texts;
use crate::wayland::{CmdView, WaylandCmd};
use vstd::prelude::*;

verus! {

/// The call did what it was asked to.
pub const RESPONSE_SUCCESS: u32 = 0;

/// The call ended some other way.
pub const RESPONSE_OTHER: u32 = 2;

/// A signal to emit for a session.
#[derive(Debug)]
pub enum Signal {
    /// A capture run began.
    Activated { session: String, activation_id: u32, barrier_id: u32, cursor: (Coord, Coord) },
    /// A capture run ended.
    Deactivated { session: String, activation_id: u32, cursor: Option<(Coord, Coord)> },
    /// The session's zones are stale.
    ZonesChanged { session: String },
    /// Something else is on the clipboard.
    SelectionOwnerChanged { session: String, mime_types: Vec<String>, session_is_owner: bool },
    /// An application is waiting for the session's clipboard content.
    SelectionTransfer { session: String, mime_type: String, serial: u32 },
}

/// A signal, seen from outside.
pub enum SignalView {
    Activated { session: Seq<char>, activation_id: u32, barrier_id: u32, cursor: (Coord, Coord) },
    Deactivated { session: Seq<char>, activation_id: u32, cursor: Option<(Coord, Coord)> },
    ZonesChanged { session: Seq<char> },
    SelectionOwnerChanged {
        session: Seq<char>,
        mime_types: Seq<Seq<char>>,
        session_is_owner: bool,
    },
    SelectionTransfer { session: Seq<char>, mime_type: Seq<char>, serial: u32 },
}

impl View for Signal {
    type V = SignalView;

    open spec fn view(&self) -> SignalView {
        match *self {
            Signal::Activated { session, activation_id, barrier_id, cursor } => {
                SignalView::Activated { session: session@, activation_id, barrier_id, cursor }
            },
            Signal::Deactivated { session, activation_id, cursor } => SignalView::Deactivated {
                session: session@,
                activation_id,
                cursor,
            },
            Signal::ZonesChanged { session } => SignalView::ZonesChanged { session: session@ },
            Signal::SelectionOwnerChanged { session, mime_types, session_is_owner } => {
                SignalView::SelectionOwnerChanged {
                    session: session@,
                    mime_types: texts(mime_types@),
                    session_is_owner,
                }
            },
            Signal::SelectionTransfer { session, mime_type, serial } => {
                SignalView::SelectionTransfer { session: session@, mime_type: mime_type@, serial }
            },
        }
    }
}

impl SignalView {
    /// The options that a signal carries.
    pub open spec fn options(self) -> Seq<(Seq<char>, ValueView)> {
        match self {
            SignalView::Activated { session, activation_id, barrier_id, cursor } => seq![
                ("activation_id"@, ValueView::U32(activation_id)),
                ("barrier_id"@, ValueView::U32(barrier_id)),
                ("cursor_position"@, ValueView::Point { x: cursor.0, y: cursor.1 }),
            ],
            SignalView::Deactivated { session, activation_id, cursor: Some(at) } => seq![
                ("activation_id"@, ValueView::U32(activation_id)),
                ("cursor_position"@, ValueView::Point { x: at.0, y: at.1 }),
            ],
            SignalView::Deactivated { session, activation_id, cursor: None } => seq![
                ("activation_id"@, ValueView::U32(activation_id)),
            ],
            SignalView::SelectionOwnerChanged { session, mime_types, session_is_owner } => seq![
                ("mime_types"@, ValueView::Texts(mime_types)),
                ("session_is_owner"@, ValueView::Bool(session_is_owner)),
            ],
            SignalView::ZonesChanged { session } => Seq::empty(),
            SignalView::SelectionTransfer { session, mime_type, serial } => Seq::empty(),
        }
    }
}

impl Signal {
    /// The options that go out with this signal.
    pub fn options(&self) -> (r: Dict)
        ensures
            entries(r@) == self@.options(),
    {
        let mut r = empty();
        proof {
            reveal_strlit("activation_id");
            reveal_strlit("barrier_id");
            reveal_strlit("cursor_position");
            reveal_strlit("mime_types");
            reveal_strlit("session_is_owner");
            assert("barrier_id"@.len() < "activation_id"@.len() < "cursor_position"@.len());
            assert("mime_types"@.len() < "session_is_owner"@.len());
        }
        match self {
            Signal::Activated { session, activation_id, barrier_id, cursor } => {
                insert(&mut r, "activation_id", DictValue::U32(*activation_id));
                proof {
                    a_new_name_goes_last(entries(r@), "barrier_id"@, ValueView::U32(*barrier_id));
                }
                insert(&mut r, "barrier_id", DictValue::U32(*barrier_id));
                proof {
                    let at = ValueView::Point { x: cursor.0, y: cursor.1 };
                    a_new_name_goes_last(entries(r@), "cursor_position"@, at);
                }
                insert(&mut r, "cursor_position", DictValue::Point { x: cursor.0, y: cursor.1 });
            },
            Signal::Deactivated { session, activation_id, cursor } => {
                insert(&mut r, "activation_id", DictValue::U32(*activation_id));
                if let Some(at) = cursor {
                    proof {
                        let at = ValueView::Point { x: at.0, y: at.1 };
                        a_new_name_goes_last(entries(r@), "cursor_position"@, at);
                    }
                    insert(&mut r, "cursor_position", DictValue::Point { x: at.0, y: at.1 });
                }
            },
            Signal::SelectionOwnerChanged { session, mime_types, session_is_owner } => {
                let copy = mime_types.clone();
                assert(copy@ =~= mime_types@);
                insert(&mut r, "mime_types", DictValue::Texts(copy));
                proof {
                    let owner = ValueView::Bool(*session_is_owner);
                    a_new_name_goes_last(entries(r@), "session_is_owner"@, owner);
                }
                insert(&mut r, "session_is_owner", DictValue::Bool(*session_is_owner));
            },
            Signal::ZonesChanged { session } => {},
            Signal::SelectionTransfer { session, mime_type, serial } => {},
        }
        assert(entries(r@) =~= self@.options());
        r
    }
}

/// One thing to do, in the order in which the list gives them.
#[derive(Debug)]
pub enum Effect {
    /// Send a command to the Wayland thread.
    Wayland(WaylandCmd),
    /// Send a command to an EIS connection.
    Eis { to: EisHandle, cmd: EisCommand },
    /// The session no longer holds on to its EIS connection.
    DropEis(EisHandle),
    /// Emit a signal.
    Signal(Signal),
}

/// An effect, seen from outside.
pub enum EffectView {
    Wayland(CmdView),
    Eis { to: EisHandle, cmd: EisCommand },
    DropEis(EisHandle),
    Signal(SignalView),
}

impl View for Effect {
    type V = EffectView;

    open spec fn view(&self) -> EffectView {
        match *self {
            Effect::Wayland(cmd) => EffectView::Wayland(cmd@),
            Effect::Eis { to, cmd } => EffectView::Eis { to, cmd },
            Effect::DropEis(eis) => EffectView::DropEis(eis),
            Effect::Signal(signal) => EffectView::Signal(signal@),
        }
    }
}

/// A list of effects, seen from outside.
pub open spec fn effects(list: Seq<Effect>) -> Seq<EffectView> {
    list.map_values(|e: Effect| e@)
}

/// The one effect, where there is a connection to have it.
pub open spec fn to_eis(eis: Option<EisHandle>, cmd: EisCommand) -> Seq<EffectView> {
    match eis {
        Some(to) => seq![EffectView::Eis { to, cmd }],
        None => Seq::empty(),
    }
}

/// What a portal call answers.
#[derive(Debug)]
pub struct Reply {
    pub response: u32,
    pub results: Dict,
}

/// An answer, seen from outside.
pub struct ReplyView {
    pub response: u32,
    pub results: Seq<(Seq<char>, ValueView)>,
}

impl View for Reply {
    type V = ReplyView;

    open spec fn view(&self) -> ReplyView {
        ReplyView { response: self.response, results: entries(self.results@) }
    }
}

/// The answer to a call that did not do what it was asked to.
pub open spec fn refused() -> ReplyView {
    ReplyView { response: RESPONSE_OTHER, results: Seq::empty() }
}

/// The answer to a call that succeeded and has this to tell.
pub open spec fn granted(results: Seq<(Seq<char>, ValueView)>) -> ReplyView {
    ReplyView { response: RESPONSE_SUCCESS, results }
}

impl Reply {
    /// Refuse a call.
    pub fn refuse() -> (r: Reply)
        ensures
            r@ == refused(),
    {
        Reply { response: RESPONSE_OTHER, results: empty() }
    }

    /// Answer a call.
    pub fn success(results: Dict) -> (r: Reply)
        ensures
            r@ == granted(entries(results@)),
    {
        Reply { response: RESPONSE_SUCCESS, results }
    }
}

/// A D-Bus error, for the calls that have no response code.
#[derive(Debug)]
pub enum Fault {
    AccessDenied(String),
    InvalidArgs(String),
    Failed(String),
}

/// An error, seen from outside.
pub enum FaultView {
    AccessDenied(Seq<char>),
    InvalidArgs(Seq<char>),
    Failed(Seq<char>),
}

impl View for Fault {
    type V = FaultView;

    open spec fn view(&self) -> FaultView {
        match *self {
            Fault::AccessDenied(text) => FaultView::AccessDenied(text@),
            Fault::InvalidArgs(text) => FaultView::InvalidArgs(text@),
            Fault::Failed(text) => FaultView::Failed(text@),
        }
    }
}

/// A signal is seen as it is, field by field.
pub proof fn a_signal_is_seen_as_it_is(s: Signal)
    ensures
        match s {
            Signal::Activated { session, activation_id, barrier_id, cursor } => s@ matches
                SignalView::Activated {
                session: a,
                activation_id: b,
                barrier_id: c,
                cursor: d,
            } && a == session@ && b == activation_id && c == barrier_id && d == cursor,
            Signal::Deactivated { session, activation_id, cursor } => s@ matches
                SignalView::Deactivated { session: a, activation_id: b, cursor: c } && a == session@
                && b == activation_id && c == cursor,
            Signal::ZonesChanged { session } => s@ matches SignalView::ZonesChanged { session: a }
                && a == session@,
            Signal::SelectionOwnerChanged { session, mime_types, session_is_owner } => s@ matches
                SignalView::SelectionOwnerChanged {
                session: a,
                mime_types: b,
                session_is_owner: c,
            } && a == session@ && b == texts(mime_types@) && c == session_is_owner,
            Signal::SelectionTransfer { session, mime_type, serial } => s@ matches
                SignalView::SelectionTransfer { session: a, mime_type: b, serial: c } && a
                == session@ && b == mime_type@ && c == serial,
        },
{
}

/// An effect is seen as it is, and a list of effects one by one and in order.
pub proof fn effects_are_seen_as_they_are(list: Seq<Effect>)
    ensures
        effects(list).len() == list.len(),
        forall|i: int| #![trigger effects(list)[i]]
            0 <= i < list.len() ==> match (list[i], effects(list)[i]) {
                (Effect::Wayland(cmd), EffectView::Wayland(seen)) => seen == cmd@,
                (Effect::Eis { to, cmd }, EffectView::Eis { to: a, cmd: b }) => a == to && b == cmd,
                (Effect::DropEis(eis), EffectView::DropEis(seen)) => seen == eis,
                (Effect::Signal(signal), EffectView::Signal(seen)) => seen == signal@,
                _ => false,
            },
{
}

/// An answer and an error are seen as they are.
pub proof fn answers_and_errors_are_seen_as_they_are(r: Reply, f: Fault)
    ensures
        r@.response == r.response,
        r@.results == entries(r.results@),
        match (f, f@) {
            (Fault::AccessDenied(text), FaultView::AccessDenied(seen)) => seen == text@,
            (Fault::InvalidArgs(text), FaultView::InvalidArgs(seen)) => seen == text@,
            (Fault::Failed(text), FaultView::Failed(seen)) => seen == text@,
            _ => false,
        },
{
}

} // verus!
