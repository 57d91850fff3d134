//! Out-of-band control, deliberately not on the portal interface.
//!
//! This exists because every in-band escape can fail: the keyboard is grabbed,
//! the pointer is locked, and the client that is supposed to call `Release` may
//! be the thing that is broken. A D-Bus call works over SSH from another
//! machine, which is the only channel guaranteed to still be reachable.

use crate::eis_server::EisCommand;
use crate::portal::clipboard::selection_effects;
use crate::portal::effects::{effects, to_eis, Effect, EffectView, Signal, SignalView};
use crate::portal::session::{
    handles, is_capturing, sessions, Session, SessionView, State, StateView,
};
use crate::text::{
    decimal, decimal_text, join, joined, lossy_utf8, text_from_utf8, texts, truth, truth_text,
};
use crate::wayland::{CmdView, WaylandCmd};
use vstd::prelude::*;
use vstd::utf8::{decode_utf8, valid_utf8};

verus! {

/// `io.github.niri_input_portal.Control`.
#[derive(Debug, Clone, Copy)]
pub struct Control;

/// What came of reading the clipboard.
#[derive(Debug)]
pub enum Pasted {
    /// Nothing offers the type.
    Nothing,
    Content(Vec<u8>),
    /// The pipe could not be read.
    ReadFailed(String),
    /// The task that was to read it did not come back.
    TaskFailed(String),
}

/// The stop that goes to each of some sessions that has a connection.
pub open spec fn stops(list: Seq<SessionView>) -> Seq<EffectView>
    decreases list.len(),
{
    if list.len() == 0 {
        Seq::empty()
    } else {
        stops(list.drop_last()) + to_eis(list.last().eis, EisCommand::StopEmulating)
    }
}

/// The end of a capture run, told to each of some sessions.
pub open spec fn farewells(list: Seq<SessionView>) -> Seq<EffectView> {
    list.map_values(
        |s: SessionView|
            EffectView::Signal(
                SignalView::Deactivated { session: s.handle, activation_id: 0, cursor: None },
            ),
    )
}

impl<F> StateView<F> {
    /// What a forced release asks for. The pointer is unlocked before the clients
    /// are told: the point is that the local pointer comes back regardless of what
    /// the client does.
    pub open spec fn force_effects(self) -> Seq<EffectView> {
        stops(self.active()) + seq![
            EffectView::Wayland(CmdView::EndCapture { cursor_hint: None }),
        ] + if self.connected {
            farewells(self.active())
        } else {
            Seq::empty()
        }
    }

    /// Ending every capture run keeps the state in order, and none is left.
    pub proof fn idling_keeps(self)
        requires
            self.wf(),
        ensures
            self.all_idle().wf(),
            forall|i: int|
                0 <= i < self.sessions.len() ==> !(#[trigger] self.all_idle().sessions[i]).capturing(),
    {
        let next = self.all_idle().sessions;
        assert forall|i: int, j: int| 0 <= i < j < next.len() implies (#[trigger] next[i]).handle != (
        #[trigger] next[j]).handle by {
            assert(self.sessions[i].handle != self.sessions[j].handle);
        }
    }
}

/// End every in-flight capture, returning the sessions that were active.
pub fn force_release_all<F>(state: &mut State<F>) -> (r: (Vec<String>, Vec<Effect>))
    requires
        old(state)@.wf(),
    ensures
        final(state)@ == old(state)@.all_idle(),
        texts(r.0@) == handles(old(state)@.active()),
        effects(r.1@) == old(state)@.force_effects(),
        final(state)@.wf(),
{
    let ghost all = state@.sessions;
    let mut active: Vec<String> = Vec::new();
    let mut todo: Vec<Effect> = Vec::new();
    let mut i: usize = 0;
    proof {
        reveal(Seq::filter);
        assert(all.take(0) =~= Seq::empty());
        assert(texts(active@) =~= handles(all.take(0).filter(is_capturing())));
        assert(effects(todo@) =~= stops(all.take(0).filter(is_capturing())));
    }
    while i < state.sessions.len()
        invariant
            i <= state.sessions@.len(),
            state.sessions@.len() == all.len(),
            forall|j: int| 0 <= j < i ==> #[trigger] state.sessions@[j]@ == all[j].idle(),
            forall|j: int| i <= j < all.len() ==> #[trigger] state.sessions@[j]@ == all[j],
            state@ == (StateView { sessions: sessions(state.sessions@), ..old(state)@ }),
            texts(active@) == handles(all.take(i as int).filter(is_capturing())),
            effects(todo@) == stops(all.take(i as int).filter(is_capturing())),
        decreases state.sessions@.len() - i,
    {
        let ghost so_far = all.take(i as int).filter(is_capturing());
        let ghost texts_before = texts(active@);
        let ghost todo_before = effects(todo@);
        proof {
            reveal(Seq::filter);
            assert(all.take(i + 1).drop_last() =~= all.take(i as int));
            assert(all.take(i + 1).last() == state.sessions@[i as int]@);
        }
        if state.sessions[i].activation_id != 0 {
            proof {
                assert(so_far.push(all[i as int]).drop_last() =~= so_far);
            }
            active.push(state.sessions[i].handle.clone());
            assert(texts(active@) =~= texts_before.push(all[i as int].handle));
            assert(handles(so_far.push(all[i as int])) =~= handles(so_far).push(
                all[i as int].handle,
            ));
            if let Some(eis) = state.sessions[i].eis {
                todo.push(Effect::Eis { to: eis, cmd: EisCommand::StopEmulating });
            }
            assert(effects(todo@) =~= todo_before + to_eis(
                all[i as int].eis,
                EisCommand::StopEmulating,
            ));
            state.sessions[i].activation_id = 0;
        }
        i += 1;
    }
    proof {
        assert(all.take(i as int) =~= all);
        assert(sessions(state.sessions@) =~= old(state)@.all_idle().sessions);
        old(state)@.idling_keeps();
    }
    todo.push(Effect::Wayland(WaylandCmd::EndCapture { cursor_hint: None }));
    let ghost unlocked = effects(todo@);
    assert(unlocked =~= stops(old(state)@.active()) + seq![
        EffectView::Wayland(CmdView::EndCapture { cursor_hint: None }),
    ]);
    if state.connected {
        let ghost told = farewells(old(state)@.active());
        assert(told.len() == handles(old(state)@.active()).len());
        let mut k: usize = 0;
        assert(unlocked + told.take(0) =~= unlocked);
        while k < active.len()
            invariant
                k <= active@.len(),
                texts(active@) == handles(old(state)@.active()),
                told == farewells(old(state)@.active()),
                told.len() == active@.len(),
                effects(todo@) == unlocked + told.take(k as int),
            decreases active@.len() - k,
        {
            let ghost todo_before = effects(todo@);
            todo.push(
                Effect::Signal(
                    Signal::Deactivated { session: active[k].clone(), activation_id: 0, cursor: None },
                ),
            );
            proof {
                assert(texts(active@)[k as int] == active@[k as int]@);
                assert(told[k as int] == EffectView::Signal(
                    SignalView::Deactivated {
                        session: active@[k as int]@,
                        activation_id: 0,
                        cursor: None,
                    },
                ));
                assert(effects(todo@) =~= todo_before.push(told[k as int]));
                assert(told.take(k + 1) =~= told.take(k as int).push(told[k as int]));
            }
            k += 1;
        }
        assert(told.take(k as int) =~= told);
    }
    assert(effects(todo@) =~= old(state)@.force_effects());
    (active, todo)
}

/// Disable every session.
fn disable_all<F>(state: &mut State<F>)
    requires
        old(state)@.wf(),
    ensures
        final(state)@ == old(state)@.all_disabled(),
        final(state)@.wf(),
{
    let ghost all = state@.sessions;
    let mut i: usize = 0;
    while i < state.sessions.len()
        invariant
            i <= state.sessions@.len(),
            state.sessions@.len() == all.len(),
            forall|j: int| 0 <= j < i ==> #[trigger] state.sessions@[j]@ == all[j].disabled(),
            forall|j: int| i <= j < all.len() ==> #[trigger] state.sessions@[j]@ == all[j],
            state@ == (StateView { sessions: sessions(state.sessions@), ..old(state)@ }),
        decreases state.sessions@.len() - i,
    {
        assert(state.sessions@[i as int]@ == all[i as int]);
        state.sessions[i].enabled = false;
        assert(state.sessions@[i as int]@ == all[i as int].disabled());
        i += 1;
    }
    proof {
        let next = old(state)@.all_disabled().sessions;
        assert(sessions(state.sessions@) =~= next);
        assert forall|i: int, j: int| 0 <= i < j < next.len() implies (#[trigger] next[i]).handle
            != (#[trigger] next[j]).handle by {
            assert(all[i].handle != all[j].handle);
        }
    }
}

/// React to an EIS connection dying: a capture feeding a dead socket can never
/// be ended by its client, so it has to be ended here.
pub fn handle_eis_closed<F>(state: &mut State<F>, label: &String) -> (r: Vec<Effect>)
    requires
        old(state)@.wf(),
    ensures
        ({
            let before = old(state)@;
            if before.knows(label@) && before.at(label@).capturing() {
                &&& final(state)@ == before.all_idle()
                &&& effects(r@) == before.force_effects()
            } else {
                &&& final(state)@ == before
                &&& effects(r@) == Seq::<EffectView>::empty()
            }
        }),
        r@.len() > 0 <==> old(state)@.knows(label@) && old(state)@.at(label@).activation_id != 0,
        r@.len() > 0 ==> forall|i: int|
            0 <= i < final(state)@.sessions.len() ==> (#[trigger] final(state)@.sessions[i]).activation_id == 0,
        final(state)@.wf(),
{
    let was_capturing = match state.find(label) {
        Some(i) => state.sessions[i].activation_id != 0,
        None => false,
    };
    if was_capturing {
        force_release_all(state).1
    } else {
        let r: Vec<Effect> = Vec::new();
        assert(effects(r@) =~= Seq::empty());
        r
    }
}

/// One session, in words.
pub open spec fn status_line(s: SessionView) -> Seq<char> {
    s.handle + ": enabled="@ + truth(s.enabled) + " barriers="@ + decimal(s.barriers.len())
        + " capturing="@ + truth(s.capturing())
}

/// The sessions, in words.
pub open spec fn status_text(list: Seq<SessionView>) -> Seq<char> {
    if list.len() == 0 {
        "no sessions"@
    } else {
        joined(list.map_values(|s: SessionView| status_line(s)), "\n"@)
    }
}

fn describe(s: &Session) -> (r: String)
    ensures
        r@ == status_line(s@),
{
    let mut r = s.handle.clone();
    r.append(": enabled=");
    r.append(truth_text(s.enabled));
    r.append(" barriers=");
    let count = decimal_text(s.barriers.len() as u64);
    r.append(count.as_str());
    r.append(" capturing=");
    r.append(truth_text(s.activation_id != 0));
    r
}

impl Control {
    /// Drop any active capture and give the pointer and keyboard back.
    pub fn force_release<F>(state: &mut State<F>) -> (r: (String, Vec<Effect>))
        requires
            old(state)@.wf(),
        ensures
            final(state)@ == old(state)@.all_idle(),
            effects(r.1@) == old(state)@.force_effects(),
            r.0@ == if old(state)@.active().len() == 0 {
                "no capture was active; barriers left as they were"@
            } else {
                "released "@ + decimal(old(state)@.active().len()) + " capture(s)"@
            },
            final(state)@.wf(),
    {
        let (released, todo) = force_release_all(state);
        assert(texts(released@).len() == released@.len());
        assert(handles(old(state)@.active()).len() == old(state)@.active().len());
        let text = if released.len() == 0 {
            "no capture was active; barriers left as they were".to_owned()
        } else {
            let mut text = "released ".to_owned();
            let count = decimal_text(released.len() as u64);
            text.append(count.as_str());
            text.append(" capture(s)");
            text
        };
        (text, todo)
    }

    /// Drop captures *and* tear the barrier surfaces down, so no edge can
    /// trigger again until a client re-enables. That takes every session being
    /// disabled: one left enabled would have its barriers armed again by its next
    /// `Release`.
    pub fn disarm<F>(state: &mut State<F>) -> (r: (String, Vec<Effect>))
        requires
            old(state)@.wf(),
        ensures
            final(state)@ == old(state)@.all_idle().all_disabled(),
            effects(r.1@) == old(state)@.force_effects().push(EffectView::Wayland(CmdView::Disarm)),
            r.0@ == "released "@ + decimal(old(state)@.active().len())
                + " capture(s) and disarmed all barriers"@,
            final(state)@.wf(),
    {
        let (released, mut todo) = force_release_all(state);
        disable_all(state);
        assert(texts(released@).len() == released@.len());
        assert(handles(old(state)@.active()).len() == old(state)@.active().len());
        let ghost before = effects(todo@);
        todo.push(Effect::Wayland(WaylandCmd::Disarm));
        assert(effects(todo@) =~= before.push(EffectView::Wayland(CmdView::Disarm)));
        let mut text = "released ".to_owned();
        let count = decimal_text(released.len() as u64);
        text.append(count.as_str());
        text.append(" capture(s) and disarmed all barriers");
        (text, todo)
    }

    /// Human-readable summary, for checking state without a GUI.
    pub fn status<F>(state: &State<F>) -> (r: String)
        ensures
            r@ == status_text(state@.sessions),
    {
        if state.sessions.len() == 0 {
            return "no sessions".to_owned();
        }
        let mut lines: Vec<String> = Vec::new();
        let mut i: usize = 0;
        while i < state.sessions.len()
            invariant
                i <= state.sessions@.len(),
                lines@.len() == i,
                forall|j: int|
                    0 <= j < i ==> (#[trigger] lines@[j])@ == status_line(state.sessions@[j]@),
            decreases state.sessions@.len() - i,
        {
            lines.push(describe(&state.sessions[i]));
            i += 1;
        }
        assert(texts(lines@) =~= state@.sessions.map_values(|s: SessionView| status_line(s)));
        join(&lines, "\n")
    }

    /// What the compositor currently offers on the clipboard.
    ///
    /// This exists so the data-control layer can be checked on its own, without
    /// a portal client: `wl-copy hi` then `--clip-status` should list
    /// `text/plain`.
    pub fn clipboard_status<F>(state: &State<F>) -> (r: String)
        ensures
            ({
                let c = state@.clipboard;
                r@ == if c.mime_types.len() == 0 {
                    "clipboard is empty (or ext-data-control is unavailable)"@
                } else {
                    "owner="@ + if c.owned_by_session {
                        "session"@
                    } else {
                        "local"@
                    } + " pending_transfers="@ + decimal(c.transfers.len()) + " types:\n  "@
                        + joined(c.mime_types, "\n  "@)
                }
            }),
    {
        broadcast use vstd::std_specs::hash::group_hash_axioms;

        assert(texts(state.clipboard.mime_types@).len() == state.clipboard.mime_types@.len());
        if state.clipboard.mime_types.len() == 0 {
            return "clipboard is empty (or ext-data-control is unavailable)".to_owned();
        }
        let mut r = "owner=".to_owned();
        r.append(
            if state.clipboard.owned_by_session {
                "session"
            } else {
                "local"
            },
        );
        r.append(" pending_transfers=");
        let count = decimal_text(state.clipboard.transfers.len() as u64);
        r.append(count.as_str());
        r.append(" types:\n  ");
        let list = join(&state.clipboard.mime_types, "\n  ");
        r.append(list.as_str());
        r
    }

    /// Ask for the clipboard as text, for checking the read path end to end.
    pub fn clipboard_read(mime_type: &String, reply: u64) -> (r: Vec<Effect>)
        ensures
            effects(r@) == seq![
                EffectView::Wayland(CmdView::ClipboardRead { mime_type: mime_type@, reply }),
            ],
    {
        let mut r: Vec<Effect> = Vec::new();
        r.push(Effect::Wayland(WaylandCmd::ClipboardRead { mime_type: mime_type.clone(), reply }));
        assert(effects(r@) =~= seq![
            EffectView::Wayland(CmdView::ClipboardRead { mime_type: mime_type@, reply }),
        ]);
        r
    }

    /// What a read of the clipboard answers, given what came of it.
    pub fn clipboard_pasted(mime_type: &String, pasted: Pasted) -> (r: String)
        ensures
            r@ == match pasted {
                Pasted::Nothing => "nothing on the clipboard for "@ + mime_type@,
                Pasted::Content(bytes) => lossy_utf8(bytes@),
                Pasted::ReadFailed(err) => "read failed: "@ + err@,
                Pasted::TaskFailed(err) => "read task failed: "@ + err@,
            },
            pasted matches Pasted::Content(bytes) ==> (valid_utf8(bytes@) ==> r@ == decode_utf8(
                bytes@,
            )),
    {
        match pasted {
            Pasted::Nothing => {
                let mut r = "nothing on the clipboard for ".to_owned();
                r.append(mime_type.as_str());
                r
            },
            Pasted::Content(bytes) => text_from_utf8(bytes.as_slice()),
            Pasted::ReadFailed(err) => {
                let mut r = "read failed: ".to_owned();
                r.append(err.as_str());
                r
            },
            Pasted::TaskFailed(err) => {
                let mut r = "read task failed: ".to_owned();
                r.append(err.as_str());
                r
            },
        }
    }

    /// Claim the clipboard without a session behind it.
    ///
    /// Only useful for checking the ownership half of the data-control layer: a
    /// local paste afterwards shows up as a pending transfer that nothing will
    /// ever answer, which is exactly what an unbacked claim should look like. A
    /// session that had claimed it before has lost its claim.
    pub fn clipboard_claim<F>(state: &mut State<F>, mime_types: Vec<String>) -> (r: (
        String,
        Vec<Effect>,
    ))
        requires
            old(state)@.wf(),
        ensures
            final(state)@ == if mime_types@.len() == 0 {
                old(state)@.unclaimed()
            } else {
                old(state)@.unbacked()
            },
            effects(r.1@) == selection_effects(texts(mime_types@)),
            r.0@ == if mime_types@.len() == 0 {
                "released the clipboard claim"@
            } else {
                "claimed the clipboard for "@ + joined(texts(mime_types@), ", "@)
            },
            final(state)@.wf(),
    {
        assert(texts(mime_types@).len() == mime_types@.len());
        if mime_types.len() == 0 {
            let todo = state.release_clipboard_claim();
            return ("released the clipboard claim".to_owned(), todo);
        }
        let ghost types = texts(mime_types@);
        let mut text = "claimed the clipboard for ".to_owned();
        let listed = join(&mime_types, ", ");
        text.append(listed.as_str());
        state.clipboard.owner_session = None;
        state.clipboard.clear_transfers();
        let mut todo: Vec<Effect> = Vec::new();
        todo.push(Effect::Wayland(WaylandCmd::ClipboardClaim { mime_types }));
        assert(effects(todo@) =~= selection_effects(types));
        (text, todo)
    }
}

/// The status has one line for each session, in order, and says so where there is
/// none.
pub proof fn one_session_more_is_one_line_more(list: Seq<SessionView>, s: SessionView)
    ensures
        status_text(Seq::empty()) == "no sessions"@,
        list.len() == 0 ==> status_text(list.push(s)) == status_line(s),
        list.len() > 0 ==> status_text(list.push(s)) == status_text(list) + "\n"@ + status_line(s),
{
    let lines = list.map_values(|x: SessionView| status_line(x));
    let more = list.push(s).map_values(|x: SessionView| status_line(x));
    assert(more.drop_last() =~= lines);
    assert(more.last() == status_line(s));
}

} // verus!
