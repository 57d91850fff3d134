//! The calls of `org.freedesktop.impl.portal.Clipboard`.
//!
//! The clipboard portal creates no session of its own: it attaches to a session
//! another portal already made, and xdg-desktop-portal only offers that to
//! InputCapture sessions from 1.21.1 onwards. Against an older frontend
//! everything here simply goes uncalled.

use crate::portal::dict::{entries, get_texts, texts_of, Dict};
use crate::portal::effects::{effects, Effect, EffectView, Fault, FaultView};
use crate::portal::session::{sessions, SessionView, State, StateView};
use crate::portal::tracker::TrackerView;
use crate::text::{decimal, decimal_text, texts};
use crate::wayland::{CmdView, WaylandCmd};
use vstd::prelude::*;

verus! {

/// `org.freedesktop.impl.portal.Clipboard`.
#[derive(Debug, Clone, Copy)]
pub struct Clipboard;

/// What a session without clipboard access is told.
pub open spec fn denied() -> FaultView {
    FaultView::AccessDenied("this session has no clipboard access"@)
}

/// Tell a session that it has no clipboard access.
fn deny() -> (r: Fault)
    ensures
        r@ == denied(),
{
    Fault::AccessDenied("this session has no clipboard access".to_owned())
}

impl<F> StateView<F> {
    /// The state once a session claims the clipboard. Reads parked against the
    /// previous owner cannot be answered from the new content, so their readers
    /// see the end now.
    pub open spec fn claimed_by(self, handle: Seq<char>) -> StateView<F> {
        StateView {
            clipboard: TrackerView {
                owner_session: Some(handle),
                ..self.clipboard.cleared()
            },
            ..self
        }
    }

    /// The state once the clipboard is claimed with no session behind the claim.
    /// The session that claimed it before is asked for nothing any more, and the
    /// readers that waited for it see the end now.
    pub open spec fn unbacked(self) -> StateView<F> {
        StateView {
            clipboard: TrackerView { owner_session: None, ..self.clipboard.cleared() },
            ..self
        }
    }

    /// The state once a session hands in the types it has, none of them to give
    /// the clipboard up.
    pub open spec fn selected(self, handle: Seq<char>, types: Seq<Seq<char>>) -> StateView<F> {
        if types.len() == 0 {
            self.unclaimed()
        } else {
            self.claimed_by(handle)
        }
    }
}

/// What a choice of types asks of the Wayland thread.
pub open spec fn selection_effects(types: Seq<Seq<char>>) -> Seq<EffectView> {
    if types.len() == 0 {
        seq![EffectView::Wayland(CmdView::ClipboardRelease)]
    } else {
        seq![EffectView::Wayland(CmdView::ClipboardClaim { mime_types: types })]
    }
}

impl Clipboard {
    pub fn version() -> (r: u32)
        ensures
            r == 1,
    {
        1
    }

    /// Grant a session access to the clipboard.
    ///
    /// This comes before the session starts, which is what lets `Start`
    /// answer `clipboard_enabled` truthfully.
    pub fn request_clipboard<F>(state: &mut State<F>, session_handle: &String)
        requires
            old(state)@.wf(),
        ensures
            final(state)@ == if old(state)@.knows(session_handle@) {
                old(state)@.with(
                    session_handle@,
                    SessionView {
                        clipboard_requested: true,
                        ..old(state)@.at(session_handle@)
                    },
                )
            } else {
                old(state)@
            },
            final(state)@.may_paste(session_handle@) == old(state)@.knows(session_handle@),
            final(state)@.wf(),
    {
        if let Some(i) = state.find(session_handle) {
            state.sessions[i].clipboard_requested = true;
            proof {
                let s = old(state)@.at(session_handle@);
                let next = SessionView { clipboard_requested: true, ..s };
                assert(sessions(state.sessions@) =~= old(state)@.with(
                    session_handle@,
                    next,
                ).sessions);
                old(state)@.with_keeps(session_handle@, next);
            }
        }
    }

    /// The session now holds clipboard content in these types.
    ///
    /// Claiming the selection discards whatever was on it, exactly as a local
    /// copy would; there is no way to put the previous content back afterwards.
    pub fn set_selection<F>(state: &mut State<F>, session_handle: &String, options: &Dict) -> (r:
        Result<Vec<Effect>, Fault>)
        requires
            old(state)@.wf(),
        ensures
            ({
                let types = texts_of(entries(options@), "mime_types"@);
                match r {
                    Ok(todo) => {
                        &&& old(state)@.may_paste(session_handle@)
                        &&& final(state)@ == old(state)@.selected(session_handle@, types)
                        &&& effects(todo@) == selection_effects(types)
                    },
                    Err(fault) => {
                        &&& !old(state)@.may_paste(session_handle@)
                        &&& final(state)@ == old(state)@
                        &&& fault@ == denied()
                    },
                }
            }),
            final(state)@.wf(),
    {
        if !state.session_has_clipboard(session_handle) {
            return Err(deny());
        }
        let mime_types = get_texts(options, "mime_types");
        let ghost types = texts_of(entries(options@), "mime_types"@);
        assert(texts(mime_types@).len() == mime_types@.len());
        if mime_types.len() == 0 {
            return Ok(state.release_clipboard_claim());
        }
        state.clipboard.owner_session = Some(session_handle.clone());
        state.clipboard.clear_transfers();
        let mut todo: Vec<Effect> = Vec::new();
        todo.push(Effect::Wayland(WaylandCmd::ClipboardClaim { mime_types }));
        assert(effects(todo@) =~= selection_effects(types));
        Ok(todo)
    }

    /// Hand over the pipe a pending read is waiting on.
    ///
    /// This is the compositor's own pipe, passed straight through, so the content
    /// goes from the client to whoever is pasting without a copy in between.
    /// Where there is none, the client is answering twice, or the read waited long
    /// enough to be evicted.
    pub fn selection_write<F>(state: &mut State<F>, session_handle: &String, serial: u32) -> (r:
        Result<F, Fault>)
        requires
            old(state)@.wf(),
        ensures
            ({
                let before = old(state)@;
                let waiting = before.clipboard.transfers;
                if !before.may_paste(session_handle@) {
                    &&& final(state)@ == before
                    &&& r matches Err(fault) && fault@ == denied()
                } else {
                    &&& final(state)@ == (StateView {
                        clipboard: before.clipboard.taken(serial),
                        ..before
                    })
                    &&& match r {
                        Ok(fd) => waiting.dom().contains(serial) && fd == waiting[serial],
                        Err(fault) => !waiting.dom().contains(serial) && fault@
                            == FaultView::InvalidArgs(
                            "no clipboard transfer with serial "@ + decimal(serial as nat),
                        ),
                    }
                }
            }),
            final(state)@.wf(),
    {
        if !state.session_has_clipboard(session_handle) {
            return Err(deny());
        }
        match state.clipboard.take_transfer(serial) {
            Some(fd) => Ok(fd),
            None => {
                let mut text = "no clipboard transfer with serial ".to_owned();
                let number = decimal_text(serial as u64);
                text.append(number.as_str());
                Err(Fault::InvalidArgs(text))
            },
        }
    }

    /// Ask for the current selection in a type, the pipe to be handed to `reply`.
    pub fn selection_read<F>(
        state: &State<F>,
        session_handle: &String,
        mime_type: &String,
        reply: u64,
    ) -> (r: Result<Vec<Effect>, Fault>)
        ensures
            match r {
                Ok(todo) => state@.may_paste(session_handle@) && effects(todo@) == seq![
                    EffectView::Wayland(
                        CmdView::ClipboardRead { mime_type: mime_type@, reply },
                    ),
                ],
                Err(fault) => !state@.may_paste(session_handle@) && fault@ == denied(),
            },
    {
        if !state.session_has_clipboard(session_handle) {
            return Err(deny());
        }
        let mut todo: Vec<Effect> = Vec::new();
        todo.push(
            Effect::Wayland(WaylandCmd::ClipboardRead { mime_type: mime_type.clone(), reply }),
        );
        assert(effects(todo@) =~= seq![
            EffectView::Wayland(CmdView::ClipboardRead { mime_type: mime_type@, reply }),
        ]);
        Ok(todo)
    }

    /// What a read of the selection answers, given the pipe that came back.
    pub fn selection_opened<F>(mime_type: &String, pipe: Option<F>) -> (r: Result<F, Fault>)
        ensures
            match (pipe, r) {
                (Some(fd), Ok(out)) => out == fd,
                (None, Err(fault)) => fault@ == FaultView::Failed("nothing offers "@ + mime_type@),
                _ => false,
            },
    {
        match pipe {
            Some(fd) => Ok(fd),
            None => {
                let mut text = "nothing offers ".to_owned();
                text.append(mime_type.as_str());
                Err(Fault::Failed(text))
            },
        }
    }
}

} // verus!
