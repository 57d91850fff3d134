//! Commands from the portal.

use crate::text::texts;
use crate::wayland::capture::flushed;
use crate::wayland::clipboard::{actions, clipboard_view, ClipboardAction};
use crate::wayland::state::{Action, AppState, AppView, CaptureView, OutputInfo};
use crate::wayland::surfaces::{armed, layout_of};
use crate::wayland::{corner_fits, WaylandCmd, WaylandEvent};
use vstd::prelude::*;

verus! {

/// What a command is answered with.
#[derive(Debug)]
pub enum Answer {
    Nothing,
    /// Ask this offer for content of a type and reply with the pipe, or reply
    /// that there is none.
    Content { reply: u64, offer: Option<u64>, mime_type: String },
    /// Reply with the types on the clipboard.
    Types { reply: u64, mime_types: Vec<String> },
}

/// What a command comes to. The clipboard requests go on the wire before the
/// answer does.
#[derive(Debug)]
pub struct CommandOutcome {
    pub actions: Vec<Action>,
    pub clipboard: Vec<ClipboardAction>,
    pub answer: Answer,
    /// The barriers to arm that lie on no output's edge.
    pub rejected: Vec<u32>,
}

/// A command can be carried out with an output layout.
pub open spec fn command_fits(cmd: WaylandCmd, outputs: Seq<OutputInfo>) -> bool {
    cmd matches WaylandCmd::Arm(barriers) ==> forall|i: int|
        0 <= i < barriers@.len() ==> corner_fits(#[trigger] barriers@[i], layout_of(outputs))
}

impl AppState {
    /// Carry out a command from the portal.
    pub fn command(&mut self, cmd: WaylandCmd, outputs: &Vec<OutputInfo>) -> (r: CommandOutcome)
        requires
            old(self)@.wf(),
            old(self)@.capture is None ==> command_fits(cmd, outputs@),
        ensures
            match cmd {
                WaylandCmd::Arm(barriers) => {
                    &&& r.clipboard@.len() == 0
                    &&& r.answer is Nothing
                    &&& old(self)@.capture is Some ==> final(self)@ == old(self)@
                        && r.actions@.len() == 0 && r.rejected@.len() == 0
                    &&& old(self)@.capture is None ==> armed(
                        old(self)@,
                        final(self)@,
                        barriers@,
                        outputs@,
                        r.actions@,
                        r.rejected@,
                    )
                },
                WaylandCmd::Disarm => {
                    &&& r.clipboard@.len() == 0
                    &&& r.answer is Nothing
                    &&& final(self)@ == old(self)@.disarmed()
                    &&& r.actions@ == old(self)@.disarm_actions()
                },
                WaylandCmd::AttachEis(eis) => {
                    &&& r.clipboard@.len() == 0
                    &&& r.answer is Nothing
                    &&& match old(self)@.capture {
                        None => final(self)@ == old(self)@ && r.actions@.len() == 0,
                        Some(c) => {
                            &&& final(self)@ == (AppView {
                                capture: Some(
                                    CaptureView { eis: Some(eis), pending: Seq::empty(), ..c },
                                ),
                                ..old(self)@
                            })
                            &&& r.actions@ == flushed(c.pending, eis)
                        },
                    }
                },
                WaylandCmd::EndCapture { cursor_hint } => {
                    &&& r.clipboard@.len() == 0
                    &&& r.answer is Nothing
                    &&& final(self)@ == old(self)@.ended()
                    &&& r.actions@ == old(self)@.end_actions(cursor_hint)
                },
                WaylandCmd::ClipboardRead { mime_type, reply } => {
                    &&& r.actions@.len() == 0
                    &&& r.clipboard@.len() == 0
                    &&& final(self)@ == old(self)@
                    &&& r.answer matches Answer::Content { reply: to, offer, mime_type: of } && to
                        == reply && of@ == mime_type@ && offer == match clipboard_view(
                        old(self)@.clipboard,
                    ) {
                        Some(c) => c.offer_with(mime_type@),
                        None => None,
                    }
                },
                WaylandCmd::ClipboardClaim { mime_types } => {
                    let types = texts(mime_types@);
                    &&& r.actions@.len() == 0
                    &&& r.answer is Nothing
                    &&& final(self)@ == (AppView {
                        clipboard: final(self)@.clipboard,
                        ..old(self)@
                    })
                    &&& match old(self)@.clipboard {
                        Some(c) => {
                            &&& clipboard_view(final(self)@.clipboard) == Some(c@.claimed(types))
                            &&& actions(r.clipboard@) == c@.claim_actions(types)
                        },
                        None => final(self)@.clipboard is None && r.clipboard@.len() == 0,
                    }
                },
                WaylandCmd::ClipboardRelease => {
                    &&& r.actions@.len() == 0
                    &&& r.answer is Nothing
                    &&& final(self)@ == (AppView {
                        clipboard: final(self)@.clipboard,
                        ..old(self)@
                    })
                    &&& match old(self)@.clipboard {
                        Some(c) => {
                            &&& clipboard_view(final(self)@.clipboard) == Some(c@.released())
                            &&& actions(r.clipboard@) == c@.release_actions()
                        },
                        None => final(self)@.clipboard is None && r.clipboard@.len() == 0,
                    }
                },
                WaylandCmd::ClipboardMimeTypes { reply } => {
                    &&& r.actions@.len() == 0
                    &&& r.clipboard@.len() == 0
                    &&& final(self)@ == old(self)@
                    &&& r.answer matches Answer::Types { reply: to, mime_types } && to == reply
                        && texts(mime_types@) == match clipboard_view(
                        old(self)@.clipboard,
                    ) {
                        Some(c) => c.types(),
                        None => Seq::empty(),
                    }
                },
                WaylandCmd::Shutdown => {
                    &&& r.actions@.len() == 0
                    &&& r.clipboard@.len() == 0
                    &&& r.answer is Nothing
                    &&& final(self)@ == (AppView { exit: true, ..old(self)@ })
                },
            },
            !(cmd is Arm) ==> r.rejected@.len() == 0,
            cmd matches WaylandCmd::EndCapture { cursor_hint: Some(hint) } ==> r.actions@ == old(self)@.end_actions(Some(hint)),
            cmd is EndCapture ==> final(self)@.capture is None && final(self)@.surfaces == old(self)@.surfaces,
            cmd is Disarm ==> final(self)@.surfaces.len() == 0 && final(self)@.capture == old(self)@.capture && r.actions@.len() == old(self)@.surfaces.len(),
            cmd matches WaylandCmd::AttachEis(eis) ==> (old(self)@.capture is Some ==> (final(self)@.capture matches Some(d) && d.eis == Some(eis) && d.pending.len() == 0)),
            final(self)@.exit == (old(self)@.exit || cmd is Shutdown),
            final(self)@.wf(),
    {
        let none: Vec<Action> = Vec::new();
        let quiet: Vec<ClipboardAction> = Vec::new();
        let rejected: Vec<u32> = Vec::new();
        match cmd {
            WaylandCmd::Arm(barriers) => {
                let (actions, rejected) = self.arm(&barriers, outputs);
                CommandOutcome { actions, clipboard: quiet, answer: Answer::Nothing, rejected }
            },
            WaylandCmd::Disarm => CommandOutcome {
                actions: self.disarm(),
                clipboard: quiet,
                answer: Answer::Nothing,
                rejected,
            },
            WaylandCmd::AttachEis(eis) => CommandOutcome {
                actions: self.attach_eis(eis),
                clipboard: quiet,
                answer: Answer::Nothing,
                rejected,
            },
            WaylandCmd::EndCapture { cursor_hint } => CommandOutcome {
                actions: self.end_capture(cursor_hint),
                clipboard: quiet,
                answer: Answer::Nothing,
                rejected,
            },
            WaylandCmd::ClipboardRead { mime_type, reply } => {
                let offer = match &self.clipboard {
                    Some(c) => c.read(&mime_type),
                    None => None,
                };
                CommandOutcome {
                    actions: none,
                    clipboard: quiet,
                    answer: Answer::Content { reply, offer, mime_type },
                    rejected,
                }
            },
            WaylandCmd::ClipboardClaim { mime_types } => {
                let clipboard = match self.clipboard.take() {
                    Some(mut c) => {
                        let requests = c.claim(&mime_types);
                        self.clipboard = Some(c);
                        requests
                    },
                    None => quiet,
                };
                CommandOutcome { actions: none, clipboard, answer: Answer::Nothing, rejected }
            },
            WaylandCmd::ClipboardRelease => {
                let clipboard = match self.clipboard.take() {
                    Some(mut c) => {
                        let requests = c.release();
                        self.clipboard = Some(c);
                        requests
                    },
                    None => quiet,
                };
                CommandOutcome { actions: none, clipboard, answer: Answer::Nothing, rejected }
            },
            WaylandCmd::ClipboardMimeTypes { reply } => {
                let mime_types = match &self.clipboard {
                    Some(c) => c.mime_types(),
                    None => {
                        let empty: Vec<String> = Vec::new();
                        assert(texts(empty@) =~= Seq::empty());
                        empty
                    },
                };
                CommandOutcome {
                    actions: none,
                    clipboard: quiet,
                    answer: Answer::Types { reply, mime_types },
                    rejected,
                }
            },
            WaylandCmd::Shutdown => {
                self.exit = true;
                CommandOutcome { actions: none, clipboard: quiet, answer: Answer::Nothing, rejected }
            },
        }
    }

    /// Stop: whatever capture is in progress is given back, so that the session is
    /// never left with a locked pointer or a grabbed keyboard.
    pub fn shut_down(&mut self) -> (r: Vec<Action>)
        requires
            old(self)@.wf(),
        ensures
            final(self)@ == (AppView { exit: true, ..old(self)@.ended() }),
            r@ == old(self)@.end_actions(None),
            final(self)@.wf(),
    {
        let r = self.end_capture(None);
        self.exit = true;
        r
    }

    /// The clipboard selection changed.
    pub fn selection_changed(&self, mime_types: Vec<String>, is_ours: bool) -> (r: WaylandEvent)
        ensures
            r == (WaylandEvent::ClipboardSelection { mime_types, is_ours }),
    {
        WaylandEvent::ClipboardSelection { mime_types, is_ours }
    }

    /// Another client took the clipboard from us.
    pub fn selection_cancelled(&self) -> (r: WaylandEvent)
        ensures
            r is ClipboardCancelled,
    {
        WaylandEvent::ClipboardCancelled
    }
}

} // verus!
