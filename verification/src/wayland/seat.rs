//! The seat's pointer and keyboard coming and going.

use crate::wayland::state::{action_if, Action, AppState, AppView};
use vstd::prelude::*;

verus! {

/// What a seat can have.
#[derive(Debug, Clone, Copy, PartialEq, Eq, Structural)]
pub enum Capability {
    Pointer,
    Keyboard,
    Other,
}

impl AppState {
    /// A seat gained a capability. The first of each is taken.
    ///
    /// The keyboard is bound up front rather than on capture, because the keymap
    /// arrives on it and the EIS device needs it earlier. The clipboard hangs off
    /// a seat too, and is watched for the whole life of the process: the portal
    /// has to be able to answer what is on it at any moment.
    pub fn new_capability(&self, capability: Capability) -> (r: Vec<Action>)
        ensures
            r@ == match capability {
                Capability::Pointer => action_if(!self@.pointer, Action::AcquirePointer),
                Capability::Keyboard => if self@.keyboard {
                    Seq::empty()
                } else {
                    seq![Action::AcquireKeyboard] + action_if(
                        self@.clipboard is Some,
                        Action::WatchSeat,
                    )
                },
                Capability::Other => Seq::empty(),
            },
            capability is Pointer ==> r@ == if self@.pointer {
                Seq::empty()
            } else {
                seq![Action::AcquirePointer]
            },
            capability is Keyboard && !self@.keyboard ==> r@[0] == Action::AcquireKeyboard && (
            self@.clipboard is Some ==> r@.len() == 2 && r@[1] == Action::WatchSeat) && (
            self@.clipboard is None ==> r@.len() == 1),
            capability is Keyboard && self@.keyboard ==> r@.len() == 0,
    {
        let mut r: Vec<Action> = Vec::new();
        match capability {
            Capability::Pointer => {
                if !self.pointer {
                    r.push(Action::AcquirePointer);
                }
                assert(r@ =~= action_if(!self@.pointer, Action::AcquirePointer));
            },
            Capability::Keyboard => {
                if !self.keyboard {
                    r.push(Action::AcquireKeyboard);
                    if self.clipboard.is_some() {
                        r.push(Action::WatchSeat);
                    }
                    assert(r@ =~= seq![Action::AcquireKeyboard] + action_if(
                        self@.clipboard is Some,
                        Action::WatchSeat,
                    ));
                }
            },
            Capability::Other => {},
        }
        r
    }

    /// The pointer was acquired, with relative motion or without.
    pub fn pointer_acquired(&mut self, relative: bool)
        ensures
            final(self)@ == (AppView { pointer: true, relative_pointer: relative, ..old(self)@ }),
    {
        self.relative_pointer = relative;
        self.pointer = true;
    }

    /// The keyboard was acquired.
    pub fn keyboard_acquired(&mut self)
        ensures
            final(self)@ == (AppView { keyboard: true, ..old(self)@ }),
    {
        self.keyboard = true;
    }

    /// A seat lost a capability. Without a pointer a capture cannot go on.
    pub fn remove_capability(&mut self, capability: Capability) -> (r: Vec<Action>)
        requires
            old(self)@.wf(),
        ensures
            final(self)@ == match capability {
                Capability::Pointer => AppView {
                    pointer: false,
                    relative_pointer: false,
                    ..old(self)@.ended()
                },
                Capability::Keyboard => AppView { keyboard: false, ..old(self)@ },
                Capability::Other => old(self)@,
            },
            r@ == match capability {
                Capability::Pointer => old(self)@.end_actions(None) + action_if(
                    old(self)@.pointer,
                    Action::ReleasePointer,
                ) + action_if(old(self)@.relative_pointer, Action::DestroyRelativePointer),
                Capability::Keyboard => action_if(old(self)@.keyboard, Action::ReleaseKeyboard),
                Capability::Other => Seq::empty(),
            },
            capability is Pointer ==> !final(self)@.pointer && !final(self)@.relative_pointer
                && final(self)@.capture is None && final(self)@.keyboard == old(self)@.keyboard,
            capability is Keyboard ==> !final(self)@.keyboard && final(self)@.capture == old(self)@.capture && final(self)@.pointer == old(self)@.pointer,
            !(capability is Pointer) ==> final(self)@.relative_pointer == old(self)@.relative_pointer,
            final(self)@.surfaces == old(self)@.surfaces,
            final(self)@.wf(),
    {
        match capability {
            Capability::Pointer => {
                let mut r = self.end_capture(None);
                let ghost first = r@;
                if self.pointer {
                    self.pointer = false;
                    r.push(Action::ReleasePointer);
                }
                if self.relative_pointer {
                    self.relative_pointer = false;
                    r.push(Action::DestroyRelativePointer);
                }
                assert(r@ =~= first + action_if(old(self)@.pointer, Action::ReleasePointer)
                    + action_if(old(self)@.relative_pointer, Action::DestroyRelativePointer));
                r
            },
            Capability::Keyboard => {
                let mut r: Vec<Action> = Vec::new();
                if self.keyboard {
                    self.keyboard = false;
                    r.push(Action::ReleaseKeyboard);
                }
                assert(r@ =~= action_if(old(self)@.keyboard, Action::ReleaseKeyboard));
                r
            },
            Capability::Other => {
                let r: Vec<Action> = Vec::new();
                assert(r@ =~= Seq::empty());
                r
            },
        }
    }
}

} // verus!
