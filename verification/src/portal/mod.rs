//! The portal side: sessions, barriers, and the clipboard they share.

pub mod clipboard;
pub mod control;
pub mod dict;
pub mod effects;
pub mod events;
pub mod input_capture;
pub mod laws;
pub mod outcomes;
pub mod session;
pub mod tracker;

pub use clipboard::Clipboard;
pub use control::{force_release_all, handle_eis_closed, Control};
pub use effects::{Effect, Fault, Reply, Signal};
pub use events::{
    activate, announce_selection, clipboard_send, deactivate, pump_wayland_events, SessionObject,
};
pub use input_capture::InputCapture;
pub use session::{Session, State};
pub use tracker::ClipboardTracker;

use crate::niri::Zone;
use vstd::prelude::*;

verus! {

/// Capability bits of the portal.
pub const CAP_KEYBOARD: u32 = 1;

pub const CAP_POINTER: u32 = 2;

pub const CAP_TOUCHSCREEN: u32 = 4;

/// One zone as the portal wire format wants it: width, height, x, y.
#[derive(Debug, Clone, Copy, PartialEq, Eq, Structural)]
pub struct ZoneTuple {
    pub width: u32,
    pub height: u32,
    pub x: i32,
    pub y: i32,
}

/// A zone in wire order.
pub open spec fn zone_tuple(z: Zone) -> ZoneTuple {
    ZoneTuple { width: z.width, height: z.height, x: z.x, y: z.y }
}

impl vstd::std_specs::convert::FromSpecImpl<Zone> for ZoneTuple {
    open spec fn obeys_from_spec() -> bool {
        true
    }

    open spec fn from_spec(z: Zone) -> Self {
        zone_tuple(z)
    }
}

impl From<Zone> for ZoneTuple {
    fn from(z: Zone) -> Self {
        Self { width: z.width, height: z.height, x: z.x, y: z.y }
    }
}

/// A barrier the client asked us to watch.
#[derive(Debug, Clone, Copy, PartialEq, Eq, Structural)]
pub struct Barrier {
    pub id: u32,
    pub x1: i32,
    pub y1: i32,
    pub x2: i32,
    pub y2: i32,
}

impl Barrier {
    pub fn is_vertical(&self) -> (r: bool)
        ensures
            r == (self.x1 == self.x2),
    {
        self.x1 == self.x2
    }

    pub fn is_horizontal(&self) -> (r: bool)
        ensures
            r == (self.y1 == self.y2),
    {
        self.y1 == self.y2
    }
}

/// A zone goes on the wire field by field.
pub proof fn a_zone_goes_on_the_wire_as_it_is(z: Zone)
    ensures
        zone_tuple(z).width == z.width,
        zone_tuple(z).height == z.height,
        zone_tuple(z).x == z.x,
        zone_tuple(z).y == z.y,
{
}

} // verus!
