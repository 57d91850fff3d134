//! Decision logic of an input-capture portal backend.
//!
//! Every handler takes in one event or call and hands back what to ask of the
//! compositor, the bus or an EIS connection, in order; performing it is left to
//! the program around the library.

pub mod coord;
pub mod counting;
pub mod eis_server;
pub mod niri;
pub mod portal;
pub mod text;
pub mod wayland;
