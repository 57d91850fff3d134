//! Barrier surfaces on the compositor side.
//!
//! niri has no protocol for "tell me when the pointer hits this line", so a
//! barrier is approximated with a one-pixel `wlr-layer-shell` surface pinned to
//! the matching screen edge. The pointer entering that surface *is* the barrier
//! crossing.

pub mod capture;
pub mod clipboard;
pub mod commands;
pub mod input;
pub mod laws;
pub mod outcomes;
pub mod placing;
pub mod seat;
pub mod state;
pub mod surfaces;

use crate::coord::{pixel, Coord};
use crate::eis_server::EisHandle;
use crate::portal::Barrier;
use crate::text::{parse_u64, texts, trim, trimmed, u64_of};
use vstd::prelude::*;

verus! {

/// Which screen edge a barrier sits on.
#[derive(Debug, Clone, Copy, PartialEq, Eq, Structural)]
pub enum Edge {
    Left,
    Right,
    Top,
    Bottom,
}

/// How deep the barrier surface reaches into the output, in logical pixels.
///
/// Detection only ever uses the outermost pixel — the input region is a single
/// row or column — but the cursor position hint of a locked pointer takes
/// surface-local coordinates, so a one-pixel surface can only slide the cursor
/// *along* the edge. The extra depth is what makes it possible to put the
/// cursor back inside the screen when a capture ends.
pub const BARRIER_DEPTH: u32 = 64;

/// How far inside the edge the cursor is placed on release, in logical pixels.
///
/// Far enough that it is clear of the input region and cannot immediately
/// retrigger the barrier it just came back through.
pub const RELEASE_INSET: i64 = 8;

/// A barrier resolved against the current output layout.
#[derive(Debug)]
pub struct PlacedBarrier {
    pub id: u32,
    pub edge: Edge,
    /// Name of the output this edge belongs to.
    pub output: String,
    /// Surface size in logical pixels, including [`BARRIER_DEPTH`].
    pub size: (u32, u32),
    /// Distance from the anchored corner, in logical pixels.
    pub margin: (i32, i32),
    /// Global logical position of the surface's top-left corner, used to turn
    /// surface-local pointer coordinates back into portal coordinates.
    pub origin: (i32, i32),
}

impl Clone for PlacedBarrier {
    fn clone(&self) -> (r: Self)
        ensures
            r == *self,
    {
        PlacedBarrier {
            id: self.id,
            edge: self.edge,
            output: self.output.clone(),
            size: self.size,
            margin: self.margin,
            origin: self.origin,
        }
    }
}

/// Whether an edge runs from top to bottom.
pub open spec fn runs_down(edge: Edge) -> bool {
    edge is Left || edge is Right
}

/// The pixels between two bounds that lie on both of two spans.
pub open spec fn overlap(lo: int, hi: int, start: int, len: int) -> (int, int) {
    (if lo > start { lo } else { start }, if hi < start + len { hi } else { start + len })
}

/// Where a barrier lies on one output: the edge, and the clipped span along it.
pub open spec fn edge_on(
    b: Barrier,
    at: (i32, i32),
    size: (i32, i32),
) -> Option<(Edge, int, int)> {
    if b.x1 == b.x2 {
        let lo = if b.y1 < b.y2 { b.y1 } else { b.y2 };
        let hi = if b.y1 < b.y2 { b.y2 } else { b.y1 };
        let (top, bottom) = overlap(lo as int, hi as int, at.1 as int, size.1 as int);
        if top >= bottom {
            None
        } else if b.x1 == at.0 + size.0 {
            Some((Edge::Right, top, bottom))
        } else if b.x1 == at.0 {
            Some((Edge::Left, top, bottom))
        } else {
            None
        }
    } else if b.y1 == b.y2 {
        let lo = if b.x1 < b.x2 { b.x1 } else { b.x2 };
        let hi = if b.x1 < b.x2 { b.x2 } else { b.x1 };
        let (left, right) = overlap(lo as int, hi as int, at.0 as int, size.0 as int);
        if left >= right {
            None
        } else if b.y1 == at.1 + size.1 {
            Some((Edge::Bottom, left, right))
        } else if b.y1 == at.1 {
            Some((Edge::Top, left, right))
        } else {
            None
        }
    } else {
        None
    }
}

/// The first output with an edge that a barrier lies on.
pub open spec fn host(
    b: Barrier,
    outputs: Seq<(String, (i32, i32), (i32, i32))>,
) -> Option<int>
    decreases outputs.len(),
{
    if outputs.len() == 0 {
        None
    } else if edge_on(b, outputs[0].1, outputs[0].2) is Some {
        Some(0)
    } else {
        match host(b, outputs.drop_first()) {
            Some(i) => Some(i + 1),
            None => None,
        }
    }
}

/// The top-left corner of the surface of a barrier on an edge of an output. It
/// reaches inward from the edge, so one on the right or the bottom starts
/// [`BARRIER_DEPTH`] short of it.
pub open spec fn corner(edge: Edge, from: int, at: (i32, i32), size: (i32, i32)) -> (int, int) {
    match edge {
        Edge::Left => (at.0 as int, from),
        Edge::Right => (at.0 + size.0 - BARRIER_DEPTH, from),
        Edge::Top => (from, at.1 as int),
        Edge::Bottom => (from, at.1 + size.1 - BARRIER_DEPTH),
    }
}

/// The corner of a barrier's surface can be written in 32 bits. It cannot when
/// the barrier lies on a right or bottom edge within [`BARRIER_DEPTH`] of the
/// least coordinate.
pub open spec fn corner_fits(
    b: Barrier,
    outputs: Seq<(String, (i32, i32), (i32, i32))>,
) -> bool {
    host(b, outputs) matches Some(i) ==> {
        let o = outputs[i];
        let (edge, from, to) = edge_on(b, o.1, o.2).unwrap();
        let c = corner(edge, from, o.1, o.2);
        i32::MIN <= c.0 && i32::MIN <= c.1
    }
}

/// A placed barrier is what a barrier comes to on an output.
pub open spec fn placed_on(
    p: PlacedBarrier,
    b: Barrier,
    o: (String, (i32, i32), (i32, i32)),
) -> bool {
    edge_on(b, o.1, o.2) matches Some((edge, from, to)) && {
        &&& p.id == b.id
        &&& p.edge == edge
        &&& p.output == o.0
        &&& p.size == if runs_down(edge) {
            (BARRIER_DEPTH, (to - from) as u32)
        } else {
            ((to - from) as u32, BARRIER_DEPTH)
        }
        &&& p.margin == if runs_down(edge) {
            ((from - o.1.1) as i32, 0i32)
        } else {
            (0i32, (from - o.1.0) as i32)
        }
        &&& p.origin == (
            corner(edge, from, o.1, o.2).0 as i32,
            corner(edge, from, o.1, o.2).1 as i32,
        )
    }
}

impl PlacedBarrier {
    /// Both dimensions are positive and fit the compositor's signed numbers.
    pub open spec fn sound(self) -> bool {
        &&& 1 <= self.size.0 <= i32::MAX
        &&& 1 <= self.size.1 <= i32::MAX
    }

    /// The strip on the outer edge: left, top, width and height, local to the
    /// surface.
    pub open spec fn strip(self) -> (int, int, int, int) {
        let (w, h) = (self.size.0 as i32, self.size.1 as i32);
        match self.edge {
            Edge::Left => (0, 0, 1, h as int),
            Edge::Right => (w - 1, 0, 1, h as int),
            Edge::Top => (0, 0, w as int, 1),
            Edge::Bottom => (0, h - 1, w as int, 1),
        }
    }

    /// The input region, in surface-local coordinates: the one-pixel strip on
    /// the outer edge. Everything else in the surface stays click-through.
    pub fn input_strip(&self) -> (r: (i32, i32, i32, i32))
        requires
            self.edge is Right ==> self.size.0 as i32 > i32::MIN,
            self.edge is Bottom ==> self.size.1 as i32 > i32::MIN,
        ensures
            (r.0 as int, r.1 as int, r.2 as int, r.3 as int) == self.strip(),
    {
        let (w, h) = (self.size.0 as i32, self.size.1 as i32);
        match self.edge {
            Edge::Left => (0, 0, 1, h),
            Edge::Right => (w - 1, 0, 1, h),
            Edge::Top => (0, 0, w, 1),
            Edge::Bottom => (0, h - 1, w, 1),
        }
    }

    /// Where the cursor is left: [`RELEASE_INSET`] inside the edge, and along
    /// it at the given position brought onto the surface.
    pub open spec fn hint(self, along: Coord) -> (Coord, Coord) {
        let (w, h) = (self.size.0 as int, self.size.1 as int);
        match self.edge {
            Edge::Left => (pixel(RELEASE_INSET as int), along.clamped(h - 1)),
            Edge::Right => (pixel(w - 1 - RELEASE_INSET), along.clamped(h - 1)),
            Edge::Top => (along.clamped(w - 1), pixel(RELEASE_INSET as int)),
            Edge::Bottom => (along.clamped(w - 1), pixel(h - 1 - RELEASE_INSET)),
        }
    }

    /// Where to leave the cursor when a capture on this barrier ends, in
    /// surface-local coordinates. `along` is the position on the edge axis.
    pub fn release_hint(&self, along: Coord) -> (r: (Coord, Coord))
        requires
            runs_down(self.edge) ==> self.size.1 >= 1,
            !runs_down(self.edge) ==> self.size.0 >= 1,
        ensures
            r == self.hint(along),
    {
        let (w, h) = (self.size.0 as i64, self.size.1 as i64);
        match self.edge {
            Edge::Left => (Coord::of_pixel(RELEASE_INSET), along.clamp_to(h - 1)),
            Edge::Right => (Coord::of_pixel(w - 1 - RELEASE_INSET), along.clamp_to(h - 1)),
            Edge::Top => (along.clamp_to(w - 1), Coord::of_pixel(RELEASE_INSET)),
            Edge::Bottom => (along.clamp_to(w - 1), Coord::of_pixel(h - 1 - RELEASE_INSET)),
        }
    }
}

/// Commands sent to the Wayland thread.
#[derive(Debug)]
pub enum WaylandCmd {
    /// Put barrier surfaces on screen. Replaces any existing set.
    Arm(Vec<Barrier>),
    /// Tear every barrier surface down, freeing the screen edges.
    Disarm,
    /// Attach the EIS connection that captured input should be written to.
    ///
    /// The pointer is already locked by the time this arrives — locking happens
    /// the instant the barrier is crossed so no motion is lost to the round trip
    /// through the portal — so this only hands over the destination.
    AttachEis(EisHandle),
    /// Release the pointer and give the local cursor back.
    EndCapture {
        /// Where to leave the cursor, in global logical coordinates.
        cursor_hint: Option<(Coord, Coord)>,
    },
    /// Ask for the clipboard's content in a type.
    ClipboardRead { mime_type: String, reply: u64 },
    /// Make these types the selection.
    ClipboardClaim { mime_types: Vec<String> },
    /// Give up the selection.
    ClipboardRelease,
    /// Ask for the types on the clipboard.
    ClipboardMimeTypes { reply: u64 },
    Shutdown,
}

/// A command, seen from outside.
pub enum CmdView {
    Arm(Seq<Barrier>),
    Disarm,
    AttachEis(EisHandle),
    EndCapture { cursor_hint: Option<(Coord, Coord)> },
    ClipboardRead { mime_type: Seq<char>, reply: u64 },
    ClipboardClaim { mime_types: Seq<Seq<char>> },
    ClipboardRelease,
    ClipboardMimeTypes { reply: u64 },
    Shutdown,
}

impl View for WaylandCmd {
    type V = CmdView;

    open spec fn view(&self) -> CmdView {
        match *self {
            WaylandCmd::Arm(barriers) => CmdView::Arm(barriers@),
            WaylandCmd::Disarm => CmdView::Disarm,
            WaylandCmd::AttachEis(eis) => CmdView::AttachEis(eis),
            WaylandCmd::EndCapture { cursor_hint } => CmdView::EndCapture { cursor_hint },
            WaylandCmd::ClipboardRead { mime_type, reply } => CmdView::ClipboardRead {
                mime_type: mime_type@,
                reply,
            },
            WaylandCmd::ClipboardClaim { mime_types } => CmdView::ClipboardClaim {
                mime_types: texts(mime_types@),
            },
            WaylandCmd::ClipboardRelease => CmdView::ClipboardRelease,
            WaylandCmd::ClipboardMimeTypes { reply } => CmdView::ClipboardMimeTypes { reply },
            WaylandCmd::Shutdown => CmdView::Shutdown,
        }
    }
}

/// Events raised by the Wayland thread. A paste from the claimed selection is
/// the one event that is not here: it comes with an open pipe.
#[derive(Debug)]
pub enum WaylandEvent {
    /// The pointer crossed a barrier. Position is in global logical coordinates.
    Activated { barrier_id: u32, position: (Coord, Coord) },
    /// Capture ended without the client asking, so the portal still has to emit
    /// `Deactivated`. Happens when the compositor drops the lock or the user
    /// hits the escape combination.
    CaptureLost,
    /// The output layout changed; zones and barriers are stale.
    OutputsChanged,
    /// The clipboard selection changed.
    ClipboardSelection { mime_types: Vec<String>, is_ours: bool },
    /// Another client took the clipboard from us.
    ClipboardCancelled,
}

/// How long a capture may see no input at all before it is force-released.
#[derive(Debug, Clone, Copy, PartialEq, Eq, Structural)]
pub enum IdleTimeout {
    /// After this many seconds.
    After { secs: u64 },
    /// The watchdog is disabled.
    Never,
}

/// Default idle timeout before a capture is force-released, in seconds.
///
/// A capture that is doing its job never goes quiet for this long, because the
/// user is driving the remote screen with this machine's own mouse and keyboard.
pub const DEFAULT_IDLE_TIMEOUT: u64 = 15;

/// The timeout that a setting asks for, given the number it spells.
pub open spec fn timeout_for(number: Option<u64>) -> IdleTimeout {
    match number {
        Some(0) => IdleTimeout::Never,
        Some(secs) => IdleTimeout::After { secs },
        None => IdleTimeout::After { secs: DEFAULT_IDLE_TIMEOUT },
    }
}

/// Read the idle timeout from the setting, falling back to the default.
///
/// `0` disables the watchdog, which is only sensible when something else is
/// guaranteed to end the capture. White space around the number is ignored.
pub fn idle_timeout_from_env(setting: Option<String>) -> (r: IdleTimeout)
    ensures
        r == match setting {
            Some(raw) => timeout_for(u64_of(trimmed(raw@))),
            None => timeout_for(None),
        },
{
    match setting {
        Some(raw) => idle_timeout_of(trim(raw.as_str())),
        None => IdleTimeout::After { secs: DEFAULT_IDLE_TIMEOUT },
    }
}

/// The idle timeout that a trimmed setting asks for.
pub fn idle_timeout_of(setting: &str) -> (r: IdleTimeout)
    ensures
        r == timeout_for(u64_of(setting@)),
{
    match parse_u64(setting) {
        Some(0) => IdleTimeout::Never,
        Some(secs) => IdleTimeout::After { secs },
        None => IdleTimeout::After { secs: DEFAULT_IDLE_TIMEOUT },
    }
}

/// The barriers that lie on an output edge, in order.
pub open spec fn on_an_edge(
    barriers: Seq<Barrier>,
    outputs: Seq<(String, (i32, i32), (i32, i32))>,
) -> Seq<Barrier> {
    barriers.filter(|b: Barrier| host(b, outputs) is Some)
}

/// The ids of the barriers that lie on none, in order.
pub open spec fn off_every_edge(
    barriers: Seq<Barrier>,
    outputs: Seq<(String, (i32, i32), (i32, i32))>,
) -> Seq<u32> {
    barriers.filter(|b: Barrier| host(b, outputs) is None).map_values(|b: Barrier| b.id)
}

/// A placed barrier is sound.
pub proof fn placed_is_sound(
    p: PlacedBarrier,
    b: Barrier,
    o: (String, (i32, i32), (i32, i32)),
)
    requires
        placed_on(p, b, o),
    ensures
        p.sound(),
{
}

/// Resolve barriers against the output layout.
///
/// A barrier that does not lie exactly on an output edge cannot be represented
/// as a layer surface, so it is dropped and reported back to the caller.
pub fn place(
    barriers: &[Barrier],
    outputs: &[(String, (i32, i32), (i32, i32))],
) -> (r: (Vec<PlacedBarrier>, Vec<u32>))
    requires
        forall|i: int| 0 <= i < barriers@.len() ==> corner_fits(#[trigger] barriers@[i], outputs@),
    ensures
        r.0@.len() == on_an_edge(barriers@, outputs@).len(),
        forall|i: int| 0 <= i < r.0@.len() ==> {
            let b = on_an_edge(barriers@, outputs@)[i];
            placed_on(#[trigger] r.0@[i], b, outputs@[host(b, outputs@).unwrap()])
        },
        r.1@ == off_every_edge(barriers@, outputs@),
{
    let mut placed: Vec<PlacedBarrier> = Vec::new();
    let mut rejected: Vec<u32> = Vec::new();
    let ghost on = |b: Barrier| host(b, outputs@) is Some;
    let ghost off = |b: Barrier| host(b, outputs@) is None;
    let mut i: usize = 0;
    proof {
        reveal(Seq::filter);
        assert(barriers@.take(0) =~= Seq::empty());
        assert(off_every_edge(barriers@.take(0), outputs@) =~= Seq::empty());
    }
    while i < barriers.len()
        invariant
            i <= barriers@.len(),
            on == (|b: Barrier| host(b, outputs@) is Some),
            off == (|b: Barrier| host(b, outputs@) is None),
            forall|j: int|
                0 <= j < barriers@.len() ==> corner_fits(#[trigger] barriers@[j], outputs@),
            placed@.len() == on_an_edge(barriers@.take(i as int), outputs@).len(),
            forall|j: int| 0 <= j < placed@.len() ==> {
                let b = on_an_edge(barriers@.take(i as int), outputs@)[j];
                placed_on(#[trigger] placed@[j], b, outputs@[host(b, outputs@).unwrap()])
            },
            rejected@ == off_every_edge(barriers@.take(i as int), outputs@),
        decreases barriers.len() - i,
    {
        let b = barriers[i];
        proof {
            reveal(Seq::filter);
            assert(barriers@.take(i + 1).drop_last() =~= barriers@.take(i as int));
            assert(barriers@.take(i + 1).last() == b);
        }
        match place_one(&b, outputs) {
            Some(p) => {
                assert(on(b));
                assert(!off(b));
                placed.push(p);
            },
            None => {
                assert(!on(b));
                assert(off(b));
                let ghost front = barriers@.take(i as int).filter(off);
                rejected.push(b.id);
                assert(front.push(b).map_values(|b: Barrier| b.id)
                    =~= front.map_values(|b: Barrier| b.id).push(b.id));
            },
        }
        i += 1;
    }
    assert(barriers@.take(barriers@.len() as int) =~= barriers@);
    (placed, rejected)
}

/// Find the first output with an edge that a barrier lies on: its index, the
/// edge, and the span along it that both cover.
fn locate(
    b: &Barrier,
    outputs: &[(String, (i32, i32), (i32, i32))],
) -> (r: Option<(usize, Edge, i64, i64)>)
    ensures
        match (r, host(*b, outputs@)) {
            (Some((i, edge, from, to)), Some(k)) => i == k && k < outputs@.len() && edge_on(
                *b,
                outputs@[k].1,
                outputs@[k].2,
            ) == Some((edge, from as int, to as int)),
            (None, None) => true,
            _ => false,
        },
{
    let mut i: usize = 0;
    assert(outputs@.skip(0) =~= outputs@);
    while i < outputs.len()
        invariant
            i <= outputs@.len(),
            host(*b, outputs@) == match host(*b, outputs@.skip(i as int)) {
                Some(k) => Some(k + i),
                None => None,
            },
        decreases outputs.len() - i,
    {
        let (ox, oy) = outputs[i].1;
        let (ow, oh) = outputs[i].2;
        let (right_x, bottom_y): (i64, i64) = (ox as i64 + ow as i64, oy as i64 + oh as i64);
        proof {
            assert(outputs@.skip(i as int).drop_first() =~= outputs@.skip(i + 1));
            assert(outputs@.skip(i as int)[0] == outputs@[i as int]);
        }
        if b.is_vertical() {
            // Clip the barrier to this output's vertical extent.
            let (top, bottom) = clip(b.y1, b.y2, oy, bottom_y);
            if top < bottom {
                if b.x1 as i64 == right_x {
                    return Some((i, Edge::Right, top, bottom));
                } else if b.x1 == ox {
                    return Some((i, Edge::Left, top, bottom));
                }
            }
        } else if b.is_horizontal() {
            let (left, right) = clip(b.x1, b.x2, ox, right_x);
            if left < right {
                if b.y1 as i64 == bottom_y {
                    return Some((i, Edge::Bottom, left, right));
                } else if b.y1 == oy {
                    return Some((i, Edge::Top, left, right));
                }
            }
        }
        i += 1;
    }
    None
}

/// The part of the span between `a` and `b` that lies between two bounds.
fn clip(a: i32, b: i32, start: i32, end: i64) -> (r: (i64, i64))
    ensures
        (r.0 as int, r.1 as int) == overlap(
            if a < b {
                a as int
            } else {
                b as int
            },
            if a < b {
                b as int
            } else {
                a as int
            },
            start as int,
            end - start,
        ),
{
    let (lo, hi): (i64, i64) = if a < b {
        (a as i64, b as i64)
    } else {
        (b as i64, a as i64)
    };
    let from: i64 = if lo > start as i64 {
        lo
    } else {
        start as i64
    };
    let to: i64 = if hi < end {
        hi
    } else {
        end
    };
    (from, to)
}

/// Resolve one barrier: the first output with an edge that it lies on.
pub fn place_one(
    b: &Barrier,
    outputs: &[(String, (i32, i32), (i32, i32))],
) -> (r: Option<PlacedBarrier>)
    requires
        corner_fits(*b, outputs@),
    ensures
        r is Some == host(*b, outputs@) is Some,
        r matches Some(p) ==> placed_on(p, *b, outputs@[host(*b, outputs@).unwrap()]),
{
    match locate(b, outputs) {
        Some((i, edge, from, to)) => {
            let (ox, oy) = outputs[i].1;
            let (ow, oh) = outputs[i].2;
            let length: u32 = (to - from) as u32;
            let depth: i64 = BARRIER_DEPTH as i64;
            let (size, margin, origin): ((u32, u32), (i32, i32), (i32, i32)) = match edge {
                Edge::Left => (
                    (BARRIER_DEPTH, length),
                    ((from - oy as i64) as i32, 0),
                    (ox, from as i32),
                ),
                // The surface reaches inward from the edge, so a right-anchored one
                // starts BARRIER_DEPTH short of the output's right side.
                Edge::Right => (
                    (BARRIER_DEPTH, length),
                    ((from - oy as i64) as i32, 0),
                    ((ox as i64 + ow as i64 - depth) as i32, from as i32),
                ),
                Edge::Top => (
                    (length, BARRIER_DEPTH),
                    (0, (from - ox as i64) as i32),
                    (from as i32, oy),
                ),
                Edge::Bottom => (
                    (length, BARRIER_DEPTH),
                    (0, (from - ox as i64) as i32),
                    (from as i32, (oy as i64 + oh as i64 - depth) as i32),
                ),
            };
            Some(PlacedBarrier { id: b.id, edge, output: outputs[i].0.clone(), size, margin, origin })
        },
        None => None,
    }
}

/// Whether the surface corners of all the barriers can be written in 32 bits,
/// which [`place`] asks for.
pub fn corners_fit(barriers: &[Barrier], outputs: &[(String, (i32, i32), (i32, i32))]) -> (r: bool)
    ensures
        r == forall|i: int|
            0 <= i < barriers@.len() ==> corner_fits(#[trigger] barriers@[i], outputs@),
{
    let mut i: usize = 0;
    while i < barriers.len()
        invariant
            i <= barriers@.len(),
            forall|j: int| 0 <= j < i ==> corner_fits(#[trigger] barriers@[j], outputs@),
        decreases barriers.len() - i,
    {
        let b = &barriers[i];
        let least: i64 = i32::MIN as i64 + BARRIER_DEPTH as i64;
        let fits = match locate(b, outputs) {
            Some((_, Edge::Right, _, _)) => b.x1 as i64 >= least,
            Some((_, Edge::Bottom, _, _)) => b.y1 as i64 >= least,
            _ => true,
        };
        if !fits {
            assert(!corner_fits(barriers@[i as int], outputs@));
            return false;
        }
        i += 1;
    }
    true
}

/// A command is seen as it is.
pub proof fn a_command_is_seen_as_it_is(cmd: WaylandCmd)
    ensures
        match (cmd, cmd@) {
            (WaylandCmd::Arm(barriers), CmdView::Arm(seen)) => seen == barriers@,
            (WaylandCmd::Disarm, CmdView::Disarm) => true,
            (WaylandCmd::AttachEis(eis), CmdView::AttachEis(seen)) => seen == eis,
            (
                WaylandCmd::EndCapture { cursor_hint },
                CmdView::EndCapture { cursor_hint: seen },
            ) => seen == cursor_hint,
            (
                WaylandCmd::ClipboardRead { mime_type, reply },
                CmdView::ClipboardRead { mime_type: a, reply: b },
            ) => a == mime_type@ && b == reply,
            (
                WaylandCmd::ClipboardClaim { mime_types },
                CmdView::ClipboardClaim { mime_types: seen },
            ) => seen == texts(mime_types@),
            (WaylandCmd::ClipboardRelease, CmdView::ClipboardRelease) => true,
            (
                WaylandCmd::ClipboardMimeTypes { reply },
                CmdView::ClipboardMimeTypes { reply: seen },
            ) => seen == reply,
            (WaylandCmd::Shutdown, CmdView::Shutdown) => true,
            _ => false,
        },
{
}

/// A setting of zero turns the watchdog off, any other number is its timeout in
/// seconds, and without a number it is fifteen.
pub proof fn a_setting_is_a_number_of_seconds(secs: u64)
    ensures
        timeout_for(Some(0)) is Never,
        secs > 0 ==> timeout_for(Some(secs)) == (IdleTimeout::After { secs }),
        timeout_for(None) == (IdleTimeout::After { secs: 15 }),
{
}

} // verus!
