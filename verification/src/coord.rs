//! Positions on one axis of the desktop, in logical pixels.
//!
//! Wayland carries positions as fixed-point numbers with 256 steps to the
//! pixel. A [`Coord`] keeps the step that a position falls on and whether it
//! falls between that step and the next, which is all that comparing it with
//! whole pixels and writing it back to the wire take.

use vstd::prelude::*;

verus! {

/// Steps to one logical pixel.
pub const STEPS: i64 = 256;

/// A position or a distance along one axis.
#[derive(Debug, Clone, Copy, PartialEq, Eq, Structural)]
pub enum Coord {
    /// At `steps` when `exact`, else strictly between `steps` and the next one.
    At { steps: i64, exact: bool },
    /// Neither before nor after any position.
    NotANumber,
}

/// An integer brought into the range of 64 bits.
pub open spec fn saturated(n: int) -> int {
    if n < i64::MIN {
        i64::MIN as int
    } else if n > i64::MAX {
        i64::MAX as int
    } else {
        n
    }
}

/// The position of a whole pixel.
pub open spec fn pixel(n: int) -> Coord {
    Coord::At { steps: (n * STEPS) as i64, exact: true }
}

impl Coord {
    /// Strictly before a whole pixel.
    pub open spec fn before(self, n: int) -> bool {
        match self {
            Coord::At { steps, .. } => steps < n * STEPS,
            Coord::NotANumber => false,
        }
    }

    /// Strictly after a whole pixel.
    pub open spec fn after(self, n: int) -> bool {
        match self {
            Coord::At { steps, exact } => steps > n * STEPS || (steps == n * STEPS && !exact),
            Coord::NotANumber => false,
        }
    }

    /// Moved by a number of whole pixels.
    pub open spec fn moved(self, n: int) -> Coord {
        match self {
            Coord::At { steps, exact } => Coord::At {
                steps: saturated(steps + n * STEPS) as i64,
                exact,
            },
            Coord::NotANumber => Coord::NotANumber,
        }
    }

    /// Brought between pixel zero and a last pixel.
    pub open spec fn clamped(self, last: int) -> Coord {
        if self.before(0) {
            pixel(0)
        } else if self.after(last) {
            pixel(last)
        } else {
            self
        }
    }

    /// The position of a whole pixel.
    pub fn of_pixel(n: i64) -> (r: Coord)
        requires
            i64::MIN <= n * STEPS <= i64::MAX,
        ensures
            r == pixel(n as int),
    {
        Coord::At { steps: n * STEPS, exact: true }
    }

    /// Whether this is strictly before a whole pixel.
    pub fn is_before(&self, n: i64) -> (r: bool)
        ensures
            r == self.before(n as int),
    {
        match *self {
            Coord::At { steps, .. } => (steps as i128) < n as i128 * 256,
            Coord::NotANumber => false,
        }
    }

    /// Whether this is strictly after a whole pixel.
    pub fn is_after(&self, n: i64) -> (r: bool)
        ensures
            r == self.after(n as int),
    {
        match *self {
            Coord::At { steps, exact } => {
                let limit: i128 = n as i128 * 256;
                steps as i128 > limit || (steps as i128 == limit && !exact)
            },
            Coord::NotANumber => false,
        }
    }

    /// Move by a number of whole pixels, stopping at the ends of the range.
    pub fn moved_by(&self, n: i64) -> (r: Coord)
        ensures
            r == self.moved(n as int),
    {
        match *self {
            Coord::At { steps, exact } => {
                let sum: i128 = steps as i128 + n as i128 * 256;
                let steps: i64 = if sum < i64::MIN as i128 {
                    i64::MIN
                } else if sum > i64::MAX as i128 {
                    i64::MAX
                } else {
                    sum as i64
                };
                Coord::At { steps, exact }
            },
            Coord::NotANumber => Coord::NotANumber,
        }
    }

    /// Bring between pixel zero and a last pixel.
    pub fn clamp_to(&self, last: i64) -> (r: Coord)
        requires
            0 <= last,
            last * STEPS <= i64::MAX,
        ensures
            r == self.clamped(last as int),
    {
        if self.is_before(0) {
            Coord::of_pixel(0)
        } else if self.is_after(last) {
            Coord::of_pixel(last)
        } else {
            *self
        }
    }
}

/// Moving a position out and back by the same distance restores it, as long as
/// it stays within range.
pub proof fn moving_back_restores(c: Coord, n: int)
    requires
        c matches Coord::At { steps, .. } ==> i64::MIN <= steps + n * STEPS <= i64::MAX,
    ensures
        c.moved(n).moved(-n) == c,
{
}

/// A position brought between pixel zero and a last pixel is neither before the
/// one nor after the other, and one that already was stays where it is.
pub proof fn clamping_bounds(c: Coord, last: int)
    requires
        0 <= last,
        last * STEPS <= i64::MAX,
    ensures
        !c.clamped(last).before(0),
        !c.clamped(last).after(last),
        !c.before(0) && !c.after(last) ==> c.clamped(last) == c,
{
}

/// Moving by whole pixels adds two hundred and fifty-six steps for each and keeps
/// whether the position is exact; it stops at the ends of the range, and moves
/// nothing that is no number.
pub proof fn moving_adds_whole_pixels(c: Coord, n: int)
    ensures
        match (c, c.moved(n)) {
            (Coord::At { steps, exact }, Coord::At { steps: after, exact: still }) => {
                &&& exact == still
                &&& i64::MIN <= steps + 256 * n <= i64::MAX ==> after - steps == 256 * n
                &&& steps + 256 * n > i64::MAX ==> after == i64::MAX
                &&& steps + 256 * n < i64::MIN ==> after == i64::MIN
            },
            (Coord::NotANumber, Coord::NotANumber) => true,
            _ => false,
        },
{
}

/// A whole pixel is before those behind it and after those before it, and neither
/// before nor after itself. A position between two steps of which the first is a
/// whole pixel is after that pixel and before the next. What is no number is neither
/// before nor after anything.
pub proof fn pixels_lie_in_order(m: int, n: int)
    requires
        i64::MIN <= 256 * m <= i64::MAX,
    ensures
        pixel(m) == (Coord::At { steps: (256 * m) as i64, exact: true }),
        pixel(m).before(n) == (m < n),
        pixel(m).after(n) == (m > n),
        (Coord::At { steps: (256 * m) as i64, exact: false }).before(n) == (m < n),
        (Coord::At { steps: (256 * m) as i64, exact: false }).after(n) == (m >= n),
        !Coord::NotANumber.before(n),
        !Coord::NotANumber.after(n),
{
}

/// A position is before a pixel exactly if it falls short of its step, and after it
/// exactly if it goes beyond.
pub proof fn positions_compare_by_their_steps(steps: i64, exact: bool, n: int)
    ensures
        (Coord::At { steps, exact }).before(n) == (steps < 256 * n),
        (Coord::At { steps, exact }).after(n) == (steps > 256 * n || (steps == 256 * n && !exact)),
{
}

/// A position short of pixel zero is brought to pixel zero, one beyond a last pixel
/// to that pixel; any other, and what is no number, stays.
pub proof fn clamping_brings_to_the_nearer_end(c: Coord, last: int)
    requires
        0 <= last,
        256 * last <= i64::MAX,
    ensures
        match c {
            Coord::At { steps, exact } => c.clamped(last) == if steps < 0 {
                Coord::At { steps: 0, exact: true }
            } else if steps > 256 * last || (steps == 256 * last && !exact) {
                Coord::At { steps: (256 * last) as i64, exact: true }
            } else {
                c
            },
            Coord::NotANumber => c.clamped(last) is NotANumber,
        },
{
}

} // verus!
