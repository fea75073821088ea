//! Integer screen geometry: positions and axis-aligned rectangles in points.
use vstd::prelude::*;

verus! {

/// A position on screen.
#[derive(Clone, Copy, Debug, PartialEq, Eq, Structural, Hash)]
pub struct Pos2 {
    pub x: i64,
    pub y: i64,
}

/// An axis-aligned rectangle, `min` inclusive to `max` inclusive.
/// A rectangle with `min` beyond `max` on some axis is empty.
#[derive(Clone, Copy, Debug, PartialEq, Eq, Structural, Hash)]
pub struct Rect {
    pub min: Pos2,
    pub max: Pos2,
}

pub open spec fn rect_contains(r: Rect, p: Pos2) -> bool {
    r.min.x <= p.x && p.x <= r.max.x && r.min.y <= p.y && p.y <= r.max.y
}

pub open spec fn rect_contains_rect(outer: Rect, inner: Rect) -> bool {
    outer.min.x <= inner.min.x && inner.max.x <= outer.max.x && outer.min.y <= inner.min.y && inner.max.y <= outer.max.y
}

pub open spec fn dist_sq(a: Pos2, b: Pos2) -> int {
    (a.x - b.x) * (a.x - b.x) + (a.y - b.y) * (a.y - b.y)
}

/// The largest coordinate magnitude for which distances are computed exactly.
pub const COORD_LIMIT: i64 = 0x2000_0000;

pub open spec fn pos_in_range(p: Pos2) -> bool {
    -COORD_LIMIT <= p.x <= COORD_LIMIT && -COORD_LIMIT <= p.y <= COORD_LIMIT
}

pub open spec fn rect_in_range(r: Rect) -> bool {
    pos_in_range(r.min) && pos_in_range(r.max)
}

pub open spec fn max_int(a: int, b: int) -> int {
    if a >= b { a } else { b }
}

pub open spec fn min_int(a: int, b: int) -> int {
    if a <= b { a } else { b }
}

/// Where a window's corner goes so that the window fits inside `area`; a
/// window larger than the area may stick out by the excess on either side.
pub open spec fn constrained_min(wmin: int, wmax: int, amin: int, amax: int) -> int {
    let w = wmax - wmin;
    let margin = max_int(w - (amax - amin), 0);
    max_int(min_int(wmin, amax + margin - w), amin - margin)
}

impl Pos2 {
    pub fn new(x: i64, y: i64) -> (r: Pos2)
        ensures
            r.x == x,
            r.y == y,
    {
        Pos2 { x, y }
    }

    /// The squared distance to `other`.
    pub fn distance_sq(self, other: Pos2) -> (r: i64)
        requires
            pos_in_range(self),
            pos_in_range(other),
        ensures
            r as int == dist_sq(self, other),
    {
        let dx = self.x - other.x;
        let dy = self.y - other.y;
        proof {
            assert(dx * dx <= 0x4000_0000 * 0x4000_0000) by (nonlinear_arith)
                requires -0x4000_0000 <= dx <= 0x4000_0000;
            assert(dy * dy <= 0x4000_0000 * 0x4000_0000) by (nonlinear_arith)
                requires -0x4000_0000 <= dy <= 0x4000_0000;
            assert(0 <= dx * dx) by (nonlinear_arith);
            assert(0 <= dy * dy) by (nonlinear_arith);
        }
        dx * dx + dy * dy
    }
}

impl Rect {
    pub fn from_min_max(min: Pos2, max: Pos2) -> (r: Rect)
        ensures
            r.min == min,
            r.max == max,
    {
        Rect { min, max }
    }

    /// The empty rectangle that a widget area gets before it is laid out.
    pub fn nothing() -> (r: Rect)
        ensures
            forall|p: Pos2| !rect_contains(r, p),
    {
        Rect { min: Pos2 { x: i64::MAX, y: i64::MAX }, max: Pos2 { x: i64::MIN, y: i64::MIN } }
    }

    /// The rectangle that holds every position.
    pub fn everything() -> (r: Rect)
        ensures
            forall|p: Pos2| rect_contains(r, p),
    {
        Rect { min: Pos2 { x: i64::MIN, y: i64::MIN }, max: Pos2 { x: i64::MAX, y: i64::MAX } }
    }

    /// Is `p` inside (edges included)?
    pub fn contains(&self, p: Pos2) -> (r: bool)
        ensures
            r == rect_contains(*self, p),
    {
        self.min.x <= p.x && p.x <= self.max.x && self.min.y <= p.y && p.y <= self.max.y
    }

    /// Is all of `other` inside?
    pub fn contains_rect(&self, other: Rect) -> (r: bool)
        ensures
            r == rect_contains_rect(*self, other),
    {
        self.min.x <= other.min.x && other.max.x <= self.max.x && self.min.y <= other.min.y && other.max.y <= self.max.y
    }

    /// Is the rectangle non-empty on both axes (min strictly below max)?
    pub fn is_positive(&self) -> (r: bool)
        ensures
            r == (self.min.x < self.max.x && self.min.y < self.max.y),
    {
        self.min.x < self.max.x && self.min.y < self.max.y
    }

    /// Move `window` (keeping its size) so that it fits inside `area`, unless
    /// it is too large to fit.
    pub fn constrain_to_area(window: Rect, area: Rect) -> (r: Rect)
        requires
            rect_in_range(window),
            rect_in_range(area),
        ensures
            r.min.x == constrained_min(window.min.x as int, window.max.x as int, area.min.x as int, area.max.x as int),
            r.min.y == constrained_min(window.min.y as int, window.max.y as int, area.min.y as int, area.max.y as int),
            r.max.x - r.min.x == window.max.x - window.min.x,
            r.max.y - r.min.y == window.max.y - window.min.y,
    {
        let x = constrain_axis(window.min.x, window.max.x, area.min.x, area.max.x);
        let y = constrain_axis(window.min.y, window.max.y, area.min.y, area.max.y);
        Rect {
            min: Pos2 { x, y },
            max: Pos2 { x: x + (window.max.x - window.min.x), y: y + (window.max.y - window.min.y) },
        }
    }

    /// The rectangle grown by `amount` on every side.
    pub fn expand(&self, amount: i64) -> (r: Rect)
        requires
            0 <= amount <= COORD_LIMIT,
            -COORD_LIMIT <= self.min.x <= COORD_LIMIT,
            -COORD_LIMIT <= self.min.y <= COORD_LIMIT,
            -COORD_LIMIT <= self.max.x <= COORD_LIMIT,
            -COORD_LIMIT <= self.max.y <= COORD_LIMIT,
        ensures
            r.min.x == self.min.x - amount,
            r.min.y == self.min.y - amount,
            r.max.x == self.max.x + amount,
            r.max.y == self.max.y + amount,
    {
        Rect {
            min: Pos2 { x: self.min.x - amount, y: self.min.y - amount },
            max: Pos2 { x: self.max.x + amount, y: self.max.y + amount },
        }
    }
}

fn constrain_axis(wmin: i64, wmax: i64, amin: i64, amax: i64) -> (r: i64)
    requires
        -COORD_LIMIT <= wmin <= COORD_LIMIT,
        -COORD_LIMIT <= wmax <= COORD_LIMIT,
        -COORD_LIMIT <= amin <= COORD_LIMIT,
        -COORD_LIMIT <= amax <= COORD_LIMIT,
    ensures
        r == constrained_min(wmin as int, wmax as int, amin as int, amax as int),
        -4 * COORD_LIMIT <= r <= 4 * COORD_LIMIT,
{
    let w = wmax - wmin;
    let excess = w - (amax - amin);
    let margin = if excess >= 0 { excess } else { 0 };
    let hi = amax + margin - w;
    let x = if wmin <= hi { wmin } else { hi };
    let lo = amin - margin;
    if x >= lo { x } else { lo }
}

} // verus!
