//! The playable rectangle and the boundary policies applied to one axis.
use vstd::prelude::*;

verus! {

/// Largest coordinate that the arena may reach on either axis.
pub const ARENA_LIMIT: i64 = 1048576;

/// Distance by which the arena contracts on each side per tick while a
/// shrink budget is pending.
pub const SHRINK_STEP: i64 = 1;

/// Axis-aligned rectangle: origin `(x, y)`, extent `w` by `h`.
#[derive(Clone, Copy, Debug, PartialEq, Eq, Structural)]
pub struct Arena {
    pub x: i64,
    pub y: i64,
    pub w: i64,
    pub h: i64,
}

impl Arena {
    pub open spec fn wf(self) -> bool {
        0 <= self.x && 0 <= self.y && 0 <= self.w && 0 <= self.h && self.x + self.w
            <= ARENA_LIMIT && self.y + self.h <= ARENA_LIMIT
    }

    /// Lowest admissible centre on the horizontal axis for radius `r`.
    pub open spec fn left(self, r: int) -> int {
        self.x + r
    }

    /// Highest admissible centre on the horizontal axis for radius `r`.
    pub open spec fn right(self, r: int) -> int {
        self.x + self.w - r
    }

    /// Lowest admissible centre on the vertical axis for radius `r`.
    pub open spec fn top(self, r: int) -> int {
        self.y + r
    }

    /// Highest admissible centre on the vertical axis for radius `r`.
    pub open spec fn bottom(self, r: int) -> int {
        self.y + self.h - r
    }

    /// The arena after one shrink step: each side moves inward by
    /// `SHRINK_STEP`, the centre stays put.
    pub open spec fn shrunk(self) -> Arena {
        Arena {
            x: (self.x + SHRINK_STEP) as i64,
            y: (self.y + SHRINK_STEP) as i64,
            w: (self.w - 2 * SHRINK_STEP) as i64,
            h: (self.h - 2 * SHRINK_STEP) as i64,
        }
    }

    /// Contracts the arena by one shrink step.
    pub fn shrink(&mut self)
        requires
            old(self).wf(),
            old(self).w >= 2 * SHRINK_STEP,
            old(self).h >= 2 * SHRINK_STEP,
        ensures
            *final(self) == old(self).shrunk(),
            final(self).wf(),
    {
        self.x = self.x + SHRINK_STEP;
        self.y = self.y + SHRINK_STEP;
        self.w = self.w - 2 * SHRINK_STEP;
        self.h = self.h - 2 * SHRINK_STEP;
    }
}

/// Clip `p` into `[lo, hi]`: first down to `hi`, then up to `lo`, so that a
/// degenerate interval (`hi < lo`) yields `lo`.
pub open spec fn clamp_axis(p: int, lo: int, hi: int) -> int {
    let q = if p > hi {
        hi
    } else {
        p
    };
    if q < lo {
        lo
    } else {
        q
    }
}

/// Elastic bounce on one axis: a position beyond a bound is pinned to it
/// and the velocity component changes sign.
pub open spec fn reflect_axis(p: int, v: int, lo: int, hi: int) -> (int, int) {
    if p > hi {
        (hi, -v)
    } else if p < lo {
        (lo, -v)
    } else {
        (p, v)
    }
}

pub fn clamp_coordinate(p: i64, lo: i64, hi: i64) -> (r: i64)
    ensures
        r == clamp_axis(p as int, lo as int, hi as int),
{
    let q: i64 = if p > hi {
        hi
    } else {
        p
    };
    if q < lo {
        lo
    } else {
        q
    }
}

pub fn reflect_coordinate(p: i64, v: i64, lo: i64, hi: i64) -> (r: (i64, i64))
    requires
        v > i64::MIN,
    ensures
        (r.0 as int, r.1 as int) == reflect_axis(p as int, v as int, lo as int, hi as int),
{
    if p > hi {
        (hi, -v)
    } else if p < lo {
        (lo, -v)
    } else {
        (p, v)
    }
}

/// Clamping lands inside a non-empty interval.
pub proof fn lemma_clamp_axis_inside(p: int, lo: int, hi: int)
    requires
        lo <= hi,
    ensures
        lo <= clamp_axis(p, lo, hi) <= hi,
        lo <= p <= hi ==> clamp_axis(p, lo, hi) == p,
{
}

} // verus!
