//! The three lateral stop positions a player can occupy, and how a lateral
//! request picks the next one.
use vstd::prelude::*;

verus! {

/// Lateral positions are fixed-point: this many units make one unit of distance.
pub const UNITS_PER_DISTANCE: i64 = 1000;

/// The three lateral stop positions, in fixed-point units, ordered left to right.
#[derive(Clone, Copy, Debug, PartialEq, Eq, Structural)]
pub struct LaneSet {
    pub left: i64,
    pub middle: i64,
    pub right: i64,
}

impl LaneSet {
    /// The lanes are strictly ordered from left to right.
    pub open spec fn wf(&self) -> bool {
        self.left < self.middle < self.right
    }

    /// `x` is one of the three stop positions.
    pub open spec fn is_lane(&self, x: int) -> bool {
        x == self.left as int || x == self.middle as int || x == self.right as int
    }

    /// `x` lies between the outermost lanes.
    pub open spec fn in_span(&self, x: int) -> bool {
        self.left as int <= x <= self.right as int
    }

    /// The lane a leftward request aims at from `x`: the nearest lane strictly to
    /// the left, looking no further than Middle while `x` is right of Middle;
    /// none when `x` is at or beyond Left.
    pub open spec fn spec_snap_left(&self, x: int) -> Option<i64> {
        if x > self.middle as int {
            Some(self.middle)
        } else if x > self.left as int {
            Some(self.left)
        } else {
            None
        }
    }

    /// Mirror image of `spec_snap_left`.
    pub open spec fn spec_snap_right(&self, x: int) -> Option<i64> {
        if x < self.middle as int {
            Some(self.middle)
        } else if x < self.right as int {
            Some(self.right)
        } else {
            None
        }
    }

    /// Left = -2.5, Middle = 0, Right = 2.5 distance units.
    pub fn standard() -> (r: LaneSet)
        ensures
            r.wf(),
            r.left == -2500,
            r.middle == 0,
            r.right == 2500,
    {
        LaneSet { left: -5 * UNITS_PER_DISTANCE / 2, middle: 0, right: 5 * UNITS_PER_DISTANCE / 2 }
    }

    /// Builds a lane set; `None` unless `left < middle < right`.
    pub fn new(left: i64, middle: i64, right: i64) -> (r: Option<LaneSet>)
        ensures
            r is Some <==> left < middle < right,
            r matches Some(l) ==> l.left == left && l.middle == middle && l.right == right,
    {
        if left < middle && middle < right {
            Some(LaneSet { left, middle, right })
        } else {
            None
        }
    }

    /// The lane a leftward request aims at from `x` (see `spec_snap_left`).
    pub fn snap_left(&self, x: i64) -> (r: Option<i64>)
        ensures
            r == self.spec_snap_left(x as int),
    {
        if x > self.middle {
            Some(self.middle)
        } else if x > self.left {
            Some(self.left)
        } else {
            None
        }
    }

    /// The lane a rightward request aims at from `x` (see `spec_snap_right`).
    pub fn snap_right(&self, x: i64) -> (r: Option<i64>)
        ensures
            r == self.spec_snap_right(x as int),
    {
        if x < self.middle {
            Some(self.middle)
        } else if x < self.right {
            Some(self.right)
        } else {
            None
        }
    }
}

} // verus!
