//! Limits on the velocity of a body.

use vstd::prelude::*;
use crate::vector::V2;

verus! {

/// The interval that each component of a velocity is kept in.
#[derive(Clone, Copy, Debug, PartialEq, Eq, Structural)]
pub struct SpeedClamps {
    pub pos_x: i64,
    pub neg_x: i64,
    pub pos_y: i64,
    pub neg_y: i64,
}

/// A scalar, moved to the nearer bound where it lies outside `[low, high]`.
pub open spec fn clamped(v: int, low: int, high: int) -> int {
    if v < low {
        low
    } else if v > high {
        high
    } else {
        v
    }
}

impl SpeedClamps {
    /// On each axis the lower limit does not lie above the upper one.
    pub open spec fn wf(self) -> bool {
        self.neg_x <= self.pos_x && self.neg_y <= self.pos_y
    }

    /// Limits that allow a speed of `x` on the x-axis and of `y` on the y-axis
    /// in either direction.
    pub fn new_from_x_y(x: i64, y: i64) -> (c: SpeedClamps)
        requires
            x >= 0,
            y >= 0,
        ensures
            c == (SpeedClamps { pos_x: x, neg_x: (-x) as i64, pos_y: y, neg_y: (-y) as i64 }),
            c.neg_x == -x,
            c.neg_y == -y,
            c.wf(),
    {
        SpeedClamps { pos_x: x, neg_x: -x, pos_y: y, neg_y: -y }
    }

    /// Limits that allow a speed of `a` on both axes in either direction.
    pub fn new_from_single(a: i64) -> (c: SpeedClamps)
        requires
            a >= 0,
        ensures
            c == (SpeedClamps { pos_x: a, neg_x: (-a) as i64, pos_y: a, neg_y: (-a) as i64 }),
            c.neg_x == -a,
            c.neg_y == -a,
            c.wf(),
    {
        SpeedClamps::new_from_x_y(a, a)
    }

    /// The velocity with each component brought within its limits.
    pub fn clamp_velocity(&self, velocity: V2) -> (v: V2)
        requires
            self.wf(),
        ensures
            v.x == clamped(velocity.x as int, self.neg_x as int, self.pos_x as int),
            v.y == clamped(velocity.y as int, self.neg_y as int, self.pos_y as int),
            self.neg_x <= v.x <= self.pos_x,
            self.neg_y <= v.y <= self.pos_y,
    {
        V2 {
            x: clamp_scalar(velocity.x, self.neg_x, self.pos_x),
            y: clamp_scalar(velocity.y, self.neg_y, self.pos_y),
        }
    }
}

/// Brings a scalar within `[low, high]`.
fn clamp_scalar(v: i64, low: i64, high: i64) -> (c: i64)
    ensures
        c == clamped(v as int, low as int, high as int),
{
    if v < low {
        low
    } else if v > high {
        high
    } else {
        v
    }
}

} // verus!
