//! Scalars and two-dimensional vectors.

use vstd::prelude::*;

verus! {

/// Whether a mathematical integer can be stored in a scalar.
pub open spec fn fits(v: int) -> bool {
    i64::MIN <= v <= i64::MAX
}

/// The absolute value of an integer.
pub open spec fn magnitude(v: int) -> int {
    if v < 0 {
        -v
    } else {
        v
    }
}

/// The smaller of two integers.
pub open spec fn smaller(a: int, b: int) -> int {
    if a <= b {
        a
    } else {
        b
    }
}

/// A vector of two scalars.
#[derive(Clone, Copy, Debug, PartialEq, Eq, Structural)]
pub struct V2 {
    pub x: i64,
    pub y: i64,
}

impl V2 {
    /// The vector with the given components.
    pub fn new(x: i64, y: i64) -> (v: V2)
        ensures
            v.x == x,
            v.y == y,
    {
        V2 { x, y }
    }

    /// The vector whose components are both zero.
    pub fn zero() -> (v: V2)
        ensures
            v.x == 0,
            v.y == 0,
    {
        V2 { x: 0, y: 0 }
    }

    /// Whether `self + other` can be stored componentwise.
    pub open spec fn sum_fits(self, other: V2) -> bool {
        fits(self.x + other.x) && fits(self.y + other.y)
    }

    /// Whether `self - other` can be stored componentwise.
    pub open spec fn difference_fits(self, other: V2) -> bool {
        fits(self.x - other.x) && fits(self.y - other.y)
    }

    /// Componentwise sum.
    pub fn plus(self, other: V2) -> (v: V2)
        requires
            self.sum_fits(other),
        ensures
            v.x == self.x + other.x,
            v.y == self.y + other.y,
    {
        V2 { x: self.x + other.x, y: self.y + other.y }
    }

    /// Componentwise sum, or nothing where it cannot be stored.
    pub fn checked_plus(self, other: V2) -> (v: Option<V2>)
        ensures
            v is Some <==> self.sum_fits(other),
            v is Some ==> v->Some_0.x == self.x + other.x && v->Some_0.y == self.y + other.y,
    {
        match self.x.checked_add(other.x) {
            None => None,
            Some(x) => match self.y.checked_add(other.y) {
                None => None,
                Some(y) => Some(V2 { x, y }),
            },
        }
    }

    /// Componentwise difference.
    pub fn minus(self, other: V2) -> (v: V2)
        requires
            self.difference_fits(other),
        ensures
            v.x == self.x - other.x,
            v.y == self.y - other.y,
    {
        V2 { x: self.x - other.x, y: self.y - other.y }
    }
}

} // verus!
