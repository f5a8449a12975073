//! Separation of intervals, on a line and on the ring.

use vstd::prelude::*;
use crate::vector::{fits, magnitude, smaller};
use crate::wraparound::{fold, in_wraparound_space, lemma_fold_is_periodic, valid_border};

verus! {

/// Whether two intervals share more than a point.
pub open spec fn overlapping(l1: int, h1: int, l2: int, h2: int) -> bool {
    l1 < h2 && l2 < h1
}

/// The displacement of interval 1 along one axis that ends its overlap with
/// interval 2, and zero where they do not overlap.
///
/// Where interval 1 sticks out on the low side it leaves towards the low side
/// (a negative value), where it sticks out on the high side towards the high
/// side. Where one interval lies within the other, the value is the length of
/// the shorter of the two ways out.
pub open spec fn axis_separation(l1: int, h1: int, l2: int, h2: int) -> int {
    if !overlapping(l1, h1, l2, h2) {
        0
    } else if l1 < l2 && h1 < h2 {
        l2 - h1
    } else if l2 < l1 && h2 < h1 {
        h2 - l1
    } else {
        smaller(h2 - l1, h1 - l2)
    }
}

/// Computes [`axis_separation`] of two intervals on an axis that does not wrap.
pub fn axis_collision(l1: i64, h1: i64, l2: i64, h2: i64) -> (s: i64)
    requires
        fits(h2 - l1),
        fits(h1 - l2),
    ensures
        s == axis_separation(l1 as int, h1 as int, l2 as int, h2 as int),
        s != 0 <==> overlapping(l1 as int, h1 as int, l2 as int, h2 as int),
{
    if !(l1 < h2 && l2 < h1) {
        0
    } else if l1 < l2 && h1 < h2 {
        l2 - h1
    } else if l2 < l1 && h2 < h1 {
        h2 - l1
    } else {
        let right: i64 = h2 - l1;
        let left: i64 = h1 - l2;
        if right <= left {
            right
        } else {
            left
        }
    }
}

/// Intervals that do not overlap have no separation.
pub proof fn lemma_disjoint_intervals_have_zero_separation(l1: int, h1: int, l2: int, h2: int)
    requires
        h1 <= l2 || h2 <= l1,
    ensures
        axis_separation(l1, h1, l2, h2) == 0,
{
}

/// Where one interval lies within the other and they overlap, the separation
/// has the length of the shorter of the way out on the high side, `h2 - l1`,
/// and the way out on the low side, `l2 - h1`.
pub proof fn lemma_enclosed_separation_is_shorter_escape(l1: int, h1: int, l2: int, h2: int)
    requires
        overlapping(l1, h1, l2, h2),
        (l2 <= l1 && h1 <= h2) || (l1 <= l2 && h2 <= h1),
    ensures
        magnitude(axis_separation(l1, h1, l2, h2)) == smaller(
            magnitude(h2 - l1),
            magnitude(l2 - h1),
        ),
{
}

/// The separation is what it takes to part two intervals: moved by it, to
/// the one side or to the other, interval 1 no longer overlaps interval 2, and
/// moved by any less it still does.
pub proof fn lemma_separation_parts_intervals(l1: int, h1: int, l2: int, h2: int, d: int)
    requires
        l1 <= h1,
        l2 <= h2,
    ensures
        ({
            let s = axis_separation(l1, h1, l2, h2);
            &&& !overlapping(l1 + s, h1 + s, l2, h2) || !overlapping(l1 - s, h1 - s, l2, h2)
            &&& magnitude(d) < magnitude(s) ==> overlapping(l1 + d, h1 + d, l2, h2)
        }),
{
}

/// A separation on the ring: a displacement, or none that moving along the
/// axis could reach.
#[derive(Clone, Copy, Debug, PartialEq, Eq, Structural)]
pub enum RingSeparation {
    /// The intervals part after this displacement; zero where they do not overlap.
    Finite(i64),
    /// The intervals together reach all the way around the ring.
    Infinite,
}

/// The four bounds of two intervals, brought into one frame.
pub struct Unwrapped {
    pub l1: int,
    pub h1: int,
    pub l2: int,
    pub h2: int,
}

/// Brings two intervals of the ring into one frame: an interval whose low
/// bound lies above its high bound straddles the seam, and the other three
/// bounds are moved down by the width of the world, first for interval 1 and
/// then for interval 2.
pub open spec fn unwrapped(l1: int, h1: int, l2: int, h2: int, world_width: int) -> Unwrapped {
    let a = if l1 > h1 {
        Unwrapped { l1: l1 - world_width, h1: h1, l2: l2 - world_width, h2: h2 - world_width }
    } else {
        Unwrapped { l1: l1, h1: h1, l2: l2, h2: h2 }
    };
    if a.l2 > a.h2 {
        Unwrapped { l1: a.l1 - world_width, h1: a.h1 - world_width, l2: a.l2 - world_width, h2: a.h2 }
    } else {
        a
    }
}

/// Whether the spans of two intervals of the ring add up to more than the
/// width of the world.
pub open spec fn spans_exceed_ring(l1: int, h1: int, l2: int, h2: int, world_width: int) -> bool {
    let u = unwrapped(l1, h1, l2, h2, world_width);
    (u.h1 - u.l1) + (u.h2 - u.l2) > world_width
}

/// The separation of two intervals of the ring whose spans do not exceed it.
pub open spec fn axis_separation_wrapped(l1: int, h1: int, l2: int, h2: int, world_width: int) -> int {
    let u = unwrapped(l1, h1, l2, h2, world_width);
    axis_separation(u.l1, u.h1, u.l2, u.h2)
}

/// Computes the separation of two intervals on the axis that wraps.
///
/// The bounds are taken in wraparound space. The result is infinite exactly
/// where the two spans add up to more than the width of the world.
pub fn axis_collision_wraparound(l1: i64, h1: i64, l2: i64, h2: i64, world_width: i64) -> (s: RingSeparation)
    requires
        valid_border(world_width as int),
        in_wraparound_space(l1 as int, world_width as int),
        in_wraparound_space(h1 as int, world_width as int),
        in_wraparound_space(l2 as int, world_width as int),
        in_wraparound_space(h2 as int, world_width as int),
    ensures
        s is Infinite <==> spans_exceed_ring(
            l1 as int,
            h1 as int,
            l2 as int,
            h2 as int,
            world_width as int,
        ),
        s is Finite ==> s->Finite_0 == axis_separation_wrapped(
            l1 as int,
            h1 as int,
            l2 as int,
            h2 as int,
            world_width as int,
        ),
{
    let mut l1: i64 = l1;
    let mut h1: i64 = h1;
    let mut l2: i64 = l2;
    let mut h2: i64 = h2;
    if l1 > h1 {
        l1 = l1 - world_width;
        l2 = l2 - world_width;
        h2 = h2 - world_width;
    }
    if l2 > h2 {
        l2 = l2 - world_width;
        l1 = l1 - world_width;
        h1 = h1 - world_width;
    }
    if (h1 - l1) + (h2 - l2) > world_width {
        return RingSeparation::Infinite;
    }
    RingSeparation::Finite(axis_collision(l1, h1, l2, h2))
}

/// The length of an interval of the ring: an interval whose low bound lies
/// above its high bound reaches across the seam.
pub open spec fn ring_span(l: int, h: int, world_width: int) -> int {
    if l > h {
        h - l + world_width
    } else {
        h - l
    }
}

/// The separation of two intervals of the ring is infinite exactly where
/// their lengths on the ring add up to more than the width of the world.
pub proof fn lemma_infinite_where_spans_exceed_ring(l1: int, h1: int, l2: int, h2: int, world_width: int)
    ensures
        spans_exceed_ring(l1, h1, l2, h2, world_width) <==> ring_span(l1, h1, world_width)
            + ring_span(l2, h2, world_width) > world_width,
{
}

/// The frame that two intervals of the ring are brought into keeps their
/// places and their lengths: every bound moves by a whole number of widths,
/// each interval has its low bound below its high bound, and its length is its
/// length on the ring.
pub proof fn lemma_unwrapped_keeps_places(l1: int, h1: int, l2: int, h2: int, world_width: int)
    requires
        world_width > 0,
        in_wraparound_space(l1, world_width),
        in_wraparound_space(h1, world_width),
        in_wraparound_space(l2, world_width),
        in_wraparound_space(h2, world_width),
    ensures
        ({
            let u = unwrapped(l1, h1, l2, h2, world_width);
            &&& u.l1 <= u.h1
            &&& u.l2 <= u.h2
            &&& u.h1 - u.l1 == ring_span(l1, h1, world_width)
            &&& u.h2 - u.l2 == ring_span(l2, h2, world_width)
            &&& (l1 - u.l1 == 0 || l1 - u.l1 == world_width || l1 - u.l1 == 2 * world_width)
            &&& (h1 - u.h1 == 0 || h1 - u.h1 == world_width)
            &&& (l2 - u.l2 == 0 || l2 - u.l2 == world_width || l2 - u.l2 == 2 * world_width)
            &&& (h2 - u.h2 == 0 || h2 - u.h2 == world_width)
        }),
{
}

/// The separation on the ring is periodic: an interval and the same interval
/// one width of the world further give, once their bounds are folded, the same
/// result against any other interval.
pub proof fn lemma_wrapped_separation_is_periodic(l1: int, h1: int, l2: int, h2: int, world_width: int)
    requires
        world_width > 0,
    ensures
        spans_exceed_ring(
            fold(l1 + world_width, world_width),
            fold(h1 + world_width, world_width),
            l2,
            h2,
            world_width,
        ) == spans_exceed_ring(fold(l1, world_width), fold(h1, world_width), l2, h2, world_width),
        axis_separation_wrapped(
            fold(l1 + world_width, world_width),
            fold(h1 + world_width, world_width),
            l2,
            h2,
            world_width,
        ) == axis_separation_wrapped(
            fold(l1, world_width),
            fold(h1, world_width),
            l2,
            h2,
            world_width,
        ),
        spans_exceed_ring(
            l1,
            h1,
            fold(l2 + world_width, world_width),
            fold(h2 + world_width, world_width),
            world_width,
        ) == spans_exceed_ring(l1, h1, fold(l2, world_width), fold(h2, world_width), world_width),
        axis_separation_wrapped(
            l1,
            h1,
            fold(l2 + world_width, world_width),
            fold(h2 + world_width, world_width),
            world_width,
        ) == axis_separation_wrapped(
            l1,
            h1,
            fold(l2, world_width),
            fold(h2, world_width),
            world_width,
        ),
{
    lemma_fold_is_periodic(l1, world_width);
    lemma_fold_is_periodic(h1, world_width);
    lemma_fold_is_periodic(l2, world_width);
    lemma_fold_is_periodic(h2, world_width);
}

} // verus!
