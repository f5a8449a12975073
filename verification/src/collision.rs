//! Colliders, the resolution of collisions with terrain, and the detection
//! of collisions between bodies that move.

use vstd::prelude::*;
use crate::vector::{fits, magnitude, V2};
use crate::physics::Body;
use crate::grounded::GroundedState;
use crate::separation::{
    axis_collision, axis_collision_wraparound, axis_separation, axis_separation_wrapped,
    overlapping, spans_exceed_ring, RingSeparation,
};
use crate::wraparound::{
    coord_space_to_wraparound_space, fold, in_wraparound_space, lemma_fold_is_periodic, valid_border,
};

verus! {

/// An axis-aligned box that is attached to a body.
#[derive(Clone, Copy, Debug, PartialEq, Eq, Structural)]
pub struct SquareCollider {
    /// The low corner, relative to the body.
    pub min: V2,
    /// The high corner, relative to the body.
    pub max: V2,
    /// Added to the body's position where the box is attached.
    pub offset: V2,
    /// Scales the forces with which terrain pushes back.
    pub bounce: i64,
}

impl Default for SquareCollider {
    /// The box that reaches one unit from the body in every direction, with a
    /// bounce of one.
    fn default() -> (c: SquareCollider)
        ensures
            c == (SquareCollider {
                min: V2 { x: -1i64, y: -1i64 },
                max: V2 { x: 1, y: 1 },
                offset: V2 { x: 0, y: 0 },
                bounce: 1,
            }),
            c.wf(),
    {
        SquareCollider {
            min: V2::new(-1, -1),
            max: V2::new(1, 1),
            offset: V2::zero(),
            bounce: 1,
        }
    }
}

impl SquareCollider {
    /// The low corner does not lie above the high corner on either axis.
    pub open spec fn wf(self) -> bool {
        self.min.x <= self.max.x && self.min.y <= self.max.y
    }

    /// The force with which terrain pushes back on the body of this box: the
    /// response scaled by the bounce of the box, or nothing where it cannot be
    /// stored. A bounce of zero disables the push.
    pub fn bounce_force(&self, response: V2) -> (force: Option<V2>)
        ensures
            force is Some <==> fits(response.x * self.bounce) && fits(response.y * self.bounce),
            force is Some ==> force->Some_0.x == response.x * self.bounce && force->Some_0.y
                == response.y * self.bounce,
    {
        match response.x.checked_mul(self.bounce) {
            None => None,
            Some(x) => match response.y.checked_mul(self.bounce) {
                None => None,
                Some(y) => Some(V2 { x, y }),
            },
        }
    }

    /// Whether the corners of the box can be computed for a body at
    /// `center_point`.
    pub open spec fn bounds_fit(self, border_distance: int, center_point: V2) -> bool {
        &&& fits(self.min.x + center_point.x)
        &&& fits(self.min.y + center_point.y)
        &&& fits(self.max.x + center_point.x)
        &&& fits(self.max.y + center_point.y)
        &&& fits(self.min.x + center_point.x + self.offset.x)
        &&& fits(self.min.y + center_point.y + self.offset.y)
        &&& fits(self.max.x + center_point.x + self.offset.x)
        &&& fits(self.max.y + center_point.y + self.offset.y)
        &&& fits(self.min.x + center_point.x + self.offset.x + border_distance / 2)
        &&& fits(self.max.x + center_point.x + self.offset.x + border_distance / 2)
    }

    /// The low corner of the box in the world: the body's position and the
    /// offset are added, and the x-coordinate is folded.
    pub open spec fn world_min(self, border_distance: int, center_point: V2) -> V2 {
        V2 {
            x: fold(self.min.x + center_point.x + self.offset.x, border_distance) as i64,
            y: (self.min.y + center_point.y + self.offset.y) as i64,
        }
    }

    /// The high corner of the box in the world.
    pub open spec fn world_max(self, border_distance: int, center_point: V2) -> V2 {
        V2 {
            x: fold(self.max.x + center_point.x + self.offset.x, border_distance) as i64,
            y: (self.max.y + center_point.y + self.offset.y) as i64,
        }
    }

    /// The corners of the box in the world, low then high, for a body at
    /// `center_point`. Their x-coordinates are in wraparound space.
    pub fn border_adjusted_bounds(&self, border_distance: i64, center_point: V2) -> (bounds: (V2, V2))
        requires
            valid_border(border_distance as int),
            self.bounds_fit(border_distance as int, center_point),
        ensures
            bounds.0 == self.world_min(border_distance as int, center_point),
            bounds.1 == self.world_max(border_distance as int, center_point),
            bounds.0.x == fold(self.min.x + center_point.x + self.offset.x, border_distance as int),
            bounds.1.x == fold(self.max.x + center_point.x + self.offset.x, border_distance as int),
            bounds.0.y == self.min.y + center_point.y + self.offset.y,
            bounds.1.y == self.max.y + center_point.y + self.offset.y,
            in_wraparound_space(bounds.0.x as int, border_distance as int),
            in_wraparound_space(bounds.1.x as int, border_distance as int),
    {
        let min = self.min.plus(center_point).plus(self.offset);
        let max = self.max.plus(center_point).plus(self.offset);
        (
            V2 { x: coord_space_to_wraparound_space(min.x, border_distance), y: min.y },
            V2 { x: coord_space_to_wraparound_space(max.x, border_distance), y: max.y },
        )
    }
}

/// A body that stands one width of the world further has the same box in the
/// world.
pub proof fn lemma_bounds_are_periodic(c: SquareCollider, border_distance: int, here: V2, there: V2)
    requires
        border_distance > 0,
        there.x == here.x + border_distance,
        there.y == here.y,
    ensures
        c.world_min(border_distance, there) == c.world_min(border_distance, here),
        c.world_max(border_distance, there) == c.world_max(border_distance, here),
{
    lemma_fold_is_periodic(c.min.x + here.x + c.offset.x, border_distance);
    lemma_fold_is_periodic(c.max.x + here.x + c.offset.x, border_distance);
    assert(c.min.x + there.x + c.offset.x == c.min.x + here.x + c.offset.x + border_distance);
    assert(c.max.x + there.x + c.offset.x == c.max.x + here.x + c.offset.x + border_distance);
}

/// The displacements that would part two boxes, one for each axis.
#[derive(Clone, Copy, Debug, PartialEq, Eq, Structural)]
pub struct SeparationVector {
    pub x: RingSeparation,
    pub y: i64,
}

impl SeparationVector {
    /// The vector that stands for no collision.
    pub open spec fn zero() -> SeparationVector {
        SeparationVector { x: RingSeparation::Finite(0), y: 0 }
    }

    /// Whether the vector stands for a collision: it is not the zero vector.
    pub open spec fn collides(self) -> bool {
        self != SeparationVector::zero()
    }

    /// Whether the vector is the zero vector.
    pub fn is_zero(&self) -> (z: bool)
        ensures
            z == !self.collides(),
    {
        match self.x {
            RingSeparation::Finite(sx) => sx == 0 && self.y == 0,
            RingSeparation::Infinite => false,
        }
    }
}

/// Whether two boxes of the world collide: on both axes their separation is
/// not zero.
pub open spec fn boxes_collide(min1: V2, max1: V2, min2: V2, max2: V2, border_distance: int) -> bool {
    &&& (spans_exceed_ring(min1.x as int, max1.x as int, min2.x as int, max2.x as int, border_distance)
        || axis_separation_wrapped(
        min1.x as int,
        max1.x as int,
        min2.x as int,
        max2.x as int,
        border_distance,
    ) != 0)
    &&& overlapping(min1.y as int, max1.y as int, min2.y as int, max2.y as int)
}

/// The separation of two boxes of the world on each axis, or the zero vector
/// where they do not collide.
pub open spec fn separation_vector(min1: V2, max1: V2, min2: V2, max2: V2, border_distance: int) -> SeparationVector {
    if !boxes_collide(min1, max1, min2, max2, border_distance) {
        SeparationVector::zero()
    } else {
        SeparationVector {
            x: if spans_exceed_ring(
                min1.x as int,
                max1.x as int,
                min2.x as int,
                max2.x as int,
                border_distance,
            ) {
                RingSeparation::Infinite
            } else {
                RingSeparation::Finite(
                    axis_separation_wrapped(
                        min1.x as int,
                        max1.x as int,
                        min2.x as int,
                        max2.x as int,
                        border_distance,
                    ) as i64,
                )
            },
            y: axis_separation(min1.y as int, max1.y as int, min2.y as int, max2.y as int) as i64,
        }
    }
}

/// The shortest displacement on each axis that would part two boxes of the
/// world, or the zero vector where they do not collide. The x-coordinates are
/// taken in wraparound space.
pub fn compute_separation_vector(min1: V2, max1: V2, min2: V2, max2: V2, border_distance: i64) -> (sv:
    SeparationVector)
    requires
        valid_border(border_distance as int),
        in_wraparound_space(min1.x as int, border_distance as int),
        in_wraparound_space(max1.x as int, border_distance as int),
        in_wraparound_space(min2.x as int, border_distance as int),
        in_wraparound_space(max2.x as int, border_distance as int),
        fits(max2.y - min1.y),
        fits(max1.y - min2.y),
    ensures
        sv == separation_vector(min1, max1, min2, max2, border_distance as int),
        sv.collides() == boxes_collide(min1, max1, min2, max2, border_distance as int),
        sv.collides() ==> {
            &&& sv.y == axis_separation(min1.y as int, max1.y as int, min2.y as int, max2.y as int)
            &&& (sv.x is Infinite <==> spans_exceed_ring(
                min1.x as int,
                max1.x as int,
                min2.x as int,
                max2.x as int,
                border_distance as int,
            ))
            &&& (sv.x is Finite ==> sv.x->Finite_0 == axis_separation_wrapped(
                min1.x as int,
                max1.x as int,
                min2.x as int,
                max2.x as int,
                border_distance as int,
            ))
        },
{
    let sx = axis_collision_wraparound(min1.x, max1.x, min2.x, max2.x, border_distance);
    let sy = axis_collision(min1.y, max1.y, min2.y, max2.y);
    let x_is_zero = match sx {
        RingSeparation::Finite(v) => v == 0,
        RingSeparation::Infinite => false,
    };
    if x_is_zero || sy == 0 {
        return SeparationVector { x: RingSeparation::Finite(0), y: 0 };
    }
    SeparationVector { x: sx, y: sy }
}

/// The largest magnitude of the positions, velocities and box corners of the
/// bodies that a pass over the world accepts.
pub const SCALAR_LIMIT: i64 = 0x100_0000_0000;

/// The largest number of bodies that a pass over the world accepts.
pub const MAX_BODIES: usize = 0x1_0000;

/// Whether a scalar is within [`SCALAR_LIMIT`] of zero.
pub open spec fn bounded(v: int) -> bool {
    -SCALAR_LIMIT <= v <= SCALAR_LIMIT
}

/// Whether both components of a vector are within [`SCALAR_LIMIT`] of zero.
pub open spec fn bounded_vector(v: V2) -> bool {
    bounded(v.x as int) && bounded(v.y as int)
}

/// Whether a body is well formed and a pass over the world accepts it.
pub open spec fn in_range(b: Body) -> bool {
    &&& b.wf()
    &&& bounded_vector(b.position)
    &&& bounded_vector(b.velocity)
    &&& b.collider is Some ==> {
        &&& bounded_vector(b.collider->Some_0.min)
        &&& bounded_vector(b.collider->Some_0.max)
        &&& bounded_vector(b.collider->Some_0.offset)
    }
}

/// Whether every body of a world is accepted by a pass, and the world holds
/// no more than [`MAX_BODIES`] of them.
pub open spec fn world_in_range(bodies: Seq<Body>) -> bool {
    &&& bodies.len() <= MAX_BODIES
    &&& forall|i: int| 0 <= i < bodies.len() ==> in_range(#[trigger] bodies[i])
}

/// Tells whether a scalar is within [`SCALAR_LIMIT`] of zero.
fn is_bounded(v: i64) -> (ok: bool)
    ensures
        ok == bounded(v as int),
{
    -SCALAR_LIMIT <= v && v <= SCALAR_LIMIT
}

/// Tells whether both components of a vector are within [`SCALAR_LIMIT`] of
/// zero.
fn is_bounded_vector(v: V2) -> (ok: bool)
    ensures
        ok == bounded_vector(v),
{
    is_bounded(v.x) && is_bounded(v.y)
}

/// Tells whether a pass over the world accepts a body.
pub fn body_is_in_range(b: &Body) -> (ok: bool)
    ensures
        ok == in_range(*b),
{
    b.is_well_formed() && is_bounded_vector(b.position) && is_bounded_vector(b.velocity)
        && match b.collider {
        Some(c) => is_bounded_vector(c.min) && is_bounded_vector(c.max) && is_bounded_vector(
            c.offset,
        ),
        None => true,
    }
}

/// Tells whether a pass over the world accepts all of its bodies.
pub fn world_is_in_range(bodies: &Vec<Body>) -> (ok: bool)
    ensures
        ok == world_in_range(bodies@),
{
    if bodies.len() > MAX_BODIES {
        return false;
    }
    let mut i: usize = 0;
    while i < bodies.len()
        invariant
            i <= bodies.len(),
            bodies.len() <= MAX_BODIES,
            forall|k: int| 0 <= k < i ==> in_range(#[trigger] bodies@[k]),
        decreases bodies.len() - i,
    {
        if !body_is_in_range(&bodies[i]) {
            return false;
        }
        i += 1;
    }
    true
}

/// Terrain: a static body that collides.
pub open spec fn is_terrain(b: Body) -> bool {
    b.is_static && b.collider is Some
}

/// A body that collides and is not static.
pub open spec fn is_mover(b: Body) -> bool {
    !b.is_static && b.collider is Some
}

/// The corners of a colliding body's box in the world, low then high.
pub open spec fn world_bounds(b: Body, border_distance: int) -> (V2, V2) {
    (
        b.collider->Some_0.world_min(border_distance, b.position),
        b.collider->Some_0.world_max(border_distance, b.position),
    )
}

/// The separation of a box of the world from the box of a colliding body.
pub open spec fn contact_vector(bounds: (V2, V2), other: Body, border_distance: int) -> SeparationVector {
    let theirs = world_bounds(other, border_distance);
    separation_vector(bounds.0, bounds.1, theirs.0, theirs.1, border_distance)
}

/// A separation, turned to the side on which the body lies: its sign is
/// flipped where the body's position is the lower of the two.
pub open spec fn oriented(s: int, own: int, other: int) -> int {
    if own - other < 0 {
        -s
    } else {
        s
    }
}

/// Whether a displacement and a relative velocity on one axis have opposite
/// signs.
pub open spec fn closing(s: int, rel: int) -> bool {
    s * rel < 0
}

/// Whether a collision is resolved on the x-axis: the separation on it is the
/// shorter one. An infinite separation is never the shorter one.
pub open spec fn resolves_on_x(sv: SeparationVector) -> bool {
    sv.x is Finite && magnitude(sv.x->Finite_0 as int) < magnitude(sv.y as int)
}

/// A body during the pass that resolves it against terrain.
#[derive(Clone, Copy, Debug)]
pub struct Resolving {
    pub body: Body,
    /// Whether the pass may still point the body's grounded relation at
    /// terrain: it does so once.
    pub may_ground: bool,
}

/// The response of a body to one collision with terrain.
///
/// Only the axis with the shorter separation is corrected, and only where the
/// body closes in on the terrain on that axis: the position moves by the
/// oriented separation and the velocity on that axis becomes that of the
/// terrain. A collision that is resolved on the y-axis with a positive
/// oriented separation grounds the body on the terrain, if the pass has not
/// grounded it before.
pub open spec fn resolve_step(r: Resolving, sv: SeparationVector, other: Body) -> Resolving {
    let b = r.body;
    if !sv.collides() {
        r
    } else if resolves_on_x(sv) {
        let sx = oriented(sv.x->Finite_0 as int, b.position.x as int, other.position.x as int);
        if closing(sx, b.velocity.x - other.velocity.x) {
            Resolving {
                body: Body {
                    position: V2 { x: (b.position.x + sx) as i64, y: b.position.y },
                    velocity: V2 { x: other.velocity.x, y: b.velocity.y },
                    ..b
                },
                may_ground: r.may_ground,
            }
        } else {
            r
        }
    } else {
        let sy = oriented(sv.y as int, b.position.y as int, other.position.y as int);
        let moved = if closing(sy, b.velocity.y - other.velocity.y) {
            Body {
                position: V2 { x: b.position.x, y: (b.position.y + sy) as i64 },
                velocity: V2 { x: b.velocity.x, y: other.velocity.y },
                ..b
            }
        } else {
            b
        };
        if sy > 0 {
            Resolving {
                body: if r.may_ground && b.grounded is Some {
                    Body { grounded: Some(GroundedState::GroundedTo(other.id)), ..moved }
                } else {
                    moved
                },
                may_ground: false,
            }
        } else {
            Resolving { body: moved, may_ground: r.may_ground }
        }
    }
}

/// Whether the response to one collision can be computed.
pub open spec fn resolve_fits(b: Body, sv: SeparationVector, other: Body) -> bool {
    &&& b.position.difference_fits(other.position)
    &&& b.velocity.difference_fits(other.velocity)
    &&& fits(b.position.y + sv.y)
    &&& fits(b.position.y - sv.y)
    &&& sv.x is Finite ==> fits(b.position.x + sv.x->Finite_0) && fits(b.position.x - sv.x->Finite_0)
}

/// Whether a displacement and a relative velocity have opposite signs.
fn is_closing(s: i64, rel: i64) -> (c: bool)
    ensures
        c == closing(s as int, rel as int),
{
    assert(closing(s as int, rel as int) <==> ((s > 0 && rel < 0) || (s < 0 && rel > 0)))
        by (nonlinear_arith);
    (s > 0 && rel < 0) || (s < 0 && rel > 0)
}

/// The magnitude of a scalar that has one.
fn magnitude_of(v: i64) -> (m: i64)
    requires
        v > i64::MIN,
    ensures
        m == magnitude(v as int),
{
    if v < 0 {
        -v
    } else {
        v
    }
}

/// Responds to one collision of a body with terrain, as [`resolve_step`] says.
pub fn resolve_static_collision(r: Resolving, sv: SeparationVector, other: &Body) -> (out: Resolving)
    requires
        resolve_fits(r.body, sv, *other),
    ensures
        out == resolve_step(r, sv, *other),
{
    if sv.is_zero() {
        return r;
    }
    let b = r.body;
    let d = b.position.minus(other.position);
    let rel_v = b.velocity.minus(other.velocity);
    let shorter_x: Option<i64> = match sv.x {
        RingSeparation::Finite(sx) => if magnitude_of(sx) < magnitude_of(sv.y) {
            Some(sx)
        } else {
            None
        },
        RingSeparation::Infinite => None,
    };
    if let Some(separation) = shorter_x {
        let sx: i64 = if d.x < 0 {
            -separation
        } else {
            separation
        };
        if is_closing(sx, rel_v.x) {
            let mut moved = b;
            moved.position.x = b.position.x + sx;
            moved.velocity.x = b.velocity.x - rel_v.x;
            Resolving { body: moved, may_ground: r.may_ground }
        } else {
            r
        }
    } else {
        let sy: i64 = if d.y < 0 {
            -sv.y
        } else {
            sv.y
        };
        let mut moved = b;
        if is_closing(sy, rel_v.y) {
            moved.position.y = b.position.y + sy;
            moved.velocity.y = b.velocity.y - rel_v.y;
        }
        if sy > 0 {
            if r.may_ground && b.grounded.is_some() {
                moved.grounded = Some(GroundedState::GroundedTo(other.id));
            }
            Resolving { body: moved, may_ground: false }
        } else {
            Resolving { body: moved, may_ground: r.may_ground }
        }
    }
}

/// One response to a collision with terrain moves the body on one axis at
/// most: the other component of its position, and of its velocity, stays.
pub proof fn lemma_resolution_corrects_one_axis(r: Resolving, sv: SeparationVector, other: Body)
    ensures
        resolves_on_x(sv) ==> {
            &&& resolve_step(r, sv, other).body.position.y == r.body.position.y
            &&& resolve_step(r, sv, other).body.velocity.y == r.body.velocity.y
        },
        !resolves_on_x(sv) ==> {
            &&& resolve_step(r, sv, other).body.position.x == r.body.position.x
            &&& resolve_step(r, sv, other).body.velocity.x == r.body.velocity.x
        },
        resolves_on_x(sv) <==> sv.x is Finite && magnitude(sv.x->Finite_0 as int) < magnitude(
            sv.y as int,
        ),
{
}

/// A response grounds a body only on the terrain it collided with: the
/// grounded relation is the one it had, or names that terrain. It names that
/// terrain wherever the collision is resolved on the y-axis with a positive
/// oriented separation, the body keeps track of what it rests on, and the pass
/// has not grounded it before.
pub proof fn lemma_upward_resolution_grounds(r: Resolving, sv: SeparationVector, other: Body)
    ensures
        resolve_step(r, sv, other).body.grounded == r.body.grounded || resolve_step(
            r,
            sv,
            other,
        ).body.grounded == Some(GroundedState::GroundedTo(other.id)),
        sv.collides() && !resolves_on_x(sv) && oriented(
            sv.y as int,
            r.body.position.y as int,
            other.position.y as int,
        ) > 0 && r.may_ground && r.body.grounded is Some ==> resolve_step(
            r,
            sv,
            other,
        ).body.grounded == Some(GroundedState::GroundedTo(other.id)),
        !r.may_ground ==> resolve_step(r, sv, other).body.grounded == r.body.grounded,
{
}

/// The notice that a body collided with terrain.
#[derive(Clone, Copy, Debug, PartialEq, Eq, Structural)]
pub struct StaticCollisionEvent {
    /// The identity of the body.
    pub e1: u64,
    /// The identity of the terrain.
    pub e2: u64,
}

/// Whether the terrain among some bodies is accepted by a pass, and there are
/// no more than [`MAX_BODIES`] of them.
pub open spec fn terrain_in_range(bodies: Seq<Body>) -> bool {
    &&& bodies.len() <= MAX_BODIES
    &&& forall|i: int| 0 <= i < bodies.len() && is_terrain(#[trigger] bodies[i]) ==> in_range(bodies[i])
}

/// A body after its responses to the terrain among `others`, from index `from`
/// on and in the order of `others`. The separations are those of `bounds`, the
/// box that the body had before the pass.
pub open spec fn resolve_from(
    r: Resolving,
    bounds: (V2, V2),
    others: Seq<Body>,
    border_distance: int,
    from: int,
) -> Resolving
    decreases others.len() - from,
{
    if from < 0 || from >= others.len() {
        r
    } else {
        let other = others[from];
        let next = if is_terrain(other) {
            resolve_step(r, contact_vector(bounds, other, border_distance), other)
        } else {
            r
        };
        resolve_from(next, bounds, others, border_distance, from + 1)
    }
}

/// The notices of the collisions of a box with the terrain among `others`,
/// from index `from` on and in the order of `others`.
pub open spec fn contacts_from(
    id: u64,
    bounds: (V2, V2),
    others: Seq<Body>,
    border_distance: int,
    from: int,
) -> Seq<StaticCollisionEvent>
    decreases others.len() - from,
{
    if from < 0 || from >= others.len() {
        Seq::empty()
    } else {
        let other = others[from];
        let rest = contacts_from(id, bounds, others, border_distance, from + 1);
        if is_terrain(other) && contact_vector(bounds, other, border_distance).collides() {
            seq![StaticCollisionEvent { e1: id, e2: other.id }] + rest
        } else {
            rest
        }
    }
}

/// The responses and notices of a body depend on the terrain among the other
/// bodies alone.
pub proof fn lemma_resolution_reads_terrain_only(
    r: Resolving,
    id: u64,
    bounds: (V2, V2),
    a: Seq<Body>,
    b: Seq<Body>,
    border_distance: int,
    from: int,
)
    requires
        a.len() == b.len(),
        forall|k: int|
            0 <= k < a.len() ==> is_terrain(#[trigger] a[k]) == is_terrain(b[k]) && (is_terrain(
                a[k],
            ) ==> a[k] == b[k]),
    ensures
        resolve_from(r, bounds, a, border_distance, from) == resolve_from(
            r,
            bounds,
            b,
            border_distance,
            from,
        ),
        contacts_from(id, bounds, a, border_distance, from) == contacts_from(
            id,
            bounds,
            b,
            border_distance,
            from,
        ),
    decreases a.len() - from,
{
    if 0 <= from < a.len() {
        let other = a[from];
        assert(is_terrain(a[from]) == is_terrain(b[from]));
        let next = if is_terrain(other) {
            resolve_step(r, contact_vector(bounds, other, border_distance), other)
        } else {
            r
        };
        lemma_resolution_reads_terrain_only(next, id, bounds, a, b, border_distance, from + 1);
    }
}

/// The separation of a box of the world from the box of a colliding body.
fn contact_with(bounds: (V2, V2), other: &Body, border_distance: i64) -> (sv: SeparationVector)
    requires
        valid_border(border_distance as int),
        in_wraparound_space(bounds.0.x as int, border_distance as int),
        in_wraparound_space(bounds.1.x as int, border_distance as int),
        -3 * SCALAR_LIMIT <= bounds.0.y <= 3 * SCALAR_LIMIT,
        -3 * SCALAR_LIMIT <= bounds.1.y <= 3 * SCALAR_LIMIT,
        other.collider is Some,
        in_range(*other),
    ensures
        sv == contact_vector(bounds, *other, border_distance as int),
        -6 * SCALAR_LIMIT <= sv.y <= 6 * SCALAR_LIMIT,
        sv.x is Finite ==> -3 * SCALAR_LIMIT <= sv.x->Finite_0 <= 3 * SCALAR_LIMIT,
{
    let theirs = other.collider.unwrap().border_adjusted_bounds(border_distance, other.position);
    compute_separation_vector(bounds.0, bounds.1, theirs.0, theirs.1, border_distance)
}

/// A response moves a body by no more than the separation, and leaves it
/// with a velocity that is its own or that of the terrain.
proof fn lemma_step_moves_by_separation(r: Resolving, sv: SeparationVector, other: Body, reach: int)
    requires
        -reach <= sv.y <= reach,
        sv.x is Finite ==> -reach <= sv.x->Finite_0 <= reach,
        resolve_fits(r.body, sv, other),
    ensures
        ({
            let out = resolve_step(r, sv, other).body;
            &&& out.id == r.body.id
            &&& out.is_static == r.body.is_static
            &&& out.collider == r.body.collider
            &&& r.body.position.x - reach <= out.position.x <= r.body.position.x + reach
            &&& r.body.position.y - reach <= out.position.y <= r.body.position.y + reach
            &&& (out.velocity.x == r.body.velocity.x || out.velocity.x == other.velocity.x)
            &&& (out.velocity.y == r.body.velocity.y || out.velocity.y == other.velocity.y)
        }),
{
}

/// Resolves one colliding body against the terrain among `others`, in their
/// order, and appends a notice for each collision to `events`.
///
/// The box of the body is taken once, at the position it has before the pass.
/// Only the first collision that grounds the body sets its grounded relation.
pub fn resolve_against_terrain(
    body: Body,
    others: &Vec<Body>,
    border_distance: i64,
    events: &mut Vec<StaticCollisionEvent>,
) -> (out: Body)
    requires
        valid_border(border_distance as int),
        is_mover(body),
        in_range(body),
        terrain_in_range(others@),
    ensures
        out == resolve_from(
            Resolving { body, may_ground: true },
            world_bounds(body, border_distance as int),
            others@,
            border_distance as int,
            0,
        ).body,
        final(events)@ == old(events)@ + contacts_from(
            body.id,
            world_bounds(body, border_distance as int),
            others@,
            border_distance as int,
            0,
        ),
        out.id == body.id,
        out.is_static == body.is_static,
        out.collider == body.collider,
{
    let collider = body.collider.unwrap();
    let bounds = collider.border_adjusted_bounds(border_distance, body.position);
    let mut r = Resolving { body, may_ground: true };
    let mut j: usize = 0;
    while j < others.len()
        invariant
            j <= others.len(),
            valid_border(border_distance as int),
            terrain_in_range(others@),
            bounds == world_bounds(body, border_distance as int),
            in_wraparound_space(bounds.0.x as int, border_distance as int),
            in_wraparound_space(bounds.1.x as int, border_distance as int),
            -3 * SCALAR_LIMIT <= bounds.0.y <= 3 * SCALAR_LIMIT,
            -3 * SCALAR_LIMIT <= bounds.1.y <= 3 * SCALAR_LIMIT,
            resolve_from(
                Resolving { body, may_ground: true },
                bounds,
                others@,
                border_distance as int,
                0,
            ) == resolve_from(r, bounds, others@, border_distance as int, j as int),
            old(events)@ + contacts_from(body.id, bounds, others@, border_distance as int, 0)
                == events@ + contacts_from(body.id, bounds, others@, border_distance as int, j as int),
            r.body.id == body.id,
            r.body.is_static == body.is_static,
            r.body.collider == body.collider,
            bounded_vector(r.body.velocity),
            -(SCALAR_LIMIT + j * 0x600_0000_0000) <= r.body.position.x <= SCALAR_LIMIT + j
                * 0x600_0000_0000,
            -(SCALAR_LIMIT + j * 0x600_0000_0000) <= r.body.position.y <= SCALAR_LIMIT + j
                * 0x600_0000_0000,
        decreases others.len() - j,
    {
        let other = &others[j];
        let ghost before = events@;
        if other.is_static && other.collider.is_some() {
            let sv = contact_with(bounds, other, border_distance);
            if !sv.is_zero() {
                events.push(StaticCollisionEvent { e1: body.id, e2: other.id });
            }
            proof {
                lemma_step_moves_by_separation(r, sv, *other, 6 * SCALAR_LIMIT);
            }
            r = resolve_static_collision(r, sv, other);
        }
        proof {
            let rest = contacts_from(body.id, bounds, others@, border_distance as int, j + 1);
            assert(before + (seq![StaticCollisionEvent { e1: body.id, e2: other.id }] + rest)
                =~= before.push(StaticCollisionEvent { e1: body.id, e2: other.id }) + rest);
        }
        j += 1;
    }
    proof {
        assert(events@ + Seq::<StaticCollisionEvent>::empty() =~= events@);
    }
    r.body
}

/// A body after the pass that resolves collisions with terrain: a colliding
/// body that is not static responds to the terrain among all bodies, any other
/// body stays as it is.
pub open spec fn resolved(b: Body, all: Seq<Body>, border_distance: int) -> Body {
    if is_mover(b) {
        resolve_from(
            Resolving { body: b, may_ground: true },
            world_bounds(b, border_distance),
            all,
            border_distance,
            0,
        ).body
    } else {
        b
    }
}

/// The notices of the collisions of one body with the terrain among all bodies.
pub open spec fn contacts_of(b: Body, all: Seq<Body>, border_distance: int) -> Seq<StaticCollisionEvent> {
    if is_mover(b) {
        contacts_from(b.id, world_bounds(b, border_distance), all, border_distance, 0)
    } else {
        Seq::empty()
    }
}

/// The notices of the collisions of the bodies from index `from` on with the
/// terrain among all bodies, body by body.
pub open spec fn all_contacts_from(all: Seq<Body>, border_distance: int, from: int) -> Seq<StaticCollisionEvent>
    decreases all.len() - from,
{
    if from < 0 || from >= all.len() {
        Seq::empty()
    } else {
        contacts_of(all[from], all, border_distance) + all_contacts_from(
            all,
            border_distance,
            from + 1,
        )
    }
}

/// Resolves every colliding body that is not static against the terrain of
/// the world, and returns a notice for each collision, body by body and for
/// each body in the order of the terrain.
pub fn compute_static_collider_forces(bodies: &mut Vec<Body>, border_distance: i64) -> (events: Vec<
    StaticCollisionEvent,
>)
    requires
        valid_border(border_distance as int),
        world_in_range(old(bodies)@),
    ensures
        final(bodies)@.len() == old(bodies)@.len(),
        forall|i: int|
            0 <= i < old(bodies)@.len() ==> #[trigger] final(bodies)@[i] == resolved(
                old(bodies)@[i],
                old(bodies)@,
                border_distance as int,
            ),
        events@ == all_contacts_from(old(bodies)@, border_distance as int, 0),
{
    let mut events: Vec<StaticCollisionEvent> = Vec::new();
    let mut i: usize = 0;
    while i < bodies.len()
        invariant
            i <= bodies.len(),
            valid_border(border_distance as int),
            world_in_range(old(bodies)@),
            bodies@.len() == old(bodies)@.len(),
            forall|k: int|
                0 <= k < i ==> #[trigger] bodies@[k] == resolved(
                    old(bodies)@[k],
                    old(bodies)@,
                    border_distance as int,
                ),
            forall|k: int| i <= k < bodies@.len() ==> #[trigger] bodies@[k] == old(bodies)@[k],
            forall|k: int|
                0 <= k < bodies@.len() ==> is_terrain(#[trigger] bodies@[k]) == is_terrain(
                    old(bodies)@[k],
                ) && (is_terrain(bodies@[k]) ==> bodies@[k] == old(bodies)@[k]),
            events@ + all_contacts_from(old(bodies)@, border_distance as int, i as int)
                == all_contacts_from(old(bodies)@, border_distance as int, 0),
        decreases bodies.len() - i,
    {
        let body = bodies[i];
        let ghost before = events@;
        let ghost current = bodies@;
        if !body.is_static && body.collider.is_some() {
            proof {
                lemma_resolution_reads_terrain_only(
                    Resolving { body, may_ground: true },
                    body.id,
                    world_bounds(body, border_distance as int),
                    current,
                    old(bodies)@,
                    border_distance as int,
                    0,
                );
                assert forall|k: int| 0 <= k < current.len() && is_terrain(
                    #[trigger] current[k],
                ) implies in_range(current[k]) by {
                    assert(current[k] == old(bodies)@[k]);
                }
            }
            let out = resolve_against_terrain(body, bodies, border_distance, &mut events);
            bodies.set(i, out);
        }
        proof {
            let mine = contacts_of(old(bodies)@[i as int], old(bodies)@, border_distance as int);
            let rest = all_contacts_from(old(bodies)@, border_distance as int, i + 1);
            assert(before + (mine + rest) =~= (before + mine) + rest);
            assert(before + Seq::<StaticCollisionEvent>::empty() =~= before);
        }
        i += 1;
    }
    proof {
        assert(events@ + Seq::<StaticCollisionEvent>::empty() =~= events@);
    }
    events
}

/// Whether a body is compared with the others that are not static.
pub open spec fn is_detector(b: Body) -> bool {
    is_mover(b) && b.detects_non_static
}

/// The last body from index `from` on that is not static, is another body than
/// `id`, and whose box collides with `bounds`; `found` where there is none.
pub open spec fn detect_from(
    found: Option<u64>,
    id: u64,
    bounds: (V2, V2),
    others: Seq<Body>,
    border_distance: int,
    from: int,
) -> Option<u64>
    decreases others.len() - from,
{
    if from < 0 || from >= others.len() {
        found
    } else {
        let other = others[from];
        let next = if is_mover(other) && other.id != id && contact_vector(
            bounds,
            other,
            border_distance,
        ).collides() {
            Some(other.id)
        } else {
            found
        };
        detect_from(next, id, bounds, others, border_distance, from + 1)
    }
}

/// A body after the pass that detects collisions between bodies that are not
/// static: nothing of it changes but the collision it records, and that only
/// where the body takes part in the pass.
pub open spec fn detected(b: Body, all: Seq<Body>, border_distance: int) -> Body {
    if is_detector(b) {
        Body {
            non_static_collision: detect_from(
                b.non_static_collision,
                b.id,
                world_bounds(b, border_distance),
                all,
                border_distance,
                0,
            ),
            ..b
        }
    } else {
        b
    }
}

/// Records, on every body that takes part, the last of the other colliding
/// bodies that are not static and whose box collides with its own. A body
/// with no such collision keeps the record it had. Nothing is moved.
pub fn compute_non_static_intersections(bodies: &mut Vec<Body>, border_distance: i64)
    requires
        valid_border(border_distance as int),
        world_in_range(old(bodies)@),
    ensures
        final(bodies)@.len() == old(bodies)@.len(),
        forall|i: int|
            0 <= i < old(bodies)@.len() ==> #[trigger] final(bodies)@[i] == detected(
                old(bodies)@[i],
                old(bodies)@,
                border_distance as int,
            ),
{
    let mut i: usize = 0;
    while i < bodies.len()
        invariant
            i <= bodies.len(),
            valid_border(border_distance as int),
            world_in_range(old(bodies)@),
            world_in_range(bodies@),
            bodies@.len() == old(bodies)@.len(),
            forall|k: int|
                0 <= k < i ==> #[trigger] bodies@[k] == detected(
                    old(bodies)@[k],
                    old(bodies)@,
                    border_distance as int,
                ),
            forall|k: int| i <= k < bodies@.len() ==> #[trigger] bodies@[k] == old(bodies)@[k],
            forall|k: int|
                0 <= k < bodies@.len() ==> {
                    &&& (#[trigger] bodies@[k]).id == old(bodies)@[k].id
                    &&& bodies@[k].is_static == old(bodies)@[k].is_static
                    &&& bodies@[k].collider == old(bodies)@[k].collider
                    &&& bodies@[k].position == old(bodies)@[k].position
                },
        decreases bodies.len() - i,
    {
        let body = bodies[i];
        if !body.is_static && body.collider.is_some() && body.detects_non_static {
            let bounds = body.collider.unwrap().border_adjusted_bounds(
                border_distance,
                body.position,
            );
            let mut found = body.non_static_collision;
            let mut j: usize = 0;
            while j < bodies.len()
                invariant
                    j <= bodies.len(),
                    i < bodies.len(),
                    valid_border(border_distance as int),
                    world_in_range(old(bodies)@),
                    world_in_range(bodies@),
                    bodies@.len() == old(bodies)@.len(),
                    body == old(bodies)@[i as int],
                    forall|k: int|
                        0 <= k < bodies@.len() ==> {
                            &&& (#[trigger] bodies@[k]).id == old(bodies)@[k].id
                            &&& bodies@[k].is_static == old(bodies)@[k].is_static
                            &&& bodies@[k].collider == old(bodies)@[k].collider
                            &&& bodies@[k].position == old(bodies)@[k].position
                        },
                    bounds == world_bounds(body, border_distance as int),
                    in_wraparound_space(bounds.0.x as int, border_distance as int),
                    in_wraparound_space(bounds.1.x as int, border_distance as int),
                    -3 * SCALAR_LIMIT <= bounds.0.y <= 3 * SCALAR_LIMIT,
                    -3 * SCALAR_LIMIT <= bounds.1.y <= 3 * SCALAR_LIMIT,
                    detect_from(
                        body.non_static_collision,
                        body.id,
                        bounds,
                        old(bodies)@,
                        border_distance as int,
                        0,
                    ) == detect_from(
                        found,
                        body.id,
                        bounds,
                        old(bodies)@,
                        border_distance as int,
                        j as int,
                    ),
                decreases bodies.len() - j,
            {
                let other = &bodies[j];
                assert(in_range(bodies@[j as int]));
                assert(world_bounds(*other, border_distance as int) == world_bounds(
                    old(bodies)@[j as int],
                    border_distance as int,
                ));
                if !other.is_static && other.collider.is_some() && other.id != body.id {
                    let sv = contact_with(bounds, other, border_distance);
                    if !sv.is_zero() {
                        found = Some(other.id);
                    }
                }
                j += 1;
            }
            let mut updated = body;
            updated.non_static_collision = found;
            assert(in_range(bodies@[i as int]));
            bodies.set(i, updated);
        }
        i += 1;
    }
}

} // verus!
