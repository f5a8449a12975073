//! Bodies, the leapfrog integrator and the force pipeline of one tick.

use vstd::prelude::*;
use crate::vector::{fits, V2};
use crate::wraparound::{coord_space_to_wraparound_space, fold};
use crate::collision::SquareCollider;
use crate::grounded::GroundedState;

verus! {

/// One simulated entity: what moves it, and what it takes part in.
#[derive(Clone, Copy, Debug)]
pub struct Body {
    /// The stable identity of the entity.
    pub id: u64,
    /// A static body is terrain: it is collided against and never moved.
    pub is_static: bool,
    /// Positive for every body that is not static.
    pub mass: i64,
    pub position: V2,
    pub velocity: V2,
    /// The velocity at the midpoint of the tick.
    pub half_velocity: V2,
    pub acceleration: V2,
    /// The force gathered during this tick.
    pub force: V2,
    /// The box of a body that collides.
    pub collider: Option<SquareCollider>,
    /// What the body rests on, for a body that keeps track of it.
    pub grounded: Option<GroundedState>,
    /// Whether the body is compared with every other body that is not static.
    pub detects_non_static: bool,
    /// The last body that is not static and that this one was found to overlap.
    pub non_static_collision: Option<u64>,
}

impl Body {
    /// A body that is not static has a positive mass, and the box of a body
    /// that collides is well formed.
    pub open spec fn wf(self) -> bool {
        &&& !self.is_static ==> self.mass > 0
        &&& self.collider is Some ==> self.collider->Some_0.wf()
    }

    /// A body that is not static, at rest at the origin, with the given
    /// identity and mass.
    pub fn new(id: u64, mass: i64) -> (b: Body)
        requires
            mass > 0,
        ensures
            b == (Body {
                id,
                is_static: false,
                mass,
                position: V2 { x: 0, y: 0 },
                velocity: V2 { x: 0, y: 0 },
                half_velocity: V2 { x: 0, y: 0 },
                acceleration: V2 { x: 0, y: 0 },
                force: V2 { x: 0, y: 0 },
                collider: None,
                grounded: None,
                detects_non_static: false,
                non_static_collision: None,
            }),
            b.wf(),
    {
        Body {
            id,
            is_static: false,
            mass,
            position: V2::zero(),
            velocity: V2::zero(),
            half_velocity: V2::zero(),
            acceleration: V2::zero(),
            force: V2::zero(),
            collider: None,
            grounded: None,
            detects_non_static: false,
            non_static_collision: None,
        }
    }

    /// A static body at rest at the origin, with the given identity.
    pub fn new_static(id: u64) -> (b: Body)
        ensures
            b == (Body {
                id,
                is_static: true,
                mass: 0,
                position: V2 { x: 0, y: 0 },
                velocity: V2 { x: 0, y: 0 },
                half_velocity: V2 { x: 0, y: 0 },
                acceleration: V2 { x: 0, y: 0 },
                force: V2 { x: 0, y: 0 },
                collider: None,
                grounded: None,
                detects_non_static: false,
                non_static_collision: None,
            }),
            b.wf(),
    {
        Body {
            id,
            is_static: true,
            mass: 0,
            position: V2::zero(),
            velocity: V2::zero(),
            half_velocity: V2::zero(),
            acceleration: V2::zero(),
            force: V2::zero(),
            collider: None,
            grounded: None,
            detects_non_static: false,
            non_static_collision: None,
        }
    }
}

/// Half of what an acceleration adds to a velocity over one tick, rounded down.
pub open spec fn half_step(a: int, dt: int) -> int {
    (a * dt) / 2
}

/// The velocity at the midpoint of a tick.
pub open spec fn half_velocity_after(v: int, a: int, dt: int) -> int {
    v + half_step(a, dt)
}

/// The position at the end of a tick.
pub open spec fn position_after(x: int, v: int, a: int, dt: int) -> int {
    x + half_velocity_after(v, a, dt) * dt
}

/// The velocity at the end of a tick, from the velocity at its midpoint and
/// the acceleration at its end.
pub open spec fn velocity_after(vh: int, a: int, dt: int) -> int {
    vh + half_step(a, dt)
}

/// Whether the first half of a tick can be computed on one axis.
pub open spec fn position_step_fits(x: int, v: int, a: int, dt: int) -> bool {
    &&& fits(a * dt)
    &&& fits(half_velocity_after(v, a, dt))
    &&& fits(half_velocity_after(v, a, dt) * dt)
    &&& fits(position_after(x, v, a, dt))
}

/// Whether the second half of a tick can be computed on one axis.
pub open spec fn velocity_step_fits(vh: int, a: int, dt: int) -> bool {
    &&& fits(a * dt)
    &&& fits(velocity_after(vh, a, dt))
}

/// Half of a scalar, rounded down.
fn halve(p: i64) -> (h: i64)
    ensures
        h == (p as int) / 2,
{
    p.checked_div_euclid(2).unwrap()
}

/// The quotient of a scalar by a positive scalar, rounded down.
fn quotient(p: i64, d: i64) -> (q: i64)
    requires
        d > 0,
    ensures
        q == (p as int) / (d as int),
{
    proof {
        vstd::arithmetic::div_mod::lemma_fundamental_div_mod(p as int, d as int);
        vstd::arithmetic::div_mod::lemma_mod_bound(p as int, d as int);
        assert(i64::MIN <= (p as int) / (d as int) <= i64::MAX) by (nonlinear_arith)
            requires
                d > 0,
                i64::MIN <= p <= i64::MAX,
                p == d * ((p as int) / (d as int)) + (p as int) % (d as int),
                0 <= (p as int) % (d as int) < d,
        ;
    }
    p.checked_div_euclid(d).unwrap()
}

/// The first half of a leapfrog tick: the velocity at the midpoint is the
/// velocity plus half a tick of acceleration, and the position moves by a
/// whole tick of that velocity. Returns the position, then the half-velocity.
pub fn next_position_and_half_velocity(x_i: V2, v_i: V2, a_i: V2, dt: i64) -> (next: (V2, V2))
    requires
        position_step_fits(x_i.x as int, v_i.x as int, a_i.x as int, dt as int),
        position_step_fits(x_i.y as int, v_i.y as int, a_i.y as int, dt as int),
    ensures
        next.0.x == position_after(x_i.x as int, v_i.x as int, a_i.x as int, dt as int),
        next.0.y == position_after(x_i.y as int, v_i.y as int, a_i.y as int, dt as int),
        next.1.x == half_velocity_after(v_i.x as int, a_i.x as int, dt as int),
        next.1.y == half_velocity_after(v_i.y as int, a_i.y as int, dt as int),
{
    let v_i_plus_half = V2 { x: v_i.x + halve(a_i.x * dt), y: v_i.y + halve(a_i.y * dt) };
    let x_i_plus_1 = V2 { x: x_i.x + v_i_plus_half.x * dt, y: x_i.y + v_i_plus_half.y * dt };
    (x_i_plus_1, v_i_plus_half)
}

/// The second half of a leapfrog tick: the velocity at the end is the velocity
/// at the midpoint plus half a tick of the new acceleration.
pub fn next_velocity(v_i_plus_half: V2, a_i_plus_one: V2, dt: i64) -> (v: V2)
    requires
        velocity_step_fits(v_i_plus_half.x as int, a_i_plus_one.x as int, dt as int),
        velocity_step_fits(v_i_plus_half.y as int, a_i_plus_one.y as int, dt as int),
    ensures
        v.x == velocity_after(v_i_plus_half.x as int, a_i_plus_one.x as int, dt as int),
        v.y == velocity_after(v_i_plus_half.y as int, a_i_plus_one.y as int, dt as int),
{
    V2 {
        x: v_i_plus_half.x + halve(a_i_plus_one.x * dt),
        y: v_i_plus_half.y + halve(a_i_plus_one.y * dt),
    }
}

impl Body {
    /// Whether the first half of a tick can be computed for this body.
    pub open spec fn position_fits(self, dt: int) -> bool {
        !self.is_static ==> {
            &&& position_step_fits(
                self.position.x as int,
                self.velocity.x as int,
                self.acceleration.x as int,
                dt,
            )
            &&& position_step_fits(
                self.position.y as int,
                self.velocity.y as int,
                self.acceleration.y as int,
                dt,
            )
        }
    }

    /// The body after the first half of a tick: its position and its
    /// half-velocity advance; a static body stays as it is.
    pub open spec fn position_stepped(self, dt: int) -> Body {
        if self.is_static {
            self
        } else {
            Body {
                position: V2 {
                    x: position_after(
                        self.position.x as int,
                        self.velocity.x as int,
                        self.acceleration.x as int,
                        dt,
                    ) as i64,
                    y: position_after(
                        self.position.y as int,
                        self.velocity.y as int,
                        self.acceleration.y as int,
                        dt,
                    ) as i64,
                },
                half_velocity: V2 {
                    x: half_velocity_after(self.velocity.x as int, self.acceleration.x as int, dt) as i64,
                    y: half_velocity_after(self.velocity.y as int, self.acceleration.y as int, dt) as i64,
                },
                ..self
            }
        }
    }

    /// The body with no force on it.
    pub open spec fn force_cleared(self) -> Body {
        Body { force: V2 { x: 0, y: 0 }, ..self }
    }

    /// Whether a force can be added to the force on this body.
    pub open spec fn force_fits(self, contribution: V2) -> bool {
        !self.is_static ==> self.force.sum_fits(contribution)
    }

    /// The body with a force added to the force on it; a static body
    /// discards it.
    pub open spec fn force_added(self, contribution: V2) -> Body {
        if self.is_static {
            self
        } else {
            Body {
                force: V2 {
                    x: (self.force.x + contribution.x) as i64,
                    y: (self.force.y + contribution.y) as i64,
                },
                ..self
            }
        }
    }

    /// Whether the weight of this body can be added to the force on it.
    pub open spec fn gravity_fits(self, g: V2) -> bool {
        !self.is_static ==> {
            &&& fits(self.mass * g.x)
            &&& fits(self.mass * g.y)
            &&& fits(self.force.x + self.mass * g.x)
            &&& fits(self.force.y + self.mass * g.y)
        }
    }

    /// The body with its weight, the mass times `g`, added to the force on it;
    /// a static body has no weight.
    pub open spec fn gravity_applied(self, g: V2) -> Body {
        if self.is_static {
            self
        } else {
            Body {
                force: V2 {
                    x: (self.force.x + self.mass * g.x) as i64,
                    y: (self.force.y + self.mass * g.y) as i64,
                },
                ..self
            }
        }
    }

    /// The body with the acceleration that the force on it gives to its mass,
    /// rounded down; a static body is not accelerated.
    pub open spec fn accelerated(self) -> Body {
        if self.is_static {
            self
        } else {
            Body {
                acceleration: V2 {
                    x: (self.force.x as int / self.mass as int) as i64,
                    y: (self.force.y as int / self.mass as int) as i64,
                },
                ..self
            }
        }
    }

    /// Whether the second half of a tick can be computed for this body.
    pub open spec fn velocity_fits(self, dt: int) -> bool {
        !self.is_static ==> {
            &&& velocity_step_fits(self.half_velocity.x as int, self.acceleration.x as int, dt)
            &&& velocity_step_fits(self.half_velocity.y as int, self.acceleration.y as int, dt)
        }
    }

    /// The body after the second half of a tick: its velocity is the
    /// half-velocity plus half a tick of its acceleration; a static body stays
    /// as it is.
    pub open spec fn velocity_stepped(self, dt: int) -> Body {
        if self.is_static {
            self
        } else {
            Body {
                velocity: V2 {
                    x: velocity_after(self.half_velocity.x as int, self.acceleration.x as int, dt) as i64,
                    y: velocity_after(self.half_velocity.y as int, self.acceleration.y as int, dt) as i64,
                },
                ..self
            }
        }
    }

    /// Adds a force to the force on this body. A static body discards it.
    pub fn add_force(&mut self, contribution: V2)
        requires
            old(self).force_fits(contribution),
        ensures
            *final(self) == old(self).force_added(contribution),
    {
        if !self.is_static {
            self.force = self.force.plus(contribution);
        }
    }
}

/// Advances the position and the half-velocity of every body that is not
/// static by the first half of a tick.
pub fn calculate_next_positions(bodies: &mut Vec<Body>, dt: i64)
    requires
        forall|i: int| 0 <= i < old(bodies)@.len() ==> (#[trigger] old(bodies)@[i]).position_fits(dt as int),
    ensures
        final(bodies)@.len() == old(bodies)@.len(),
        forall|i: int|
            0 <= i < old(bodies)@.len() ==> #[trigger] final(bodies)@[i] == old(
                bodies,
            )@[i].position_stepped(dt as int),
{
    let mut i: usize = 0;
    while i < bodies.len()
        invariant
            i <= bodies.len(),
            bodies@.len() == old(bodies)@.len(),
            forall|k: int| 0 <= k < old(bodies)@.len() ==> (#[trigger] old(bodies)@[k]).position_fits(dt as int),
            forall|k: int| 0 <= k < i ==> #[trigger] bodies@[k] == old(bodies)@[k].position_stepped(dt as int),
            forall|k: int| i <= k < bodies@.len() ==> #[trigger] bodies@[k] == old(bodies)@[k],
        decreases bodies.len() - i,
    {
        let mut body = bodies[i];
        assert(old(bodies)@[i as int].position_fits(dt as int));
        if !body.is_static {
            let next = next_position_and_half_velocity(
                body.position,
                body.velocity,
                body.acceleration,
                dt,
            );
            body.position = next.0;
            body.half_velocity = next.1;
            bodies.set(i, body);
        }
        i += 1;
    }
}

/// Resets the force on every body to zero.
pub fn clear_forces(bodies: &mut Vec<Body>)
    ensures
        final(bodies)@.len() == old(bodies)@.len(),
        forall|i: int|
            0 <= i < old(bodies)@.len() ==> #[trigger] final(bodies)@[i] == old(
                bodies,
            )@[i].force_cleared(),
{
    let mut i: usize = 0;
    while i < bodies.len()
        invariant
            i <= bodies.len(),
            bodies@.len() == old(bodies)@.len(),
            forall|k: int| 0 <= k < i ==> #[trigger] bodies@[k] == old(bodies)@[k].force_cleared(),
            forall|k: int| i <= k < bodies@.len() ==> #[trigger] bodies@[k] == old(bodies)@[k],
        decreases bodies.len() - i,
    {
        let mut body = bodies[i];
        body.force = V2::zero();
        bodies.set(i, body);
        i += 1;
    }
}

/// Adds to the force on every body that is not static its weight: its mass
/// times `g`.
pub fn gravity(bodies: &mut Vec<Body>, g: V2)
    requires
        forall|i: int| 0 <= i < old(bodies)@.len() ==> (#[trigger] old(bodies)@[i]).gravity_fits(g),
    ensures
        final(bodies)@.len() == old(bodies)@.len(),
        forall|i: int|
            0 <= i < old(bodies)@.len() ==> #[trigger] final(bodies)@[i] == old(
                bodies,
            )@[i].gravity_applied(g),
{
    let mut i: usize = 0;
    while i < bodies.len()
        invariant
            i <= bodies.len(),
            bodies@.len() == old(bodies)@.len(),
            forall|k: int| 0 <= k < old(bodies)@.len() ==> (#[trigger] old(bodies)@[k]).gravity_fits(g),
            forall|k: int| 0 <= k < i ==> #[trigger] bodies@[k] == old(bodies)@[k].gravity_applied(g),
            forall|k: int| i <= k < bodies@.len() ==> #[trigger] bodies@[k] == old(bodies)@[k],
        decreases bodies.len() - i,
    {
        let mut body = bodies[i];
        assert(old(bodies)@[i as int].gravity_fits(g));
        if !body.is_static {
            body.force = V2 {
                x: body.force.x + body.mass * g.x,
                y: body.force.y + body.mass * g.y,
            };
            bodies.set(i, body);
        }
        i += 1;
    }
}

/// Gives every body that is not static the acceleration that the force on it
/// gives to its mass.
pub fn calculate_next_accelerations(bodies: &mut Vec<Body>)
    requires
        forall|i: int| 0 <= i < old(bodies)@.len() ==> (#[trigger] old(bodies)@[i]).wf(),
    ensures
        final(bodies)@.len() == old(bodies)@.len(),
        forall|i: int|
            0 <= i < old(bodies)@.len() ==> #[trigger] final(bodies)@[i] == old(
                bodies,
            )@[i].accelerated(),
{
    let mut i: usize = 0;
    while i < bodies.len()
        invariant
            i <= bodies.len(),
            bodies@.len() == old(bodies)@.len(),
            forall|k: int| 0 <= k < old(bodies)@.len() ==> (#[trigger] old(bodies)@[k]).wf(),
            forall|k: int| 0 <= k < i ==> #[trigger] bodies@[k] == old(bodies)@[k].accelerated(),
            forall|k: int| i <= k < bodies@.len() ==> #[trigger] bodies@[k] == old(bodies)@[k],
        decreases bodies.len() - i,
    {
        let mut body = bodies[i];
        assert(old(bodies)@[i as int].wf());
        if !body.is_static {
            body.acceleration = V2 {
                x: quotient(body.force.x, body.mass),
                y: quotient(body.force.y, body.mass),
            };
            bodies.set(i, body);
        }
        i += 1;
    }
}

/// Advances the velocity of every body that is not static by the second half
/// of a tick.
pub fn calculate_next_velocities(bodies: &mut Vec<Body>, dt: i64)
    requires
        forall|i: int| 0 <= i < old(bodies)@.len() ==> (#[trigger] old(bodies)@[i]).velocity_fits(dt as int),
    ensures
        final(bodies)@.len() == old(bodies)@.len(),
        forall|i: int|
            0 <= i < old(bodies)@.len() ==> #[trigger] final(bodies)@[i] == old(
                bodies,
            )@[i].velocity_stepped(dt as int),
{
    let mut i: usize = 0;
    while i < bodies.len()
        invariant
            i <= bodies.len(),
            bodies@.len() == old(bodies)@.len(),
            forall|k: int| 0 <= k < old(bodies)@.len() ==> (#[trigger] old(bodies)@[k]).velocity_fits(dt as int),
            forall|k: int| 0 <= k < i ==> #[trigger] bodies@[k] == old(bodies)@[k].velocity_stepped(dt as int),
            forall|k: int| i <= k < bodies@.len() ==> #[trigger] bodies@[k] == old(bodies)@[k],
        decreases bodies.len() - i,
    {
        let mut body = bodies[i];
        assert(old(bodies)@[i as int].velocity_fits(dt as int));
        if !body.is_static {
            body.velocity = next_velocity(body.half_velocity, body.acceleration, dt);
            bodies.set(i, body);
        }
        i += 1;
    }
}

/// Forces add up: the order in which two contributions reach a body does not
/// matter.
pub proof fn lemma_forces_commute(b: Body, f1: V2, f2: V2)
    requires
        b.force_fits(f1),
        b.force_fits(f2),
        b.force_added(f1).force_fits(f2),
    ensures
        b.force_added(f2).force_fits(f1),
        b.force_added(f1).force_added(f2) == b.force_added(f2).force_added(f1),
{
}

/// The position and the velocity on one axis after `n` whole ticks of length
/// `dt` under an acceleration that stays the same.
pub open spec fn after_ticks(x: int, v: int, a: int, dt: int, n: nat) -> (int, int)
    decreases n,
{
    if n == 0 {
        (x, v)
    } else {
        let before = after_ticks(x, v, a, dt, (n - 1) as nat);
        (
            position_after(before.0, before.1, a, dt),
            velocity_after(half_velocity_after(before.1, a, dt), a, dt),
        )
    }
}

/// Without acceleration a body keeps its velocity, and after `n` ticks it has
/// moved by `n` times what it moves in one.
pub proof fn lemma_coasting_is_linear(x: int, v: int, dt: int, n: nat)
    ensures
        after_ticks(x, v, 0, dt, n) == (x + v * n * dt, v),
    decreases n,
{
    if n == 0 {
        assert(v * 0 * dt == 0) by (nonlinear_arith);
    } else {
        lemma_coasting_is_linear(x, v, dt, (n - 1) as nat);
        assert(0 * dt == 0) by (nonlinear_arith);
        assert(half_step(0, dt) == 0);
        assert(x + v * (n - 1) * dt + v * dt == x + v * n * dt) by (nonlinear_arith);
    }
}

/// Under an acceleration that stays the same, every tick adds two half steps
/// to the velocity. Where a tick of the acceleration is an even number, a body
/// that starts at rest has after `n` ticks the velocity `a * n * dt`.
pub proof fn lemma_constant_acceleration_velocity(x: int, v: int, a: int, dt: int, n: nat)
    ensures
        after_ticks(x, v, a, dt, n).1 == v + 2 * n * half_step(a, dt),
        (a * dt) % 2 == 0 && v == 0 ==> after_ticks(x, v, a, dt, n).1 == a * n * dt,
    decreases n,
{
    let h = half_step(a, dt);
    if n == 0 {
        assert(2 * 0 * h == 0) by (nonlinear_arith);
        assert(a * 0 * dt == 0) by (nonlinear_arith);
    } else {
        lemma_constant_acceleration_velocity(x, v, a, dt, (n - 1) as nat);
        assert(v + 2 * (n - 1) * h + h + h == v + 2 * n * h) by (nonlinear_arith);
        if (a * dt) % 2 == 0 {
            assert(2 * h == a * dt);
            assert(2 * n * h == a * n * dt) by (nonlinear_arith)
                requires
                    2 * h == a * dt,
            ;
        }
    }
}

/// Whether the first half of a tick can be computed on one axis.
fn position_step_is_in_reach(x: i64, v: i64, a: i64, dt: i64) -> (ok: bool)
    ensures
        ok == position_step_fits(x as int, v as int, a as int, dt as int),
{
    match a.checked_mul(dt) {
        None => false,
        Some(p) => match v.checked_add(halve(p)) {
            None => false,
            Some(vh) => match vh.checked_mul(dt) {
                None => false,
                Some(d) => x.checked_add(d).is_some(),
            },
        },
    }
}

/// Whether the second half of a tick can be computed on one axis.
fn velocity_step_is_in_reach(vh: i64, a: i64, dt: i64) -> (ok: bool)
    ensures
        ok == velocity_step_fits(vh as int, a as int, dt as int),
{
    match a.checked_mul(dt) {
        None => false,
        Some(p) => vh.checked_add(halve(p)).is_some(),
    }
}

/// Whether a weight can be added to a force on one axis.
fn weight_is_in_reach(f: i64, mass: i64, g: i64) -> (ok: bool)
    ensures
        ok == (fits(mass * g) && fits(f + mass * g)),
{
    match mass.checked_mul(g) {
        None => false,
        Some(w) => f.checked_add(w).is_some(),
    }
}

impl Body {
    /// Whether the x-coordinate of this body can be folded.
    pub open spec fn fold_fits(self, border_distance: int) -> bool {
        fits(self.position.x + border_distance / 2)
    }

    /// The body with its x-coordinate folded into the canonical interval.
    pub open spec fn folded(self, border_distance: int) -> Body {
        Body {
            position: V2 {
                x: fold(self.position.x as int, border_distance) as i64,
                y: self.position.y,
            },
            ..self
        }
    }

    /// Tells whether [`Body::position_fits`] holds.
    pub fn can_step_position(&self, dt: i64) -> (ok: bool)
        ensures
            ok == self.position_fits(dt as int),
    {
        self.is_static || (position_step_is_in_reach(
            self.position.x,
            self.velocity.x,
            self.acceleration.x,
            dt,
        ) && position_step_is_in_reach(
            self.position.y,
            self.velocity.y,
            self.acceleration.y,
            dt,
        ))
    }

    /// Tells whether [`Body::velocity_fits`] holds.
    pub fn can_step_velocity(&self, dt: i64) -> (ok: bool)
        ensures
            ok == self.velocity_fits(dt as int),
    {
        self.is_static || (velocity_step_is_in_reach(
            self.half_velocity.x,
            self.acceleration.x,
            dt,
        ) && velocity_step_is_in_reach(self.half_velocity.y, self.acceleration.y, dt))
    }

    /// Tells whether [`Body::gravity_fits`] holds.
    pub fn can_apply_gravity(&self, g: V2) -> (ok: bool)
        ensures
            ok == self.gravity_fits(g),
    {
        self.is_static || (weight_is_in_reach(self.force.x, self.mass, g.x) && weight_is_in_reach(
            self.force.y,
            self.mass,
            g.y,
        ))
    }

    /// Tells whether [`Body::force_fits`] holds.
    pub fn can_add_force(&self, contribution: V2) -> (ok: bool)
        ensures
            ok == self.force_fits(contribution),
    {
        self.is_static || (self.force.x.checked_add(contribution.x).is_some()
            && self.force.y.checked_add(contribution.y).is_some())
    }

    /// Tells whether [`Body::fold_fits`] holds.
    pub fn can_fold(&self, border_distance: i64) -> (ok: bool)
        requires
            border_distance > 0,
        ensures
            ok == self.fold_fits(border_distance as int),
    {
        self.position.x.checked_add(border_distance / 2).is_some()
    }

    /// Tells whether [`Body::wf`] holds.
    pub fn is_well_formed(&self) -> (ok: bool)
        ensures
            ok == self.wf(),
    {
        (self.is_static || self.mass > 0) && match self.collider {
            Some(c) => c.min.x <= c.max.x && c.min.y <= c.max.y,
            None => true,
        }
    }
}

/// Folds the x-coordinate of every body into the canonical interval of the
/// world.
pub fn modulo_position_wraparound(bodies: &mut Vec<Body>, border_distance: i64)
    requires
        border_distance > 0,
        forall|i: int|
            0 <= i < old(bodies)@.len() ==> (#[trigger] old(bodies)@[i]).fold_fits(
                border_distance as int,
            ),
    ensures
        final(bodies)@.len() == old(bodies)@.len(),
        forall|i: int|
            0 <= i < old(bodies)@.len() ==> #[trigger] final(bodies)@[i] == old(bodies)@[i].folded(
                border_distance as int,
            ),
{
    let mut i: usize = 0;
    while i < bodies.len()
        invariant
            i <= bodies.len(),
            border_distance > 0,
            bodies@.len() == old(bodies)@.len(),
            forall|k: int|
                0 <= k < old(bodies)@.len() ==> (#[trigger] old(bodies)@[k]).fold_fits(
                    border_distance as int,
                ),
            forall|k: int|
                0 <= k < i ==> #[trigger] bodies@[k] == old(bodies)@[k].folded(border_distance as int),
            forall|k: int| i <= k < bodies@.len() ==> #[trigger] bodies@[k] == old(bodies)@[k],
        decreases bodies.len() - i,
    {
        let mut body = bodies[i];
        assert(old(bodies)@[i as int].fold_fits(border_distance as int));
        body.position.x = coord_space_to_wraparound_space(body.position.x, border_distance);
        bodies.set(i, body);
        i += 1;
    }
}

/// The force that gives a mass the acceleration that a player or another
/// controller asks for: the acceleration times the mass, or nothing where
/// that cannot be stored.
pub fn movement_force(mass: i64, control: V2) -> (force: Option<V2>)
    ensures
        force is Some <==> fits(control.x * mass) && fits(control.y * mass),
        force is Some ==> force->Some_0.x == control.x * mass && force->Some_0.y == control.y * mass,
{
    match control.x.checked_mul(mass) {
        None => None,
        Some(x) => match control.y.checked_mul(mass) {
            None => None,
            Some(y) => Some(V2 { x, y }),
        },
    }
}

/// Adds to the force on each body the force that stands at its index in
/// `contributions`.
pub fn apply_forces(bodies: &mut Vec<Body>, contributions: &Vec<V2>)
    requires
        contributions@.len() == old(bodies)@.len(),
        forall|i: int|
            0 <= i < old(bodies)@.len() ==> (#[trigger] old(bodies)@[i]).force_fits(contributions@[i]),
    ensures
        final(bodies)@.len() == old(bodies)@.len(),
        forall|i: int|
            0 <= i < old(bodies)@.len() ==> #[trigger] final(bodies)@[i] == old(
                bodies,
            )@[i].force_added(contributions@[i]),
{
    let mut i: usize = 0;
    while i < bodies.len()
        invariant
            i <= bodies.len(),
            bodies@.len() == old(bodies)@.len(),
            contributions@.len() == old(bodies)@.len(),
            forall|k: int|
                0 <= k < old(bodies)@.len() ==> (#[trigger] old(bodies)@[k]).force_fits(
                    contributions@[k],
                ),
            forall|k: int|
                0 <= k < i ==> #[trigger] bodies@[k] == old(bodies)@[k].force_added(contributions@[k]),
            forall|k: int| i <= k < bodies@.len() ==> #[trigger] bodies@[k] == old(bodies)@[k],
        decreases bodies.len() - i,
    {
        let mut body = bodies[i];
        assert(old(bodies)@[i as int].force_fits(contributions@[i as int]));
        body.add_force(contributions[i]);
        bodies.set(i, body);
        i += 1;
    }
}

} // verus!
