//! One tick of the simulation: the passes over the world in their order.

use vstd::prelude::*;
use crate::vector::V2;
use crate::wraparound::{valid_border, MAX_BORDER_DISTANCE};
use crate::physics::{
    apply_forces, calculate_next_accelerations, calculate_next_positions,
    calculate_next_velocities, clear_forces, gravity, modulo_position_wraparound, Body,
};
use crate::collision::{
    all_contacts_from, compute_non_static_intersections, compute_static_collider_forces, detected,
    in_range, resolved, world_in_range, world_is_in_range, StaticCollisionEvent, SCALAR_LIMIT,
};
use crate::grounded::{clear_grounded, revalidated};

verus! {

/// What is the same for every body and every tick.
#[derive(Clone, Copy, Debug, PartialEq, Eq, Structural)]
pub struct Simulation {
    /// The acceleration that every body that is not static falls with.
    pub gravity: V2,
    /// The period of the world on the x-axis.
    pub border_distance: i64,
    /// How far a body may hover over the terrain it rests on.
    pub grounded_padding: i64,
}

impl Simulation {
    /// The period is that of a world, and the padding is neither negative nor
    /// beyond the scalars of a pass.
    pub open spec fn wf(self) -> bool {
        valid_border(self.border_distance as int) && 0 <= self.grounded_padding <= SCALAR_LIMIT
    }

    /// Tells whether [`Simulation::wf`] holds.
    pub fn is_well_formed(&self) -> (ok: bool)
        ensures
            ok == self.wf(),
    {
        0 < self.border_distance && self.border_distance <= MAX_BORDER_DISTANCE && 0
            <= self.grounded_padding && self.grounded_padding <= SCALAR_LIMIT
    }
}

/// The world after the integrator has advanced positions and half-velocities
/// and the positions have been folded.
pub open spec fn moved(all: Seq<Body>, sim: Simulation, dt: int) -> Seq<Body> {
    Seq::new(
        all.len(),
        |i: int| all[i].position_stepped(dt).folded(sim.border_distance as int),
    )
}

/// Whether the integrator can advance and fold every position.
pub open spec fn move_fits(all: Seq<Body>, sim: Simulation, dt: int) -> bool {
    forall|i: int|
        0 <= i < all.len() ==> (#[trigger] all[i]).position_fits(dt) && all[i].position_stepped(
            dt,
        ).fold_fits(sim.border_distance as int)
}

/// The world after collisions with terrain have been resolved.
pub open spec fn landed(all: Seq<Body>, sim: Simulation) -> Seq<Body> {
    Seq::new(all.len(), |i: int| resolved(all[i], all, sim.border_distance as int))
}

/// The world after collisions between bodies that are not static have been
/// recorded.
pub open spec fn collided(all: Seq<Body>, sim: Simulation) -> Seq<Body> {
    Seq::new(all.len(), |i: int| detected(all[i], all, sim.border_distance as int))
}

/// The world after the forces of a tick have been gathered afresh: the weight
/// of each body and the contribution that stands at its index.
pub open spec fn forced(all: Seq<Body>, contributions: Seq<V2>, sim: Simulation) -> Seq<Body> {
    Seq::new(
        all.len(),
        |i: int| all[i].force_cleared().gravity_applied(sim.gravity).force_added(contributions[i]),
    )
}

/// Whether the forces of a tick can be gathered.
pub open spec fn force_fits(all: Seq<Body>, contributions: Seq<V2>, sim: Simulation) -> bool {
    forall|i: int|
        0 <= i < all.len() ==> (#[trigger] all[i]).force_cleared().gravity_fits(sim.gravity)
            && all[i].force_cleared().gravity_applied(sim.gravity).force_fits(contributions[i])
}

/// The world after accelerations and velocities have been derived from the
/// forces.
pub open spec fn accelerated(all: Seq<Body>, dt: int) -> Seq<Body> {
    Seq::new(all.len(), |i: int| all[i].accelerated().velocity_stepped(dt))
}

/// Whether the velocities can be derived.
pub open spec fn acceleration_fits(all: Seq<Body>, dt: int) -> bool {
    forall|i: int| 0 <= i < all.len() ==> (#[trigger] all[i]).accelerated().velocity_fits(dt)
}

/// The world after the grounded relations have been re-validated.
pub open spec fn regrounded(all: Seq<Body>, sim: Simulation) -> Seq<Body> {
    Seq::new(all.len(), |i: int| revalidated(all[i], all, sim.grounded_padding as int))
}

/// The world after one tick: positions and half-velocities advance, positions
/// are folded, collisions with terrain are resolved, collisions between
/// bodies that are not static are recorded, forces are gathered afresh,
/// accelerations and velocities follow from them, and the grounded relations
/// are re-validated.
pub open spec fn after_tick(all: Seq<Body>, contributions: Seq<V2>, sim: Simulation, dt: int) -> Seq<Body> {
    let met = collided(landed(moved(all, sim, dt), sim), sim);
    regrounded(accelerated(forced(met, contributions, sim), dt), sim)
}

/// The notices of the collisions with terrain during one tick.
pub open spec fn tick_events(all: Seq<Body>, sim: Simulation, dt: int) -> Seq<StaticCollisionEvent> {
    all_contacts_from(moved(all, sim, dt), sim.border_distance as int, 0)
}

/// Whether one tick can be computed: there is a contribution for every body,
/// no scalar leaves the range of the machine, and the world is accepted by
/// each pass that compares its bodies.
pub open spec fn tick_fits(all: Seq<Body>, contributions: Seq<V2>, sim: Simulation, dt: int) -> bool {
    let met = collided(landed(moved(all, sim, dt), sim), sim);
    &&& sim.wf()
    &&& contributions.len() == all.len()
    &&& move_fits(all, sim, dt)
    &&& world_in_range(moved(all, sim, dt))
    &&& world_in_range(landed(moved(all, sim, dt), sim))
    &&& force_fits(met, contributions, sim)
    &&& acceleration_fits(forced(met, contributions, sim), dt)
    &&& world_in_range(accelerated(forced(met, contributions, sim), dt))
}

/// A copy of the bodies of a world.
fn copy_bodies(bodies: &Vec<Body>) -> (copy: Vec<Body>)
    ensures
        copy@ == bodies@,
{
    let mut copy: Vec<Body> = Vec::new();
    let mut i: usize = 0;
    while i < bodies.len()
        invariant
            i <= bodies.len(),
            copy@ == bodies@.take(i as int),
        decreases bodies.len() - i,
    {
        copy.push(bodies[i]);
        assert(bodies@.take(i + 1) =~= bodies@.take(i as int).push(bodies@[i as int]));
        i += 1;
    }
    assert(bodies@.take(bodies@.len() as int) =~= bodies@);
    copy
}

/// Tells whether the integrator can advance every position.
fn positions_are_in_reach(bodies: &Vec<Body>, dt: i64) -> (ok: bool)
    ensures
        ok == (forall|i: int| 0 <= i < bodies@.len() ==> (#[trigger] bodies@[i]).position_fits(dt as int)),
{
    let mut i: usize = 0;
    while i < bodies.len()
        invariant
            i <= bodies.len(),
            forall|k: int| 0 <= k < i ==> (#[trigger] bodies@[k]).position_fits(dt as int),
        decreases bodies.len() - i,
    {
        if !bodies[i].can_step_position(dt) {
            return false;
        }
        i += 1;
    }
    true
}

/// Tells whether every position can be folded.
fn folds_are_in_reach(bodies: &Vec<Body>, border_distance: i64) -> (ok: bool)
    requires
        border_distance > 0,
    ensures
        ok == (forall|i: int|
            0 <= i < bodies@.len() ==> (#[trigger] bodies@[i]).fold_fits(border_distance as int)),
{
    let mut i: usize = 0;
    while i < bodies.len()
        invariant
            i <= bodies.len(),
            border_distance > 0,
            forall|k: int| 0 <= k < i ==> (#[trigger] bodies@[k]).fold_fits(border_distance as int),
        decreases bodies.len() - i,
    {
        if !bodies[i].can_fold(border_distance) {
            return false;
        }
        i += 1;
    }
    true
}

/// Tells whether the weight of every body can be added to the force on it.
fn weights_are_in_reach(bodies: &Vec<Body>, g: V2) -> (ok: bool)
    ensures
        ok == (forall|i: int| 0 <= i < bodies@.len() ==> (#[trigger] bodies@[i]).gravity_fits(g)),
{
    let mut i: usize = 0;
    while i < bodies.len()
        invariant
            i <= bodies.len(),
            forall|k: int| 0 <= k < i ==> (#[trigger] bodies@[k]).gravity_fits(g),
        decreases bodies.len() - i,
    {
        if !bodies[i].can_apply_gravity(g) {
            return false;
        }
        i += 1;
    }
    true
}

/// Tells whether every contribution can be added to the force on its body.
fn contributions_are_in_reach(bodies: &Vec<Body>, contributions: &Vec<V2>) -> (ok: bool)
    requires
        contributions@.len() == bodies@.len(),
    ensures
        ok == (forall|i: int|
            0 <= i < bodies@.len() ==> (#[trigger] bodies@[i]).force_fits(contributions@[i])),
{
    let mut i: usize = 0;
    while i < bodies.len()
        invariant
            i <= bodies.len(),
            contributions@.len() == bodies@.len(),
            forall|k: int| 0 <= k < i ==> (#[trigger] bodies@[k]).force_fits(contributions@[k]),
        decreases bodies.len() - i,
    {
        if !bodies[i].can_add_force(contributions[i]) {
            return false;
        }
        i += 1;
    }
    true
}

/// Tells whether every velocity can be derived.
fn velocities_are_in_reach(bodies: &Vec<Body>, dt: i64) -> (ok: bool)
    ensures
        ok == (forall|i: int| 0 <= i < bodies@.len() ==> (#[trigger] bodies@[i]).velocity_fits(dt as int)),
{
    let mut i: usize = 0;
    while i < bodies.len()
        invariant
            i <= bodies.len(),
            forall|k: int| 0 <= k < i ==> (#[trigger] bodies@[k]).velocity_fits(dt as int),
        decreases bodies.len() - i,
    {
        if !bodies[i].can_step_velocity(dt) {
            return false;
        }
        i += 1;
    }
    true
}

/// Advances and folds every position, where that can be computed.
fn move_bodies(bodies: &mut Vec<Body>, sim: &Simulation, dt: i64) -> (ok: bool)
    requires
        sim.wf(),
    ensures
        ok == move_fits(old(bodies)@, *sim, dt as int),
        ok ==> final(bodies)@ == moved(old(bodies)@, *sim, dt as int),
{
    if !positions_are_in_reach(bodies, dt) {
        return false;
    }
    calculate_next_positions(bodies, dt);
    if !folds_are_in_reach(bodies, sim.border_distance) {
        proof {
            if move_fits(old(bodies)@, *sim, dt as int) {
                assert forall|i: int| 0 <= i < bodies@.len() implies (#[trigger] bodies@[i]).fold_fits(
                    sim.border_distance as int,
                ) by {
                    assert(old(bodies)@[i].position_fits(dt as int));
                }
            }
        }
        return false;
    }
    let ghost stepped = bodies@;
    modulo_position_wraparound(bodies, sim.border_distance);
    proof {
        assert(bodies@ =~= moved(old(bodies)@, *sim, dt as int));
        assert forall|i: int| 0 <= i < old(bodies)@.len() implies (#[trigger] old(
            bodies,
        )@[i]).position_fits(dt as int) && old(bodies)@[i].position_stepped(dt as int).fold_fits(
            sim.border_distance as int,
        ) by {
            assert(stepped[i].fold_fits(sim.border_distance as int));
        }
    }
    true
}

/// Resolves collisions with terrain and records collisions between bodies
/// that are not static, where the passes accept the world.
fn collide_bodies(bodies: &mut Vec<Body>, sim: &Simulation) -> (events: Option<Vec<StaticCollisionEvent>>)
    requires
        sim.wf(),
    ensures
        events is Some <==> world_in_range(old(bodies)@) && world_in_range(landed(old(bodies)@, *sim)),
        events is Some ==> final(bodies)@ == collided(landed(old(bodies)@, *sim), *sim)
            && events->Some_0@ == all_contacts_from(old(bodies)@, sim.border_distance as int, 0),
{
    if !world_is_in_range(bodies) {
        return None;
    }
    let events = compute_static_collider_forces(bodies, sim.border_distance);
    assert(bodies@ =~= landed(old(bodies)@, *sim));
    if !world_is_in_range(bodies) {
        return None;
    }
    let ghost down = bodies@;
    compute_non_static_intersections(bodies, sim.border_distance);
    assert(bodies@ =~= collided(down, *sim));
    Some(events)
}

/// Gathers the forces of a tick afresh, where that can be computed.
fn force_bodies(bodies: &mut Vec<Body>, contributions: &Vec<V2>, sim: &Simulation) -> (ok: bool)
    requires
        contributions@.len() == old(bodies)@.len(),
    ensures
        ok == force_fits(old(bodies)@, contributions@, *sim),
        ok ==> final(bodies)@ == forced(old(bodies)@, contributions@, *sim),
{
    clear_forces(bodies);
    if !weights_are_in_reach(bodies, sim.gravity) {
        proof {
            if force_fits(old(bodies)@, contributions@, *sim) {
                assert forall|i: int| 0 <= i < bodies@.len() implies (#[trigger] bodies@[i]).gravity_fits(
                    sim.gravity,
                ) by {
                    assert(old(bodies)@[i].force_cleared().gravity_fits(sim.gravity));
                }
            }
        }
        return false;
    }
    let ghost cleared = bodies@;
    gravity(bodies, sim.gravity);
    let ghost weighed = bodies@;
    if !contributions_are_in_reach(bodies, contributions) {
        proof {
            if force_fits(old(bodies)@, contributions@, *sim) {
                assert forall|i: int| 0 <= i < bodies@.len() implies (#[trigger] bodies@[i]).force_fits(
                    contributions@[i],
                ) by {
                    assert(old(bodies)@[i].force_cleared().gravity_fits(sim.gravity));
                }
            }
        }
        return false;
    }
    apply_forces(bodies, contributions);
    proof {
        assert(bodies@ =~= forced(old(bodies)@, contributions@, *sim));
        assert forall|i: int| 0 <= i < old(bodies)@.len() implies (#[trigger] old(
            bodies,
        )@[i]).force_cleared().gravity_fits(sim.gravity) && old(
            bodies,
        )@[i].force_cleared().gravity_applied(sim.gravity).force_fits(contributions@[i]) by {
            assert(cleared[i].gravity_fits(sim.gravity));
            assert(weighed[i].force_fits(contributions@[i]));
        }
    }
    true
}

/// Derives accelerations and velocities from the forces, where that can be
/// computed.
fn accelerate_bodies(bodies: &mut Vec<Body>, dt: i64) -> (ok: bool)
    requires
        forall|i: int| 0 <= i < old(bodies)@.len() ==> (#[trigger] old(bodies)@[i]).wf(),
    ensures
        ok == acceleration_fits(old(bodies)@, dt as int),
        ok ==> final(bodies)@ == accelerated(old(bodies)@, dt as int),
{
    calculate_next_accelerations(bodies);
    let ghost pushed = bodies@;
    if !velocities_are_in_reach(bodies, dt) {
        proof {
            if acceleration_fits(old(bodies)@, dt as int) {
                assert forall|i: int| 0 <= i < bodies@.len() implies (#[trigger] bodies@[i]).velocity_fits(
                    dt as int,
                ) by {
                    assert(old(bodies)@[i].accelerated().velocity_fits(dt as int));
                }
            }
        }
        return false;
    }
    calculate_next_velocities(bodies, dt);
    proof {
        assert(bodies@ =~= accelerated(old(bodies)@, dt as int));
        assert forall|i: int| 0 <= i < old(bodies)@.len() implies (#[trigger] old(
            bodies,
        )@[i]).accelerated().velocity_fits(dt as int) by {
            assert(pushed[i].velocity_fits(dt as int));
        }
    }
    true
}

/// Advances the world by one tick of length `dt`, as [`after_tick`] says, and
/// returns the notices of the collisions with terrain.
///
/// `contributions` holds, for each body, the force that the rest of the
/// program exerts on it during this tick. Where the tick cannot be computed,
/// the world stays as it is and nothing is returned.
pub fn tick(bodies: &mut Vec<Body>, contributions: &Vec<V2>, sim: &Simulation, dt: i64) -> (events:
    Option<Vec<StaticCollisionEvent>>)
    ensures
        events is Some <==> tick_fits(old(bodies)@, contributions@, *sim, dt as int),
        events is Some ==> final(bodies)@ == after_tick(
            old(bodies)@,
            contributions@,
            *sim,
            dt as int,
        ) && events->Some_0@ == tick_events(old(bodies)@, *sim, dt as int),
        events is None ==> final(bodies)@ == old(bodies)@,
{
    if !sim.is_well_formed() || contributions.len() != bodies.len() {
        return None;
    }
    let mut work = copy_bodies(bodies);
    if !move_bodies(&mut work, sim, dt) {
        return None;
    }
    let ghost down = landed(work@, *sim);
    let events = match collide_bodies(&mut work, sim) {
        Some(events) => events,
        None => {
            return None;
        },
    };
    assert forall|i: int| 0 <= i < work@.len() implies (#[trigger] work@[i]).wf() by {
        assert(in_range(down[i]));
    }
    let ghost met = work@;
    if !force_bodies(&mut work, contributions, sim) {
        return None;
    }
    assert forall|i: int| 0 <= i < work@.len() implies (#[trigger] work@[i]).wf() by {
        assert(met[i].wf());
    }
    if !accelerate_bodies(&mut work, dt) {
        return None;
    }
    if !world_is_in_range(&work) {
        return None;
    }
    let ghost fast = work@;
    clear_grounded(&mut work, sim.grounded_padding);
    assert(work@ =~= regrounded(fast, *sim));
    *bodies = work;
    Some(events)
}

/// Terrain is never moved: a tick leaves a static body as it was, but for its
/// x-coordinate, which is folded, and the force on it, which is reset.
pub proof fn lemma_tick_leaves_static_bodies(
    all: Seq<Body>,
    contributions: Seq<V2>,
    sim: Simulation,
    dt: int,
    i: int,
)
    requires
        0 <= i < all.len(),
        all[i].is_static,
    ensures
        after_tick(all, contributions, sim, dt)[i] == all[i].folded(
            sim.border_distance as int,
        ).force_cleared(),
{
    let a = moved(all, sim, dt);
    let b = landed(a, sim);
    let c = collided(b, sim);
    let d = forced(c, contributions, sim);
    let e = accelerated(d, dt);
    assert(a[i] == all[i].folded(sim.border_distance as int));
    assert(b[i] == a[i]);
    assert(c[i] == b[i]);
    assert(d[i] == c[i].force_cleared());
    assert(e[i] == d[i]);
}

} // verus!
