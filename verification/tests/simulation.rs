use joust_physics::collision::{
    body_is_in_range, world_is_in_range, SquareCollider, StaticCollisionEvent, MAX_BODIES,
    SCALAR_LIMIT,
};
use joust_physics::grounded::GroundedState;
use joust_physics::physics::{apply_forces, modulo_position_wraparound, Body};
use joust_physics::simulation::{tick, Simulation};
use joust_physics::speed_clamps::SpeedClamps;
use joust_physics::vector::V2;
use joust_physics::wraparound::MAX_BORDER_DISTANCE;

fn world() -> Simulation {
    Simulation { gravity: V2::new(0, -9810), border_distance: 480_000, grounded_padding: 100 }
}

fn platform(id: u64) -> Body {
    let mut p = Body::new_static(id);
    p.collider = Some(SquareCollider {
        min: V2::new(-50_000, -10_000),
        max: V2::new(50_000, 0),
        offset: V2::zero(),
        bounce: 1,
    });
    p
}

fn rider(id: u64, x: i64, y: i64) -> Body {
    let mut b = Body::new(id, 1);
    b.position = V2::new(x, y);
    b.collider = Some(SquareCollider {
        min: V2::new(-10_000, -10_000),
        max: V2::new(10_000, 10_000),
        offset: V2::zero(),
        bounce: 1,
    });
    b.grounded = Some(GroundedState::NotGrounded);
    b
}

#[test]
fn one_tick_of_free_fall() {
    let sim = world();
    let mut b = Body::new(1, 1);
    b.acceleration = sim.gravity;
    let mut bodies = vec![b];
    let events = tick(&mut bodies, &vec![V2::zero()], &sim, 2);
    assert_eq!(events, Some(vec![]));
    assert_eq!(bodies[0].velocity, V2::new(0, -19620));
    assert_eq!(bodies[0].half_velocity, V2::new(0, -9810));
    assert_eq!(bodies[0].position, V2::new(0, -19620));
    assert_eq!(bodies[0].acceleration, V2::new(0, -9810));
}

#[test]
fn contributions_add_to_the_weight() {
    let sim = world();
    let mut bodies = vec![Body::new(1, 2), Body::new(2, 5)];
    let pushes = vec![V2::new(100, 0), V2::new(0, 49050)];
    let events = tick(&mut bodies, &pushes, &sim, 2);
    assert_eq!(events, Some(vec![]));
    assert_eq!(bodies[0].force, V2::new(100, -19620));
    assert_eq!(bodies[0].acceleration, V2::new(50, -9810));
    assert_eq!(bodies[0].velocity, V2::new(50, -9810));
    assert_eq!(bodies[1].force, V2::new(0, 0));
    assert_eq!(bodies[1].acceleration, V2::new(0, 0));
    assert_eq!(bodies[1].velocity, V2::new(0, 0));
}

#[test]
fn falling_rider_lands_and_stays_grounded() {
    let sim = world();
    let mut r = rider(1, 0, 10_500);
    r.velocity = V2::new(0, -300);
    let mut bodies = vec![r, platform(2)];
    let events = tick(&mut bodies, &vec![V2::zero(), V2::zero()], &sim, 2);
    assert_eq!(events, Some(vec![StaticCollisionEvent { e1: 1, e2: 2 }]));
    assert_eq!(bodies[0].position, V2::new(0, 10_000));
    assert_eq!(bodies[0].grounded, Some(GroundedState::GroundedTo(2)));
    assert_eq!(bodies[0].half_velocity, V2::new(0, -300));
    assert_eq!(bodies[0].velocity, V2::new(0, -10110));
    assert_eq!(bodies[1].position, V2::zero());
    assert_eq!(bodies[1].velocity, V2::zero());
    assert_eq!(bodies[1].acceleration, V2::zero());
}

#[test]
fn positions_are_folded_each_tick() {
    let sim = Simulation { gravity: V2::zero(), border_distance: 480, grounded_padding: 0 };
    let mut b = Body::new(1, 1);
    b.position = V2::new(235, 7);
    b.velocity = V2::new(10, 0);
    let mut s = Body::new_static(2);
    s.position = V2::new(250, 3);
    let mut bodies = vec![b, s];
    let events = tick(&mut bodies, &vec![V2::zero(), V2::zero()], &sim, 1);
    assert_eq!(events, Some(vec![]));
    assert_eq!(bodies[0].position, V2::new(-235, 7));
    assert_eq!(bodies[1].position, V2::new(-230, 3));
}

#[test]
fn tick_that_does_not_fit_changes_nothing() {
    let sim = world();
    let mut b = Body::new(1, 1);
    b.velocity = V2::new(i64::MAX, 0);
    let mut bodies = vec![b];
    assert_eq!(tick(&mut bodies, &vec![V2::zero()], &sim, 2), None);
    assert_eq!(bodies[0].position, V2::zero());
    assert_eq!(bodies[0].velocity, V2::new(i64::MAX, 0));
}

#[test]
fn tick_needs_a_contribution_for_every_body() {
    let sim = world();
    let mut bodies = vec![Body::new(1, 1)];
    assert_eq!(tick(&mut bodies, &vec![], &sim, 2), None);
}

#[test]
fn tick_needs_a_world_with_a_width() {
    let mut sim = world();
    sim.border_distance = 0;
    assert!(!sim.is_well_formed());
    let mut bodies = vec![Body::new(1, 1)];
    assert_eq!(tick(&mut bodies, &vec![V2::zero()], &sim, 2), None);
    sim.border_distance = MAX_BORDER_DISTANCE + 1;
    assert!(!sim.is_well_formed());
    sim.border_distance = MAX_BORDER_DISTANCE;
    assert!(sim.is_well_formed());
    sim.grounded_padding = -1;
    assert!(!sim.is_well_formed());
}

#[test]
fn tick_needs_positive_masses() {
    let sim = world();
    let mut b = Body::new(1, 1);
    b.mass = 0;
    let mut bodies = vec![b];
    assert_eq!(tick(&mut bodies, &vec![V2::zero()], &sim, 2), None);
}

#[test]
fn range_of_a_pass() {
    let mut b = rider(1, 0, 0);
    assert!(body_is_in_range(&b));
    b.position = V2::new(SCALAR_LIMIT, -SCALAR_LIMIT);
    assert!(body_is_in_range(&b));
    b.position = V2::new(SCALAR_LIMIT + 1, 0);
    assert!(!body_is_in_range(&b));
    assert!(!world_is_in_range(&vec![platform(2), b]));
    assert!(world_is_in_range(&vec![platform(2), rider(1, 0, 0)]));
    assert!(world_is_in_range(&vec![]));
    assert!(!world_is_in_range(&vec![platform(1); MAX_BODIES + 1]));
}

#[test]
fn fold_pass_folds_every_body() {
    let mut a = Body::new(1, 1);
    a.position = V2::new(13, 5);
    let mut s = Body::new_static(2);
    s.position = V2::new(-13, 6);
    let mut bodies = vec![a, s];
    modulo_position_wraparound(&mut bodies, 24);
    assert_eq!(bodies[0].position, V2::new(-11, 5));
    assert_eq!(bodies[1].position, V2::new(11, 6));
}

#[test]
fn forces_are_applied_by_index() {
    let mut bodies = vec![Body::new(1, 1), Body::new_static(2), Body::new(3, 1)];
    apply_forces(&mut bodies, &vec![V2::new(1, 2), V2::new(3, 4), V2::new(5, 6)]);
    assert_eq!(bodies[0].force, V2::new(1, 2));
    assert_eq!(bodies[1].force, V2::new(0, 0));
    assert_eq!(bodies[2].force, V2::new(5, 6));
}

#[test]
fn speed_clamps_limit_each_axis() {
    let c = SpeedClamps::new_from_x_y(3, 10);
    assert_eq!(c, SpeedClamps { pos_x: 3, neg_x: -3, pos_y: 10, neg_y: -10 });
    assert_eq!(c.clamp_velocity(V2::new(5, -20)), V2::new(3, -10));
    assert_eq!(c.clamp_velocity(V2::new(-5, 20)), V2::new(-3, 10));
    assert_eq!(c.clamp_velocity(V2::new(2, -9)), V2::new(2, -9));
    let s = SpeedClamps::new_from_single(4);
    assert_eq!(s, SpeedClamps { pos_x: 4, neg_x: -4, pos_y: 4, neg_y: -4 });
}
