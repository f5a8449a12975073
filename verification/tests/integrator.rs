use joust_physics::physics::{
    calculate_next_accelerations, calculate_next_positions, calculate_next_velocities,
    clear_forces, gravity, movement_force, next_position_and_half_velocity, next_velocity, Body,
};
use joust_physics::vector::V2;

#[test]
fn first_half_of_a_tick() {
    let (x, vh) =
        next_position_and_half_velocity(V2::new(10, 20), V2::new(3, -4), V2::new(2, 6), 4);
    assert_eq!(vh, V2::new(7, 8));
    assert_eq!(x, V2::new(38, 52));
}

#[test]
fn half_steps_round_down() {
    let (x, vh) = next_position_and_half_velocity(V2::new(0, 0), V2::new(0, 0), V2::new(1, -1), 1);
    assert_eq!(vh, V2::new(0, -1));
    assert_eq!(x, V2::new(0, -1));
    assert_eq!(next_velocity(V2::new(0, 0), V2::new(3, -3), 1), V2::new(1, -2));
}

#[test]
fn second_half_of_a_tick() {
    assert_eq!(next_velocity(V2::new(7, 8), V2::new(2, 6), 4), V2::new(11, 20));
}

#[test]
fn new_bodies_are_at_rest() {
    let b = Body::new(7, 3);
    assert_eq!(b.id, 7);
    assert_eq!(b.mass, 3);
    assert!(!b.is_static);
    assert_eq!(b.position, V2::zero());
    assert_eq!(b.velocity, V2::zero());
    assert_eq!(b.half_velocity, V2::zero());
    assert_eq!(b.acceleration, V2::zero());
    assert_eq!(b.force, V2::zero());
    assert!(b.collider.is_none());
    assert!(b.grounded.is_none());
    assert!(!b.detects_non_static);
    assert!(b.non_static_collision.is_none());
    let s = Body::new_static(9);
    assert_eq!(s.id, 9);
    assert!(s.is_static);
    assert_eq!(s.position, V2::zero());
}

fn tick(bodies: &mut Vec<Body>, g: V2, dt: i64) {
    calculate_next_positions(bodies, dt);
    clear_forces(bodies);
    gravity(bodies, g);
    calculate_next_accelerations(bodies);
    calculate_next_velocities(bodies, dt);
}

#[test]
fn coasting_body_moves_linearly() {
    let mut b = Body::new(1, 1);
    b.position = V2::new(100, -50);
    b.velocity = V2::new(7, -3);
    let mut bodies = vec![b];
    for n in 1i64..=25 {
        tick(&mut bodies, V2::zero(), 4);
        assert_eq!(bodies[0].position, V2::new(100 + 7 * n * 4, -50 - 3 * n * 4));
        assert_eq!(bodies[0].velocity, V2::new(7, -3));
    }
}

#[test]
fn constant_acceleration_adds_up() {
    let g = V2::new(6, -10);
    let mut b = Body::new(1, 5);
    b.acceleration = g;
    let mut bodies = vec![b];
    for n in 1i64..=25 {
        tick(&mut bodies, g, 3);
        assert_eq!(bodies[0].acceleration, g);
        assert_eq!(bodies[0].velocity, V2::new(6 * n * 3, -10 * n * 3));
    }
}

#[test]
fn one_tick_under_gravity() {
    let g = V2::new(0, -9810);
    let mut b = Body::new(1, 1);
    b.acceleration = g;
    let mut bodies = vec![b];
    tick(&mut bodies, g, 2);
    assert_eq!(bodies[0].half_velocity, V2::new(0, -9810));
    assert_eq!(bodies[0].velocity, V2::new(0, -19620));
    assert_eq!(bodies[0].position, V2::new(0, -19620));
    assert_eq!(bodies[0].force, V2::new(0, -9810));
    assert_eq!(bodies[0].acceleration, V2::new(0, -9810));
}

#[test]
fn first_tick_from_rest_takes_half_a_step() {
    let g = V2::new(0, -9810);
    let mut bodies = vec![Body::new(1, 1)];
    tick(&mut bodies, g, 2);
    assert_eq!(bodies[0].position, V2::zero());
    assert_eq!(bodies[0].velocity, V2::new(0, -9810));
}

#[test]
fn static_bodies_are_left_alone() {
    let mut s = Body::new_static(2);
    s.position = V2::new(5, 5);
    s.velocity = V2::new(1, 1);
    s.acceleration = V2::new(1, 1);
    s.force = V2::new(3, 3);
    let mut bodies = vec![s];
    calculate_next_positions(&mut bodies, 10);
    assert_eq!(bodies[0].position, V2::new(5, 5));
    assert_eq!(bodies[0].half_velocity, V2::zero());
    gravity(&mut bodies, V2::new(0, -10));
    assert_eq!(bodies[0].force, V2::new(3, 3));
    calculate_next_accelerations(&mut bodies);
    assert_eq!(bodies[0].acceleration, V2::new(1, 1));
    calculate_next_velocities(&mut bodies, 10);
    assert_eq!(bodies[0].velocity, V2::new(1, 1));
    bodies[0].add_force(V2::new(100, 100));
    assert_eq!(bodies[0].force, V2::new(3, 3));
    clear_forces(&mut bodies);
    assert_eq!(bodies[0].force, V2::zero());
}

#[test]
fn gravity_is_mass_times_acceleration() {
    let mut a = Body::new(1, 3);
    a.force = V2::new(1, 1);
    let b = Body::new(2, 10);
    let mut bodies = vec![a, b];
    gravity(&mut bodies, V2::new(2, -7));
    assert_eq!(bodies[0].force, V2::new(7, -20));
    assert_eq!(bodies[1].force, V2::new(20, -70));
    calculate_next_accelerations(&mut bodies);
    assert_eq!(bodies[0].acceleration, V2::new(2, -7));
    assert_eq!(bodies[1].acceleration, V2::new(2, -7));
}

#[test]
fn acceleration_rounds_down() {
    let mut a = Body::new(1, 2);
    a.force = V2::new(7, -7);
    let mut bodies = vec![a];
    calculate_next_accelerations(&mut bodies);
    assert_eq!(bodies[0].acceleration, V2::new(3, -4));
}

#[test]
fn forces_add_in_any_order() {
    let mut a = Body::new(1, 2);
    a.add_force(V2::new(5, 6));
    a.add_force(V2::new(-1, 10));
    let mut b = Body::new(1, 2);
    b.add_force(V2::new(-1, 10));
    b.add_force(V2::new(5, 6));
    assert_eq!(a.force, V2::new(4, 16));
    assert_eq!(a.force, b.force);
}

#[test]
fn bodies_check_their_own_reach() {
    let mut b = Body::new(1, 2);
    b.velocity = V2::new(3, 4);
    b.acceleration = V2::new(5, 6);
    assert!(b.can_step_position(10));
    assert!(b.can_step_velocity(10));
    assert!(b.can_apply_gravity(V2::new(0, -10)));
    assert!(b.can_add_force(V2::new(1, 1)));
    assert!(b.can_fold(48));
    assert!(b.is_well_formed());
    b.acceleration = V2::new(i64::MAX, 0);
    assert!(!b.can_step_position(2));
    assert!(!b.can_step_velocity(2));
    b.force = V2::new(i64::MAX, 0);
    assert!(!b.can_add_force(V2::new(1, 0)));
    assert!(!b.can_apply_gravity(V2::new(1, 0)));
    b.position = V2::new(i64::MAX, 0);
    assert!(!b.can_fold(48));
    b.mass = 0;
    assert!(!b.is_well_formed());
    b.is_static = true;
    assert!(b.is_well_formed());
    assert!(b.can_step_position(2));
    assert!(b.can_step_velocity(2));
    assert!(b.can_add_force(V2::new(1, 0)));
    assert!(b.can_apply_gravity(V2::new(1, 0)));
}

#[test]
fn movement_force_scales_with_mass() {
    assert_eq!(movement_force(3, V2::new(5, -7)), Some(V2::new(15, -21)));
    assert_eq!(movement_force(0, V2::new(5, -7)), Some(V2::new(0, 0)));
    assert_eq!(movement_force(2, V2::new(i64::MAX, 0)), None);
    assert_eq!(movement_force(2, V2::new(0, i64::MIN)), None);
}
