use joust_physics::collision::{compute_separation_vector, SeparationVector, SquareCollider};
use joust_physics::separation::{axis_collision, axis_collision_wraparound, RingSeparation};
use joust_physics::vector::V2;
use joust_physics::wraparound::coord_space_to_wraparound_space;

#[test]
fn test_axis_collision_wraparound() {
    let sq1 = SquareCollider {
        min: V2::new(-1, 0),
        max: V2::new(1, 0),
        bounce: 0,
        offset: V2::zero(),
    };
    let res1 = sq1.border_adjusted_bounds(24, V2::new(-12, 0));
    let res2 = sq1.border_adjusted_bounds(24, V2::new(-11, 0));
    let ax_c = axis_collision_wraparound(res1.0.x, res1.1.x, res2.0.x, res2.1.x, 24);
    println!("res1: {:?} res2: {:?}", res1, res2);
    println!("ax_c x: {:?}", ax_c);
    assert_eq!(res1, (V2::new(11, 0), V2::new(-11, 0)));
    assert_eq!(res2, (V2::new(-12, 0), V2::new(-10, 0)));
    assert_eq!(ax_c, RingSeparation::Finite(0));
}

#[test]
fn fold_maps_into_the_canonical_interval() {
    assert_eq!(coord_space_to_wraparound_space(0, 24), 0);
    assert_eq!(coord_space_to_wraparound_space(11, 24), 11);
    assert_eq!(coord_space_to_wraparound_space(12, 24), -12);
    assert_eq!(coord_space_to_wraparound_space(13, 24), -11);
    assert_eq!(coord_space_to_wraparound_space(-12, 24), -12);
    assert_eq!(coord_space_to_wraparound_space(-13, 24), 11);
    assert_eq!(coord_space_to_wraparound_space(100, 24), 4);
    assert_eq!(coord_space_to_wraparound_space(-100, 24), -4);
}

#[test]
fn fold_with_an_odd_width() {
    assert_eq!(coord_space_to_wraparound_space(2, 5), 2);
    assert_eq!(coord_space_to_wraparound_space(3, 5), -2);
    assert_eq!(coord_space_to_wraparound_space(-2, 5), -2);
    assert_eq!(coord_space_to_wraparound_space(-3, 5), 2);
}

#[test]
fn fold_is_periodic() {
    for x in -60i64..60 {
        let folded = coord_space_to_wraparound_space(x, 24);
        assert!(-12 <= folded && folded < 12);
        assert_eq!(coord_space_to_wraparound_space(x + 24, 24), folded);
        assert_eq!(coord_space_to_wraparound_space(x - 48, 24), folded);
    }
}

#[test]
fn disjoint_intervals_have_no_separation() {
    assert_eq!(axis_collision(0, 1, 2, 3), 0);
    assert_eq!(axis_collision(2, 3, 0, 1), 0);
    assert_eq!(axis_collision(-10, -5, 5, 10), 0);
}

#[test]
fn touching_intervals_have_no_separation() {
    assert_eq!(axis_collision(0, 1, 1, 2), 0);
    assert_eq!(axis_collision(1, 2, 0, 1), 0);
}

#[test]
fn overlap_on_the_low_side_leaves_downwards() {
    assert_eq!(axis_collision(0, 2, 1, 3), -1);
    assert_eq!(axis_collision(-5, 4, 0, 10), -4);
}

#[test]
fn overlap_on_the_high_side_leaves_upwards() {
    assert_eq!(axis_collision(1, 3, 0, 2), 1);
    assert_eq!(axis_collision(0, 10, -5, 4), 4);
}

#[test]
fn enclosed_interval_takes_the_shorter_way_out() {
    assert_eq!(axis_collision(1, 2, 0, 10), 2);
    assert_eq!(axis_collision(8, 9, 0, 10), 2);
    assert_eq!(axis_collision(0, 10, 1, 2), 2);
    assert_eq!(axis_collision(0, 10, 8, 9), 2);
}

#[test]
fn equal_intervals_are_enclosed() {
    assert_eq!(axis_collision(0, 1, 0, 1), 1);
    assert_eq!(axis_collision(-5, 5, -5, 5), 10);
    assert_eq!(axis_collision(0, 4, 0, 10), 4);
}

#[test]
fn spans_longer_than_the_ring_are_infinitely_apart() {
    assert_eq!(axis_collision_wraparound(-10, 10, -5, 5, 24), RingSeparation::Infinite);
    assert_eq!(axis_collision_wraparound(5, -5, -6, 6, 24), RingSeparation::Infinite);
    assert_eq!(axis_collision_wraparound(-6, 6, -6, 6, 24), RingSeparation::Finite(12));
}

#[test]
fn intervals_that_do_not_wrap_separate_as_on_a_line() {
    assert_eq!(axis_collision_wraparound(0, 2, 1, 3, 24), RingSeparation::Finite(-1));
    assert_eq!(axis_collision_wraparound(1, 3, 0, 2, 24), RingSeparation::Finite(1));
    assert_eq!(axis_collision_wraparound(0, 1, 5, 6, 24), RingSeparation::Finite(0));
}

#[test]
fn interval_across_the_seam_meets_one_at_the_high_border() {
    assert_eq!(axis_collision_wraparound(10, -10, 9, 11, 24), RingSeparation::Finite(1));
}

#[test]
fn two_intervals_across_the_seam() {
    assert_eq!(axis_collision_wraparound(10, -10, 11, -11, 24), RingSeparation::Finite(3));
}

#[test]
fn separation_is_the_same_one_lap_further() {
    let sq = SquareCollider {
        min: V2::new(-2, -2),
        max: V2::new(2, 2),
        offset: V2::zero(),
        bounce: 1,
    };
    let other = sq.border_adjusted_bounds(48, V2::new(3, 1));
    for x in -30i64..30 {
        let here = sq.border_adjusted_bounds(48, V2::new(x, 0));
        let there = sq.border_adjusted_bounds(48, V2::new(x + 48, 0));
        assert_eq!(here, there);
        assert_eq!(
            axis_collision_wraparound(here.0.x, here.1.x, other.0.x, other.1.x, 48),
            axis_collision_wraparound(there.0.x, there.1.x, other.0.x, other.1.x, 48)
        );
    }
}

#[test]
fn bounds_add_position_and_offset() {
    let sq = SquareCollider {
        min: V2::new(-1, -2),
        max: V2::new(3, 4),
        offset: V2::new(10, 20),
        bounce: 1,
    };
    let bounds = sq.border_adjusted_bounds(48, V2::new(5, 6));
    assert_eq!(bounds, (V2::new(14, 24), V2::new(18, 30)));
    let wrapped = sq.border_adjusted_bounds(48, V2::new(12, 0));
    assert_eq!(wrapped, (V2::new(21, 18), V2::new(-23, 24)));
}

#[test]
fn default_collider() {
    let sq = SquareCollider::default();
    assert_eq!(sq.min, V2::new(-1, -1));
    assert_eq!(sq.max, V2::new(1, 1));
    assert_eq!(sq.offset, V2::new(0, 0));
    assert_eq!(sq.bounce, 1);
}

#[test]
fn separation_vector_of_colliding_boxes() {
    let sv = compute_separation_vector(
        V2::new(-5, -5),
        V2::new(5, 5),
        V2::new(0, -5),
        V2::new(10, 5),
        480,
    );
    assert_eq!(sv, SeparationVector { x: RingSeparation::Finite(-5), y: 10 });
    assert!(!sv.is_zero());
}

#[test]
fn separation_vector_is_zero_when_one_axis_is_clear() {
    let apart_on_y = compute_separation_vector(
        V2::new(-5, 10),
        V2::new(5, 20),
        V2::new(0, -5),
        V2::new(10, 5),
        480,
    );
    assert_eq!(apart_on_y, SeparationVector { x: RingSeparation::Finite(0), y: 0 });
    assert!(apart_on_y.is_zero());
    let apart_on_x = compute_separation_vector(
        V2::new(-5, -5),
        V2::new(5, 5),
        V2::new(95, -5),
        V2::new(105, 5),
        480,
    );
    assert!(apart_on_x.is_zero());
}

#[test]
fn separation_vector_keeps_an_infinite_x() {
    let sv = compute_separation_vector(
        V2::new(-10, 0),
        V2::new(10, 4),
        V2::new(-5, 2),
        V2::new(5, 6),
        24,
    );
    assert_eq!(sv, SeparationVector { x: RingSeparation::Infinite, y: -2 });
    let clear = compute_separation_vector(
        V2::new(-10, 0),
        V2::new(10, 4),
        V2::new(-5, 5),
        V2::new(5, 6),
        24,
    );
    assert!(clear.is_zero());
}

#[test]
fn bounce_scales_the_response() {
    let mut sq = SquareCollider::default();
    assert_eq!(sq.bounce_force(V2::new(3, -4)), Some(V2::new(3, -4)));
    sq.bounce = 5;
    assert_eq!(sq.bounce_force(V2::new(3, -4)), Some(V2::new(15, -20)));
    assert_eq!(sq.bounce_force(V2::new(i64::MAX, 0)), None);
    sq.bounce = 0;
    assert_eq!(sq.bounce_force(V2::new(i64::MAX, i64::MIN)), Some(V2::new(0, 0)));
}

#[test]
fn vector_arithmetic() {
    assert_eq!(V2::new(1, 2).checked_plus(V2::new(10, 20)), Some(V2::new(11, 22)));
    assert_eq!(V2::new(i64::MAX, 2).checked_plus(V2::new(1, 20)), None);
    assert_eq!(V2::new(1, i64::MIN).checked_plus(V2::new(1, -1)), None);
    assert_eq!(V2::new(1, 2).plus(V2::new(10, 20)), V2::new(11, 22));
    assert_eq!(V2::new(1, 2).minus(V2::new(10, 20)), V2::new(-9, -18));
    assert_eq!(V2::zero(), V2::new(0, 0));
}

#[test]
fn moving_by_the_separation_ends_the_overlap() {
    let cases = [(0, 2, 1, 3), (1, 3, 0, 2), (1, 2, 0, 10), (8, 9, 0, 10), (0, 10, 4, 5), (0, 1, 0, 1)];
    for (l1, h1, l2, h2) in cases {
        let s = axis_collision(l1, h1, l2, h2);
        assert!(s != 0);
        let up = axis_collision(l1 + s, h1 + s, l2, h2);
        let down = axis_collision(l1 - s, h1 - s, l2, h2);
        assert!(up == 0 || down == 0);
        let less = s.abs() - 1;
        assert!(less == 0 || axis_collision(l1 + less, h1 + less, l2, h2) != 0);
        assert!(less == 0 || axis_collision(l1 - less, h1 - less, l2, h2) != 0);
    }
}
