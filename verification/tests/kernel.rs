use gravity_kernel::body::GravitationalBody;
use gravity_kernel::fixed::{div_toward_zero, isqrt, isqrt_ceil};
use gravity_kernel::gravity::{process_gravity_trajectory, Attractor, MAX_VELOCITY};
use gravity_kernel::vector::Vec2;

fn planet_at(entity: usize, x: i64, y: i64, mass: i64) -> Attractor {
    Attractor { entity, position: Vec2::new(x, y), mass }
}

#[test]
fn roots_round_down_and_up() {
    assert_eq!(isqrt(0), 0);
    assert_eq!(isqrt(1), 1);
    assert_eq!(isqrt(24), 4);
    assert_eq!(isqrt(25), 5);
    assert_eq!(isqrt(250_000_000_000), 500_000);
    assert_eq!(isqrt(i128::MAX), 13_043_817_825_332_782_212);
    assert_eq!(isqrt_ceil(0), 0);
    assert_eq!(isqrt_ceil(24), 5);
    assert_eq!(isqrt_ceil(25), 5);
    assert_eq!(isqrt_ceil(26), 6);
}

#[test]
fn division_rounds_toward_zero() {
    assert_eq!(div_toward_zero(7, 2), 3);
    assert_eq!(div_toward_zero(-7, 2), -3);
    assert_eq!(div_toward_zero(0, 5), 0);
    assert_eq!(div_toward_zero(-4, 2), -2);
}

#[test]
fn one_planet_pulls_the_player_as_computed_by_hand() {
    // A planet of mass 10000 at the origin, the player of mass 1 at (-500, 0)
    // with velocity (100, 0): the pull is 30 / 15 * 1 * 10000 / 500^2 = 0.08.
    let query = vec![planet_at(0, 0, 0, 10_000_000)];
    let player = GravitationalBody(1_000, 25_000);
    let (velocity, start, target) = process_gravity_trajectory(
        &Vec2::new(100_000, 0),
        Vec2::new(-500_000, 0),
        &query,
        1,
        &player,
        None,
    );
    assert_eq!(velocity, Vec2::new(100_080, 0));
    assert_eq!(start, Vec2::new(-500_000, 0));
    // 100.08 / 15 = 6.672
    assert_eq!(target, Vec2::new(-493_328, 0));
}

#[test]
fn a_pull_has_the_direction_of_the_separation() {
    // The planet lies at (300, 400) from the player: distance 500, so the
    // pull of 0.08 splits into (0.048, 0.064).
    let query = vec![planet_at(0, 300_000, 400_000, 10_000_000)];
    let player = GravitationalBody(1_000, 25_000);
    let (velocity, _, _) = process_gravity_trajectory(
        &Vec2::new(0, 0),
        Vec2::new(0, 0),
        &query,
        1,
        &player,
        None,
    );
    assert_eq!(velocity, Vec2::new(48, 64));
}

#[test]
fn a_lone_body_keeps_its_velocity() {
    let query = vec![planet_at(3, 10_000, 20_000, 1_000)];
    let body = GravitationalBody(1_000, 25_000);
    let (velocity, start, target) = process_gravity_trajectory(
        &Vec2::new(100_000, -45_000),
        Vec2::new(10_000, 20_000),
        &query,
        3,
        &body,
        None,
    );
    assert_eq!(velocity, Vec2::new(100_000, -45_000));
    assert_eq!(start, Vec2::new(10_000, 20_000));
    assert_eq!(target, Vec2::new(10_000 + 6_666, 20_000 - 3_000));

    let nothing: Vec<Attractor> = Vec::new();
    let (velocity, _, target) = process_gravity_trajectory(
        &Vec2::new(-15, 29),
        Vec2::new(0, 0),
        &nothing,
        0,
        &body,
        None,
    );
    assert_eq!(velocity, Vec2::new(-15, 29));
    assert_eq!(target, Vec2::new(-1, 1));
}

#[test]
fn two_bodies_pull_at_each_other_with_opposite_changes() {
    let first = planet_at(0, -120_000, 35_000, 700_000);
    let second = planet_at(1, 64_000, -210_000, 700_000);
    let query = vec![first, second];
    let body = GravitationalBody(700_000, 1_000);
    let zero = Vec2::new(0, 0);
    let (on_first, _, _) =
        process_gravity_trajectory(&zero, first.position, &query, 0, &body, None);
    let (on_second, _, _) =
        process_gravity_trajectory(&zero, second.position, &query, 1, &body, None);
    assert_eq!(on_first.x, -on_second.x);
    assert_eq!(on_first.y, -on_second.y);
    assert_ne!(on_first, zero);
}

#[test]
fn bodies_of_different_mass_pull_with_opposite_changes_too() {
    let first = planet_at(0, 0, 0, 10_000_000);
    let second = planet_at(1, 40_000, 30_000, 2_000);
    let query = vec![first, second];
    let zero = Vec2::new(0, 0);
    let (on_first, _, _) = process_gravity_trajectory(
        &zero,
        first.position,
        &query,
        0,
        &GravitationalBody(10_000_000, 1_000),
        None,
    );
    let (on_second, _, _) = process_gravity_trajectory(
        &zero,
        second.position,
        &query,
        1,
        &GravitationalBody(2_000, 1_000),
        None,
    );
    // 30 / 15 * 10000 * 2 / 50^2 = 16, split into (12.8, 9.6).
    assert_eq!(on_first, Vec2::new(12_800, 9_600));
    assert_eq!(on_second, Vec2::new(-12_800, -9_600));
}

#[test]
fn a_fast_body_is_slowed_to_the_speed_limit_along_its_direction() {
    let nothing: Vec<Attractor> = Vec::new();
    let body = GravitationalBody(1_000, 25_000);
    let (velocity, _, target) = process_gravity_trajectory(
        &Vec2::new(400_000, 300_000),
        Vec2::new(0, 0),
        &nothing,
        0,
        &body,
        None,
    );
    assert_eq!(velocity, Vec2::new(240_000, 180_000));
    assert_eq!(target, Vec2::new(16_000, 12_000));
}

#[test]
fn a_body_at_the_speed_limit_is_not_clamped() {
    let nothing: Vec<Attractor> = Vec::new();
    let body = GravitationalBody(1_000, 25_000);
    let (velocity, _, _) = process_gravity_trajectory(
        &Vec2::new(0, -300_000),
        Vec2::new(0, 0),
        &nothing,
        0,
        &body,
        None,
    );
    assert_eq!(velocity, Vec2::new(0, -300_000));
    let (velocity, _, _) = process_gravity_trajectory(
        &Vec2::new(1, -300_000),
        Vec2::new(0, 0),
        &nothing,
        0,
        &body,
        None,
    );
    let speed_sq = velocity.x as i128 * velocity.x as i128 + velocity.y as i128 * velocity.y as i128;
    assert!(speed_sq <= MAX_VELOCITY as i128 * MAX_VELOCITY as i128);
    assert_eq!(velocity, Vec2::new(0, -299_999));
}

#[test]
fn the_heaviest_bodies_at_the_closest_distance_do_not_break_the_speed_limit() {
    // Just outside the threshold of 30 square units: 5.478^2 > 30.
    let query = vec![planet_at(0, 5_478, 0, 1_000_000_000)];
    let body = GravitationalBody(1_000_000_000, 1_000);
    let (velocity, _, target) = process_gravity_trajectory(
        &Vec2::new(0, 0),
        Vec2::new(0, 0),
        &query,
        1,
        &body,
        None,
    );
    assert_eq!(velocity, Vec2::new(300_000, 0));
    assert_eq!(target, Vec2::new(20_000, 0));

    let crowd: Vec<Attractor> =
        (0..1024).map(|i| planet_at(i, 4_000, -4_000, 1_000_000_000)).collect();
    let (velocity, _, _) = process_gravity_trajectory(
        &Vec2::new(-1_000_000_000_000_000, 1_000_000_000_000_000),
        Vec2::new(0, 0),
        &crowd,
        5_000,
        &body,
        Some((Vec2::new(4_000, -4_000), GravitationalBody(1_000_000_000, 10_000))),
    );
    let speed_sq = velocity.x as i128 * velocity.x as i128 + velocity.y as i128 * velocity.y as i128;
    assert!(speed_sq <= MAX_VELOCITY as i128 * MAX_VELOCITY as i128);
    assert!(velocity.x > 200_000 && velocity.y < -200_000);
}

#[test]
fn a_pair_inside_the_threshold_distance_does_not_pull() {
    let body = GravitationalBody(1_000, 25_000);
    let zero = Vec2::new(0, 0);
    // 5.477^2 = 29.997529 square units: too close.
    let inside = vec![planet_at(0, 5_477, 0, 1_000)];
    let (velocity, _, _) = process_gravity_trajectory(&zero, zero, &inside, 1, &body, None);
    assert_eq!(velocity, zero);
    // 5^2 + 2.236^2 = 29.999696 square units: too close.
    let inside = vec![planet_at(0, -5_000, 2_236, 10_000_000)];
    let (velocity, _, _) = process_gravity_trajectory(&zero, zero, &inside, 1, &body, None);
    assert_eq!(velocity, zero);
    // 5.478^2 = 30.008484 square units: the pull is
    // 30 * 1000 * 1000 * 1000 * 5478 / (15 * 5478 * 30008484) = 66.6
    let outside = vec![planet_at(0, 5_478, 0, 1_000)];
    let (velocity, _, _) = process_gravity_trajectory(&zero, zero, &outside, 1, &body, None);
    assert_eq!(velocity, Vec2::new(66, 0));
    // 5^2 + 2.237^2 = 30.004169 square units, on the far side.
    let outside = vec![planet_at(0, -5_000, 2_237, 10_000_000)];
    let (velocity, _, _) = process_gravity_trajectory(&zero, zero, &outside, 1, &body, None);
    assert!(velocity.x < 0 && velocity.y > 0);
}

#[test]
fn a_body_does_not_pull_at_itself() {
    let body = GravitationalBody(10_000_000, 25_000);
    let zero = Vec2::new(0, 0);
    let query = vec![planet_at(4, 10_000, 0, 10_000_000), planet_at(9, 0, 0, 10_000_000)];
    let (velocity, _, _) = process_gravity_trajectory(&zero, zero, &query, 4, &body, None);
    assert_eq!(velocity, zero);
    let (velocity, _, _) =
        process_gravity_trajectory(&zero, Vec2::new(10_000, 0), &query, 4, &body, None);
    assert!(velocity.x < 0);
}

#[test]
fn a_phantom_pulls_like_a_body_of_the_snapshot() {
    let player = GravitationalBody(1_000, 25_000);
    let nothing: Vec<Attractor> = Vec::new();
    let (velocity, _, target) = process_gravity_trajectory(
        &Vec2::new(100_000, 0),
        Vec2::new(-500_000, 0),
        &nothing,
        1,
        &player,
        Some((Vec2::new(0, 0), GravitationalBody(10_000_000, 10_000))),
    );
    assert_eq!(velocity, Vec2::new(100_080, 0));
    assert_eq!(target, Vec2::new(-493_328, 0));
    // A phantom without mass, as while teleporting, pulls at nothing.
    let (velocity, _, _) = process_gravity_trajectory(
        &Vec2::new(100_000, 0),
        Vec2::new(-500_000, 0),
        &nothing,
        1,
        &player,
        Some((Vec2::new(0, 0), GravitationalBody(0, 10_000))),
    );
    assert_eq!(velocity, Vec2::new(100_000, 0));
}

#[test]
fn a_body_stays_inside_the_world() {
    let body = GravitationalBody(1_000, 25_000);
    let nothing: Vec<Attractor> = Vec::new();
    let (velocity, start, target) = process_gravity_trajectory(
        &Vec2::new(240_000, -180_000),
        Vec2::new(99_999_999_000, -100_000_000_000),
        &nothing,
        0,
        &body,
        None,
    );
    assert_eq!(velocity, Vec2::new(240_000, -180_000));
    assert_eq!(start, Vec2::new(99_999_999_000, -100_000_000_000));
    assert_eq!(target, Vec2::new(100_000_000_000, -100_000_000_000));
}
