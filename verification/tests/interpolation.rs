use gravity_kernel::body::{Body, GravitationTransform, GravitationalBody};
use gravity_kernel::gravity::FIXED_TIME_DELTA;
use gravity_kernel::interpolation::{
    adjust_rotation, interpolate, rendered_position, smooth_movement,
};
use gravity_kernel::pickup::{ActivePickup, PickupType};
use gravity_kernel::registry::Registry;
use gravity_kernel::vector::Vec2;

fn moving(position: Vec2, track: Option<(Vec2, Vec2)>) -> Body {
    Body {
        position,
        gravity: GravitationalBody(1_000, 25_000),
        transform: GravitationTransform::Velocity {
            velocity: Vec2::new(100_000, 0),
            start_position: track.map(|t| t.0),
            target_position: track.map(|t| t.1),
        },
        delayed: None,
        deletable: false,
    }
}

#[test]
fn interpolation_starts_at_the_start_and_ends_at_the_target() {
    let start = Vec2::new(-500_000, 12_345);
    let target = Vec2::new(-493_328, -7_001);
    assert_eq!(interpolate(start, target, 0), start);
    assert_eq!(interpolate(start, target, FIXED_TIME_DELTA), target);
    assert_eq!(interpolate(target, start, 0), target);
    assert_eq!(interpolate(target, start, FIXED_TIME_DELTA), start);
    let edge = Vec2::new(100_000_000_000, -100_000_000_000);
    let other = Vec2::new(-100_000_000_000, 100_000_000_000);
    assert_eq!(interpolate(edge, other, 0), edge);
    assert_eq!(interpolate(edge, other, FIXED_TIME_DELTA), other);
    assert_eq!(interpolate(edge, other, 500), Vec2::new(0, 0));
}

#[test]
fn interpolation_in_between_is_the_linear_blend() {
    let start = Vec2::new(1_000, 2_000);
    let target = Vec2::new(3_000, -2_000);
    assert_eq!(interpolate(start, target, 250), Vec2::new(1_500, 1_000));
    assert_eq!(interpolate(start, target, 500), Vec2::new(2_000, 0));
    assert_eq!(interpolate(start, target, 750), Vec2::new(2_500, -1_000));
    // 7 * 333 / 1000 = 2.331 and -7 * 333 / 1000 = -2.331 both round toward
    // the start.
    assert_eq!(interpolate(Vec2::new(0, 0), Vec2::new(7, -7), 333), Vec2::new(2, -2));
    assert_eq!(interpolate(Vec2::new(0, 0), Vec2::new(7, -7), 999), Vec2::new(6, -6));
    assert_eq!(interpolate(Vec2::new(5, 5), Vec2::new(5, 5), 400), Vec2::new(5, 5));
}

#[test]
fn a_body_without_tick_positions_is_shown_where_it_is() {
    let fresh = moving(Vec2::new(40, 50), None);
    assert_eq!(rendered_position(&fresh, 0), Vec2::new(40, 50));
    assert_eq!(rendered_position(&fresh, 700), Vec2::new(40, 50));
    let mut planet = fresh;
    planet.transform = GravitationTransform::Static;
    assert_eq!(rendered_position(&planet, 700), Vec2::new(40, 50));
    let flying = moving(Vec2::new(40, 50), Some((Vec2::new(0, 0), Vec2::new(1_000, -1_000))));
    assert_eq!(rendered_position(&flying, 700), Vec2::new(700, -700));
}

#[test]
fn every_body_is_shown_between_its_tick_positions() {
    let mut registry = Registry::new();
    let flying = moving(Vec2::new(0, 0), Some((Vec2::new(0, 0), Vec2::new(1_000, -1_000))));
    let fresh = moving(Vec2::new(40, 50), None);
    registry.insert(flying).unwrap();
    registry.insert(fresh).unwrap();
    registry.insert(flying).unwrap();
    registry.remove(2);
    let none = ActivePickup(None);
    smooth_movement(&mut registry, 300, &none);
    assert_eq!(registry.get(0), Some(Body { position: Vec2::new(300, -300), ..flying }));
    assert_eq!(registry.get(1), Some(fresh));
    assert_eq!(registry.get(2), None);
    smooth_movement(&mut registry, 900, &none);
    assert_eq!(registry.get(0), Some(Body { position: Vec2::new(900, -900), ..flying }));
    smooth_movement(&mut registry, 0, &none);
    assert_eq!(registry.get(0), Some(flying));
    smooth_movement(&mut registry, FIXED_TIME_DELTA, &none);
    assert_eq!(registry.get(0), Some(Body { position: Vec2::new(1_000, -1_000), ..flying }));
}

#[test]
fn nothing_is_moved_while_frozen() {
    let mut registry = Registry::new();
    let flying = moving(Vec2::new(17, 4), Some((Vec2::new(0, 0), Vec2::new(1_000, -1_000))));
    registry.insert(flying).unwrap();
    smooth_movement(&mut registry, 300, &ActivePickup(Some(PickupType::Teleport)));
    assert_eq!(registry.get(0), Some(flying));
    smooth_movement(&mut registry, 300, &ActivePickup(Some(PickupType::PlanetKiller)));
    assert_eq!(registry.get(0), Some(Body { position: Vec2::new(300, -300), ..flying }));
}

#[test]
fn a_body_is_turned_along_its_velocity() {
    let flying = moving(Vec2::new(0, 0), Some((Vec2::new(0, 0), Vec2::new(1_000, -1_000))));
    let none = ActivePickup(None);
    assert_eq!(adjust_rotation(&flying, &none), Some(Vec2::new(100_000, 0)));
    let mut planet = flying;
    planet.transform = GravitationTransform::Static;
    assert_eq!(adjust_rotation(&planet, &none), None);
    assert_eq!(adjust_rotation(&flying, &ActivePickup(Some(PickupType::Teleport))), None);
    assert_eq!(
        adjust_rotation(&flying, &ActivePickup(Some(PickupType::PlanetKiller))),
        Some(Vec2::new(100_000, 0))
    );
}
