use gravity_kernel::body::{Body, DelayedActivity, GravitationTransform, GravitationalBody};
use gravity_kernel::crash::{check_crash, is_touching, next_state, CrashEvent};
use gravity_kernel::game_state::GameState;
use gravity_kernel::pickup::{ActivePickup, PickupType};
use gravity_kernel::registry::Registry;
use gravity_kernel::vector::Vec2;

fn planet(x: i64, y: i64, radius: i64) -> Body {
    Body {
        position: Vec2::new(x, y),
        gravity: GravitationalBody(10_000_000, radius),
        transform: GravitationTransform::Static,
        delayed: None,
        deletable: false,
    }
}

fn ship(x: i64, y: i64) -> Body {
    Body {
        position: Vec2::new(x, y),
        gravity: GravitationalBody(1_000, 25_000),
        transform: GravitationTransform::velocity(Vec2::new(100_000, 0)),
        delayed: None,
        deletable: false,
    }
}

#[test]
fn a_subject_at_the_radius_crashes_and_one_just_outside_does_not() {
    let body = planet(0, 0, 30_000);
    assert!(is_touching(Vec2::new(30_000, 0), &body));
    assert!(!is_touching(Vec2::new(30_001, 0), &body));
    assert!(is_touching(Vec2::new(0, -30_000), &body));
    assert!(!is_touching(Vec2::new(0, -30_001), &body));
    // 18^2 + 24^2 = 30^2
    assert!(is_touching(Vec2::new(-18_000, 24_000), &body));
    assert!(!is_touching(Vec2::new(-18_000, 24_001), &body));
    assert!(!is_touching(Vec2::new(-18_001, 24_000), &body));
    assert!(is_touching(Vec2::new(0, 0), &body));

    let mut registry = Registry::new();
    registry.insert(planet(0, 0, 30_000)).unwrap();
    registry.insert(ship(-30_000, 0)).unwrap();
    let mut pickup = ActivePickup(None);
    assert_eq!(check_crash(&mut registry, 1, &mut pickup), Some(CrashEvent::GameOver));

    let mut registry = Registry::new();
    registry.insert(planet(0, 0, 30_000)).unwrap();
    registry.insert(ship(-30_001, 0)).unwrap();
    assert_eq!(check_crash(&mut registry, 1, &mut pickup), None);
}

#[test]
fn the_consuming_modifier_destroys_the_body_and_is_used_up() {
    let mut registry = Registry::new();
    registry.insert(planet(0, 0, 30_000)).unwrap();
    registry.insert(ship(-10_000, 5_000)).unwrap();
    registry.insert(planet(-20_000, 0, 30_000)).unwrap();
    let mut pickup = ActivePickup(Some(PickupType::PlanetKiller));

    let event = check_crash(&mut registry, 1, &mut pickup);
    assert_eq!(event, Some(CrashEvent::Consumed(0)));
    assert_eq!(next_state(&event), None);
    assert_eq!(pickup, ActivePickup(None));
    assert_eq!(registry.get(0), None);
    assert_eq!(registry.get(1), Some(ship(-10_000, 5_000)));
    assert_eq!(registry.get(2), Some(planet(-20_000, 0, 30_000)));

    // The next crash, without the modifier, ends the game.
    let event = check_crash(&mut registry, 1, &mut pickup);
    assert_eq!(event, Some(CrashEvent::GameOver));
    assert_eq!(next_state(&event), Some(GameState::GameOver));
    assert_eq!(pickup, ActivePickup(None));
    assert_eq!(registry.get(2), Some(planet(-20_000, 0, 30_000)));
    assert_eq!(registry.get(1), Some(ship(-10_000, 5_000)));
}

#[test]
fn no_crash_is_reported_while_frozen() {
    let mut registry = Registry::new();
    registry.insert(planet(0, 0, 30_000)).unwrap();
    registry.insert(ship(0, 0)).unwrap();
    let mut pickup = ActivePickup(Some(PickupType::Teleport));
    assert_eq!(check_crash(&mut registry, 1, &mut pickup), None);
    assert_eq!(pickup, ActivePickup(Some(PickupType::Teleport)));
    assert_eq!(registry.get(0), Some(planet(0, 0, 30_000)));
    assert_eq!(next_state(&None), None);
}

#[test]
fn a_subject_does_not_crash_into_itself_or_into_nothing() {
    let mut registry = Registry::new();
    registry.insert(ship(0, 0)).unwrap();
    let mut pickup = ActivePickup(None);
    assert_eq!(check_crash(&mut registry, 0, &mut pickup), None);
    assert_eq!(check_crash(&mut registry, 1, &mut pickup), None);
    registry.insert(planet(100_000, 0, 30_000)).unwrap();
    assert_eq!(check_crash(&mut registry, 0, &mut pickup), None);
    registry.remove(0);
    assert_eq!(check_crash(&mut registry, 0, &mut pickup), None);
    assert_eq!(check_crash(&mut Registry::new(), 0, &mut pickup), None);
}

#[test]
fn a_goal_modifier_does_not_save_the_subject() {
    let mut registry = Registry::new();
    registry.insert(ship(0, 0)).unwrap();
    registry.insert(planet(0, 29_000, 30_000)).unwrap();
    let mut pickup = ActivePickup(Some(PickupType::Goal));
    assert_eq!(check_crash(&mut registry, 0, &mut pickup), Some(CrashEvent::GameOver));
    assert_eq!(pickup, ActivePickup(Some(PickupType::Goal)));
    assert_eq!(registry.get(1), Some(planet(0, 29_000, 30_000)));
}

#[test]
fn a_delayed_body_can_be_crashed_into() {
    let mut registry = Registry::new();
    let mut fresh = planet(0, 0, 30_000);
    fresh.delayed = Some(DelayedActivity(45_000));
    registry.insert(fresh).unwrap();
    registry.insert(ship(0, 30_000)).unwrap();
    let mut pickup = ActivePickup(None);
    assert_eq!(check_crash(&mut registry, 1, &mut pickup), Some(CrashEvent::GameOver));
}

#[test]
fn the_crash_is_judged_where_the_subject_is_shown() {
    let mut registry = Registry::new();
    registry.insert(planet(0, 0, 30_000)).unwrap();
    let mut body = ship(-40_000, 0);
    // The tick ends inside the planet, but the subject is not shown there yet.
    body.transform = GravitationTransform::Velocity {
        velocity: Vec2::new(300_000, 0),
        start_position: Some(Vec2::new(-45_000, 0)),
        target_position: Some(Vec2::new(-25_000, 0)),
    };
    registry.insert(body).unwrap();
    let mut pickup = ActivePickup(None);
    assert_eq!(check_crash(&mut registry, 1, &mut pickup), None);
    body.position = Vec2::new(-30_000, 0);
    registry.replace(1, body);
    assert_eq!(check_crash(&mut registry, 1, &mut pickup), Some(CrashEvent::GameOver));
}
