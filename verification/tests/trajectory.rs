use gravity_kernel::body::{Body, DelayedActivity, GravitationTransform, GravitationalBody};
use gravity_kernel::registry::Registry;
use gravity_kernel::trajectory::{
    is_valid_phantom, predict, predict_trajectory, Prediction, GAP_BETWEEN_TRAJECTORY,
};
use gravity_kernel::vector::Vec2;

fn planet(x: i64, y: i64, mass: i64) -> Body {
    Body {
        position: Vec2::new(x, y),
        gravity: GravitationalBody(mass, 30_000),
        transform: GravitationTransform::Static,
        delayed: None,
        deletable: false,
    }
}

fn ship(x: i64, y: i64, vx: i64, vy: i64) -> Body {
    Body {
        position: Vec2::new(x, y),
        gravity: GravitationalBody(1_000, 25_000),
        transform: GravitationTransform::velocity(Vec2::new(vx, vy)),
        delayed: None,
        deletable: false,
    }
}

fn planet_and_player() -> Registry {
    let mut registry = Registry::new();
    registry.insert(planet(0, 0, 10_000_000)).unwrap();
    registry.insert(ship(-500_000, 0, 100_000, 0)).unwrap();
    registry
}

#[test]
fn a_preview_without_phantom_has_as_many_samples_as_asked_for() {
    let registry = planet_and_player();
    let samples = predict(&registry, 1, None, 3, GAP_BETWEEN_TRAJECTORY);
    // Seven ticks lie between two samples that are half a second apart.
    assert_eq!(
        samples,
        vec![Vec2::new(-453_179, 0), Vec2::new(-406_039, 0), Vec2::new(-358_503, 0)]
    );
    for count in [0usize, 1, 10, 57] {
        assert_eq!(predict(&registry, 1, None, count, GAP_BETWEEN_TRAJECTORY).len(), count);
    }
}

#[test]
fn a_preview_is_the_same_every_time() {
    let registry = planet_and_player();
    let phantom = Some((Vec2::new(-300_000, 200_000), GravitationalBody(10_000_000, 10_000)));
    let first = predict(&registry, 1, phantom, 10, GAP_BETWEEN_TRAJECTORY);
    let second = predict(&registry, 1, phantom, 10, GAP_BETWEEN_TRAJECTORY);
    assert_eq!(first, second);
    assert_eq!(registry.get(1), Some(ship(-500_000, 0, 100_000, 0)));
    assert_eq!(
        predict(&registry, 1, None, 10, GAP_BETWEEN_TRAJECTORY),
        predict(&registry, 1, None, 10, GAP_BETWEEN_TRAJECTORY)
    );
}

#[test]
fn a_phantom_bends_the_preview() {
    let registry = planet_and_player();
    let phantom = Some((Vec2::new(-300_000, 200_000), GravitationalBody(10_000_000, 10_000)));
    assert_eq!(
        predict(&registry, 1, phantom, 4, GAP_BETWEEN_TRAJECTORY),
        vec![
            Vec2::new(-452_842, 363),
            Vec2::new(-404_743, 1_550),
            Vec2::new(-355_653, 3_887),
            Vec2::new(-305_632, 7_720),
        ]
    );
}

#[test]
fn the_gap_sets_the_number_of_ticks_between_samples() {
    let registry = planet_and_player();
    // A gap of one tick or less: no tick ends before the gap is over.
    assert_eq!(
        predict(&registry, 1, None, 2, 1_000),
        vec![Vec2::new(-500_000, 0), Vec2::new(-500_000, 0)]
    );
    assert_eq!(
        predict(&registry, 1, None, 2, 0),
        vec![Vec2::new(-500_000, 0), Vec2::new(-500_000, 0)]
    );
    // Just over one tick: one tick between samples.
    assert_eq!(
        predict(&registry, 1, None, 3, 1_001),
        vec![Vec2::new(-493_328, 0), Vec2::new(-486_651, 0), Vec2::new(-479_968, 0)]
    );
    assert_eq!(predict(&registry, 1, None, 3, 2_000), predict(&registry, 1, None, 3, 1_001));
}

#[test]
fn a_preview_of_nothing_is_empty() {
    let registry = planet_and_player();
    let phantom = Some((Vec2::new(0, 100_000), GravitationalBody(10_000_000, 10_000)));
    // No sample asked for.
    assert!(predict(&registry, 1, phantom, 0, GAP_BETWEEN_TRAJECTORY).is_empty());
    // No body at all.
    assert!(predict(&Registry::new(), 0, phantom, 5, GAP_BETWEEN_TRAJECTORY).is_empty());
    // The origin is a static body, or no body.
    assert!(predict(&registry, 0, phantom, 5, GAP_BETWEEN_TRAJECTORY).is_empty());
    assert!(predict(&registry, 2, phantom, 5, GAP_BETWEEN_TRAJECTORY).is_empty());
}

#[test]
fn a_phantom_outside_the_limits_gives_no_preview() {
    let registry = planet_and_player();
    let far = Some((Vec2::new(100_000_000_001, 0), GravitationalBody(10_000_000, 10_000)));
    assert!(!is_valid_phantom(&far));
    assert!(predict(&registry, 1, far, 5, GAP_BETWEEN_TRAJECTORY).is_empty());
    let heavy = Some((Vec2::new(0, 0), GravitationalBody(1_000_000_001, 10_000)));
    assert!(!is_valid_phantom(&heavy));
    assert!(predict(&registry, 1, heavy, 5, GAP_BETWEEN_TRAJECTORY).is_empty());
    let negative = Some((Vec2::new(0, 0), GravitationalBody(-1, 10_000)));
    assert!(!is_valid_phantom(&negative));
    assert!(predict(&registry, 1, negative, 5, GAP_BETWEEN_TRAJECTORY).is_empty());
    let weightless = Some((Vec2::new(0, 0), GravitationalBody(0, 10_000)));
    assert!(is_valid_phantom(&weightless));
    assert!(is_valid_phantom(&None));
    assert_eq!(
        predict(&registry, 1, weightless, 5, GAP_BETWEEN_TRAJECTORY),
        predict(&registry, 1, None, 5, GAP_BETWEEN_TRAJECTORY)
    );
}

#[test]
fn only_the_origin_moves_in_a_preview() {
    let mut registry = Registry::new();
    registry.insert(ship(-500_000, 0, 100_000, 0)).unwrap();
    // Another moving body of little mass far away: it stays where it is and
    // is too light to bend the path.
    registry.insert(ship(0, 90_000_000, 0, -300_000)).unwrap();
    assert_eq!(
        predict(&registry, 0, None, 2, GAP_BETWEEN_TRAJECTORY),
        vec![Vec2::new(-453_338, 0), Vec2::new(-406_676, 0)]
    );
    assert_eq!(registry.get(1), Some(ship(0, 90_000_000, 0, -300_000)));
}

#[test]
fn a_preview_leaves_out_delayed_bodies_and_the_well_to_be_replaced() {
    let plain = planet_and_player();
    let expected = predict(&plain, 1, None, 3, GAP_BETWEEN_TRAJECTORY);

    let mut registry = planet_and_player();
    let mut fresh = planet(-400_000, 100_000, 10_000_000);
    fresh.delayed = Some(DelayedActivity(10_000));
    registry.insert(fresh).unwrap();
    let mut well = planet(-450_000, -50_000, 10_000_000);
    well.deletable = true;
    registry.insert(well).unwrap();
    assert_eq!(predict(&registry, 1, None, 3, GAP_BETWEEN_TRAJECTORY), expected);
}

#[test]
fn a_preview_starts_where_the_last_tick_ended() {
    let mut registry = Registry::new();
    registry.insert(planet(0, 0, 10_000_000)).unwrap();
    let mut body = ship(-503_000, 0, 100_000, 0);
    body.transform = GravitationTransform::Velocity {
        velocity: Vec2::new(100_000, 0),
        start_position: Some(Vec2::new(-506_666, 0)),
        target_position: Some(Vec2::new(-500_000, 0)),
    };
    registry.insert(body).unwrap();
    assert_eq!(
        predict(&registry, 1, None, 3, GAP_BETWEEN_TRAJECTORY),
        vec![Vec2::new(-453_179, 0), Vec2::new(-406_039, 0), Vec2::new(-358_503, 0)]
    );
}

#[test]
fn without_a_pending_body_the_markers_are_cleared() {
    let registry = planet_and_player();
    assert!(predict_trajectory(&registry, 1, &Prediction::Nothing, 10).is_empty());
    let pending =
        Prediction::Insert(Vec2::new(-300_000, 200_000), GravitationalBody(10_000_000, 10_000));
    assert_eq!(
        predict_trajectory(&registry, 1, &pending, 4),
        vec![
            Vec2::new(-452_842, 363),
            Vec2::new(-404_743, 1_550),
            Vec2::new(-355_653, 3_887),
            Vec2::new(-305_632, 7_720),
        ]
    );
    assert_eq!(predict_trajectory(&registry, 1, &pending, 10).len(), 10);
    assert!(predict_trajectory(&registry, 0, &pending, 10).is_empty());
}
