//! The interpolator: where a body is shown between two fixed ticks.

use vstd::prelude::*;
use crate::body::{Body, GravitationTransform, WORLD_LIMIT};
use crate::fixed::{lemma_trunc_div_bound, lemma_trunc_div_exact, magnitude, trunc_div};
use crate::gravity::FIXED_TIME_DELTA;
use crate::pickup::ActivePickup;
use crate::registry::{same_bodies, Registry};
use crate::vector::{Vec2, Vector};

verus! {

/// One coordinate of the linear blend between the two positions of a tick,
/// `elapsed` units of time after the tick.
pub open spec fn blend(start: int, target: int, elapsed: int) -> int {
    start + trunc_div((target - start) * elapsed, FIXED_TIME_DELTA as int)
}

/// The linear blend between the two positions of a tick, `elapsed` units of
/// time after the tick.
pub open spec fn interpolated(start: Vector, target: Vector, elapsed: int) -> Vector {
    Vector { x: blend(start.x, target.x, elapsed), y: blend(start.y, target.y, elapsed) }
}

/// Where a body is shown `elapsed` units of time after its last tick: on the
/// way between the two positions of that tick or, before its first tick and
/// for a static body, where it already is.
pub open spec fn shown_at(body: Body, elapsed: int) -> Vector {
    match body.transform {
        GravitationTransform::Velocity {
            start_position: Some(start),
            target_position: Some(target),
            ..
        } => interpolated(start@, target@, elapsed),
        _ => body.position@,
    }
}

/// The body, shown where it is `elapsed` units of time after its last tick.
pub open spec fn shown(body: Body, elapsed: int) -> Body {
    Body { position: shown_at(body, elapsed).to_vec2(), ..body }
}

/// The slots with every body shown where it is `elapsed` units of time after
/// the last tick.
pub open spec fn smoothed(slots: Seq<Option<Body>>, elapsed: int) -> Seq<Option<Body>> {
    Seq::new(
        slots.len(),
        |i: int|
            match slots[i] {
                Some(body) => Some(shown(body, elapsed)),
                None => None,
            },
    )
}

/// A blend starts at the start, ends at the target, and lies between the two
/// all the way.
pub proof fn lemma_blend(start: int, target: int, elapsed: int)
    requires
        0 <= elapsed <= FIXED_TIME_DELTA,
    ensures
        blend(start, target, 0) == start,
        blend(start, target, FIXED_TIME_DELTA as int) == target,
        start <= target ==> start <= blend(start, target, elapsed) <= target,
        target <= start ==> target <= blend(start, target, elapsed) <= start,
{
    let d = target - start;
    let t = FIXED_TIME_DELTA as int;
    assert(d * 0 == 0);
    lemma_trunc_div_exact(0, t);
    lemma_trunc_div_exact(d, t);
    lemma_trunc_div_bound(d * elapsed, t);
    let q = trunc_div(d * elapsed, t);
    assert(magnitude(d * elapsed) <= magnitude(d) * t) by (nonlinear_arith)
        requires
            0 <= elapsed <= t,
    ;
    assert(magnitude(q) <= magnitude(d)) by (nonlinear_arith)
        requires
            magnitude(q) * t <= magnitude(d) * t,
            t > 0,
    ;
    if d >= 0 {
        assert(d * elapsed >= 0) by (nonlinear_arith)
            requires
                d >= 0,
                elapsed >= 0,
        ;
    } else {
        assert(d * elapsed <= 0) by (nonlinear_arith)
            requires
                d <= 0,
                elapsed >= 0,
        ;
    }
}

/// At the tick itself a body is shown at the start position, a whole tick
/// later at the target position.
pub proof fn lemma_interpolation_ends(start: Vector, target: Vector)
    ensures
        interpolated(start, target, 0) == start,
        interpolated(start, target, FIXED_TIME_DELTA as int) == target,
{
    lemma_blend(start.x, target.x, 0);
    lemma_blend(start.y, target.y, 0);
}

fn blend_coordinate(start: i64, target: i64, elapsed: u64) -> (c: i64)
    requires
        -WORLD_LIMIT <= start <= WORLD_LIMIT,
        -WORLD_LIMIT <= target <= WORLD_LIMIT,
        elapsed <= FIXED_TIME_DELTA,
    ensures
        c == blend(start as int, target as int, elapsed as int),
        -WORLD_LIMIT <= c <= WORLD_LIMIT,
{
    proof {
        lemma_blend(start as int, target as int, elapsed as int);
        assert(-200_000_000_000_000 <= (target - start) * elapsed <= 200_000_000_000_000)
            by (nonlinear_arith)
            requires
                -200_000_000_000 <= target - start <= 200_000_000_000,
                0 <= elapsed <= 1000,
        ;
    }
    start + (target - start) * (elapsed as i64) / (FIXED_TIME_DELTA as i64)
}

/// The position between the two positions of a tick, `elapsed` units of time
/// after the tick.
pub fn interpolate(start: Vec2, target: Vec2, elapsed: u64) -> (p: Vec2)
    requires
        start.in_world(),
        target.in_world(),
        elapsed <= FIXED_TIME_DELTA,
    ensures
        p@ == interpolated(start@, target@, elapsed as int),
        p.in_world(),
{
    Vec2 {
        x: blend_coordinate(start.x, target.x, elapsed),
        y: blend_coordinate(start.y, target.y, elapsed),
    }
}

/// Where a body is shown `elapsed` units of time after its last tick.
pub fn rendered_position(body: &Body, elapsed: u64) -> (p: Vec2)
    requires
        body.valid(),
        elapsed <= FIXED_TIME_DELTA,
    ensures
        p@ == shown_at(*body, elapsed as int),
        p.in_world(),
{
    match body.transform {
        GravitationTransform::Velocity {
            velocity: _,
            start_position: Some(start),
            target_position: Some(target),
        } => interpolate(start, target, elapsed),
        _ => body.position,
    }
}

/// Shows every body where it is `elapsed` units of time after the last tick.
/// While the subject holds the teleport modifier every body stays where it
/// was shown last.
pub fn smooth_movement(registry: &mut Registry, elapsed: u64, active_pickup: &ActivePickup)
    requires
        old(registry).wf(),
        elapsed <= FIXED_TIME_DELTA,
    ensures
        final(registry).wf(),
        final(registry)@ == if active_pickup.frozen() {
            old(registry)@
        } else {
            smoothed(old(registry)@, elapsed as int)
        },
        same_bodies(old(registry)@, final(registry)@),
{
    if active_pickup.is_frozen() {
        return ;
    }
    let n = registry.len();
    let mut i: usize = 0;
    while i < n
        invariant
            0 <= i <= n,
            n == registry@.len(),
            n == old(registry)@.len(),
            registry.wf(),
            elapsed <= FIXED_TIME_DELTA,
            forall|j: int|
                0 <= j < i ==> registry@[j] == #[trigger] smoothed(old(registry)@, elapsed as int)[j],
            forall|j: int| i <= j < n ==> registry@[j] == #[trigger] old(registry)@[j],
        decreases n - i,
    {
        match registry.get(i) {
            Some(body) => {
                let position = rendered_position(&body, elapsed);
                let after = Body {
                    position,
                    gravity: body.gravity,
                    transform: body.transform,
                    delayed: body.delayed,
                    deletable: body.deletable,
                };
                assert(after == shown(body, elapsed as int));
                registry.replace(i, after);
            },
            None => {},
        }
        i = i + 1;
    }
    assert(registry@ =~= smoothed(old(registry)@, elapsed as int));
}

/// The vector along which a body is turned: its velocity as it is after the
/// last tick. A static body is not turned, and while the subject holds the
/// teleport modifier no body is.
pub fn adjust_rotation(body: &Body, active_pickup: &ActivePickup) -> (heading: Option<Vec2>)
    ensures
        heading == match body.transform {
            GravitationTransform::Velocity { velocity, .. } => if active_pickup.frozen() {
                None
            } else {
                Some(velocity)
            },
            GravitationTransform::Static => None,
        },
{
    if active_pickup.is_frozen() {
        return None;
    }
    match body.transform {
        GravitationTransform::Velocity { velocity, start_position: _, target_position: _ } => Some(
            velocity,
        ),
        GravitationTransform::Static => None,
    }
}

} // verus!
