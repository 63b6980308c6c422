//! The pairwise force kernel: what one fixed tick does to one body.
//!
//! In one tick a body of mass `m` gains from a body of mass `M` at separation
//! `r` the velocity `G * dt * m * M * r / |r|^3`, where `dt` is the length of
//! a tick. In thousandths, with `dt` one part in `FIXED_TIME_FPS` of a
//! second, that is `G * m * M * SCALE * r / (FIXED_TIME_FPS * |r| * |r|^2)`,
//! computed with the length rounded down and a single division that rounds
//! toward zero.

use vstd::prelude::*;
use crate::body::{GravitationalBody, MASS_LIMIT, VELOCITY_LIMIT, WORLD_LIMIT};
use crate::fixed::{
    ceil_sqrt, div_toward_zero, floor_sqrt, isqrt, isqrt_ceil, lemma_ceil_sqrt,
    lemma_floor_sqrt_exists, lemma_square_order, lemma_trunc_div_bound, lemma_trunc_div_odd,
    magnitude, trunc_div, SCALE,
};
use crate::vector::{Vec2, Vector};

verus! {

/// The gravitational constant.
pub const G: i64 = 30;

/// Fixed ticks in one second.
pub const FIXED_TIME_FPS: i64 = 15;

/// The length of one fixed tick, in units of time: a second holds
/// `FIXED_TIME_FPS` times as many.
pub const FIXED_TIME_DELTA: u64 = 1_000;

/// The fastest a body moves after a tick: 300 world units in a second.
pub const MAX_VELOCITY: i64 = 300_000;

/// Two bodies whose squared distance is at or below this threshold, 30 square
/// world units, do not pull at each other.
pub const MIN_DISTANCE_SQUARED: i64 = 30_000_000;

/// The most attractors one snapshot may hold.
pub const MAX_BODIES: usize = 1024;

/// No single pull changes either component of a velocity by more than this.
pub const PULL_LIMIT: i64 = 100_000_000_000_000;

/// What the kernel reads of one body of the snapshot.
#[derive(Clone, Copy, Debug, PartialEq, Eq)]
pub struct Attractor {
    pub entity: usize,
    pub position: Vec2,
    pub mass: i64,
}

impl Attractor {
    /// The position lies in the world and the mass is within the limit and
    /// not negative.
    pub open spec fn valid(self) -> bool {
        &&& self.position.in_world()
        &&& 0 <= self.mass <= MASS_LIMIT
    }
}

/// The snapshot is small enough and each of its attractors is valid.
pub open spec fn valid_query(query: Seq<Attractor>) -> bool {
    &&& query.len() <= MAX_BODIES
    &&& forall|i: int| 0 <= i < query.len() ==> (#[trigger] query[i]).valid()
}

/// A body that is not placed yet is valid as an attractor: its position lies
/// in the world and its mass is within the limit and not negative.
pub open spec fn valid_phantom(phantom: Option<(Vec2, GravitationalBody)>) -> bool {
    match phantom {
        Some((position, body)) => position.in_world() && 0 <= body.0 <= MASS_LIMIT,
        None => true,
    }
}

/// One component of the change of velocity that a body of mass `other_mass`
/// causes in one tick to a body of mass `subject_mass`. The separation from
/// the subject to the other body is `along` in the direction of the component
/// and `across` in the other direction.
pub open spec fn pull_component(subject_mass: int, other_mass: int, along: int, across: int) -> int {
    let d_sq = along * along + across * across;
    if d_sq <= MIN_DISTANCE_SQUARED {
        0
    } else {
        trunc_div(
            G * subject_mass * other_mass * SCALE * along,
            FIXED_TIME_FPS * floor_sqrt(d_sq) * d_sq,
        )
    }
}

/// The change of velocity that a body of mass `other_mass` at separation `r`
/// causes in one tick to a body of mass `subject_mass`.
pub open spec fn pull(subject_mass: int, other_mass: int, r: Vector) -> Vector {
    Vector {
        x: pull_component(subject_mass, other_mass, r.x, r.y),
        y: pull_component(subject_mass, other_mass, r.y, r.x),
    }
}

/// The pull of one attractor on the body behind `entity`, which has mass
/// `mass` and is at `position`. A body does not pull at itself.
pub open spec fn pull_of(other: Attractor, entity: usize, mass: int, position: Vector) -> Vector {
    if other.entity == entity {
        Vector::zero()
    } else {
        pull(mass, other.mass as int, other.position@.minus(position))
    }
}

/// The sum of the pulls of every attractor of the snapshot on the body behind
/// `entity`, which has mass `mass` and is at `position`.
pub open spec fn total_pull(query: Seq<Attractor>, entity: usize, mass: int, position: Vector) -> Vector
    decreases query.len(),
{
    if query.len() == 0 {
        Vector::zero()
    } else {
        total_pull(query.drop_last(), entity, mass, position).plus(
            pull_of(query.last(), entity, mass, position),
        )
    }
}

/// The pull of the body that is not placed yet, if there is one.
pub open spec fn phantom_pull(
    phantom: Option<(Vec2, GravitationalBody)>,
    mass: int,
    position: Vector,
) -> Vector {
    match phantom {
        Some((at, body)) => pull(mass, body.0 as int, at@.minus(position)),
        None => Vector::zero(),
    }
}

/// A velocity no faster than `MAX_VELOCITY` is kept; a faster one is scaled
/// down to that speed along its own direction.
pub open spec fn clamp_speed(v: Vector) -> Vector {
    if v.norm_sq() <= MAX_VELOCITY * MAX_VELOCITY {
        v
    } else {
        let length = ceil_sqrt(v.norm_sq());
        Vector {
            x: trunc_div(v.x * MAX_VELOCITY, length),
            y: trunc_div(v.y * MAX_VELOCITY, length),
        }
    }
}

/// The way a body of velocity `v` goes in one tick.
pub open spec fn displacement(v: Vector) -> Vector {
    Vector {
        x: trunc_div(v.x, FIXED_TIME_FPS as int),
        y: trunc_div(v.y, FIXED_TIME_FPS as int),
    }
}

/// The coordinate of the world that is nearest to `c`.
pub open spec fn confine_coordinate(c: int) -> int {
    if c < -WORLD_LIMIT {
        -WORLD_LIMIT as int
    } else if c > WORLD_LIMIT {
        WORLD_LIMIT as int
    } else {
        c
    }
}

/// The position of the world that is nearest to `p`.
pub open spec fn confine(p: Vector) -> Vector {
    Vector { x: confine_coordinate(p.x), y: confine_coordinate(p.y) }
}

/// The velocity after one tick of a body of mass `mass` that had velocity `v`
/// at `position`: the pulls are summed first, and the sum is clamped once.
pub open spec fn next_velocity(
    v: Vector,
    position: Vector,
    query: Seq<Attractor>,
    entity: usize,
    mass: int,
    phantom: Option<(Vec2, GravitationalBody)>,
) -> Vector {
    clamp_speed(
        v.plus(total_pull(query, entity, mass, position)).plus(
            phantom_pull(phantom, mass, position),
        ),
    )
}

/// Where a body that leaves `position` with `velocity` is one tick later.
pub open spec fn next_target(position: Vector, velocity: Vector) -> Vector {
    confine(position.plus(displacement(velocity)))
}

/// A velocity and all the pulls of one tick on it never sum to more than this
/// in either component.
const SUM_LIMIT: i64 = 200_000_000_000_000_000;

/// A vector whose squared length is at most the square of `limit` has both
/// components within `limit`.
proof fn lemma_norm_bounds_components(v: Vector, limit: int)
    requires
        limit >= 0,
        v.norm_sq() <= limit * limit,
    ensures
        v.within(limit),
{
    assert(v.x * v.x >= 0 && v.y * v.y >= 0) by (nonlinear_arith);
    lemma_square_order(magnitude(v.x), limit);
    lemma_square_order(magnitude(v.y), limit);
    assert(magnitude(v.x) * magnitude(v.x) == v.x * v.x) by (nonlinear_arith)
        requires
            magnitude(v.x) == v.x || magnitude(v.x) == -v.x,
    ;
    assert(magnitude(v.y) * magnitude(v.y) == v.y * v.y) by (nonlinear_arith)
        requires
            magnitude(v.y) == v.y || magnitude(v.y) == -v.y,
    ;
}

/// The square of a component after scaling by `scale / length`, rounded
/// toward zero, is at most the exact square.
proof fn lemma_scaled_square(c: int, scale: int, length: int)
    requires
        scale >= 0,
        length > 0,
    ensures
        trunc_div(c * scale, length) * trunc_div(c * scale, length) * (length * length) <= (c * c)
            * (scale * scale),
{
    let q = trunc_div(c * scale, length);
    lemma_trunc_div_bound(c * scale, length);
    let a = magnitude(q) * length;
    let b = magnitude(c * scale);
    assert(0 <= a <= b) by (nonlinear_arith)
        requires
            a == magnitude(q) * length,
            magnitude(q) >= 0,
            length > 0,
            a <= b,
    ;
    lemma_square_order(a, b);
    assert(a * a == q * q * (length * length)) by (nonlinear_arith)
        requires
            a == magnitude(q) * length,
            magnitude(q) == q || magnitude(q) == -q,
    ;
    assert(b * b == (c * c) * (scale * scale)) by (nonlinear_arith)
        requires
            b == c * scale || b == -(c * scale),
    ;
}

/// After the clamp no velocity is faster than `MAX_VELOCITY`.
pub proof fn lemma_clamp_speed_bound(v: Vector)
    ensures
        clamp_speed(v).norm_sq() <= MAX_VELOCITY * MAX_VELOCITY,
{
    let n = v.norm_sq();
    let top = MAX_VELOCITY * MAX_VELOCITY;
    if n > top {
        lemma_ceil_sqrt(n);
        let length = ceil_sqrt(n);
        let c = clamp_speed(v);
        lemma_scaled_square(v.x, MAX_VELOCITY as int, length);
        lemma_scaled_square(v.y, MAX_VELOCITY as int, length);
        let ll = length * length;
        assert(c.norm_sq() * ll <= n * top) by (nonlinear_arith)
            requires
                c.x * c.x * ll <= (v.x * v.x) * top,
                c.y * c.y * ll <= (v.y * v.y) * top,
                c.norm_sq() == c.x * c.x + c.y * c.y,
                n == v.x * v.x + v.y * v.y,
        ;
        assert(c.norm_sq() <= top) by (nonlinear_arith)
            requires
                c.norm_sq() * ll <= n * top,
                n <= ll,
                ll > 0,
                top >= 0,
        {
            if c.norm_sq() > top {
                assert(c.norm_sq() * ll >= (top + 1) * ll);
                assert(n * top <= ll * top);
            }
        }
    }
}

/// A velocity that is no faster than `MAX_VELOCITY` has both components
/// within `MAX_VELOCITY`.
pub proof fn lemma_speed_bounds_components(v: Vector)
    requires
        v.norm_sq() <= MAX_VELOCITY * MAX_VELOCITY,
    ensures
        v.within(MAX_VELOCITY as int),
{
    lemma_norm_bounds_components(v, MAX_VELOCITY as int);
}

proof fn lemma_product_bound(a: int, b: int, la: int, lb: int)
    requires
        -la <= a <= la,
        -lb <= b <= lb,
    ensures
        -(la * lb) <= a * b <= la * lb,
{
    assert(-(la * lb) <= a * b <= la * lb) by (nonlinear_arith)
        requires
            -la <= a <= la,
            -lb <= b <= lb,
    ;
}

proof fn lemma_product_nonneg(a: int, b: int, la: int, lb: int)
    requires
        0 <= a <= la,
        0 <= b <= lb,
    ensures
        0 <= a * b <= la * lb,
{
    assert(0 <= a * b <= la * lb) by (nonlinear_arith)
        requires
            0 <= a <= la,
            0 <= b <= lb,
    ;
}

/// A component of a vector is no longer than the rounded-down length of the
/// vector.
proof fn lemma_component_below_length(along: int, across: int)
    ensures
        magnitude(along) <= floor_sqrt(along * along + across * across),
{
    let d_sq = along * along + across * across;
    assert(along * along >= 0 && across * across >= 0) by (nonlinear_arith);
    lemma_floor_sqrt_exists(d_sq);
    let len = floor_sqrt(d_sq);
    let m = magnitude(along);
    assert(m * m == along * along) by (nonlinear_arith)
        requires
            m == along || m == -along,
    ;
    lemma_square_order(m, len + 1);
}

/// No pull is larger than `PULL_LIMIT` in either component.
pub proof fn lemma_pull_bound(subject_mass: int, other_mass: int, along: int, across: int)
    requires
        0 <= subject_mass <= MASS_LIMIT,
        0 <= other_mass <= MASS_LIMIT,
    ensures
        -PULL_LIMIT <= pull_component(subject_mass, other_mass, along, across) <= PULL_LIMIT,
{
    let d_sq = along * along + across * across;
    if d_sq > MIN_DISTANCE_SQUARED {
        lemma_floor_sqrt_exists(d_sq);
        let len = floor_sqrt(d_sq);
        lemma_component_below_length(along, across);
        assert(len > 0) by (nonlinear_arith)
            requires
                len >= 0,
                d_sq < (len + 1) * (len + 1),
                d_sq > 1,
        ;
        lemma_product_nonneg(G * subject_mass, other_mass, G * MASS_LIMIT, MASS_LIMIT as int);
        let strength = G * subject_mass * other_mass * SCALE;
        assert(0 <= strength <= 30_000_000_000_000_000_000_000);
        let num = strength * along;
        let den = FIXED_TIME_FPS * len * d_sq;
        assert(den > 0) by (nonlinear_arith)
            requires
                den == FIXED_TIME_FPS * len * d_sq,
                len > 0,
                d_sq > 0,
        ;
        lemma_trunc_div_bound(num, den);
        let q = magnitude(trunc_div(num, den));
        let m = magnitude(along);
        assert(magnitude(num) == strength * m) by (nonlinear_arith)
            requires
                num == strength * along,
                strength >= 0,
                m == magnitude(along),
        ;
        assert(strength * m <= strength * len) by (nonlinear_arith)
            requires
                strength >= 0,
                m <= len,
        ;
        assert(q <= PULL_LIMIT) by (nonlinear_arith)
            requires
                q >= 0,
                q * den <= strength * len,
                den == FIXED_TIME_FPS * len * d_sq,
                len > 0,
                d_sq > 30_000_000,
                strength <= 30_000_000_000_000_000_000_000,
        {
            if q > PULL_LIMIT {
                assert(q * 15 * d_sq > 30_000_000_000_000_000_000_000);
                assert(q * (15 * len * d_sq) == (q * 15 * d_sq) * len);
                assert((q * 15 * d_sq) * len > strength * len);
            }
        }
    }
}

/// The change of velocity that a body of mass `other_mass` causes in one tick
/// to a body of mass `subject_mass` from which it is separated by `(rx, ry)`.
fn pull_between(subject_mass: i64, other_mass: i64, rx: i64, ry: i64) -> (p: Vec2)
    requires
        0 <= subject_mass <= MASS_LIMIT,
        0 <= other_mass <= MASS_LIMIT,
        -2 * WORLD_LIMIT <= rx <= 2 * WORLD_LIMIT,
        -2 * WORLD_LIMIT <= ry <= 2 * WORLD_LIMIT,
    ensures
        p@ == pull(subject_mass as int, other_mass as int, Vector { x: rx as int, y: ry as int }),
        p@.within(PULL_LIMIT as int),
{
    let x: i128 = rx as i128;
    let y: i128 = ry as i128;
    proof {
        lemma_product_bound(x as int, x as int, 200_000_000_000, 200_000_000_000);
        lemma_product_bound(y as int, y as int, 200_000_000_000, 200_000_000_000);
        assert(x * x >= 0 && y * y >= 0) by (nonlinear_arith);
        lemma_pull_bound(subject_mass as int, other_mass as int, rx as int, ry as int);
        lemma_pull_bound(subject_mass as int, other_mass as int, ry as int, rx as int);
    }
    let d_sq: i128 = x * x + y * y;
    if d_sq <= MIN_DISTANCE_SQUARED as i128 {
        return Vec2 { x: 0, y: 0 };
    }
    let len: i128 = isqrt(d_sq);
    proof {
        assert(len > 0) by (nonlinear_arith)
            requires
                len >= 0,
                d_sq < (len + 1) * (len + 1),
                d_sq > 1,
        ;
        lemma_square_order(len as int, 300_000_000_000);
        lemma_product_nonneg(G * subject_mass, other_mass as int, 30_000_000_000, 1_000_000_000);
        lemma_product_nonneg(
            FIXED_TIME_FPS * len,
            d_sq as int,
            4_500_000_000_000,
            80_000_000_000_000_000_000_000,
        );
        assert(FIXED_TIME_FPS * len * d_sq > 0) by (nonlinear_arith)
            requires
                len > 0,
                d_sq > 0,
        ;
    }
    let strength: i128 = G as i128 * subject_mass as i128 * other_mass as i128 * SCALE as i128;
    let den: i128 = FIXED_TIME_FPS as i128 * len * d_sq;
    proof {
        lemma_product_bound(
            strength as int,
            x as int,
            30_000_000_000_000_000_000_000,
            200_000_000_000,
        );
        lemma_product_bound(
            strength as int,
            y as int,
            30_000_000_000_000_000_000_000,
            200_000_000_000,
        );
        assert(y * y + x * x == d_sq);
    }
    let px: i128 = div_toward_zero(strength * x, den);
    let py: i128 = div_toward_zero(strength * y, den);
    Vec2 { x: px as i64, y: py as i64 }
}

/// Scales a velocity that is faster than `MAX_VELOCITY` down to that speed.
fn clamp_velocity(vx: i64, vy: i64) -> (v: Vec2)
    requires
        -SUM_LIMIT <= vx <= SUM_LIMIT,
        -SUM_LIMIT <= vy <= SUM_LIMIT,
    ensures
        v@ == clamp_speed(Vector { x: vx as int, y: vy as int }),
        v@.norm_sq() <= MAX_VELOCITY * MAX_VELOCITY,
{
    let x: i128 = vx as i128;
    let y: i128 = vy as i128;
    proof {
        lemma_product_bound(x as int, x as int, 200_000_000_000_000_000, 200_000_000_000_000_000);
        lemma_product_bound(y as int, y as int, 200_000_000_000_000_000, 200_000_000_000_000_000);
        assert(x * x >= 0 && y * y >= 0) by (nonlinear_arith);
        lemma_clamp_speed_bound(Vector { x: vx as int, y: vy as int });
    }
    let n: i128 = x * x + y * y;
    if n <= MAX_VELOCITY as i128 * MAX_VELOCITY as i128 {
        return Vec2 { x: vx, y: vy };
    }
    let length: i128 = isqrt_ceil(n);
    proof {
        lemma_ceil_sqrt(n as int);
        lemma_product_bound(x as int, MAX_VELOCITY as int, 200_000_000_000_000_000, 300_000);
        lemma_product_bound(y as int, MAX_VELOCITY as int, 200_000_000_000_000_000, 300_000);
    }
    let cx: i128 = div_toward_zero(x * MAX_VELOCITY as i128, length);
    let cy: i128 = div_toward_zero(y * MAX_VELOCITY as i128, length);
    proof {
        let c = Vector { x: cx as int, y: cy as int };
        assert(c == clamp_speed(Vector { x: vx as int, y: vy as int }));
        lemma_norm_bounds_components(c, MAX_VELOCITY as int);
    }
    Vec2 { x: cx as i64, y: cy as i64 }
}

/// Two bodies pull at each other with changes of velocity that are equal in
/// size and opposite in direction, whatever their masses: before any clamp,
/// what the first does to the second is the negation of what the second does
/// to the first.
pub proof fn lemma_pull_symmetric(first_mass: int, second_mass: int, r: Vector)
    ensures
        pull(second_mass, first_mass, r.negated()) == pull(first_mass, second_mass, r).negated(),
        pull(first_mass, first_mass, r.negated()) == pull(first_mass, first_mass, r).negated(),
        pull(first_mass, second_mass, r).norm_sq() == pull(
            second_mass,
            first_mass,
            r.negated(),
        ).norm_sq(),
{
    lemma_pull_component_odd(first_mass, second_mass, r.x, r.y);
    lemma_pull_component_odd(first_mass, second_mass, r.y, r.x);
    lemma_pull_component_odd(first_mass, first_mass, r.x, r.y);
    lemma_pull_component_odd(first_mass, first_mass, r.y, r.x);
    let p = pull(first_mass, second_mass, r);
    assert((-p.x) * (-p.x) == p.x * p.x) by (nonlinear_arith);
    assert((-p.y) * (-p.y) == p.y * p.y) by (nonlinear_arith);
}

proof fn lemma_pull_component_odd(first_mass: int, second_mass: int, along: int, across: int)
    ensures
        pull_component(second_mass, first_mass, -along, -across) == -pull_component(
            first_mass,
            second_mass,
            along,
            across,
        ),
{
    let d_sq = along * along + across * across;
    assert((-along) * (-along) + (-across) * (-across) == d_sq) by (nonlinear_arith)
        requires
            d_sq == along * along + across * across,
    ;
    if d_sq > MIN_DISTANCE_SQUARED {
        lemma_floor_sqrt_exists(d_sq);
        let len = floor_sqrt(d_sq);
        assert(FIXED_TIME_FPS * len * d_sq > 0) by (nonlinear_arith)
            requires
                len >= 0,
                d_sq < (len + 1) * (len + 1),
                d_sq > 1,
        ;
        assert(G * second_mass * first_mass * SCALE * (-along) == -(G * first_mass * second_mass
            * SCALE * along)) by (nonlinear_arith);
        lemma_trunc_div_odd(
            G * first_mass * second_mass * SCALE * along,
            FIXED_TIME_FPS * len * d_sq,
        );
    }
}

/// Two bodies whose squared distance is at or below `MIN_DISTANCE_SQUARED` do
/// not pull at each other at all, whatever their masses.
pub proof fn lemma_close_pair_no_pull(subject_mass: int, other_mass: int, r: Vector)
    requires
        r.norm_sq() <= MIN_DISTANCE_SQUARED,
    ensures
        pull(subject_mass, other_mass, r) == Vector::zero(),
{
}

/// A snapshot that holds no body but the subject itself pulls at nothing.
pub proof fn lemma_no_attractor_no_pull(
    query: Seq<Attractor>,
    entity: usize,
    mass: int,
    position: Vector,
)
    requires
        forall|i: int| 0 <= i < query.len() ==> (#[trigger] query[i]).entity == entity,
    ensures
        total_pull(query, entity, mass, position) == Vector::zero(),
    decreases query.len(),
{
    if query.len() > 0 {
        let front = query.drop_last();
        assert forall|i: int| 0 <= i < front.len() implies (#[trigger] front[i]).entity
            == entity by {
            assert(front[i] == query[i]);
        }
        lemma_no_attractor_no_pull(front, entity, mass, position);
        assert(query.last() == query[query.len() - 1]);
    }
}

/// The pulls of two snapshots laid end to end add up.
pub proof fn lemma_total_pull_concat(
    first: Seq<Attractor>,
    second: Seq<Attractor>,
    entity: usize,
    mass: int,
    position: Vector,
)
    ensures
        total_pull(first + second, entity, mass, position) == total_pull(
            first,
            entity,
            mass,
            position,
        ).plus(total_pull(second, entity, mass, position)),
    decreases second.len(),
{
    if second.len() == 0 {
        assert(first + second =~= first);
    } else {
        lemma_total_pull_concat(first, second.drop_last(), entity, mass, position);
        assert((first + second).drop_last() =~= first + second.drop_last());
        assert((first + second).last() == second.last());
    }
}

/// The sum of the pulls does not depend on the order of the snapshot: two
/// snapshots that hold the same attractors, each as often as the other, pull
/// alike.
pub proof fn lemma_total_pull_order(
    first: Seq<Attractor>,
    second: Seq<Attractor>,
    entity: usize,
    mass: int,
    position: Vector,
)
    requires
        first.to_multiset() == second.to_multiset(),
    ensures
        total_pull(first, entity, mass, position) == total_pull(second, entity, mass, position),
    decreases first.len(),
{
    first.to_multiset_ensures();
    second.to_multiset_ensures();
    if first.len() > 0 {
        let last = first.last();
        assert(first[first.len() - 1] == last);
        assert(first.contains(last));
        assert(first.to_multiset().count(last) > 0);
        assert(second.to_multiset().count(last) > 0);
        assert(second.contains(last));
        let i = choose|i: int| 0 <= i < second.len() && second[i] == last;
        let front = second.subrange(0, i);
        let back = second.subrange(i + 1, second.len() as int);
        assert(first.drop_last() =~= first.remove(first.len() - 1));
        assert(second.remove(i) =~= front + back);
        assert(second =~= front + (seq![last] + back));
        lemma_total_pull_order(first.drop_last(), front + back, entity, mass, position);
        lemma_total_pull_concat(front, back, entity, mass, position);
        lemma_total_pull_concat(front, seq![last] + back, entity, mass, position);
        lemma_total_pull_concat(seq![last], back, entity, mass, position);
        let single = seq![last];
        assert(single.len() == 1);
        assert(single.last() == last);
        assert(single.drop_last().len() == 0);
        assert(total_pull(single.drop_last(), entity, mass, position) == Vector::zero());
        assert(total_pull(single, entity, mass, position) == Vector::zero().plus(
            pull_of(last, entity, mass, position),
        ));
    }
}

/// A body with no other attractor keeps its velocity through a tick, as long
/// as it was no faster than `MAX_VELOCITY`, and ends the tick exactly one
/// tick's way from where it started, as long as that is inside the world.
pub proof fn lemma_lone_body(
    v: Vector,
    position: Vector,
    query: Seq<Attractor>,
    entity: usize,
    mass: int,
)
    requires
        forall|i: int| 0 <= i < query.len() ==> (#[trigger] query[i]).entity == entity,
        v.norm_sq() <= MAX_VELOCITY * MAX_VELOCITY,
        position.plus(displacement(v)).within(WORLD_LIMIT as int),
    ensures
        next_velocity(v, position, query, entity, mass, None) == v,
        next_target(position, next_velocity(v, position, query, entity, mass, None))
            == position.plus(displacement(v)),
{
    lemma_no_attractor_no_pull(query, entity, mass, position);
    assert(v.plus(Vector::zero()).plus(Vector::zero()) == v);
}

/// After a tick no body is faster than `MAX_VELOCITY`, however heavy or close
/// the attractors are.
pub proof fn lemma_speed_limit(
    v: Vector,
    position: Vector,
    query: Seq<Attractor>,
    entity: usize,
    mass: int,
    phantom: Option<(Vec2, GravitationalBody)>,
)
    ensures
        next_velocity(v, position, query, entity, mass, phantom).norm_sq() <= MAX_VELOCITY
            * MAX_VELOCITY,
{
    lemma_clamp_speed_bound(
        v.plus(total_pull(query, entity, mass, position)).plus(
            phantom_pull(phantom, mass, position),
        ),
    );
}

/// Moves a coordinate that left the world back to its edge.
fn confine_to_world(c: i64) -> (r: i64)
    ensures
        r == confine_coordinate(c as int),
        -WORLD_LIMIT <= r <= WORLD_LIMIT,
{
    if c < -WORLD_LIMIT {
        -WORLD_LIMIT
    } else if c > WORLD_LIMIT {
        WORLD_LIMIT
    } else {
        c
    }
}

/// One tick of one body: the pulls of all other attractors of the snapshot,
/// and of the body that is not placed yet, are added to its velocity, the sum
/// is clamped once, and the body goes one tick's way with the result.
///
/// Returns the new velocity, the position the tick started from, and the
/// position at its end.
pub fn process_gravity_trajectory(
    v: &Vec2,
    position: Vec2,
    query: &Vec<Attractor>,
    entity: usize,
    gravity: &GravitationalBody,
    phantom: Option<(Vec2, GravitationalBody)>,
) -> (out: (Vec2, Vec2, Vec2))
    requires
        v.is_velocity(),
        position.in_world(),
        valid_query(query@),
        0 <= gravity.0 <= MASS_LIMIT,
        valid_phantom(phantom),
    ensures
        out.0@ == next_velocity(v@, position@, query@, entity, gravity.0 as int, phantom),
        out.1 == position,
        out.2@ == next_target(position@, out.0@),
        out.0@.norm_sq() <= MAX_VELOCITY * MAX_VELOCITY,
        out.0@.within(MAX_VELOCITY as int),
        out.2.in_world(),
{
    let mut vx: i64 = v.x;
    let mut vy: i64 = v.y;
    let n = query.len();
    let mut i: usize = 0;
    while i < n
        invariant
            0 <= i <= n,
            n == query.len(),
            n <= MAX_BODIES,
            valid_query(query@),
            position.in_world(),
            0 <= gravity.0 <= MASS_LIMIT,
            -(VELOCITY_LIMIT + i * PULL_LIMIT) <= vx <= VELOCITY_LIMIT + i * PULL_LIMIT,
            -(VELOCITY_LIMIT + i * PULL_LIMIT) <= vy <= VELOCITY_LIMIT + i * PULL_LIMIT,
            (Vector { x: vx as int, y: vy as int }) == v@.plus(
                total_pull(query@.take(i as int), entity, gravity.0 as int, position@),
            ),
        decreases n - i,
    {
        let other = query[i];
        proof {
            assert(query@[i as int].valid());
            assert(query@.take(i + 1).drop_last() == query@.take(i as int));
            assert(query@.take(i + 1).last() == query@[i as int]);
        }
        if other.entity != entity {
            let p = pull_between(
                gravity.0,
                other.mass,
                other.position.x - position.x,
                other.position.y - position.y,
            );
            vx = vx + p.x;
            vy = vy + p.y;
        }
        i = i + 1;
    }
    proof {
        assert(query@.take(n as int) == query@);
    }
    match phantom {
        Some((at, body)) => {
            let p = pull_between(gravity.0, body.0, at.x - position.x, at.y - position.y);
            vx = vx + p.x;
            vy = vy + p.y;
        },
        None => {},
    }
    let velocity = clamp_velocity(vx, vy);
    proof {
        lemma_norm_bounds_components(velocity@, MAX_VELOCITY as int);
        lemma_trunc_div_bound(velocity.x as int, FIXED_TIME_FPS as int);
        lemma_trunc_div_bound(velocity.y as int, FIXED_TIME_FPS as int);
    }
    let translation = Vec2 {
        x: confine_to_world(position.x + velocity.x / FIXED_TIME_FPS),
        y: confine_to_world(position.y + velocity.y / FIXED_TIME_FPS),
    };
    (velocity, position, translation)
}

} // verus!
