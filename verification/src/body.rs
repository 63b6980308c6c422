//! The bodies of the simulation and the limits inside which they are valid.

use vstd::prelude::*;
use crate::vector::Vec2;

verus! {

/// Positions are confined to the square that reaches this far from the origin
/// along each axis.
pub const WORLD_LIMIT: i64 = 100_000_000_000;

/// The largest mass a body may have.
pub const MASS_LIMIT: i64 = 1_000_000_000;

/// The largest collision radius a body may have.
pub const RADIUS_LIMIT: i64 = 100_000_000_000;

/// The largest size of either component of a velocity handed to the kernel.
pub const VELOCITY_LIMIT: i64 = 1_000_000_000_000_000;

/// Mass and collision radius of a body, in that order. Neither changes while
/// the body lives.
#[derive(Clone, Copy, Debug, PartialEq, Eq)]
pub struct GravitationalBody(pub i64, pub i64);

/// The time left before a freshly spawned body starts to take part in gravity.
#[derive(Clone, Copy, Debug, PartialEq, Eq)]
pub struct DelayedActivity(pub u64);

/// How a body moves: not at all, or with a velocity and, from its first tick
/// on, the two positions of its last tick.
#[derive(Clone, Copy, Debug, PartialEq, Eq)]
pub enum GravitationTransform {
    Static,
    Velocity { velocity: Vec2, start_position: Option<Vec2>, target_position: Option<Vec2> },
}

/// One body of the registry.
#[derive(Clone, Copy, Debug, PartialEq, Eq)]
pub struct Body {
    /// Where the body is shown.
    pub position: Vec2,
    pub gravity: GravitationalBody,
    pub transform: GravitationTransform,
    /// `Some` while the body is still excluded from gravity.
    pub delayed: Option<DelayedActivity>,
    /// Whether the body is the well that the next placed well replaces.
    pub deletable: bool,
}

impl Vec2 {
    /// The vector is a position of the world.
    pub open spec fn in_world(self) -> bool {
        self@.within(WORLD_LIMIT as int)
    }

    /// The vector is a velocity that the kernel accepts.
    pub open spec fn is_velocity(self) -> bool {
        self@.within(VELOCITY_LIMIT as int)
    }
}

impl GravitationalBody {
    /// Mass and radius are positive and within their limits.
    pub open spec fn valid(self) -> bool {
        &&& 0 < self.0 <= MASS_LIMIT
        &&& 0 < self.1 <= RADIUS_LIMIT
    }

    pub fn is_valid(&self) -> (b: bool)
        ensures
            b == self.valid(),
    {
        0 < self.0 && self.0 <= MASS_LIMIT && 0 < self.1 && self.1 <= RADIUS_LIMIT
    }
}

impl GravitationTransform {
    /// A moving body that has not seen a tick yet.
    pub fn velocity(velocity: Vec2) -> (t: GravitationTransform)
        ensures
            t == (GravitationTransform::Velocity {
                velocity,
                start_position: None,
                target_position: None,
            }),
    {
        GravitationTransform::Velocity { velocity, start_position: None, target_position: None }
    }

    /// The velocity is within its limit, and the two tick positions are set
    /// together or not at all, inside the world.
    pub open spec fn valid(self) -> bool {
        match self {
            GravitationTransform::Static => true,
            GravitationTransform::Velocity { velocity, start_position, target_position } => {
                &&& velocity.is_velocity()
                &&& start_position.is_some() == target_position.is_some()
                &&& start_position.is_some() ==> start_position.unwrap().in_world()
                &&& target_position.is_some() ==> target_position.unwrap().in_world()
            },
        }
    }

    pub fn is_valid(&self) -> (b: bool)
        ensures
            b == self.valid(),
    {
        match self {
            GravitationTransform::Static => true,
            GravitationTransform::Velocity { velocity, start_position, target_position } => {
                let pair_ok = match (start_position, target_position) {
                    (Some(start), Some(target)) => start.is_within(WORLD_LIMIT)
                        && target.is_within(WORLD_LIMIT),
                    (None, None) => true,
                    _ => false,
                };
                velocity.is_within(VELOCITY_LIMIT) && pair_ok
            },
        }
    }
}

impl Body {
    /// Every part of the body is valid.
    pub open spec fn valid(self) -> bool {
        &&& self.position.in_world()
        &&& self.gravity.valid()
        &&& self.transform.valid()
    }

    pub fn is_valid(&self) -> (b: bool)
        ensures
            b == self.valid(),
    {
        self.position.is_within(WORLD_LIMIT) && self.gravity.is_valid() && self.transform.is_valid()
    }

    /// The body takes part in gravity.
    pub open spec fn active(self) -> bool {
        self.delayed.is_none()
    }

    /// The position from which the next tick starts: the target of the last
    /// tick, or where the body is shown if it has seen none.
    pub open spec fn anchor(self) -> Vec2 {
        match self.transform {
            GravitationTransform::Velocity { target_position: Some(target), .. } => target,
            _ => self.position,
        }
    }
}

} // verus!
