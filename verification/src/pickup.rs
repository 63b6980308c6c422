//! The modifiers that the subject can hold.

use vstd::prelude::*;
use crate::body::RADIUS_LIMIT;
use crate::level::{GoalStatus, GoalType, LevelEvent};
use crate::vector::{Vec2, Vector};

verus! {

/// A thing to pick up: the radius within which it is collected, and what it
/// is.
#[derive(Clone, Copy, Debug, PartialEq, Eq)]
pub struct Pickup(pub i64, pub PickupType);

/// What can be picked up.
#[derive(Clone, Copy, Debug, PartialEq, Eq, Structural)]
pub enum PickupType {
    Goal,
    /// The subject destroys the next body it crashes into.
    PlanetKiller,
    /// The subject is about to be moved by hand; the simulation stands still
    /// meanwhile.
    Teleport,
}

/// The modifier that the subject holds, if any.
#[derive(Clone, Copy, Debug, PartialEq, Eq)]
pub struct ActivePickup(pub Option<PickupType>);

impl ActivePickup {
    /// The simulation stands still.
    pub open spec fn frozen(self) -> bool {
        self.0 == Some(PickupType::Teleport)
    }

    /// The next crash destroys the body instead of the subject.
    pub open spec fn consuming(self) -> bool {
        self.0 == Some(PickupType::PlanetKiller)
    }

    pub fn is_frozen(&self) -> (b: bool)
        ensures
            b == self.frozen(),
    {
        match self.0 {
            Some(PickupType::Teleport) => true,
            _ => false,
        }
    }

    pub fn is_consuming(&self) -> (b: bool)
        ensures
            b == self.consuming(),
    {
        match self.0 {
            Some(PickupType::PlanetKiller) => true,
            _ => false,
        }
    }
}

/// What the pickups of one frame leave behind.
pub struct PickupOutcome {
    /// The goals that were reached, oldest first.
    pub completed: Seq<GoalType>,
    pub active_pickup: ActivePickup,
    /// For each pickup that was collected, in the order of the list: its
    /// handle and the event that tells of it.
    pub collected: Seq<(usize, LevelEvent)>,
}

/// A subject at `player` collects the pickup at `at`: its distance from the
/// pickup is at most the radius of the pickup.
pub open spec fn collects(player: Vector, at: Vec2, pickup: Pickup) -> bool {
    pickup.0 >= 0 && at@.minus(player).norm_sq() <= pickup.0 * pickup.0
}

/// Every pickup of the list lies in the world and has a radius within the
/// limit.
pub open spec fn valid_pickups(pickups: Seq<(usize, Vec2, Pickup)>) -> bool {
    forall|i: int|
        0 <= i < pickups.len() ==> (#[trigger] pickups[i]).1.in_world() && -RADIUS_LIMIT
            <= pickups[i].2.0 <= RADIUS_LIMIT
}

/// What the pickups of the list leave behind, taken one after the other: a
/// goal that is collected adds the current goal to the goals reached, any
/// other pickup becomes the modifier of the subject.
pub open spec fn pickups_outcome(
    pickups: Seq<(usize, Vec2, Pickup)>,
    player: Vector,
    current: GoalType,
    completed: Seq<GoalType>,
    active_pickup: ActivePickup,
) -> PickupOutcome
    decreases pickups.len(),
{
    if pickups.len() == 0 {
        PickupOutcome { completed, active_pickup, collected: Seq::empty() }
    } else {
        let before = pickups_outcome(
            pickups.drop_last(),
            player,
            current,
            completed,
            active_pickup,
        );
        let (entity, at, pickup) = pickups.last();
        if collects(player, at, pickup) {
            PickupOutcome {
                completed: if pickup.1 == PickupType::Goal {
                    before.completed.push(current)
                } else {
                    before.completed
                },
                active_pickup: if pickup.1 == PickupType::Goal {
                    before.active_pickup
                } else {
                    ActivePickup(Some(pickup.1))
                },
                collected: before.collected.push((entity, LevelEvent::PickupCollected(pickup.1))),
            }
        } else {
            before
        }
    }
}

/// Collects the pickups that the subject touches at `player`. Returns, for
/// each of them, its handle and the event that tells of it. Nothing is
/// collected while the subject holds the teleport modifier.
pub fn check_pickup(
    player: Vec2,
    pickups: &Vec<(usize, Vec2, Pickup)>,
    goal_status: &mut GoalStatus,
    active_pickup: &mut ActivePickup,
) -> (collected: Vec<(usize, LevelEvent)>)
    requires
        player.in_world(),
        valid_pickups(pickups@),
    ensures
        final(goal_status).current == old(goal_status).current,
        old(active_pickup).frozen() ==> {
            &&& final(goal_status).completed@ == old(goal_status).completed@
            &&& *final(active_pickup) == *old(active_pickup)
            &&& collected@.len() == 0
        },
        !old(active_pickup).frozen() ==> (PickupOutcome {
            completed: final(goal_status).completed@,
            active_pickup: *final(active_pickup),
            collected: collected@,
        }) == pickups_outcome(
            pickups@,
            player@,
            old(goal_status).current,
            old(goal_status).completed@,
            *old(active_pickup),
        ),
{
    let mut collected: Vec<(usize, LevelEvent)> = Vec::new();
    if active_pickup.is_frozen() {
        return collected;
    }
    let n = pickups.len();
    let mut i: usize = 0;
    while i < n
        invariant
            0 <= i <= n,
            n == pickups@.len(),
            player.in_world(),
            valid_pickups(pickups@),
            goal_status.current == old(goal_status).current,
            (PickupOutcome {
                completed: goal_status.completed@,
                active_pickup: *active_pickup,
                collected: collected@,
            }) == pickups_outcome(
                pickups@.take(i as int),
                player@,
                old(goal_status).current,
                old(goal_status).completed@,
                *old(active_pickup),
            ),
        decreases n - i,
    {
        let (entity, at, pickup) = pickups[i];
        proof {
            assert(pickups@.take(i + 1).drop_last() == pickups@.take(i as int));
            assert(pickups@.take(i + 1).last() == pickups@[i as int]);
            assert(pickups@[i as int].1.in_world());
        }
        let dx: i128 = at.x as i128 - player.x as i128;
        let dy: i128 = at.y as i128 - player.y as i128;
        let radius: i128 = pickup.0 as i128;
        proof {
            assert(0 <= dx * dx <= 40_000_000_000_000_000_000_000) by (nonlinear_arith)
                requires
                    -200_000_000_000 <= dx <= 200_000_000_000,
            ;
            assert(0 <= dy * dy <= 40_000_000_000_000_000_000_000) by (nonlinear_arith)
                requires
                    -200_000_000_000 <= dy <= 200_000_000_000,
            ;
            assert(0 <= radius * radius <= 10_000_000_000_000_000_000_000) by (nonlinear_arith)
                requires
                    -100_000_000_000 <= radius <= 100_000_000_000,
            ;
        }
        if radius >= 0 && dx * dx + dy * dy <= radius * radius {
            match pickup.1 {
                PickupType::Goal => {
                    let goal_type = goal_status.current;
                    goal_status.completed.push(goal_type);
                },
                _ => {
                    *active_pickup = ActivePickup(Some(pickup.1));
                },
            }
            collected.push((entity, LevelEvent::PickupCollected(pickup.1)));
        }
        i = i + 1;
    }
    proof {
        assert(pickups@.take(n as int) == pickups@);
    }
    collected
}

} // verus!
