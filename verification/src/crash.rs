//! The crash detector: whether the subject touches another body, and what
//! follows from it.

use vstd::prelude::*;
use crate::body::Body;
use crate::game_state::GameState;
use crate::pickup::ActivePickup;
use crate::registry::Registry;
use crate::vector::{Vec2, Vector};

verus! {

/// What a crash leads to.
#[derive(Clone, Copy, Debug, PartialEq, Eq)]
pub enum CrashEvent {
    /// The subject held the consuming modifier: the body behind the handle
    /// was destroyed and the modifier is used up.
    Consumed(usize),
    /// The subject is destroyed and the game is over.
    GameOver,
}

/// A subject at `subject` touches the body: its distance from the centre of
/// the body is at most the collision radius of the body.
pub open spec fn touches(subject: Vector, body: Body) -> bool {
    body.position@.minus(subject).norm_sq() <= body.gravity.1 * body.gravity.1
}

/// The body behind `entity` is one that the subject behind `player` crashes
/// into at `subject`.
pub open spec fn crashes_into(
    slots: Seq<Option<Body>>,
    player: usize,
    subject: Vector,
    entity: int,
) -> bool {
    &&& 0 <= entity < slots.len()
    &&& entity != player
    &&& slots[entity] is Some
    &&& touches(subject, slots[entity].unwrap())
}

/// The lowest handle among the first `upto` slots of a body that the subject
/// crashes into, if there is one.
pub open spec fn first_crash_upto(
    slots: Seq<Option<Body>>,
    player: usize,
    subject: Vector,
    upto: int,
) -> Option<usize>
    decreases upto,
{
    if upto <= 0 {
        None
    } else {
        match first_crash_upto(slots, player, subject, upto - 1) {
            Some(entity) => Some(entity),
            None => if crashes_into(slots, player, subject, upto - 1) {
                Some((upto - 1) as usize)
            } else {
                None
            },
        }
    }
}

/// The lowest handle of a body that the subject crashes into, if there is
/// one.
pub open spec fn first_crash(slots: Seq<Option<Body>>, player: usize, subject: Vector) -> Option<
    usize,
> {
    first_crash_upto(slots, player, subject, slots.len() as int)
}

/// The first crash is a crash, no body with a lower handle is one, and there
/// is none exactly if the subject touches no other body.
pub proof fn lemma_first_crash(slots: Seq<Option<Body>>, player: usize, subject: Vector, upto: int)
    requires
        0 <= upto <= slots.len() <= usize::MAX,
    ensures
        match first_crash_upto(slots, player, subject, upto) {
            Some(entity) => {
                &&& entity < upto
                &&& crashes_into(slots, player, subject, entity as int)
                &&& forall|j: int|
                    0 <= j < entity ==> !#[trigger] crashes_into(slots, player, subject, j)
            },
            None => forall|j: int|
                0 <= j < upto ==> !#[trigger] crashes_into(slots, player, subject, j),
        },
    decreases upto,
{
    if upto > 0 {
        lemma_first_crash(slots, player, subject, upto - 1);
    }
}

/// What the registry and the modifier are after the crash detector ran, and
/// what it reports. The subject is where the body behind `player` is shown.
/// Nothing happens while the simulation is frozen, when `player` names no
/// body, or when the subject touches no other body.
pub open spec fn crash_outcome(
    slots: Seq<Option<Body>>,
    player: usize,
    active_pickup: ActivePickup,
) -> (Seq<Option<Body>>, ActivePickup, Option<CrashEvent>) {
    if active_pickup.frozen() || player >= slots.len() || slots[player as int] is None {
        (slots, active_pickup, None)
    } else {
        match first_crash(slots, player, slots[player as int].unwrap().position@) {
            Some(entity) => if active_pickup.consuming() {
                (
                    slots.update(entity as int, None),
                    ActivePickup(None),
                    Some(CrashEvent::Consumed(entity)),
                )
            } else {
                (slots, active_pickup, Some(CrashEvent::GameOver))
            },
            None => (slots, active_pickup, None),
        }
    }
}

/// Whether a subject at `subject` touches the body.
pub fn is_touching(subject: Vec2, body: &Body) -> (b: bool)
    requires
        subject.in_world(),
        body.valid(),
    ensures
        b == touches(subject@, *body),
{
    let dx: i128 = body.position.x as i128 - subject.x as i128;
    let dy: i128 = body.position.y as i128 - subject.y as i128;
    let radius: i128 = body.gravity.1 as i128;
    proof {
        assert(0 <= dx * dx <= 40_000_000_000_000_000_000_000) by (nonlinear_arith)
            requires
                -200_000_000_000 <= dx <= 200_000_000_000,
        ;
        assert(0 <= dy * dy <= 40_000_000_000_000_000_000_000) by (nonlinear_arith)
            requires
                -200_000_000_000 <= dy <= 200_000_000_000,
        ;
        assert(0 <= radius * radius <= 10_000_000_000_000_000_000_000) by (nonlinear_arith)
            requires
                0 <= radius <= 100_000_000_000,
        ;
    }
    dx * dx + dy * dy <= radius * radius
}

/// Looks for a body that the subject touches where it is shown now. With the
/// consuming modifier the first such body is destroyed and the modifier is
/// used up; without it the game is over.
pub fn check_crash(registry: &mut Registry, player: usize, active_pickup: &mut ActivePickup) -> (event:
    Option<CrashEvent>)
    requires
        old(registry).wf(),
    ensures
        final(registry).wf(),
        (final(registry)@, *final(active_pickup), event) == crash_outcome(
            old(registry)@,
            player,
            *old(active_pickup),
        ),
{
    if active_pickup.is_frozen() {
        return None;
    }
    let subject = match registry.get(player) {
        Some(body) => body.position,
        None => {
            return None;
        },
    };
    let n = registry.len();
    let mut i: usize = 0;
    while i < n
        invariant
            0 <= i <= n,
            n == registry@.len(),
            registry.wf(),
            registry@ == old(registry)@,
            *active_pickup == *old(active_pickup),
            !active_pickup.frozen(),
            player < n,
            registry@[player as int] is Some,
            subject == registry@[player as int].unwrap().position,
            subject.in_world(),
            first_crash_upto(registry@, player, subject@, i as int) is None,
        decreases n - i,
    {
        if i != player {
            match registry.get(i) {
                Some(body) => {
                    if is_touching(subject, &body) {
                        proof {
                            assert(crashes_into(registry@, player, subject@, i as int));
                            lemma_crash_found(registry@, player, subject@, i as int);
                        }
                        if active_pickup.is_consuming() {
                            registry.remove(i);
                            *active_pickup = ActivePickup(None);
                            return Some(CrashEvent::Consumed(i));
                        } else {
                            return Some(CrashEvent::GameOver);
                        }
                    }
                },
                None => {},
            }
        }
        i = i + 1;
    }
    None
}

/// A crash that no crash with a lower handle precedes is the first crash.
proof fn lemma_crash_found(slots: Seq<Option<Body>>, player: usize, subject: Vector, entity: int)
    requires
        slots.len() <= usize::MAX,
        crashes_into(slots, player, subject, entity),
        first_crash_upto(slots, player, subject, entity) is None,
    ensures
        first_crash(slots, player, subject) == Some(entity as usize),
{
    lemma_crash_stays(slots, player, subject, entity, slots.len() as int);
}

proof fn lemma_crash_stays(
    slots: Seq<Option<Body>>,
    player: usize,
    subject: Vector,
    entity: int,
    upto: int,
)
    requires
        crashes_into(slots, player, subject, entity),
        first_crash_upto(slots, player, subject, entity) is None,
        entity < upto,
    ensures
        first_crash_upto(slots, player, subject, upto) == Some(entity as usize),
    decreases upto,
{
    if upto > entity + 1 {
        lemma_crash_stays(slots, player, subject, entity, upto - 1);
    }
}

/// The state of the game after a crash was reported: a crash that destroys
/// the subject ends the game, any other leaves the state as it is.
pub fn next_state(event: &Option<CrashEvent>) -> (state: Option<GameState>)
    ensures
        state == match *event {
            Some(CrashEvent::GameOver) => Some(GameState::GameOver),
            _ => None,
        },
{
    match event {
        Some(CrashEvent::GameOver) => Some(GameState::GameOver),
        _ => None,
    }
}

} // verus!
