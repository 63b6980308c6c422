//! Placing a well by hand: what the left mouse button and the cursor do to
//! the pending preview, the registry and the modifier of the subject.

use vstd::prelude::*;
use crate::body::{Body, GravitationTransform, GravitationalBody, WORLD_LIMIT};
use crate::pickup::ActivePickup;
use crate::registry::{placed, placed_at, Registry};
use crate::trajectory::Prediction;
use crate::vector::Vec2;

verus! {

/// The mass of a well placed by hand.
pub const WELL_MASS: i64 = 10_000_000;

/// The collision radius of a well placed by hand.
pub const WELL_RADIUS: i64 = 10_000;

/// The state of the left mouse button in one frame.
#[derive(Clone, Copy, Debug, PartialEq, Eq)]
pub struct LeftButton {
    /// The button went down in this frame.
    pub just_pressed: bool,
    /// The button is down.
    pub pressed: bool,
    /// The button went up in this frame.
    pub just_released: bool,
}

/// What one frame of the spawner leaves behind.
pub struct SpawnerOutcome {
    pub slots: Seq<Option<Body>>,
    pub prediction: Prediction,
    pub active_pickup: ActivePickup,
    /// The handle of the well that was placed, if one was.
    pub spawned: Option<usize>,
}

/// The button is being used, and a preview is pending or begins with this
/// frame.
pub open spec fn engaged(button: LeftButton, prediction: Prediction) -> bool {
    (button.just_released || button.pressed) && (button.just_pressed || prediction
        != Prediction::Nothing)
}

/// The well that is placed at `at`. It is the one that the next well
/// replaces.
pub open spec fn well_at(at: Vec2) -> Body {
    Body {
        position: at,
        gravity: GravitationalBody(WELL_MASS, WELL_RADIUS),
        transform: GravitationTransform::Static,
        delayed: None,
        deletable: true,
    }
}

/// The body that is previewed at the cursor: a well, or a body without mass
/// while the subject is being teleported.
pub open spec fn candidate(teleporting: bool) -> GravitationalBody {
    GravitationalBody(
        if teleporting {
            0
        } else {
            WELL_MASS
        },
        WELL_RADIUS,
    )
}

/// The body moved to `at` by hand: it is shown there, and both positions of
/// its last tick are there. A static body stays as it is.
pub open spec fn teleported_body(body: Body, at: Vec2) -> Body {
    match body.transform {
        GravitationTransform::Velocity { velocity, .. } => Body {
            position: at,
            transform: GravitationTransform::Velocity {
                velocity,
                start_position: Some(at),
                target_position: Some(at),
            },
            ..body
        },
        GravitationTransform::Static => body,
    }
}

/// The slots with the body behind `player` moved to `at` by hand.
pub open spec fn teleported(slots: Seq<Option<Body>>, player: usize, at: Vec2) -> Seq<
    Option<Body>,
> {
    if player < slots.len() && slots[player as int] is Some {
        slots.update(player as int, Some(teleported_body(slots[player as int].unwrap(), at)))
    } else {
        slots
    }
}

/// The slots without the wells that were placed by hand.
pub open spec fn without_deletable(slots: Seq<Option<Body>>) -> Seq<Option<Body>> {
    Seq::new(
        slots.len(),
        |i: int|
            match slots[i] {
                Some(body) => if body.deletable {
                    None
                } else {
                    Some(body)
                },
                None => None,
            },
    )
}

/// What one frame of the spawner leaves behind.
///
/// Nothing changes unless the button is engaged. A cursor outside the world,
/// or none at all, ends the pending preview. Else, while the subject holds
/// the teleport modifier, it is moved to the cursor. If the button went up
/// on a pending preview, the preview ends: a teleport uses up the modifier;
/// otherwise the wells placed before are removed and a new one is placed at
/// the cursor. In every other case the body at the cursor becomes the
/// pending preview.
pub open spec fn spawner_outcome(
    slots: Seq<Option<Body>>,
    player: usize,
    button: LeftButton,
    cursor: Option<Vec2>,
    prediction: Prediction,
    active_pickup: ActivePickup,
) -> SpawnerOutcome {
    if !engaged(button, prediction) {
        SpawnerOutcome { slots, prediction, active_pickup, spawned: None }
    } else if cursor is None || !cursor.unwrap().in_world() {
        SpawnerOutcome { slots, prediction: Prediction::Nothing, active_pickup, spawned: None }
    } else {
        let at = cursor.unwrap();
        let teleporting = active_pickup.frozen();
        let moved = if teleporting {
            teleported(slots, player, at)
        } else {
            slots
        };
        if button.just_released && prediction != Prediction::Nothing {
            if teleporting {
                SpawnerOutcome {
                    slots: moved,
                    prediction: Prediction::Nothing,
                    active_pickup: ActivePickup(None),
                    spawned: None,
                }
            } else {
                SpawnerOutcome {
                    slots: placed(without_deletable(moved), well_at(at)),
                    prediction: Prediction::Nothing,
                    active_pickup,
                    spawned: placed_at(without_deletable(moved)),
                }
            }
        } else {
            SpawnerOutcome {
                slots: moved,
                prediction: Prediction::Insert(at, candidate(teleporting)),
                active_pickup,
                spawned: None,
            }
        }
    }
}

/// Moves the body behind `player` to `at` by hand.
fn teleport(registry: &mut Registry, player: usize, at: Vec2)
    requires
        old(registry).wf(),
        at.in_world(),
    ensures
        final(registry).wf(),
        final(registry)@ == teleported(old(registry)@, player, at),
{
    match registry.get(player) {
        Some(body) => match body.transform {
            GravitationTransform::Velocity { velocity, start_position: _, target_position: _ } => {
                let after = Body {
                    position: at,
                    gravity: body.gravity,
                    transform: GravitationTransform::Velocity {
                        velocity,
                        start_position: Some(at),
                        target_position: Some(at),
                    },
                    delayed: body.delayed,
                    deletable: body.deletable,
                };
                assert(after == teleported_body(body, at));
                registry.replace(player, after);
            },
            GravitationTransform::Static => {
                assert(registry@ =~= teleported(registry@, player, at));
            },
        },
        None => {},
    }
}

/// Removes the wells that were placed by hand.
fn remove_deletable(registry: &mut Registry)
    requires
        old(registry).wf(),
    ensures
        final(registry).wf(),
        final(registry)@ == without_deletable(old(registry)@),
{
    let n = registry.len();
    let mut i: usize = 0;
    while i < n
        invariant
            0 <= i <= n,
            n == registry@.len(),
            n == old(registry)@.len(),
            registry.wf(),
            forall|j: int|
                0 <= j < i ==> registry@[j] == #[trigger] without_deletable(old(registry)@)[j],
            forall|j: int| i <= j < n ==> registry@[j] == #[trigger] old(registry)@[j],
        decreases n - i,
    {
        match registry.get(i) {
            Some(body) => {
                if body.deletable {
                    registry.remove(i);
                }
            },
            None => {},
        }
        i = i + 1;
    }
    assert(registry@ =~= without_deletable(old(registry)@));
}

/// One frame of the spawner: reads the left mouse button and the place of
/// the cursor in the world, if it is over the window, and changes the
/// pending preview, the registry and the modifier accordingly. Returns the
/// handle of the well that was placed, if one was.
pub fn gravity_spawner(
    registry: &mut Registry,
    player: usize,
    button: &LeftButton,
    cursor: Option<Vec2>,
    prediction: &mut Prediction,
    active_pickup: &mut ActivePickup,
) -> (spawned: Option<usize>)
    requires
        old(registry).wf(),
    ensures
        final(registry).wf(),
        (SpawnerOutcome {
            slots: final(registry)@,
            prediction: *final(prediction),
            active_pickup: *final(active_pickup),
            spawned,
        }) == spawner_outcome(
            old(registry)@,
            player,
            *button,
            cursor,
            *old(prediction),
            *old(active_pickup),
        ),
{
    let spawning = button.just_released;
    let testing = button.pressed;
    let initialized = button.just_pressed;
    let pending = match prediction {
        Prediction::Nothing => false,
        Prediction::Insert(_, _) => true,
    };
    if !((spawning || testing) && (initialized || pending)) {
        return None;
    }
    let at = match cursor {
        Some(at) => {
            if !at.is_within(WORLD_LIMIT) {
                *prediction = Prediction::Nothing;
                return None;
            }
            at
        },
        None => {
            *prediction = Prediction::Nothing;
            return None;
        },
    };
    let teleporting = active_pickup.is_frozen();
    let mut possible_body = GravitationalBody(WELL_MASS, WELL_RADIUS);
    if teleporting {
        teleport(registry, player, at);
        possible_body = GravitationalBody(0, WELL_RADIUS);
    }
    if spawning && pending {
        *prediction = Prediction::Nothing;
        if teleporting {
            *active_pickup = ActivePickup(None);
            None
        } else {
            remove_deletable(registry);
            let well = Body {
                position: at,
                gravity: possible_body,
                transform: GravitationTransform::Static,
                delayed: None,
                deletable: true,
            };
            assert(well == well_at(at));
            match registry.insert(well) {
                Ok(entity) => Some(entity),
                Err(_) => None,
            }
        }
    } else {
        *prediction = Prediction::Insert(at, possible_body);
        None
    }
}

} // verus!
