//! The rules of a level: its boundary, its goals, and where new things may
//! be put.

use vstd::prelude::*;
use crate::body::{Body, RADIUS_LIMIT};
use crate::game_state::GameState;
use crate::pickup::PickupType;
use crate::registry::Registry;
use crate::vector::{Vec2, Vector};

verus! {

/// The least distance between a new goal and the surface of any body.
pub const GOAL_GAP: i64 = 100_000;

/// The least distance between a new planet or pickup and the surface of any
/// body.
pub const PLANET_GAP: i64 = 50_000;

/// How many more positions are tried after the first one was not clear.
pub const MAX_POSITION_TESTS: usize = 10;

/// The rectangle that the subject must not leave.
#[derive(Clone, Copy, Debug, PartialEq, Eq)]
pub struct LevelBoundary {
    pub min: Vec2,
    pub max: Vec2,
}

/// What happens in a level.
#[derive(Clone, Copy, Debug, PartialEq, Eq)]
pub enum LevelEvent {
    LevelStarted,
    PickupCollected(PickupType),
}

/// What the subject is sent to fetch.
#[derive(Clone, Copy, Debug, PartialEq, Eq)]
pub enum GoalType {
    Chips,
    Fruit,
    Gas,
    Post,
    ToiletPaper,
}

/// The goal that is out now and the goals that were reached, oldest first.
#[derive(Debug)]
pub struct GoalStatus {
    pub current: GoalType,
    pub completed: Vec<GoalType>,
}

impl GoalType {
    /// The name of the picture of the goal.
    pub fn get_asset_string(&self) -> (name: &'static str)
        ensures
            name@ == match *self {
                GoalType::Chips => "chips.png"@,
                GoalType::Fruit => "fruit.png"@,
                GoalType::Gas => "gas.png"@,
                GoalType::Post => "post.png"@,
                GoalType::ToiletPaper => "toilet-paper.png"@,
            },
    {
        match self {
            GoalType::Chips => "chips.png",
            GoalType::Fruit => "fruit.png",
            GoalType::Gas => "gas.png",
            GoalType::Post => "post.png",
            GoalType::ToiletPaper => "toilet-paper.png",
        }
    }
}

impl LevelEvent {
    /// The event calls for a new goal and a new planet: a level started or a
    /// goal was reached.
    pub open spec fn opens_round(self) -> bool {
        self == LevelEvent::LevelStarted || self == LevelEvent::PickupCollected(PickupType::Goal)
    }

    pub fn is_round_opening(&self) -> (b: bool)
        ensures
            b == self.opens_round(),
    {
        match self {
            LevelEvent::LevelStarted => true,
            LevelEvent::PickupCollected(PickupType::Goal) => true,
            _ => false,
        }
    }
}

impl LevelBoundary {
    /// The position lies inside the boundary or on it.
    pub open spec fn holds(self, position: Vec2) -> bool {
        &&& self.min.x <= position.x <= self.max.x
        &&& self.min.y <= position.y <= self.max.y
    }
}

/// Ends the game once the subject has left the boundary.
pub fn check_boundary(player: Vec2, boundary: &LevelBoundary) -> (state: Option<GameState>)
    ensures
        state == if boundary.holds(player) {
            None
        } else {
            Some(GameState::GameOver)
        },
{
    if player.x < boundary.min.x || player.y < boundary.min.y || player.x > boundary.max.x
        || player.y > boundary.max.y {
        Some(GameState::GameOver)
    } else {
        None
    }
}

/// The position keeps more than `gap` away from the surface of the body, or
/// is exactly that far away.
pub open spec fn keeps_clear(position: Vector, body: Body, gap: int) -> bool {
    body.position@.minus(position).norm_sq() >= (body.gravity.1 + gap) * (body.gravity.1 + gap)
}

/// The position keeps clear of every body of the slots.
pub open spec fn clear_of_all(slots: Seq<Option<Body>>, position: Vector, gap: int) -> bool {
    forall|i: int|
        0 <= i < slots.len() && (#[trigger] slots[i]) is Some ==> keeps_clear(
            position,
            slots[i].unwrap(),
            gap,
        )
}

/// Whether something new may be put at `position`: no body is nearer to it
/// than its own radius and `gap`.
pub fn is_clear(registry: &Registry, position: Vec2, gap: i64) -> (b: bool)
    requires
        registry.wf(),
        position.in_world(),
        0 <= gap <= RADIUS_LIMIT,
    ensures
        b == clear_of_all(registry@, position@, gap as int),
{
    let n = registry.len();
    let mut i: usize = 0;
    while i < n
        invariant
            0 <= i <= n,
            n == registry@.len(),
            registry.wf(),
            position.in_world(),
            0 <= gap <= RADIUS_LIMIT,
            forall|j: int|
                0 <= j < i && (#[trigger] registry@[j]) is Some ==> keeps_clear(
                    position@,
                    registry@[j].unwrap(),
                    gap as int,
                ),
        decreases n - i,
    {
        match registry.get(i) {
            Some(body) => {
                let dx: i128 = body.position.x as i128 - position.x as i128;
                let dy: i128 = body.position.y as i128 - position.y as i128;
                let reach: i128 = body.gravity.1 as i128 + gap as i128;
                proof {
                    assert(0 <= dx * dx <= 40_000_000_000_000_000_000_000) by (nonlinear_arith)
                        requires
                            -200_000_000_000 <= dx <= 200_000_000_000,
                    ;
                    assert(0 <= dy * dy <= 40_000_000_000_000_000_000_000) by (nonlinear_arith)
                        requires
                            -200_000_000_000 <= dy <= 200_000_000_000,
                    ;
                    assert(0 <= reach * reach <= 40_000_000_000_000_000_000_000)
                        by (nonlinear_arith)
                        requires
                            0 <= reach <= 200_000_000_000,
                    ;
                }
                if dx * dx + dy * dy < reach * reach {
                    assert(!keeps_clear(position@, registry@[i as int].unwrap(), gap as int));
                    return false;
                }
            },
            None => {},
        }
        i = i + 1;
    }
    true
}

/// The candidate that is taken: the first that is clear or, if none is, the
/// one after `MAX_POSITION_TESTS` others, or the last if there are fewer.
pub open spec fn chosen_upto(
    slots: Seq<Option<Body>>,
    candidates: Seq<Vec2>,
    gap: int,
    upto: int,
) -> Option<int>
    decreases upto,
{
    if upto <= 0 {
        None
    } else {
        match chosen_upto(slots, candidates, gap, upto - 1) {
            Some(k) => Some(k),
            None => if clear_of_all(slots, candidates[upto - 1]@, gap) || upto - 1
                == MAX_POSITION_TESTS || upto == candidates.len() {
                Some(upto - 1)
            } else {
                None
            },
        }
    }
}

/// Picks the place for something new among the candidates, which are tried
/// in their order, and returns its index: the first that is clear of every
/// body is taken. When `MAX_POSITION_TESTS` candidates were not clear, the
/// next is taken as it is, and so is the last if there are fewer. Without
/// candidates there is no place.
pub fn get_spawn_position(registry: &Registry, candidates: &Vec<Vec2>, gap: i64) -> (place: Option<
    usize,
>)
    requires
        registry.wf(),
        0 <= gap <= RADIUS_LIMIT,
        forall|k: int| 0 <= k < candidates@.len() ==> (#[trigger] candidates@[k]).in_world(),
    ensures
        match place {
            Some(k) => chosen_upto(registry@, candidates@, gap as int, candidates@.len() as int)
                == Some(k as int),
            None => chosen_upto(registry@, candidates@, gap as int, candidates@.len() as int)
                is None,
        },
        place is Some <==> candidates@.len() > 0,
        place is Some ==> place.unwrap() < candidates@.len() && place.unwrap()
            <= MAX_POSITION_TESTS,
{
    let n = candidates.len();
    let mut k: usize = 0;
    while k < n
        invariant
            0 <= k <= n,
            k <= MAX_POSITION_TESTS,
            n == candidates@.len(),
            registry.wf(),
            0 <= gap <= RADIUS_LIMIT,
            forall|j: int| 0 <= j < candidates@.len() ==> (#[trigger] candidates@[j]).in_world(),
            chosen_upto(registry@, candidates@, gap as int, k as int) is None,
        decreases n - k,
    {
        let candidate = candidates[k];
        if is_clear(registry, candidate, gap) || k == MAX_POSITION_TESTS || k + 1 == n {
            proof {
                lemma_choice_stays(registry@, candidates@, gap as int, k as int, n as int);
            }
            return Some(k);
        }
        k = k + 1;
    }
    None
}

proof fn lemma_choice_stays(
    slots: Seq<Option<Body>>,
    candidates: Seq<Vec2>,
    gap: int,
    k: int,
    upto: int,
)
    requires
        0 <= k < upto,
        chosen_upto(slots, candidates, gap, k) is None,
        chosen_upto(slots, candidates, gap, k + 1) == Some(k),
    ensures
        chosen_upto(slots, candidates, gap, upto) == Some(k),
    decreases upto,
{
    if upto > k + 1 {
        lemma_choice_stays(slots, candidates, gap, k, upto - 1);
    }
}

} // verus!
