//! The preview of the path that the subject would take if a body that is not
//! placed yet were part of the world.

use vstd::prelude::*;
use crate::body::{Body, GravitationalBody, GravitationTransform, MASS_LIMIT, WORLD_LIMIT};
use crate::gravity::{
    next_target, next_velocity, process_gravity_trajectory, valid_phantom, valid_query, Attractor,
    FIXED_TIME_DELTA,
};
use crate::registry::{attractors_of, Registry};
use crate::vector::{Vec2, Vector};

verus! {

/// The time between two samples of a preview: half a second.
pub const GAP_BETWEEN_TRAJECTORY: u64 = 7_500;

/// What the player is about to place, if anything.
#[derive(Clone, Copy, Debug, PartialEq, Eq)]
pub enum Prediction {
    Nothing,
    Insert(Vec2, GravitationalBody),
}

/// Velocity and position of the subject at one moment of a preview.
pub struct Flight {
    pub velocity: Vector,
    pub position: Vector,
}

/// The flight one tick later. Only the subject moves: the attractors of the
/// snapshot and the phantom stay where they are.
pub open spec fn glide(
    state: Flight,
    query: Seq<Attractor>,
    entity: usize,
    mass: int,
    phantom: Option<(Vec2, GravitationalBody)>,
) -> Flight {
    let velocity = next_velocity(state.velocity, state.position, query, entity, mass, phantom);
    Flight { velocity, position: next_target(state.position, velocity) }
}

/// The flight `ticks` ticks later.
pub open spec fn glide_n(
    state: Flight,
    ticks: int,
    query: Seq<Attractor>,
    entity: usize,
    mass: int,
    phantom: Option<(Vec2, GravitationalBody)>,
) -> Flight
    decreases ticks,
{
    if ticks <= 0 {
        state
    } else {
        glide(glide_n(state, ticks - 1, query, entity, mass, phantom), query, entity, mass, phantom)
    }
}

/// The number of ticks between two samples: as many as end before the gap
/// is over.
pub open spec fn substeps_per_sample(sample_gap: u64) -> int {
    if sample_gap == 0 {
        0
    } else {
        (sample_gap - 1) / (FIXED_TIME_DELTA as int)
    }
}

/// The flight from which a preview for the body behind `origin` starts: its
/// velocity, and the position from which its next tick starts. There is none
/// unless `origin` is the handle of a moving body.
pub open spec fn origin_flight(slots: Seq<Option<Body>>, origin: usize) -> Option<Flight> {
    if origin < slots.len() && slots[origin as int] is Some {
        let body = slots[origin as int].unwrap();
        match body.transform {
            GravitationTransform::Velocity { velocity, .. } => Some(
                Flight { velocity: velocity@, position: body.anchor()@ },
            ),
            GravitationTransform::Static => None,
        }
    } else {
        None
    }
}

/// The samples of a preview: none if the phantom is not valid or `origin` is
/// not the handle of a moving body; else `sample_count` positions, one after
/// every `substeps_per_sample(sample_gap)` ticks of the subject's flight.
pub open spec fn predicted_path(
    slots: Seq<Option<Body>>,
    origin: usize,
    phantom: Option<(Vec2, GravitationalBody)>,
    sample_count: usize,
    sample_gap: u64,
) -> Seq<Vector> {
    match origin_flight(slots, origin) {
        Some(start) => if valid_phantom(phantom) {
            Seq::new(
                sample_count as nat,
                |k: int|
                    glide_n(
                        start,
                        (k + 1) * substeps_per_sample(sample_gap),
                        attractors_of(slots, true),
                        origin,
                        slots[origin as int].unwrap().gravity.0 as int,
                        phantom,
                    ).position,
            )
        } else {
            Seq::empty()
        },
        None => Seq::empty(),
    }
}

/// The vectors that a sequence of positions stands for.
pub open spec fn views(positions: Seq<Vec2>) -> Seq<Vector> {
    Seq::new(positions.len(), |i: int| positions[i]@)
}

/// Whether a body that is not placed yet can act as an attractor.
pub fn is_valid_phantom(phantom: &Option<(Vec2, GravitationalBody)>) -> (b: bool)
    ensures
        b == valid_phantom(*phantom),
{
    match phantom {
        Some((position, body)) => position.is_within(WORLD_LIMIT) && 0 <= body.0 && body.0
            <= MASS_LIMIT,
        None => true,
    }
}

/// Previews the path of the body behind `origin`, with `phantom` as one more
/// attractor if there is one. Nothing in the registry changes, and every call
/// computes all samples anew.
pub fn predict(
    registry: &Registry,
    origin: usize,
    phantom: Option<(Vec2, GravitationalBody)>,
    sample_count: usize,
    sample_gap: u64,
) -> (samples: Vec<Vec2>)
    requires
        registry.wf(),
    ensures
        views(samples@) == predicted_path(registry@, origin, phantom, sample_count, sample_gap),
{
    let mut samples: Vec<Vec2> = Vec::new();
    if !is_valid_phantom(&phantom) {
        assert(views(samples@) =~= Seq::<Vector>::empty());
        return samples;
    }
    let (gravity, mut v, mut p) = match registry.get(origin) {
        Some(body) => match body.transform {
            GravitationTransform::Velocity { velocity, start_position: _, target_position } => {
                let anchor = match target_position {
                    Some(target) => target,
                    None => body.position,
                };
                (body.gravity, velocity, anchor)
            },
            GravitationTransform::Static => {
                assert(views(samples@) =~= Seq::<Vector>::empty());
                return samples;
            },
        },
        None => {
            assert(views(samples@) =~= Seq::<Vector>::empty());
            return samples;
        },
    };
    let query = registry.preview_attractors();
    let substeps: u64 = if sample_gap == 0 {
        0
    } else {
        (sample_gap - 1) / FIXED_TIME_DELTA
    };
    let ghost start = Flight { velocity: v@, position: p@ };
    let ghost mass = gravity.0 as int;
    assert(origin_flight(registry@, origin) == Some(start));
    let mut k: usize = 0;
    while k < sample_count
        invariant
            0 <= k <= sample_count,
            samples@.len() == k,
            substeps == substeps_per_sample(sample_gap),
            valid_query(query@),
            valid_phantom(phantom),
            0 <= gravity.0 <= MASS_LIMIT,
            mass == gravity.0,
            v.is_velocity(),
            p.in_world(),
            (Flight { velocity: v@, position: p@ }) == glide_n(
                start,
                k * substeps,
                query@,
                origin,
                mass,
                phantom,
            ),
            forall|i: int|
                0 <= i < k ==> (#[trigger] samples@[i])@ == glide_n(
                    start,
                    (i + 1) * substeps,
                    query@,
                    origin,
                    mass,
                    phantom,
                ).position,
        decreases sample_count - k,
    {
        let mut j: u64 = 0;
        while j < substeps
            invariant
                0 <= j <= substeps,
                valid_query(query@),
                valid_phantom(phantom),
                0 <= gravity.0 <= MASS_LIMIT,
                mass == gravity.0,
                v.is_velocity(),
                p.in_world(),
                0 <= k * substeps,
                (Flight { velocity: v@, position: p@ }) == glide_n(
                    start,
                    k * substeps + j,
                    query@,
                    origin,
                    mass,
                    phantom,
                ),
            decreases substeps - j,
        {
            let (velocity, _, target) = process_gravity_trajectory(
                &v,
                p,
                &query,
                origin,
                &gravity,
                phantom,
            );
            v = velocity;
            p = target;
            j = j + 1;
        }
        proof {
            assert(k * substeps + substeps == (k + 1) * substeps) by (nonlinear_arith);
        }
        samples.push(p);
        k = k + 1;
    }
    assert(views(samples@) =~= predicted_path(
        registry@,
        origin,
        phantom,
        sample_count,
        sample_gap,
    ));
    samples
}

/// The preview for what the player is about to place: no sample while
/// nothing is pending, so that markers shown before are cleared; else
/// `sample_count` samples, `GAP_BETWEEN_TRAJECTORY` apart, with the pending
/// body as the phantom.
pub fn predict_trajectory(
    registry: &Registry,
    player: usize,
    prediction: &Prediction,
    sample_count: usize,
) -> (samples: Vec<Vec2>)
    requires
        registry.wf(),
    ensures
        views(samples@) == match *prediction {
            Prediction::Nothing => Seq::<Vector>::empty(),
            Prediction::Insert(at, body) => predicted_path(
                registry@,
                player,
                Some((at, body)),
                sample_count,
                GAP_BETWEEN_TRAJECTORY,
            ),
        },
{
    match prediction {
        Prediction::Nothing => {
            let samples: Vec<Vec2> = Vec::new();
            assert(views(samples@) =~= Seq::<Vector>::empty());
            samples
        },
        Prediction::Insert(at, body) => predict(
            registry,
            player,
            Some((*at, *body)),
            sample_count,
            GAP_BETWEEN_TRAJECTORY,
        ),
    }
}

/// A preview of a moving body with a valid phantom, or with none, has exactly
/// as many samples as were asked for; any other preview has none.
pub proof fn lemma_sample_count(
    slots: Seq<Option<Body>>,
    origin: usize,
    phantom: Option<(Vec2, GravitationalBody)>,
    sample_count: usize,
    sample_gap: u64,
)
    ensures
        predicted_path(slots, origin, phantom, sample_count, sample_gap).len() == if origin_flight(
            slots,
            origin,
        ) is Some && valid_phantom(phantom) {
            sample_count as nat
        } else {
            0
        },
        origin_flight(slots, origin) is Some ==> predicted_path(
            slots,
            origin,
            None,
            sample_count,
            sample_gap,
        ).len() == sample_count,
{
}

/// Two previews of the same registry with the same arguments are the same,
/// sample for sample.
pub proof fn lemma_preview_deterministic(
    first: Seq<Vec2>,
    second: Seq<Vec2>,
    slots: Seq<Option<Body>>,
    origin: usize,
    phantom: Option<(Vec2, GravitationalBody)>,
    sample_count: usize,
    sample_gap: u64,
)
    requires
        views(first) == predicted_path(slots, origin, phantom, sample_count, sample_gap),
        views(second) == predicted_path(slots, origin, phantom, sample_count, sample_gap),
    ensures
        first == second,
{
    assert(first.len() == views(first).len());
    assert(second.len() == views(second).len());
    assert forall|i: int| 0 <= i < first.len() implies first[i] == second[i] by {
        assert(views(first)[i] == first[i]@);
        assert(views(second)[i] == second[i]@);
    }
    assert(first =~= second);
}

} // verus!
