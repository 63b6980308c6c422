//! The fixed-step integrator: every moving body that is not delayed goes one
//! tick forward, each from the same snapshot of the registry.

use vstd::prelude::*;
use crate::body::{Body, GravitationTransform, VELOCITY_LIMIT, WORLD_LIMIT};
use crate::gravity::{
    displacement, lemma_lone_body, lemma_speed_bounds_components, lemma_speed_limit, next_target,
    next_velocity, process_gravity_trajectory, valid_query, Attractor, MAX_VELOCITY,
};
use crate::pickup::ActivePickup;
use crate::registry::{
    attractors_of, lemma_attractors_are_bodies, same_bodies, valid_slots, Registry,
};
use crate::vector::Vec2;

verus! {

/// What one tick gives for one body.
#[derive(Clone, Copy, Debug, PartialEq, Eq)]
pub struct TickOutput {
    pub entity: usize,
    pub velocity: Vec2,
    pub start_position: Vec2,
    pub target_position: Vec2,
}

/// The body is one that a tick moves: it has a velocity and is not delayed.
pub open spec fn moves(body: Body) -> bool {
    body.active() && body.transform is Velocity
}

/// The velocity of a moving body; zero for a body that is static.
pub open spec fn velocity_of(body: Body) -> Vec2 {
    match body.transform {
        GravitationTransform::Velocity { velocity, .. } => velocity,
        GravitationTransform::Static => Vec2 { x: 0, y: 0 },
    }
}

/// What one tick gives for the moving body behind `entity`, with `query` as
/// the snapshot: the tick starts where the last one ended.
pub open spec fn tick_of(entity: usize, body: Body, query: Seq<Attractor>) -> TickOutput {
    let start = body.anchor();
    let velocity = next_velocity(
        velocity_of(body)@,
        start@,
        query,
        entity,
        body.gravity.0 as int,
        None,
    );
    TickOutput {
        entity,
        velocity: velocity.to_vec2(),
        start_position: start,
        target_position: next_target(start@, velocity).to_vec2(),
    }
}

/// The outputs of one tick for the first `upto` slots, in the order of the
/// handles.
pub open spec fn tick_outputs_upto(
    slots: Seq<Option<Body>>,
    query: Seq<Attractor>,
    upto: int,
) -> Seq<TickOutput>
    decreases upto,
{
    if upto <= 0 {
        Seq::empty()
    } else {
        let rest = tick_outputs_upto(slots, query, upto - 1);
        match slots[upto - 1] {
            Some(body) => if moves(body) {
                rest.push(tick_of((upto - 1) as usize, body, query))
            } else {
                rest
            },
            None => rest,
        }
    }
}

/// The outputs of one tick: one for every moving body that is not delayed,
/// each computed from the same snapshot.
pub open spec fn tick_outputs(slots: Seq<Option<Body>>) -> Seq<TickOutput> {
    tick_outputs_upto(slots, attractors_of(slots, false), slots.len() as int)
}

/// The body with the result of a tick written into it.
pub open spec fn moved(body: Body, output: TickOutput) -> Body {
    Body {
        transform: GravitationTransform::Velocity {
            velocity: output.velocity,
            start_position: Some(output.start_position),
            target_position: Some(output.target_position),
        },
        ..body
    }
}

/// The output names a moving body of the slots and holds a velocity and
/// positions that a body may have.
pub open spec fn applies(slots: Seq<Option<Body>>, output: TickOutput) -> bool {
    &&& output.entity < slots.len()
    &&& slots[output.entity as int] is Some
    &&& slots[output.entity as int].unwrap().transform is Velocity
    &&& output.velocity.is_velocity()
    &&& output.start_position.in_world()
    &&& output.target_position.in_world()
}

/// The slots after one output is written back. An output that does not apply
/// changes nothing.
pub open spec fn apply_output(slots: Seq<Option<Body>>, output: TickOutput) -> Seq<Option<Body>> {
    if applies(slots, output) {
        slots.update(
            output.entity as int,
            Some(moved(slots[output.entity as int].unwrap(), output)),
        )
    } else {
        slots
    }
}

/// The slots after the outputs are written back, one after the other.
pub open spec fn committed(slots: Seq<Option<Body>>, outputs: Seq<TickOutput>) -> Seq<Option<Body>>
    decreases outputs.len(),
{
    if outputs.len() == 0 {
        slots
    } else {
        apply_output(committed(slots, outputs.drop_last()), outputs.last())
    }
}

/// A slot after one tick of the whole registry: a moving body that is not
/// delayed holds the result of its tick, computed from `slots` as they were
/// before the tick; every other slot is as before.
pub open spec fn ticked_slot(slots: Seq<Option<Body>>, i: int) -> Option<Body> {
    match slots[i] {
        Some(body) => if moves(body) {
            Some(moved(body, tick_of(i as usize, body, attractors_of(slots, false))))
        } else {
            Some(body)
        },
        None => None,
    }
}

/// The slots after one tick of the whole registry.
pub open spec fn ticked(slots: Seq<Option<Body>>) -> Seq<Option<Body>> {
    Seq::new(slots.len(), |i: int| ticked_slot(slots, i))
}

/// The result of a tick of a valid body fits a body: the velocity is no
/// faster than `MAX_VELOCITY` and the target lies in the world.
pub proof fn lemma_tick_fits(entity: usize, body: Body, query: Seq<Attractor>)
    requires
        body.valid(),
    ensures
        tick_of(entity, body, query).velocity@.norm_sq() <= MAX_VELOCITY * MAX_VELOCITY,
        tick_of(entity, body, query).velocity@ == next_velocity(
            velocity_of(body)@,
            body.anchor()@,
            query,
            entity,
            body.gravity.0 as int,
            None,
        ),
        tick_of(entity, body, query).target_position@ == next_target(
            body.anchor()@,
            tick_of(entity, body, query).velocity@,
        ),
        tick_of(entity, body, query).velocity.is_velocity(),
        tick_of(entity, body, query).start_position.in_world(),
        tick_of(entity, body, query).target_position.in_world(),
        moved(body, tick_of(entity, body, query)).valid(),
{
    let start = body.anchor();
    let mass = body.gravity.0 as int;
    lemma_speed_limit(velocity_of(body)@, start@, query, entity, mass, None);
    lemma_speed_bounds_components(
        next_velocity(velocity_of(body)@, start@, query, entity, mass, None),
    );
}

/// Computes one tick for every moving body that is not delayed, without
/// changing the registry. While the simulation is frozen there is no output.
pub fn step(registry: &Registry, frozen: bool) -> (outputs: Vec<TickOutput>)
    requires
        registry.wf(),
    ensures
        outputs@ == if frozen {
            Seq::<TickOutput>::empty()
        } else {
            tick_outputs(registry@)
        },
        forall|k: int|
            0 <= k < outputs@.len() ==> (#[trigger] outputs@[k]).velocity@.norm_sq() <= MAX_VELOCITY
                * MAX_VELOCITY,
{
    let mut outputs: Vec<TickOutput> = Vec::new();
    if frozen {
        return outputs;
    }
    let query = registry.attractors();
    let n = registry.len();
    let mut i: usize = 0;
    while i < n
        invariant
            0 <= i <= n,
            n == registry@.len(),
            registry.wf(),
            valid_query(query@),
            outputs@ == tick_outputs_upto(registry@, query@, i as int),
            forall|k: int|
                0 <= k < outputs@.len() ==> (#[trigger] outputs@[k]).velocity@.norm_sq()
                    <= MAX_VELOCITY * MAX_VELOCITY,
        decreases n - i,
    {
        match registry.get(i) {
            Some(body) => {
                if body.delayed.is_none() {
                    match body.transform {
                        GravitationTransform::Velocity {
                            velocity,
                            start_position: _,
                            target_position,
                        } => {
                            let position = match target_position {
                                Some(target) => target,
                                None => body.position,
                            };
                            let (velocity, start_position, target_position) =
                                process_gravity_trajectory(
                                &velocity,
                                position,
                                &query,
                                i,
                                &body.gravity,
                                None,
                            );
                            proof {
                                lemma_tick_fits(i, body, query@);
                            }
                            outputs.push(
                                TickOutput { entity: i, velocity, start_position, target_position },
                            );
                        },
                        GravitationTransform::Static => {},
                    }
                }
            },
            None => {},
        }
        i = i + 1;
    }
    outputs
}

/// Writes the outputs of a tick back into the registry, one after the other.
/// An output that names no moving body, or that holds a velocity or a
/// position that no body may have, is passed over.
pub fn commit(registry: &mut Registry, outputs: &Vec<TickOutput>)
    requires
        old(registry).wf(),
    ensures
        final(registry).wf(),
        final(registry)@ == committed(old(registry)@, outputs@),
        same_bodies(old(registry)@, final(registry)@),
{
    let n = outputs.len();
    let mut k: usize = 0;
    while k < n
        invariant
            0 <= k <= n,
            n == outputs@.len(),
            registry.wf(),
            registry@ == committed(old(registry)@, outputs@.take(k as int)),
            same_bodies(old(registry)@, registry@),
        decreases n - k,
    {
        let output = outputs[k];
        proof {
            assert(outputs@.take(k + 1).drop_last() == outputs@.take(k as int));
            assert(outputs@.take(k + 1).last() == outputs@[k as int]);
        }
        match registry.get(output.entity) {
            Some(body) => match body.transform {
                GravitationTransform::Velocity { .. } => {
                    if output.velocity.is_within(VELOCITY_LIMIT) && output.start_position.is_within(
                        WORLD_LIMIT,
                    ) && output.target_position.is_within(WORLD_LIMIT) {
                        let after = Body {
                            position: body.position,
                            gravity: body.gravity,
                            transform: GravitationTransform::Velocity {
                                velocity: output.velocity,
                                start_position: Some(output.start_position),
                                target_position: Some(output.target_position),
                            },
                            delayed: body.delayed,
                            deletable: body.deletable,
                        };
                        assert(after == moved(body, output));
                        registry.replace(output.entity, after);
                    }
                },
                GravitationTransform::Static => {},
            },
            None => {},
        }
        k = k + 1;
    }
    proof {
        assert(outputs@.take(n as int) == outputs@);
    }
}

/// Writing back the outputs of a tick for the first `upto` slots gives those
/// slots their ticked state and leaves the others as they were.
proof fn lemma_commit_of_tick(slots: Seq<Option<Body>>, upto: int)
    requires
        valid_slots(slots),
        0 <= upto <= slots.len(),
    ensures
        committed(slots, tick_outputs_upto(slots, attractors_of(slots, false), upto)) == Seq::new(
            slots.len(),
            |i: int|
                if i < upto {
                    ticked_slot(slots, i)
                } else {
                    slots[i]
                },
        ),
    decreases upto,
{
    let query = attractors_of(slots, false);
    let outputs = tick_outputs_upto(slots, query, upto);
    let goal = Seq::new(
        slots.len(),
        |i: int|
            if i < upto {
                ticked_slot(slots, i)
            } else {
                slots[i]
            },
    );
    if upto == 0 {
        assert(committed(slots, outputs) =~= goal);
    } else {
        lemma_commit_of_tick(slots, upto - 1);
        let before = tick_outputs_upto(slots, query, upto - 1);
        let mid = committed(slots, before);
        assert(mid[upto - 1] == slots[upto - 1]);
        match slots[upto - 1] {
            Some(body) => {
                if moves(body) {
                    let output = tick_of((upto - 1) as usize, body, query);
                    lemma_tick_fits((upto - 1) as usize, body, query);
                    assert(outputs == before.push(output));
                    assert(outputs.drop_last() == before);
                    assert(outputs.last() == output);
                    assert(applies(mid, output));
                    assert(committed(slots, outputs) =~= goal);
                } else {
                    assert(committed(slots, outputs) =~= goal);
                }
            },
            None => {
                assert(committed(slots, outputs) =~= goal);
            },
        }
    }
}

/// Committing the outputs of a tick gives every slot its ticked state: each
/// body is moved by what the registry held before the tick, whatever the
/// order in which the outputs are written back.
pub proof fn lemma_commit_tick_outputs(slots: Seq<Option<Body>>)
    requires
        valid_slots(slots),
    ensures
        committed(slots, tick_outputs(slots)) == ticked(slots),
{
    lemma_commit_of_tick(slots, slots.len() as int);
    assert(committed(slots, tick_outputs(slots)) =~= ticked(slots));
}

/// One tick of the whole registry: every moving body that is not delayed gets
/// its new velocity and the two positions of the tick. While the subject
/// holds the teleport modifier the registry stays as it is.
pub fn calculate_gravity(registry: &mut Registry, active_pickup: &ActivePickup)
    requires
        old(registry).wf(),
    ensures
        final(registry).wf(),
        final(registry)@ == if active_pickup.frozen() {
            old(registry)@
        } else {
            ticked(old(registry)@)
        },
        same_bodies(old(registry)@, final(registry)@),
{
    let outputs = step(registry, active_pickup.is_frozen());
    proof {
        lemma_commit_tick_outputs(registry@);
    }
    commit(registry, &outputs);
}

/// A moving body that is alone, but for bodies that are delayed, keeps its
/// velocity through a step, as long as it was no faster than `MAX_VELOCITY`,
/// and its target is exactly one tick's way from its start, as long as that
/// is inside the world.
pub proof fn lemma_lone_body_step(slots: Seq<Option<Body>>, entity: usize)
    requires
        valid_slots(slots),
        entity < slots.len(),
        slots[entity as int] is Some,
        moves(slots[entity as int].unwrap()),
        forall|j: int|
            0 <= j < slots.len() && j != entity && (#[trigger] slots[j]) is Some
                ==> !slots[j].unwrap().active(),
        velocity_of(slots[entity as int].unwrap())@.norm_sq() <= MAX_VELOCITY * MAX_VELOCITY,
        slots[entity as int].unwrap().anchor()@.plus(
            displacement(velocity_of(slots[entity as int].unwrap())@),
        ).within(WORLD_LIMIT as int),
    ensures
        ticked_slot(slots, entity as int) == Some(
            moved(
                slots[entity as int].unwrap(),
                TickOutput {
                    entity,
                    velocity: velocity_of(slots[entity as int].unwrap()),
                    start_position: slots[entity as int].unwrap().anchor(),
                    target_position: slots[entity as int].unwrap().anchor()@.plus(
                        displacement(velocity_of(slots[entity as int].unwrap())@),
                    ).to_vec2(),
                },
            ),
        ),
{
    let body = slots[entity as int].unwrap();
    let query = attractors_of(slots, false);
    lemma_attractors_are_bodies(slots, false);
    assert forall|k: int| 0 <= k < query.len() implies (#[trigger] query[k]).entity == entity by {
        let j = query[k].entity as int;
        if j != entity {
            assert(slots[j] is Some);
        }
    }
    lemma_lone_body(velocity_of(body)@, body.anchor()@, query, entity, body.gravity.0 as int);
    lemma_tick_fits(entity, body, query);
}

} // verus!
