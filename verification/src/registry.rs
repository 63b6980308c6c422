//! The registry: the authoritative collection of bodies, addressed by stable
//! handles.

use vstd::prelude::*;
use crate::body::Body;
use crate::gravity::{Attractor, valid_query, MAX_BODIES};

verus! {

/// Why a body was not taken into the registry.
#[derive(Clone, Copy, Debug, PartialEq, Eq)]
pub enum RegistryError {
    /// The body lies outside the world, or its mass, radius or velocity is
    /// outside its limit, or only one of its two tick positions is set.
    InvalidBody,
    /// Every one of the `MAX_BODIES` slots is taken.
    Full,
}

/// The bodies of the simulation. A handle is the index of a slot; it stays
/// valid until the body is removed, whatever happens to other bodies.
pub struct Registry {
    slots: Vec<Option<Body>>,
}

/// Every body in the slots is valid, and there are no more slots than
/// `MAX_BODIES`.
pub open spec fn valid_slots(slots: Seq<Option<Body>>) -> bool {
    &&& slots.len() <= MAX_BODIES
    &&& forall|i: int|
        0 <= i < slots.len() && (#[trigger] slots[i]) is Some ==> slots[i].unwrap().valid()
}

/// The same slots are taken in both, and each body has kept its mass and its
/// radius.
pub open spec fn same_bodies(before: Seq<Option<Body>>, after: Seq<Option<Body>>) -> bool {
    &&& before.len() == after.len()
    &&& forall|i: int|
        0 <= i < before.len() ==> match (#[trigger] before[i], after[i]) {
            (Some(old_body), Some(new_body)) => old_body.gravity == new_body.gravity,
            (None, None) => true,
            _ => false,
        }
}

/// Whether a body pulls at others: a delayed body never does, and the well
/// that is about to be replaced does not in a preview.
pub open spec fn attracts(body: Body, preview: bool) -> bool {
    body.active() && !(preview && body.deletable)
}

/// The attractors among the slots, in the order of their handles.
pub open spec fn attractors_of(slots: Seq<Option<Body>>, preview: bool) -> Seq<Attractor>
    decreases slots.len(),
{
    if slots.len() == 0 {
        Seq::empty()
    } else {
        let rest = attractors_of(slots.drop_last(), preview);
        match slots.last() {
            Some(body) => if attracts(body, preview) {
                rest.push(
                    Attractor {
                        entity: (slots.len() - 1) as usize,
                        position: body.position,
                        mass: body.gravity.0,
                    },
                )
            } else {
                rest
            },
            None => rest,
        }
    }
}

/// The lowest handle of a free slot, or the number of slots if none is free.
pub open spec fn first_free(slots: Seq<Option<Body>>) -> int
    decreases slots.len(),
{
    if slots.len() == 0 || slots[0] is None {
        0
    } else {
        1 + first_free(slots.skip(1))
    }
}

/// The slots after `body` is put into the free slot with the lowest handle,
/// or into a new slot if none is free and there is room for one more. With no
/// room the slots stay as they are.
pub open spec fn placed(slots: Seq<Option<Body>>, body: Body) -> Seq<Option<Body>> {
    let at = first_free(slots);
    if at < slots.len() {
        slots.update(at, Some(body))
    } else if slots.len() < MAX_BODIES {
        slots.push(Some(body))
    } else {
        slots
    }
}

/// The handle at which `placed` puts a body, if it has room for it.
pub open spec fn placed_at(slots: Seq<Option<Body>>) -> Option<usize> {
    let at = first_free(slots);
    if at < slots.len() || slots.len() < MAX_BODIES {
        Some(at as usize)
    } else {
        None
    }
}

/// The first free slot is free, every slot before it is taken, and no other
/// handle has both properties.
pub proof fn lemma_first_free(slots: Seq<Option<Body>>, at: int)
    ensures
        0 <= first_free(slots) <= slots.len(),
        first_free(slots) < slots.len() ==> slots[first_free(slots)] is None,
        forall|j: int| 0 <= j < first_free(slots) ==> (#[trigger] slots[j]) is Some,
        0 <= at <= slots.len() && (at < slots.len() ==> slots[at] is None) && (forall|j: int|
            0 <= j < at ==> (#[trigger] slots[j]) is Some) ==> at == first_free(slots),
    decreases slots.len(),
{
    if slots.len() == 0 || slots[0] is None {
        if 0 < at <= slots.len() && (forall|j: int| 0 <= j < at ==> (#[trigger] slots[j]) is Some) {
            assert(slots[0] is Some);
        }
    } else {
        let rest = slots.skip(1);
        lemma_first_free(rest, at - 1);
        let f = first_free(rest);
        assert forall|j: int| 0 <= j < 1 + f implies (#[trigger] slots[j]) is Some by {
            if j > 0 {
                assert(rest[j - 1] == slots[j]);
            }
        }
        if f < rest.len() {
            assert(rest[f] == slots[f + 1]);
        }
        if 0 <= at <= slots.len() && (at < slots.len() ==> slots[at] is None) && (forall|j: int|
            0 <= j < at ==> (#[trigger] slots[j]) is Some) {
            assert(at > 0);
            assert forall|j: int| 0 <= j < at - 1 implies (#[trigger] rest[j]) is Some by {
                assert(rest[j] == slots[j + 1]);
            }
            if at < slots.len() {
                assert(rest[at - 1] == slots[at]);
            }
        }
    }
}

/// Every attractor stands for a body of the slots that is not delayed: its
/// handle names that body, and it has the position and the mass of it.
pub proof fn lemma_attractors_are_bodies(slots: Seq<Option<Body>>, preview: bool)
    requires
        slots.len() <= usize::MAX,
    ensures
        forall|k: int|
            0 <= k < attractors_of(slots, preview).len() ==> {
                let attractor = #[trigger] attractors_of(slots, preview)[k];
                &&& attractor.entity < slots.len()
                &&& slots[attractor.entity as int] is Some
                &&& attracts(slots[attractor.entity as int].unwrap(), preview)
                &&& attractor.position == slots[attractor.entity as int].unwrap().position
                &&& attractor.mass == slots[attractor.entity as int].unwrap().gravity.0
            },
    decreases slots.len(),
{
    if slots.len() > 0 {
        let front = slots.drop_last();
        lemma_attractors_are_bodies(front, preview);
        assert forall|k: int| 0 <= k < attractors_of(slots, preview).len() implies {
            let attractor = #[trigger] attractors_of(slots, preview)[k];
            &&& attractor.entity < slots.len()
            &&& slots[attractor.entity as int] is Some
            &&& attracts(slots[attractor.entity as int].unwrap(), preview)
            &&& attractor.position == slots[attractor.entity as int].unwrap().position
            &&& attractor.mass == slots[attractor.entity as int].unwrap().gravity.0
        } by {
            if k < attractors_of(front, preview).len() {
                let attractor = attractors_of(front, preview)[k];
                assert(attractors_of(slots, preview)[k] == attractor);
                assert(front[attractor.entity as int] == slots[attractor.entity as int]);
            }
        }
    }
}

/// The attractors of valid slots form a valid snapshot.
pub proof fn lemma_attractors_valid(slots: Seq<Option<Body>>, preview: bool)
    requires
        valid_slots(slots),
    ensures
        valid_query(attractors_of(slots, preview)),
        attractors_of(slots, preview).len() <= slots.len(),
    decreases slots.len(),
{
    if slots.len() > 0 {
        let front = slots.drop_last();
        assert forall|i: int| 0 <= i < front.len() && (#[trigger] front[i]) is Some implies front[i].unwrap().valid() by {
            assert(front[i] == slots[i]);
        }
        lemma_attractors_valid(front, preview);
        assert(slots.last() == slots[slots.len() - 1]);
    }
}

impl View for Registry {
    type V = Seq<Option<Body>>;

    closed spec fn view(&self) -> Seq<Option<Body>> {
        self.slots@
    }
}

impl Registry {
    /// The invariant of the registry, which every method keeps.
    pub open spec fn wf(&self) -> bool {
        valid_slots(self@)
    }

    /// An empty registry.
    pub fn new() -> (r: Registry)
        ensures
            r.wf(),
            r@.len() == 0,
    {
        Registry { slots: Vec::new() }
    }

    /// The number of slots, taken or free. Every handle is below it.
    pub fn len(&self) -> (n: usize)
        ensures
            n == self@.len(),
    {
        self.slots.len()
    }

    /// The body behind a handle, if there is one.
    pub fn get(&self, entity: usize) -> (b: Option<Body>)
        ensures
            b == if entity < self@.len() {
                self@[entity as int]
            } else {
                None
            },
    {
        if entity < self.slots.len() {
            self.slots[entity]
        } else {
            None
        }
    }

    /// Takes a valid body into the free slot with the lowest handle, or into a
    /// new slot when none is free, and returns its handle. All other slots
    /// stay as they are.
    pub fn insert(&mut self, body: Body) -> (r: Result<usize, RegistryError>)
        requires
            old(self).wf(),
        ensures
            final(self).wf(),
            match r {
                Ok(entity) => {
                    &&& body.valid()
                    &&& entity == first_free(old(self)@)
                    &&& placed_at(old(self)@) == Some(entity)
                    &&& final(self)@ == placed(old(self)@, body)
                    &&& final(self)@[entity as int] == Some(body)
                },
                Err(RegistryError::InvalidBody) => !body.valid() && final(self)@ == old(self)@,
                Err(RegistryError::Full) => {
                    &&& body.valid()
                    &&& old(self)@.len() == MAX_BODIES
                    &&& first_free(old(self)@) == MAX_BODIES
                    &&& final(self)@ == old(self)@
                },
            },
    {
        if !body.is_valid() {
            return Err(RegistryError::InvalidBody);
        }
        proof {
            lemma_first_free(self@, self@.len() as int);
        }
        let n = self.slots.len();
        let mut i: usize = 0;
        while i < n
            invariant
                0 <= i <= n,
                n == self.slots.len(),
                self.slots@ == old(self).slots@,
                valid_slots(self.slots@),
                body.valid(),
                forall|j: int| 0 <= j < i ==> self.slots@[j] is Some,
            decreases n - i,
        {
            if self.slots[i].is_none() {
                proof {
                    lemma_first_free(self@, i as int);
                }
                self.slots.set(i, Some(body));
                return Ok(i);
            }
            i = i + 1;
        }
        if n < MAX_BODIES {
            self.slots.push(Some(body));
            Ok(n)
        } else {
            Err(RegistryError::Full)
        }
    }

    /// Frees the slot behind a handle and returns the body that was in it.
    /// The handles of all other bodies stay as they are.
    pub fn remove(&mut self, entity: usize) -> (b: Option<Body>)
        requires
            old(self).wf(),
        ensures
            final(self).wf(),
            b == if entity < old(self)@.len() {
                old(self)@[entity as int]
            } else {
                None
            },
            final(self)@ == if entity < old(self)@.len() {
                old(self)@.update(entity as int, None)
            } else {
                old(self)@
            },
    {
        if entity < self.slots.len() {
            let body = self.slots[entity];
            self.slots.set(entity, None);
            body
        } else {
            None
        }
    }

    /// Puts `body` in place of the body behind a handle and says whether it
    /// did. It does so only if there is a body behind the handle, `body` is
    /// valid, and `body` has the mass and the radius of the body that it
    /// replaces: those two stay with a body as long as it lives.
    pub fn replace(&mut self, entity: usize, body: Body) -> (replaced: bool)
        requires
            old(self).wf(),
        ensures
            final(self).wf(),
            replaced == (entity < old(self)@.len() && old(self)@[entity as int] is Some
                && body.valid() && body.gravity == old(self)@[entity as int].unwrap().gravity),
            final(self)@ == if replaced {
                old(self)@.update(entity as int, Some(body))
            } else {
                old(self)@
            },
            same_bodies(old(self)@, final(self)@),
    {
        if entity >= self.slots.len() || !body.is_valid() {
            return false;
        }
        match self.slots[entity] {
            Some(before) => {
                if before.gravity.0 == body.gravity.0 && before.gravity.1 == body.gravity.1 {
                    self.slots.set(entity, Some(body));
                    true
                } else {
                    false
                }
            },
            None => false,
        }
    }

    /// The snapshot that the integrator reads: every body that is not
    /// delayed, in the order of the handles.
    pub fn attractors(&self) -> (query: Vec<Attractor>)
        requires
            self.wf(),
        ensures
            query@ == attractors_of(self@, false),
            valid_query(query@),
    {
        self.collect_attractors(false)
    }

    /// The snapshot that a preview reads: every body that is neither delayed
    /// nor about to be replaced, in the order of the handles.
    pub fn preview_attractors(&self) -> (query: Vec<Attractor>)
        requires
            self.wf(),
        ensures
            query@ == attractors_of(self@, true),
            valid_query(query@),
    {
        self.collect_attractors(true)
    }

    fn collect_attractors(&self, preview: bool) -> (query: Vec<Attractor>)
        requires
            self.wf(),
        ensures
            query@ == attractors_of(self@, preview),
            valid_query(query@),
    {
        let mut query: Vec<Attractor> = Vec::new();
        let n = self.slots.len();
        let mut i: usize = 0;
        while i < n
            invariant
                0 <= i <= n,
                n == self.slots.len(),
                query@ == attractors_of(self@.take(i as int), preview),
            decreases n - i,
        {
            proof {
                assert(self@.take(i + 1).drop_last() == self@.take(i as int));
                assert(self@.take(i + 1).last() == self@[i as int]);
            }
            match self.slots[i] {
                Some(body) => {
                    if body.delayed.is_none() && !(preview && body.deletable) {
                        query.push(
                            Attractor { entity: i, position: body.position, mass: body.gravity.0 },
                        );
                    }
                },
                None => {},
            }
            i = i + 1;
        }
        proof {
            assert(self@.take(n as int) == self@);
            lemma_attractors_valid(self@, preview);
        }
        query
    }
}

} // verus!
