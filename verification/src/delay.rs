//! The grace time of freshly spawned bodies: they flash and stay out of
//! gravity until it is over.

use vstd::prelude::*;
use crate::body::{Body, DelayedActivity};
use crate::registry::{same_bodies, Registry};

verus! {

/// The length of one flash of a delayed body: three tenths of a second.
pub const DELAYED_ACTIVITY_FLASH_DURATION: u64 = 4_500;

/// Whether delayed bodies are shown at `elapsed` units of time since the
/// start: in the second half of every flash.
pub open spec fn flash_on(elapsed: u64) -> bool {
    (elapsed % DELAYED_ACTIVITY_FLASH_DURATION) * 2 > DELAYED_ACTIVITY_FLASH_DURATION
}

/// The grace time is over within the next `delta` units of time.
pub open spec fn expires(delayed: DelayedActivity, delta: u64) -> bool {
    delayed.0 < delta
}

/// The body `delta` units of time later: a delayed body has that much less
/// time left, or none at all and is active from then on.
pub open spec fn counted_down(body: Body, delta: u64) -> Body {
    match body.delayed {
        Some(delayed) => Body {
            delayed: if expires(delayed, delta) {
                None
            } else {
                Some(DelayedActivity((delayed.0 - delta) as u64))
            },
            ..body
        },
        None => body,
    }
}

/// The slots `delta` units of time later.
pub open spec fn all_counted_down(slots: Seq<Option<Body>>, delta: u64) -> Seq<Option<Body>> {
    Seq::new(
        slots.len(),
        |i: int|
            match slots[i] {
                Some(body) => Some(counted_down(body, delta)),
                None => None,
            },
    )
}

/// For each delayed body among the first `upto` slots, in the order of the
/// handles, its handle and whether it is shown: always once its grace time
/// is over, else in the second half of every flash.
pub open spec fn flashes_upto(slots: Seq<Option<Body>>, elapsed: u64, delta: u64, upto: int) -> Seq<
    (usize, bool),
>
    decreases upto,
{
    if upto <= 0 {
        Seq::empty()
    } else {
        let rest = flashes_upto(slots, elapsed, delta, upto - 1);
        match slots[upto - 1] {
            Some(Body { delayed: Some(delayed), .. }) => rest.push(
                ((upto - 1) as usize, expires(delayed, delta) || flash_on(elapsed)),
            ),
            _ => rest,
        }
    }
}

/// Lets `delta` units of time pass for every delayed body, and says for each
/// of them whether it is shown at `elapsed` units of time since the start.
pub fn delayed_activity_flasher(registry: &mut Registry, elapsed: u64, delta: u64) -> (visibility:
    Vec<(usize, bool)>)
    requires
        old(registry).wf(),
    ensures
        final(registry).wf(),
        final(registry)@ == all_counted_down(old(registry)@, delta),
        same_bodies(old(registry)@, final(registry)@),
        visibility@ == flashes_upto(old(registry)@, elapsed, delta, old(registry)@.len() as int),
{
    let mut visibility: Vec<(usize, bool)> = Vec::new();
    let is_on = (elapsed % DELAYED_ACTIVITY_FLASH_DURATION) * 2 > DELAYED_ACTIVITY_FLASH_DURATION;
    let n = registry.len();
    let mut i: usize = 0;
    while i < n
        invariant
            0 <= i <= n,
            n == registry@.len(),
            n == old(registry)@.len(),
            registry.wf(),
            is_on == flash_on(elapsed),
            visibility@ == flashes_upto(old(registry)@, elapsed, delta, i as int),
            forall|j: int|
                0 <= j < i ==> registry@[j] == #[trigger] all_counted_down(old(registry)@, delta)[j],
            forall|j: int| i <= j < n ==> registry@[j] == #[trigger] old(registry)@[j],
        decreases n - i,
    {
        match registry.get(i) {
            Some(body) => match body.delayed {
                Some(delayed) => {
                    let over = delayed.0 < delta;
                    let left = if over {
                        None
                    } else {
                        Some(DelayedActivity(delayed.0 - delta))
                    };
                    let after = Body {
                        position: body.position,
                        gravity: body.gravity,
                        transform: body.transform,
                        delayed: left,
                        deletable: body.deletable,
                    };
                    assert(after == counted_down(body, delta));
                    registry.replace(i, after);
                    visibility.push((i, over || is_on));
                },
                None => {},
            },
            None => {},
        }
        i = i + 1;
    }
    assert(registry@ =~= all_counted_down(old(registry)@, delta));
    visibility
}

} // verus!
