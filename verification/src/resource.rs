use vstd::prelude::*;

verus! {

use crate::physics::BodyHandle;
use crate::world::Entity;
use crate::Image;

/// Elapsed simulation time of the current tick, in nanoseconds. The frame
/// driver writes the measured frame time here, or zero while the game is
/// paused, and the physics step advances by exactly this much.
#[derive(PartialEq, Eq, Structural, Clone, Copy, Debug)]
pub struct UpdateTime(pub u64);

/// The overlay sprite to draw this frame, if any. The renderer consumes it:
/// taking it clears it back to `None`.
#[derive(PartialEq, Eq, Structural, Clone, Copy, Debug)]
pub struct DrawImage(pub Option<Image>);

/// Exclusive, process-wide index from physics body handle to owning entity,
/// used to translate low-level contact events, which name only handles, back
/// into gameplay entities. Viewed as a finite `Map` from handle value to
/// entity. The ground singleton handle is registered here exactly once for
/// the whole process lifetime.
pub struct BodiesMap {
    slots: Vec<Option<Entity>>,
}

impl View for BodiesMap {
    type V = Map<int, Entity>;

    closed spec fn view(&self) -> Map<int, Entity> {
        Map::new(
            |h: int| 0 <= h < self.slots@.len() && self.slots@[h] is Some,
            |h: int| self.slots@[h]->Some_0,
        )
    }
}

impl BodiesMap {
    pub fn new() -> (m: BodiesMap)
        ensures
            m@ == Map::<int, Entity>::empty(),
    {
        let m = BodiesMap { slots: Vec::new() };
        proof {
            assert(m@ =~= Map::<int, Entity>::empty());
        }
        m
    }

    pub fn contains_key(&self, h: BodyHandle) -> (b: bool)
        ensures
            b == self@.dom().contains(h.0 as int),
    {
        h.0 < self.slots.len() && self.slots[h.0].is_some()
    }

    pub fn get(&self, h: BodyHandle) -> (r: Option<Entity>)
        ensures
            r matches Some(e) ==> self@.dom().contains(h.0 as int) && e == self@[h.0 as int],
            r is None ==> !self@.dom().contains(h.0 as int),
    {
        if h.0 < self.slots.len() {
            self.slots[h.0]
        } else {
            None
        }
    }

    pub fn insert(&mut self, h: BodyHandle, e: Entity)
        requires
            h.0 < usize::MAX,
        ensures
            final(self)@ == old(self)@.insert(h.0 as int, e),
    {
        while self.slots.len() <= h.0
            invariant
                h.0 < usize::MAX,
                self.slots@.len() >= old(self).slots@.len(),
                forall|i: int|
                    0 <= i < old(self).slots@.len() ==> self.slots@[i] == old(self).slots@[i],
                forall|i: int|
                    old(self).slots@.len() <= i < self.slots@.len() ==> self.slots@[i] is None,
            decreases h.0 + 1 - self.slots@.len(),
        {
            self.slots.push(None);
        }
        self.slots[h.0] = Some(e);
        proof {
            assert(self@ =~= old(self)@.insert(h.0 as int, e));
        }
    }

    pub fn remove(&mut self, h: BodyHandle)
        ensures
            final(self)@ == old(self)@.remove(h.0 as int),
    {
        if h.0 < self.slots.len() {
            self.slots[h.0] = None;
        }
        proof {
            assert(self@ =~= old(self)@.remove(h.0 as int));
        }
    }
}

} // verus!
