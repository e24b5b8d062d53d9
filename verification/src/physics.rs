use vstd::prelude::*;

verus! {

/// Opaque, stable reference into the physics body table. Handle `0` is the
/// process-wide ground singleton: it is implicitly owned by the world and is
/// never allocated to a dynamic or static body.
#[derive(PartialEq, Eq, Structural, Clone, Copy, Debug, Hash)]
pub struct BodyHandle(pub usize);

pub const GROUND_HANDLE: usize = 0;

impl BodyHandle {
    /// The reserved handle of the implicit ground body.
    pub fn ground() -> (h: BodyHandle)
        ensures
            h.0 == GROUND_HANDLE,
    {
        BodyHandle(GROUND_HANDLE)
    }
}

/// Kinematic status of a body: moved by the solver, or anchored in place.
#[derive(PartialEq, Eq, Structural, Clone, Copy, Debug)]
pub enum BodyStatus {
    Dynamic,
    Static,
}

/// A contact transition reported by the collision pipeline for one step, with
/// each collision object already resolved to the handle of its owning body.
/// Only `Started` transitions drive gameplay; `Stopped` is ignored by design.
#[derive(PartialEq, Eq, Structural, Clone, Copy, Debug)]
pub enum ContactEvent {
    Started(BodyHandle, BodyHandle),
    Stopped(BodyHandle, BodyHandle),
}

/// The set of handle values occurring in `s`.
pub open spec fn handle_value_set(s: Seq<BodyHandle>) -> Set<int>
    decreases s.len(),
{
    if s.len() == 0 {
        Set::<int>::empty()
    } else {
        handle_value_set(s.drop_last()).insert(s.last().0 as int)
    }
}

/// The body table of the physics world, as gameplay observes it: which
/// handles are live and what kinematic status each body was created with.
/// Poses, velocities and shapes live with the solver that owns them; the
/// reconciliation protocol only ever asks a handle's validity and status.
///
/// Handles start at 1 (0 is the ground) and are never reused: removal leaves
/// a permanently empty slot, so a stale handle can never alias a new body.
pub struct PhysicsWorld {
    slots: Vec<Option<BodyStatus>>,
}

impl PhysicsWorld {
    /// The live bodies, as a map from handle value to kinematic status.
    pub closed spec fn body_map(self) -> Map<int, BodyStatus> {
        Map::new(
            |h: int| 1 <= h <= self.slots@.len() && self.slots@[h - 1] is Some,
            |h: int| self.slots@[h - 1]->Some_0,
        )
    }

    /// Whether `h` is a live body handle.
    pub open spec fn contains(self, h: BodyHandle) -> bool {
        self.body_map().dom().contains(h.0 as int)
    }

    /// How many handles have ever been allocated; handle values never exceed
    /// this, and it only grows.
    pub closed spec fn allocated(self) -> nat {
        self.slots@.len()
    }

    /// How many handles have ever been allocated, as a run-time value.
    pub fn allocated_count(&self) -> (n: usize)
        ensures
            n == self.allocated(),
    {
        self.slots.len()
    }

    pub fn new() -> (w: PhysicsWorld)
        ensures
            w.body_map() == Map::<int, BodyStatus>::empty(),
            w.allocated() == 0,
    {
        let w = PhysicsWorld { slots: Vec::new() };
        proof {
            assert(w.body_map() =~= Map::<int, BodyStatus>::empty());
        }
        w
    }

    /// Creates a body and returns its fresh handle.
    pub fn add_rigid_body(&mut self, status: BodyStatus) -> (h: BodyHandle)
        requires
            old(self).allocated() < usize::MAX,
        ensures
            h.0 != GROUND_HANDLE,
            h.0 <= old(self).allocated() + 1,
            !old(self).contains(h),
            final(self).body_map() == old(self).body_map().insert(h.0 as int, status),
            final(self).allocated() == old(self).allocated() + 1,
    {
        let h = BodyHandle(self.slots.len() + 1);
        self.slots.push(Some(status));
        proof {
            assert(self.body_map() =~= old(self).body_map().insert(h.0 as int, status));
        }
        h
    }

    /// Looks up a body by handle; `None` once the handle has been reclaimed.
    pub fn rigid_body(&self, h: BodyHandle) -> (r: Option<BodyStatus>)
        ensures
            r matches Some(s) ==> self.contains(h) && s == self.body_map()[h.0 as int],
            r is None ==> !self.contains(h),
    {
        if 1 <= h.0 && h.0 <= self.slots.len() {
            self.slots[h.0 - 1]
        } else {
            None
        }
    }

    /// Reclaims one body; the slot stays empty forever.
    fn remove_body(&mut self, h: BodyHandle)
        ensures
            final(self).body_map() == old(self).body_map().remove(h.0 as int),
            final(self).allocated() == old(self).allocated(),
    {
        if 1 <= h.0 && h.0 <= self.slots.len() {
            self.slots.set(h.0 - 1, None);
        }
        proof {
            assert(self.body_map() =~= old(self).body_map().remove(h.0 as int));
        }
    }

    /// Reclaims every body named in `handles`, in order.
    pub fn remove_bodies(&mut self, handles: &Vec<BodyHandle>)
        ensures
            final(self).body_map() == old(self).body_map().remove_keys(
                handle_value_set(handles@),
            ),
            final(self).allocated() == old(self).allocated(),
    {
        let mut i: usize = 0;
        while i < handles.len()
            invariant
                0 <= i <= handles@.len(),
                self.allocated() == old(self).allocated(),
                self.body_map() == old(self).body_map().remove_keys(
                    handle_value_set(handles@.take(i as int)),
                ),
            decreases handles@.len() - i,
        {
            self.remove_body(handles[i]);
            proof {
                assert(handles@.take(i + 1).drop_last() =~= handles@.take(i as int));
                assert(handles@.take(i + 1).last() == handles@[i as int]);
                assert(self.body_map() =~= old(self).body_map().remove_keys(
                    handle_value_set(handles@.take(i + 1)),
                ));
            }
            i = i + 1;
        }
        proof {
            assert(handles@.take(handles@.len() as int) =~= handles@);
            assert(self.body_map() =~= old(self).body_map().remove_keys(
                handle_value_set(handles@),
            ));
        }
    }
}

} // verus!
