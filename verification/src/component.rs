use vstd::prelude::*;

verus! {

use crate::physics::{BodyHandle, BodyStatus, PhysicsWorld, GROUND_HANDLE};
use crate::resource::BodiesMap;
use crate::retained_storage::{Retained, RetainedStorage};
use crate::world::Entity;

/// Which gamepad drives an entity. Kept in the schema for entities that are
/// steered as a whole; the balls use `Control`, which also selects sticks.
#[derive(PartialEq, Eq, Structural, Clone, Copy, Debug)]
pub struct Controlled {
    pub gamepad_id: usize,
}

/// Binds a ball to a gamepad and selects which analog stick(s) steer it:
/// `parts[0]` the left stick and left trigger, `parts[1]` the right ones.
/// Splitting one gamepad across two balls gives each a single-stick mask.
#[derive(PartialEq, Eq, Clone, Copy, Debug)]
pub struct Control {
    pub gamepad_id: usize,
    pub parts: [bool; 2],
}

/// The sprite an entity is drawn with. The renderer pairs it with the pose of
/// the entity's physics body and its own per-sprite scale table.
#[derive(PartialEq, Eq, Structural, Clone, Copy, Debug)]
pub struct Image(pub crate::Image);

/// Capability to jump while airborne; consumed on jump, restored by contact
/// with an `AirjumpRestorer` entity.
#[derive(PartialEq, Eq, Structural, Clone, Copy, Debug)]
pub struct Airjump(pub bool);

/// Tag: touching this entity restores the airjump capability.
#[derive(PartialEq, Eq, Structural, Clone, Copy, Debug)]
pub struct AirjumpRestorer;

/// The entities touched during the current physics step, in event order,
/// duplicates permitted. Computed afresh from each step's contact events.
#[derive(PartialEq, Eq, Clone, Debug)]
pub struct Contactor(pub Vec<Entity>);

/// Wraps the handle of the physics body owned by an entity. While the
/// component is attached, the handle is valid in the physics world and the
/// bodies map names this entity as its owner; the maintenance pass reclaims
/// the body in the same tick boundary that finalizes the component's removal.
#[derive(PartialEq, Eq, Structural, Clone, Copy, Debug)]
pub struct RigidBody(pub BodyHandle);

impl RigidBody {
    /// Creates a physics body with the given kinematic status, registers its
    /// handle in the bodies map, and attaches the handle to `entity` as a
    /// `RigidBody` component, keeping the three stores consistent. An entity
    /// that already has a `RigidBody` component must not be passed (prevented
    /// by construction in the entity factory, not checked): its old handle
    /// would leak.
    pub fn safe_insert(
        entity: Entity,
        status: BodyStatus,
        bodies_handle: &mut RetainedStorage<RigidBody>,
        physic_world: &mut PhysicsWorld,
        bodies_map: &mut BodiesMap,
    ) -> (r: RigidBody)
        requires
            entity.0 < usize::MAX,
            old(physic_world).allocated() + 1 < usize::MAX,
            forall|h: int| #[trigger]
                old(bodies_map)@.dom().contains(h) ==> h == GROUND_HANDLE as int
                    || old(physic_world).body_map().dom().contains(h),
        ensures
            r.0.0 != GROUND_HANDLE,
            !old(physic_world).contains(r.0),
            !old(bodies_map)@.dom().contains(r.0.0 as int),
            final(physic_world).body_map() == old(physic_world).body_map().insert(
                r.0.0 as int,
                status,
            ),
            final(physic_world).allocated() == old(physic_world).allocated() + 1,
            final(bodies_map)@ == old(bodies_map)@.insert(r.0.0 as int, entity),
            final(bodies_handle)@ == old(bodies_handle)@.insert(entity.0 as int, r),
            final(bodies_handle).retained_view() == old(bodies_handle).retained_view(),
    {
        let body_handle = physic_world.add_rigid_body(status);
        bodies_map.insert(body_handle, entity);
        let body = RigidBody(body_handle);
        bodies_handle.insert(entity.0, body);
        body
    }

    /// Dereferences the handle in the physics world. A handle no longer in
    /// the body table is a violation of the reconciliation protocol, ruled
    /// out by the precondition rather than checked at run time.
    pub fn get(&self, physic_world: &PhysicsWorld) -> (s: BodyStatus)
        requires
            physic_world.contains(self.0),
        ensures
            s == physic_world.body_map()[self.0.0 as int],
    {
        physic_world.rigid_body(self.0).unwrap()
    }
}

} // verus!
