//! The entity-component simulation core of a local-multiplayer arcade game:
//! physics-driven balls, steered by gamepads, try to strike a tethered gong,
//! with an airjump capability restored by touching the ground, the gong's
//! restorer tags, or another ball.
//!
//! The library owns everything that can be stated and proved over plain
//! values: the component stores and their deferred-removal discipline
//! ([`retained_storage`]), the handle-indirection layer that reconciles
//! entity lifecycle with physics-body lifecycle ([`world`], [`resource`],
//! [`physics`]), the entity factory ([`entity`]), the per-tick system
//! pipeline ([`system`]), and the game-flow state machine ([`state`]).
//! The collaborators it is written against — a physics solver, a gamepad
//! backend, a renderer — live outside: their interfaces are made of floating
//! point and device I/O, so the frame driver hands the library the plain
//! values they produce (handles, contact-start pairs, button states,
//! elapsed nanoseconds) and carries the library's decisions back to them.

use vstd::prelude::*;

pub mod component;
pub mod entity;
pub mod physics;
pub mod resource;
pub mod retained_storage;
pub mod state;
pub mod system;
pub mod world;

verus! {

use crate::world::World;

/// Identifier of a sprite that the renderer can draw, either as the visual of
/// an entity or as a full-screen overlay between rounds.
#[derive(PartialEq, Eq, Structural, Clone, Copy, Debug, Hash)]
pub enum Image {
    Start,
    Wait,
    NewController,
    NewControllerSkip,
    NewController1,
    NewController2,
    Wallpaper,
    Ball,
    Gong,
}

/// The per-tick maintenance boundary: commits queued structural changes and
/// reconciles the physics world with them, in the mandatory order of
/// `World::safe_maintain`. Run once per tick, after the system pipeline and
/// before rendering.
pub fn safe_maintain(world: &mut World)
    requires
        old(world).wf(),
    ensures
        final(world).wf(),
        final(world).queued_deletions() == Seq::<crate::world::Entity>::empty(),
        final(world).retained_bodies() == Seq::<crate::component::RigidBody>::empty(),
        ({
            let del = crate::world::queued_id_set(old(world).queued_deletions());
            let hs = crate::world::owned_handle_set(old(world).rigid_bodies(), del);
            &&& final(world).controls_map() == old(world).controls_map().remove_keys(del)
            &&& final(world).airjumps_map() == old(world).airjumps_map().remove_keys(del)
            &&& final(world).restorers_map() == old(world).restorers_map().remove_keys(del)
            &&& final(world).contactors_map() == old(world).contactors_map().remove_keys(del)
            &&& final(world).images_map() == old(world).images_map().remove_keys(del)
            &&& final(world).rigid_bodies() == old(world).rigid_bodies().remove_keys(del)
            &&& final(world).physics_bodies() == old(world).physics_bodies().remove_keys(hs)
            &&& final(world).bodies_map() == old(world).bodies_map().remove_keys(hs)
        }),
        final(world).ground_registered() == old(world).ground_registered(),
        final(world).num_entities() == old(world).num_entities(),
        final(world).bodies_allocated() == old(world).bodies_allocated(),
        final(world).draw_image() == old(world).draw_image(),
        final(world).update_time() == old(world).update_time(),
{
    world.safe_maintain();
}

} // verus!
