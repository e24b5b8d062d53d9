use vstd::prelude::*;

verus! {

use crate::component::{Airjump, AirjumpRestorer, Contactor, Control, Image};
use crate::physics::{BodyStatus, GROUND_HANDLE};
use crate::world::{Entity, World};

/// A ground entity was requested while one is already registered: the ground
/// singleton may be created only once in a process lifetime. The caller is
/// expected to treat this as fatal.
#[derive(PartialEq, Eq, Structural, Clone, Copy, Debug)]
pub struct GroundAlreadyRegistered;

/// What creating one ball does to the world: the fresh entity (id
/// `pre.num_entities()`) carries the full ball schema, a fresh dynamic body
/// backs it, and nothing else moves.
pub open spec fn ball_created(
    pre: World,
    post: World,
    gamepad_id: usize,
    gamepad_parts: [bool; 2],
) -> bool {
    let e = pre.num_entities() as int;
    let h = post.rigid_bodies()[e].0.0 as int;
    &&& post.num_entities() == pre.num_entities() + 1
    &&& post.controls_map() == pre.controls_map().insert(
        e,
        Control { gamepad_id, parts: gamepad_parts },
    )
    &&& post.airjumps_map() == pre.airjumps_map().insert(e, Airjump(false))
    &&& post.restorers_map() == pre.restorers_map().insert(e, AirjumpRestorer)
    &&& post.contactors_map().dom() == pre.contactors_map().dom().insert(e)
    &&& post.contact_lists() == pre.contact_lists().insert(e, Seq::<Entity>::empty())
    &&& post.images_map() == pre.images_map().insert(e, (Image(crate::Image::Ball)))
    &&& post.rigid_bodies().dom() == pre.rigid_bodies().dom().insert(e)
    &&& h != GROUND_HANDLE as int
    &&& !pre.physics_bodies().dom().contains(h)
    &&& !pre.bodies_map().dom().contains(h)
    &&& post.physics_bodies() == pre.physics_bodies().insert(h, BodyStatus::Dynamic)
    &&& post.bodies_map() == pre.bodies_map().insert(h, Entity(e as usize))
    &&& post.bodies_allocated() == pre.bodies_allocated() + 1
    &&& post.retained_bodies() == pre.retained_bodies()
    &&& post.queued_deletions() == pre.queued_deletions()
    &&& post.draw_image() == pre.draw_image()
    &&& post.update_time() == pre.update_time()
    &&& post.ground_registered() == pre.ground_registered()
}

/// Creates one ball: a dynamic body whose entity carries the full gameplay
/// schema. `gamepad_parts` selects which of the gamepad's sticks steer it.
/// The ball spawns without the airjump capability; its first contact with a
/// restorer grants it.
pub fn create_ball(gamepad_id: usize, gamepad_parts: [bool; 2], world: &mut World)
    requires
        old(world).wf(),
        old(world).num_entities() < usize::MAX,
        old(world).bodies_allocated() + 1 < usize::MAX,
    ensures
        final(world).wf(),
        ball_created(*old(world), *final(world), gamepad_id, gamepad_parts),
{
    let e = world.create_entity();
    world.add_image(e, Image(crate::Image::Ball));
    world.add_control(e, Control { gamepad_id, parts: gamepad_parts });
    world.add_airjump(e, Airjump(false));
    world.add_restorer(e);
    world.add_contactor(e, Contactor(Vec::new()));
    proof {
        assert(!world.rigid_bodies().dom().contains(e.0 as int)) by {
            if world.rigid_bodies().dom().contains(e.0 as int) {
                assert(old(world).rigid_bodies().dom().contains(e.0 as int));
            }
        };
    }
    world.add_body(e, BodyStatus::Dynamic);
    proof {
        assert(world.contactors_map().dom() =~= old(world).contactors_map().dom().insert(
            e.0 as int,
        ));
        assert(world.contact_lists() =~= old(world).contact_lists().insert(
            e.0 as int,
            Seq::<Entity>::empty(),
        ));
        assert(world.rigid_bodies().dom() =~= old(world).rigid_bodies().dom().insert(
            e.0 as int,
        ));
    }
}

/// Creates the gong: a dynamic body that gameplay expects to be tethered to
/// an anchor point by a limited constraint, so it is displaceable but
/// returns toward its anchor. The constraint and the collision shape live
/// with the physics solver.
pub fn create_gong(world: &mut World)
    requires
        old(world).wf(),
        old(world).num_entities() < usize::MAX,
        old(world).bodies_allocated() + 1 < usize::MAX,
    ensures
        final(world).wf(),
        final(world).num_entities() == old(world).num_entities() + 1,
        ({
            let e = old(world).num_entities() as int;
            let h = final(world).rigid_bodies()[e].0.0 as int;
            &&& final(world).images_map() == old(world).images_map().insert(
                e,
                (Image(crate::Image::Gong)),
            )
            &&& final(world).rigid_bodies().dom() == old(world).rigid_bodies().dom().insert(e)
            &&& h != GROUND_HANDLE as int
            &&& !old(world).physics_bodies().dom().contains(h)
            &&& !old(world).bodies_map().dom().contains(h)
            &&& final(world).physics_bodies() == old(world).physics_bodies().insert(
                h,
                BodyStatus::Dynamic,
            )
            &&& final(world).bodies_map() == old(world).bodies_map().insert(
                h,
                Entity(e as usize),
            )
        }),
        final(world).controls_map() == old(world).controls_map(),
        final(world).airjumps_map() == old(world).airjumps_map(),
        final(world).restorers_map() == old(world).restorers_map(),
        final(world).contactors_map() == old(world).contactors_map(),
        final(world).bodies_allocated() == old(world).bodies_allocated() + 1,
        final(world).retained_bodies() == old(world).retained_bodies(),
        final(world).queued_deletions() == old(world).queued_deletions(),
        final(world).draw_image() == old(world).draw_image(),
        final(world).update_time() == old(world).update_time(),
        final(world).ground_registered() == old(world).ground_registered(),
{
    let e = world.create_entity();
    world.add_image(e, Image(crate::Image::Gong));
    proof {
        assert(!world.rigid_bodies().dom().contains(e.0 as int)) by {
            if world.rigid_bodies().dom().contains(e.0 as int) {
                assert(old(world).rigid_bodies().dom().contains(e.0 as int));
            }
        };
    }
    world.add_body(e, BodyStatus::Dynamic);
    proof {
        assert(world.rigid_bodies().dom() =~= old(world).rigid_bodies().dom().insert(
            e.0 as int,
        ));
    }
}

/// Creates the ground: a static, collision-only entity anchored to the
/// ground singleton handle, tagged as an airjump restorer. A second ground
/// while one is registered is refused: the caller treats that as fatal.
pub fn create_ground(world: &mut World) -> (r: Result<(), GroundAlreadyRegistered>)
    requires
        old(world).wf(),
        old(world).num_entities() < usize::MAX,
    ensures
        final(world).wf(),
        r is Ok <==> !old(world).ground_registered(),
        r is Ok ==> {
            let e = old(world).num_entities() as int;
            &&& final(world).num_entities() == old(world).num_entities() + 1
            &&& final(world).restorers_map() == old(world).restorers_map().insert(
                e,
                AirjumpRestorer,
            )
            &&& final(world).bodies_map() == old(world).bodies_map().insert(
                GROUND_HANDLE as int,
                Entity(e as usize),
            )
            &&& final(world).ground_registered()
        },
        r is Err ==> *final(world) == *old(world),
        final(world).controls_map() == old(world).controls_map(),
        final(world).airjumps_map() == old(world).airjumps_map(),
        final(world).contactors_map() == old(world).contactors_map(),
        final(world).images_map() == old(world).images_map(),
        final(world).rigid_bodies() == old(world).rigid_bodies(),
        final(world).retained_bodies() == old(world).retained_bodies(),
        final(world).physics_bodies() == old(world).physics_bodies(),
        final(world).bodies_allocated() == old(world).bodies_allocated(),
        final(world).queued_deletions() == old(world).queued_deletions(),
        final(world).draw_image() == old(world).draw_image(),
        final(world).update_time() == old(world).update_time(),
{
    if world.is_ground_registered() {
        return Err(GroundAlreadyRegistered);
    }
    let e = world.create_entity();
    world.add_restorer(e);
    world.register_ground(e);
    Ok(())
}

/// Creates the walls: one static body bounding the play area. The polyline
/// shape lives with the physics solver.
pub fn create_walls(world: &mut World)
    requires
        old(world).wf(),
        old(world).num_entities() < usize::MAX,
        old(world).bodies_allocated() + 1 < usize::MAX,
    ensures
        final(world).wf(),
        final(world).num_entities() == old(world).num_entities() + 1,
        ({
            let e = old(world).num_entities() as int;
            let h = final(world).rigid_bodies()[e].0.0 as int;
            &&& final(world).rigid_bodies().dom() == old(world).rigid_bodies().dom().insert(e)
            &&& h != GROUND_HANDLE as int
            &&& !old(world).physics_bodies().dom().contains(h)
            &&& !old(world).bodies_map().dom().contains(h)
            &&& final(world).physics_bodies() == old(world).physics_bodies().insert(
                h,
                BodyStatus::Static,
            )
            &&& final(world).bodies_map() == old(world).bodies_map().insert(
                h,
                Entity(e as usize),
            )
        }),
        final(world).controls_map() == old(world).controls_map(),
        final(world).airjumps_map() == old(world).airjumps_map(),
        final(world).restorers_map() == old(world).restorers_map(),
        final(world).contactors_map() == old(world).contactors_map(),
        final(world).images_map() == old(world).images_map(),
        final(world).bodies_allocated() == old(world).bodies_allocated() + 1,
        final(world).retained_bodies() == old(world).retained_bodies(),
        final(world).queued_deletions() == old(world).queued_deletions(),
        final(world).draw_image() == old(world).draw_image(),
        final(world).update_time() == old(world).update_time(),
        final(world).ground_registered() == old(world).ground_registered(),
{
    let e = world.create_entity();
    proof {
        assert(!world.rigid_bodies().dom().contains(e.0 as int)) by {
            if world.rigid_bodies().dom().contains(e.0 as int) {
                assert(old(world).rigid_bodies().dom().contains(e.0 as int));
            }
        };
    }
    world.add_body(e, BodyStatus::Static);
    proof {
        assert(world.rigid_bodies().dom() =~= old(world).rigid_bodies().dom().insert(
            e.0 as int,
        ));
    }
}

} // verus!
