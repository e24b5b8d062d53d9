use vstd::prelude::*;

verus! {

use crate::component::{Airjump, AirjumpRestorer, Contactor, Control, Image, RigidBody};
use crate::physics::{BodyStatus, PhysicsWorld, GROUND_HANDLE};
use crate::resource::{BodiesMap, DrawImage, UpdateTime};
use crate::retained_storage::{Retained, RetainedStorage, Storage};

/// An opaque identifier grouping a set of components; it carries no data of
/// its own. Identifiers are handed out in creation order and never reused.
#[derive(PartialEq, Eq, Structural, Clone, Copy, Debug, Hash)]
pub struct Entity(pub usize);

/// The set of entity ids named by a deletion queue.
pub open spec fn queued_id_set(q: Seq<Entity>) -> Set<int>
    decreases q.len(),
{
    if q.len() == 0 {
        Set::<int>::empty()
    } else {
        queued_id_set(q.drop_last()).insert(q.last().0 as int)
    }
}

/// The set of handle values of the bodies in `s`.
pub open spec fn body_handle_set(s: Seq<RigidBody>) -> Set<int>
    decreases s.len(),
{
    if s.len() == 0 {
        Set::<int>::empty()
    } else {
        body_handle_set(s.drop_last()).insert(s.last().0.0 as int)
    }
}

/// The set of handle values that the entities in `ids` own in `rb`.
pub open spec fn owned_handle_set(rb: Map<int, RigidBody>, ids: Set<int>) -> Set<int> {
    Set::new(
        |h: int|
            exists|i: int|
                #[trigger] ids.contains(i) && rb.dom().contains(i) && rb[i].0.0 as int == h,
    )
}

/// Every id named at a position of `q` is in its id set.
pub proof fn lemma_queued_id_set_contains(q: Seq<Entity>, k: int)
    requires
        0 <= k < q.len(),
    ensures
        queued_id_set(q).contains(q[k].0 as int),
    decreases q.len(),
{
    if k < q.len() - 1 {
        lemma_queued_id_set_contains(q.drop_last(), k);
        assert(q.drop_last()[k] == q[k]);
    }
}

proof fn lemma_queued_id_set_step(q: Seq<Entity>, i: int)
    requires
        0 <= i < q.len(),
    ensures
        queued_id_set(q.take(i + 1)) == queued_id_set(q.take(i)).insert(q[i].0 as int),
{
    assert(q.take(i + 1).drop_last() =~= q.take(i));
    assert(q.take(i + 1).last() == q[i]);
}

proof fn lemma_body_handle_set_push(s: Seq<RigidBody>, x: RigidBody)
    ensures
        body_handle_set(s.push(x)) == body_handle_set(s).insert(x.0.0 as int),
{
    assert(s.push(x).drop_last() =~= s);
    assert(s.push(x).last() == x);
}

proof fn lemma_owned_handle_set_insert(rb: Map<int, RigidBody>, ids: Set<int>, i: int)
    ensures
        rb.dom().contains(i) ==> owned_handle_set(rb, ids.insert(i)) == owned_handle_set(
            rb,
            ids,
        ).insert(rb[i].0.0 as int),
        !rb.dom().contains(i) ==> owned_handle_set(rb, ids.insert(i)) == owned_handle_set(
            rb,
            ids,
        ),
{
    let s1 = owned_handle_set(rb, ids.insert(i));
    if rb.dom().contains(i) {
        let s2 = owned_handle_set(rb, ids).insert(rb[i].0.0 as int);
        assert forall|h: int| s1.contains(h) implies s2.contains(h) by {
            let j = choose|j: int|
                #[trigger] ids.insert(i).contains(j) && rb.dom().contains(j) && rb[j].0.0 as int
                    == h;
            if j != i {
                assert(ids.contains(j));
            }
        };
        assert forall|h: int| s2.contains(h) implies s1.contains(h) by {
            if h == rb[i].0.0 as int {
                assert(ids.insert(i).contains(i));
            } else {
                let j = choose|j: int|
                    #[trigger] ids.contains(j) && rb.dom().contains(j) && rb[j].0.0 as int == h;
                assert(ids.insert(i).contains(j));
            }
        };
        assert(s1 =~= s2);
    } else {
        let s2 = owned_handle_set(rb, ids);
        assert forall|h: int| s1.contains(h) implies s2.contains(h) by {
            let j = choose|j: int|
                #[trigger] ids.insert(i).contains(j) && rb.dom().contains(j) && rb[j].0.0 as int
                    == h;
            assert(ids.contains(j));
        };
        assert forall|h: int| s2.contains(h) implies s1.contains(h) by {
            let j = choose|j: int|
                #[trigger] ids.contains(j) && rb.dom().contains(j) && rb[j].0.0 as int == h;
            assert(ids.insert(i).contains(j));
        };
        assert(s1 =~= s2);
    }
}

/// The render snapshot over the first `n` entity ids: each sprite-carrying
/// entity with its sprite and, when present, the handle of its body.
pub open spec fn snapshot_list(w: World, n: int) -> Seq<
    (Entity, crate::Image, Option<crate::physics::BodyHandle>),
>
    decreases n,
{
    if n <= 0 {
        Seq::<(Entity, crate::Image, Option<crate::physics::BodyHandle>)>::empty()
    } else {
        let pre = snapshot_list(w, n - 1);
        if w.images_map().dom().contains(n - 1) {
            pre.push(
                (
                    Entity((n - 1) as usize),
                    w.images_map()[n - 1].0,
                    if w.rigid_bodies().dom().contains(n - 1) {
                        Some(w.rigid_bodies()[n - 1].0)
                    } else {
                        Option::<crate::physics::BodyHandle>::None
                    },
                ),
            )
        } else {
            pre
        }
    }
}

/// The same contact lists, all emptied.
pub open spec fn cleared_lists(cl: Map<int, Seq<Entity>>) -> Map<int, Seq<Entity>> {
    Map::new(|i: int| cl.dom().contains(i), |i: int| Seq::<Entity>::empty())
}

/// How many of the first `n` entity ids are in the domain of `m`.
pub open spec fn num_controls_below(m: Map<int, Control>, n: int) -> nat
    decreases n,
{
    if n <= 0 {
        0
    } else {
        num_controls_below(m, n - 1) + if m.dom().contains(n - 1) {
            1nat
        } else {
            0nat
        }
    }
}

proof fn lemma_count_ignores_above(m: Map<int, Control>, j: int, k: int)
    requires
        k <= j,
    ensures
        num_controls_below(m.remove(j), k) == num_controls_below(m, k),
    decreases k,
{
    if k > 0 {
        lemma_count_ignores_above(m, j, k - 1);
    }
}

proof fn lemma_num_controls_is_card(m: Map<int, Control>, n: int)
    requires
        n >= 0,
        m.dom().finite(),
        forall|i: int| #[trigger] m.dom().contains(i) ==> 0 <= i < n,
    ensures
        num_controls_below(m, n) == m.dom().len(),
    decreases n,
{
    if n == 0 {
        assert(m.dom() =~= Set::<int>::empty());
    } else if m.dom().contains(n - 1) {
        let m2 = m.remove(n - 1);
        assert(m2.dom() =~= m.dom().remove(n - 1));
        lemma_num_controls_is_card(m2, n - 1);
        lemma_count_ignores_above(m, n - 1, n - 1);
    } else {
        lemma_num_controls_is_card(m, n - 1);
    }
}

proof fn lemma_handle_sets_agree(hs: Seq<crate::physics::BodyHandle>, rs: Seq<RigidBody>)
    requires
        hs.len() == rs.len(),
        forall|j: int| 0 <= j < rs.len() ==> hs[j] == rs[j].0,
    ensures
        crate::physics::handle_value_set(hs) == body_handle_set(rs),
    decreases hs.len(),
{
    if hs.len() > 0 {
        assert(forall|j: int| 0 <= j < rs.len() - 1 ==> hs.drop_last()[j] == rs.drop_last()[j].0);
        lemma_handle_sets_agree(hs.drop_last(), rs.drop_last());
        assert(hs.last() == rs.last().0);
    }
}

/// The component-based simulation world: every component store, the physics
/// body table, the handle-to-entity index, the per-tick resources, and the
/// queue of entities awaiting deferred deletion.
///
/// Structural removals queued during a tick become visible only at the
/// maintenance boundary (`maintain`), which is also the only point where
/// physics bodies are reclaimed.
pub struct World {
    next_entity: usize,
    deletion_queue: Vec<Entity>,
    controls: Storage<Control>,
    airjumps: Storage<Airjump>,
    restorers: Storage<AirjumpRestorer>,
    contactors: Storage<Contactor>,
    images: Storage<Image>,
    bodies: RetainedStorage<RigidBody>,
    physics: PhysicsWorld,
    bodies_map: BodiesMap,
    draw_image: DrawImage,
    update_time: UpdateTime,
}

impl World {
    /// How many entities have ever been created; ids range below this.
    pub closed spec fn num_entities(self) -> nat {
        self.next_entity as nat
    }

    /// The `Control` components, by entity id.
    pub closed spec fn controls_map(self) -> Map<int, Control> {
        self.controls@
    }

    /// The `Airjump` components, by entity id.
    pub closed spec fn airjumps_map(self) -> Map<int, Airjump> {
        self.airjumps@
    }

    /// The `AirjumpRestorer` tags, by entity id.
    pub closed spec fn restorers_map(self) -> Map<int, AirjumpRestorer> {
        self.restorers@
    }

    /// The `Contactor` components, by entity id.
    pub closed spec fn contactors_map(self) -> Map<int, Contactor> {
        self.contactors@
    }

    /// The `Image` components, by entity id.
    pub closed spec fn images_map(self) -> Map<int, Image> {
        self.images@
    }

    /// The `RigidBody` components, by entity id.
    pub closed spec fn rigid_bodies(self) -> Map<int, RigidBody> {
        self.bodies@
    }

    /// The `RigidBody` components removed since the last maintenance drain.
    pub closed spec fn retained_bodies(self) -> Seq<RigidBody> {
        self.bodies.retained_view()
    }

    /// The live physics bodies, by handle value.
    pub closed spec fn physics_bodies(self) -> Map<int, BodyStatus> {
        self.physics.body_map()
    }

    /// How many physics body handles have ever been allocated.
    pub closed spec fn bodies_allocated(self) -> nat {
        self.physics.allocated()
    }

    /// The handle-to-owning-entity index.
    pub closed spec fn bodies_map(self) -> Map<int, Entity> {
        self.bodies_map@
    }

    /// The entities queued for deletion at the next maintenance boundary.
    pub closed spec fn queued_deletions(self) -> Seq<Entity> {
        self.deletion_queue@
    }

    /// The pending overlay sprite.
    pub closed spec fn draw_image(self) -> Option<crate::Image> {
        self.draw_image.0
    }

    /// The elapsed nanoseconds the physics step will advance by this tick.
    pub closed spec fn update_time(self) -> u64 {
        self.update_time.0
    }

    /// The contact lists by entity id: what each `Contactor` holds.
    pub open spec fn contact_lists(self) -> Map<int, Seq<Entity>> {
        self.contactors_map().map_values(|c: Contactor| c.0@)
    }

    /// How many entities carry a `Control` component: the number of
    /// registered players.
    pub open spec fn num_controls(self) -> nat {
        num_controls_below(self.controls_map(), self.num_entities() as int)
    }

    /// Whether the ground singleton is registered in the bodies map.
    pub open spec fn ground_registered(self) -> bool {
        self.bodies_map().dom().contains(GROUND_HANDLE as int)
    }

    /// Well-formedness: the reconciliation invariant between the component
    /// store, the physics body table and the bodies map, and the bound of
    /// every component key by the entity allocator.
    pub open spec fn wf(self) -> bool {
        // Component keys are ids of created entities.
        &&& forall|i: int| #[trigger]
            self.controls_map().dom().contains(i) ==> 0 <= i < self.num_entities()
        &&& forall|i: int| #[trigger]
            self.airjumps_map().dom().contains(i) ==> 0 <= i < self.num_entities()
        &&& forall|i: int| #[trigger]
            self.restorers_map().dom().contains(i) ==> 0 <= i < self.num_entities()
        &&& forall|i: int| #[trigger]
            self.contactors_map().dom().contains(i) ==> 0 <= i < self.num_entities()
        &&& forall|i: int| #[trigger]
            self.images_map().dom().contains(i) ==> 0 <= i < self.num_entities()
        &&& forall|i: int| #[trigger]
            self.rigid_bodies().dom().contains(i) ==> 0 <= i < self.num_entities()
        // A RigidBody component's handle is a live, non-ground body whose
        // bodies-map entry names the owning entity.
        &&& forall|i: int| #[trigger] self.rigid_bodies().dom().contains(i) ==> {
            let h = self.rigid_bodies()[i].0.0 as int;
            &&& h != GROUND_HANDLE as int
            &&& self.physics_bodies().dom().contains(h)
            &&& self.bodies_map().dom().contains(h)
            &&& self.bodies_map()[h] == Entity(i as usize)
        }
        // A non-ground bodies-map entry points back at an entity owning
        // exactly that handle.
        &&& forall|h: int| #[trigger]
            self.bodies_map().dom().contains(h) && h != GROUND_HANDLE as int ==> {
                let e = self.bodies_map()[h].0 as int;
                &&& self.rigid_bodies().dom().contains(e)
                &&& self.rigid_bodies()[e].0.0 as int == h
            }
        // Every live physics body is registered in the bodies map.
        &&& forall|h: int| #[trigger]
            self.physics_bodies().dom().contains(h) ==> self.bodies_map().dom().contains(h)
        // Outside the maintenance pass no removal is pending.
        &&& self.retained_bodies() == Seq::<RigidBody>::empty()
    }

    pub fn new() -> (w: World)
        ensures
            w.wf(),
            w.num_entities() == 0,
            w.controls_map() == Map::<int, Control>::empty(),
            w.airjumps_map() == Map::<int, Airjump>::empty(),
            w.restorers_map() == Map::<int, AirjumpRestorer>::empty(),
            w.contactors_map() == Map::<int, Contactor>::empty(),
            w.images_map() == Map::<int, Image>::empty(),
            w.rigid_bodies() == Map::<int, RigidBody>::empty(),
            w.physics_bodies() == Map::<int, BodyStatus>::empty(),
            w.bodies_allocated() == 0,
            w.bodies_map() == Map::<int, Entity>::empty(),
            w.queued_deletions() == Seq::<Entity>::empty(),
            w.draw_image() is None,
            w.update_time() == 0,
    {
        World {
            next_entity: 0,
            deletion_queue: Vec::new(),
            controls: Storage::new(),
            airjumps: Storage::new(),
            restorers: Storage::new(),
            contactors: Storage::new(),
            images: Storage::new(),
            bodies: RetainedStorage::default(),
            physics: PhysicsWorld::new(),
            bodies_map: BodiesMap::new(),
            draw_image: DrawImage(None),
            update_time: UpdateTime(0),
        }
    }

    /// Creates a fresh entity with no components.
    pub fn create_entity(&mut self) -> (e: Entity)
        requires
            old(self).wf(),
            old(self).num_entities() < usize::MAX,
        ensures
            final(self).wf(),
            e.0 == old(self).num_entities(),
            final(self).num_entities() == old(self).num_entities() + 1,
            final(self).controls_map() == old(self).controls_map(),
            final(self).airjumps_map() == old(self).airjumps_map(),
            final(self).restorers_map() == old(self).restorers_map(),
            final(self).contactors_map() == old(self).contactors_map(),
            final(self).images_map() == old(self).images_map(),
            final(self).rigid_bodies() == old(self).rigid_bodies(),
            final(self).retained_bodies() == old(self).retained_bodies(),
            final(self).physics_bodies() == old(self).physics_bodies(),
            final(self).bodies_allocated() == old(self).bodies_allocated(),
            final(self).bodies_map() == old(self).bodies_map(),
            final(self).queued_deletions() == old(self).queued_deletions(),
            final(self).draw_image() == old(self).draw_image(),
            final(self).update_time() == old(self).update_time(),
    {
        let e = Entity(self.next_entity);
        self.next_entity = self.next_entity + 1;
        proof {
            assert(self.controls_map() == old(self).controls_map());
            assert(self.airjumps_map() == old(self).airjumps_map());
            assert(self.restorers_map() == old(self).restorers_map());
            assert(self.contactors_map() == old(self).contactors_map());
            assert(self.images_map() == old(self).images_map());
            assert(self.rigid_bodies() == old(self).rigid_bodies());
            assert(self.physics_bodies() == old(self).physics_bodies());
            assert(self.bodies_map() == old(self).bodies_map());
        }
        e
    }

    /// Everything except the component stores, the physics world and the
    /// bodies map is unchanged.
    pub open spec fn same_infra(self, other: World) -> bool {
        &&& self.num_entities() == other.num_entities()
        &&& self.queued_deletions() == other.queued_deletions()
        &&& self.draw_image() == other.draw_image()
        &&& self.update_time() == other.update_time()
    }

    /// Everything except the pending overlay sprite is unchanged.
    pub open spec fn same_but_draw_image(self, other: World) -> bool {
        &&& self.num_entities() == other.num_entities()
        &&& self.controls_map() == other.controls_map()
        &&& self.airjumps_map() == other.airjumps_map()
        &&& self.restorers_map() == other.restorers_map()
        &&& self.contactors_map() == other.contactors_map()
        &&& self.images_map() == other.images_map()
        &&& self.same_physics(other)
        &&& self.queued_deletions() == other.queued_deletions()
        &&& self.update_time() == other.update_time()
    }

    /// The physics world, the bodies map and the retained buffer are
    /// unchanged.
    pub open spec fn same_physics(self, other: World) -> bool {
        &&& self.physics_bodies() == other.physics_bodies()
        &&& self.bodies_allocated() == other.bodies_allocated()
        &&& self.bodies_map() == other.bodies_map()
        &&& self.rigid_bodies() == other.rigid_bodies()
        &&& self.retained_bodies() == other.retained_bodies()
    }

    pub fn add_control(&mut self, e: Entity, c: Control)
        requires
            old(self).wf(),
            e.0 < old(self).num_entities(),
        ensures
            final(self).wf(),
            final(self).controls_map() == old(self).controls_map().insert(e.0 as int, c),
            final(self).airjumps_map() == old(self).airjumps_map(),
            final(self).restorers_map() == old(self).restorers_map(),
            final(self).contactors_map() == old(self).contactors_map(),
            final(self).images_map() == old(self).images_map(),
            final(self).same_physics(*old(self)),
            final(self).same_infra(*old(self)),
    {
        self.controls.insert(e.0, c);
        proof {
            self.lemma_unchanged_hint(*old(self));
            assert forall|i: int| #[trigger]
                self.controls_map().dom().contains(i) implies 0 <= i < self.num_entities() by {
                if i != e.0 as int {
                    assert(old(self).controls_map().dom().contains(i));
                }
            };
        }
    }

    pub fn add_airjump(&mut self, e: Entity, a: Airjump)
        requires
            old(self).wf(),
            e.0 < old(self).num_entities(),
        ensures
            final(self).wf(),
            final(self).airjumps_map() == old(self).airjumps_map().insert(e.0 as int, a),
            final(self).controls_map() == old(self).controls_map(),
            final(self).restorers_map() == old(self).restorers_map(),
            final(self).contactors_map() == old(self).contactors_map(),
            final(self).images_map() == old(self).images_map(),
            final(self).same_physics(*old(self)),
            final(self).same_infra(*old(self)),
    {
        self.airjumps.insert(e.0, a);
        proof {
            self.lemma_unchanged_hint(*old(self));
            assert forall|i: int| #[trigger]
                self.airjumps_map().dom().contains(i) implies 0 <= i < self.num_entities() by {
                if i != e.0 as int {
                    assert(old(self).airjumps_map().dom().contains(i));
                }
            };
        }
    }

    pub fn add_restorer(&mut self, e: Entity)
        requires
            old(self).wf(),
            e.0 < old(self).num_entities(),
        ensures
            final(self).wf(),
            final(self).restorers_map() == old(self).restorers_map().insert(
                e.0 as int,
                AirjumpRestorer,
            ),
            final(self).controls_map() == old(self).controls_map(),
            final(self).airjumps_map() == old(self).airjumps_map(),
            final(self).contactors_map() == old(self).contactors_map(),
            final(self).images_map() == old(self).images_map(),
            final(self).same_physics(*old(self)),
            final(self).same_infra(*old(self)),
    {
        self.restorers.insert(e.0, AirjumpRestorer);
        proof {
            self.lemma_unchanged_hint(*old(self));
            assert forall|i: int| #[trigger]
                self.restorers_map().dom().contains(i) implies 0 <= i
                    < self.num_entities() by {
                if i != e.0 as int {
                    assert(old(self).restorers_map().dom().contains(i));
                }
            };
        }
    }

    pub fn add_contactor(&mut self, e: Entity, c: Contactor)
        requires
            old(self).wf(),
            e.0 < old(self).num_entities(),
        ensures
            final(self).wf(),
            final(self).contactors_map() == old(self).contactors_map().insert(e.0 as int, c),
            final(self).controls_map() == old(self).controls_map(),
            final(self).airjumps_map() == old(self).airjumps_map(),
            final(self).restorers_map() == old(self).restorers_map(),
            final(self).images_map() == old(self).images_map(),
            final(self).same_physics(*old(self)),
            final(self).same_infra(*old(self)),
    {
        self.contactors.insert(e.0, c);
        proof {
            self.lemma_unchanged_hint(*old(self));
            assert forall|i: int| #[trigger]
                self.contactors_map().dom().contains(i) implies 0 <= i
                    < self.num_entities() by {
                if i != e.0 as int {
                    assert(old(self).contactors_map().dom().contains(i));
                }
            };
        }
    }

    pub fn add_image(&mut self, e: Entity, img: Image)
        requires
            old(self).wf(),
            e.0 < old(self).num_entities(),
        ensures
            final(self).wf(),
            final(self).images_map() == old(self).images_map().insert(e.0 as int, img),
            final(self).controls_map() == old(self).controls_map(),
            final(self).airjumps_map() == old(self).airjumps_map(),
            final(self).restorers_map() == old(self).restorers_map(),
            final(self).contactors_map() == old(self).contactors_map(),
            final(self).same_physics(*old(self)),
            final(self).same_infra(*old(self)),
    {
        self.images.insert(e.0, img);
        proof {
            self.lemma_unchanged_hint(*old(self));
            assert forall|i: int| #[trigger]
                self.images_map().dom().contains(i) implies 0 <= i < self.num_entities() by {
                if i != e.0 as int {
                    assert(old(self).images_map().dom().contains(i));
                }
            };
        }
    }

    /// Creates a physics body, registers it in the bodies map, and attaches
    /// its handle to `e`, through `RigidBody::safe_insert`.
    pub fn add_body(&mut self, e: Entity, status: BodyStatus) -> (r: RigidBody)
        requires
            old(self).wf(),
            e.0 < old(self).num_entities(),
            !old(self).rigid_bodies().dom().contains(e.0 as int),
            old(self).bodies_allocated() + 1 < usize::MAX,
        ensures
            final(self).wf(),
            r.0.0 != GROUND_HANDLE,
            !old(self).physics_bodies().dom().contains(r.0.0 as int),
            !old(self).bodies_map().dom().contains(r.0.0 as int),
            final(self).rigid_bodies() == old(self).rigid_bodies().insert(e.0 as int, r),
            final(self).physics_bodies() == old(self).physics_bodies().insert(
                r.0.0 as int,
                status,
            ),
            final(self).bodies_allocated() == old(self).bodies_allocated() + 1,
            final(self).bodies_map() == old(self).bodies_map().insert(r.0.0 as int, e),
            final(self).retained_bodies() == old(self).retained_bodies(),
            final(self).controls_map() == old(self).controls_map(),
            final(self).airjumps_map() == old(self).airjumps_map(),
            final(self).restorers_map() == old(self).restorers_map(),
            final(self).contactors_map() == old(self).contactors_map(),
            final(self).images_map() == old(self).images_map(),
            final(self).same_infra(*old(self)),
    {
        proof {
            assert forall|h: int| #[trigger]
                self.bodies_map@.dom().contains(h) implies h == GROUND_HANDLE as int
                || self.physics.body_map().dom().contains(h) by {
                if h != GROUND_HANDLE as int {
                    assert(self.bodies_map().dom().contains(h));
                    let e2 = self.bodies_map()[h].0 as int;
                    assert(self.rigid_bodies().dom().contains(e2));
                    assert(self.physics_bodies().dom().contains(h));
                }
            };
        }
        let r = RigidBody::safe_insert(
            e,
            status,
            &mut self.bodies,
            &mut self.physics,
            &mut self.bodies_map,
        );
        proof {
            self.lemma_unchanged_hint(*old(self));
            let h = r.0.0 as int;
            let rb0 = old(self).rigid_bodies();
            let bm0 = old(self).bodies_map();
            let ph0 = old(self).physics_bodies();
            assert forall|i: int| #[trigger]
                self.rigid_bodies().dom().contains(i) implies 0 <= i < self.num_entities() by {
                if i != e.0 as int {
                    assert(rb0.dom().contains(i));
                }
            };
            assert forall|i: int| #[trigger] self.rigid_bodies().dom().contains(i) implies {
                let hi = self.rigid_bodies()[i].0.0 as int;
                &&& hi != GROUND_HANDLE as int
                &&& self.physics_bodies().dom().contains(hi)
                &&& self.bodies_map().dom().contains(hi)
                &&& self.bodies_map()[hi] == Entity(i as usize)
            } by {
                if i != e.0 as int {
                    assert(rb0.dom().contains(i));
                    let hi = rb0[i].0.0 as int;
                    assert(ph0.dom().contains(hi));
                    assert(hi != h);
                }
            };
            assert forall|hh: int| #[trigger]
                self.bodies_map().dom().contains(hh) && hh != GROUND_HANDLE as int implies {
                let e2 = self.bodies_map()[hh].0 as int;
                &&& self.rigid_bodies().dom().contains(e2)
                &&& self.rigid_bodies()[e2].0.0 as int == hh
            } by {
                if hh != h {
                    assert(bm0.dom().contains(hh));
                    let e2 = bm0[hh].0 as int;
                    assert(rb0.dom().contains(e2));
                    assert(e2 != e.0 as int);
                }
            };
            assert forall|hh: int| #[trigger]
                self.physics_bodies().dom().contains(hh) implies self.bodies_map().dom()
                .contains(hh) by {
                if hh != h {
                    assert(ph0.dom().contains(hh));
                }
            };
        }
        r
    }

    /// Registers `e` as the owner of the ground singleton handle. The caller
    /// establishes that the ground is not yet registered; the entity factory
    /// turns a violation into an error before ever reaching this point.
    pub fn register_ground(&mut self, e: Entity)
        requires
            old(self).wf(),
            e.0 < old(self).num_entities(),
            !old(self).ground_registered(),
        ensures
            final(self).wf(),
            final(self).bodies_map() == old(self).bodies_map().insert(GROUND_HANDLE as int, e),
            final(self).ground_registered(),
            final(self).controls_map() == old(self).controls_map(),
            final(self).airjumps_map() == old(self).airjumps_map(),
            final(self).restorers_map() == old(self).restorers_map(),
            final(self).contactors_map() == old(self).contactors_map(),
            final(self).images_map() == old(self).images_map(),
            final(self).rigid_bodies() == old(self).rigid_bodies(),
            final(self).retained_bodies() == old(self).retained_bodies(),
            final(self).physics_bodies() == old(self).physics_bodies(),
            final(self).bodies_allocated() == old(self).bodies_allocated(),
            final(self).same_infra(*old(self)),
    {
        let ground = crate::physics::BodyHandle::ground();
        self.bodies_map.insert(ground, e);
        proof {
            self.lemma_unchanged_hint(*old(self));
            let bm0 = old(self).bodies_map();
            assert forall|hh: int| #[trigger]
                self.bodies_map().dom().contains(hh) && hh != GROUND_HANDLE as int implies {
                let e2 = self.bodies_map()[hh].0 as int;
                &&& self.rigid_bodies().dom().contains(e2)
                &&& self.rigid_bodies()[e2].0.0 as int == hh
            } by {
                assert(bm0.dom().contains(hh));
            };
            assert forall|hh: int| #[trigger]
                self.physics_bodies().dom().contains(hh) implies self.bodies_map().dom()
                .contains(hh) by {
                assert(old(self).physics_bodies().dom().contains(hh));
                assert(bm0.dom().contains(hh));
            };
        }
    }

    pub fn entity_count(&self) -> (n: usize)
        ensures
            n == self.num_entities(),
    {
        self.next_entity
    }

    pub fn control_of(&self, e: Entity) -> (r: Option<Control>)
        ensures
            r matches Some(c) ==> self.controls_map().dom().contains(e.0 as int) && c
                == self.controls_map()[e.0 as int],
            r is None ==> !self.controls_map().dom().contains(e.0 as int),
    {
        match self.controls.get(e.0) {
            Some(c) => Some(*c),
            None => None,
        }
    }

    pub fn airjump_of(&self, e: Entity) -> (r: Option<Airjump>)
        ensures
            r matches Some(a) ==> self.airjumps_map().dom().contains(e.0 as int) && a
                == self.airjumps_map()[e.0 as int],
            r is None ==> !self.airjumps_map().dom().contains(e.0 as int),
    {
        match self.airjumps.get(e.0) {
            Some(a) => Some(*a),
            None => None,
        }
    }

    pub fn has_restorer(&self, e: Entity) -> (b: bool)
        ensures
            b == self.restorers_map().dom().contains(e.0 as int),
    {
        self.restorers.contains(e.0)
    }

    pub fn image_of(&self, e: Entity) -> (r: Option<Image>)
        ensures
            r matches Some(img) ==> self.images_map().dom().contains(e.0 as int) && img
                == self.images_map()[e.0 as int],
            r is None ==> !self.images_map().dom().contains(e.0 as int),
    {
        match self.images.get(e.0) {
            Some(img) => Some(*img),
            None => None,
        }
    }

    pub fn body_of(&self, e: Entity) -> (r: Option<RigidBody>)
        ensures
            r matches Some(b) ==> self.rigid_bodies().dom().contains(e.0 as int) && b
                == self.rigid_bodies()[e.0 as int],
            r is None ==> !self.rigid_bodies().dom().contains(e.0 as int),
    {
        match self.bodies.get(e.0) {
            Some(b) => Some(*b),
            None => None,
        }
    }

    /// The kinematic status of the body owned by `e`, dereferenced through
    /// the handle-indirection layer. Well-formedness guarantees the handle is
    /// valid for as long as the component is attached.
    pub fn body_status_of(&self, e: Entity) -> (r: Option<BodyStatus>)
        requires
            self.wf(),
        ensures
            r matches Some(s) ==> self.rigid_bodies().dom().contains(e.0 as int) && s
                == self.physics_bodies()[self.rigid_bodies()[e.0 as int].0.0 as int],
            r is None ==> !self.rigid_bodies().dom().contains(e.0 as int),
    {
        match self.bodies.get(e.0) {
            Some(b) => Some(b.get(&self.physics)),
            None => None,
        }
    }

    pub fn has_contactor(&self, e: Entity) -> (b: bool)
        ensures
            b == self.contactors_map().dom().contains(e.0 as int),
    {
        self.contactors.contains(e.0)
    }

    pub fn contactor_len(&self, e: Entity) -> (n: usize)
        requires
            self.contactors_map().dom().contains(e.0 as int),
        ensures
            n == self.contactors_map()[e.0 as int].0@.len(),
    {
        self.contactors.get(e.0).unwrap().0.len()
    }

    pub fn contactor_at(&self, e: Entity, j: usize) -> (t: Entity)
        requires
            self.contactors_map().dom().contains(e.0 as int),
            j < self.contactors_map()[e.0 as int].0@.len(),
        ensures
            t == self.contactors_map()[e.0 as int].0@[j as int],
    {
        self.contactors.get(e.0).unwrap().0[j]
    }

    /// How many physics body handles have ever been allocated, as a
    /// run-time value: callers check it against the machine limit before
    /// spawning.
    pub fn bodies_allocated_count(&self) -> (n: usize)
        ensures
            n == self.bodies_allocated(),
    {
        self.physics.allocated_count()
    }

    /// Whether `h` is a live handle in the physics body table.
    pub fn has_body(&self, h: crate::physics::BodyHandle) -> (b: bool)
        ensures
            b == self.physics_bodies().dom().contains(h.0 as int),
    {
        self.physics.rigid_body(h).is_some()
    }

    /// The entity owning the body behind `h`, per the bodies map.
    pub fn body_owner(&self, h: crate::physics::BodyHandle) -> (r: Option<Entity>)
        ensures
            r matches Some(e) ==> self.bodies_map().dom().contains(h.0 as int) && e
                == self.bodies_map()[h.0 as int],
            r is None ==> !self.bodies_map().dom().contains(h.0 as int),
    {
        self.bodies_map.get(h)
    }

    pub fn is_ground_registered(&self) -> (b: bool)
        ensures
            b == self.ground_registered(),
    {
        self.bodies_map.contains_key(crate::physics::BodyHandle::ground())
    }

    /// Sets the overlay sprite to draw this frame.
    pub fn set_draw_image(&mut self, img: crate::Image)
        requires
            old(self).wf(),
        ensures
            final(self).wf(),
            final(self).draw_image() == Some(img),
            final(self).update_time() == old(self).update_time(),
            final(self).num_entities() == old(self).num_entities(),
            final(self).queued_deletions() == old(self).queued_deletions(),
            final(self).controls_map() == old(self).controls_map(),
            final(self).airjumps_map() == old(self).airjumps_map(),
            final(self).restorers_map() == old(self).restorers_map(),
            final(self).contactors_map() == old(self).contactors_map(),
            final(self).images_map() == old(self).images_map(),
            final(self).same_physics(*old(self)),
    {
        self.draw_image = DrawImage(Some(img));
        proof {
            self.lemma_unchanged_hint(*old(self));
        }
    }

    /// Hands the pending overlay sprite to the renderer and clears it: the
    /// overlay is consumed each frame it is set.
    pub fn take_draw_image(&mut self) -> (r: Option<crate::Image>)
        requires
            old(self).wf(),
        ensures
            final(self).wf(),
            r == old(self).draw_image(),
            final(self).draw_image() is None,
            final(self).update_time() == old(self).update_time(),
            final(self).num_entities() == old(self).num_entities(),
            final(self).queued_deletions() == old(self).queued_deletions(),
            final(self).controls_map() == old(self).controls_map(),
            final(self).airjumps_map() == old(self).airjumps_map(),
            final(self).restorers_map() == old(self).restorers_map(),
            final(self).contactors_map() == old(self).contactors_map(),
            final(self).images_map() == old(self).images_map(),
            final(self).same_physics(*old(self)),
    {
        let r = self.draw_image.0;
        self.draw_image = DrawImage(None);
        proof {
            self.lemma_unchanged_hint(*old(self));
        }
        r
    }

    /// Writes the elapsed time the physics step will advance by this tick.
    /// Pausing substitutes zero elapsed time rather than skipping the step,
    /// so contact bookkeeping stays consistent while gameplay is frozen.
    pub fn set_update_time(&mut self, elapsed_nanos: u64, paused: bool)
        requires
            old(self).wf(),
        ensures
            final(self).wf(),
            final(self).update_time() == if paused {
                0u64
            } else {
                elapsed_nanos
            },
            final(self).draw_image() == old(self).draw_image(),
            final(self).num_entities() == old(self).num_entities(),
            final(self).queued_deletions() == old(self).queued_deletions(),
            final(self).controls_map() == old(self).controls_map(),
            final(self).airjumps_map() == old(self).airjumps_map(),
            final(self).restorers_map() == old(self).restorers_map(),
            final(self).contactors_map() == old(self).contactors_map(),
            final(self).images_map() == old(self).images_map(),
            final(self).same_physics(*old(self)),
    {
        self.update_time = UpdateTime(if paused { 0 } else { elapsed_nanos });
        proof {
            self.lemma_unchanged_hint(*old(self));
        }
    }

    pub fn update_time_value(&self) -> (t: u64)
        ensures
            t == self.update_time(),
    {
        self.update_time.0
    }

    /// Queues `e` for deletion at the next maintenance boundary. Nothing is
    /// removed yet: systems running later this tick still observe all of
    /// `e`'s components, and its physics handle stays valid until then.
    pub fn delete_entity(&mut self, e: Entity)
        requires
            old(self).wf(),
        ensures
            final(self).wf(),
            final(self).queued_deletions() == old(self).queued_deletions().push(e),
            final(self).num_entities() == old(self).num_entities(),
            final(self).draw_image() == old(self).draw_image(),
            final(self).update_time() == old(self).update_time(),
            final(self).controls_map() == old(self).controls_map(),
            final(self).airjumps_map() == old(self).airjumps_map(),
            final(self).restorers_map() == old(self).restorers_map(),
            final(self).contactors_map() == old(self).contactors_map(),
            final(self).images_map() == old(self).images_map(),
            final(self).same_physics(*old(self)),
    {
        self.deletion_queue.push(e);
        proof {
            self.lemma_unchanged_hint(*old(self));
        }
    }

    /// Counts the registered players: the entities carrying a `Control`.
    pub fn count_controls(&self) -> (n: usize)
        requires
            self.wf(),
        ensures
            n == self.num_controls(),
    {
        let mut count: usize = 0;
        let mut i: usize = 0;
        while i < self.next_entity
            invariant
                0 <= i <= self.next_entity,
                count <= i,
                count == num_controls_below(self.controls_map(), i as int),
            decreases self.next_entity - i,
        {
            if self.controls.contains(i) {
                count = count + 1;
            }
            i = i + 1;
        }
        count
    }

    /// Whether some entity's `Control` names gamepad `id`.
    pub fn has_control_for_gamepad(&self, id: usize) -> (b: bool)
        requires
            self.wf(),
        ensures
            b == exists|i: int|
                #[trigger] self.controls_map().dom().contains(i)
                    && self.controls_map()[i].gamepad_id == id,
    {
        let mut i: usize = 0;
        while i < self.next_entity
            invariant
                0 <= i <= self.next_entity,
                self.wf(),
                forall|j: int|
                    0 <= j < i ==> !(#[trigger] self.controls_map().dom().contains(j)
                        && self.controls_map()[j].gamepad_id == id),
            decreases self.next_entity - i,
        {
            match self.controls.get(i) {
                Some(c) => {
                    if c.gamepad_id == id {
                        proof {
                            assert(self.controls_map().dom().contains(i as int)
                                && self.controls_map()[i as int].gamepad_id == id);
                        }
                        return true;
                    }
                },
                None => {},
            }
            i = i + 1;
        }
        false
    }

    /// Appends `other` to the contact list of `e`, if `e` has one; entities
    /// without a `Contactor` ignore contacts by design.
    pub fn contactor_push(&mut self, e: Entity, other: Entity)
        requires
            old(self).wf(),
        ensures
            final(self).wf(),
            final(self).contactors_map().dom() == old(self).contactors_map().dom(),
            old(self).contactors_map().dom().contains(e.0 as int)
                ==> final(self).contact_lists() == old(self).contact_lists().insert(
                e.0 as int,
                old(self).contact_lists()[e.0 as int].push(other),
            ),
            !old(self).contactors_map().dom().contains(e.0 as int)
                ==> final(self).contactors_map() == old(self).contactors_map(),
            final(self).controls_map() == old(self).controls_map(),
            final(self).airjumps_map() == old(self).airjumps_map(),
            final(self).restorers_map() == old(self).restorers_map(),
            final(self).images_map() == old(self).images_map(),
            final(self).same_physics(*old(self)),
            final(self).same_infra(*old(self)),
    {
        match self.contactors.take(e.0) {
            Some(c) => {
                proof {
                    assert(old(self).contactors_map().dom().contains(e.0 as int));
                }
                let Contactor(mut v) = c;
                v.push(other);
                self.contactors.insert(e.0, Contactor(v));
                proof {
                    self.lemma_unchanged_hint(*old(self));
                    assert(self.contactors_map() =~= old(self).contactors_map().insert(
                        e.0 as int,
                        (Contactor(v)),
                    ));
                    assert(self.contactors_map().dom() =~= old(self).contactors_map().dom());
                    assert(self.contact_lists() =~= old(self).contact_lists().insert(
                        e.0 as int,
                        old(self).contact_lists()[e.0 as int].push(other),
                    ));
                    assert forall|i: int| #[trigger]
                        self.contactors_map().dom().contains(i) implies 0 <= i
                        < self.num_entities() by {
                        assert(old(self).contactors_map().dom().contains(i));
                    };
                }
            },
            None => {
                proof {
                    self.lemma_unchanged_hint(*old(self));
                    assert(self.contactors_map() =~= old(self).contactors_map());
                }
            },
        }
    }

    /// Empties every contact list, leaving the set of entities that track
    /// contacts unchanged: each step's lists are computed afresh from that
    /// step's events.
    pub fn clear_all_contactors(&mut self)
        requires
            old(self).wf(),
        ensures
            final(self).wf(),
            final(self).contactors_map().dom() == old(self).contactors_map().dom(),
            final(self).contact_lists() == cleared_lists(old(self).contact_lists()),
            final(self).controls_map() == old(self).controls_map(),
            final(self).airjumps_map() == old(self).airjumps_map(),
            final(self).restorers_map() == old(self).restorers_map(),
            final(self).images_map() == old(self).images_map(),
            final(self).same_physics(*old(self)),
            final(self).same_infra(*old(self)),
    {
        let n = self.next_entity;
        let mut i: usize = 0;
        while i < n
            invariant
                0 <= i <= n,
                n as nat == old(self).num_entities(),
                self.num_entities() == old(self).num_entities(),
                self.contactors_map().dom() == old(self).contactors_map().dom(),
                forall|j: int|
                    #![auto]
                    0 <= j < i && self.contactors_map().dom().contains(j)
                        ==> self.contact_lists()[j] == Seq::<Entity>::empty(),
                forall|j: int|
                    #![auto]
                    !(0 <= j < i) && self.contactors_map().dom().contains(j)
                        ==> self.contactors_map()[j] == old(self).contactors_map()[j],
                self.controls_map() == old(self).controls_map(),
                self.airjumps_map() == old(self).airjumps_map(),
                self.restorers_map() == old(self).restorers_map(),
                self.images_map() == old(self).images_map(),
                self.same_physics(*old(self)),
                self.queued_deletions() == old(self).queued_deletions(),
                self.draw_image() == old(self).draw_image(),
                self.update_time() == old(self).update_time(),
            decreases n - i,
        {
            let ghost prev = *self;
            if self.contactors.contains(i) {
                let empty_c = Contactor(Vec::new());
                let ghost ec = empty_c;
                self.contactors.insert(i, empty_c);
                proof {
                    self.lemma_unchanged_hint(prev);
                    assert(self.contactors_map() == prev.contactors_map().insert(i as int, ec));
                    assert(self.contactors_map().dom() =~= prev.contactors_map().dom());
                    assert(self.contact_lists()[i as int] =~= Seq::<Entity>::empty());
                    assert forall|j: int|
                        #![auto]
                        0 <= j < i + 1 && self.contactors_map().dom().contains(j)
                            implies self.contact_lists()[j] == Seq::<Entity>::empty() by {
                        if j != i as int {
                            assert(prev.contactors_map().dom().contains(j));
                            assert(self.contactors_map()[j] == prev.contactors_map()[j]);
                            assert(self.contact_lists()[j] == prev.contact_lists()[j]);
                        }
                    };
                }
            }
            i = i + 1;
        }
        proof {
            assert forall|j: int| #[trigger]
                self.contactors_map().dom().contains(j) implies 0 <= j
                < old(self).num_entities() by {
                assert(old(self).contactors_map().dom().contains(j));
            };
            assert(self.contact_lists() =~= cleared_lists(old(self).contact_lists()));
        }
    }

    /// The safe maintenance protocol: (1) commit all queued structural
    /// removals, so every component of a deleted entity leaves its store and
    /// the removed `RigidBody` components are captured; (2) drain the
    /// captured removals; (3) reclaim each captured handle from the physics
    /// world and erase its bodies-map entry. The order is mandatory: bodies
    /// are reclaimed only after the component-level removal is final, so no
    /// system ever observes a `RigidBody` component whose handle is freed.
    pub fn safe_maintain(&mut self)
        requires
            old(self).wf(),
        ensures
            final(self).wf(),
            final(self).queued_deletions() == Seq::<Entity>::empty(),
            final(self).retained_bodies() == Seq::<RigidBody>::empty(),
            ({
                let del = queued_id_set(old(self).queued_deletions());
                let hs = owned_handle_set(old(self).rigid_bodies(), del);
                &&& final(self).controls_map() == old(self).controls_map().remove_keys(del)
                &&& final(self).airjumps_map() == old(self).airjumps_map().remove_keys(del)
                &&& final(self).restorers_map() == old(self).restorers_map().remove_keys(del)
                &&& final(self).contactors_map() == old(self).contactors_map().remove_keys(del)
                &&& final(self).images_map() == old(self).images_map().remove_keys(del)
                &&& final(self).rigid_bodies() == old(self).rigid_bodies().remove_keys(del)
                &&& final(self).physics_bodies() == old(self).physics_bodies().remove_keys(hs)
                &&& final(self).bodies_map() == old(self).bodies_map().remove_keys(hs)
            }),
            final(self).ground_registered() == old(self).ground_registered(),
            final(self).num_entities() == old(self).num_entities(),
            final(self).bodies_allocated() == old(self).bodies_allocated(),
            final(self).draw_image() == old(self).draw_image(),
            final(self).update_time() == old(self).update_time(),
    {
        let ghost q = old(self).queued_deletions();
        let ghost rb0 = old(self).rigid_bodies();
        let ghost bm0 = old(self).bodies_map();
        let ghost del = queued_id_set(q);
        let ghost hs = owned_handle_set(rb0, del);

        // (1) Commit the queued removals; `RigidBody` removals are retained.
        let n = self.deletion_queue.len();
        let mut i: usize = 0;
        while i < n
            invariant
                0 <= i <= n,
                n == q.len(),
                self.deletion_queue@ == q,
                self.num_entities() == old(self).num_entities(),
                self.controls_map() == old(self).controls_map().remove_keys(
                    queued_id_set(q.take(i as int)),
                ),
                self.airjumps_map() == old(self).airjumps_map().remove_keys(
                    queued_id_set(q.take(i as int)),
                ),
                self.restorers_map() == old(self).restorers_map().remove_keys(
                    queued_id_set(q.take(i as int)),
                ),
                self.contactors_map() == old(self).contactors_map().remove_keys(
                    queued_id_set(q.take(i as int)),
                ),
                self.images_map() == old(self).images_map().remove_keys(
                    queued_id_set(q.take(i as int)),
                ),
                self.rigid_bodies() == rb0.remove_keys(queued_id_set(q.take(i as int))),
                body_handle_set(self.retained_bodies()) == owned_handle_set(
                    rb0,
                    queued_id_set(q.take(i as int)),
                ),
                self.physics_bodies() == old(self).physics_bodies(),
                self.bodies_allocated() == old(self).bodies_allocated(),
                self.bodies_map() == bm0,
                self.draw_image() == old(self).draw_image(),
                self.update_time() == old(self).update_time(),
            decreases n - i,
        {
            let e = self.deletion_queue[i];
            let ghost prevset = queued_id_set(q.take(i as int));
            let ghost prev_retained = self.retained_bodies();
            let ghost rb_prev = self.rigid_bodies();
            self.controls.remove(e.0);
            self.airjumps.remove(e.0);
            self.restorers.remove(e.0);
            self.contactors.remove(e.0);
            self.images.remove(e.0);
            self.bodies.remove(e.0);
            proof {
                lemma_queued_id_set_step(q, i as int);
                let newset = queued_id_set(q.take(i + 1));
                assert(self.controls_map() =~= old(self).controls_map().remove_keys(newset));
                assert(self.airjumps_map() =~= old(self).airjumps_map().remove_keys(newset));
                assert(self.restorers_map() =~= old(self).restorers_map().remove_keys(newset));
                assert(self.contactors_map() =~= old(self).contactors_map().remove_keys(
                    newset,
                ));
                assert(self.images_map() =~= old(self).images_map().remove_keys(newset));
                assert(self.rigid_bodies() =~= rb0.remove_keys(newset));
                lemma_owned_handle_set_insert(rb0, prevset, e.0 as int);
                if rb_prev.dom().contains(e.0 as int) {
                    assert(rb_prev[e.0 as int] == rb0[e.0 as int]);
                    lemma_body_handle_set_push(prev_retained, rb0[e.0 as int]);
                } else {
                    if rb0.dom().contains(e.0 as int) {
                        assert(prevset.contains(e.0 as int));
                        assert(owned_handle_set(rb0, prevset.insert(e.0 as int))
                            =~= owned_handle_set(rb0, prevset));
                    }
                }
                assert(body_handle_set(self.retained_bodies()) == owned_handle_set(
                    rb0,
                    newset,
                ));
            }
            i = i + 1;
        }
        self.deletion_queue.clear();
        proof {
            assert(q.take(n as int) =~= q);
        }

        // (2) Drain the retained removals.
        let ghost bodies_pre_drain = self.bodies;
        let retained = self.bodies.retained();
        proof {
            crate::retained_storage::lemma_view_is_store_map(bodies_pre_drain);
            crate::retained_storage::lemma_view_is_store_map(self.bodies);
        }
        let mut handles: Vec<crate::physics::BodyHandle> = Vec::new();
        let mut k: usize = 0;
        while k < retained.len()
            invariant
                0 <= k <= retained@.len(),
                handles@.len() == k as int,
                forall|j: int| 0 <= j < k ==> handles@[j] == retained@[j].0,
            decreases retained@.len() - k,
        {
            handles.push(retained[k].0);
            k = k + 1;
        }
        proof {
            lemma_handle_sets_agree(handles@, retained@);
            assert(crate::physics::handle_value_set(handles@) == hs);
        }

        // (3) Reclaim each handle from the physics world and the bodies map.
        self.physics.remove_bodies(&handles);
        let mut k2: usize = 0;
        while k2 < handles.len()
            invariant
                0 <= k2 <= handles@.len(),
                crate::physics::handle_value_set(handles@) == hs,
                self.num_entities() == old(self).num_entities(),
                self.queued_deletions() == Seq::<Entity>::empty(),
                self.retained_bodies() == Seq::<RigidBody>::empty(),
                self.controls_map() == old(self).controls_map().remove_keys(del),
                self.airjumps_map() == old(self).airjumps_map().remove_keys(del),
                self.restorers_map() == old(self).restorers_map().remove_keys(del),
                self.contactors_map() == old(self).contactors_map().remove_keys(del),
                self.images_map() == old(self).images_map().remove_keys(del),
                self.rigid_bodies() == rb0.remove_keys(del),
                self.physics_bodies() == old(self).physics_bodies().remove_keys(hs),
                self.bodies_allocated() == old(self).bodies_allocated(),
                self.draw_image() == old(self).draw_image(),
                self.update_time() == old(self).update_time(),
                self.bodies_map() == bm0.remove_keys(
                    crate::physics::handle_value_set(handles@.take(k2 as int)),
                ),
            decreases handles@.len() - k2,
        {
            self.bodies_map.remove(handles[k2]);
            proof {
                assert(handles@.take(k2 + 1).drop_last() =~= handles@.take(k2 as int));
                assert(handles@.take(k2 + 1).last() == handles@[k2 as int]);
                assert(self.bodies_map() =~= bm0.remove_keys(
                    crate::physics::handle_value_set(handles@.take(k2 + 1)),
                ));
            }
            k2 = k2 + 1;
        }
        proof {
            assert(handles@.take(handles@.len() as int) =~= handles@);
            assert(self.bodies_map() =~= bm0.remove_keys(hs));

            // The ground handle is owned by no RigidBody component, so it is
            // never reclaimed.
            assert(!hs.contains(GROUND_HANDLE as int)) by {
                if hs.contains(GROUND_HANDLE as int) {
                    let j = choose|j: int|
                        #[trigger] del.contains(j) && rb0.dom().contains(j) && rb0[j].0.0 as int
                            == GROUND_HANDLE as int;
                    assert(false);
                }
            };
            assert(self.ground_registered() == old(self).ground_registered());

            // Re-establish well-formedness.
            assert forall|i2: int| #[trigger]
                self.controls_map().dom().contains(i2) implies 0 <= i2
                < self.num_entities() by {
                assert(old(self).controls_map().dom().contains(i2));
            };
            assert forall|i2: int| #[trigger]
                self.airjumps_map().dom().contains(i2) implies 0 <= i2
                < self.num_entities() by {
                assert(old(self).airjumps_map().dom().contains(i2));
            };
            assert forall|i2: int| #[trigger]
                self.restorers_map().dom().contains(i2) implies 0 <= i2
                < self.num_entities() by {
                assert(old(self).restorers_map().dom().contains(i2));
            };
            assert forall|i2: int| #[trigger]
                self.contactors_map().dom().contains(i2) implies 0 <= i2
                < self.num_entities() by {
                assert(old(self).contactors_map().dom().contains(i2));
            };
            assert forall|i2: int| #[trigger]
                self.images_map().dom().contains(i2) implies 0 <= i2
                < self.num_entities() by {
                assert(old(self).images_map().dom().contains(i2));
            };
            assert forall|i2: int| #[trigger]
                self.rigid_bodies().dom().contains(i2) implies 0 <= i2
                < self.num_entities() by {
                assert(rb0.dom().contains(i2));
            };
            assert forall|i2: int| #[trigger] self.rigid_bodies().dom().contains(i2) implies {
                let h = self.rigid_bodies()[i2].0.0 as int;
                &&& h != GROUND_HANDLE as int
                &&& self.physics_bodies().dom().contains(h)
                &&& self.bodies_map().dom().contains(h)
                &&& self.bodies_map()[h] == Entity(i2 as usize)
            } by {
                assert(rb0.dom().contains(i2));
                assert(!del.contains(i2));
                let h = rb0[i2].0.0 as int;
                assert(!hs.contains(h)) by {
                    if hs.contains(h) {
                        let j = choose|j: int|
                            #[trigger] del.contains(j) && rb0.dom().contains(j)
                                && rb0[j].0.0 as int == h;
                        assert(bm0[h] == Entity(j as usize));
                        assert(bm0[h] == Entity(i2 as usize));
                        assert(false);
                    }
                };
            };
            assert forall|hh: int| #[trigger]
                self.bodies_map().dom().contains(hh) && hh != GROUND_HANDLE as int implies {
                let e2 = self.bodies_map()[hh].0 as int;
                &&& self.rigid_bodies().dom().contains(e2)
                &&& self.rigid_bodies()[e2].0.0 as int == hh
            } by {
                assert(bm0.dom().contains(hh));
                let e2 = bm0[hh].0 as int;
                assert(rb0.dom().contains(e2));
                assert(!del.contains(e2)) by {
                    if del.contains(e2) {
                        assert(hs.contains(hh));
                        assert(false);
                    }
                };
            };
            assert forall|hh: int| #[trigger]
                self.physics_bodies().dom().contains(hh) implies self.bodies_map().dom()
                .contains(hh) by {
                assert(old(self).physics_bodies().dom().contains(hh));
                assert(bm0.dom().contains(hh));
                assert(!hs.contains(hh));
            };
        }
    }

    /// The per-tick render snapshot: every entity carrying a sprite,
    /// together with the handle of its physics body when it has one, in id
    /// order. The renderer pairs each handle with the body's pose; entities
    /// without a body (the ground) are drawn unposed or skipped by it.
    pub fn render_snapshot(&self) -> (v: Vec<(Entity, crate::Image, Option<
        crate::physics::BodyHandle,
    >)>)
        requires
            self.wf(),
        ensures
            v@ == snapshot_list(*self, self.num_entities() as int),
    {
        let mut v: Vec<(Entity, crate::Image, Option<crate::physics::BodyHandle>)> = Vec::new();
        let mut i: usize = 0;
        while i < self.next_entity
            invariant
                0 <= i <= self.next_entity,
                v@ == snapshot_list(*self, i as int),
            decreases self.next_entity - i,
        {
            let e = Entity(i);
            match self.image_of(e) {
                Some(img) => {
                    let h = match self.body_of(e) {
                        Some(b) => Some(b.0),
                        None => None,
                    };
                    v.push((e, img.0, h));
                },
                None => {},
            }
            i = i + 1;
        }
        v
    }

    /// Law: the player count that the pause predicate and the waiting
    /// screens go by is exactly the number of entities carrying a `Control`
    /// component.
    pub proof fn lemma_num_controls_counts_players(self)
        requires
            self.wf(),
        ensures
            self.controls_map().dom().finite(),
            self.num_controls() == self.controls_map().dom().len(),
    {
        let n = self.num_entities() as int;
        let range = vstd::set_lib::set_int_range(0, n);
        vstd::set_lib::lemma_int_range(0, n);
        assert(self.controls_map().dom().subset_of(range));
        vstd::set_lib::lemma_set_subset_finite(range, self.controls_map().dom());
        lemma_num_controls_is_card(self.controls_map(), n);
    }

    /// Law: while an entity's `RigidBody` component is attached, its handle
    /// is live in the physics world — so dereferencing it succeeds — and the
    /// bodies map names the entity as the handle's owner.
    pub proof fn lemma_handle_lifecycle(self, e: Entity)
        requires
            self.wf(),
            self.rigid_bodies().dom().contains(e.0 as int),
        ensures
            self.physics_bodies().dom().contains(self.rigid_bodies()[e.0 as int].0.0 as int),
            self.bodies_map().dom().contains(self.rigid_bodies()[e.0 as int].0.0 as int),
            self.bodies_map()[self.rigid_bodies()[e.0 as int].0.0 as int] == Entity(e.0),
    {
    }

    /// Law: a maintenance pass that commits the deletion of an entity owning
    /// a body removes the entity's `RigidBody` component and reclaims its
    /// handle from the physics world and the bodies map — never before that
    /// pass, and never skipped.
    pub proof fn lemma_handle_reclaimed(self, post: World, e: Entity, k: int)
        requires
            self.wf(),
            self.rigid_bodies().dom().contains(e.0 as int),
            0 <= k < self.queued_deletions().len(),
            self.queued_deletions()[k] == e,
            ({
                let del = queued_id_set(self.queued_deletions());
                let hs = owned_handle_set(self.rigid_bodies(), del);
                &&& post.rigid_bodies() == self.rigid_bodies().remove_keys(del)
                &&& post.physics_bodies() == self.physics_bodies().remove_keys(hs)
                &&& post.bodies_map() == self.bodies_map().remove_keys(hs)
            }),
        ensures
            !post.rigid_bodies().dom().contains(e.0 as int),
            !post.physics_bodies().dom().contains(self.rigid_bodies()[e.0 as int].0.0 as int),
            !post.bodies_map().dom().contains(self.rigid_bodies()[e.0 as int].0.0 as int),
    {
        let del = queued_id_set(self.queued_deletions());
        let hs = owned_handle_set(self.rigid_bodies(), del);
        lemma_queued_id_set_contains(self.queued_deletions(), k);
        assert(del.contains(e.0 as int) && self.rigid_bodies().dom().contains(e.0 as int)
            && self.rigid_bodies()[e.0 as int].0.0 as int == self.rigid_bodies()[e.0 as int].0.0
            as int);
        assert(hs.contains(self.rigid_bodies()[e.0 as int].0.0 as int));
    }

    /// Law: no `RigidBody` component ever owns the ground handle, so no
    /// maintenance pass reclaims the ground registration: once the ground
    /// singleton is registered, it stays registered, under the same entity,
    /// for the process lifetime.
    pub proof fn lemma_ground_survives_maintenance(self, ids: Set<int>)
        requires
            self.wf(),
        ensures
            !owned_handle_set(self.rigid_bodies(), ids).contains(GROUND_HANDLE as int),
            self.ground_registered() ==> {
                let bm = self.bodies_map().remove_keys(owned_handle_set(
                    self.rigid_bodies(),
                    ids,
                ));
                &&& bm.dom().contains(GROUND_HANDLE as int)
                &&& bm[GROUND_HANDLE as int] == self.bodies_map()[GROUND_HANDLE as int]
            },
    {
        let hs = owned_handle_set(self.rigid_bodies(), ids);
        if hs.contains(GROUND_HANDLE as int) {
            let j = choose|j: int|
                #[trigger] ids.contains(j) && self.rigid_bodies().dom().contains(j)
                    && self.rigid_bodies()[j].0.0 as int == GROUND_HANDLE as int;
            assert(false);
        }
    }

    /// Restates, for the prover, that every spec view of `self` whose backing
    /// field `prev` left untouched is equal in the two states.
    proof fn lemma_unchanged_hint(self, prev: World)
        ensures
            self.controls == prev.controls ==> self.controls_map() == prev.controls_map(),
            self.airjumps == prev.airjumps ==> self.airjumps_map() == prev.airjumps_map(),
            self.restorers == prev.restorers ==> self.restorers_map() == prev.restorers_map(),
            self.contactors == prev.contactors ==> self.contactors_map()
                == prev.contactors_map(),
            self.images == prev.images ==> self.images_map() == prev.images_map(),
            self.bodies == prev.bodies ==> self.rigid_bodies() == prev.rigid_bodies()
                && self.retained_bodies() == prev.retained_bodies(),
            self.physics == prev.physics ==> self.physics_bodies() == prev.physics_bodies()
                && self.bodies_allocated() == prev.bodies_allocated(),
            self.bodies_map == prev.bodies_map ==> self.bodies_map() == prev.bodies_map(),
    {
    }
}

} // verus!
