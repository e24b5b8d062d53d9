use vstd::prelude::*;

verus! {

use crate::component::AirjumpRestorer;
use crate::physics::ContactEvent;
use crate::world::{cleared_lists, Entity, World};
use crate::component::Airjump;

/// Whether every contact-start event in `evs` names two handles tracked by
/// the bodies map. An untracked handle in an event would violate the
/// reconciliation invariant.
pub open spec fn events_resolvable(evs: Seq<ContactEvent>, bm: Map<int, Entity>) -> bool {
    forall|k: int|
        0 <= k < evs.len() ==> match #[trigger] evs[k] {
            ContactEvent::Started(h1, h2) => bm.dom().contains(h1.0 as int) && bm.dom().contains(
                h2.0 as int,
            ),
            ContactEvent::Stopped(_, _) => true,
        }
}

/// What one event does to the contact lists: a contact start appends each
/// participating entity to the other one's list, where a list exists; every
/// other event is ignored.
pub open spec fn apply_contact_event(
    cl: Map<int, Seq<Entity>>,
    bm: Map<int, Entity>,
    ev: ContactEvent,
) -> Map<int, Seq<Entity>> {
    match ev {
        ContactEvent::Started(h1, h2) => {
            let e1 = bm[h1.0 as int];
            let e2 = bm[h2.0 as int];
            let c1 = if cl.dom().contains(e1.0 as int) {
                cl.insert(e1.0 as int, cl[e1.0 as int].push(e2))
            } else {
                cl
            };
            if c1.dom().contains(e2.0 as int) {
                c1.insert(e2.0 as int, c1[e2.0 as int].push(e1))
            } else {
                c1
            }
        },
        ContactEvent::Stopped(_, _) => cl,
    }
}

/// The contact lists after translating `evs`, in order.
pub open spec fn apply_contact_events(
    cl: Map<int, Seq<Entity>>,
    bm: Map<int, Entity>,
    evs: Seq<ContactEvent>,
) -> Map<int, Seq<Entity>>
    decreases evs.len(),
{
    if evs.len() == 0 {
        cl
    } else {
        apply_contact_event(apply_contact_events(cl, bm, evs.drop_last()), bm, evs.last())
    }
}

/// Whether some entity in `contacts` carries the restorer tag.
pub open spec fn touches_restorer(
    contacts: Seq<Entity>,
    restorers: Map<int, AirjumpRestorer>,
) -> bool {
    exists|j: int|
        0 <= j < contacts.len() && #[trigger] restorers.dom().contains(contacts[j].0 as int)
}

/// Law: restoration is idempotent. If the airjump stage relates `pre` to
/// `post` — as `AirjumpSystem::run` promises — then one qualifying contact
/// already yields the capability, and however many more restorer contacts
/// the same list holds, the outcome is the same `true`, never a toggle.
pub proof fn lemma_airjump_restoration_idempotent(pre: World, post: World, i: int, j: int)
    requires
        pre.airjumps_map().dom().contains(i),
        pre.contactors_map().dom().contains(i),
        0 <= j < pre.contact_lists()[i].len(),
        pre.restorers_map().dom().contains(pre.contact_lists()[i][j].0 as int),
        post.airjumps_map()[i].0 == (pre.airjumps_map()[i].0 || (pre.contactors_map().dom()
            .contains(i) && touches_restorer(pre.contact_lists()[i], pre.restorers_map()))),
    ensures
        post.airjumps_map()[i].0,
{
    assert(touches_restorer(pre.contact_lists()[i], pre.restorers_map()));
}

/// Law: the pipeline order matters and suffices. When the physics stage
/// relates `pre` to `mid` on this tick's events — as `PhysicSystem::run`
/// promises — and the airjump stage then relates `mid` to `post` — as
/// `AirjumpSystem::run` promises — the capability each tracked entity ends
/// the tick with is decided by the contact lists computed from this tick's
/// events, never by a stale list.
pub proof fn lemma_pipeline_order(
    pre: World,
    mid: World,
    post: World,
    evs: Seq<ContactEvent>,
    i: int,
)
    requires
        pre.airjumps_map().dom().contains(i),
        mid.contact_lists() == apply_contact_events(
            cleared_lists(pre.contact_lists()),
            pre.bodies_map(),
            evs,
        ),
        mid.contactors_map().dom() == pre.contactors_map().dom(),
        mid.airjumps_map() == pre.airjumps_map(),
        mid.restorers_map() == pre.restorers_map(),
        post.airjumps_map()[i].0 == (mid.airjumps_map()[i].0 || (mid.contactors_map().dom()
            .contains(i) && touches_restorer(mid.contact_lists()[i], mid.restorers_map()))),
    ensures
        post.airjumps_map()[i].0 == (pre.airjumps_map()[i].0 || (pre.contactors_map().dom()
            .contains(i) && touches_restorer(
            apply_contact_events(cleared_lists(pre.contact_lists()), pre.bodies_map(), evs)[i],
            pre.restorers_map(),
        ))),
{
}

/// The physics stage of the tick. The solver advances by the tick's update
/// time outside this crate; what reaches gameplay is the list of contact
/// transitions of that step, each already resolved to body handles. This
/// stage translates them, through the bodies map, into each entity's
/// fresh-for-this-step contact list.
pub struct PhysicSystem;

impl PhysicSystem {
    pub fn run(&mut self, world: &mut World, events: &Vec<ContactEvent>)
        requires
            old(world).wf(),
            events_resolvable(events@, old(world).bodies_map()),
        ensures
            final(world).wf(),
            final(world).contactors_map().dom() == old(world).contactors_map().dom(),
            final(world).contact_lists() == apply_contact_events(
                cleared_lists(old(world).contact_lists()),
                old(world).bodies_map(),
                events@,
            ),
            final(world).controls_map() == old(world).controls_map(),
            final(world).airjumps_map() == old(world).airjumps_map(),
            final(world).restorers_map() == old(world).restorers_map(),
            final(world).images_map() == old(world).images_map(),
            final(world).same_physics(*old(world)),
            final(world).same_infra(*old(world)),
    {
        world.clear_all_contactors();
        let ghost bm0 = old(world).bodies_map();
        let ghost cl0 = cleared_lists(old(world).contact_lists());
        let mut i: usize = 0;
        while i < events.len()
            invariant
                0 <= i <= events@.len(),
                world.wf(),
                events_resolvable(events@, bm0),
                world.bodies_map() == bm0,
                world.contactors_map().dom() == old(world).contactors_map().dom(),
                world.contact_lists() == apply_contact_events(cl0, bm0, events@.take(i as int)),
                world.controls_map() == old(world).controls_map(),
                world.airjumps_map() == old(world).airjumps_map(),
                world.restorers_map() == old(world).restorers_map(),
                world.images_map() == old(world).images_map(),
                world.same_physics(*old(world)),
                world.same_infra(*old(world)),
            decreases events@.len() - i,
        {
            let ev = events[i];
            match ev {
                ContactEvent::Started(h1, h2) => {
                    proof {
                        assert(events@[i as int] == ev);
                    }
                    let e1 = world.body_owner(h1).unwrap();
                    let e2 = world.body_owner(h2).unwrap();
                    world.contactor_push(e1, e2);
                    world.contactor_push(e2, e1);
                },
                ContactEvent::Stopped(_, _) => {},
            }
            proof {
                assert(events@.take(i + 1).drop_last() =~= events@.take(i as int));
                assert(events@.take(i + 1).last() == events@[i as int]);
                assert(world.contact_lists() =~= apply_contact_events(
                    cl0,
                    bm0,
                    events@.take(i + 1),
                ));
            }
            i = i + 1;
        }
        proof {
            assert(events@.take(events@.len() as int) =~= events@);
        }
    }
}

/// The airjump-restoration stage, run strictly after the physics stage of
/// the same tick: every entity that tracks both the capability and its
/// contacts regains the capability if it touched a restorer this step.
/// Restoration is idempotent: several qualifying contacts in one step
/// collapse into one restoration.
pub struct AirjumpSystem;

impl AirjumpSystem {
    pub fn run(&mut self, world: &mut World)
        requires
            old(world).wf(),
        ensures
            final(world).wf(),
            final(world).airjumps_map().dom() == old(world).airjumps_map().dom(),
            forall|i: int| #[trigger]
                old(world).airjumps_map().dom().contains(i) ==> final(world).airjumps_map()[i].0
                    == (old(world).airjumps_map()[i].0 || (old(world).contactors_map().dom()
                    .contains(i) && touches_restorer(
                    old(world).contact_lists()[i],
                    old(world).restorers_map(),
                ))),
            final(world).controls_map() == old(world).controls_map(),
            final(world).restorers_map() == old(world).restorers_map(),
            final(world).contactors_map() == old(world).contactors_map(),
            final(world).images_map() == old(world).images_map(),
            final(world).same_physics(*old(world)),
            final(world).same_infra(*old(world)),
    {
        let n = world.entity_count();
        let mut i: usize = 0;
        while i < n
            invariant
                0 <= i <= n,
                world.wf(),
                n as nat == old(world).num_entities(),
                world.airjumps_map().dom() == old(world).airjumps_map().dom(),
                forall|j: int|
                    i <= j && #[trigger] old(world).airjumps_map().dom().contains(j)
                        ==> world.airjumps_map()[j] == old(world).airjumps_map()[j],
                forall|j: int|
                    j < i && #[trigger] old(world).airjumps_map().dom().contains(j)
                        ==> world.airjumps_map()[j].0 == (old(world).airjumps_map()[j].0 || (old(
                        world,
                    ).contactors_map().dom().contains(j) && touches_restorer(
                        old(world).contact_lists()[j],
                        old(world).restorers_map(),
                    ))),
                world.controls_map() == old(world).controls_map(),
                world.restorers_map() == old(world).restorers_map(),
                world.contactors_map() == old(world).contactors_map(),
                world.images_map() == old(world).images_map(),
                world.same_physics(*old(world)),
                world.same_infra(*old(world)),
            decreases n - i,
        {
            let e = Entity(i);
            if world.has_contactor(e) {
                match world.airjump_of(e) {
                    Some(_) => {
                        let len = world.contactor_len(e);
                        let mut j: usize = 0;
                        let mut found = false;
                        while j < len
                            invariant
                                0 <= j <= len,
                                world.wf(),
                                e.0 == i,
                                world.contactors_map().dom().contains(e.0 as int),
                                len == world.contact_lists()[e.0 as int].len(),
                                found == touches_restorer(
                                    world.contact_lists()[e.0 as int].take(j as int),
                                    world.restorers_map(),
                                ),
                            decreases len - j,
                        {
                            let t = world.contactor_at(e, j);
                            let ghost cl = world.contact_lists()[e.0 as int];
                            if world.has_restorer(t) {
                                found = true;
                            }
                            proof {
                                assert(forall|k: int|
                                    0 <= k < j ==> cl.take(j + 1)[k] == cl.take(j as int)[k]);
                                assert(cl.take(j + 1)[j as int] == cl[j as int]);
                                if world.restorers_map().dom().contains(cl[j as int].0 as int) {
                                    assert(touches_restorer(
                                        cl.take(j + 1),
                                        world.restorers_map(),
                                    ));
                                } else {
                                    if touches_restorer(cl.take(j + 1), world.restorers_map()) {
                                        let k = choose|k: int|
                                            0 <= k < cl.take(j + 1).len()
                                                && #[trigger] world.restorers_map().dom()
                                                .contains(cl.take(j + 1)[k].0 as int);
                                        if k < j {
                                            assert(world.restorers_map().dom().contains(
                                                cl.take(j as int)[k].0 as int,
                                            ));
                                        }
                                    }
                                }
                            }
                            j = j + 1;
                        }
                        proof {
                            let cl = world.contact_lists()[e.0 as int];
                            assert(cl.take(len as int) =~= cl);
                        }
                        if found {
                            world.add_airjump(e, Airjump(true));
                        }
                    },
                    None => {},
                }
            }
            i = i + 1;
        }
    }
}

} // verus!
