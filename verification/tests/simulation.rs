use airjump::component::Airjump;
use airjump::entity::{create_ball, create_gong, create_ground, create_walls};
use airjump::physics::{BodyHandle, BodyStatus, ContactEvent};
use airjump::safe_maintain;
use airjump::system::{AirjumpSystem, PhysicSystem};
use airjump::world::{Entity, World};

fn contact_list(w: &World, e: Entity) -> Vec<Entity> {
    assert!(w.has_contactor(e));
    let mut v = Vec::new();
    let n = w.contactor_len(e);
    let mut j = 0;
    while j < n {
        v.push(w.contactor_at(e, j));
        j += 1;
    }
    v
}

#[test]
fn handle_lifecycle_until_deletion() {
    let mut w = World::new();
    create_ball(0, [true, true], &mut w);
    let ball = Entity(0);
    let handle = w.body_of(ball).expect("ball must own a body").0;
    assert!(w.has_body(handle));
    assert_eq!(w.body_owner(handle), Some(ball));
    assert_eq!(w.body_status_of(ball), Some(BodyStatus::Dynamic));

    // Deletion is deferred: this tick the handle stays dereferenceable.
    w.delete_entity(ball);
    assert!(w.has_body(handle));
    assert_eq!(w.body_owner(handle), Some(ball));
    assert_eq!(w.body_status_of(ball), Some(BodyStatus::Dynamic));

    // The maintenance pass reclaims it from every table at once.
    safe_maintain(&mut w);
    assert!(w.body_of(ball).is_none());
    assert!(!w.has_body(handle));
    assert!(w.body_owner(handle).is_none());
    assert!(w.control_of(ball).is_none());
    assert!(w.airjump_of(ball).is_none());
    assert!(!w.has_restorer(ball));
    assert!(!w.has_contactor(ball));
}

#[test]
fn ground_is_a_singleton() {
    let mut w = World::new();
    assert!(!w.is_ground_registered());
    assert!(create_ground(&mut w).is_ok());
    assert!(w.is_ground_registered());
    let ground_entity = w.body_owner(BodyHandle::ground()).expect("ground must be registered");
    assert_eq!(ground_entity, Entity(0));
    assert!(w.has_restorer(ground_entity));

    // A second registration is refused; the caller treats this as fatal.
    assert!(create_ground(&mut w).is_err());
    assert_eq!(w.body_owner(BodyHandle::ground()), Some(Entity(0)));

    // Maintenance never reclaims the ground registration.
    safe_maintain(&mut w);
    assert_eq!(w.body_owner(BodyHandle::ground()), Some(Entity(0)));
}

#[test]
fn walls_are_static() {
    let mut w = World::new();
    create_walls(&mut w);
    assert_eq!(w.body_status_of(Entity(0)), Some(BodyStatus::Static));
    assert!(w.image_of(Entity(0)).is_none());
}

#[test]
fn contact_events_fill_contactors_afresh() {
    let mut w = World::new();
    create_gong(&mut w);
    create_ball(1, [true, false], &mut w);
    let gong = Entity(0);
    let ball = Entity(1);
    let gong_h = w.body_of(gong).unwrap().0;
    let ball_h = w.body_of(ball).unwrap().0;

    let mut ps = PhysicSystem;
    ps.run(&mut w, &vec![ContactEvent::Started(ball_h, gong_h)]);
    // The gong has no Contactor; the ball records the gong once.
    assert!(!w.has_contactor(gong));
    assert_eq!(contact_list(&w, ball), vec![gong]);

    // Next step: stop events are ignored and lists do not carry over.
    ps.run(&mut w, &vec![ContactEvent::Stopped(ball_h, gong_h)]);
    assert_eq!(contact_list(&w, ball), Vec::<Entity>::new());
}

#[test]
fn gong_contact_does_not_restore_airjump() {
    let mut w = World::new();
    create_gong(&mut w);
    create_ball(1, [true, false], &mut w);
    let ball = Entity(1);
    let gong_h = w.body_of(Entity(0)).unwrap().0;
    let ball_h = w.body_of(ball).unwrap().0;

    let mut ps = PhysicSystem;
    ps.run(&mut w, &vec![ContactEvent::Started(ball_h, gong_h)]);
    let mut ajs = AirjumpSystem;
    ajs.run(&mut w);
    assert_eq!(contact_list(&w, ball), vec![Entity(0)]);
    // The gong carries no AirjumpRestorer, so the capability stays consumed.
    assert_eq!(w.airjump_of(ball), Some(Airjump(false)));
}

#[test]
fn ground_contact_restores_airjump() {
    let mut w = World::new();
    create_ground(&mut w).unwrap();
    create_ball(1, [true, false], &mut w);
    let ball = Entity(1);
    let ball_h = w.body_of(ball).unwrap().0;

    let mut ps = PhysicSystem;
    ps.run(&mut w, &vec![ContactEvent::Started(ball_h, BodyHandle::ground())]);
    assert_eq!(contact_list(&w, ball), vec![Entity(0)]);
    let mut ajs = AirjumpSystem;
    ajs.run(&mut w);
    assert_eq!(w.airjump_of(ball), Some(Airjump(true)));
}

#[test]
fn two_restorer_contacts_in_one_tick_restore_once() {
    // Balls are restorers themselves: one ball touching two others in the
    // same step ends the tick with the capability set, not toggled twice.
    let mut w = World::new();
    create_ball(0, [true, true], &mut w);
    create_ball(1, [true, true], &mut w);
    create_ball(2, [true, true], &mut w);
    let (a, b, c) = (Entity(0), Entity(1), Entity(2));
    let ha = w.body_of(a).unwrap().0;
    let hb = w.body_of(b).unwrap().0;
    let hc = w.body_of(c).unwrap().0;

    let mut ps = PhysicSystem;
    ps.run(&mut w, &vec![ContactEvent::Started(ha, hb), ContactEvent::Started(ha, hc)]);
    assert_eq!(contact_list(&w, a), vec![b, c]);
    assert_eq!(contact_list(&w, b), vec![a]);
    assert_eq!(contact_list(&w, c), vec![a]);

    let mut ajs = AirjumpSystem;
    ajs.run(&mut w);
    assert_eq!(w.airjump_of(a), Some(Airjump(true)));
    assert_eq!(w.airjump_of(b), Some(Airjump(true)));
    assert_eq!(w.airjump_of(c), Some(Airjump(true)));
}

#[test]
fn update_time_is_zero_while_paused() {
    let mut w = World::new();
    w.set_update_time(16_666_667, false);
    assert_eq!(w.update_time_value(), 16_666_667);
    w.set_update_time(16_666_667, true);
    assert_eq!(w.update_time_value(), 0);
}

#[test]
fn render_snapshot_lists_sprites_with_their_handles() {
    let mut w = World::new();
    create_gong(&mut w);
    create_ground(&mut w).unwrap();
    create_ball(4, [true, true], &mut w);
    let snapshot = w.render_snapshot();
    assert_eq!(snapshot.len(), 2);
    assert_eq!(snapshot[0].0, Entity(0));
    assert_eq!(snapshot[0].1, airjump::Image::Gong);
    assert_eq!(snapshot[0].2, Some(w.body_of(Entity(0)).unwrap().0));
    assert_eq!(snapshot[1].0, Entity(2));
    assert_eq!(snapshot[1].1, airjump::Image::Ball);
    assert_eq!(snapshot[1].2, Some(w.body_of(Entity(2)).unwrap().0));
}
