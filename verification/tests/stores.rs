use airjump::physics::{BodyHandle, BodyStatus, PhysicsWorld};
use airjump::resource::BodiesMap;
use airjump::retained_storage::{Retained, RetainedStorage, Storage};
use airjump::world::Entity;

#[test]
fn storage_is_a_sparse_map() {
    let mut s: Storage<u32> = Storage::new();
    assert!(!s.contains(3));
    assert!(s.get(3).is_none());
    s.insert(3, 30);
    s.insert(0, 1);
    assert!(s.contains(3));
    assert_eq!(s.get(3), Some(&30));
    assert_eq!(s.get(0), Some(&1));
    s.insert(3, 31);
    assert_eq!(s.get(3), Some(&31));
    assert_eq!(s.take(3), Some(31));
    assert!(s.get(3).is_none());
    assert_eq!(s.take(3), None);
    s.remove(0);
    assert!(!s.contains(0));
}

#[test]
fn retained_storage_buffers_removals_until_drained() {
    let mut s: RetainedStorage<u32> = RetainedStorage::default();
    s.insert(0, 10);
    s.insert(1, 11);
    s.insert(2, 12);
    s.remove(1);
    s.remove(5);
    s.remove(2);
    assert!(s.get(1).is_none());
    assert_eq!(s.get(0), Some(&10));
    // The drain empties the buffer atomically, in removal order.
    assert_eq!(s.retained(), vec![11, 12]);
    assert_eq!(s.retained(), Vec::<u32>::new());
    // Replacement by insert drops the old value without buffering it.
    s.insert(0, 20);
    assert_eq!(s.retained(), Vec::<u32>::new());
}

#[test]
fn physics_world_hands_out_fresh_nonzero_handles() {
    let mut pw = PhysicsWorld::new();
    let a = pw.add_rigid_body(BodyStatus::Dynamic);
    let b = pw.add_rigid_body(BodyStatus::Static);
    assert_ne!(a.0, 0);
    assert_ne!(b.0, 0);
    assert_ne!(a, b);
    assert_eq!(pw.rigid_body(a), Some(BodyStatus::Dynamic));
    assert_eq!(pw.rigid_body(b), Some(BodyStatus::Static));
    pw.remove_bodies(&vec![a]);
    assert_eq!(pw.rigid_body(a), None);
    assert_eq!(pw.rigid_body(b), Some(BodyStatus::Static));
    // Handles are never reused after removal.
    let c = pw.add_rigid_body(BodyStatus::Dynamic);
    assert_ne!(c, a);
    assert_ne!(c, b);
}

#[test]
fn bodies_map_translates_handles_to_entities() {
    let mut m = BodiesMap::new();
    let ground = BodyHandle::ground();
    assert_eq!(ground.0, 0);
    assert!(!m.contains_key(ground));
    m.insert(ground, Entity(7));
    m.insert(BodyHandle(2), Entity(9));
    assert_eq!(m.get(ground), Some(Entity(7)));
    assert_eq!(m.get(BodyHandle(2)), Some(Entity(9)));
    assert_eq!(m.get(BodyHandle(1)), None);
    m.remove(BodyHandle(2));
    assert_eq!(m.get(BodyHandle(2)), None);
    assert_eq!(m.get(ground), Some(Entity(7)));
}
