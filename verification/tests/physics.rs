use simcore::event::{EventQueue, GameEvent};
use simcore::geom2::Vector2i;
use simcore::physics::{
    CollisionWorld, ContactNotice, PhysicConfiguration, RigidBodyComponent,
};
use simcore::transform::Transform;

#[test]
fn add_body_is_idempotent() {
    let mut world = CollisionWorld::new(PhysicConfiguration::default());
    let mut rbc = RigidBodyComponent::new_dynamic_cuboid(500, 500);
    assert!(rbc.handle.is_none());
    let h = world.add_body(&Vector2i::new(0, 0), &mut rbc);
    assert_eq!(rbc.handle, Some(h));
    assert_eq!(world.rigid_bodies().len(), 1);

    let h2 = world.add_body(&Vector2i::new(9999, 9999), &mut rbc);
    assert_eq!(h2, h);
    assert_eq!(world.rigid_bodies().len(), 1);
}

#[test]
fn add_body_with_entity_stamps_correlation_key() {
    let mut world = CollisionWorld::default();
    assert_eq!(world.gravity(), -9810);
    let mut rbc = RigidBodyComponent::new_kinematic_cuboid(100, 100);
    let h = world.add_body_with_entity(&Vector2i::new(0, 0), &mut rbc, 42);
    let body = world.rigid_bodies()[h as usize].as_ref().unwrap();
    assert_eq!(body.user_data, 42);
}

#[test]
fn step_applies_positions_and_publishes_batch() {
    let mut world = CollisionWorld::default();
    let mut bus = EventQueue::new();
    let r = bus.register_reader();
    let mut rbc = RigidBodyComponent::new_dynamic_cuboid(500, 500);
    let h = world.add_body(&Vector2i::new(0, 0), &mut rbc);

    let moved = vec![(h, Vector2i::new(5000, 3000))];
    let notices = vec![ContactNotice::Proximity(1, 2), ContactNotice::Contact(3, 4)];
    world.step(&mut bus, &moved, &notices);

    let body = world.rigid_bodies()[h as usize].as_ref().unwrap();
    assert_eq!(body.translation, Vector2i::new(5000, 3000));
    assert_eq!(
        bus.read(r),
        vec![GameEvent::ProximityEvent(1, 2), GameEvent::ContactEvent(3, 4)]
    );
}

#[test]
fn synchronize_copies_translation_only_when_flagged() {
    let mut world = CollisionWorld::default();
    let mut rbc = RigidBodyComponent::new_dynamic_cuboid(500, 500);
    let h = world.add_body(&Vector2i::new(0, 0), &mut rbc);
    world.set_position(h, &Vector2i::new(7000, -1000));

    let mut synced = Transform::default();
    world.sync_transform(&rbc, &mut synced);
    assert_eq!(synced.translation, Vector2i::new(7000, -1000));

    let mut unsynced = Transform::default();
    rbc.should_sync = false;
    world.sync_transform(&rbc, &mut unsynced);
    assert_eq!(unsynced.translation, Vector2i::new(0, 0));

    // a component with no cached handle is skipped, not an error
    let fresh = RigidBodyComponent::new_static_cuboid(1, 1);
    let mut untouched = Transform::default();
    world.sync_transform(&fresh, &mut untouched);
    assert_eq!(untouched.translation, Vector2i::new(0, 0));
}

#[test]
fn stale_handles_make_mutations_no_ops() {
    let mut world = CollisionWorld::default();
    let mut rbc = RigidBodyComponent::new_dynamic_cuboid(500, 500);
    let h = world.add_body_with_entity(&Vector2i::new(100, 100), &mut rbc, 9);

    world.remove_bodies_for_entity(9);
    assert!(world.rigid_bodies()[h as usize].is_none());

    world.set_velocity(h, Vector2i::new(1, 1));
    world.set_position(h, &Vector2i::new(1, 1));
    world.apply_impulse(h, Vector2i::new(1, 1));
    assert!(world.rigid_bodies()[h as usize].is_none());

    let mut t = Transform::default();
    world.sync_transform(&rbc, &mut t);
    assert_eq!(t.translation, Vector2i::new(0, 0));
}

#[test]
fn impulses_accumulate_velocity() {
    let mut world = CollisionWorld::default();
    let mut rbc = RigidBodyComponent::new_dynamic_cuboid(500, 500);
    let h = world.add_body(&Vector2i::new(0, 0), &mut rbc);
    world.apply_impulse(h, Vector2i::new(300, -100));
    world.apply_impulse(h, Vector2i::new(50, 20));
    let body = world.rigid_bodies()[h as usize].as_ref().unwrap();
    assert_eq!(body.linvel, Vector2i::new(350, -80));

    world.set_velocity(h, Vector2i::new(-7, 7));
    let body = world.rigid_bodies()[h as usize].as_ref().unwrap();
    assert_eq!(body.linvel, Vector2i::new(-7, 7));
}
