use nbody::phase::{tick_phases, PhysicsSystem};

#[test]
fn tick_runs_acceleration_velocity_movement() {
    assert_eq!(
        tick_phases(),
        vec![
            PhysicsSystem::UpdateAcceleration,
            PhysicsSystem::UpdateVelocity,
            PhysicsSystem::Movement
        ]
    );
}

#[test]
fn phases_chain_from_first_to_last() {
    let mut p = PhysicsSystem::first();
    assert_eq!(p, PhysicsSystem::UpdateAcceleration);
    p = p.next().unwrap();
    assert_eq!(p, PhysicsSystem::UpdateVelocity);
    p = p.next().unwrap();
    assert_eq!(p, PhysicsSystem::Movement);
    assert_eq!(p.next(), None);
}

#[test]
fn velocity_waits_for_acceleration_and_movement_for_velocity() {
    let a = PhysicsSystem::UpdateAcceleration;
    let v = PhysicsSystem::UpdateVelocity;
    let m = PhysicsSystem::Movement;
    assert!(v.runs_after(&a));
    assert!(m.runs_after(&v));
    assert!(m.runs_after(&a));
    assert!(!a.runs_after(&v));
    assert!(!v.runs_after(&m));
    assert!(!a.runs_after(&a));
}
