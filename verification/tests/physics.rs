// Integration of motion and the lists of overlaps.

use akari::data::{Collider, ColliderType, Collision, Components, Grounded, Position, Velocity};
use akari::ecs::Entity;
use akari::systems::physics::PhysicsSystem;
use akari::time::Time;

fn add(c: &mut Components, x: i32, y: i32, ty: ColliderType, velocity: Option<(i32, i32)>) -> Entity {
    let e = c.new_entity();
    c.positions.insert(e, Position { x, y });
    c.colliders.insert(e, Collider { w: 10_000, h: 10_000, ty });
    if let Some((vx, vy)) = velocity {
        c.velocities.insert(e, Velocity { x: vx, y: vy });
    }
    e
}

fn run(c: &mut Components, physics: &mut PhysicsSystem, fps: u32) {
    let time = Time::new(fps);
    physics.run(
        &c.velocities,
        &c.colliders,
        &mut c.previous_positions,
        &mut c.positions,
        &mut c.grounded,
        &time,
    );
}

#[test]
fn only_what_has_a_velocity_moves() {
    let mut c = Components::new();
    let moving = add(&mut c, 0, 0, ColliderType::Player, Some((600, -1_230)));
    let resting = add(&mut c, 50_000, 0, ColliderType::Player, Some((0, 0)));
    let fixed = add(&mut c, 90_000, 0, ColliderType::Environment, None);
    let placeless = c.new_entity();
    c.velocities.insert(placeless, Velocity { x: 5, y: 5 });
    c.grounded.insert(moving, Grounded);
    c.previous_positions.insert(fixed, Position { x: 1, y: 1 });
    let mut physics = PhysicsSystem::new();
    run(&mut c, &mut physics, 60);
    // 0.6 px/s and -1.23 px/s for one sixtieth of a second, toward zero
    assert_eq!(c.positions.get(moving), Some(&Position { x: 10, y: -20 }));
    assert_eq!(c.previous_positions.get(moving), Some(&Position { x: 0, y: 0 }));
    assert_eq!(c.positions.get(resting), Some(&Position { x: 50_000, y: 0 }));
    assert_eq!(c.previous_positions.get(resting), None);
    assert_eq!(c.previous_positions.get(fixed), None);
    assert_eq!(c.positions.get(placeless), None);
    assert_eq!(c.previous_positions.get(placeless), None);
    assert!(!c.grounded.contains(moving));
    let found = physics.collisions();
    assert!(found.fixed.is_empty() && found.bridge.is_empty() && found.player_damage.is_empty());
}

#[test]
fn a_velocity_too_small_for_a_unit_still_counts_as_motion() {
    let mut c = Components::new();
    let slow = add(&mut c, 7, 7, ColliderType::Player, Some((59, 0)));
    let mut physics = PhysicsSystem::new();
    run(&mut c, &mut physics, 60);
    assert_eq!(c.positions.get(slow), Some(&Position { x: 7, y: 7 }));
    assert_eq!(c.previous_positions.get(slow), Some(&Position { x: 7, y: 7 }));
}

#[test]
fn positions_saturate() {
    let mut c = Components::new();
    let e = add(&mut c, i32::MAX - 5, i32::MIN + 5, ColliderType::Player, Some((i32::MAX, i32::MIN)));
    let mut physics = PhysicsSystem::new();
    run(&mut c, &mut physics, 1);
    assert_eq!(c.positions.get(e), Some(&Position { x: i32::MAX, y: i32::MIN }));
}

#[test]
fn overlaps_are_recorded_by_kind_and_in_order() {
    let mut c = Components::new();
    // all at one place; only the players move
    let environment = add(&mut c, 0, 0, ColliderType::Environment, None);
    let first = add(&mut c, 0, 0, ColliderType::Player, Some((60, 0)));
    let bridge = add(&mut c, 0, 0, ColliderType::Bridge, None);
    let damage = add(&mut c, 0, 0, ColliderType::PlayerDamage, None);
    let second = add(&mut c, 0, 0, ColliderType::Player, Some((0, 60)));
    let camera = add(&mut c, 0, 0, ColliderType::Camera, Some((60, 60)));
    let restriction = add(&mut c, 0, 0, ColliderType::CameraRestriction, None);
    let _ = (camera, restriction);
    let mut physics = PhysicsSystem::new();
    run(&mut c, &mut physics, 60);
    let found = physics.collisions();
    // a solid stands first, a player stands first of what damages it
    assert_eq!(
        found.fixed,
        vec![Collision(environment, first), Collision(environment, second)]
    );
    assert_eq!(found.bridge, vec![Collision(bridge, first), Collision(bridge, second)]);
    assert_eq!(
        found.player_damage,
        vec![Collision(first, damage), Collision(second, damage)]
    );
}

#[test]
fn moving_solids_are_found_in_the_first_pass() {
    let mut c = Components::new();
    let player = add(&mut c, 0, 0, ColliderType::Player, Some((60, 0)));
    let resting = add(&mut c, 5_000, 0, ColliderType::Environment, None);
    let moving = add(&mut c, 0, 5_000, ColliderType::Environment, Some((0, 60)));
    let spikes = add(&mut c, 0, 0, ColliderType::PlayerDamage, Some((0, 60)));
    let mut physics = PhysicsSystem::new();
    run(&mut c, &mut physics, 60);
    let found = physics.collisions();
    // what has moved comes before what has not
    assert_eq!(found.fixed, vec![Collision(moving, player), Collision(resting, player)]);
    assert_eq!(found.player_damage, vec![Collision(player, spikes)]);
}

#[test]
fn two_entities_at_rest_are_not_tested() {
    let mut c = Components::new();
    add(&mut c, 0, 0, ColliderType::Player, Some((0, 0)));
    add(&mut c, 0, 0, ColliderType::Environment, None);
    add(&mut c, 0, 0, ColliderType::PlayerDamage, None);
    let mut physics = PhysicsSystem::new();
    run(&mut c, &mut physics, 60);
    let found = physics.collisions();
    assert!(found.fixed.is_empty() && found.bridge.is_empty() && found.player_damage.is_empty());
}

#[test]
fn lists_are_built_anew_in_each_tick() {
    let mut c = Components::new();
    let player = add(&mut c, 0, 0, ColliderType::Player, Some((60, 0)));
    let solid = add(&mut c, 5_000, 0, ColliderType::Environment, None);
    let mut physics = PhysicsSystem::new();
    run(&mut c, &mut physics, 60);
    assert_eq!(physics.collisions().fixed, vec![Collision(solid, player)]);
    run(&mut c, &mut physics, 60);
    assert_eq!(physics.collisions().fixed, vec![Collision(solid, player)]);
    c.velocities.insert(player, Velocity { x: 0, y: 0 });
    run(&mut c, &mut physics, 60);
    assert!(physics.collisions().fixed.is_empty());
}

#[test]
fn entities_without_a_collider_overlap_nothing() {
    let mut c = Components::new();
    let ghost = c.new_entity();
    c.positions.insert(ghost, Position { x: 0, y: 0 });
    c.velocities.insert(ghost, Velocity { x: 60, y: 0 });
    add(&mut c, 0, 0, ColliderType::Environment, None);
    add(&mut c, 0, 0, ColliderType::Player, None);
    let mut physics = PhysicsSystem::new();
    run(&mut c, &mut physics, 60);
    assert!(physics.collisions().fixed.is_empty());
    assert_eq!(c.positions.get(ghost), Some(&Position { x: 1, y: 0 }));
}
