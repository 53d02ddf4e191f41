// One tick of the collision pipeline and of the player, on small worlds.

use akari::config::{GameConfig, CameraConfig, GravityConfig, InputBufferConfig, InputConfig, PlayerConfig, WindowConfig};
use akari::data::{
    AnimationHandle, AnimationState, Collider, ColliderType, Collision, Collisions, Components,
    Grounded, IgnoreBridges, PlayerAnimations, PlayerState, Position, Velocity, WallCollision,
};
use akari::ecs::Entity;
use akari::environment::WorldData;
use akari::input::{InputEvent, Key, WindowInput};
use akari::ressources::{Action, DelayedAction, Fadeout, JumpBuffer, Ressources};
use akari::save::SaveData;
use akari::systems::bridge_collision::BridgeCollisionSystem;
use akari::systems::fixed_collision::{resolution_for, FixedCollisionSystem, Resolution};
use akari::systems::input_buffer::InputBufferSystem;
use akari::systems::physics::PhysicsSystem;
use akari::systems::player::PlayerStateMachine;
use akari::time::Time;

const U: i32 = 1000;

fn animations() -> PlayerAnimations {
    PlayerAnimations {
        idle: AnimationHandle(0),
        running: AnimationHandle(1),
        run_into_obstacle: AnimationHandle(2),
        jumping: AnimationHandle(3),
        start_falling: AnimationHandle(4),
        falling: AnimationHandle(5),
    }
}

fn input_config() -> InputConfig {
    InputConfig {
        up: Key(1),
        down: Key(2),
        right: Key(3),
        left: Key(4),
        jump: Key(5),
        debug_toggle: Key(6),
        editor_tile: Key(7),
    }
}

fn ressources() -> Ressources {
    let config = GameConfig {
        fps: 60,
        window: WindowConfig {
            size: (320, 180),
            scale: 2,
            title: String::from("akari"),
            icon_path: String::from("icon.png"),
        },
        input: input_config(),
        camera: CameraConfig { offset: (0, 0) },
        gravity: GravityConfig::default(),
        input_buffer: InputBufferConfig::default(),
        player: PlayerConfig::default(),
    };
    Ressources::new(
        config,
        WorldData { chunks: Vec::new() },
        SaveData { position: Position { x: 50 * U, y: 100 * U } },
    )
}

fn add_player(c: &mut Components, x: i32, y: i32, vx: i32, vy: i32) -> Entity {
    let e = c.new_entity();
    c.positions.insert(e, Position { x, y });
    c.colliders.insert(e, Collider { w: 7 * U as u32, h: 15 * U as u32, ty: ColliderType::Player });
    c.velocities.insert(e, Velocity { x: vx, y: vy });
    c.player_state.insert(e, PlayerState::Grounded);
    c.player_animations.insert(e, animations());
    c.animations.insert(e, AnimationState::start(animations().idle));
    e
}

fn add_box(c: &mut Components, x: i32, y: i32, w: i32, h: i32, ty: ColliderType) -> Entity {
    let e = c.new_entity();
    c.positions.insert(e, Position { x, y });
    c.colliders.insert(e, Collider { w: w as u32, h: h as u32, ty });
    e
}

/// Physics, bridge filter and resolver, as one tick runs them.
fn collide(c: &mut Components, physics: &mut PhysicsSystem, time: &Time) {
    let collisions = physics.run(
        &c.velocities,
        &c.colliders,
        &mut c.previous_positions,
        &mut c.positions,
        &mut c.grounded,
        time,
    );
    BridgeCollisionSystem.run(
        &c.positions,
        &c.previous_positions,
        &c.colliders,
        &c.ignore_bridges,
        collisions,
    );
    FixedCollisionSystem::new().run(
        &mut c.positions,
        &c.previous_positions,
        &mut c.grounded,
        &mut c.wall_collisions,
        &mut c.velocities,
        &c.colliders,
        collisions,
    );
}

#[test]
fn player_lands_on_solid() {
    let mut c = Components::new();
    let player = add_player(&mut c, 50 * U, 100 * U, 0, -50 * U);
    let solid = add_box(&mut c, 40 * U, 95 * U, 40 * U, 5 * U, ColliderType::Environment);
    let mut physics = PhysicsSystem::new();
    let time = Time::new(60);
    collide(&mut c, &mut physics, &time);
    assert_eq!(physics.collisions().fixed, vec![Collision(solid, player)]);
    assert_eq!(c.positions.get(player), Some(&Position { x: 50 * U, y: 100 * U }));
    assert_eq!(c.velocities.get(player), Some(&Velocity { x: 0, y: 0 }));
    assert_eq!(c.grounded.get(player), Some(&Grounded));
    assert_eq!(c.previous_positions.get(player), Some(&Position { x: 50 * U, y: 100 * U }));
}

#[test]
fn grounded_is_lost_without_a_new_landing() {
    let mut c = Components::new();
    let player = add_player(&mut c, 50 * U, 100 * U, 0, -50 * U);
    add_box(&mut c, 40 * U, 95 * U, 40 * U, 5 * U, ColliderType::Environment);
    let mut physics = PhysicsSystem::new();
    let time = Time::new(60);
    collide(&mut c, &mut physics, &time);
    assert!(c.grounded.contains(player));
    // the player rests: nothing moves it into the solid again
    collide(&mut c, &mut physics, &time);
    assert!(!c.grounded.contains(player));
    assert!(physics.collisions().fixed.is_empty());
}

#[test]
fn bridge_from_below_is_passed() {
    let mut c = Components::new();
    // the feet of the player were below the upper border of the bridge
    let player = add_player(&mut c, 50 * U, 100 * U, -60 * U, 120 * U);
    let bridge = add_box(&mut c, 40 * U, 110 * U, 20 * U, 20 * U, ColliderType::Bridge);
    let mut physics = PhysicsSystem::new();
    let time = Time::new(60);
    let collisions = physics.run(
        &c.velocities,
        &c.colliders,
        &mut c.previous_positions,
        &mut c.positions,
        &mut c.grounded,
        &time,
    );
    assert_eq!(collisions.bridge, vec![Collision(bridge, player)]);
    BridgeCollisionSystem.run(
        &c.positions,
        &c.previous_positions,
        &c.colliders,
        &c.ignore_bridges,
        collisions,
    );
    assert!(collisions.bridge.is_empty());
    assert!(collisions.fixed.is_empty());
    FixedCollisionSystem::new().run(
        &mut c.positions,
        &c.previous_positions,
        &mut c.grounded,
        &mut c.wall_collisions,
        &mut c.velocities,
        &c.colliders,
        collisions,
    );
    assert_eq!(c.positions.get(player), Some(&Position { x: 49 * U, y: 102 * U }));
    assert!(!c.grounded.contains(player));
}

#[test]
fn bridge_from_above_is_solid_unless_ignored() {
    let mut c = Components::new();
    let player = add_player(&mut c, 50 * U, 130 * U, 0, -60 * U);
    let bridge = add_box(&mut c, 40 * U, 110 * U, 20 * U, 20 * U, ColliderType::Bridge);
    let mut physics = PhysicsSystem::new();
    let time = Time::new(60);
    collide(&mut c, &mut physics, &time);
    assert_eq!(physics.collisions().fixed, vec![Collision(bridge, player)]);
    assert_eq!(c.positions.get(player), Some(&Position { x: 50 * U, y: 130 * U }));
    assert!(c.grounded.contains(player));

    c.velocities.insert(player, Velocity { x: 0, y: -60 * U });
    c.ignore_bridges.insert(player, IgnoreBridges);
    collide(&mut c, &mut physics, &time);
    assert!(physics.collisions().fixed.is_empty());
    assert_eq!(c.positions.get(player), Some(&Position { x: 50 * U, y: 129 * U }));
    assert!(!c.grounded.contains(player));
}

#[test]
fn higher_of_two_tiles_is_chosen() {
    let mut c = Components::new();
    let player = add_player(&mut c, 18 * U, 25 * U, 0, -600 * U);
    let low = add_box(&mut c, 0, 0, 20 * U, 20 * U, ColliderType::Environment);
    let high = add_box(&mut c, 20 * U, 0, 20 * U, 22 * U, ColliderType::Environment);
    let mut physics = PhysicsSystem::new();
    let time = Time::new(60);
    let collisions = physics.run(
        &c.velocities,
        &c.colliders,
        &mut c.previous_positions,
        &mut c.positions,
        &mut c.grounded,
        &time,
    );
    assert_eq!(collisions.fixed, vec![Collision(low, player), Collision(high, player)]);
    let resolution = resolution_for(
        player,
        &collisions.fixed,
        &c.positions,
        &c.previous_positions,
        &c.colliders,
        &c.velocities,
    );
    assert_eq!(
        resolution,
        Resolution::Single { direction: akari::data::CollisionDirection::Above, solid: high }
    );
    FixedCollisionSystem::new().run(
        &mut c.positions,
        &c.previous_positions,
        &mut c.grounded,
        &mut c.wall_collisions,
        &mut c.velocities,
        &c.colliders,
        collisions,
    );
    assert_eq!(c.positions.get(player), Some(&Position { x: 18 * U, y: 22 * U }));
    assert!(c.grounded.contains(player));
}

#[test]
fn equal_borders_go_to_the_lower_identifier() {
    for swap in [false, true] {
        let mut c = Components::new();
        let player = add_player(&mut c, 18 * U, 25 * U, 0, -600 * U);
        let first = add_box(&mut c, 0, 0, 20 * U, 20 * U, ColliderType::Environment);
        let second = add_box(&mut c, 20 * U, 0, 20 * U, 20 * U, ColliderType::Environment);
        c.previous_positions.insert(player, Position { x: 18 * U, y: 25 * U });
        c.positions.insert(player, Position { x: 18 * U, y: 15 * U });
        let fixed = if swap {
            vec![Collision(second, player), Collision(first, player)]
        } else {
            vec![Collision(first, player), Collision(second, player)]
        };
        let resolution = resolution_for(
            player,
            &fixed,
            &c.positions,
            &c.previous_positions,
            &c.colliders,
            &c.velocities,
        );
        assert_eq!(
            resolution,
            Resolution::Single { direction: akari::data::CollisionDirection::Above, solid: first }
        );
    }
}

#[test]
fn damage_kills_a_grounded_player() {
    let mut c = Components::new();
    let mut r = ressources();
    let player = add_player(&mut c, 0, 0, 30 * U, 12 * U);
    let spike = add_box(&mut c, 0, 0, 20 * U, 10 * U, ColliderType::PlayerDamage);
    c.grounded.insert(player, Grounded);
    c.ignore_bridges.insert(player, IgnoreBridges);
    let mut collisions = Collisions::new();
    collisions.player_damage.push(Collision(player, spike));
    PlayerStateMachine.run(&mut c, &mut r, &collisions);
    assert_eq!(c.player_state.get(player), Some(&PlayerState::Dying));
    assert_eq!(c.velocities.get(player), Some(&Velocity { x: 0, y: 0 }));
    assert!(!c.ignore_bridges.contains(player));
    assert_eq!(r.fadeout, Some(Fadeout { current: 0, frames_left: 40 }));
    assert_eq!(
        r.delayed_actions,
        vec![DelayedAction { frames_left: 40, action: Action::ResetWorld }]
    );

    // a falling player keeps falling, and a dying player stays as it is
    c.velocities.insert(player, Velocity { x: 7, y: -9 });
    PlayerStateMachine.run(&mut c, &mut r, &collisions);
    assert_eq!(c.player_state.get(player), Some(&PlayerState::Dying));
    assert_eq!(c.velocities.get(player), Some(&Velocity { x: 7, y: -9 }));
    assert_eq!(r.delayed_actions.len(), 1);
}

#[test]
fn buffered_jump_is_taken_on_the_ground() {
    let mut c = Components::new();
    let mut r = ressources();
    let player = add_player(&mut c, 0, 0, 0, 0);
    let window = WindowConfig {
        size: (320, 180),
        scale: 2,
        title: String::new(),
        icon_path: String::new(),
    };
    r.input_state.update(WindowInput::KeyPressed(Key(5)), &window);
    assert_eq!(r.input_state.events(), &vec![InputEvent::KeyDown(Key(5))]);
    let mut buffer = InputBufferSystem;
    buffer.run(r.input_state.events(), &mut r.pressed_space, &r.config.input_buffer, &r.config.input);
    assert_eq!(r.pressed_space, Some(JumpBuffer(3)));
    r.input_state.clear_events();

    // airborne for two frames: the jump stays pending
    c.player_state.insert(player, PlayerState::Airborne);
    let collisions = Collisions::new();
    for left in [2u8, 1] {
        buffer.run(
            r.input_state.events(),
            &mut r.pressed_space,
            &r.config.input_buffer,
            &r.config.input,
        );
        assert_eq!(r.pressed_space, Some(JumpBuffer(left)));
        PlayerStateMachine.run(&mut c, &mut r, &collisions);
        assert_eq!(c.player_state.get(player), Some(&PlayerState::Airborne));
    }
    // it lands within the window
    c.grounded.insert(player, Grounded);
    buffer.run(r.input_state.events(), &mut r.pressed_space, &r.config.input_buffer, &r.config.input);
    assert_eq!(r.pressed_space, Some(JumpBuffer(0)));
    PlayerStateMachine.run(&mut c, &mut r, &collisions);
    assert_eq!(c.player_state.get(player), Some(&PlayerState::Airborne));
    assert_eq!(c.velocities.get(player), Some(&Velocity { x: 0, y: 280 * U }));
    assert_eq!(c.animations.get(player), Some(&AnimationState::start(AnimationHandle(3))));
    assert_eq!(r.pressed_space, None);
}

#[test]
fn jump_buffer_runs_out() {
    let mut space = Some(JumpBuffer(1));
    let mut buffer = InputBufferSystem;
    let events = Vec::new();
    buffer.run(&events, &mut space, &InputBufferConfig::default(), &input_config());
    assert_eq!(space, Some(JumpBuffer(0)));
    buffer.run(&events, &mut space, &InputBufferConfig::default(), &input_config());
    assert_eq!(space, None);
}

#[test]
fn wall_is_recorded_and_speed_inherited() {
    let mut c = Components::new();
    // the player runs to the right into a wall that itself moves
    let player = add_player(&mut c, 0, 0, 120 * U, 0);
    let wall = add_box(&mut c, 8 * U, -10 * U, 20 * U, 40 * U, ColliderType::Environment);
    c.velocities.insert(wall, Velocity { x: -6 * U, y: 3 * U });
    let mut physics = PhysicsSystem::new();
    let time = Time::new(60);
    collide(&mut c, &mut physics, &time);
    // the wall has moved by -0.1 px, the player is put against its left border
    assert_eq!(c.positions.get(wall), Some(&Position { x: 7_900, y: -9_950 }));
    assert_eq!(c.positions.get(player), Some(&Position { x: 900, y: 0 }));
    assert_eq!(c.velocities.get(player), Some(&Velocity { x: -6 * U, y: 0 }));
    assert_eq!(c.wall_collisions.get(player), Some(&WallCollision::Left));
    assert!(!c.grounded.contains(player));
}

/// A world of one player that has moved from `from` to `to`.
fn moved_player(from: (i32, i32), to: (i32, i32), velocity: (i32, i32)) -> (Components, Entity) {
    let mut c = Components::new();
    let player = add_player(&mut c, to.0, to.1, velocity.0, velocity.1);
    c.previous_positions.insert(player, Position { x: from.0, y: from.1 });
    (c, player)
}

fn resolve(c: &mut Components, fixed: Vec<Collision>) -> Vec<(Entity, Resolution)> {
    let mut collisions = Collisions::new();
    collisions.fixed = fixed;
    FixedCollisionSystem::new().run(
        &mut c.positions,
        &c.previous_positions,
        &mut c.grounded,
        &mut c.wall_collisions,
        &mut c.velocities,
        &c.colliders,
        &collisions,
    )
}

#[test]
fn floor_and_wall_are_resolved_by_axis() {
    let (mut c, player) = moved_player((30 * U, 22 * U), (35 * U, 18 * U), (300 * U, -240 * U));
    let floor = add_box(&mut c, 0, 0, 40 * U, 20 * U, ColliderType::Environment);
    let wall = add_box(&mut c, 40 * U, 20 * U, 20 * U, 40 * U, ColliderType::Environment);
    let fixed = vec![Collision(wall, player), Collision(floor, player)];
    let resolution = resolution_for(
        player,
        &fixed,
        &c.positions,
        &c.previous_positions,
        &c.colliders,
        &c.velocities,
    );
    assert_eq!(
        resolution,
        Resolution::Split {
            vertical: akari::data::CollisionDirection::Above,
            vertical_solid: floor,
            horizontal: akari::data::CollisionDirection::Left,
            horizontal_solid: wall,
        }
    );
    c.wall_collisions.insert(Entity(9), WallCollision::Right);
    assert!(resolve(&mut c, fixed).is_empty());
    assert_eq!(c.positions.get(player), Some(&Position { x: 33 * U, y: 20 * U }));
    assert_eq!(c.velocities.get(player), Some(&Velocity { x: 0, y: 0 }));
    assert!(c.grounded.contains(player));
    assert_eq!(c.wall_collisions.get(player), Some(&WallCollision::Left));
    // the walls of the last tick are forgotten
    assert_eq!(c.wall_collisions.get(Entity(9)), None);
}

#[test]
fn pinched_entity_stays_where_it_is() {
    let (mut c, player) = moved_player((0, 20 * U), (0, 19 * U), (0, -60 * U));
    let floor = add_box(&mut c, 0, 0, 40 * U, 20 * U, ColliderType::Environment);
    // a ceiling that comes down faster than the player falls
    let ceiling = add_box(&mut c, 0, 26 * U, 40 * U, 10 * U, ColliderType::Environment);
    c.previous_positions.insert(ceiling, Position { x: 0, y: 36 * U });
    c.velocities.insert(ceiling, Velocity { x: 0, y: -600 * U });
    let fixed = vec![Collision(floor, player), Collision(ceiling, player)];
    let unresolved = resolve(&mut c, fixed);
    assert_eq!(unresolved, vec![(player, Resolution::Squashed)]);
    assert_eq!(c.positions.get(player), Some(&Position { x: 0, y: 19 * U }));
    assert_eq!(c.velocities.get(player), Some(&Velocity { x: 0, y: -60 * U }));
    assert!(!c.grounded.contains(player));
}

#[test]
fn entity_inside_of_a_collider_stays_where_it_is() {
    let (mut c, player) = moved_player((5 * U, 5 * U), (5 * U, 4 * U), (0, -60 * U));
    let block = add_box(&mut c, 0, 0, 40 * U, 20 * U, ColliderType::Environment);
    let unresolved = resolve(&mut c, vec![Collision(block, player)]);
    assert_eq!(unresolved, vec![(player, Resolution::Inside)]);
    assert_eq!(c.positions.get(player), Some(&Position { x: 5 * U, y: 4 * U }));
}

#[test]
fn velocity_of_the_solid_is_taken_over_exactly() {
    // the head of the player hits a platform that sinks
    let (mut c, player) = moved_player((0, 0), (0, 6 * U), (30 * U, 360 * U));
    let platform = add_box(&mut c, 0, 15 * U, 40 * U, 5 * U, ColliderType::Environment);
    c.velocities.insert(platform, Velocity { x: 11, y: -7_777 });
    assert!(resolve(&mut c, vec![Collision(platform, player)]).is_empty());
    assert_eq!(c.positions.get(player), Some(&Position { x: 0, y: 0 }));
    assert_eq!(c.velocities.get(player), Some(&Velocity { x: 30 * U, y: -7_777 }));
    assert!(!c.grounded.contains(player));
    assert!(!c.wall_collisions.contains(player));
}

#[test]
fn entities_are_resolved_in_the_order_of_their_first_collision() {
    let mut c = Components::new();
    let first = add_player(&mut c, 0, 18 * U, 0, -120 * U);
    let second = add_player(&mut c, 20 * U, 18 * U, 0, -120 * U);
    c.previous_positions.insert(first, Position { x: 0, y: 20 * U });
    c.previous_positions.insert(second, Position { x: 20 * U, y: 20 * U });
    let floor = add_box(&mut c, 0, 0, 40 * U, 20 * U, ColliderType::Environment);
    let damage = add_box(&mut c, 0, 0, 40 * U, 20 * U, ColliderType::PlayerDamage);
    let fixed = vec![
        Collision(floor, second),
        Collision(damage, first),
        Collision(floor, second),
    ];
    assert!(resolve(&mut c, fixed).is_empty());
    assert_eq!(c.positions.get(first), Some(&Position { x: 0, y: 20 * U }));
    assert_eq!(c.positions.get(second), Some(&Position { x: 20 * U, y: 20 * U }));
    // what is no terrain does not ground
    assert!(!c.grounded.contains(first));
    assert!(c.grounded.contains(second));
}

#[test]
fn far_positions_saturate() {
    let (mut c, player) = moved_player((0, i32::MAX), (0, i32::MAX - 5), (0, -60 * U));
    let floor = c.new_entity();
    c.positions.insert(floor, Position { x: 0, y: i32::MAX });
    c.colliders.insert(floor, Collider { w: 10, h: u32::MAX, ty: ColliderType::Environment });
    c.velocities.insert(floor, Velocity { x: 0, y: -90 * U });
    // relative to the floor the player rises and was below its upper border
    assert_eq!(
        resolve(&mut c, vec![Collision(floor, player)]),
        vec![(player, Resolution::Inside)]
    );
    c.previous_positions.insert(player, Position { x: 0, y: i32::MIN });
    c.velocities.insert(player, Velocity { x: 0, y: 0 });
    assert!(resolve(&mut c, vec![Collision(floor, player)]).is_empty());
    // put below the floor: i32::MAX less the height of the player
    assert_eq!(c.positions.get(player), Some(&Position { x: 0, y: i32::MAX - 15 * U }));
}
