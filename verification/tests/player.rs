// The state machine of the player, tick by tick.

use akari::config::{
    CameraConfig, GameConfig, GravityConfig, InputBufferConfig, InputConfig, PlayerConfig,
    WindowConfig,
};
use akari::data::{
    AnimationHandle, AnimationState, Collision, Collisions, Components, Grounded, IgnoreBridges,
    Mirrored, PlayerAnimations, PlayerState, Position, Velocity, WallCollision,
};
use akari::ecs::Entity;
use akari::environment::WorldData;
use akari::input::{Key, WindowInput};
use akari::ressources::{JumpBuffer, Ressources};
use akari::save::SaveData;
use akari::systems::player::{
    initialize_state, maybe_jump, on_player_damage, run_player, PlayerStateMachine,
};

const IDLE: AnimationHandle = AnimationHandle(10);
const RUNNING: AnimationHandle = AnimationHandle(11);
const OBSTACLE: AnimationHandle = AnimationHandle(12);
const JUMPING: AnimationHandle = AnimationHandle(13);
const START_FALLING: AnimationHandle = AnimationHandle(14);
const FALLING: AnimationHandle = AnimationHandle(15);

const LEFT: Key = Key(4);
const RIGHT: Key = Key(3);
const DOWN: Key = Key(2);

fn animations() -> PlayerAnimations {
    PlayerAnimations {
        idle: IDLE,
        running: RUNNING,
        run_into_obstacle: OBSTACLE,
        jumping: JUMPING,
        start_falling: START_FALLING,
        falling: FALLING,
    }
}

fn window() -> WindowConfig {
    WindowConfig { size: (320, 180), scale: 2, title: String::new(), icon_path: String::new() }
}

fn ressources() -> Ressources {
    let config = GameConfig {
        fps: 60,
        window: window(),
        input: InputConfig {
            up: Key(1),
            down: DOWN,
            right: RIGHT,
            left: LEFT,
            jump: Key(5),
            debug_toggle: Key(6),
            editor_tile: Key(7),
        },
        camera: CameraConfig { offset: (0, 0) },
        gravity: GravityConfig::default(),
        input_buffer: InputBufferConfig::default(),
        player: PlayerConfig::default(),
    };
    Ressources::new(
        config,
        WorldData { chunks: Vec::new() },
        SaveData { position: Position { x: 0, y: 0 } },
    )
}

fn world(state: PlayerState, velocity: Velocity, animation: AnimationHandle) -> (Components, Entity) {
    let mut c = Components::new();
    let e = c.new_entity();
    c.player_state.insert(e, state);
    c.velocities.insert(e, velocity);
    c.animations.insert(e, AnimationState { current: animation, frame: 3 });
    c.player_animations.insert(e, animations());
    (c, e)
}

fn press(r: &mut Ressources, key: Key) {
    r.input_state.update(WindowInput::KeyPressed(key), &window());
}

#[test]
fn speed_approaches_the_target_by_the_acceleration() {
    let (mut c, e) = world(PlayerState::Grounded, Velocity { x: 0, y: 0 }, IDLE);
    let mut r = ressources();
    c.grounded.insert(e, Grounded);
    press(&mut r, RIGHT);
    let collisions = Collisions::new();
    // 850 px/s^2 at 60 ticks per second: 14.166 px/s per tick
    PlayerStateMachine.run(&mut c, &mut r, &collisions);
    assert_eq!(c.velocities.get(e), Some(&Velocity { x: 14_166, y: 0 }));
    PlayerStateMachine.run(&mut c, &mut r, &collisions);
    assert_eq!(c.velocities.get(e), Some(&Velocity { x: 28_332, y: 0 }));
    // near the target the step is what is left
    c.velocities.insert(e, Velocity { x: 99_000, y: 0 });
    PlayerStateMachine.run(&mut c, &mut r, &collisions);
    assert_eq!(c.velocities.get(e), Some(&Velocity { x: 100_000, y: 0 }));
    PlayerStateMachine.run(&mut c, &mut r, &collisions);
    assert_eq!(c.velocities.get(e), Some(&Velocity { x: 100_000, y: 0 }));
}

#[test]
fn airborne_player_accelerates_less() {
    let (mut c, e) = world(PlayerState::Airborne, Velocity { x: 0, y: 50_000 }, FALLING);
    let mut r = ressources();
    press(&mut r, LEFT);
    PlayerStateMachine.run(&mut c, &mut r, &Collisions::new());
    // 250 px/s^2 at 60 ticks per second
    assert_eq!(c.velocities.get(e), Some(&Velocity { x: -4_166, y: 50_000 }));
    assert_eq!(c.player_state.get(e), Some(&PlayerState::Airborne));
    assert_eq!(c.mirrored.get(e), Some(&Mirrored));
}

#[test]
fn released_keys_brake_the_player() {
    let (mut c, e) = world(PlayerState::Grounded, Velocity { x: -20_000, y: 0 }, RUNNING);
    let mut r = ressources();
    c.grounded.insert(e, Grounded);
    c.mirrored.insert(e, Mirrored);
    PlayerStateMachine.run(&mut c, &mut r, &Collisions::new());
    assert_eq!(c.velocities.get(e), Some(&Velocity { x: -5_834, y: 0 }));
    // within the dead zone the player keeps facing the way it did
    assert!(c.mirrored.contains(e));
    // slower than the threshold of running
    assert_eq!(c.animations.get(e), Some(&AnimationState::start(IDLE)));
    PlayerStateMachine.run(&mut c, &mut r, &Collisions::new());
    assert_eq!(c.velocities.get(e), Some(&Velocity { x: 0, y: 0 }));
}

#[test]
fn both_keys_cancel_and_right_unmirrors() {
    let (mut c, e) = world(PlayerState::Grounded, Velocity { x: 0, y: 0 }, IDLE);
    let mut r = ressources();
    c.grounded.insert(e, Grounded);
    c.mirrored.insert(e, Mirrored);
    press(&mut r, LEFT);
    press(&mut r, RIGHT);
    assert_eq!(r.input_state.axis(LEFT, RIGHT), 0);
    PlayerStateMachine.run(&mut c, &mut r, &Collisions::new());
    assert_eq!(c.velocities.get(e), Some(&Velocity { x: 0, y: 0 }));
    assert!(c.mirrored.contains(e));
    r.input_state.update(WindowInput::KeyReleased(LEFT), &window());
    assert_eq!(r.input_state.axis(LEFT, RIGHT), 1000);
    PlayerStateMachine.run(&mut c, &mut r, &Collisions::new());
    assert!(!c.mirrored.contains(e));
}

#[test]
fn leaving_and_touching_the_ground() {
    let (mut c, e) = world(PlayerState::Grounded, Velocity { x: 0, y: -10_000 }, IDLE);
    let mut r = ressources();
    PlayerStateMachine.run(&mut c, &mut r, &Collisions::new());
    assert_eq!(c.player_state.get(e), Some(&PlayerState::Airborne));
    assert_eq!(c.animations.get(e), Some(&AnimationState::start(START_FALLING)));
    // still in the air: the animation goes on
    c.animations.insert(e, AnimationState { current: START_FALLING, frame: 5 });
    PlayerStateMachine.run(&mut c, &mut r, &Collisions::new());
    assert_eq!(c.player_state.get(e), Some(&PlayerState::Airborne));
    assert_eq!(c.animations.get(e), Some(&AnimationState { current: START_FALLING, frame: 5 }));
    c.grounded.insert(e, Grounded);
    PlayerStateMachine.run(&mut c, &mut r, &Collisions::new());
    assert_eq!(c.player_state.get(e), Some(&PlayerState::Grounded));
    assert_eq!(c.animations.get(e), Some(&AnimationState::start(IDLE)));
}

#[test]
fn jump_needs_the_ground_and_is_taken_once() {
    let (mut c, e) = world(PlayerState::Grounded, Velocity { x: 0, y: 0 }, IDLE);
    let mut r = ressources();
    c.grounded.insert(e, Grounded);
    r.pressed_space = Some(JumpBuffer(2));
    PlayerStateMachine.run(&mut c, &mut r, &Collisions::new());
    assert_eq!(c.player_state.get(e), Some(&PlayerState::Airborne));
    assert_eq!(c.velocities.get(e), Some(&Velocity { x: 0, y: 280_000 }));
    assert_eq!(c.animations.get(e), Some(&AnimationState::start(JUMPING)));
    assert_eq!(r.pressed_space, None);

    // in the air a pending jump waits
    let (mut c, e) = world(PlayerState::Airborne, Velocity { x: 0, y: 0 }, FALLING);
    r.pressed_space = Some(JumpBuffer(2));
    PlayerStateMachine.run(&mut c, &mut r, &Collisions::new());
    assert_eq!(c.player_state.get(e), Some(&PlayerState::Airborne));
    assert_eq!(c.velocities.get(e), Some(&Velocity { x: 0, y: 0 }));
    assert_eq!(r.pressed_space, Some(JumpBuffer(2)));

    // a player that has just left the ground does not jump, and a grounded
    // player uses up the buffer even when it holds no frame any more
    let (mut c, e) = world(PlayerState::Grounded, Velocity { x: 0, y: 0 }, IDLE);
    PlayerStateMachine.run(&mut c, &mut r, &Collisions::new());
    assert_eq!(c.player_state.get(e), Some(&PlayerState::Airborne));
    assert_eq!(c.velocities.get(e), Some(&Velocity { x: 0, y: 0 }));
    assert_eq!(r.pressed_space, Some(JumpBuffer(2)));
}

#[test]
fn first_of_two_players_takes_the_jump() {
    let (mut c, first) = world(PlayerState::Grounded, Velocity { x: 0, y: 0 }, IDLE);
    let second = c.new_entity();
    c.player_state.insert(second, PlayerState::Grounded);
    c.velocities.insert(second, Velocity { x: 0, y: 0 });
    c.animations.insert(second, AnimationState::start(IDLE));
    c.player_animations.insert(second, animations());
    c.grounded.insert(first, Grounded);
    c.grounded.insert(second, Grounded);
    let mut r = ressources();
    r.pressed_space = Some(JumpBuffer(0));
    PlayerStateMachine.run(&mut c, &mut r, &Collisions::new());
    assert_eq!(c.player_state.get(first), Some(&PlayerState::Airborne));
    assert_eq!(c.player_state.get(second), Some(&PlayerState::Grounded));
    assert_eq!(c.velocities.get(second), Some(&Velocity { x: 0, y: 0 }));
}

#[test]
fn jump_animation_turns_into_the_start_of_a_fall() {
    let (mut c, e) = world(PlayerState::Airborne, Velocity { x: 0, y: 1 }, JUMPING);
    let mut r = ressources();
    PlayerStateMachine.run(&mut c, &mut r, &Collisions::new());
    assert_eq!(c.animations.get(e), Some(&AnimationState { current: JUMPING, frame: 3 }));
    c.velocities.insert(e, Velocity { x: 0, y: 0 });
    PlayerStateMachine.run(&mut c, &mut r, &Collisions::new());
    assert_eq!(c.animations.get(e), Some(&AnimationState::start(START_FALLING)));
    c.animations.insert(e, AnimationState { current: JUMPING, frame: 1 });
    c.velocities.insert(e, Velocity { x: 0, y: -1 });
    PlayerStateMachine.run(&mut c, &mut r, &Collisions::new());
    assert_eq!(c.animations.get(e), Some(&AnimationState::start(START_FALLING)));
}

#[test]
fn grounded_animation_follows_speed_and_walls() {
    let (mut c, e) = world(PlayerState::Grounded, Velocity { x: 100_000, y: 0 }, IDLE);
    let mut r = ressources();
    c.grounded.insert(e, Grounded);
    press(&mut r, RIGHT);
    PlayerStateMachine.run(&mut c, &mut r, &Collisions::new());
    assert_eq!(c.animations.get(e), Some(&AnimationState::start(RUNNING)));
    // the animation that runs is not started again
    c.animations.insert(e, AnimationState { current: RUNNING, frame: 7 });
    PlayerStateMachine.run(&mut c, &mut r, &Collisions::new());
    assert_eq!(c.animations.get(e), Some(&AnimationState { current: RUNNING, frame: 7 }));
    // stopped by a wall
    c.velocities.insert(e, Velocity { x: 0, y: 0 });
    c.wall_collisions.insert(e, WallCollision::Left);
    PlayerStateMachine.run(&mut c, &mut r, &Collisions::new());
    assert_eq!(c.velocities.get(e), Some(&Velocity { x: 14_166, y: 0 }));
    assert_eq!(c.animations.get(e), Some(&AnimationState::start(OBSTACLE)));
    // the wall is gone
    c.velocities.insert(e, Velocity { x: 0, y: 0 });
    c.wall_collisions.remove(e);
    c.animations.insert(e, AnimationState { current: OBSTACLE, frame: 2 });
    PlayerStateMachine.run(&mut c, &mut r, &Collisions::new());
    assert_eq!(c.animations.get(e), Some(&AnimationState::start(IDLE)));
}

#[test]
fn running_starts_at_the_threshold() {
    for (speed, expected) in [(14_999, IDLE), (15_000, RUNNING), (-15_000, RUNNING)] {
        let (mut c, e) = world(PlayerState::Grounded, Velocity { x: speed, y: 0 }, IDLE);
        let mut r = ressources();
        c.grounded.insert(e, Grounded);
        r.config.player.grounded_acceleration = 0;
        r.config.player.movement_speed = 0;
        PlayerStateMachine.run(&mut c, &mut r, &Collisions::new());
        assert_eq!(c.velocities.get(e), Some(&Velocity { x: speed, y: 0 }));
        let shown = c.animations.get(e).map(|a| a.current);
        assert_eq!(shown, Some(expected));
    }
}

#[test]
fn down_key_drops_through_bridges() {
    let (mut c, e) = world(PlayerState::Grounded, Velocity { x: 0, y: 0 }, IDLE);
    let mut r = ressources();
    c.grounded.insert(e, Grounded);
    press(&mut r, DOWN);
    PlayerStateMachine.run(&mut c, &mut r, &Collisions::new());
    assert_eq!(c.ignore_bridges.get(e), Some(&IgnoreBridges));
    r.input_state.update(WindowInput::KeyReleased(DOWN), &window());
    PlayerStateMachine.run(&mut c, &mut r, &Collisions::new());
    assert_eq!(c.ignore_bridges.get(e), None);
}

#[test]
fn dead_and_dying_players_are_left_alone() {
    for state in [PlayerState::Dying, PlayerState::Dead] {
        let (mut c, e) = world(state, Velocity { x: 30_000, y: 40_000 }, FALLING);
        let mut r = ressources();
        press(&mut r, LEFT);
        press(&mut r, DOWN);
        r.pressed_space = Some(JumpBuffer(1));
        c.grounded.insert(e, Grounded);
        let mut collisions = Collisions::new();
        collisions.player_damage.push(Collision(e, Entity(9)));
        PlayerStateMachine.run(&mut c, &mut r, &collisions);
        assert_eq!(c.player_state.get(e), Some(&state));
        assert_eq!(c.velocities.get(e), Some(&Velocity { x: 30_000, y: 40_000 }));
        assert_eq!(c.animations.get(e), Some(&AnimationState { current: FALLING, frame: 3 }));
        assert!(!c.mirrored.contains(e));
        assert!(!c.ignore_bridges.contains(e));
        assert_eq!(r.pressed_space, Some(JumpBuffer(1)));
        assert_eq!(r.fadeout, None);
        assert!(r.delayed_actions.is_empty());
    }
}

#[test]
fn damage_in_the_air_keeps_the_fall() {
    let (mut c, e) = world(PlayerState::Airborne, Velocity { x: -30_000, y: -40_000 }, FALLING);
    let mut r = ressources();
    let mut collisions = Collisions::new();
    collisions.player_damage.push(Collision(Entity(7), e));
    // the player is the second of the pair: this is no damage to it
    PlayerStateMachine.run(&mut c, &mut r, &collisions);
    assert_eq!(c.player_state.get(e), Some(&PlayerState::Airborne));
    collisions.player_damage.push(Collision(e, Entity(7)));
    c.velocities.insert(e, Velocity { x: -30_000, y: -40_000 });
    PlayerStateMachine.run(&mut c, &mut r, &collisions);
    assert_eq!(c.player_state.get(e), Some(&PlayerState::Dying));
    assert_eq!(c.velocities.get(e), Some(&Velocity { x: 0, y: -40_000 }));
}

#[test]
fn entity_without_all_parts_is_no_player() {
    let mut c = Components::new();
    let e = c.new_entity();
    c.player_state.insert(e, PlayerState::Grounded);
    c.velocities.insert(e, Velocity { x: 5, y: 5 });
    // no animation and no set of animations
    let mut r = ressources();
    run_player(e, &mut c, &mut r, &Collisions::new());
    assert_eq!(c.player_state.get(e), Some(&PlayerState::Grounded));
    assert_eq!(c.velocities.get(e), Some(&Velocity { x: 5, y: 5 }));
}

#[test]
fn helpers_of_the_machine() {
    let damage = vec![Collision(Entity(1), Entity(2)), Collision(Entity(3), Entity(2))];
    assert_eq!(on_player_damage(Entity(3), &damage), Some(PlayerState::Dying));
    assert_eq!(on_player_damage(Entity(2), &damage), None);
    assert_eq!(on_player_damage(Entity(0), &Vec::new()), None);

    let mut space = Some(JumpBuffer(0));
    assert!(maybe_jump(&mut space));
    assert_eq!(space, None);
    assert!(!maybe_jump(&mut space));

    let mut c = Components::new();
    let mut r = ressources();
    let mut velocity = Velocity { x: 9, y: 9 };
    let mut animation = AnimationState { current: RUNNING, frame: 4 };
    initialize_state(
        PlayerState::Dead,
        Entity(0),
        &mut velocity,
        &mut animation,
        &animations(),
        &mut c.ignore_bridges,
        &mut r.fadeout,
        &mut r.delayed_actions,
    );
    assert_eq!(velocity, Velocity { x: 9, y: 9 });
    assert_eq!(animation, AnimationState { current: RUNNING, frame: 4 });
    assert_eq!(r.fadeout, None);
    initialize_state(
        PlayerState::Airborne,
        Entity(0),
        &mut velocity,
        &mut animation,
        &animations(),
        &mut c.ignore_bridges,
        &mut r.fadeout,
        &mut r.delayed_actions,
    );
    assert_eq!(animation, AnimationState::start(START_FALLING));
}
