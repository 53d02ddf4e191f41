// Whole frames of the game and of the editor, and the first entities.

use akari::animation::{Animation, AnimationStorage};
use akari::config::{
    CameraConfig, GameConfig, GravityConfig, InputBufferConfig, InputConfig, PlayerConfig,
    WindowConfig,
};
use akari::data::{
    AnimationHandle, AnimationState, Camera, Collider, ColliderType, Collision, Components, Depth,
    Gravity, Grounded, PlayerAnimations, PlayerState, Position, SpriteNumber, Velocity,
};
use akari::ecs::Entity;
use akari::environment::chunk::{ChunkData, Tile};
use akari::environment::WorldData;
use akari::game_frame;
use akari::init;
use akari::input::{Key, MouseButton, WindowInput};
use akari::ressources::{Action, Fadeout, JumpBuffer, Ressources};
use akari::save::SaveData;
use akari::systems::camera::only_entity;
use akari::systems::editor::{tile_on_click, EditorOutcome, EditorSystem};
use akari::systems::Systems;

const U: i32 = 1000;

fn window() -> WindowConfig {
    WindowConfig { size: (320, 180), scale: 1, title: String::new(), icon_path: String::new() }
}

fn ressources() -> Ressources {
    let config = GameConfig {
        fps: 60,
        window: window(),
        input: InputConfig {
            up: Key(1),
            down: Key(2),
            right: Key(3),
            left: Key(4),
            jump: Key(5),
            debug_toggle: Key(6),
            editor_tile: Key(7),
        },
        camera: CameraConfig { offset: (-160 * U, -90 * U) },
        gravity: GravityConfig::default(),
        input_buffer: InputBufferConfig::default(),
        player: PlayerConfig::default(),
    };
    Ressources::new(
        config,
        WorldData { chunks: Vec::new() },
        SaveData { position: Position { x: 50 * U, y: 100 * U } },
    )
}

fn animations(storage: &mut AnimationStorage) -> PlayerAnimations {
    let mut one = |sprite: usize| {
        let h = storage.insert(Animation {
            frames: vec![SpriteNumber(sprite), SpriteNumber(sprite + 100)],
            next: AnimationHandle(0),
        });
        storage.set_next(h, h);
        h
    };
    PlayerAnimations {
        idle: one(0),
        running: one(1),
        run_into_obstacle: one(2),
        jumping: one(3),
        start_falling: one(4),
        falling: one(5),
    }
}

#[test]
fn first_entities() {
    let mut c = Components::new();
    let r = ressources();
    let mut storage = AnimationStorage::new();
    let a = animations(&mut storage);
    let player = init::player(&mut c, &r, a);
    let camera = init::camera(&mut c, &r);
    assert_eq!((player, camera), (Entity(0), Entity(1)));
    assert_eq!(c.positions.get(player), Some(&Position { x: 50 * U, y: 100 * U }));
    assert_eq!(
        c.colliders.get(player),
        Some(&Collider { w: 7_000, h: 15_000, ty: ColliderType::Player })
    );
    assert_eq!(c.velocities.get(player), Some(&Velocity { x: 0, y: 0 }));
    assert_eq!(c.gravity.get(player), Some(&Gravity));
    assert_eq!(c.player_state.get(player), Some(&PlayerState::Grounded));
    assert_eq!(c.depths.get(player), Some(&Depth::Player));
    assert_eq!(c.animations.get(player), Some(&AnimationState::start(a.idle)));
    assert_eq!(c.player_animations.get(player), Some(&a));

    assert_eq!(c.cameras.get(camera), Some(&Camera));
    assert_eq!(c.positions.get(camera), Some(&Position { x: 0, y: 0 }));
    assert_eq!(c.velocities.get(camera), Some(&Velocity { x: 0, y: 0 }));
    assert_eq!(
        c.colliders.get(camera),
        Some(&Collider { w: 320_000, h: 180_000, ty: ColliderType::Camera })
    );
    assert_eq!(c.gravity.get(camera), None);
    assert_eq!(only_entity(&c.cameras, &c.positions), Some(camera));
}

#[test]
fn a_view_wider_than_the_numbers_reach() {
    let mut c = Components::new();
    let mut r = ressources();
    r.config.window.size = (u32::MAX, 4_294_968);
    let camera = init::camera(&mut c, &r);
    assert_eq!(
        c.colliders.get(camera),
        Some(&Collider { w: u32::MAX, h: u32::MAX, ty: ColliderType::Camera })
    );
    r.config.window.size = (4_294_967, 0);
    let camera = init::camera(&mut c, &r);
    assert_eq!(
        c.colliders.get(camera),
        Some(&Collider { w: 4_294_967_000, h: 0, ty: ColliderType::Camera })
    );
}

#[test]
fn a_player_falls_onto_the_ground_and_jumps() {
    let mut s = Systems::new();
    let mut c = Components::new();
    let mut r = ressources();
    let mut storage = AnimationStorage::new();
    let a = animations(&mut storage);
    let player = init::player(&mut c, &r, a);
    let camera = init::camera(&mut c, &r);
    // a floor right under the feet of the player
    let floor = c.new_entity();
    c.positions.insert(floor, Position { x: 0, y: 80 * U });
    c.colliders.insert(floor, Collider { w: 200_000, h: 20_000, ty: ColliderType::Environment });

    let outcome = game_frame(&mut s, &mut c, &mut r, &storage);
    assert!(outcome.camera_follows);
    assert!(outcome.actions.is_empty());
    assert_eq!(
        outcome.missing_chunks,
        Some(vec![(-1, -1), (-1, 0), (-1, 1), (0, -1), (0, 0), (0, 1), (1, -1), (1, 0), (1, 1)])
    );
    // gravity has pulled, the floor has stopped the fall
    assert_eq!(s.physics.collisions().fixed, vec![Collision(floor, player)]);
    assert_eq!(c.positions.get(player), Some(&Position { x: 50 * U, y: 100 * U }));
    assert_eq!(c.velocities.get(player), Some(&Velocity { x: 0, y: 0 }));
    assert_eq!(c.grounded.get(player), Some(&Grounded));
    assert_eq!(c.player_state.get(player), Some(&PlayerState::Grounded));
    assert_eq!(c.sprites.get(player), Some(&SpriteNumber(0)));
    assert_eq!(c.animations.get(player), Some(&AnimationState { current: a.idle, frame: 1 }));
    // the camera heads for the player: (50 + 160) px and (100 + 90) px in
    // one tick, and has moved by that
    assert_eq!(c.positions.get(camera), Some(&Position { x: 210 * U, y: 190 * U }));
    assert_eq!(c.velocities.get(camera), Some(&Velocity { x: 12_600_000, y: 11_400_000 }));

    // the jump key goes down
    r.input_state.update(WindowInput::KeyPressed(Key(5)), &window());
    let outcome = game_frame(&mut s, &mut c, &mut r, &storage);
    assert!(outcome.actions.is_empty());
    assert_eq!(c.player_state.get(player), Some(&PlayerState::Airborne));
    assert_eq!(c.velocities.get(player), Some(&Velocity { x: 0, y: 280 * U }));
    assert_eq!(c.sprites.get(player), Some(&SpriteNumber(3)));
    assert_eq!(r.pressed_space, None);
    r.input_state.clear_events();

    let _ = game_frame(&mut s, &mut c, &mut r, &storage);
    // 280 px/s less the pull of one tick, for one tick
    assert_eq!(c.velocities.get(player), Some(&Velocity { x: 0, y: 272 * U }));
    assert_eq!(c.positions.get(player), Some(&Position { x: 50 * U, y: 100 * U + 4_533 }));
    assert_eq!(c.grounded.get(player), None);
    assert_eq!(c.player_state.get(player), Some(&PlayerState::Airborne));
}

#[test]
fn death_fades_out_and_resets_after_forty_frames() {
    let mut s = Systems::new();
    let mut c = Components::new();
    let mut r = ressources();
    let mut storage = AnimationStorage::new();
    let a = animations(&mut storage);
    let player = init::player(&mut c, &r, a);
    let spike = c.new_entity();
    c.positions.insert(spike, Position { x: 50 * U, y: 90 * U });
    c.colliders.insert(spike, Collider { w: 20_000, h: 10_000, ty: ColliderType::PlayerDamage });
    c.velocities.insert(player, Velocity { x: 0, y: -60 * U });
    r.pressed_space = Some(JumpBuffer(9));

    let outcome = game_frame(&mut s, &mut c, &mut r, &storage);
    assert!(outcome.actions.is_empty());
    assert_eq!(s.physics.collisions().player_damage, vec![Collision(player, spike)]);
    assert_eq!(c.player_state.get(player), Some(&PlayerState::Dying));
    // the fading has made its first step in the frame of the death
    assert_eq!(r.fadeout, Some(Fadeout { current: 25, frames_left: 39 }));
    assert_eq!(r.delayed_actions.len(), 1);
    assert_eq!(r.delayed_actions[0].frames_left, 39);

    let mut frames = 1;
    loop {
        let outcome = game_frame(&mut s, &mut c, &mut r, &storage);
        frames += 1;
        if !outcome.actions.is_empty() {
            assert_eq!(outcome.actions, vec![Action::ResetWorld]);
            break;
        }
        assert!(frames < 100);
    }
    assert_eq!(frames, 41);
    assert_eq!(r.fadeout, Some(Fadeout { current: 1000, frames_left: 0 }));
    assert!(r.delayed_actions.is_empty());
    assert_eq!(c.player_state.get(player), Some(&PlayerState::Dying));
}

#[test]
fn frame_without_a_player() {
    let mut s = Systems::new();
    let mut c = Components::new();
    let mut r = ressources();
    let storage = AnimationStorage::new();
    let outcome = game_frame(&mut s, &mut c, &mut r, &storage);
    assert!(!outcome.camera_follows);
    assert_eq!(outcome.missing_chunks, None);
    assert!(outcome.actions.is_empty());
}

#[test]
fn click_finds_chunk_and_tile() {
    let mut r = ressources();
    let at = |r: &mut Ressources, camera: (i32, i32), cursor: (i32, i32)| {
        // the view is 180 pixels high and counts from its lower border
        r.input_state.update(WindowInput::CursorMoved(cursor.0, 180 - cursor.1), &window());
        tile_on_click(Position { x: camera.0, y: camera.1 }, r)
    };
    assert_eq!(at(&mut r, (0, 0), (0, 0)), ((0, 0), (0, 0)));
    assert_eq!(at(&mut r, (0, 0), (19, 20)), ((0, 0), (0, 1)));
    assert_eq!(at(&mut r, (0, 0), (319, 320)), ((0, 1), (15, 0)));
    assert_eq!(at(&mut r, (300_400, 499), (100, 0)), ((1, 0), (4, 0)));
    assert_eq!(at(&mut r, (300_500, 500), (100, 0)), ((1, 0), (4, 0)));
    // left of the origin the tiles count down from the last one
    assert_eq!(at(&mut r, (0, 0), (-1, -20)), ((-1, -1), (15, 14)));
    assert_eq!(at(&mut r, (0, 0), (-319, -321)), ((-1, -2), (0, 15)));
    assert_eq!(at(&mut r, (-320_000, 0), (0, 0)), ((-2, 0), (15, 0)));
    assert_eq!(
        at(&mut r, (i32::MIN, i32::MAX), (i32::MIN, i32::MAX)),
        ((-6_717_598, 6_717_597), (11, 4))
    );
}

#[test]
fn editor_puts_and_takes_tiles() {
    let mut c = Components::new();
    let mut r = ressources();
    let camera = init::camera(&mut c, &r);
    let mut editor = EditorSystem::new();
    assert_eq!(editor.tile(), Tile::Solid);

    // nothing is held: nothing happens
    assert_eq!(editor.run(&mut c, &mut r), EditorOutcome { save: false, rebuilt: None });
    assert!(r.world.chunks.is_empty());

    // the next kind of tile, twice
    r.input_state.update(WindowInput::KeyPressed(Key(7)), &window());
    editor.run(&mut c, &mut r);
    assert_eq!(editor.tile(), Tile::Spike);
    editor.run(&mut c, &mut r);
    assert_eq!(editor.tile(), Tile::Bridge);
    r.input_state.clear_events();
    editor.run(&mut c, &mut r);
    assert_eq!(editor.tile(), Tile::Bridge);

    // the camera moves by a pixel in each frame while a key is held
    r.input_state.update(WindowInput::KeyPressed(Key(3)), &window());
    r.input_state.update(WindowInput::KeyPressed(Key(2)), &window());
    editor.run(&mut c, &mut r);
    assert_eq!(c.positions.get(camera), Some(&Position { x: U, y: -U }));
    r.input_state.update(WindowInput::KeyReleased(Key(3)), &window());
    r.input_state.update(WindowInput::KeyReleased(Key(2)), &window());

    // a click into the void makes a chunk
    r.input_state.update(WindowInput::CursorMoved(44, 180 - 25), &window());
    r.input_state.update(WindowInput::MousePressed(MouseButton::Left), &window());
    let outcome = editor.run(&mut c, &mut r);
    assert_eq!(outcome, EditorOutcome { save: false, rebuilt: Some(0) });
    assert_eq!(r.world.chunks.len(), 1);
    let chunk = &r.world.chunks[0];
    assert_eq!(chunk.position, (0, 0));
    // the camera stands at (1, -1): the cursor points at (45, 24)
    assert_eq!(chunk.data.tile((2, 1)), Some(Tile::Bridge));
    assert_eq!(chunk.tiles.len(), 1);
    let tile = chunk.tiles[0];
    assert_eq!(c.positions.get(tile), Some(&Position { x: 40 * U, y: 20 * U }));
    assert_eq!(
        c.colliders.get(tile),
        Some(&Collider { w: 20_000, h: 20_000, ty: ColliderType::Bridge })
    );
    let marker = chunk.changed.unwrap();
    assert_eq!(c.positions.get(marker), Some(&Position { x: 10 * U, y: 10 * U }));
    assert_eq!(c.depths.get(marker), Some(&Depth::EditorSelection));
    assert_eq!(c.positions.get(camera), Some(&Position { x: U, y: -U }));

    // the right button takes it away again
    r.input_state.update(WindowInput::MouseReleased(MouseButton::Left), &window());
    r.input_state.update(WindowInput::MousePressed(MouseButton::Right), &window());
    let outcome = editor.run(&mut c, &mut r);
    assert_eq!(outcome, EditorOutcome { save: false, rebuilt: Some(0) });
    assert_eq!(r.world.chunks[0].data.tile((2, 1)), None);
    assert!(r.world.chunks[0].tiles.is_empty());
    // where no chunk is, the right button does nothing
    r.input_state.update(WindowInput::CursorMoved(-500, 0), &window());
    let outcome = editor.run(&mut c, &mut r);
    assert_eq!(outcome, EditorOutcome { save: false, rebuilt: None });
    assert_eq!(r.world.chunks.len(), 1);
}

#[test]
fn editor_asks_to_save() {
    let mut c = Components::new();
    let mut r = ressources();
    init::camera(&mut c, &r);
    let mut editor = EditorSystem::new();
    r.input_state.update(WindowInput::KeyPressed(Key(28)), &window());
    assert!(!editor.run(&mut c, &mut r).save);
    r.input_state.update(WindowInput::KeyReleased(Key(28)), &window());
    r.input_state.clear_events();
    r.input_state.update(WindowInput::KeyPressed(Key(111)), &window());
    assert!(!editor.run(&mut c, &mut r).save);
    r.input_state.update(WindowInput::KeyPressed(Key(28)), &window());
    assert!(editor.run(&mut c, &mut r).save);
}

#[test]
fn set_tile_changes_one_place() {
    let mut d = ChunkData::default();
    d.set_tile(3, 4, Some(Tile::Grass));
    d.set_tile(15, 0, Some(Tile::Solid));
    for x in 0..16 {
        for y in 0..16 {
            let expected = match (x, y) {
                (3, 4) => Some(Tile::Grass),
                (15, 0) => Some(Tile::Solid),
                _ => None,
            };
            assert_eq!(d.tile((x, y)), expected);
        }
    }
    d.set_tile(3, 4, None);
    assert_eq!(d.tile((3, 4)), None);
}
