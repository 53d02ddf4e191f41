// Animations and their frames.

use akari::animation::{add_animation, Animation, AnimationStorage};
use akari::config::{FrameConfig, PlayerAnimationsConfig};
use akari::data::{AnimationHandle, AnimationState, PlayerAnimations, SpriteNumber};
use akari::ecs::{Entity, Storage};
use akari::systems::animation::AnimationSystem;

fn frame(spritesheet: usize, sprite: usize, duration: usize) -> FrameConfig {
    FrameConfig { spritesheet, sprite, duration }
}

#[test]
fn frames_are_repeated_for_their_duration() {
    let mut storage = AnimationStorage::new();
    let sheets = vec![4, 2];
    let config = vec![frame(0, 3, 2), frame(1, 1, 1), frame(0, 0, 0), frame(1, 0, 3)];
    let first = add_animation(&mut storage, &sheets, &config, None);
    assert_eq!(first, AnimationHandle(0));
    let second = add_animation(&mut storage, &sheets, &vec![frame(1, 0, 1)], Some(first));
    assert_eq!(second, AnimationHandle(1));

    // the sprites of the second sheet are counted after those of the first
    let mut state = storage.start(first);
    assert_eq!(state, AnimationState { current: first, frame: 0 });
    let mut shown = Vec::new();
    for _ in 0..7 {
        shown.push(storage.next(&mut state));
    }
    let n = |i: usize| Some(SpriteNumber(i));
    // an animation without a successor repeats
    assert_eq!(shown, vec![n(3), n(3), n(5), n(4), n(4), n(4), n(3)]);
    assert_eq!(state, AnimationState { current: first, frame: 1 });

    let mut state = storage.start(second);
    assert_eq!(storage.next(&mut state), n(4));
    assert_eq!(state, AnimationState { current: first, frame: 0 });
}

#[test]
fn unknown_animations_show_nothing() {
    let mut storage = AnimationStorage::new();
    let mut state = AnimationState { current: AnimationHandle(0), frame: 0 };
    assert_eq!(storage.next(&mut state), None);
    assert_eq!(state, AnimationState { current: AnimationHandle(0), frame: 0 });
    let empty = storage.insert(Animation { frames: Vec::new(), next: AnimationHandle(0) });
    let mut state = storage.start(empty);
    assert_eq!(storage.next(&mut state), None);
    let h = storage.insert(Animation {
        frames: vec![SpriteNumber(1), SpriteNumber(2)],
        next: AnimationHandle(7),
    });
    let mut state = AnimationState { current: h, frame: 2 };
    assert_eq!(storage.next(&mut state), None);
    storage.set_next(h, empty);
    let mut state = AnimationState { current: h, frame: 1 };
    assert_eq!(storage.next(&mut state), Some(SpriteNumber(2)));
    assert_eq!(state, AnimationState { current: empty, frame: 0 });
}

#[test]
fn animations_of_the_player_follow_each_other() {
    let mut storage = AnimationStorage::new();
    storage.insert(Animation { frames: Vec::new(), next: AnimationHandle(0) });
    let config = PlayerAnimationsConfig {
        spritesheets: vec![String::from("player.ron")],
        idle: vec![frame(0, 0, 1)],
        running: vec![frame(0, 1, 1)],
        run_into_obstacle: vec![frame(0, 2, 1)],
        jumping: vec![frame(0, 3, 1)],
        start_falling: vec![frame(0, 4, 1)],
        falling: vec![frame(0, 5, 1)],
    };
    let a = PlayerAnimations::from_config(&mut storage, &vec![6], &config);
    assert_eq!(
        a,
        PlayerAnimations {
            idle: AnimationHandle(1),
            running: AnimationHandle(2),
            run_into_obstacle: AnimationHandle(3),
            falling: AnimationHandle(4),
            start_falling: AnimationHandle(5),
            jumping: AnimationHandle(6),
        }
    );
    let follows = |h: AnimationHandle| {
        let mut state = storage.start(h);
        let sprite = storage.next(&mut state);
        (sprite, state.current)
    };
    assert_eq!(follows(a.idle), (Some(SpriteNumber(0)), a.idle));
    assert_eq!(follows(a.running), (Some(SpriteNumber(1)), a.running));
    assert_eq!(follows(a.run_into_obstacle), (Some(SpriteNumber(2)), a.idle));
    assert_eq!(follows(a.jumping), (Some(SpriteNumber(3)), a.start_falling));
    assert_eq!(follows(a.start_falling), (Some(SpriteNumber(4)), a.falling));
    assert_eq!(follows(a.falling), (Some(SpriteNumber(5)), a.falling));
}

#[test]
fn animation_system_gives_sprites() {
    let mut storage = AnimationStorage::new();
    let h = storage.insert(Animation {
        frames: vec![SpriteNumber(8), SpriteNumber(9)],
        next: AnimationHandle(0),
    });
    let mut sprites: Storage<SpriteNumber> = Storage::new();
    let mut animations: Storage<AnimationState> = Storage::new();
    animations.insert(Entity(0), storage.start(h));
    animations.insert(Entity(2), AnimationState { current: AnimationHandle(5), frame: 0 });
    sprites.insert(Entity(1), SpriteNumber(1));
    sprites.insert(Entity(2), SpriteNumber(2));
    let mut system = AnimationSystem;
    system.run(&mut sprites, &mut animations, &storage);
    assert_eq!(sprites.get(Entity(0)), Some(&SpriteNumber(8)));
    assert_eq!(sprites.get(Entity(1)), Some(&SpriteNumber(1)));
    assert_eq!(sprites.get(Entity(2)), Some(&SpriteNumber(2)));
    assert_eq!(animations.get(Entity(0)), Some(&AnimationState { current: h, frame: 1 }));
    system.run(&mut sprites, &mut animations, &storage);
    assert_eq!(sprites.get(Entity(0)), Some(&SpriteNumber(9)));
    assert_eq!(animations.get(Entity(0)), Some(&AnimationState { current: h, frame: 0 }));
}
