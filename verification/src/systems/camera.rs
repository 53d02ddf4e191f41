//! The camera that follows the player.

use crate::config::CameraConfig;
use crate::data::{Camera, PlayerState, Position, Velocity};
use crate::ecs::{Entity, Storage};
use crate::time::Time;
use vstd::prelude::*;

verus! {

/// Whether `e` has a component in `tags` and a position.
pub open spec fn is_placed<T>(
    tags: Map<Entity, T>,
    positions: Map<Entity, Position>,
    e: Entity,
) -> bool {
    tags.contains_key(e) && positions.contains_key(e)
}

/// Whether `e` is the only entity with a component in `tags` and a
/// position.
pub open spec fn is_only<T>(
    tags: Map<Entity, T>,
    positions: Map<Entity, Position>,
    e: Entity,
) -> bool {
    &&& is_placed(tags, positions, e)
    &&& forall|o: Entity| #[trigger] is_placed(tags, positions, o) ==> o == e
}

/// Whether `e` has a state of a player and a position.
pub open spec fn is_placed_player(
    player_states: Map<Entity, PlayerState>,
    positions: Map<Entity, Position>,
    e: Entity,
) -> bool {
    is_placed(player_states, positions, e)
}

/// Whether `e` is the only entity with a state of a player and a position.
pub open spec fn is_unique_player(
    player_states: Map<Entity, PlayerState>,
    positions: Map<Entity, Position>,
    e: Entity,
) -> bool {
    is_only(player_states, positions, e)
}

/// The only entity with a component in `tags` and a position, if there is
/// exactly one.
pub fn only_entity<T>(tags: &Storage<T>, positions: &Storage<Position>) -> (r: Option<Entity>)
    ensures
        r matches Some(e) ==> is_only(tags@, positions@, e),
        r is None ==> forall|e: Entity| !is_only(tags@, positions@, e),
{
    let n = tags.bound();
    let mut found: Option<Entity> = None;
    let mut i: usize = 0;
    while i < n
        invariant
            i <= n,
            forall|e: Entity| #[trigger] tags@.contains_key(e) ==> e.0 < n,
            found matches Some(e) ==> e.0 < i && is_placed(tags@, positions@, e) && forall|
                o: Entity,
            |
                o.0 < i && #[trigger] is_placed(tags@, positions@, o) ==> o == e,
            found is None ==> forall|o: Entity|
                o.0 < i ==> !#[trigger] is_placed(tags@, positions@, o),
        decreases n - i,
    {
        let entity = Entity(i);
        if tags.contains(entity) && positions.contains(entity) {
            if let Some(first) = found {
                assert(is_placed(tags@, positions@, first));
                assert(is_placed(tags@, positions@, entity));
                assert forall|e: Entity| !is_only(tags@, positions@, e) by {
                    if is_only(tags@, positions@, e) {
                        assert(first == e);
                        assert(entity == e);
                    }
                }
                return None;
            }
            found = Some(entity);
        }
        i += 1;
    }
    proof {
        if found is None {
            assert forall|e: Entity| !is_only(tags@, positions@, e) by {
                if is_placed(tags@, positions@, e) {
                    assert(e.0 < n);
                }
            }
        }
    }
    found
}

/// The only entity with a state of a player and a position, if there is
/// exactly one.
pub fn unique_player(player_states: &Storage<PlayerState>, positions: &Storage<Position>) -> (r:
    Option<Entity>)
    ensures
        r matches Some(e) ==> is_unique_player(player_states@, positions@, e),
        r is None ==> forall|e: Entity| !is_unique_player(player_states@, positions@, e),
{
    only_entity(player_states, positions)
}

/// `v` limited to the range of `i32`.
fn saturate_wide(v: i128) -> (r: i32)
    ensures
        r as int == crate::units::clamp_i32(v as int),
{
    if v < i32::MIN as i128 {
        i32::MIN
    } else if v > i32::MAX as i128 {
        i32::MAX
    } else {
        v as i32
    }
}

/// The velocity with which a camera at `camera` reaches, in one tick, its
/// place relative to `target`.
pub open spec fn chasing(camera: Position, target: Position, offset: (i32, i32), fps: u32)
    -> Velocity {
    Velocity {
        x: crate::units::clamp_i32((target.x - camera.x - offset.0) * fps) as i32,
        y: crate::units::clamp_i32((target.y - camera.y - offset.1) * fps) as i32,
    }
}

/// The velocities after every camera with a position and a velocity was
/// set to chase `target`.
pub open spec fn cameras_chasing(
    velocities: Map<Entity, Velocity>,
    cameras: Map<Entity, Camera>,
    positions: Map<Entity, Position>,
    target: Position,
    offset: (i32, i32),
    fps: u32,
) -> Map<Entity, Velocity> {
    Map::new(
        |e: Entity| velocities.contains_key(e),
        |e: Entity|
            if cameras.contains_key(e) && positions.contains_key(e) {
                chasing(positions[e], target, offset, fps)
            } else {
                velocities[e]
            },
    )
}

#[derive(Debug)]
pub struct CameraSystem;

impl CameraSystem {
    /// Sets the velocity of every camera so that it reaches its place
    /// relative to the player in one tick, and says whether it did: without
    /// exactly one player nothing changes.
    pub fn run(
        &mut self,
        player_states: &Storage<PlayerState>,
        positions: &Storage<Position>,
        previous_positions: &Storage<Position>,
        velocities: &mut Storage<Velocity>,
        cameras: &Storage<Camera>,
        time: &Time,
        config: &CameraConfig,
    ) -> (found: bool)
        ensures
            found == exists|e: Entity| is_unique_player(player_states@, positions@, e),
            !found ==> final(velocities)@ == old(velocities)@,
            forall|e: Entity| #[trigger]
                is_unique_player(player_states@, positions@, e) ==> final(velocities)@
                    == cameras_chasing(
                    old(velocities)@,
                    cameras@,
                    positions@,
                    if previous_positions@.contains_key(e) {
                        previous_positions@[e]
                    } else {
                        positions@[e]
                    },
                    config.offset,
                    time.ticks_per_second(),
                ),
    {
        let player = match unique_player(player_states, positions) {
            Some(player) => player,
            None => {
                return false;
            },
        };
        let position = positions.get_copied(player).unwrap();
        let target = previous_positions.get_copied(player).unwrap_or(position);
        let fps = time.fps();
        let n = velocities.bound();
        let ghost start = velocities@;
        let mut i: usize = 0;
        while i < n
            invariant
                i <= n,
                forall|e: Entity| #[trigger] start.contains_key(e) ==> e.0 < n,
                velocities@ == Map::new(
                    |e: Entity| start.contains_key(e),
                    |e: Entity|
                        if e.0 < i && cameras@.contains_key(e) && positions@.contains_key(e) {
                            chasing(positions@[e], target, config.offset, fps)
                        } else {
                            start[e]
                        },
                ),
            decreases n - i,
        {
            let entity = Entity(i);
            if cameras.contains(entity) && velocities.contains(entity) {
                if let Some(camera_position) = positions.get_copied(entity) {
                    let diff_x: i64 = target.x as i64 - camera_position.x as i64
                        - config.offset.0 as i64;
                    let diff_y: i64 = target.y as i64 - camera_position.y as i64
                        - config.offset.1 as i64;
                    assert(-0x2_0000_0000_0000_0000 <= diff_x * fps <= 0x2_0000_0000_0000_0000
                        && -0x2_0000_0000_0000_0000 <= diff_y * fps <= 0x2_0000_0000_0000_0000)
                        by (nonlinear_arith)
                        requires
                            -0x2_0000_0000 <= diff_x <= 0x2_0000_0000,
                            -0x2_0000_0000 <= diff_y <= 0x2_0000_0000,
                            0 <= fps <= 0xffff_ffff,
                    ;
                    velocities.insert(
                        entity,
                        Velocity {
                            x: saturate_wide((diff_x as i128) * (fps as i128)),
                            y: saturate_wide((diff_y as i128) * (fps as i128)),
                        },
                    );
                }
            }
            i += 1;
            assert(velocities@ =~= Map::new(
                |e: Entity| start.contains_key(e),
                |e: Entity|
                    if e.0 < i && cameras@.contains_key(e) && positions@.contains_key(e) {
                        chasing(positions@[e], target, config.offset, fps)
                    } else {
                        start[e]
                    },
            ));
        }
        assert(velocities@ =~= cameras_chasing(
            start,
            cameras@,
            positions@,
            target,
            config.offset,
            fps,
        ));
        true
    }
}

} // verus!
