//! The editor of the world: tiles are put and taken with the mouse.

use crate::data::{lemma_without_nobody, Collider, ColliderType, Components, Position};
use crate::ecs::Entity;
use crate::environment::chunk::{
    place_in_chunk, same_besides_terrain, same_besides_terrain_without, terrain_of, Chunk, ChunkData, Terrain, Tile,
    CHUNK_TILES, CHUNK_UNITS, CHUNK_WIDTH, TILE_SIZE,
};
use crate::environment::rounded_quotient;
use crate::input::{InputEvent, Key, KeyState, MouseButton};
use crate::ressources::Ressources;
use crate::systems::camera::{is_only, is_placed, only_entity};
use crate::units::{clamp_i32, saturate, UNIT};
use vstd::prelude::*;

verus! {

/// The code of the key that, held together with [`SAVE_KEY`], asks to save
/// the world: the left control key.
pub const SAVE_MODIFIER: u32 = 111;

/// The code of the key that asks to save the world: the key S.
pub const SAVE_KEY: u32 = 28;

/// The kind of tile that follows `tile` in the choice of the editor.
pub open spec fn tile_after(tile: Tile) -> Tile {
    match tile {
        Tile::Solid => Tile::Spike,
        Tile::Spike => Tile::Bridge,
        Tile::Bridge => Tile::Grass,
        Tile::Grass => Tile::Solid,
    }
}

/// The place in the grid of chunks of the chunk that holds the pixel `g` of
/// one axis.
pub open spec fn clicked_chunk(g: int) -> int {
    if g < 0 {
        -((-g) / (CHUNK_WIDTH as int)) - 1
    } else {
        g / (CHUNK_WIDTH as int)
    }
}

/// The place in its chunk of the tile that holds the pixel `g` of one
/// axis.
pub open spec fn clicked_tile(g: int) -> int {
    if g < 0 {
        CHUNK_TILES - 1 - ((-g) % (CHUNK_WIDTH as int)) / (TILE_SIZE as int)
    } else {
        (g % (CHUNK_WIDTH as int)) / (TILE_SIZE as int)
    }
}

/// The chunk, and the tile in it, under a cursor at `cursor` in the view
/// of a camera at `camera`.
pub open spec fn clicked(camera: Position, cursor: (i32, i32)) -> ((i32, i32), (usize, usize)) {
    let x = cursor.0 + rounded_quotient(camera.x as int, UNIT as int);
    let y = cursor.1 + rounded_quotient(camera.y as int, UNIT as int);
    (
        (clicked_chunk(x) as i32, clicked_chunk(y) as i32),
        (clicked_tile(x) as usize, clicked_tile(y) as usize),
    )
}

fn pixel_of(v: i32) -> (r: i64)
    ensures
        r == rounded_quotient(v as int, UNIT as int),
        -2_147_484 <= r <= 2_147_484,
{
    if v >= 0 {
        (v as i64 + 500) / 1000
    } else {
        -((-(v as i64) + 500) / 1000)
    }
}

fn chunk_and_tile(g: i64) -> (r: (i32, usize))
    requires
        -0x1_0000_0000 <= g <= 0x1_0000_0000,
    ensures
        r.0 == clicked_chunk(g as int),
        r.1 == clicked_tile(g as int),
        r.1 < CHUNK_TILES,
{
    if g < 0 {
        ((-((-g) / 320) - 1) as i32, (15 - ((-g) % 320) / 20) as usize)
    } else {
        ((g / 320) as i32, ((g % 320) / 20) as usize)
    }
}

/// The chunk, and the tile in it, under the cursor in the view of a camera
/// at `camera`.
pub fn tile_on_click(camera: Position, r: &Ressources) -> (place: ((i32, i32), (usize, usize)))
    ensures
        place == clicked(camera, r.input_state.cursor()),
        place.1.0 < CHUNK_TILES,
        place.1.1 < CHUNK_TILES,
{
    let pos = r.input_state.cursor_position();

    let ingame_pos = (pos.0 as i64 + pixel_of(camera.x), pos.1 as i64 + pixel_of(camera.y));

    let (chunk_x, tile_x) = chunk_and_tile(ingame_pos.0);
    let (chunk_y, tile_y) = chunk_and_tile(ingame_pos.1);
    ((chunk_x, chunk_y), (tile_x, tile_y))
}

/// The index of the first chunk at `position`.
fn chunk_index(chunks: &Vec<Chunk>, position: (i32, i32)) -> (r: Option<usize>)
    ensures
        r matches Some(i) ==> i < chunks@.len() && chunks@[i as int].position == position
            && forall|j: int| 0 <= j < i ==> (#[trigger] chunks@[j]).position != position,
        r is None ==> forall|j: int|
            0 <= j < chunks@.len() ==> (#[trigger] chunks@[j]).position != position,
{
    let mut i: usize = 0;
    while i < chunks.len()
        invariant
            i <= chunks.len(),
            forall|j: int| 0 <= j < i ==> (#[trigger] chunks@[j]).position != position,
        decreases chunks.len() - i,
    {
        if chunks[i].position.0 == position.0 && chunks[i].position.1 == position.1 {
            return Some(i);
        }
        i += 1;
    }
    None
}

/// Whether `events` holds `event`.
fn has_event(events: &[InputEvent], event: InputEvent) -> (r: bool)
    ensures
        r == events@.contains(event),
{
    let mut i: usize = 0;
    while i < events.len()
        invariant
            i <= events.len(),
            forall|j: int| 0 <= j < i ==> events@[j] != event,
        decreases events.len() - i,
    {
        if events[i] == event {
            return true;
        }
        i += 1;
    }
    false
}

/// What is left for the host to do after a frame of the editor.
#[derive(Debug, Clone, Copy, PartialEq, Eq, Structural)]
pub struct EditorOutcome {
    /// Whether the world is to be saved.
    pub save: bool,
    /// The chunk that was changed and built anew, by its index in the
    /// world.
    pub rebuilt: Option<usize>,
}

/// The editor and the kind of tile it puts.
#[derive(Debug)]
pub struct EditorSystem {
    tile: Tile,
}

impl EditorSystem {
    /// The kind of tile that the editor puts.
    pub closed spec fn chosen_tile(&self) -> Tile {
        self.tile
    }

    /// An editor that puts solid tiles.
    pub fn new() -> (s: Self)
        ensures
            s.chosen_tile() == Tile::Solid,
    {
        EditorSystem { tile: Tile::Solid }
    }

    /// The kind of tile that the editor puts.
    pub fn tile(&self) -> (t: Tile)
        ensures
            t == self.chosen_tile(),
    {
        self.tile
    }

    /// One frame of the editor.
    ///
    /// Moves the camera by one pixel for each axis of the input that is
    /// held. Chooses the next kind of tile if the key for it went down.
    /// Asks to save if the key for it went down while its modifier is held.
    /// With the left button held, puts the chosen tile under the cursor,
    /// into a new chunk if none is there; else, with the right button held,
    /// takes the tile under the cursor away, if a chunk is there. A chunk
    /// that was changed is built anew.
    pub fn run(&mut self, c: &mut Components, r: &mut Ressources) -> (outcome: EditorOutcome)
        requires
            exists|e: Entity| is_only(old(c).cameras@, old(c).positions@, e),
            old(c).count + CHUNK_TILES * CHUNK_TILES + 2 <= usize::MAX,
        ensures
            final(self).chosen_tile() == (if old(r).input_state.changes().contains(
                InputEvent::KeyDown(old(r).config.input.editor_tile),
            ) {
                tile_after(old(self).chosen_tile())
            } else {
                old(self).chosen_tile()
            }),
            outcome.save == (old(r).input_state.held_keys().contains(Key(SAVE_MODIFIER)) && old(
                r,
            ).input_state.changes().contains(InputEvent::KeyDown(Key(SAVE_KEY)))),
            is_edited(old(c), old(r), final(self).chosen_tile(), final(c), final(r), outcome),
            final(r).input_state == old(r).input_state,
            final(r).time == old(r).time,
            final(r).config == old(r).config,
            final(r).pressed_space == old(r).pressed_space,
            final(r).fadeout == old(r).fadeout,
            final(r).delayed_actions == old(r).delayed_actions,
            final(r).lazy_update == old(r).lazy_update,
            final(r).last_save == old(r).last_save,
            final(r).debug_draw == old(r).debug_draw,
            final(r).world.data == old(r).world.data,
    {
        let camera_entity = match only_entity(&c.cameras, &c.positions) {
            Some(e) => e,
            None => {
                proof {
                    let e = choose|e: Entity| is_only(c.cameras@, c.positions@, e);
                    assert(is_only(c.cameras@, c.positions@, e));
                    assert(false);
                }
                return EditorOutcome { save: false, rebuilt: None };
            },
        };
        proof {
            let e = choose|e: Entity| is_only(c.cameras@, c.positions@, e);
            assert(is_only(c.cameras@, c.positions@, e));
            assert(is_placed(c.cameras@, c.positions@, camera_entity));
            assert(e == camera_entity);
        }
        let mut camera = c.positions.get_copied(camera_entity).unwrap();
        camera.x = saturate(
            camera.x as i64 + r.input_state.axis(r.config.input.left, r.config.input.right) as i64,
        );
        camera.y = saturate(
            camera.y as i64 + r.input_state.axis(r.config.input.down, r.config.input.up) as i64,
        );
        c.positions.insert(camera_entity, camera);

        if has_event(r.input_state.events(), InputEvent::KeyDown(r.config.input.editor_tile)) {
            self.tile = match self.tile {
                Tile::Solid => Tile::Spike,
                Tile::Spike => Tile::Bridge,
                Tile::Bridge => Tile::Grass,
                Tile::Grass => Tile::Solid,
            };
        }

        let save = r.input_state.key(Key(SAVE_MODIFIER)) == KeyState::Down && has_event(
            r.input_state.events(),
            InputEvent::KeyDown(Key(SAVE_KEY)),
        );

        let mut rebuilt: Option<usize> = None;
        let ghost moved = *c;
        proof {
            assert(same_besides_terrain_without(c, old(c), Set::empty())) by {
                lemma_without_nobody(old(c));
            }
        }
        if r.input_state.mouse(MouseButton::Left) == KeyState::Down {
            let (chunk, tile) = tile_on_click(camera, r);

            let found = chunk_index(&r.world.chunks, chunk);
            let index = match found {
                Some(index) => index,
                None => {
                    r.world.chunks.push(Chunk::empty(chunk, c));
                    r.world.chunks.len() - 1
                },
            };
            let ghost before = *c;
            let ghost chunks = r.world.chunks@;
            let target = &mut r.world.chunks[index];
            target.data.set_tile(tile.0, tile.1, Some(self.tile));
            target.rebuild(c);
            rebuilt = Some(index);
            proof {
                assert(r.world.chunks@ == chunks.update(index as int, r.world.chunks@[index as int]));
                if found is None {
                    let e = terrain_of(&moved, Seq::empty()).next_entity();
                    assert(chunks[index as int].entities() =~= seq![e]);
                    assert(seq![e].to_set() =~= set![e]);
                    assert(same_besides_terrain_without(c, old(c), set![e])) by {
                        lemma_remove_twice(c, &before, old(c), set![e]);
                    }
                    assert(forall|i: int|
                        0 <= i < old(r).world.chunks@.len() ==> (#[trigger] old(
                            r,
                        ).world.chunks@[i]).position != chunk);
                } else {
                    let gone = chunks[index as int].entities().to_set();
                    assert(same_besides_terrain_without(c, old(c), gone)) by {
                        lemma_remove_twice(c, &before, old(c), gone);
                    }
                    assert(old(r).world.chunks@[index as int].position == chunk);
                }
                let old_chunks = old(r).world.chunks@;
                let place = clicked(
                    camera_after(old(c), old(r), camera_entity),
                    old(r).input_state.cursor(),
                );
                assert(place.0 == chunk && place.1 == tile);
                let loaded = exists|i: int|
                    0 <= i < old_chunks.len() && (#[trigger] old_chunks[i]).position == place.0;
                assert(loaded == (found is Some));
                let new_chunk = r.world.chunks@[index as int];
                assert(forall|x: int, y: int|
                    0 <= x < CHUNK_TILES && 0 <= y < CHUNK_TILES ==> #[trigger] new_chunk.data.tile_at(
                        x,
                        y,
                    ) == (if x == place.1.0 && y == place.1.1 {
                        Some(self.tile)
                    } else if loaded {
                        old_chunks[index as int].data.tile_at(x, y)
                    } else {
                        None
                    }));
                assert(terrain_of(c, new_chunk.tiles@) == rebuilt_terrain(
                    old(c),
                    old(r),
                    camera_entity,
                    if loaded {
                        Some(old_chunks[index as int].entities())
                    } else {
                        None
                    },
                    place.0,
                    &new_chunk.data,
                ));
                assert(is_edited(
                    old(c),
                    old(r),
                    self.tile,
                    c,
                    r,
                    (EditorOutcome { save, rebuilt }),
                ));
            }
        } else if r.input_state.mouse(MouseButton::Right) == KeyState::Down {
            let (chunk, tile) = tile_on_click(camera, r);

            if let Some(index) = chunk_index(&r.world.chunks, chunk) {
                let ghost chunks = r.world.chunks@;
                let target = &mut r.world.chunks[index];
                let ghost before = *c;
                target.data.set_tile(tile.0, tile.1, None);
                target.rebuild(c);
                rebuilt = Some(index);
                proof {
                    assert(r.world.chunks@ == chunks.update(
                        index as int,
                        r.world.chunks@[index as int],
                    ));
                    let gone = chunks[index as int].entities().to_set();
                    assert(same_besides_terrain_without(c, old(c), gone)) by {
                        lemma_remove_twice(c, &before, old(c), gone);
                    }
                    assert(old(r).world.chunks@[index as int].position == chunk);
                    assert(is_edited(
                        old(c),
                        old(r),
                        self.tile,
                        c,
                        r,
                        (EditorOutcome { save, rebuilt }),
                    ));
                }
            } else {
                assert(is_edited(old(c), old(r), self.tile, c, r, (EditorOutcome { save, rebuilt })));
            }
        } else {
            assert(is_edited(old(c), old(r), self.tile, c, r, (EditorOutcome { save, rebuilt })));
        }
        EditorOutcome { save, rebuilt }
    }
}

/// What holds of the untouched components after entities were removed
/// from components that were the same as the first ones.
proof fn lemma_remove_twice(
    after: &Components,
    middle: &Components,
    before: &Components,
    gone: Set<Entity>,
)
    requires
        same_besides_terrain_without(middle, before, Set::empty()) || same_besides_terrain(
            middle,
            before,
        ),
        same_besides_terrain_without(after, middle, gone),
    ensures
        same_besides_terrain_without(after, before, gone),
{
    assert(before.animations@.remove_keys(Set::empty()) =~= before.animations@);
    assert(before.previous_positions@.remove_keys(Set::empty()) =~= before.previous_positions@);
    assert(before.velocities@.remove_keys(Set::empty()) =~= before.velocities@);
    assert(before.grounded@.remove_keys(Set::empty()) =~= before.grounded@);
    assert(before.wall_collisions@.remove_keys(Set::empty()) =~= before.wall_collisions@);
    assert(before.gravity@.remove_keys(Set::empty()) =~= before.gravity@);
    assert(before.ignore_bridges@.remove_keys(Set::empty()) =~= before.ignore_bridges@);
    assert(before.player_state@.remove_keys(Set::empty()) =~= before.player_state@);
    assert(before.player_animations@.remove_keys(Set::empty()) =~= before.player_animations@);
    assert(before.mirrored@.remove_keys(Set::empty()) =~= before.mirrored@);
    assert(before.cameras@.remove_keys(Set::empty()) =~= before.cameras@);
}

/// The position of the camera after the editor has moved it.
pub open spec fn camera_after(c: &Components, r: &Ressources, e: Entity) -> Position {
    Position {
        x: clamp_i32(
            c.positions@[e].x + r.input_state.axis_value(
                r.config.input.left,
                r.config.input.right,
            ),
        ) as i32,
        y: clamp_i32(
            c.positions@[e].y + r.input_state.axis_value(r.config.input.down, r.config.input.up),
        ) as i32,
    }
}

/// The terrain after the editor has moved the camera `camera` and deleted
/// the entities of the chunk at `place`. `entities` are the entities that
/// the chunk had, if it was loaded; a chunk that was not is made empty
/// first.
pub open spec fn cleared_terrain(
    c: &Components,
    r: &Ressources,
    camera: Entity,
    entities: Option<Seq<Entity>>,
    place: (i32, i32),
) -> Terrain {
    let start = terrain_of(c, Seq::empty());
    let moved = Terrain {
        positions: start.positions.insert(camera, camera_after(c, r, camera)),
        ..start
    };
    match entities {
        Some(entities) => moved.without(entities),
        None => {
            let e = moved.next_entity();
            let t = moved.after_entity();
            (Terrain {
                positions: t.positions.insert(e, place_in_chunk(place, 0, 0)),
                colliders: t.colliders.insert(
                    e,
                    Collider {
                        w: CHUNK_UNITS,
                        h: CHUNK_UNITS,
                        ty: ColliderType::CameraRestriction,
                    },
                ),
                ..t
            }).without(seq![e])
        },
    }
}

/// The terrain after the editor has moved the camera `camera` and built the
/// chunk at `place` anew from `data`: its entities are deleted, its marker
/// is made, and every tile of `data` is added.
pub open spec fn rebuilt_terrain(
    c: &Components,
    r: &Ressources,
    camera: Entity,
    entities: Option<Seq<Entity>>,
    place: (i32, i32),
    data: &ChunkData,
) -> Terrain {
    cleared_terrain(c, r, camera, entities, place).with_marker(place).with_tiles(
        place,
        data,
        (CHUNK_TILES * CHUNK_TILES) as nat,
    )
}

/// Whether `new_c`, `new_r` and `outcome` are what a frame of the editor
/// that puts `tile` makes of `old_c` and `old_r`.
pub open spec fn is_edited(
    old_c: &Components,
    old_r: &Ressources,
    tile: Tile,
    new_c: &Components,
    new_r: &Ressources,
    outcome: EditorOutcome,
) -> bool {
    let camera = choose|e: Entity| is_only(old_c.cameras@, old_c.positions@, e);
    let place = clicked(camera_after(old_c, old_r, camera), old_r.input_state.cursor());
    let left = old_r.input_state.held_buttons().contains(MouseButton::Left);
    let right = old_r.input_state.held_buttons().contains(MouseButton::Right);
    let chunks = old_r.world.chunks@;
    let loaded = exists|i: int| 0 <= i < chunks.len() && (#[trigger] chunks[i]).position == place.0;
    if left || (right && loaded) {
        &&& outcome.rebuilt matches Some(index)
        &&& index < new_r.world.chunks@.len()
        &&& new_r.world.chunks@.len() == (if loaded {
            chunks.len()
        } else {
            chunks.len() + 1
        })
        &&& forall|i: int| 0 <= i < chunks.len() && i != index ==> new_r.world.chunks@[i] == chunks[i]
        &&& forall|i: int| 0 <= i < index ==> (#[trigger] chunks[i]).position != place.0
        &&& new_r.world.chunks@[index as int].position == place.0
        &&& new_r.world.chunks@[index as int].data.spritesheet@ == (if loaded {
            chunks[index as int].data.spritesheet@
        } else {
            ChunkData::default_spritesheet()
        })
        &&& forall|x: int, y: int|
            0 <= x < CHUNK_TILES && 0 <= y < CHUNK_TILES ==> #[trigger] new_r.world.chunks@[index as int].data.tile_at(
                x,
                y,
            ) == (if x == place.1.0 && y == place.1.1 {
                if left {
                    Some(tile)
                } else {
                    None
                }
            } else if loaded {
                chunks[index as int].data.tile_at(x, y)
            } else {
                None
            })
        &&& new_r.world.chunks@[index as int].changed == Some(
            cleared_terrain(
                old_c,
                old_r,
                camera,
                if loaded {
                    Some(chunks[index as int].entities())
                } else {
                    None
                },
                place.0,
            ).next_entity(),
        )
        &&& terrain_of(new_c, new_r.world.chunks@[index as int].tiles@) == rebuilt_terrain(
            old_c,
            old_r,
            camera,
            if loaded {
                Some(chunks[index as int].entities())
            } else {
                None
            },
            place.0,
            &new_r.world.chunks@[index as int].data,
        )
        &&& same_besides_terrain_without(
            new_c,
            old_c,
            if loaded {
                chunks[index as int].entities().to_set()
            } else {
                set![terrain_of(old_c, Seq::empty()).next_entity()]
            },
        )
    } else {
        &&& outcome.rebuilt is None
        &&& new_r.world.chunks@ == chunks
        &&& new_c.positions@ == old_c.positions@.insert(
            camera,
            camera_after(old_c, old_r, camera),
        )
        &&& new_c.colliders@ == old_c.colliders@
        &&& new_c.depths@ == old_c.depths@
        &&& new_c.sprites@ == old_c.sprites@
        &&& new_c.count == old_c.count
        &&& new_c.deleted@ == old_c.deleted@
        &&& same_besides_terrain_without(new_c, old_c, Set::empty())
    }
}

} // verus!
