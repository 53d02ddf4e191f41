//! One chunk of tiles: its description and the entities that realise it.

use crate::data::{
    lemma_without_nobody, lemma_without_one_more, Collider, ColliderType, Components, Depth,
    Position, SpriteNumber,
};
use crate::ecs::Entity;
use crate::config::SpriteConfig;
use crate::units::{clamp_i32, saturate, UNIT};
use vstd::prelude::*;

verus! {

/// The number of tiles along each side of a chunk.
pub const CHUNK_TILES: usize = 16;

/// The length of the side of a tile in pixels.
pub const TILE_SIZE: usize = 20;

/// The width of a chunk in pixels.
pub const CHUNK_WIDTH: usize = 320;

/// The height of a chunk in pixels.
pub const CHUNK_HEIGHT: usize = 320;

#[derive(Debug, Clone, Copy, PartialEq, Eq, Structural)]
pub enum Tile {
    Solid,
    Grass,
    Spike,
    Bridge,
}

impl Default for Tile {
    fn default() -> (t: Self)
        ensures
            t == Tile::Solid,
    {
        Tile::Solid
    }
}

impl Tile {
    /// The layer in which a tile of this kind is drawn.
    pub open spec fn layer(self) -> Depth {
        match self {
            Tile::Solid => Depth::Tiles,
            Tile::Bridge => Depth::Bridges,
            Tile::Grass => Depth::Grass,
            Tile::Spike => Depth::Grass,
        }
    }

    /// The layer in which a tile of this kind is drawn.
    pub fn depth(self) -> (d: Depth)
        ensures
            d == self.layer(),
    {
        match self {
            Tile::Solid => Depth::Tiles,
            Tile::Bridge => Depth::Bridges,
            Tile::Grass => Depth::Grass,
            Tile::Spike => Depth::Grass,
        }
    }
}

/// The description of a chunk: the sheet its sprites are cut from and its
/// tiles, row by row from the bottom.
#[derive(Debug)]
pub struct ChunkData {
    pub spritesheet: String,
    pub tiles: [[Option<Tile>; CHUNK_TILES]; CHUNK_TILES],
}

/// The number of the sprite of a solid tile, by which of its eight
/// neighbours are solid. The neighbours are given counterclockwise from the
/// lower left one.
pub open spec fn solid_sprite(n: (bool, bool, bool, bool, bool, bool, bool, bool)) -> usize {
    match n {
        (_, true, true, true, true, true, _, false) => 0,
        (true, true, true, true, _, false, _, true) => 1,
        (true, true, _, false, _, true, true, true) => 2,
        (_, false, _, true, true, true, true, true) => 3,
        (_, true, true, true, _, false, _, false) => 4,
        (true, true, _, false, _, false, _, true) => 5,
        (_, false, _, false, _, true, true, true) => 6,
        (_, false, _, true, true, true, _, false) => 7,
        (true, true, true, true, true, true, false, true) => 8,
        (true, true, true, true, false, true, true, true) => 9,
        (true, true, false, true, true, true, true, true) => 10,
        (false, true, true, true, true, true, true, true) => 11,
        (_, false, _, true, _, false, _, false) => 12,
        (_, false, _, true, _, false, _, true) => 13,
        (_, false, _, false, _, false, _, true) => 14,
        (_, true, _, false, _, false, _, false) => 15,
        (_, true, _, false, _, true, _, false) => 19,
        (_, false, _, false, _, true, _, false) => 23,
        (_, false, _, false, _, false, _, false) => 27,
        (false, true, true, true, _, false, _, true) => 28,
        (true, true, false, true, _, false, _, true) => 29,
        (false, true, false, true, _, false, _, true) => 30,
        (true, true, _, false, _, true, false, true) => 31,
        (_, true, false, true, false, true, _, false) => 32,
        (_, true, false, true, _, false, _, false) => 33,
        (false, true, _, false, _, false, _, true) => 34,
        (false, true, _, false, _, true, true, true) => 35,
        (_, true, true, true, false, true, _, false) => 36,
        (_, false, _, false, _, true, false, true) => 37,
        (_, false, _, true, false, true, _, false) => 38,
        (false, true, _, false, _, true, false, true) => 39,
        (_, true, false, true, true, true, _, false) => 40,
        (_, false, _, true, false, true, false, true) => 41,
        (_, false, _, true, true, true, false, true) => 42,
        (_, false, _, true, false, true, true, true) => 43,
        (true, true, true, true, false, true, false, true) => 44,
        (true, true, false, true, true, true, false, true) => 45,
        (false, true, true, true, true, true, false, true) => 46,
        (false, true, false, true, false, true, false, true) => 47,
        (true, true, false, true, false, true, true, true) => 48,
        (false, true, true, true, false, true, true, true) => 49,
        (false, true, false, true, true, true, true, true) => 50,
        (true, true, true, true, true, true, true, true) => 51,
        (true, true, false, true, false, true, false, true) => 52,
        (false, true, false, true, false, true, true, true) => 53,
        (false, true, false, true, true, true, false, true) => 54,
        (false, true, true, true, false, true, false, true) => 55,
    }
}

/// The remainder modulo `m` of the difference `a - b` of two machine words,
/// where a negative difference wraps around. `m` is 2 or 6: the number of
/// machine words leaves the remainder 0 modulo 2 and 4 modulo 6.
pub open spec fn wrapped_remainder(a: int, b: int, m: int) -> int {
    if a >= b {
        (a - b) % m
    } else if m == 2 {
        (a - b) % 2
    } else {
        (a - b + 4) % m
    }
}

impl ChunkData {
    /// The sheet of a chunk that names no other.
    pub open spec fn default_spritesheet() -> Seq<char> {
        "textures/grassland.png"@
    }
}

impl Default for ChunkData {
    /// A chunk without tiles.
    fn default() -> (d: ChunkData)
        ensures
            forall|x: int, y: int| d.tile_at(x, y) is None,
            d.spritesheet@ == ChunkData::default_spritesheet(),
    {
        ChunkData {
            spritesheet: "textures/grassland.png".to_string(),
            tiles: [[None; CHUNK_TILES]; CHUNK_TILES],
        }
    }
}

impl ChunkData {
    /// The tile at column `x` of row `y`, if the place is in the chunk and
    /// holds one.
    pub open spec fn tile_at(&self, x: int, y: int) -> Option<Tile> {
        if 0 <= x < CHUNK_TILES && 0 <= y < CHUNK_TILES {
            self.tiles[y][x]
        } else {
            None
        }
    }

    /// Whether the place at column `x` of row `y` counts as solid: it holds
    /// a solid tile, or it lies outside of the chunk.
    pub open spec fn solid_at(&self, x: int, y: int) -> bool {
        if 0 <= x < CHUNK_TILES && 0 <= y < CHUNK_TILES {
            self.tiles[y][x] == Some(Tile::Solid)
        } else {
            true
        }
    }

    /// Which of the eight neighbours of the place at column `x` of row `y`
    /// count as solid, counterclockwise from the lower left one.
    pub open spec fn solid_neighbours(&self, x: int, y: int) -> (
        bool,
        bool,
        bool,
        bool,
        bool,
        bool,
        bool,
        bool,
    ) {
        (
            self.solid_at(x - 1, y - 1),
            self.solid_at(x, y - 1),
            self.solid_at(x + 1, y - 1),
            self.solid_at(x + 1, y),
            self.solid_at(x + 1, y + 1),
            self.solid_at(x, y + 1),
            self.solid_at(x - 1, y + 1),
            self.solid_at(x - 1, y),
        )
    }

    /// The number of the sprite of the tile `tile` at column `x` of row `y`.
    pub open spec fn sprite_number(&self, tile: Tile, x: int, y: int) -> int {
        match tile {
            Tile::Bridge => if self.solid_at(x - 1, y) {
                24
            } else if self.solid_at(x + 1, y) {
                26
            } else {
                25
            },
            Tile::Solid => solid_sprite(self.solid_neighbours(x, y)) as int,
            Tile::Grass => {
                let r = wrapped_remainder(x * x * 2, y % 7 + 3, 6);
                if r < 3 {
                    16 + r
                } else {
                    17 + r
                }
            },
            Tile::Spike => 56 + wrapped_remainder(x * x * 5, y % 11 + 3, 2),
        }
    }

    /// Puts `tile` at column `x` of row `y`, or empties the place.
    pub fn set_tile(&mut self, x: usize, y: usize, tile: Option<Tile>)
        requires
            x < CHUNK_TILES,
            y < CHUNK_TILES,
        ensures
            final(self).spritesheet == old(self).spritesheet,
            forall|a: int, b: int|
                #![trigger final(self).tile_at(a, b)]
                final(self).tile_at(a, b) == (if a == x && b == y {
                    tile
                } else {
                    old(self).tile_at(a, b)
                }),
    {
        broadcast use vstd::array::group_array_axioms;

        self.tiles[y][x] = tile;
    }

    pub fn width(&self) -> (w: usize)
        ensures
            w == CHUNK_TILES,
    {
        CHUNK_TILES
    }

    pub fn height(&self) -> (h: usize)
        ensures
            h == CHUNK_TILES,
    {
        CHUNK_TILES
    }

    /// The tile at column `x` of row `y`.
    pub fn tile(&self, place: (usize, usize)) -> (t: Option<Tile>)
        ensures
            t == self.tile_at(place.0 as int, place.1 as int),
    {
        let (x, y) = place;
        if x < CHUNK_TILES && y < CHUNK_TILES {
            self.tiles[y][x]
        } else {
            None
        }
    }

    /// Whether the place at column `x` of row `y` counts as solid. A place
    /// left of the first column or below the first row is given by
    /// `usize::MAX`.
    pub fn is_solid(&self, x: usize, y: usize) -> (r: bool)
        ensures
            x < CHUNK_TILES && y < CHUNK_TILES ==> r == self.solid_at(x as int, y as int),
            x >= CHUNK_TILES || y >= CHUNK_TILES ==> r,
    {
        if x < self.width() && y < self.height() {
            if let Some(tile) = self.tile((x, y)) {
                tile == Tile::Solid
            } else {
                false
            }
        } else {
            true
        }
    }

    pub fn get_spike_sprite_number(&self, x: usize, y: usize) -> (n: usize)
        requires
            x < CHUNK_TILES,
            y < CHUNK_TILES,
        ensures
            n == self.sprite_number(Tile::Spike, x as int, y as int),
    {
        assert(x * x <= 225) by (nonlinear_arith)
            requires
                x <= 15,
        ;
        let a: usize = x * x * 5;
        let b: usize = y % 11 + 3;
        let even = if a >= b {
            (a - b) % 2 == 0
        } else {
            (b - a) % 2 == 0
        };
        if even {
            56
        } else {
            57
        }
    }

    pub fn get_grass_sprite_number(&self, x: usize, y: usize) -> (n: usize)
        requires
            x < CHUNK_TILES,
            y < CHUNK_TILES,
        ensures
            n == self.sprite_number(Tile::Grass, x as int, y as int),
    {
        assert(x * x <= 225) by (nonlinear_arith)
            requires
                x <= 15,
        ;
        let a: usize = x * x * 2;
        let b: usize = y % 7 + 3;
        let r: usize = if a >= b {
            (a - b) % 6
        } else {
            // b - a is at most 9
            (10 + a - b) % 6
        };
        if r == 0 {
            16
        } else if r == 1 {
            17
        } else if r == 2 {
            18
        } else if r == 3 {
            20
        } else if r == 4 {
            21
        } else {
            22
        }
    }

    pub fn get_bridge_sprite_number(&self, x: usize, y: usize) -> (n: usize)
        requires
            x < CHUNK_TILES,
            y < CHUNK_TILES,
        ensures
            n == self.sprite_number(Tile::Bridge, x as int, y as int),
    {
        // 0 x 1
        let tiles = (self.is_solid(x.wrapping_sub(1), y), self.is_solid(x + 1, y));

        match tiles {
            (true, _) => 24,
            (false, false) => 25,
            (false, true) => 26,
        }
    }

    pub fn get_solid_sprite_number(&self, x: usize, y: usize) -> (n: usize)
        requires
            x < CHUNK_TILES,
            y < CHUNK_TILES,
        ensures
            n == self.sprite_number(Tile::Solid, x as int, y as int),
    {
        // 6 5 4
        // 7 x 3
        // 0 1 2
        let tiles = (
            self.is_solid(x.wrapping_sub(1), y.wrapping_sub(1)),
            self.is_solid(x, y.wrapping_sub(1)),
            self.is_solid(x + 1, y.wrapping_sub(1)),
            self.is_solid(x + 1, y),
            self.is_solid(x + 1, y + 1),
            self.is_solid(x, y + 1),
            self.is_solid(x.wrapping_sub(1), y + 1),
            self.is_solid(x.wrapping_sub(1), y),
        );
        assert(tiles == self.solid_neighbours(x as int, y as int));

        match tiles {
            (_, true, true, true, true, true, _, false) => 0,
            (true, true, true, true, _, false, _, true) => 1,
            (true, true, _, false, _, true, true, true) => 2,
            (_, false, _, true, true, true, true, true) => 3,
            (_, true, true, true, _, false, _, false) => 4,
            (true, true, _, false, _, false, _, true) => 5,
            (_, false, _, false, _, true, true, true) => 6,
            (_, false, _, true, true, true, _, false) => 7,
            (true, true, true, true, true, true, false, true) => 8,
            (true, true, true, true, false, true, true, true) => 9,
            (true, true, false, true, true, true, true, true) => 10,
            (false, true, true, true, true, true, true, true) => 11,
            (_, false, _, true, _, false, _, false) => 12,
            (_, false, _, true, _, false, _, true) => 13,
            (_, false, _, false, _, false, _, true) => 14,
            (_, true, _, false, _, false, _, false) => 15,
            (_, true, _, false, _, true, _, false) => 19,
            (_, false, _, false, _, true, _, false) => 23,
            (_, false, _, false, _, false, _, false) => 27,
            (false, true, true, true, _, false, _, true) => 28,
            (true, true, false, true, _, false, _, true) => 29,
            (false, true, false, true, _, false, _, true) => 30,
            (true, true, _, false, _, true, false, true) => 31,
            (_, true, false, true, false, true, _, false) => 32,
            (_, true, false, true, _, false, _, false) => 33,
            (false, true, _, false, _, false, _, true) => 34,
            (false, true, _, false, _, true, true, true) => 35,
            (_, true, true, true, false, true, _, false) => 36,
            (_, false, _, false, _, true, false, true) => 37,
            (_, false, _, true, false, true, _, false) => 38,
            (false, true, _, false, _, true, false, true) => 39,
            (_, true, false, true, true, true, _, false) => 40,
            (_, false, _, true, false, true, false, true) => 41,
            (_, false, _, true, true, true, false, true) => 42,
            (_, false, _, true, false, true, true, true) => 43,
            (true, true, true, true, false, true, false, true) => 44,
            (true, true, false, true, true, true, false, true) => 45,
            (false, true, true, true, true, true, false, true) => 46,
            (false, true, false, true, false, true, false, true) => 47,
            (true, true, false, true, false, true, true, true) => 48,
            (false, true, true, true, false, true, true, true) => 49,
            (false, true, false, true, true, true, true, true) => 50,
            (true, true, true, true, true, true, true, true) => 51,
            (true, true, false, true, false, true, false, true) => 52,
            (false, true, false, true, false, true, true, true) => 53,
            (false, true, false, true, true, true, false, true) => 54,
            (false, true, true, true, false, true, false, true) => 55,
        }
    }
}

/// A chunk that is part of the world.
#[derive(Debug)]
pub struct Chunk {
    /// The column and the row of the chunk in the grid of chunks.
    pub position: (i32, i32),
    /// The entities of the chunk.
    pub tiles: Vec<Entity>,
    /// The description that the tiles were built from.
    pub data: ChunkData,
    /// The marker that an editor shows on a chunk it has changed.
    pub changed: Option<Entity>,
}

/// The side of a tile in world units.
pub const TILE_UNITS: u32 = 20_000;

/// The height of a spike in world units.
pub const SPIKE_UNITS: u32 = 10_000;

/// The side of a chunk in world units.
pub const CHUNK_UNITS: u32 = 320_000;

/// The lower left corner of the chunk at `chunk` of the grid of chunks,
/// moved by `x` and `y` pixels.
pub open spec fn place_in_chunk(chunk: (i32, i32), x: int, y: int) -> Position {
    Position {
        x: clamp_i32((chunk.0 * CHUNK_WIDTH + x) * UNIT) as i32,
        y: clamp_i32((chunk.1 * CHUNK_HEIGHT + y) * UNIT) as i32,
    }
}

/// The collider of a tile, for the kinds of tile that have one.
pub open spec fn collider_of(tile: Tile) -> Option<Collider> {
    match tile {
        Tile::Solid => Some(Collider { w: TILE_UNITS, h: TILE_UNITS, ty: ColliderType::Environment }),
        Tile::Bridge => Some(Collider { w: TILE_UNITS, h: TILE_UNITS, ty: ColliderType::Bridge }),
        Tile::Spike => Some(
            Collider { w: TILE_UNITS, h: SPIKE_UNITS, ty: ColliderType::PlayerDamage },
        ),
        Tile::Grass => None,
    }
}

/// What the building of a chunk writes, as maps and plain values.
#[verifier::ext_equal]
pub struct Terrain {
    pub count: usize,
    pub deleted: Seq<Entity>,
    pub positions: Map<Entity, Position>,
    pub colliders: Map<Entity, Collider>,
    pub depths: Map<Entity, Depth>,
    pub sprites: Map<Entity, SpriteNumber>,
    /// The entities of the chunk.
    pub tiles: Seq<Entity>,
}

/// What the building of a chunk writes, taken from the components and the
/// entities of the chunk.
pub open spec fn terrain_of(c: &Components, tiles: Seq<Entity>) -> Terrain {
    Terrain {
        count: c.count,
        deleted: c.deleted@,
        positions: c.positions@,
        colliders: c.colliders@,
        depths: c.depths@,
        sprites: c.sprites@,
        tiles,
    }
}

/// Whether `new` holds what `old` holds of the components that the
/// building of a chunk does not write.
pub open spec fn same_besides_terrain(new: &Components, old: &Components) -> bool {
    &&& new.animations@ == old.animations@
    &&& new.previous_positions@ == old.previous_positions@
    &&& new.velocities@ == old.velocities@
    &&& new.grounded@ == old.grounded@
    &&& new.wall_collisions@ == old.wall_collisions@
    &&& new.gravity@ == old.gravity@
    &&& new.ignore_bridges@ == old.ignore_bridges@
    &&& new.player_state@ == old.player_state@
    &&& new.player_animations@ == old.player_animations@
    &&& new.mirrored@ == old.mirrored@
    &&& new.cameras@ == old.cameras@
}

impl Terrain {
    /// The identifier that is handed out next.
    pub open spec fn next_entity(self) -> Entity {
        if self.deleted.len() > 0 {
            self.deleted.last()
        } else {
            Entity(self.count)
        }
    }

    /// The terrain after the next identifier was handed out.
    pub open spec fn after_entity(self) -> Terrain {
        if self.deleted.len() > 0 {
            Terrain { deleted: self.deleted.drop_last(), ..self }
        } else {
            Terrain { count: (self.count + 1) as usize, ..self }
        }
    }

    /// Whether `n` more identifiers can be handed out.
    pub open spec fn has_room(self, n: int) -> bool {
        self.count + n <= usize::MAX
    }

    /// The terrain with the tile at column `x` of row `y` of `data` added to
    /// the chunk at `chunk`: a new entity with its place, the collider and
    /// the layer of its kind, and the number of its sprite. An empty place
    /// adds nothing.
    pub open spec fn with_tile(self, chunk: (i32, i32), data: &ChunkData, x: int, y: int) -> Terrain {
        match data.tile_at(x, y) {
            None => self,
            Some(tile) => {
                let e = self.next_entity();
                let t = self.after_entity();
                Terrain {
                    tiles: t.tiles.push(e),
                    positions: t.positions.insert(
                        e,
                        place_in_chunk(chunk, x * TILE_SIZE, y * TILE_SIZE),
                    ),
                    colliders: match collider_of(tile) {
                        Some(collider) => t.colliders.insert(e, collider),
                        None => t.colliders,
                    },
                    depths: t.depths.insert(e, tile.layer()),
                    sprites: t.sprites.insert(
                        e,
                        SpriteNumber(data.sprite_number(tile, x, y) as usize),
                    ),
                    ..t
                }
            },
        }
    }

    /// The terrain with the first `k` tiles of `data` added, row by row
    /// from the bottom and in each row from the left.
    pub open spec fn with_tiles(self, chunk: (i32, i32), data: &ChunkData, k: nat) -> Terrain
        decreases k,
    {
        if k == 0 {
            self
        } else {
            self.with_tiles(chunk, data, (k - 1) as nat).with_tile(
                chunk,
                data,
                (k - 1) % (CHUNK_TILES as int),
                (k - 1) / (CHUNK_TILES as int),
            )
        }
    }
}

/// Adding tiles hands out one identifier for each at most.
pub proof fn lemma_tiles_need_room(t: Terrain, chunk: (i32, i32), data: &ChunkData, k: nat)
    ensures
        t.with_tiles(chunk, data, k).count <= t.count + k,
        t.count + k <= usize::MAX ==> t.with_tiles(chunk, data, k).count >= t.count,
    decreases k,
{
    if k > 0 {
        lemma_tiles_need_room(t, chunk, data, (k - 1) as nat);
    }
}

/// The place in world units of a corner `x` and `y` pixels into the chunk
/// at `chunk`.
fn place(chunk: (i32, i32), x: usize, y: usize) -> (p: Position)
    requires
        x <= CHUNK_WIDTH,
        y <= CHUNK_HEIGHT,
    ensures
        p == place_in_chunk(chunk, x as int, y as int),
{
    let px: i64 = chunk.0 as i64 * 320 + x as i64;
    let py: i64 = chunk.1 as i64 * 320 + y as i64;
    assert(px * 1000 == (chunk.0 * CHUNK_WIDTH + x) * UNIT && py * 1000 == (chunk.1 * CHUNK_HEIGHT
        + y) * UNIT) by (nonlinear_arith)
        requires
            UNIT == 1000,
            CHUNK_WIDTH == 320,
            CHUNK_HEIGHT == 320,
            px == chunk.0 * 320 + x,
            py == chunk.1 * 320 + y,
    ;
    Position { x: saturate(px * 1000), y: saturate(py * 1000) }
}

impl Chunk {
    /// Adds the tile at column `x` of row `y` of `config` to the entities
    /// `tiles` of the chunk at `chunk`.
    fn add_tile_to(
        tiles: &mut Vec<Entity>,
        chunk: (i32, i32),
        x: usize,
        y: usize,
        config: &ChunkData,
        c: &mut Components,
    )
        requires
            x < CHUNK_TILES,
            y < CHUNK_TILES,
            old(c).count < usize::MAX,
        ensures
            terrain_of(final(c), final(tiles)@) == terrain_of(old(c), old(tiles)@).with_tile(
                chunk,
                config,
                x as int,
                y as int,
            ),
            same_besides_terrain(final(c), old(c)),
    {
        if let Some(tile) = config.tiles[y][x] {
            let entity = c.new_entity();

            tiles.push(entity);

            c.positions.insert(entity, place(chunk, x * TILE_SIZE, y * TILE_SIZE));

            match tile {
                Tile::Solid => {
                    c.colliders.insert(
                        entity,
                        Collider { w: TILE_UNITS, h: TILE_UNITS, ty: ColliderType::Environment },
                    );
                },
                Tile::Bridge => {
                    c.colliders.insert(
                        entity,
                        Collider { w: TILE_UNITS, h: TILE_UNITS, ty: ColliderType::Bridge },
                    );
                },
                Tile::Spike => {
                    c.colliders.insert(
                        entity,
                        Collider { w: TILE_UNITS, h: SPIKE_UNITS, ty: ColliderType::PlayerDamage },
                    );
                },
                Tile::Grass => (),
            }

            c.depths.insert(entity, tile.depth());

            c.sprites.insert(
                entity,
                SpriteNumber(
                    match tile {
                        Tile::Bridge => config.get_bridge_sprite_number(x, y),
                        Tile::Solid => config.get_solid_sprite_number(x, y),
                        Tile::Grass => config.get_grass_sprite_number(x, y),
                        Tile::Spike => config.get_spike_sprite_number(x, y),
                    },
                ),
            );
        }
    }

    /// Adds every tile of `config` to the entities `tiles` of the chunk at
    /// `chunk`.
    fn add_tiles_to(
        tiles: &mut Vec<Entity>,
        chunk: (i32, i32),
        config: &ChunkData,
        c: &mut Components,
    )
        requires
            old(c).count + CHUNK_TILES * CHUNK_TILES <= usize::MAX,
        ensures
            terrain_of(final(c), final(tiles)@) == terrain_of(old(c), old(tiles)@).with_tiles(
                chunk,
                config,
                (CHUNK_TILES * CHUNK_TILES) as nat,
            ),
            same_besides_terrain(final(c), old(c)),
    {
        let ghost start = terrain_of(c, tiles@);
        let mut y: usize = 0;
        while y < CHUNK_TILES
            invariant
                y <= CHUNK_TILES,
                start.count + CHUNK_TILES * CHUNK_TILES <= usize::MAX,
                terrain_of(c, tiles@) == start.with_tiles(chunk, config, (y * CHUNK_TILES) as nat),
                same_besides_terrain(c, old(c)),
            decreases CHUNK_TILES - y,
        {
            let mut x: usize = 0;
            while x < CHUNK_TILES
                invariant
                    x <= CHUNK_TILES,
                    y < CHUNK_TILES,
                    start.count + CHUNK_TILES * CHUNK_TILES <= usize::MAX,
                    terrain_of(c, tiles@) == start.with_tiles(
                        chunk,
                        config,
                        (y * CHUNK_TILES + x) as nat,
                    ),
                    same_besides_terrain(c, old(c)),
                decreases CHUNK_TILES - x,
            {
                proof {
                    lemma_tiles_need_room(start, chunk, config, (y * CHUNK_TILES + x) as nat);
                }
                Self::add_tile_to(tiles, chunk, x, y, config, c);
                x += 1;
            }
            y += 1;
        }
    }

    /// A chunk without tiles at `position` of the grid of chunks. Its only
    /// entity keeps the camera inside of it.
    pub fn empty(position: (i32, i32), c: &mut Components) -> (chunk: Chunk)
        requires
            old(c).deleted@.len() > 0 || old(c).count < usize::MAX,
        ensures
            chunk.position == position,
            chunk.changed is None,
            forall|x: int, y: int| chunk.data.tile_at(x, y) is None,
            chunk.data.spritesheet@ == ChunkData::default_spritesheet(),
            chunk.tiles@ == seq![terrain_of(old(c), Seq::empty()).next_entity()],
            final(c).positions@ == old(c).positions@.insert(
                chunk.tiles@[0],
                place_in_chunk(position, 0, 0),
            ),
            final(c).colliders@ == old(c).colliders@.insert(
                chunk.tiles@[0],
                Collider { w: CHUNK_UNITS, h: CHUNK_UNITS, ty: ColliderType::CameraRestriction },
            ),
            final(c).depths@ == old(c).depths@,
            final(c).sprites@ == old(c).sprites@,
            terrain_of(final(c), Seq::empty()).count == terrain_of(
                old(c),
                Seq::empty(),
            ).after_entity().count,
            final(c).deleted@ == terrain_of(old(c), Seq::empty()).after_entity().deleted,
            same_besides_terrain(final(c), old(c)),
    {
        let mut tiles = Vec::new();

        let restriction = c.new_entity();
        tiles.push(restriction);
        c.positions.insert(restriction, place(position, 0, 0));

        c.colliders.insert(
            restriction,
            Collider { w: CHUNK_UNITS, h: CHUNK_UNITS, ty: ColliderType::CameraRestriction },
        );

        Chunk { position, tiles, data: ChunkData::default(), changed: None }
    }

    /// The chunk at `position` of the grid of chunks with the tiles of
    /// `data`.
    pub fn new(position: (i32, i32), data: ChunkData, c: &mut Components) -> (chunk: Chunk)
        requires
            old(c).count + CHUNK_TILES * CHUNK_TILES <= usize::MAX,
        ensures
            chunk.position == position,
            chunk.data == data,
            chunk.changed is None,
            terrain_of(final(c), chunk.tiles@) == terrain_of(old(c), Seq::empty()).with_tiles(
                position,
                &data,
                (CHUNK_TILES * CHUNK_TILES) as nat,
            ),
            same_besides_terrain(final(c), old(c)),
    {
        let mut tiles = Vec::new();
        Self::add_tiles_to(&mut tiles, position, &data, c);
        Chunk { position, tiles, data, changed: None }
    }

    /// Adds the tile at column `place.0` of row `place.1` of `config` to
    /// the chunk.
    pub fn add_tile(&mut self, place: (usize, usize), config: &ChunkData, c: &mut Components)
        requires
            place.0 < CHUNK_TILES,
            place.1 < CHUNK_TILES,
            old(c).count < usize::MAX,
        ensures
            terrain_of(final(c), final(self).tiles@) == terrain_of(
                old(c),
                old(self).tiles@,
            ).with_tile(old(self).position, config, place.0 as int, place.1 as int),
            same_besides_terrain(final(c), old(c)),
            final(self).position == old(self).position,
            final(self).data == old(self).data,
            final(self).changed == old(self).changed,
    {
        Self::add_tile_to(&mut self.tiles, self.position, place.0, place.1, config, c);
    }
}

impl Chunk {
    /// The entities that belong to the chunk: its tiles and its marker.
    pub open spec fn entities(&self) -> Seq<Entity> {
        match self.changed {
            Some(marker) => self.tiles@.push(marker),
            None => self.tiles@,
        }
    }

    /// Deletes the entities of the chunk, the tiles in their order and then
    /// the marker.
    pub fn clear(&mut self, c: &mut Components)
        ensures
            final(self).tiles@.len() == 0,
            final(self).changed is None,
            final(self).position == old(self).position,
            final(self).data == old(self).data,
            final(c).is_without_all(old(c), old(self).entities().to_set()),
            final(c).deleted@ == old(c).deleted@ + old(self).entities(),
            final(c).count == old(c).count,
    {
        let ghost tiles = self.tiles@;
        let ghost entities = self.entities();
        let mut i: usize = 0;
        proof {
            lemma_without_nobody(c);
            assert(tiles.take(0).to_set() =~= Set::<Entity>::empty());
            assert(c.deleted@ =~= old(c).deleted@ + tiles.take(0));
        }
        while i < self.tiles.len()
            invariant
                i <= tiles.len(),
                self.tiles@ == tiles,
                self.changed == old(self).changed,
                self.position == old(self).position,
                self.data == old(self).data,
                c.is_without_all(old(c), tiles.take(i as int).to_set()),
                c.deleted@ == old(c).deleted@ + tiles.take(i as int),
                c.count == old(c).count,
            decreases tiles.len() - i,
        {
            let ghost middle = *c;
            let e = self.tiles[i];
            c.delete_entity(e);
            proof {
                lemma_without_one_more(c, &middle, old(c), tiles.take(i as int).to_set(), e);
                assert(tiles.take(i + 1) =~= tiles.take(i as int).push(e));
                tiles.take(i as int).lemma_push_to_set_commute(e);
                assert(c.deleted@ =~= old(c).deleted@ + tiles.take(i + 1));
            }
            i += 1;
        }
        assert(tiles.take(tiles.len() as int) =~= tiles);
        self.tiles.clear();
        if let Some(marker) = self.changed.take() {
            let ghost middle = *c;
            c.delete_entity(marker);
            proof {
                lemma_without_one_more(c, &middle, old(c), tiles.to_set(), marker);
                tiles.lemma_push_to_set_commute(marker);
                assert(c.deleted@ =~= old(c).deleted@ + entities);
            }
        }
    }
}

/// How far the marker of a changed chunk stands from the corner of the
/// chunk, in pixels.
pub const MARKER_OFFSET: usize = 10;

impl Terrain {
    /// The terrain after the entities `gone` were deleted.
    pub open spec fn without(self, gone: Seq<Entity>) -> Terrain {
        Terrain {
            count: self.count,
            deleted: self.deleted + gone,
            positions: self.positions.remove_keys(gone.to_set()),
            colliders: self.colliders.remove_keys(gone.to_set()),
            depths: self.depths.remove_keys(gone.to_set()),
            sprites: self.sprites.remove_keys(gone.to_set()),
            tiles: Seq::empty(),
        }
    }

    /// The terrain with the marker of the changed chunk at `chunk`: a new
    /// entity near the corner of the chunk, in the layer of the editor.
    pub open spec fn with_marker(self, chunk: (i32, i32)) -> Terrain {
        let e = self.next_entity();
        let t = self.after_entity();
        Terrain {
            positions: t.positions.insert(
                e,
                place_in_chunk(chunk, MARKER_OFFSET as int, MARKER_OFFSET as int),
            ),
            depths: t.depths.insert(e, Depth::EditorSelection),
            ..t
        }
    }
}

/// Whether `new` holds what `old` holds, but for the entities `gone`, of
/// the components that the building of a chunk does not write.
pub open spec fn same_besides_terrain_without(
    new: &Components,
    old: &Components,
    gone: Set<Entity>,
) -> bool {
    &&& new.animations@ == old.animations@.remove_keys(gone)
    &&& new.previous_positions@ == old.previous_positions@.remove_keys(gone)
    &&& new.velocities@ == old.velocities@.remove_keys(gone)
    &&& new.grounded@ == old.grounded@.remove_keys(gone)
    &&& new.wall_collisions@ == old.wall_collisions@.remove_keys(gone)
    &&& new.gravity@ == old.gravity@.remove_keys(gone)
    &&& new.ignore_bridges@ == old.ignore_bridges@.remove_keys(gone)
    &&& new.player_state@ == old.player_state@.remove_keys(gone)
    &&& new.player_animations@ == old.player_animations@.remove_keys(gone)
    &&& new.mirrored@ == old.mirrored@.remove_keys(gone)
    &&& new.cameras@ == old.cameras@.remove_keys(gone)
}

impl Chunk {
    /// Builds the entities of the chunk anew from its description: deletes
    /// the entities it has, makes the marker of a changed chunk, and adds
    /// every tile of the description.
    pub fn rebuild(&mut self, c: &mut Components)
        requires
            old(c).count + CHUNK_TILES * CHUNK_TILES + 1 <= usize::MAX,
        ensures
            final(self).position == old(self).position,
            final(self).data == old(self).data,
            final(self).changed == Some(
                terrain_of(old(c), Seq::empty()).without(old(self).entities()).next_entity(),
            ),
            terrain_of(final(c), final(self).tiles@) == terrain_of(old(c), Seq::empty()).without(
                old(self).entities(),
            ).with_marker(old(self).position).with_tiles(
                old(self).position,
                &old(self).data,
                (CHUNK_TILES * CHUNK_TILES) as nat,
            ),
            same_besides_terrain_without(final(c), old(c), old(self).entities().to_set()),
    {
        self.clear(c);
        let ghost cleared = terrain_of(c, self.tiles@);
        assert(cleared == terrain_of(old(c), Seq::empty()).without(old(self).entities()));

        let changed = c.new_entity();
        self.changed = Some(changed);
        c.positions.insert(changed, place(self.position, MARKER_OFFSET, MARKER_OFFSET));
        c.depths.insert(changed, Depth::EditorSelection);
        assert(terrain_of(c, self.tiles@) == cleared.with_marker(self.position));

        Self::add_tiles_to(&mut self.tiles, self.position, &self.data, c);
    }
}

/// The number of sprites in the sheet of a chunk.
pub const SHEET_SPRITES: usize = 58;

/// The number of sprites in one row of a sheet of the width `width`.
pub open spec fn sprites_per_row(width: u32) -> int {
    if width == 0 {
        1
    } else {
        (width + TILE_SIZE - 1) / (TILE_SIZE as int)
    }
}

/// The sprite `k` of a sheet of the given size: the sprites are squares of
/// the size of a tile, laid out in rows from the upper left corner, where
/// positions count from the lower left corner.
pub open spec fn sheet_sprite(width: u32, height: u32, k: int) -> SpriteConfig {
    SpriteConfig {
        position: (
            ((k % sprites_per_row(width)) * TILE_SIZE) as u32,
            (height - (k / sprites_per_row(width) + 1) * TILE_SIZE) as u32,
        ),
        size: (TILE_SIZE as u32, TILE_SIZE as u32),
        offset: (0, 0),
    }
}

/// Whether a sheet of the given size has room for the sprites of a chunk.
pub open spec fn sheet_has_room(width: u32, height: u32) -> bool {
    &&& width <= u32::MAX - TILE_SIZE
    &&& ((SHEET_SPRITES - 1) / sprites_per_row(width) + 1) * TILE_SIZE <= height
}

impl Chunk {
    /// Where the sprites of a chunk lie in a sheet of the given size.
    pub fn build_spritesheet(width: u32, height: u32) -> (sprites: Vec<SpriteConfig>)
        requires
            sheet_has_room(width, height),
        ensures
            sprites@.len() == SHEET_SPRITES,
            forall|k: int| 0 <= k < SHEET_SPRITES ==> #[trigger] sprites@[k] == sheet_sprite(
                width,
                height,
                k,
            ),
    {
        let ghost per = sprites_per_row(width);
        let mut sprites: Vec<SpriteConfig> = Vec::new();
        let mut y: u32 = height;
        let mut x: u32 = 0;
        let ghost mut row: int = 0;
        let ghost mut col: int = 0;
        proof {
            assert(per >= 1);
            if width > 0 {
                assert(per * 20 >= width && (per - 1) * 20 < width);
            }
        }
        let mut k: usize = 0;
        while k < SHEET_SPRITES
            invariant
                k <= SHEET_SPRITES,
                per == sprites_per_row(width),
                per >= 1,
                width > 0 ==> per * 20 >= width && (per - 1) * 20 < width,
                sheet_has_room(width, height),
                sprites@.len() == k,
                forall|j: int| 0 <= j < k ==> #[trigger] sprites@[j] == sheet_sprite(width, height, j),
                0 <= col < per,
                0 <= row,
                k == row * per + col,
                x == col * 20,
                col > 0 ==> x < width,
                y == height - (if col == 0 {
                    row
                } else {
                    row + 1
                }) * 20,
            decreases SHEET_SPRITES - k,
        {
            proof {
                vstd::arithmetic::div_mod::lemma_fundamental_div_mod_converse(
                    k as int,
                    per,
                    row,
                    col,
                );
                assert(row == (k as int) / per && col == (k as int) % per);
                vstd::arithmetic::div_mod::lemma_div_is_ordered(
                    k as int,
                    (SHEET_SPRITES - 1) as int,
                    per,
                );
                assert((row + 1) * 20 <= (((SHEET_SPRITES - 1) / per) + 1) * 20) by (nonlinear_arith)
                    requires
                        row <= (SHEET_SPRITES - 1) / per,
                ;
            }
            if x == 0 {
                y -= 20;
            }
            sprites.push(SpriteConfig { position: (x, y), size: (20, 20), offset: (0, 0) });

            x += 20;
            if x >= width {
                x = 0;
                proof {
                    assert(col + 1 == per) by (nonlinear_arith)
                        requires
                            (col + 1) * 20 >= width,
                            0 <= col < per,
                            width > 0 ==> (per - 1) * 20 < width,
                            width == 0 ==> per == 1,
                    ;
                    assert((row + 1) * per + 0 == row * per + col + 1) by (nonlinear_arith)
                        requires
                            col + 1 == per,
                    ;
                    row = row + 1;
                    col = 0;
                }
            } else {
                proof {
                    assert(col + 1 < per) by (nonlinear_arith)
                        requires
                            (col + 1) * 20 < width,
                            per * 20 >= width,
                    ;
                    col = col + 1;
                }
            }
            k += 1;
        }
        sprites
    }
}

} // verus!
