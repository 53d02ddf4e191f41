//! The static geometry of the world, kept in square chunks of tiles.

pub mod chunk;

use crate::data::{lemma_without_nobody, Collider, ColliderType, Components, Position};
use crate::ecs::Entity;
use crate::environment::chunk::{
    place_in_chunk, same_besides_terrain, terrain_of, Chunk, ChunkData, CHUNK_HEIGHT, CHUNK_TILES,
    CHUNK_UNITS, CHUNK_WIDTH,
};
use crate::ressources::Ressources;
use crate::systems::camera::{is_unique_player, unique_player};
use crate::units::{div_toward_zero, UNIT};
use vstd::prelude::*;

verus! {

/// Where the description of each chunk of the world is kept.
#[derive(Debug)]
pub struct WorldData {
    /// The place of a chunk in the grid of chunks and the path of its
    /// description. Of two entries for one place the first counts.
    pub chunks: Vec<((i32, i32), String)>,
}

/// The world: its description and the chunks that are loaded.
pub struct World {
    pub data: WorldData,
    pub chunks: Vec<Chunk>,
}

impl World {
    /// A world of which no chunk is loaded.
    pub fn new(data: WorldData) -> (w: World)
        ensures
            w.data == data,
            w.chunks@.len() == 0,
    {
        World { data, chunks: Vec::new() }
    }

    /// Forgets the loaded chunks. Their entities are not deleted.
    pub fn reset(&mut self)
        ensures
            final(self).data == old(self).data,
            final(self).chunks@.len() == 0,
    {
        self.chunks.clear();
    }
}

/// The index of the first entry of `chunks` for the place `position`.
pub open spec fn entry_of(chunks: Seq<((i32, i32), String)>, position: (i32, i32)) -> Option<int>
    decreases chunks.len(),
{
    if chunks.len() == 0 {
        None
    } else {
        match entry_of(chunks.drop_last(), position) {
            Some(i) => Some(i),
            None => if chunks.last().0 == position {
                Some(chunks.len() - 1)
            } else {
                None
            },
        }
    }
}

impl WorldData {
    /// The path of the description of the chunk at `position`, if the
    /// world has one.
    pub fn path(&self, position: (i32, i32)) -> (r: Option<&String>)
        ensures
            r == (match entry_of(self.chunks@, position) {
                Some(i) => Some(&self.chunks@[i].1),
                None => None,
            }),
    {
        let mut i: usize = 0;
        while i < self.chunks.len()
            invariant
                i <= self.chunks.len(),
                entry_of(self.chunks@.take(i as int), position) is None,
            decreases self.chunks.len() - i,
        {
            proof {
                assert(self.chunks@.take(i + 1).drop_last() =~= self.chunks@.take(i as int));
            }
            if self.chunks[i].0.0 == position.0 && self.chunks[i].0.1 == position.1 {
                proof {
                    lemma_entry_stays(self.chunks@, position, i as int);
                }
                return Some(&self.chunks[i].1);
            }
            i += 1;
        }
        assert(self.chunks@.take(self.chunks@.len() as int) =~= self.chunks@);
        None
    }
}

/// An entry that is the first one for its place among the first entries is
/// the first one among all.
proof fn lemma_entry_stays(chunks: Seq<((i32, i32), String)>, position: (i32, i32), i: int)
    requires
        0 <= i < chunks.len(),
        entry_of(chunks.take(i), position) is None,
        chunks[i].0 == position,
    ensures
        entry_of(chunks, position) == Some(i),
    decreases chunks.len(),
{
    if chunks.len() - 1 == i {
        assert(chunks.drop_last() =~= chunks.take(i));
    } else {
        assert(chunks.drop_last().take(i) =~= chunks.take(i));
        lemma_entry_stays(chunks.drop_last(), position, i);
    }
}

/// `v / d` rounded to the nearest integer, halves away from zero.
pub open spec fn rounded_quotient(v: int, d: int) -> int
    recommends
        d > 0,
{
    if v >= 0 {
        (v + d / 2) / d
    } else {
        -((-v + d / 2) / d)
    }
}

/// The place in the grid of chunks of the chunk that holds `position`: the
/// position in whole pixels, divided by the size of a chunk and rounded
/// toward zero.
pub open spec fn chunk_at(position: Position) -> (i32, i32) {
    (
        div_toward_zero(rounded_quotient(position.x as int, UNIT as int), CHUNK_WIDTH as int) as i32,
        div_toward_zero(
            rounded_quotient(position.y as int, UNIT as int),
            CHUNK_HEIGHT as int,
        ) as i32,
    )
}

/// The places of the chunk at `center` and of the eight chunks around it,
/// column by column from the left and in each column from the bottom.
pub open spec fn around(center: (i32, i32)) -> Seq<(i32, i32)> {
    seq![
        ((center.0 - 1) as i32, (center.1 - 1) as i32),
        ((center.0 - 1) as i32, center.1),
        ((center.0 - 1) as i32, (center.1 + 1) as i32),
        (center.0, (center.1 - 1) as i32),
        (center.0, center.1),
        (center.0, (center.1 + 1) as i32),
        ((center.0 + 1) as i32, (center.1 - 1) as i32),
        ((center.0 + 1) as i32, center.1),
        ((center.0 + 1) as i32, (center.1 + 1) as i32),
    ]
}

/// Whether a chunk at `position` is loaded.
pub open spec fn is_loaded(chunks: Seq<Chunk>, position: (i32, i32)) -> bool {
    exists|i: int| 0 <= i < chunks.len() && (#[trigger] chunks[i]).position == position
}

/// The places of `wanted` at which no chunk is loaded, in their order.
pub open spec fn missing(chunks: Seq<Chunk>, wanted: Seq<(i32, i32)>) -> Seq<(i32, i32)> {
    wanted.filter(|p: (i32, i32)| !is_loaded(chunks, p))
}

/// The entities of the chunks of `chunks` from the index `from` on that are
/// not at a place of `wanted`.
pub open spec fn unwanted_entities(chunks: Seq<Chunk>, wanted: Seq<(i32, i32)>, from: int) -> Set<
    Entity,
> {
    Set::new(
        |e: Entity|
            exists|i: int|
                from <= i < chunks.len() && !wanted.contains((#[trigger] chunks[i]).position)
                    && chunks[i].entities().contains(e),
    )
}

fn round_to_pixel(v: i32) -> (r: i64)
    ensures
        r == rounded_quotient(v as int, UNIT as int),
        -2_147_484 <= r <= 2_147_484,
{
    if v >= 0 {
        (v as i64 + 500) / 1000
    } else {
        -((-(v as i64) + 500) / 1000)
    }
}

/// The chunks that are left of `chunks` after those at the indices from
/// `from` on that are not at a place of `wanted` were unloaded. The chunks
/// are looked at from the last one down, and the place of one that is
/// unloaded is taken by the last chunk.
pub open spec fn kept_chunks(chunks: Seq<Chunk>, wanted: Seq<(i32, i32)>, from: int) -> Seq<Chunk>
    decreases chunks.len() - from,
{
    if from >= chunks.len() || from < 0 {
        chunks
    } else {
        let later = kept_chunks(chunks, wanted, from + 1);
        if wanted.contains(later[from].position) {
            later
        } else {
            later.update(from, later.last()).drop_last()
        }
    }
}

/// The entities of the chunks of `chunks` from the index `from` on that are
/// not at a place of `wanted`, in the order in which they are deleted: the
/// chunks from the last one down, and the entities of each in their order.
pub open spec fn unloaded_entities(chunks: Seq<Chunk>, wanted: Seq<(i32, i32)>, from: int) -> Seq<
    Entity,
>
    decreases chunks.len() - from,
{
    if from >= chunks.len() || from < 0 {
        Seq::empty()
    } else {
        let later = unloaded_entities(chunks, wanted, from + 1);
        if wanted.contains(chunks[from].position) {
            later
        } else {
            later + chunks[from].entities()
        }
    }
}

/// Whether `position` is one of `places`.
fn holds_place(places: &Vec<(i32, i32)>, position: (i32, i32)) -> (r: bool)
    ensures
        r == places@.contains(position),
{
    let mut i: usize = 0;
    while i < places.len()
        invariant
            i <= places.len(),
            forall|j: int| 0 <= j < i ==> places@[j] != position,
        decreases places.len() - i,
    {
        if places[i].0 == position.0 && places[i].1 == position.1 {
            return true;
        }
        i += 1;
    }
    false
}

/// Loads and unloads the chunks around the player.
#[derive(Debug)]
pub struct EnvironmentSystem;

impl EnvironmentSystem {
    /// The place in the grid of chunks of the chunk that holds `position`.
    pub fn chunk_of(position: Position) -> (r: (i32, i32))
        ensures
            r == chunk_at(position),
            -6711 <= r.0 <= 6711,
            -6711 <= r.1 <= 6711,
    {
        let x = round_to_pixel(position.x);
        let y = round_to_pixel(position.y);
        ((x / 320) as i32, (y / 320) as i32)
    }

    /// The places of the chunk at `center` and of the eight chunks around
    /// it.
    pub fn neighbourhood(center: (i32, i32)) -> (r: Vec<(i32, i32)>)
        requires
            i32::MIN < center.0 < i32::MAX,
            i32::MIN < center.1 < i32::MAX,
        ensures
            r@ == around(center),
    {
        let (x, y) = center;
        let r = vec![
            (x - 1, y - 1),
            (x - 1, y),
            (x - 1, y + 1),
            (x, y - 1),
            (x, y),
            (x, y + 1),
            (x + 1, y - 1),
            (x + 1, y),
            (x + 1, y + 1),
        ];
        assert(r@ =~= around(center));
        r
    }

    /// Unloads the chunks that are not around the player and says which
    /// chunks around the player are not loaded, for the host to load them
    /// with [`EnvironmentSystem::load_chunk`]. Without exactly one player
    /// nothing is unloaded and the answer is `None`.
    ///
    /// The chunks around the player stay as they are, though not in their
    /// order, and the entities of the others are deleted.
    pub fn run(&mut self, c: &mut Components, r: &mut Ressources) -> (wanted: Option<
        Vec<(i32, i32)>,
    >)
        ensures
            wanted is Some == exists|e: Entity|
                is_unique_player(old(c).player_state@, old(c).positions@, e),
            wanted is None ==> final(c).same_components(old(c)) && final(c).deleted@ == old(
                c,
            ).deleted@ && final(r).world.chunks@ == old(r).world.chunks@,
            forall|e: Entity| #[trigger]
                is_unique_player(old(c).player_state@, old(c).positions@, e) ==> wanted is Some
                    && is_streamed(
                    final(c),
                    final(r).world.chunks@,
                    wanted->Some_0@,
                    old(c),
                    old(r).world.chunks@,
                    around(chunk_at(old(c).positions@[e])),
                ),
            final(c).count == old(c).count,
            final(r).world.data == old(r).world.data,
            final(r).input_state == old(r).input_state,
            final(r).time == old(r).time,
            final(r).config == old(r).config,
            final(r).pressed_space == old(r).pressed_space,
            final(r).fadeout == old(r).fadeout,
            final(r).delayed_actions == old(r).delayed_actions,
            final(r).lazy_update == old(r).lazy_update,
            final(r).last_save == old(r).last_save,
            final(r).debug_draw == old(r).debug_draw,
    {
        let player = match unique_player(&c.player_state, &c.positions) {
            Some(player) => player,
            None => {
                return None;
            },
        };
        let position = c.positions.get_copied(player).unwrap();
        let chunks = Self::neighbourhood(Self::chunk_of(position));
        let ghost old_chunks = r.world.chunks@;

        proof {
            lemma_without_nobody(c);
            assert(unwanted_entities(old_chunks, chunks@, old_chunks.len() as int) =~= Set::<
                Entity,
            >::empty());
        }
        let mut i: usize = r.world.chunks.len();
        assert(c.deleted@ =~= old(c).deleted@ + unloaded_entities(
            old_chunks,
            chunks@,
            old_chunks.len() as int,
        ));
        while i > 0
            invariant
                i <= r.world.chunks@.len() <= old_chunks.len(),
                r.world.chunks@ == kept_chunks(old_chunks, chunks@, i as int),
                c.deleted@ == old(c).deleted@ + unloaded_entities(old_chunks, chunks@, i as int),
                forall|k: int| 0 <= k < i ==> r.world.chunks@[k] == old_chunks[k],
                forall|k: int|
                    i <= k < r.world.chunks@.len() ==> chunks@.contains(
                        (#[trigger] r.world.chunks@[k]).position,
                    ) && old_chunks.contains(r.world.chunks@[k]),
                forall|k: int|
                    i <= k < old_chunks.len() && chunks@.contains((#[trigger] old_chunks[k]).position)
                        ==> r.world.chunks@.contains(old_chunks[k]),
                c.is_without_all(old(c), unwanted_entities(old_chunks, chunks@, i as int)),
                c.count == old(c).count,
                r.world.data == old(r).world.data,
                r.input_state == old(r).input_state,
                r.time == old(r).time,
                r.config == old(r).config,
                r.pressed_space == old(r).pressed_space,
                r.fadeout == old(r).fadeout,
                r.delayed_actions == old(r).delayed_actions,
                r.lazy_update == old(r).lazy_update,
                r.last_save == old(r).last_save,
                r.debug_draw == old(r).debug_draw,
            decreases i,
        {
            i -= 1;
            let ghost before = r.world.chunks@;
            let ghost middle = *c;
            if !holds_place(&chunks, r.world.chunks[i].position) {
                let mut chunk = r.world.chunks.swap_remove(i);
                assert(chunk == old_chunks[i as int]);
                chunk.clear(c);
                proof {
                    assert(c.deleted@ =~= old(c).deleted@ + unloaded_entities(
                        old_chunks,
                        chunks@,
                        i as int,
                    ));
                    lemma_unwanted_grows(old_chunks, chunks@, i as int, &middle, c, old(c));
                    assert forall|k: int|
                        i <= k < r.world.chunks@.len() implies chunks@.contains(
                        (#[trigger] r.world.chunks@[k]).position,
                    ) && old_chunks.contains(r.world.chunks@[k]) by {
                        if k == i {
                            assert(r.world.chunks@[k] == before[before.len() - 1]);
                        } else {
                            assert(r.world.chunks@[k] == before[k]);
                        }
                    }
                    assert forall|k: int|
                        i <= k < old_chunks.len() && chunks@.contains(
                            (#[trigger] old_chunks[k]).position,
                        ) implies r.world.chunks@.contains(old_chunks[k]) by {
                        assert(k != i);
                        assert(before.contains(old_chunks[k]));
                        let j = choose|j: int| 0 <= j < before.len() && before[j] == old_chunks[k];
                        assert(j != i);
                        if j == before.len() - 1 {
                            assert(r.world.chunks@[i as int] == old_chunks[k]);
                        } else {
                            assert(r.world.chunks@[j] == old_chunks[k]);
                        }
                    }
                }
            } else {
                proof {
                    assert(unwanted_entities(old_chunks, chunks@, i as int) =~= unwanted_entities(
                        old_chunks,
                        chunks@,
                        i + 1,
                    ));
                    assert(r.world.chunks@[i as int] == old_chunks[i as int]);
                    assert forall|k: int|
                        i <= k < old_chunks.len() && chunks@.contains(
                            (#[trigger] old_chunks[k]).position,
                        ) implies r.world.chunks@.contains(old_chunks[k]) by {
                        if k == i {
                            assert(r.world.chunks@[i as int] == old_chunks[k]);
                        }
                    }
                }
            }
        }

        let mut wanted: Vec<(i32, i32)> = Vec::new();
        let ghost loaded = r.world.chunks@;
        let ghost absent = |p: (i32, i32)| !is_loaded(loaded, p);
        let mut j: usize = 0;
        while j < chunks.len()
            invariant
                j <= chunks.len(),
                r.world.chunks@ == loaded,
                absent == |p: (i32, i32)| !is_loaded(loaded, p),
                wanted@ == chunks@.take(j as int).filter(absent),
            decreases chunks.len() - j,
        {
            let chunk = chunks[j];
            let mut found = false;
            let mut k: usize = 0;
            while k < r.world.chunks.len()
                invariant
                    k <= loaded.len(),
                    r.world.chunks@ == loaded,
                    found == exists|m: int| 0 <= m < k && (#[trigger] loaded[m]).position == chunk,
                decreases loaded.len() - k,
            {
                if r.world.chunks[k].position.0 == chunk.0 && r.world.chunks[k].position.1
                    == chunk.1 {
                    assert(loaded[k as int].position == chunk);
                    found = true;
                }
                k += 1;
            }
            if !found {
                wanted.push(chunk);
            }
            proof {
                reveal(Seq::filter);
                assert(chunks@.take(j + 1).drop_last() =~= chunks@.take(j as int));
                assert(chunks@.take(j + 1).last() == chunk);
            }
            j += 1;
        }
        assert(chunks@.take(chunks@.len() as int) =~= chunks@);
        Some(wanted)
    }

    /// Adds the chunk at `position` to the world: the one that `data`
    /// describes, or an empty one.
    pub fn load_chunk(
        &mut self,
        position: (i32, i32),
        data: Option<ChunkData>,
        c: &mut Components,
        r: &mut Ressources,
    )
        requires
            old(c).count + CHUNK_TILES * CHUNK_TILES <= usize::MAX,
        ensures
            final(r).world.chunks@.len() == old(r).world.chunks@.len() + 1,
            final(r).world.chunks@.drop_last() == old(r).world.chunks@,
            final(r).world.chunks@.last().position == position,
            final(r).world.chunks@.last().changed is None,
            match data {
                Some(data) => final(r).world.chunks@.last().data == data && terrain_of(
                    final(c),
                    final(r).world.chunks@.last().tiles@,
                ) == terrain_of(old(c), Seq::empty()).with_tiles(
                    position,
                    &data,
                    (CHUNK_TILES * CHUNK_TILES) as nat,
                ),
                None => final(r).world.chunks@.last().tiles@ == seq![
                    terrain_of(old(c), Seq::empty()).next_entity(),
                ] && final(c).positions@ == old(c).positions@.insert(
                    final(r).world.chunks@.last().tiles@[0],
                    place_in_chunk(position, 0, 0),
                ) && final(c).colliders@ == old(c).colliders@.insert(
                    final(r).world.chunks@.last().tiles@[0],
                    Collider { w: CHUNK_UNITS, h: CHUNK_UNITS, ty: ColliderType::CameraRestriction },
                ) && final(c).depths@ == old(c).depths@ && final(c).sprites@ == old(c).sprites@
                    && final(c).count == terrain_of(old(c), Seq::empty()).after_entity().count
                    && final(c).deleted@ == terrain_of(
                    old(c),
                    Seq::empty(),
                ).after_entity().deleted,
            },
            same_besides_terrain(final(c), old(c)),
            final(r).world.data == old(r).world.data,
            final(r).input_state == old(r).input_state,
            final(r).time == old(r).time,
            final(r).config == old(r).config,
            final(r).pressed_space == old(r).pressed_space,
            final(r).fadeout == old(r).fadeout,
            final(r).delayed_actions == old(r).delayed_actions,
            final(r).lazy_update == old(r).lazy_update,
            final(r).last_save == old(r).last_save,
            final(r).debug_draw == old(r).debug_draw,
    {
        let ghost before = r.world.chunks@;
        if let Some(config) = data {
            let chunk = Chunk::new(position, config, c);
            r.world.chunks.push(chunk);
        } else {
            let chunk = Chunk::empty(position, c);
            r.world.chunks.push(chunk);
        }
        assert(r.world.chunks@.drop_last() =~= before);
    }
}

/// Whether the chunks `new_chunks` and the components `new_c` are what is
/// left of `old_chunks` and `old_c` after the chunks that are not at a place
/// of `around` were unloaded, and `wanted` are the places of `around` at
/// which no chunk is loaded.
pub open spec fn is_streamed(
    new_c: &Components,
    new_chunks: Seq<Chunk>,
    wanted: Seq<(i32, i32)>,
    old_c: &Components,
    old_chunks: Seq<Chunk>,
    around: Seq<(i32, i32)>,
) -> bool {
    &&& forall|k: int|
        0 <= k < new_chunks.len() ==> around.contains((#[trigger] new_chunks[k]).position)
            && old_chunks.contains(new_chunks[k])
    &&& forall|k: int|
        0 <= k < old_chunks.len() && around.contains((#[trigger] old_chunks[k]).position)
            ==> new_chunks.contains(old_chunks[k])
    &&& new_c.is_without_all(old_c, unwanted_entities(old_chunks, around, 0))
    &&& new_chunks == kept_chunks(old_chunks, around, 0)
    &&& new_c.deleted@ == old_c.deleted@ + unloaded_entities(old_chunks, around, 0)
    &&& wanted == missing(new_chunks, around)
}

/// Clearing the chunk before the index `i` adds its entities to those of
/// the unwanted chunks.
proof fn lemma_unwanted_grows(
    chunks: Seq<Chunk>,
    wanted: Seq<(i32, i32)>,
    i: int,
    middle: &Components,
    after: &Components,
    before: &Components,
)
    requires
        0 <= i < chunks.len(),
        !wanted.contains(chunks[i].position),
        middle.is_without_all(before, unwanted_entities(chunks, wanted, i + 1)),
        after.is_without_all(middle, chunks[i].entities().to_set()),
    ensures
        after.is_without_all(before, unwanted_entities(chunks, wanted, i)),
{
    let a = unwanted_entities(chunks, wanted, i + 1);
    let b = chunks[i].entities().to_set();
    let u = unwanted_entities(chunks, wanted, i);
    assert(u =~= a.union(b)) by {
        assert forall|e: Entity| u.contains(e) == a.union(b).contains(e) by {
            if b.contains(e) {
                assert(chunks[i].entities().contains(e));
            }
        }
    }
    assert(after.positions@ =~= before.positions@.remove_keys(u));
    assert(after.sprites@ =~= before.sprites@.remove_keys(u));
    assert(after.animations@ =~= before.animations@.remove_keys(u));
    assert(after.previous_positions@ =~= before.previous_positions@.remove_keys(u));
    assert(after.velocities@ =~= before.velocities@.remove_keys(u));
    assert(after.colliders@ =~= before.colliders@.remove_keys(u));
    assert(after.grounded@ =~= before.grounded@.remove_keys(u));
    assert(after.wall_collisions@ =~= before.wall_collisions@.remove_keys(u));
    assert(after.gravity@ =~= before.gravity@.remove_keys(u));
    assert(after.ignore_bridges@ =~= before.ignore_bridges@.remove_keys(u));
    assert(after.player_state@ =~= before.player_state@.remove_keys(u));
    assert(after.player_animations@ =~= before.player_animations@.remove_keys(u));
    assert(after.depths@ =~= before.depths@.remove_keys(u));
    assert(after.mirrored@ =~= before.mirrored@.remove_keys(u));
    assert(after.cameras@ =~= before.cameras@.remove_keys(u));
}

} // verus!
