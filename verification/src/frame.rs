//! One frame of the game.
//!
//! The systems run in a fixed order, and each one works on what the ones
//! before it have left: the input buffer, the camera, gravity, the
//! integration of motion with the detection of overlaps, the filter of the
//! bridges, the resolution of the collisions, the players, the environment,
//! the fading, the animations and the delayed actions.

use crate::animation::AnimationStorage;
use crate::data::{
    lemma_without_nobody, Collider, Collision, Components, Position, Velocity,
};
use crate::ecs::{all_below, Entity};
use crate::environment::{
    around, chunk_at, kept_chunks, missing, unloaded_entities, unwanted_entities,
};
use crate::ressources::{Action, Ressources};
use crate::scene::{bodies, scene, Bodies, Scene};
use crate::systems::animation::{advanced_all, shown_all};
use crate::systems::bridge_collision::{is_solid_for, origin};
use crate::systems::camera::{cameras_chasing, is_placed, is_unique_player};
use crate::systems::fadeout::faded;
use crate::systems::fixed_collision::{
    all_have_bodies, first_of_group, landed, lemma_applied_keeps_bodies, lemma_grounded_after,
    resolution, resolved_upto, unresolved_upto, Resolution,
};
use crate::systems::gravity::gravitated;
use crate::systems::input_buffer::buffered;
use crate::systems::physics::{covers, found, integrated, left_behind, Kind};
use crate::systems::player::{
    after_players, lemma_players_stay, players_of, tick_of, Players, Tick,
};
use crate::systems::{due, still_waiting, Systems};
use vstd::prelude::*;

verus! {

/// What is left for the host to do after a frame.
#[derive(Debug)]
pub struct FrameOutcome {
    /// Whether there is exactly one player for the camera to follow.
    pub camera_follows: bool,
    /// The places around the player at which no chunk is loaded; `None`
    /// without exactly one player.
    pub missing_chunks: Option<Vec<(i32, i32)>>,
    /// The delayed actions that are due.
    pub actions: Vec<Action>,
    /// The entities whose collisions could not be resolved in this frame,
    /// each with the reason.
    pub unresolved: Vec<(Entity, Resolution)>,
}

/// Whether exactly one entity is a player with a position.
pub open spec fn has_player(c: &Components) -> bool {
    exists|e: Entity| is_unique_player(c.player_state@, c.positions@, e)
}

/// The only player with a position.
pub open spec fn the_player(c: &Components) -> Entity {
    choose|e: Entity| is_unique_player(c.player_state@, c.positions@, e)
}

/// The velocities after the camera was set to chase the player and gravity
/// has pulled.
pub open spec fn driven(c: &Components, r: &Ressources) -> Map<Entity, Velocity> {
    let fps = r.time.ticks_per_second();
    gravitated(
        if has_player(c) {
            cameras_chasing(
                c.velocities@,
                c.cameras@,
                c.positions@,
                origin(c.positions@, c.previous_positions@, the_player(c)),
                r.config.camera.offset,
                fps,
            )
        } else {
            c.velocities@
        },
        c.gravity@,
        r.config.gravity,
        fps,
    )
}

/// The scene after the integration of motion.
pub open spec fn moved(c: &Components, r: &Ressources) -> Scene {
    let v = driven(c, r);
    scene(
        integrated(c.positions@, v, r.time.ticks_per_second()),
        left_behind(c.positions@, v),
        v,
        c.colliders@,
    )
}

/// The list `kind` of the overlaps of the scene `s`.
pub open spec fn overlaps_of(s: Scene, kind: Kind) -> Seq<Collision> {
    found(s, kind, (choose|n: usize| covers(s.positions, n as nat)) as nat)
}

/// The collisions with solids of the frame: the overlaps with the
/// environment, then the overlaps with bridges that count as solid.
pub open spec fn solids(c: &Components, r: &Ressources) -> Seq<Collision> {
    let s = moved(c, r);
    overlaps_of(s, Kind::Fixed) + overlaps_of(s, Kind::Bridge).filter(
        |p: Collision| is_solid_for(s.positions, s.previous_positions, s.colliders, c.ignore_bridges@, p),
    )
}

/// The bodies after the resolution of the collisions.
pub open spec fn settled(c: &Components, r: &Ressources) -> Bodies {
    let s = moved(c, r);
    resolved_upto(
        unsettled(c, r),
        s.previous_positions,
        s.colliders,
        solids(c, r),
        solids(c, r).len(),
    )
}

/// The bodies that the resolution of the collisions starts from: those of
/// the scene after the integration of motion, none of them grounded.
pub open spec fn unsettled(c: &Components, r: &Ressources) -> Bodies {
    let s = moved(c, r);
    bodies(s.positions, s.velocities, Map::empty(), c.wall_collisions@)
}

/// An entity is grounded after a frame if and only if the resolution of
/// the collisions of that frame has put it onto terrain from above: what
/// was grounded before the frame does not count.
pub proof fn lemma_grounded_round_trip(c: &Components, r: &Ressources, e: Entity)
    ensures
        settled(c, r).grounded.contains_key(e) <==> exists|k: int|
            k < solids(c, r).len() && #[trigger] landed(
                unsettled(c, r),
                moved(c, r).previous_positions,
                moved(c, r).colliders,
                solids(c, r),
                k,
            ) && solids(c, r)[k].1 == e,
{
    lemma_grounded_after(
        unsettled(c, r),
        moved(c, r).previous_positions,
        moved(c, r).colliders,
        solids(c, r),
        solids(c, r).len(),
        e,
    );
}

/// What the players read in this frame.
pub open spec fn tick(c: &Components, r: &Ressources) -> Tick {
    Tick {
        player_animations: c.player_animations@,
        grounded: settled(c, r).grounded,
        wall_collisions: settled(c, r).wall_collisions,
        player_damage: overlaps_of(moved(c, r), Kind::PlayerDamage),
        axis: r.input_state.axis_value(r.config.input.left, r.config.input.right),
        down: r.input_state.held_keys().contains(r.config.input.down),
        config: r.config.player,
        fps: r.time.ticks_per_second(),
    }
}

/// What the players find at their turn.
pub open spec fn before_players(c: &Components, r: &Ressources) -> Players {
    Players {
        states: c.player_state@,
        animations: c.animations@,
        velocities: settled(c, r).velocities,
        mirrored: c.mirrored@,
        ignore_bridges: c.ignore_bridges@,
        pressed_space: buffered(
            r.input_state.changes(),
            r.pressed_space,
            r.config.input_buffer,
            r.config.input,
        ),
        fadeout: r.fadeout,
        delayed_actions: r.delayed_actions@,
    }
}

/// What the players leave.
pub open spec fn played(c: &Components, r: &Ressources) -> Players {
    after_players(
        before_players(c, r),
        tick(c, r),
        (choose|n: usize| before_players(c, r).below(n as nat)) as nat,
    )
}

/// The places of the chunks that are to be loaded at the end of the frame:
/// those around the player.
pub open spec fn wanted_places(c: &Components, r: &Ressources) -> Seq<(i32, i32)> {
    around(chunk_at(settled(c, r).positions[the_player(c)]))
}

/// The entities that the frame deletes: those of the loaded chunks that are
/// not around the player.
pub open spec fn unloaded(c: &Components, r: &Ressources) -> Set<Entity> {
    if has_player(c) {
        unwanted_entities(r.world.chunks@, wanted_places(c, r), 0)
    } else {
        Set::empty()
    }
}

/// The resolution of collisions gives no entity a position that had none,
/// and takes none away.
pub proof fn lemma_resolution_keeps_positions(
    start: Bodies,
    previous_positions: Map<Entity, Position>,
    colliders: Map<Entity, Collider>,
    fixed: Seq<Collision>,
    n: nat,
)
    requires
        n <= fixed.len(),
        all_have_bodies(fixed, start.positions, colliders),
    ensures
        forall|e: Entity|
            resolved_upto(start, previous_positions, colliders, fixed, n).positions.contains_key(e)
                == start.positions.contains_key(e),
    decreases n,
{
    if n > 0 {
        lemma_resolution_keeps_positions(start, previous_positions, colliders, fixed, (n - 1) as nat);
        let b = resolved_upto(start, previous_positions, colliders, fixed, (n - 1) as nat);
        if first_of_group(fixed, n - 1) {
            let other = fixed[n - 1].1;
            assert(start.positions.contains_key(other));
            lemma_applied_keeps_bodies(
                b,
                colliders,
                other,
                resolution(b.seen(previous_positions, colliders), fixed, other),
            );
        }
    }
}

/// One frame of the game: every system once, in their order.
///
/// The host then loads the missing chunks and performs the actions that
/// are due.
pub fn game_frame(
    s: &mut Systems,
    c: &mut Components,
    r: &mut Ressources,
    animation_storage: &AnimationStorage,
) -> (outcome: FrameOutcome)
    ensures
        outcome.camera_follows == has_player(old(c)),
        outcome.missing_chunks is Some == has_player(old(c)),
        has_player(old(c)) ==> outcome.missing_chunks->Some_0@ == missing(
            final(r).world.chunks@,
            wanted_places(old(c), old(r)),
        ),
        final(r).world.chunks@ == (if has_player(old(c)) {
            kept_chunks(old(r).world.chunks@, wanted_places(old(c), old(r)), 0)
        } else {
            old(r).world.chunks@
        }),
        final(c).deleted@ == (if has_player(old(c)) {
            old(c).deleted@ + unloaded_entities(
                old(r).world.chunks@,
                wanted_places(old(c), old(r)),
                0,
            )
        } else {
            old(c).deleted@
        }),
        outcome.actions@ == due(played(old(c), old(r)).delayed_actions),
        outcome.unresolved@ == unresolved_upto(
            unsettled(old(c), old(r)),
            moved(old(c), old(r)).previous_positions,
            moved(old(c), old(r)).colliders,
            solids(old(c), old(r)),
            solids(old(c), old(r)).len(),
        ),
        final(r).delayed_actions@ == still_waiting(played(old(c), old(r)).delayed_actions),
        final(r).fadeout == (match played(old(c), old(r)).fadeout {
            Some(f) => Some(faded(f)),
            None => None,
        }),
        final(r).pressed_space == played(old(c), old(r)).pressed_space,
        final(s).physics.found().fixed@ == solids(old(c), old(r)),
        final(s).physics.found().bridge@.len() == 0,
        final(s).physics.found().player_damage@ == overlaps_of(
            moved(old(c), old(r)),
            Kind::PlayerDamage,
        ),
        final(c).positions@ == settled(old(c), old(r)).positions.remove_keys(
            unloaded(old(c), old(r)),
        ),
        final(c).previous_positions@ == moved(old(c), old(r)).previous_positions.remove_keys(
            unloaded(old(c), old(r)),
        ),
        final(c).grounded@ == settled(old(c), old(r)).grounded.remove_keys(
            unloaded(old(c), old(r)),
        ),
        final(c).wall_collisions@ == settled(old(c), old(r)).wall_collisions.remove_keys(
            unloaded(old(c), old(r)),
        ),
        final(c).velocities@ == played(old(c), old(r)).velocities.remove_keys(
            unloaded(old(c), old(r)),
        ),
        final(c).player_state@ == played(old(c), old(r)).states.remove_keys(
            unloaded(old(c), old(r)),
        ),
        final(c).mirrored@ == played(old(c), old(r)).mirrored.remove_keys(
            unloaded(old(c), old(r)),
        ),
        final(c).ignore_bridges@ == played(old(c), old(r)).ignore_bridges.remove_keys(
            unloaded(old(c), old(r)),
        ),
        final(c).animations@ == advanced_all(
            animation_storage,
            played(old(c), old(r)).animations.remove_keys(unloaded(old(c), old(r))),
        ),
        final(c).sprites@ == shown_all(
            animation_storage,
            old(c).sprites@.remove_keys(unloaded(old(c), old(r))),
            played(old(c), old(r)).animations.remove_keys(unloaded(old(c), old(r))),
        ),
        final(c).colliders@ == old(c).colliders@.remove_keys(unloaded(old(c), old(r))),
        final(c).gravity@ == old(c).gravity@.remove_keys(unloaded(old(c), old(r))),
        final(c).player_animations@ == old(c).player_animations@.remove_keys(
            unloaded(old(c), old(r)),
        ),
        final(c).depths@ == old(c).depths@.remove_keys(unloaded(old(c), old(r))),
        final(c).cameras@ == old(c).cameras@.remove_keys(unloaded(old(c), old(r))),
        final(c).count == old(c).count,
        final(r).input_state == old(r).input_state,
        final(r).time == old(r).time,
        final(r).config == old(r).config,
        final(r).world.data == old(r).world.data,
        final(r).last_save == old(r).last_save,
        final(r).debug_draw == old(r).debug_draw,
        final(r).lazy_update == old(r).lazy_update,
        final(s).editor == old(s).editor,
{
    let ghost fps = r.time.ticks_per_second();
    s.input_buffer.run(
        r.input_state.events(),
        &mut r.pressed_space,
        &r.config.input_buffer,
        &r.config.input,
    );

    let camera_follows = s.camera.run(
        &c.player_state,
        &c.positions,
        &c.previous_positions,
        &mut c.velocities,
        &c.cameras,
        &r.time,
        &r.config.camera,
    );
    proof {
        if has_player(old(c)) {
            assert(is_unique_player(old(c).player_state@, old(c).positions@, the_player(old(c))));
        }
    }

    s.gravity.run(&c.gravity, &mut c.velocities, &r.time, &r.config.gravity);
    assert(c.velocities@ == driven(old(c), old(r)));

    let collisions = s.physics.run(
        &c.velocities,
        &c.colliders,
        &mut c.previous_positions,
        &mut c.positions,
        &mut c.grounded,
        &r.time,
    );
    let ghost m = moved(old(c), old(r));
    proof {
        assert(m == scene(c.positions@, c.previous_positions@, c.velocities@, c.colliders@));
        c.positions.lemma_bounded();
        let n = choose|n: usize| #[trigger] all_below(c.positions@, n as nat);
        assert(covers(m.positions, n as nat));
        let k = choose|n: usize| covers(m.positions, n as nat);
        assert(covers(m.positions, k as nat));
        assert(collisions.fixed@ == overlaps_of(m, Kind::Fixed));
        assert(collisions.bridge@ == overlaps_of(m, Kind::Bridge));
        assert(collisions.player_damage@ == overlaps_of(m, Kind::PlayerDamage));
    }

    s.bridge_collision.run(
        &c.positions,
        &c.previous_positions,
        &c.colliders,
        &c.ignore_bridges,
        collisions,
    );
    assert(collisions.fixed@ == solids(old(c), old(r)));

    let ghost walls = c.wall_collisions@;
    let unresolved = s.fixed_collision.run(
        &mut c.positions,
        &c.previous_positions,
        &mut c.grounded,
        &mut c.wall_collisions,
        &mut c.velocities,
        &c.colliders,
        collisions,
    );
    let ghost b = settled(old(c), old(r));
    proof {
        assert(walls == old(c).wall_collisions@);
        assert(bodies(c.positions@, c.velocities@, c.grounded@, c.wall_collisions@) == b);
        lemma_resolution_keeps_positions(
            bodies(m.positions, m.velocities, Map::empty(), old(c).wall_collisions@),
            m.previous_positions,
            m.colliders,
            solids(old(c), old(r)),
            solids(old(c), old(r)).len(),
        );
        let start = bodies(m.positions, m.velocities, Map::empty(), old(c).wall_collisions@);
        let after = resolved_upto(
            start,
            m.previous_positions,
            m.colliders,
            solids(old(c), old(r)),
            solids(old(c), old(r)).len(),
        );
        assert(after == b);
        assert forall|e: Entity|
            c.positions@.contains_key(e) == old(c).positions@.contains_key(e) by {
            assert(after.positions.contains_key(e) == start.positions.contains_key(e));
            assert(c.positions@.contains_key(e) == b.positions.contains_key(e));
            assert(start.positions.contains_key(e) == old(c).positions@.contains_key(e));
        }
    }

    let ghost w = before_players(old(c), old(r));
    let ghost t = tick(old(c), old(r));
    assert(players_of(c, r) == w);
    assert(tick_of(c, r, collisions) == t);
    s.player.run(c, r, collisions);
    let ghost p = played(old(c), old(r));
    proof {
        old(c).player_state.lemma_bounded();
        let n = choose|n: usize| #[trigger] all_below(old(c).player_state@, n as nat);
        assert(w.below(n as nat));
        let k = choose|n: usize| w.below(n as nat);
        assert(w.below(k as nat));
        assert(players_of(c, r) == p);
        lemma_players_stay(w, t, k as nat);
        assert(forall|e: Entity|
            c.player_state@.contains_key(e) == old(c).player_state@.contains_key(e)) by {
            assert(p.states.dom() == w.states.dom());
            assert forall|e: Entity|
                c.player_state@.contains_key(e) == old(c).player_state@.contains_key(e) by {
                assert(p.states.dom().contains(e) == w.states.dom().contains(e));
            }
        }
        assert forall|e: Entity|
            is_unique_player(c.player_state@, c.positions@, e) == is_unique_player(
                old(c).player_state@,
                old(c).positions@,
                e,
            ) by {
            assert forall|o: Entity|
                is_placed(c.player_state@, c.positions@, o)
                    == is_placed(
                    old(c).player_state@,
                    old(c).positions@,
                    o,
                ) by {}
        }
    }

    let ghost mid = *c;
    let missing_chunks = s.environment.run(c, r);
    proof {
        if has_player(old(c)) {
            let e = the_player(old(c));
            assert(is_unique_player(mid.player_state@, mid.positions@, e));
            assert(mid.positions@[e] == b.positions[e]);
        } else {
            assert(missing_chunks is None);
            lemma_without_nobody(&mid);
        }
        assert(c.is_without_all(&mid, unloaded(old(c), old(r))));
    }

    s.fadeout.run(&mut r.fadeout);

    s.animation.run(&mut c.sprites, &mut c.animations, animation_storage);

    let actions = s.delayed_actions(r);

    FrameOutcome { camera_follows, missing_chunks, actions, unresolved }
}

} // verus!
