//! The entities that a game starts with.

use crate::data::{
    AnimationState, Camera, Collider, ColliderType, Components, Depth, Gravity, PlayerAnimations,
    PlayerState, Position, Velocity,
};
use crate::ecs::Entity;
use crate::ressources::Ressources;
use crate::units::UNIT;
use vstd::prelude::*;

verus! {

/// The width of the player in world units.
pub const PLAYER_WIDTH: u32 = 7_000;

/// The height of the player in world units.
pub const PLAYER_HEIGHT: u32 = 15_000;

/// The identifier that `c` hands out next.
pub open spec fn next_entity(c: &Components) -> Entity {
    if c.deleted@.len() > 0 {
        c.deleted@.last()
    } else {
        Entity(c.count)
    }
}

/// Whether `new` hands out identifiers as `old` does after it has handed
/// out one.
pub open spec fn has_handed_out(new: &Components, old: &Components) -> bool {
    if old.deleted@.len() > 0 {
        new.deleted@ == old.deleted@.drop_last() && new.count == old.count
    } else {
        new.deleted@ == old.deleted@ && new.count == old.count + 1
    }
}

/// `pixels` in world units, as a size.
pub open spec fn size_in_units(pixels: u32) -> u32 {
    if pixels * UNIT > u32::MAX {
        u32::MAX
    } else {
        (pixels * UNIT) as u32
    }
}

/// Makes the player: an entity where the last game was saved, at rest and
/// grounded, subject to gravity, that shows its idle animation.
pub fn player(c: &mut Components, r: &Ressources, player_animations: PlayerAnimations) -> (e:
    Entity)
    requires
        old(c).deleted@.len() > 0 || old(c).count < usize::MAX,
    ensures
        e == next_entity(old(c)),
        has_handed_out(final(c), old(c)),
        final(c).positions@ == old(c).positions@.insert(e, r.last_save.position),
        final(c).colliders@ == old(c).colliders@.insert(
            e,
            Collider { w: PLAYER_WIDTH, h: PLAYER_HEIGHT, ty: ColliderType::Player },
        ),
        final(c).velocities@ == old(c).velocities@.insert(e, Velocity::zero()),
        final(c).gravity@ == old(c).gravity@.insert(e, Gravity),
        final(c).player_state@ == old(c).player_state@.insert(e, PlayerState::Grounded),
        final(c).depths@ == old(c).depths@.insert(e, Depth::Player),
        final(c).animations@ == old(c).animations@.insert(
            e,
            AnimationState::started(player_animations.idle),
        ),
        final(c).player_animations@ == old(c).player_animations@.insert(e, player_animations),
        final(c).sprites@ == old(c).sprites@,
        final(c).previous_positions@ == old(c).previous_positions@,
        final(c).grounded@ == old(c).grounded@,
        final(c).wall_collisions@ == old(c).wall_collisions@,
        final(c).ignore_bridges@ == old(c).ignore_bridges@,
        final(c).mirrored@ == old(c).mirrored@,
        final(c).cameras@ == old(c).cameras@,
{
    let player = c.new_entity();

    c.positions.insert(player, r.last_save.position);
    c.colliders.insert(
        player,
        Collider { w: PLAYER_WIDTH, h: PLAYER_HEIGHT, ty: ColliderType::Player },
    );

    c.velocities.insert(player, Velocity { x: 0, y: 0 });
    c.gravity.insert(player, Gravity);
    c.player_state.insert(player, PlayerState::Grounded);
    c.depths.insert(player, Depth::Player);

    c.animations.insert(player, AnimationState::start(player_animations.idle));
    c.player_animations.insert(player, player_animations);
    player
}

/// Makes the camera: an entity at the origin, at rest, with a collider of
/// the size of the view.
pub fn camera(c: &mut Components, r: &Ressources) -> (e: Entity)
    requires
        old(c).deleted@.len() > 0 || old(c).count < usize::MAX,
    ensures
        e == next_entity(old(c)),
        has_handed_out(final(c), old(c)),
        final(c).cameras@ == old(c).cameras@.insert(e, Camera),
        final(c).positions@ == old(c).positions@.insert(e, Position { x: 0, y: 0 }),
        final(c).velocities@ == old(c).velocities@.insert(e, Velocity::zero()),
        final(c).colliders@ == old(c).colliders@.insert(
            e,
            Collider {
                w: size_in_units(r.config.window.size.0),
                h: size_in_units(r.config.window.size.1),
                ty: ColliderType::Camera,
            },
        ),
        final(c).gravity@ == old(c).gravity@,
        final(c).player_state@ == old(c).player_state@,
        final(c).depths@ == old(c).depths@,
        final(c).animations@ == old(c).animations@,
        final(c).player_animations@ == old(c).player_animations@,
        final(c).sprites@ == old(c).sprites@,
        final(c).previous_positions@ == old(c).previous_positions@,
        final(c).grounded@ == old(c).grounded@,
        final(c).wall_collisions@ == old(c).wall_collisions@,
        final(c).ignore_bridges@ == old(c).ignore_bridges@,
        final(c).mirrored@ == old(c).mirrored@,
{
    let camera = c.new_entity();

    c.cameras.insert(camera, Camera);

    c.positions.insert(camera, Position { x: 0, y: 0 });

    c.velocities.insert(camera, Velocity { x: 0, y: 0 });

    c.colliders.insert(
        camera,
        Collider {
            w: to_units(r.config.window.size.0),
            h: to_units(r.config.window.size.1),
            ty: ColliderType::Camera,
        },
    );
    camera
}

/// `pixels` in world units, as a size.
fn to_units(pixels: u32) -> (r: u32)
    ensures
        r == size_in_units(pixels),
{
    let wide: u64 = pixels as u64 * 1000;
    assert(wide == pixels * UNIT) by (nonlinear_arith)
        requires
            wide == pixels * 1000,
            UNIT == 1000,
    ;
    if wide > u32::MAX as u64 {
        u32::MAX
    } else {
        wide as u32
    }
}

} // verus!
