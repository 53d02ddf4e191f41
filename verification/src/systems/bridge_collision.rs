//! The filter of the overlaps with bridges.
//!
//! A bridge is solid from above only. An overlap with a bridge counts as a
//! collision with a solid if the entity was on or above the bridge before
//! the tick and does not drop through bridges.

use crate::data::{Collider, Collision, Collisions, IgnoreBridges, Position};
use crate::ecs::{Entity, Storage};
use crate::systems::fixed_collision::all_have_bodies;
use vstd::prelude::*;

verus! {

/// Where `e` was before the tick: its previous position if it moved, else
/// its position.
pub open spec fn origin(
    positions: Map<Entity, Position>,
    previous_positions: Map<Entity, Position>,
    e: Entity,
) -> Position {
    if previous_positions.contains_key(e) {
        previous_positions[e]
    } else {
        positions[e]
    }
}

/// Whether the overlap `c` of a bridge and another entity counts as a
/// collision with a solid: the other entity does not drop through bridges,
/// and before the tick the upper border of the bridge was not above the
/// lower border of the entity.
pub open spec fn is_solid_for(
    positions: Map<Entity, Position>,
    previous_positions: Map<Entity, Position>,
    colliders: Map<Entity, Collider>,
    ignore_bridges: Map<Entity, IgnoreBridges>,
    c: Collision,
) -> bool {
    &&& !ignore_bridges.contains_key(c.1)
    &&& colliders[c.0].upper(origin(positions, previous_positions, c.0)) <= origin(
        positions,
        previous_positions,
        c.1,
    ).y
}

/// Turns the overlaps with bridges into collisions with solids, or drops
/// them.
#[derive(Debug, Default)]
pub struct BridgeCollisionSystem;

impl BridgeCollisionSystem {
    /// Moves each overlap with a bridge that counts as a collision with a
    /// solid to the end of `collisions.fixed`, in the order of
    /// `collisions.bridge`, and empties `collisions.bridge`.
    pub fn run(
        &mut self,
        positions: &Storage<Position>,
        previous_positions: &Storage<Position>,
        colliders: &Storage<Collider>,
        ignore_bridges: &Storage<IgnoreBridges>,
        collisions: &mut Collisions,
    )
        requires
            all_have_bodies(old(collisions).bridge@, positions@, colliders@),
        ensures
            final(collisions).bridge@.len() == 0,
            final(collisions).player_damage@ == old(collisions).player_damage@,
            final(collisions).fixed@ == old(collisions).fixed@ + old(collisions).bridge@.filter(
                |c: Collision|
                    is_solid_for(
                        positions@,
                        previous_positions@,
                        colliders@,
                        ignore_bridges@,
                        c,
                    ),
            ),
            all_have_bodies(old(collisions).fixed@, positions@, colliders@) ==> all_have_bodies(
                final(collisions).fixed@,
                positions@,
                colliders@,
            ),
    {
        let ghost solid = |c: Collision|
            is_solid_for(positions@, previous_positions@, colliders@, ignore_bridges@, c);
        let ghost bridge = collisions.bridge@;
        let ghost fixed = collisions.fixed@;
        let mut i: usize = 0;
        while i < collisions.bridge.len()
            invariant
                i <= bridge.len(),
                collisions.bridge@ == bridge,
                collisions.player_damage@ == old(collisions).player_damage@,
                all_have_bodies(bridge, positions@, colliders@),
                solid == |c: Collision|
                    is_solid_for(positions@, previous_positions@, colliders@, ignore_bridges@, c),
                collisions.fixed@ == fixed + bridge.take(i as int).filter(solid),
                all_have_bodies(fixed, positions@, colliders@) ==> all_have_bodies(
                    collisions.fixed@,
                    positions@,
                    colliders@,
                ),
            decreases bridge.len() - i,
        {
            let Collision(bridge_entity, other) = collisions.bridge[i];
            let ghost before = collisions.fixed@;
            assert(positions@.contains_key(bridge[i as int].0));
            if ignore_bridges.get(other).is_none() {
                let bridge_pos = positions.get_copied(bridge_entity).unwrap();
                let bridge_pos = previous_positions.get_copied(bridge_entity).unwrap_or(bridge_pos);
                let bridge_col = colliders.get_copied(bridge_entity).unwrap();

                let other_pos = positions.get_copied(other).unwrap();
                let other_pos = previous_positions.get_copied(other).unwrap_or(other_pos);

                if bridge_col.upper_border(bridge_pos) <= other_pos.y as i64 {
                    collisions.fixed.push(Collision(bridge_entity, other));
                }
            }
            proof {
                reveal(Seq::filter);
                assert(bridge.take(i + 1).drop_last() =~= bridge.take(i as int));
                assert(bridge.take(i + 1).last() == bridge[i as int]);
                assert(collisions.fixed@ =~= fixed + bridge.take(i + 1).filter(solid));
            }
            i += 1;
        }
        assert(bridge.take(bridge.len() as int) =~= bridge);
        collisions.bridge.clear();
    }
}

} // verus!
