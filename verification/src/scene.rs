//! The mathematical picture of the bodies of a world, over which the
//! contracts of the collision systems are stated.

use crate::data::{Collider, CollisionDirection, Grounded, Position, Velocity, WallCollision};
use crate::ecs::Entity;
use crate::physics::direction_of;
use vstd::prelude::*;

verus! {

/// The components that the resolution of collisions writes, as maps.
#[verifier::ext_equal]
pub struct Bodies {
    pub positions: Map<Entity, Position>,
    pub velocities: Map<Entity, Velocity>,
    pub grounded: Map<Entity, Grounded>,
    pub wall_collisions: Map<Entity, WallCollision>,
}

/// The components from which the direction of a collision is computed, as
/// maps.
#[verifier::ext_equal]
pub struct Scene {
    pub positions: Map<Entity, Position>,
    /// Where each entity that moved in this tick was before it moved.
    pub previous_positions: Map<Entity, Position>,
    pub velocities: Map<Entity, Velocity>,
    pub colliders: Map<Entity, Collider>,
}

/// The bodies with the given components.
pub open spec fn bodies(
    positions: Map<Entity, Position>,
    velocities: Map<Entity, Velocity>,
    grounded: Map<Entity, Grounded>,
    wall_collisions: Map<Entity, WallCollision>,
) -> Bodies {
    Bodies { positions, velocities, grounded, wall_collisions }
}

/// The scene with the given components.
pub open spec fn scene(
    positions: Map<Entity, Position>,
    previous_positions: Map<Entity, Position>,
    velocities: Map<Entity, Velocity>,
    colliders: Map<Entity, Collider>,
) -> Scene {
    Scene { positions, previous_positions, velocities, colliders }
}

impl Bodies {
    /// The velocity of `e`; an entity without one is at rest.
    pub open spec fn velocity(self, e: Entity) -> Velocity {
        if self.velocities.contains_key(e) {
            self.velocities[e]
        } else {
            Velocity::zero()
        }
    }

    /// The scene that these bodies are seen in.
    pub open spec fn seen(
        self,
        previous_positions: Map<Entity, Position>,
        colliders: Map<Entity, Collider>,
    ) -> Scene {
        scene(self.positions, previous_positions, self.velocities, colliders)
    }
}

impl Scene {
    /// Whether `e` has a position and a collider.
    pub open spec fn has_body(self, e: Entity) -> bool {
        self.positions.contains_key(e) && self.colliders.contains_key(e)
    }

    /// Where `e` was before this tick: its previous position if it moved,
    /// else its position.
    pub open spec fn origin(self, e: Entity) -> Position {
        if self.previous_positions.contains_key(e) {
            self.previous_positions[e]
        } else {
            self.positions[e]
        }
    }

    /// The velocity of `e`; an entity without one is at rest.
    pub open spec fn velocity(self, e: Entity) -> Velocity {
        if self.velocities.contains_key(e) {
            self.velocities[e]
        } else {
            Velocity::zero()
        }
    }

    /// What the direction of a collision is computed from: where `e` was
    /// before this tick, its collider and its velocity.
    pub open spec fn body(self, e: Entity) -> (Position, Collider, Velocity) {
        (self.origin(e), self.colliders[e], self.velocity(e))
    }

    /// The direction from which `other` has run into `solid`.
    pub open spec fn direction(self, solid: Entity, other: Entity) -> CollisionDirection {
        direction_of(self.body(solid), self.body(other))
    }
}

} // verus!
