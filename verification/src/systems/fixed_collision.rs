//! Resolution of the collisions of moving entities with solids.
//!
//! An entity may touch several solids at once. The resolver looks at all of
//! them together, settles on the direction or directions in which the entity
//! is pushed back, picks one solid for each, and puts the entity flush
//! against it.

use crate::data::{
    Collider, ColliderType, Collision, CollisionDirection, Collisions, Grounded, Position,
    Velocity, WallCollision,
};
use crate::ecs::{Entity, Storage};
use crate::physics::collision_direction;
use crate::scene::{bodies, scene, Bodies, Scene};
use crate::units::{clamp_i32, saturate};
use vstd::prelude::*;

verus! {

/// The bodies after `other` was put flush against `solid` on the side
/// `direction`.
///
/// `Below`: the upper border of `other` meets the lower border of `solid`.
/// `Above`: its lower border meets the upper border of `solid`, and it is
/// grounded if `solid` is terrain. `Left` and `Right`: likewise on the
/// horizontal axis, and the wall is recorded if `solid` is terrain. On the
/// axis of the resolution `other` takes over the velocity of `solid`.
pub open spec fn resolved(
    s: Bodies,
    colliders: Map<Entity, Collider>,
    direction: CollisionDirection,
    other: Entity,
    solid: Entity,
) -> Bodies {
    let solid_pos = s.positions[solid];
    let solid_col = colliders[solid];
    let solid_vel = s.velocity(solid);
    let other_pos = s.positions[other];
    let other_col = colliders[other];
    let other_vel = s.velocities[other];
    let moves = s.velocities.contains_key(other);
    let terrain = solid_col.ty.is_terrain();
    match direction {
        CollisionDirection::Below => Bodies {
            positions: s.positions.insert(
                other,
                Position {
                    x: other_pos.x,
                    y: clamp_i32(solid_col.lower(solid_pos) - other_col.h) as i32,
                },
            ),
            velocities: if moves {
                s.velocities.insert(other, Velocity { x: other_vel.x, y: solid_vel.y })
            } else {
                s.velocities
            },
            ..s
        },
        CollisionDirection::Above => Bodies {
            positions: s.positions.insert(
                other,
                Position { x: other_pos.x, y: clamp_i32(solid_col.upper(solid_pos)) as i32 },
            ),
            velocities: if moves {
                s.velocities.insert(other, Velocity { x: other_vel.x, y: solid_vel.y })
            } else {
                s.velocities
            },
            grounded: if terrain {
                s.grounded.insert(other, Grounded)
            } else {
                s.grounded
            },
            ..s
        },
        CollisionDirection::Left => Bodies {
            positions: s.positions.insert(
                other,
                Position {
                    x: clamp_i32(solid_col.left(solid_pos) - other_col.w) as i32,
                    y: other_pos.y,
                },
            ),
            velocities: if moves {
                s.velocities.insert(other, Velocity { x: solid_vel.x, y: other_vel.y })
            } else {
                s.velocities
            },
            wall_collisions: if terrain {
                s.wall_collisions.insert(other, WallCollision::Left)
            } else {
                s.wall_collisions
            },
            ..s
        },
        CollisionDirection::Right => Bodies {
            positions: s.positions.insert(
                other,
                Position { x: clamp_i32(solid_col.right(solid_pos)) as i32, y: other_pos.y },
            ),
            velocities: if moves {
                s.velocities.insert(other, Velocity { x: solid_vel.x, y: other_vel.y })
            } else {
                s.velocities
            },
            wall_collisions: if terrain {
                s.wall_collisions.insert(other, WallCollision::Right)
            } else {
                s.wall_collisions
            },
            ..s
        },
        _ => s,
    }
}

/// Whether `direction` has at most one flag.
pub open spec fn is_simple(direction: CollisionDirection) -> bool {
    direction == CollisionDirection::Nowhere || direction == CollisionDirection::Above || direction
        == CollisionDirection::Below || direction == CollisionDirection::Left || direction
        == CollisionDirection::Right
}

/// The position of `entity`, where it was before this tick, its collider and
/// its velocity.
pub fn pos_prev_pos_col_vel(
    positions: &Storage<Position>,
    previous_positions: &Storage<Position>,
    colliders: &Storage<Collider>,
    velocities: &Storage<Velocity>,
    entity: Entity,
) -> (r: (Position, Position, Collider, Velocity))
    requires
        positions@.contains_key(entity),
        colliders@.contains_key(entity),
    ensures
        r.0 == positions@[entity],
        r.1 == (if previous_positions@.contains_key(entity) {
            previous_positions@[entity]
        } else {
            positions@[entity]
        }),
        r.2 == colliders@[entity],
        r.3 == (if velocities@.contains_key(entity) {
            velocities@[entity]
        } else {
            Velocity::zero()
        }),
{
    let pos = positions.get_copied(entity).unwrap();
    let prev_pos = previous_positions.get_copied(entity).unwrap_or(pos);
    let col = colliders.get_copied(entity).unwrap();
    let vel = velocities.get_copied(entity).unwrap_or(Velocity { x: 0, y: 0 });
    (pos, prev_pos, col, vel)
}

/// Puts `other` flush against `solid` on the side `direction`.
pub fn resolve_collision(
    direction: CollisionDirection,
    other: Entity,
    solid: Entity,
    positions: &mut Storage<Position>,
    wall_collisions: &mut Storage<WallCollision>,
    grounded: &mut Storage<Grounded>,
    velocities: &mut Storage<Velocity>,
    colliders: &Storage<Collider>,
)
    requires
        is_simple(direction),
        old(positions)@.contains_key(solid),
        old(positions)@.contains_key(other),
        colliders@.contains_key(solid),
        colliders@.contains_key(other),
    ensures
        bodies(final(positions)@, final(velocities)@, final(grounded)@, final(wall_collisions)@)
            == resolved(
            bodies(old(positions)@, old(velocities)@, old(grounded)@, old(wall_collisions)@),
            colliders@,
            direction,
            other,
            solid,
        ),
{
    let solid_pos = positions.get_copied(solid).unwrap();
    let solid_col = colliders.get_copied(solid).unwrap();
    let unscaled_solid_vel = velocities.get_copied(solid).unwrap_or(Velocity { x: 0, y: 0 });

    let other_pos = positions.get_copied(other).unwrap();
    let other_col = colliders.get_copied(other).unwrap();
    let terrain = match solid_col.ty {
        ColliderType::Bridge | ColliderType::Environment => true,
        ColliderType::Player
        | ColliderType::PlayerDamage
        | ColliderType::Camera
        | ColliderType::CameraRestriction => false,
    };

    match direction {
        CollisionDirection::Below => {
            let y = saturate(solid_col.lower_border(solid_pos) - other_col.h as i64);
            positions.insert(other, Position { x: other_pos.x, y });
            // the speed becomes that of the solid
            if let Some(v) = velocities.get_copied(other) {
                velocities.insert(other, Velocity { x: v.x, y: unscaled_solid_vel.y });
            }
        },
        CollisionDirection::Above => {
            if terrain {
                grounded.insert(other, Grounded);
            }
            let y = saturate(solid_col.upper_border(solid_pos));
            positions.insert(other, Position { x: other_pos.x, y });
            // the speed becomes that of the ground
            if let Some(v) = velocities.get_copied(other) {
                velocities.insert(other, Velocity { x: v.x, y: unscaled_solid_vel.y });
            }
        },
        CollisionDirection::Left => {
            let x = saturate(solid_col.left_border(solid_pos) - other_col.w as i64);
            positions.insert(other, Position { x, y: other_pos.y });
            if let Some(v) = velocities.get_copied(other) {
                velocities.insert(other, Velocity { x: unscaled_solid_vel.x, y: v.y });
            }
            if terrain {
                wall_collisions.insert(other, WallCollision::Left);
            }
        },
        CollisionDirection::Right => {
            let x = saturate(solid_col.right_border(solid_pos));
            positions.insert(other, Position { x, y: other_pos.y });
            if let Some(v) = velocities.get_copied(other) {
                velocities.insert(other, Velocity { x: unscaled_solid_vel.x, y: v.y });
            }
            if terrain {
                wall_collisions.insert(other, WallCollision::Right);
            }
        },
        _ => (),
    }
}

/// Whether the pair `i` of `fixed` is a collision of `other`.
pub open spec fn in_group(fixed: Seq<Collision>, other: Entity, i: int) -> bool {
    0 <= i < fixed.len() && fixed[i].1 == other
}

/// Whether the pair `i` of `fixed` is a collision of `other` with a solid
/// into which it has run from the side `flag`.
pub open spec fn proposal(
    s: Scene,
    fixed: Seq<Collision>,
    other: Entity,
    flag: CollisionDirection,
    i: int,
) -> bool {
    in_group(fixed, other, i) && s.direction(fixed[i].0, other).holds(flag)
}

/// Whether `other` has run into some solid from the side `flag`.
pub open spec fn some_propose(
    s: Scene,
    fixed: Seq<Collision>,
    other: Entity,
    flag: CollisionDirection,
) -> bool {
    exists|i: int| #[trigger] proposal(s, fixed, other, flag, i)
}

/// Whether `other` has run into every one of its solids from the side
/// `flag`.
pub open spec fn all_propose(
    s: Scene,
    fixed: Seq<Collision>,
    other: Entity,
    flag: CollisionDirection,
) -> bool {
    forall|i: int| #[trigger] in_group(fixed, other, i) ==> proposal(s, fixed, other, flag, i)
}

/// The border of `solid` that an entity resolved on the side `flag` is put
/// against.
pub open spec fn border(
    s: Scene,
    flag: CollisionDirection,
    solid: Entity,
) -> int {
    let col = s.colliders[solid];
    let pos = s.positions[solid];
    match flag {
        CollisionDirection::Above => col.upper(pos),
        CollisionDirection::Below => col.lower(pos),
        CollisionDirection::Right => col.right(pos),
        _ => col.left(pos),
    }
}

/// Whether the resolution on the side `flag` takes the solid `a` rather
/// than the solid `b`: the one whose border lies further out, which is the
/// higher one for `Above` and `Right` and the lower one for `Below` and
/// `Left`; of two solids with the same border, the one with the lower
/// identifier.
pub open spec fn preferred(s: Scene, flag: CollisionDirection, a: Entity, b: Entity) -> bool {
    let ka = border(s, flag, a);
    let kb = border(s, flag, b);
    if ka == kb {
        a.0 < b.0
    } else if flag == CollisionDirection::Above || flag == CollisionDirection::Right {
        ka > kb
    } else {
        ka < kb
    }
}

/// Whether `solid` is the solid that `other` is resolved against on the
/// side `flag`: among the solids into which `other` has run from that side,
/// the one that is preferred to every other.
pub open spec fn is_chosen(
    s: Scene,
    fixed: Seq<Collision>,
    other: Entity,
    flag: CollisionDirection,
    solid: Entity,
) -> bool {
    &&& exists|i: int| #[trigger] proposal(s, fixed, other, flag, i) && fixed[i].0 == solid
    &&& forall|j: int| #[trigger]
        proposal(s, fixed, other, flag, j) ==> fixed[j].0 == solid || preferred(
            s,
            flag,
            solid,
            fixed[j].0,
        )
}

/// The solid that `other` is resolved against on the side `flag`.
pub open spec fn chosen(
    s: Scene,
    fixed: Seq<Collision>,
    other: Entity,
    flag: CollisionDirection,
) -> Entity {
    choose|solid: Entity| is_chosen(s, fixed, other, flag, solid)
}

/// The choice of the solid is determined: no two solids are both the one
/// that `other` is resolved against.
pub proof fn lemma_choice_is_unique(
    s: Scene,
    fixed: Seq<Collision>,
    other: Entity,
    flag: CollisionDirection,
    a: Entity,
    b: Entity,
)
    requires
        is_chosen(s, fixed, other, flag, a),
        is_chosen(s, fixed, other, flag, b),
    ensures
        a == b,
        chosen(s, fixed, other, flag) == a,
{
    let i = choose|i: int| #[trigger] proposal(s, fixed, other, flag, i) && fixed[i].0 == a;
    let j = choose|j: int| #[trigger] proposal(s, fixed, other, flag, j) && fixed[j].0 == b;
    assert(fixed[j].0 == a || preferred(s, flag, a, fixed[j].0));
    assert(fixed[i].0 == b || preferred(s, flag, b, fixed[i].0));
    let c = chosen(s, fixed, other, flag);
    assert(is_chosen(s, fixed, other, flag, c));
    assert(fixed[i].0 == c || preferred(s, flag, c, fixed[i].0));
    let k = choose|k: int| #[trigger] proposal(s, fixed, other, flag, k) && fixed[k].0 == c;
    assert(fixed[k].0 == a || preferred(s, flag, a, fixed[k].0));
}

/// How the collisions of one entity are resolved.
#[derive(Debug, Clone, Copy, PartialEq, Eq, Structural)]
pub enum Resolution {
    /// Every solid was run into from one side: the entity is put against
    /// `solid` on the side `direction`.
    Single { direction: CollisionDirection, solid: Entity },
    /// The solids disagree: the entity is put against `vertical_solid` on
    /// the side `vertical`, then against `horizontal_solid` on the side
    /// `horizontal`.
    Split {
        vertical: CollisionDirection,
        vertical_solid: Entity,
        horizontal: CollisionDirection,
        horizontal_solid: Entity,
    },
    /// The entity is pinched between solids that push it in opposite
    /// directions. It stays where it is.
    Squashed,
    /// The solids disagree and on one axis none of them was run into: the
    /// entity is inside of a collider. It stays where it is.
    Inside,
}

/// How the collisions of `other` are resolved when its solids share no
/// direction.
pub open spec fn split_resolution(s: Scene, fixed: Seq<Collision>, other: Entity) -> Resolution {
    let above = some_propose(s, fixed, other, CollisionDirection::Above);
    let below = some_propose(s, fixed, other, CollisionDirection::Below);
    let left = some_propose(s, fixed, other, CollisionDirection::Left);
    let right = some_propose(s, fixed, other, CollisionDirection::Right);
    if (above && below) || (left && right) {
        Resolution::Squashed
    } else if !(above || below) || !(left || right) {
        Resolution::Inside
    } else {
        let vertical = if above {
            CollisionDirection::Above
        } else {
            CollisionDirection::Below
        };
        let horizontal = if right {
            CollisionDirection::Right
        } else {
            CollisionDirection::Left
        };
        Resolution::Split {
            vertical,
            vertical_solid: chosen(s, fixed, other, vertical),
            horizontal,
            horizontal_solid: chosen(s, fixed, other, horizontal),
        }
    }
}

/// How the collisions of `other` are resolved. A direction that all its
/// solids share decides, the vertical one first; without one the resolution
/// is split by axis.
pub open spec fn resolution(s: Scene, fixed: Seq<Collision>, other: Entity) -> Resolution {
    if all_propose(s, fixed, other, CollisionDirection::Above) {
        Resolution::Single {
            direction: CollisionDirection::Above,
            solid: chosen(s, fixed, other, CollisionDirection::Above),
        }
    } else if all_propose(s, fixed, other, CollisionDirection::Below) {
        Resolution::Single {
            direction: CollisionDirection::Below,
            solid: chosen(s, fixed, other, CollisionDirection::Below),
        }
    } else if all_propose(s, fixed, other, CollisionDirection::Right) {
        Resolution::Single {
            direction: CollisionDirection::Right,
            solid: chosen(s, fixed, other, CollisionDirection::Right),
        }
    } else if all_propose(s, fixed, other, CollisionDirection::Left) {
        Resolution::Single {
            direction: CollisionDirection::Left,
            solid: chosen(s, fixed, other, CollisionDirection::Left),
        }
    } else {
        split_resolution(s, fixed, other)
    }
}

/// The bodies after the collisions of `other` were resolved as `r` says.
pub open spec fn applied(
    b: Bodies,
    colliders: Map<Entity, Collider>,
    other: Entity,
    r: Resolution,
) -> Bodies {
    match r {
        Resolution::Single { direction, solid } => resolved(b, colliders, direction, other, solid),
        Resolution::Split { vertical, vertical_solid, horizontal, horizontal_solid } => resolved(
            resolved(b, colliders, vertical, other, vertical_solid),
            colliders,
            horizontal,
            other,
            horizontal_solid,
        ),
        _ => b,
    }
}

/// Whether every entity of every pair of `fixed` has a position and a
/// collider.
pub open spec fn all_have_bodies(
    fixed: Seq<Collision>,
    positions: Map<Entity, Position>,
    colliders: Map<Entity, Collider>,
) -> bool {
    forall|i: int|
        0 <= i < fixed.len() ==> {
            &&& positions.contains_key((#[trigger] fixed[i]).0)
            &&& colliders.contains_key(fixed[i].0)
            &&& positions.contains_key(fixed[i].1)
            &&& colliders.contains_key(fixed[i].1)
        }
}

/// Whether the pair `n` of `fixed` is the first collision of its entity.
pub open spec fn first_of_group(fixed: Seq<Collision>, n: int) -> bool {
    forall|j: int| 0 <= j < n ==> (#[trigger] fixed[j]).1 != fixed[n].1
}

/// The bodies after the collisions of the entities of the first `n` pairs of
/// `fixed` were resolved, entity by entity in the order in which each one
/// first occurs in `fixed`. No wall is recorded before the first resolution.
pub open spec fn resolved_upto(
    start: Bodies,
    previous_positions: Map<Entity, Position>,
    colliders: Map<Entity, Collider>,
    fixed: Seq<Collision>,
    n: nat,
) -> Bodies
    decreases n,
{
    if n == 0 {
        bodies(start.positions, start.velocities, start.grounded, Map::empty())
    } else {
        let b = resolved_upto(start, previous_positions, colliders, fixed, (n - 1) as nat);
        if first_of_group(fixed, n - 1) {
            let other = fixed[n - 1].1;
            applied(
                b,
                colliders,
                other,
                resolution(b.seen(previous_positions, colliders), fixed, other),
            )
        } else {
            b
        }
    }
}

/// Whether the resolution `r` leaves its entity where it is.
pub open spec fn is_skipped(r: Resolution) -> bool {
    r == Resolution::Squashed || r == Resolution::Inside
}

/// The entities of the first `n` pairs of `fixed` whose collisions were
/// left unresolved, each with the reason, in the order of their turns.
pub open spec fn unresolved_upto(
    start: Bodies,
    previous_positions: Map<Entity, Position>,
    colliders: Map<Entity, Collider>,
    fixed: Seq<Collision>,
    n: nat,
) -> Seq<(Entity, Resolution)>
    decreases n,
{
    if n == 0 {
        Seq::empty()
    } else {
        let rest = unresolved_upto(start, previous_positions, colliders, fixed, (n - 1) as nat);
        let b = resolved_upto(start, previous_positions, colliders, fixed, (n - 1) as nat);
        let other = fixed[n - 1].1;
        let r = resolution(b.seen(previous_positions, colliders), fixed, other);
        if first_of_group(fixed, n - 1) && is_skipped(r) {
            rest.push((other, r))
        } else {
            rest
        }
    }
}

/// The border of a collider at `pos` that an entity resolved on the side
/// `flag` is put against.
fn border_of(flag: CollisionDirection, col: Collider, pos: Position) -> (b: i64)
    ensures
        b == (match flag {
            CollisionDirection::Above => col.upper(pos),
            CollisionDirection::Below => col.lower(pos),
            CollisionDirection::Right => col.right(pos),
            _ => col.left(pos),
        }),
{
    match flag {
        CollisionDirection::Above => col.upper_border(pos),
        CollisionDirection::Below => col.lower_border(pos),
        CollisionDirection::Right => col.right_border(pos),
        _ => col.left_border(pos),
    }
}

/// Whether `other` has run into some, and whether into each, of its solids
/// from the side `flag`.
pub fn proposals(
    flag: CollisionDirection,
    other: Entity,
    fixed: &Vec<Collision>,
    positions: &Storage<Position>,
    previous_positions: &Storage<Position>,
    colliders: &Storage<Collider>,
    velocities: &Storage<Velocity>,
) -> (r: (bool, bool))
    requires
        flag.is_flag(),
        all_have_bodies(fixed@, positions@, colliders@),
        positions@.contains_key(other),
        colliders@.contains_key(other),
    ensures
        r.0 == some_propose(
            scene(positions@, previous_positions@, velocities@, colliders@),
            fixed@,
            other,
            flag,
        ),
        r.1 == all_propose(
            scene(positions@, previous_positions@, velocities@, colliders@),
            fixed@,
            other,
            flag,
        ),
{
    let ghost s = scene(positions@, previous_positions@, velocities@, colliders@);
    let (_other_pos, other_prev_pos, other_col, other_vel) = pos_prev_pos_col_vel(
        positions,
        previous_positions,
        colliders,
        velocities,
        other,
    );
    let mut some = false;
    let mut all = true;
    let mut i: usize = 0;
    while i < fixed.len()
        invariant
            i <= fixed.len(),
            flag.is_flag(),
            all_have_bodies(fixed@, positions@, colliders@),
            s == scene(positions@, previous_positions@, velocities@, colliders@),
            (other_prev_pos, other_col, other_vel) == s.body(other),
            some == (exists|j: int| j < i && #[trigger] proposal(s, fixed@, other, flag, j)),
            all == (forall|j: int|
                j < i && #[trigger] in_group(fixed@, other, j) ==> proposal(
                    s,
                    fixed@,
                    other,
                    flag,
                    j,
                )),
        decreases fixed.len() - i,
    {
        let c = fixed[i];
        if c.1 == other {
            let (_solid_pos, solid_prev_pos, solid_col, solid_vel) = pos_prev_pos_col_vel(
                positions,
                previous_positions,
                colliders,
                velocities,
                c.0,
            );
            let found = collision_direction(
                (solid_prev_pos, solid_col, solid_vel),
                (other_prev_pos, other_col, other_vel),
            );
            assert(found == s.direction(c.0, other));
            if found.has(flag) {
                assert(proposal(s, fixed@, other, flag, i as int));
                some = true;
            } else {
                assert(in_group(fixed@, other, i as int));
                all = false;
            }
        }
        i += 1;
    }
    (some, all)
}

/// The solid that `other` is resolved against on the side `flag`.
pub fn choose_solid(
    flag: CollisionDirection,
    other: Entity,
    fixed: &Vec<Collision>,
    positions: &Storage<Position>,
    previous_positions: &Storage<Position>,
    colliders: &Storage<Collider>,
    velocities: &Storage<Velocity>,
) -> (solid: Entity)
    requires
        flag.is_flag(),
        all_have_bodies(fixed@, positions@, colliders@),
        positions@.contains_key(other),
        colliders@.contains_key(other),
        some_propose(
            scene(positions@, previous_positions@, velocities@, colliders@),
            fixed@,
            other,
            flag,
        ),
    ensures
        is_chosen(
            scene(positions@, previous_positions@, velocities@, colliders@),
            fixed@,
            other,
            flag,
            solid,
        ),
        solid == chosen(
            scene(positions@, previous_positions@, velocities@, colliders@),
            fixed@,
            other,
            flag,
        ),
        positions@.contains_key(solid),
        colliders@.contains_key(solid),
{
    let ghost s = scene(positions@, previous_positions@, velocities@, colliders@);
    let (_other_pos, other_prev_pos, other_col, other_vel) = pos_prev_pos_col_vel(
        positions,
        previous_positions,
        colliders,
        velocities,
        other,
    );
    let mut best: Option<(Entity, i64)> = None;
    let mut i: usize = 0;
    while i < fixed.len()
        invariant
            i <= fixed.len(),
            flag.is_flag(),
            all_have_bodies(fixed@, positions@, colliders@),
            s == scene(positions@, previous_positions@, velocities@, colliders@),
            (other_prev_pos, other_col, other_vel) == s.body(other),
            best is None ==> forall|j: int| j < i ==> !#[trigger] proposal(s, fixed@, other, flag, j),
            best matches Some(found) ==> {
                &&& found.1 == border(s, flag, found.0)
                &&& exists|j: int|
                    j < i && #[trigger] proposal(s, fixed@, other, flag, j) && fixed@[j].0
                        == found.0
                &&& forall|j: int|
                    j < i && #[trigger] proposal(s, fixed@, other, flag, j) ==> fixed@[j].0
                        == found.0 || preferred(s, flag, found.0, fixed@[j].0)
            },
        decreases fixed.len() - i,
    {
        let c = fixed[i];
        if c.1 == other {
            let (solid_pos, solid_prev_pos, solid_col, solid_vel) = pos_prev_pos_col_vel(
                positions,
                previous_positions,
                colliders,
                velocities,
                c.0,
            );
            let found = collision_direction(
                (solid_prev_pos, solid_col, solid_vel),
                (other_prev_pos, other_col, other_vel),
            );
            assert(found == s.direction(c.0, other));
            if found.has(flag) {
                assert(proposal(s, fixed@, other, flag, i as int));
                let key = border_of(flag, solid_col, solid_pos);
                let outward = match flag {
                    CollisionDirection::Above | CollisionDirection::Right => true,
                    _ => false,
                };
                let better = match best {
                    None => true,
                    Some((e, k)) => if key == k {
                        c.0.0 < e.0
                    } else if outward {
                        key > k
                    } else {
                        key < k
                    },
                };
                if better {
                    best = Some((c.0, key));
                }
            }
        }
        i += 1;
    }
    match best {
        Some((e, _)) => {
            proof {
                lemma_choice_is_unique(s, fixed@, other, flag, e, e);
            }
            e
        },
        None => {
            proof {
                let j = choose|j: int| #[trigger] proposal(s, fixed@, other, flag, j);
                assert(proposal(s, fixed@, other, flag, j));
                assert(false);
            }
            other
        },
    }
}

/// Decides how the collisions of `other` are resolved when its solids share
/// no direction. `above`, `below`, `left` and `right` say whether some solid
/// was run into from that side.
pub fn collision_none(
    above: bool,
    below: bool,
    left: bool,
    right: bool,
    other: Entity,
    fixed: &Vec<Collision>,
    positions: &Storage<Position>,
    previous_positions: &Storage<Position>,
    colliders: &Storage<Collider>,
    velocities: &Storage<Velocity>,
) -> (r: Resolution)
    requires
        all_have_bodies(fixed@, positions@, colliders@),
        positions@.contains_key(other),
        colliders@.contains_key(other),
        above == some_propose(
            scene(positions@, previous_positions@, velocities@, colliders@),
            fixed@,
            other,
            CollisionDirection::Above,
        ),
        below == some_propose(
            scene(positions@, previous_positions@, velocities@, colliders@),
            fixed@,
            other,
            CollisionDirection::Below,
        ),
        left == some_propose(
            scene(positions@, previous_positions@, velocities@, colliders@),
            fixed@,
            other,
            CollisionDirection::Left,
        ),
        right == some_propose(
            scene(positions@, previous_positions@, velocities@, colliders@),
            fixed@,
            other,
            CollisionDirection::Right,
        ),
    ensures
        r == split_resolution(
            scene(positions@, previous_positions@, velocities@, colliders@),
            fixed@,
            other,
        ),
        r.is_sound(positions@, colliders@),
{
    if (above && below) || (left && right) {
        // pinched between opposite solids
        return Resolution::Squashed;
    }
    if !(above || below) || !(left || right) {
        return Resolution::Inside;
    }
    let vertical = if above {
        CollisionDirection::Above
    } else {
        CollisionDirection::Below
    };
    let vertical_solid = choose_solid(
        vertical,
        other,
        fixed,
        positions,
        previous_positions,
        colliders,
        velocities,
    );
    let horizontal = if right {
        CollisionDirection::Right
    } else {
        CollisionDirection::Left
    };
    let horizontal_solid = choose_solid(
        horizontal,
        other,
        fixed,
        positions,
        previous_positions,
        colliders,
        velocities,
    );
    Resolution::Split { vertical, vertical_solid, horizontal, horizontal_solid }
}

/// Decides how the collisions of `other` are resolved.
pub fn resolution_for(
    other: Entity,
    fixed: &Vec<Collision>,
    positions: &Storage<Position>,
    previous_positions: &Storage<Position>,
    colliders: &Storage<Collider>,
    velocities: &Storage<Velocity>,
) -> (r: Resolution)
    requires
        all_have_bodies(fixed@, positions@, colliders@),
        exists|i: int| in_group(fixed@, other, i),
    ensures
        r == resolution(
            scene(positions@, previous_positions@, velocities@, colliders@),
            fixed@,
            other,
        ),
        r.is_sound(positions@, colliders@),
{
    let ghost s = scene(positions@, previous_positions@, velocities@, colliders@);
    proof {
        let i = choose|i: int| in_group(fixed@, other, i);
        assert(positions@.contains_key(fixed@[i].1));
        assert forall|flag: CollisionDirection| #[trigger]
            all_propose(s, fixed@, other, flag) implies some_propose(s, fixed@, other, flag) by {
            assert(in_group(fixed@, other, i));
            assert(proposal(s, fixed@, other, flag, i));
        }
    }
    let (above, all_above) = proposals(
        CollisionDirection::Above,
        other,
        fixed,
        positions,
        previous_positions,
        colliders,
        velocities,
    );
    if all_above {
        let solid = choose_solid(
            CollisionDirection::Above,
            other,
            fixed,
            positions,
            previous_positions,
            colliders,
            velocities,
        );
        return Resolution::Single { direction: CollisionDirection::Above, solid };
    }
    let (below, all_below) = proposals(
        CollisionDirection::Below,
        other,
        fixed,
        positions,
        previous_positions,
        colliders,
        velocities,
    );
    if all_below {
        let solid = choose_solid(
            CollisionDirection::Below,
            other,
            fixed,
            positions,
            previous_positions,
            colliders,
            velocities,
        );
        return Resolution::Single { direction: CollisionDirection::Below, solid };
    }
    let (right, all_right) = proposals(
        CollisionDirection::Right,
        other,
        fixed,
        positions,
        previous_positions,
        colliders,
        velocities,
    );
    if all_right {
        let solid = choose_solid(
            CollisionDirection::Right,
            other,
            fixed,
            positions,
            previous_positions,
            colliders,
            velocities,
        );
        return Resolution::Single { direction: CollisionDirection::Right, solid };
    }
    let (left, all_left) = proposals(
        CollisionDirection::Left,
        other,
        fixed,
        positions,
        previous_positions,
        colliders,
        velocities,
    );
    if all_left {
        let solid = choose_solid(
            CollisionDirection::Left,
            other,
            fixed,
            positions,
            previous_positions,
            colliders,
            velocities,
        );
        return Resolution::Single { direction: CollisionDirection::Left, solid };
    }
    collision_none(
        above,
        below,
        left,
        right,
        other,
        fixed,
        positions,
        previous_positions,
        colliders,
        velocities,
    )
}

/// Resolves the collisions of `other` as `resolution` says.
pub fn apply_resolution(
    resolution: Resolution,
    other: Entity,
    positions: &mut Storage<Position>,
    wall_collisions: &mut Storage<WallCollision>,
    grounded: &mut Storage<Grounded>,
    velocities: &mut Storage<Velocity>,
    colliders: &Storage<Collider>,
)
    requires
        resolution.is_sound(old(positions)@, colliders@),
        old(positions)@.contains_key(other),
        colliders@.contains_key(other),
    ensures
        bodies(final(positions)@, final(velocities)@, final(grounded)@, final(wall_collisions)@)
            == applied(
            bodies(old(positions)@, old(velocities)@, old(grounded)@, old(wall_collisions)@),
            colliders@,
            other,
            resolution,
        ),
{
    match resolution {
        Resolution::Single { direction, solid } => {
            resolve_collision(
                direction,
                other,
                solid,
                positions,
                wall_collisions,
                grounded,
                velocities,
                colliders,
            );
        },
        Resolution::Split { vertical, vertical_solid, horizontal, horizontal_solid } => {
            resolve_collision(
                vertical,
                other,
                vertical_solid,
                positions,
                wall_collisions,
                grounded,
                velocities,
                colliders,
            );
            resolve_collision(
                horizontal,
                other,
                horizontal_solid,
                positions,
                wall_collisions,
                grounded,
                velocities,
                colliders,
            );
        },
        Resolution::Squashed | Resolution::Inside => (),
    }
}

/// Whether the pair `n` of `fixed` is the first collision of its entity.
fn is_first_of_group(fixed: &Vec<Collision>, n: usize) -> (r: bool)
    requires
        n < fixed.len(),
    ensures
        r == first_of_group(fixed@, n as int),
{
    let other = fixed[n].1;
    let mut j: usize = 0;
    while j < n
        invariant
            j <= n < fixed.len(),
            other == fixed@[n as int].1,
            forall|k: int| 0 <= k < j ==> (#[trigger] fixed@[k]).1 != other,
        decreases n - j,
    {
        if fixed[j].1 == other {
            return false;
        }
        j += 1;
    }
    true
}

/// Resolves the collisions of moving entities with solids.
#[derive(Debug, Default)]
pub struct FixedCollisionSystem;

impl FixedCollisionSystem {
    pub fn new() -> (s: Self) {
        FixedCollisionSystem
    }

    /// Forgets the walls of the last tick, then resolves the collisions of
    /// `collisions.fixed`, entity by entity in the order in which each
    /// entity first occurs there. Returns the entities whose collisions
    /// could not be resolved, each with the reason; they stay where they
    /// are.
    pub fn run(
        &mut self,
        positions: &mut Storage<Position>,
        previous_positions: &Storage<Position>,
        grounded: &mut Storage<Grounded>,
        wall_collisions: &mut Storage<WallCollision>,
        velocities: &mut Storage<Velocity>,
        colliders: &Storage<Collider>,
        collisions: &Collisions,
    ) -> (unresolved: Vec<(Entity, Resolution)>)
        requires
            all_have_bodies(collisions.fixed@, old(positions)@, colliders@),
        ensures
            unresolved@ == unresolved_upto(
                bodies(old(positions)@, old(velocities)@, old(grounded)@, old(wall_collisions)@),
                previous_positions@,
                colliders@,
                collisions.fixed@,
                collisions.fixed@.len(),
            ),
            bodies(
                final(positions)@,
                final(velocities)@,
                final(grounded)@,
                final(wall_collisions)@,
            ) == resolved_upto(
                bodies(old(positions)@, old(velocities)@, old(grounded)@, old(wall_collisions)@),
                previous_positions@,
                colliders@,
                collisions.fixed@,
                collisions.fixed@.len(),
            ),
            all_have_bodies(collisions.fixed@, final(positions)@, colliders@),
    {
        let ghost start = bodies(
            old(positions)@,
            old(velocities)@,
            old(grounded)@,
            old(wall_collisions)@,
        );
        wall_collisions.clear();
        let mut unresolved: Vec<(Entity, Resolution)> = Vec::new();
        let mut n: usize = 0;
        while n < collisions.fixed.len()
            invariant
                n <= collisions.fixed.len(),
                unresolved@ == unresolved_upto(
                    start,
                    previous_positions@,
                    colliders@,
                    collisions.fixed@,
                    n as nat,
                ),
                all_have_bodies(collisions.fixed@, positions@, colliders@),
                bodies(positions@, velocities@, grounded@, wall_collisions@) == resolved_upto(
                    start,
                    previous_positions@,
                    colliders@,
                    collisions.fixed@,
                    n as nat,
                ),
            decreases collisions.fixed.len() - n,
        {
            let other = collisions.fixed[n].1;
            let ghost before = bodies(positions@, velocities@, grounded@, wall_collisions@);
            if is_first_of_group(&collisions.fixed, n) {
                assert(in_group(collisions.fixed@, other, n as int));
                let resolution = resolution_for(
                    other,
                    &collisions.fixed,
                    positions,
                    previous_positions,
                    colliders,
                    velocities,
                );
                assert(before.seen(previous_positions@, colliders@) == scene(
                    positions@,
                    previous_positions@,
                    velocities@,
                    colliders@,
                ));
                apply_resolution(
                    resolution,
                    other,
                    positions,
                    wall_collisions,
                    grounded,
                    velocities,
                    colliders,
                );
                match resolution {
                    Resolution::Squashed | Resolution::Inside => {
                        unresolved.push((other, resolution));
                    },
                    _ => (),
                }
                proof {
                    lemma_applied_keeps_bodies(before, colliders@, other, resolution);
                }
            }
            n += 1;
        }
        unresolved
    }
}

impl Resolution {
    /// Whether each direction of the resolution is a single flag and each
    /// of its solids has a position and a collider.
    pub open spec fn is_sound(
        self,
        positions: Map<Entity, Position>,
        colliders: Map<Entity, Collider>,
    ) -> bool {
        match self {
            Resolution::Single { direction, solid } => {
                &&& direction.is_flag()
                &&& positions.contains_key(solid)
                &&& colliders.contains_key(solid)
            },
            Resolution::Split { vertical, vertical_solid, horizontal, horizontal_solid } => {
                &&& vertical.is_flag()
                &&& horizontal.is_flag()
                &&& positions.contains_key(vertical_solid)
                &&& colliders.contains_key(vertical_solid)
                &&& positions.contains_key(horizontal_solid)
                &&& colliders.contains_key(horizontal_solid)
            },
            _ => true,
        }
    }
}

/// A resolution gives no entity a position that had none, and takes none
/// away.
pub proof fn lemma_applied_keeps_bodies(
    b: Bodies,
    colliders: Map<Entity, Collider>,
    other: Entity,
    r: Resolution,
)
    requires
        b.positions.contains_key(other),
    ensures
        forall|e: Entity|
            applied(b, colliders, other, r).positions.contains_key(e) == b.positions.contains_key(
                e,
            ),
{
}

/// An entity that is put against a solid takes over the velocity of the
/// solid on the axis of the resolution, exactly, and keeps its own on the
/// other axis.
pub proof fn lemma_velocity_is_inherited(
    b: Bodies,
    colliders: Map<Entity, Collider>,
    direction: CollisionDirection,
    other: Entity,
    solid: Entity,
)
    requires
        direction.is_flag(),
        b.velocities.contains_key(other),
    ensures
        direction == CollisionDirection::Above || direction == CollisionDirection::Below
            ==> resolved(b, colliders, direction, other, solid).velocities[other] == (Velocity {
            x: b.velocities[other].x,
            y: b.velocity(solid).y,
        }),
        direction == CollisionDirection::Left || direction == CollisionDirection::Right
            ==> resolved(b, colliders, direction, other, solid).velocities[other] == (Velocity {
            x: b.velocity(solid).x,
            y: b.velocities[other].y,
        }),
{
}

/// An entity that is put onto terrain from above is grounded right after.
pub proof fn lemma_landing_grounds(
    b: Bodies,
    colliders: Map<Entity, Collider>,
    other: Entity,
    solid: Entity,
)
    requires
        colliders[solid].ty.is_terrain(),
    ensures
        resolved(b, colliders, CollisionDirection::Above, other, solid).grounded.contains_key(
            other,
        ),
{
}

/// Whether the resolution `r` puts its entity onto terrain from above.
pub open spec fn lands(colliders: Map<Entity, Collider>, r: Resolution) -> bool {
    match r {
        Resolution::Single { direction, solid } => direction == CollisionDirection::Above
            && colliders[solid].ty.is_terrain(),
        Resolution::Split { vertical, vertical_solid, .. } => vertical == CollisionDirection::Above
            && colliders[vertical_solid].ty.is_terrain(),
        _ => false,
    }
}

/// Whether the pair `k` of `fixed` is the first collision of its entity and
/// the resolution of that entity puts it onto terrain from above.
pub open spec fn landed(
    start: Bodies,
    previous_positions: Map<Entity, Position>,
    colliders: Map<Entity, Collider>,
    fixed: Seq<Collision>,
    k: int,
) -> bool {
    &&& 0 <= k < fixed.len()
    &&& first_of_group(fixed, k)
    &&& lands(
        colliders,
        resolution(
            resolved_upto(start, previous_positions, colliders, fixed, k as nat).seen(
                previous_positions,
                colliders,
            ),
            fixed,
            fixed[k].1,
        ),
    )
}

/// After the first `n` pairs were resolved, the grounded entities are those
/// that were grounded before and those that a resolution has put onto
/// terrain from above: a resolution grounds its entity at once, and nothing
/// else does. With no grounded entity at the start of a tick, as the
/// integration of motion leaves it, an entity is grounded after the tick if
/// and only if it has landed in it.
pub proof fn lemma_grounded_after(
    start: Bodies,
    previous_positions: Map<Entity, Position>,
    colliders: Map<Entity, Collider>,
    fixed: Seq<Collision>,
    n: nat,
    e: Entity,
)
    requires
        n <= fixed.len(),
    ensures
        resolved_upto(start, previous_positions, colliders, fixed, n).grounded.contains_key(e) <==> (
        start.grounded.contains_key(e) || exists|k: int|
            k < n && #[trigger] landed(start, previous_positions, colliders, fixed, k) && fixed[k].1
                == e),
    decreases n,
{
    if n > 0 {
        let m = (n - 1) as nat;
        lemma_grounded_after(start, previous_positions, colliders, fixed, m, e);
        let b = resolved_upto(start, previous_positions, colliders, fixed, m);
        let after = resolved_upto(start, previous_positions, colliders, fixed, n);
        let other = fixed[m as int].1;
        let r = resolution(b.seen(previous_positions, colliders), fixed, other);
        if first_of_group(fixed, m as int) {
            assert(after.grounded == if lands(colliders, r) {
                b.grounded.insert(other, Grounded)
            } else {
                b.grounded
            });
            assert(landed(start, previous_positions, colliders, fixed, m as int) == lands(
                colliders,
                r,
            ));
        } else {
            assert(!landed(start, previous_positions, colliders, fixed, m as int));
        }
        if after.grounded.contains_key(e) {
            if !b.grounded.contains_key(e) {
                assert(landed(start, previous_positions, colliders, fixed, m as int));
            }
        }
    }
}

/// An entity that is in no collision with a solid is left as it was: its
/// position and its velocity are kept, and the resolver does not ground it.
pub proof fn lemma_untouched(
    start: Bodies,
    previous_positions: Map<Entity, Position>,
    colliders: Map<Entity, Collider>,
    fixed: Seq<Collision>,
    n: nat,
    e: Entity,
)
    requires
        n <= fixed.len(),
        forall|i: int| 0 <= i < fixed.len() ==> (#[trigger] fixed[i]).1 != e,
    ensures
        resolved_upto(start, previous_positions, colliders, fixed, n).positions.contains_key(e)
            == start.positions.contains_key(e),
        resolved_upto(start, previous_positions, colliders, fixed, n).positions[e]
            == start.positions[e],
        resolved_upto(start, previous_positions, colliders, fixed, n).velocities.contains_key(e)
            == start.velocities.contains_key(e),
        resolved_upto(start, previous_positions, colliders, fixed, n).velocities[e]
            == start.velocities[e],
        resolved_upto(start, previous_positions, colliders, fixed, n).grounded.contains_key(e)
            == start.grounded.contains_key(e),
        !resolved_upto(start, previous_positions, colliders, fixed, n).wall_collisions.contains_key(
            e,
        ),
    decreases n,
{
    if n > 0 {
        let m = (n - 1) as nat;
        lemma_untouched(start, previous_positions, colliders, fixed, m, e);
        assert(fixed[m as int].1 != e);
    }
}

/// Whether `a` and `b` hold the same pairs, in whatever order and number.
pub open spec fn same_pairs(a: Seq<Collision>, b: Seq<Collision>) -> bool {
    forall|c: Collision| a.contains(c) <==> b.contains(c)
}

proof fn lemma_proposals_ignore_order(
    s: Scene,
    a: Seq<Collision>,
    b: Seq<Collision>,
    other: Entity,
    flag: CollisionDirection,
)
    requires
        same_pairs(a, b),
    ensures
        some_propose(s, a, other, flag) ==> some_propose(s, b, other, flag),
        all_propose(s, a, other, flag) ==> all_propose(s, b, other, flag),
        forall|solid: Entity|
            is_chosen(s, a, other, flag, solid) ==> is_chosen(s, b, other, flag, solid),
{
    if some_propose(s, a, other, flag) {
        let i = choose|i: int| #[trigger] proposal(s, a, other, flag, i);
        assert(a.contains(a[i]));
        let j = choose|j: int| 0 <= j < b.len() && b[j] == a[i];
        assert(proposal(s, b, other, flag, j));
    }
    if all_propose(s, a, other, flag) {
        assert forall|j: int| #[trigger] in_group(b, other, j) implies proposal(
            s,
            b,
            other,
            flag,
            j,
        ) by {
            assert(b.contains(b[j]));
            let i = choose|i: int| 0 <= i < a.len() && a[i] == b[j];
            assert(in_group(a, other, i));
            assert(proposal(s, a, other, flag, i));
        }
    }
    assert forall|solid: Entity| is_chosen(s, a, other, flag, solid) implies is_chosen(
        s,
        b,
        other,
        flag,
        solid,
    ) by {
        let i = choose|i: int| #[trigger] proposal(s, a, other, flag, i) && a[i].0 == solid;
        assert(a.contains(a[i]));
        let j = choose|j: int| 0 <= j < b.len() && b[j] == a[i];
        assert(proposal(s, b, other, flag, j) && b[j].0 == solid);
        assert forall|k: int| #[trigger] proposal(s, b, other, flag, k) implies b[k].0 == solid
            || preferred(s, flag, solid, b[k].0) by {
            assert(b.contains(b[k]));
            let m = choose|m: int| 0 <= m < a.len() && a[m] == b[k];
            assert(proposal(s, a, other, flag, m));
        }
    }
}

proof fn lemma_choice_ignores_order(
    s: Scene,
    a: Seq<Collision>,
    b: Seq<Collision>,
    other: Entity,
    flag: CollisionDirection,
)
    requires
        same_pairs(a, b),
        some_propose(s, a, other, flag),
        flag.is_flag(),
    ensures
        chosen(s, a, other, flag) == chosen(s, b, other, flag),
{
    lemma_choice_exists(s, a, other, flag, a.len() as int);
    let solid = choose|solid: Entity| is_chosen(s, a, other, flag, solid);
    lemma_choice_is_unique(s, a, other, flag, solid, solid);
    lemma_proposals_ignore_order(s, a, b, other, flag);
    assert(is_chosen(s, b, other, flag, solid));
    lemma_choice_is_unique(s, b, other, flag, solid, solid);
}

/// Whether `solid` is, among the solids of the first `n` pairs into which
/// `other` has run from the side `flag`, the one that is preferred to every
/// other.
spec fn is_chosen_of_first(
    s: Scene,
    fixed: Seq<Collision>,
    other: Entity,
    flag: CollisionDirection,
    n: int,
    solid: Entity,
) -> bool {
    &&& exists|i: int|
        i < n && #[trigger] proposal(s, fixed, other, flag, i) && fixed[i].0 == solid
    &&& forall|j: int|
        j < n && #[trigger] proposal(s, fixed, other, flag, j) ==> fixed[j].0 == solid
            || preferred(s, flag, solid, fixed[j].0)
}

/// Among the solids into which an entity has run from one side, one is
/// preferred to every other.
proof fn lemma_choice_exists(
    s: Scene,
    fixed: Seq<Collision>,
    other: Entity,
    flag: CollisionDirection,
    n: int,
)
    requires
        0 <= n <= fixed.len(),
    ensures
        (exists|i: int| i < n && #[trigger] proposal(s, fixed, other, flag, i)) ==> exists|
            solid: Entity,
        | #[trigger] is_chosen_of_first(s, fixed, other, flag, n, solid),
        n == fixed.len() && some_propose(s, fixed, other, flag) ==> exists|solid: Entity|
            is_chosen(s, fixed, other, flag, solid),
    decreases n,
{
    if n > 0 {
        lemma_choice_exists(s, fixed, other, flag, n - 1);
        let last = n - 1;
        if exists|i: int| i < n - 1 && #[trigger] proposal(s, fixed, other, flag, i) {
            let best = choose|solid: Entity| #[trigger]
                is_chosen_of_first(s, fixed, other, flag, n - 1, solid);
            let w = choose|i: int|
                i < n - 1 && #[trigger] proposal(s, fixed, other, flag, i) && fixed[i].0 == best;
            let next = if proposal(s, fixed, other, flag, last) && fixed[last].0 != best
                && preferred(s, flag, fixed[last].0, best) {
                fixed[last].0
            } else {
                best
            };
            if next == best {
                assert(w < n && proposal(s, fixed, other, flag, w) && fixed[w].0 == next);
            } else {
                assert(last < n && proposal(s, fixed, other, flag, last) && fixed[last].0 == next);
            }
            assert forall|j: int| j < n && #[trigger] proposal(s, fixed, other, flag, j) implies
                fixed[j].0 == next || preferred(s, flag, next, fixed[j].0) by {
                if j < n - 1 {
                    assert(fixed[j].0 == best || preferred(s, flag, best, fixed[j].0));
                }
            }
            assert(is_chosen_of_first(s, fixed, other, flag, n, next));
        } else if proposal(s, fixed, other, flag, last) {
            let next = fixed[last].0;
            assert(last < n && proposal(s, fixed, other, flag, last) && fixed[last].0 == next);
            assert(is_chosen_of_first(s, fixed, other, flag, n, next));
        }
    }
    if n == fixed.len() && some_propose(s, fixed, other, flag) {
        let i = choose|i: int| #[trigger] proposal(s, fixed, other, flag, i);
        assert(i < n && proposal(s, fixed, other, flag, i));
        let solid = choose|solid: Entity| #[trigger]
            is_chosen_of_first(s, fixed, other, flag, n, solid);
        let w = choose|i: int|
            i < n && #[trigger] proposal(s, fixed, other, flag, i) && fixed[i].0 == solid;
        assert(proposal(s, fixed, other, flag, w) && fixed[w].0 == solid);
        assert(is_chosen(s, fixed, other, flag, solid));
    }
}

/// How the collisions of an entity are resolved depends on which solids
/// it has collided with, not on the order in which the collisions were
/// found: of solids with the same border, too, the same one is chosen.
pub proof fn lemma_resolution_ignores_order(
    s: Scene,
    a: Seq<Collision>,
    b: Seq<Collision>,
    other: Entity,
)
    requires
        same_pairs(a, b),
        exists|i: int| in_group(a, other, i),
    ensures
        resolution(s, a, other) == resolution(s, b, other),
{
    let i = choose|i: int| in_group(a, other, i);
    assert(in_group(a, other, i));
    assert(a.contains(a[i]));
    let j = choose|j: int| 0 <= j < b.len() && b[j] == a[i];
    assert(in_group(b, other, j));
    assert(same_pairs(b, a));
    let flags = seq![
        CollisionDirection::Above,
        CollisionDirection::Below,
        CollisionDirection::Right,
        CollisionDirection::Left,
    ];
    assert forall|k: int| 0 <= k < 4 implies {
        &&& some_propose(s, a, other, #[trigger] flags[k]) == some_propose(s, b, other, flags[k])
        &&& all_propose(s, a, other, flags[k]) == all_propose(s, b, other, flags[k])
        &&& some_propose(s, a, other, flags[k]) ==> chosen(s, a, other, flags[k]) == chosen(
            s,
            b,
            other,
            flags[k],
        )
        &&& all_propose(s, a, other, flags[k]) ==> some_propose(s, a, other, flags[k])
    } by {
        let flag = flags[k];
        lemma_proposals_ignore_order(s, a, b, other, flag);
        lemma_proposals_ignore_order(s, b, a, other, flag);
        if some_propose(s, a, other, flag) {
            lemma_choice_ignores_order(s, a, b, other, flag);
        }
        if all_propose(s, a, other, flag) {
            assert(proposal(s, a, other, flag, i));
        }
    }
    assert(flags[0] == CollisionDirection::Above);
    assert(flags[1] == CollisionDirection::Below);
    assert(flags[2] == CollisionDirection::Right);
    assert(flags[3] == CollisionDirection::Left);
}

} // verus!
