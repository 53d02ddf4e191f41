//! Overlap of two boxes and the direction of a collision.

use crate::data::{lemma_direction_bits, Collider, CollisionDirection, Position, Velocity};
use vstd::prelude::*;

verus! {

/// Whether the box of `a` and the box of `b` overlap. The boxes are open:
/// two boxes that only share an edge do not overlap.
pub open spec fn overlaps(a: Position, a_col: Collider, b: Position, b_col: Collider) -> bool {
    &&& a_col.left(a) < b_col.right(b)
    &&& a_col.right(a) > b_col.left(b)
    &&& a_col.lower(a) < b_col.upper(b)
    &&& a_col.upper(a) > b_col.lower(b)
}

/// Whether the box of `a` and the box of `b` overlap.
pub fn is_collision(a: Position, a_col: Collider, b: Position, b_col: Collider) -> (r: bool)
    ensures
        r == overlaps(a, a_col, b, b_col),
{
    let (a_w, a_h) = (a_col.right_border(a), a_col.upper_border(a));
    let (b_w, b_h) = (b_col.right_border(b), b_col.upper_border(b));

    (a.x as i64) < b_w && a_w > b.x as i64 && (a.y as i64) < b_h && a_h > b.y as i64
}

/// Overlap does not depend on the order of the two boxes.
pub proof fn lemma_overlap_symmetric(a: Position, a_col: Collider, b: Position, b_col: Collider)
    ensures
        overlaps(a, a_col, b, b_col) == overlaps(b, b_col, a, a_col),
{
}

/// Two boxes of which one ends where the other begins, on either axis, do
/// not overlap.
pub proof fn lemma_touching_boxes_do_not_overlap(
    a: Position,
    a_col: Collider,
    b: Position,
    b_col: Collider,
)
    requires
        a_col.right(a) == b_col.left(b) || a_col.left(a) == b_col.right(b) || a_col.upper(a)
            == b_col.lower(b) || a_col.lower(a) == b_col.upper(b),
    ensures
        !overlaps(a, a_col, b, b_col),
{
}

/// The vertical part of the direction from which `other` runs into `solid`.
/// Each body is given by where it was before the tick, its collider and its
/// velocity. `Below`: `other` rises relative to `solid` and was wholly below
/// it. `Above`: it sinks and was wholly above it.
pub open spec fn vertical_direction(
    solid: (Position, Collider, Velocity),
    other: (Position, Collider, Velocity),
) -> CollisionDirection {
    let relative = other.2.y - solid.2.y;
    if relative > 0 && other.1.upper(other.0) <= solid.1.lower(solid.0) {
        CollisionDirection::Below
    } else if relative < 0 && other.1.lower(other.0) >= solid.1.upper(solid.0) {
        CollisionDirection::Above
    } else {
        CollisionDirection::Nowhere
    }
}

/// The horizontal part of the direction from which `other` runs into
/// `solid`. `Left`: `other` moves right relative to `solid` and was wholly
/// left of it. `Right`: it moves left and was wholly right of it.
pub open spec fn horizontal_direction(
    solid: (Position, Collider, Velocity),
    other: (Position, Collider, Velocity),
) -> CollisionDirection {
    let relative = other.2.x - solid.2.x;
    if relative > 0 && other.1.right(other.0) <= solid.1.left(solid.0) {
        CollisionDirection::Left
    } else if relative < 0 && other.1.left(other.0) >= solid.1.right(solid.0) {
        CollisionDirection::Right
    } else {
        CollisionDirection::Nowhere
    }
}

/// The direction from which `other` runs into `solid`.
pub open spec fn direction_of(
    solid: (Position, Collider, Velocity),
    other: (Position, Collider, Velocity),
) -> CollisionDirection {
    CollisionDirection::compose(vertical_direction(solid, other), horizontal_direction(solid, other))
}

/// The direction from which `other` runs into `solid`: the union of the
/// flags of its vertical and of its horizontal part.
pub fn collision_direction(
    solid: (Position, Collider, Velocity),
    other: (Position, Collider, Velocity),
) -> (r: CollisionDirection)
    ensures
        r == direction_of(solid, other),
        r.mask() == vertical_direction(solid, other).mask() | horizontal_direction(
            solid,
            other,
        ).mask(),
{
    let (solid_prev_pos, solid_col, solid_vel) = solid;
    let (other_prev_pos, other_col, other_vel) = other;
    let relative_vel = other_vel - solid_vel;
    let vertical = if relative_vel.y > 0 && other_col.upper_border(other_prev_pos)
        <= solid_col.lower_border(solid_prev_pos) {
        CollisionDirection::Below
    } else if relative_vel.y < 0 && other_col.lower_border(other_prev_pos)
        >= solid_col.upper_border(solid_prev_pos) {
        CollisionDirection::Above
    } else {
        CollisionDirection::Nowhere
    };

    let horizontal = if relative_vel.x > 0 && other_col.right_border(other_prev_pos)
        <= solid_col.left_border(solid_prev_pos) {
        CollisionDirection::Left
    } else if relative_vel.x < 0 && other_col.left_border(other_prev_pos)
        >= solid_col.right_border(solid_prev_pos) {
        CollisionDirection::Right
    } else {
        CollisionDirection::Nowhere
    };

    proof {
        lemma_direction_bits(vertical, horizontal);
        lemma_direction_bits(direction_of(solid, other), direction_of(solid, other));
    }
    match CollisionDirection::try_from(vertical.bits() | horizontal.bits()) {
        Ok(d) => d,
        Err(_) => {
            proof {
                assert(false);
            }
            CollisionDirection::Nowhere
        },
    }
}

} // verus!
