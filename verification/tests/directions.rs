// The algebra of collision directions, overlap, and the direction of a
// collision.

use akari::data::{
    Collider, ColliderType, CollisionDirection, InvalidBitPattern, Position, Velocity,
};
use akari::physics::{collision_direction, is_collision};
use std::convert::TryFrom;

const ALL: [CollisionDirection; 9] = [
    CollisionDirection::Nowhere,
    CollisionDirection::LeftAbove,
    CollisionDirection::Above,
    CollisionDirection::RightAbove,
    CollisionDirection::Right,
    CollisionDirection::RightBelow,
    CollisionDirection::Below,
    CollisionDirection::LeftBelow,
    CollisionDirection::Left,
];

fn solid(w: u32, h: u32) -> Collider {
    Collider { w, h, ty: ColliderType::Environment }
}

#[test]
fn bit_patterns_round_trip() {
    let patterns = [0b0000u8, 0b1001, 0b0001, 0b0011, 0b0010, 0b0110, 0b0100, 0b1100, 0b1000];
    for (d, p) in ALL.iter().zip(patterns.iter()) {
        assert_eq!(d.bits(), *p);
        assert_eq!(CollisionDirection::try_from(*p), Ok(*d));
    }
}

#[test]
fn other_bytes_are_invalid() {
    let mut invalid = 0;
    for value in 0..=255u8 {
        let decoded = CollisionDirection::try_from(value);
        if ALL.iter().any(|d| d.bits() == value) {
            assert!(decoded.is_ok());
        } else {
            assert_eq!(decoded, Err(InvalidBitPattern));
            invalid += 1;
        }
    }
    assert_eq!(invalid, 247);
    assert_eq!(CollisionDirection::try_from(0b0101), Err(InvalidBitPattern));
    assert_eq!(CollisionDirection::try_from(0b1010), Err(InvalidBitPattern));
    assert_eq!(CollisionDirection::try_from(0b1111), Err(InvalidBitPattern));
}

#[test]
fn and_of_two_directions_is_a_direction() {
    for a in ALL {
        for b in ALL {
            let both = a & b;
            assert_eq!(both.bits(), a.bits() & b.bits());
            assert_eq!(both, b & a);
        }
        assert_eq!(a & a, a);
        assert_eq!(a & CollisionDirection::Nowhere, CollisionDirection::Nowhere);
    }
    assert_eq!(
        CollisionDirection::LeftAbove & CollisionDirection::RightAbove,
        CollisionDirection::Above
    );
    assert_eq!(
        CollisionDirection::LeftAbove & CollisionDirection::LeftBelow,
        CollisionDirection::Left
    );
    assert_eq!(CollisionDirection::Above & CollisionDirection::Below, CollisionDirection::Nowhere);
}

#[test]
fn has_tells_the_flags() {
    assert!(CollisionDirection::LeftAbove.has(CollisionDirection::Left));
    assert!(CollisionDirection::LeftAbove.has(CollisionDirection::Above));
    assert!(!CollisionDirection::LeftAbove.has(CollisionDirection::Right));
    assert!(!CollisionDirection::Nowhere.has(CollisionDirection::Below));
    assert!(CollisionDirection::Below.has(CollisionDirection::Below));
}

#[test]
fn overlap_is_symmetric() {
    let boxes = [
        (Position { x: 0, y: 0 }, solid(10, 10)),
        (Position { x: 5, y: 5 }, solid(10, 10)),
        (Position { x: 10, y: 0 }, solid(10, 10)),
        (Position { x: -3, y: 9 }, solid(4, 2)),
        (Position { x: 2, y: 2 }, solid(0, 0)),
        (Position { x: i32::MAX, y: i32::MIN }, solid(u32::MAX, u32::MAX)),
    ];
    for (a, a_col) in boxes {
        for (b, b_col) in boxes {
            assert_eq!(is_collision(a, a_col, b, b_col), is_collision(b, b_col, a, a_col));
        }
    }
    assert!(is_collision(boxes[0].0, boxes[0].1, boxes[1].0, boxes[1].1));
    assert!(is_collision(boxes[0].0, boxes[0].1, boxes[3].0, boxes[3].1));
    assert!(is_collision(boxes[0].0, boxes[0].1, boxes[4].0, boxes[4].1));
}

#[test]
fn touching_boxes_do_not_overlap() {
    let a = Position { x: 0, y: 0 };
    let col = solid(10, 10);
    // a.right == b.left
    assert!(!is_collision(a, col, Position { x: 10, y: 0 }, col));
    assert!(!is_collision(Position { x: 10, y: 0 }, col, a, col));
    // a.upper == b.lower
    assert!(!is_collision(a, col, Position { x: 0, y: 10 }, col));
    assert!(!is_collision(Position { x: 0, y: 10 }, col, a, col));
    // one unit less and they overlap
    assert!(is_collision(a, col, Position { x: 9, y: 9 }, col));
}

#[test]
fn box_without_extent_overlaps_nothing_it_only_touches() {
    let point = solid(0, 0);
    let col = solid(10, 10);
    assert!(!is_collision(Position { x: 0, y: 5 }, point, Position { x: 0, y: 0 }, col));
    assert!(is_collision(Position { x: 1, y: 5 }, point, Position { x: 0, y: 0 }, col));
}

#[test]
fn direction_comes_from_where_the_bodies_were() {
    let s = (Position { x: 0, y: 0 }, solid(20, 20), Velocity { x: 0, y: 0 });
    let col = solid(7, 15);
    let at = |x: i32, y: i32, vx: i32, vy: i32| (Position { x, y }, col, Velocity { x: vx, y: vy });

    // falling from above, the feet on the upper border
    assert_eq!(collision_direction(s, at(5, 20, 0, -1)), CollisionDirection::Above);
    // one unit lower the body was not wholly above
    assert_eq!(collision_direction(s, at(5, 19, 0, -1)), CollisionDirection::Nowhere);
    // not moving down
    assert_eq!(collision_direction(s, at(5, 20, 0, 0)), CollisionDirection::Nowhere);
    assert_eq!(collision_direction(s, at(5, 20, 0, 1)), CollisionDirection::Nowhere);
    // rising from below, the head on the lower border
    assert_eq!(collision_direction(s, at(5, -15, 0, 1)), CollisionDirection::Below);
    assert_eq!(collision_direction(s, at(5, -14, 0, 1)), CollisionDirection::Nowhere);
    // moving right from the left
    assert_eq!(collision_direction(s, at(-7, 0, 1, 0)), CollisionDirection::Left);
    assert_eq!(collision_direction(s, at(-6, 0, 1, 0)), CollisionDirection::Nowhere);
    // moving left from the right
    assert_eq!(collision_direction(s, at(20, 0, -1, 0)), CollisionDirection::Right);
    // both axes at once
    assert_eq!(collision_direction(s, at(-7, 20, 3, -2)), CollisionDirection::LeftAbove);
    assert_eq!(collision_direction(s, at(20, 20, -3, -2)), CollisionDirection::RightAbove);
    assert_eq!(collision_direction(s, at(20, -15, -3, 2)), CollisionDirection::RightBelow);
    assert_eq!(collision_direction(s, at(-7, -15, 3, 2)), CollisionDirection::LeftBelow);
}

#[test]
fn direction_counts_the_relative_velocity() {
    let col = solid(7, 15);
    // the solid rises faster than the body: relative to it the body sinks
    let s = (Position { x: 0, y: 0 }, solid(20, 20), Velocity { x: 0, y: 10 });
    let o = (Position { x: 5, y: 20 }, col, Velocity { x: 0, y: 4 });
    assert_eq!(collision_direction(s, o), CollisionDirection::Above);
    // at the extremes the difference does not wrap around
    let s = (Position { x: 0, y: 0 }, solid(20, 20), Velocity { x: 0, y: i32::MAX });
    let o = (Position { x: 5, y: 20 }, col, Velocity { x: 0, y: i32::MIN });
    assert_eq!(collision_direction(s, o), CollisionDirection::Above);
}

#[test]
fn velocity_arithmetic_saturates() {
    let v = Velocity { x: 5, y: 7 } - Velocity { x: 1, y: 10 };
    assert_eq!(v, Velocity { x: 4, y: -3 });
    let v = Velocity { x: i32::MAX, y: i32::MIN } - Velocity { x: -1, y: 1 };
    assert_eq!(v, Velocity { x: i32::MAX, y: i32::MIN });
    assert_eq!(Velocity { x: 3_000, y: -3_000 } * 500, Velocity { x: 1_500, y: -1_500 });
    assert_eq!(Velocity { x: 1, y: -1 } * 999, Velocity { x: 0, y: 0 });
    assert_eq!(Velocity { x: 7, y: -9 } * 1000, Velocity { x: 7, y: -9 });
    assert_eq!(
        Velocity { x: i32::MAX, y: i32::MIN } * i32::MAX,
        Velocity { x: i32::MAX, y: i32::MIN }
    );
}

#[test]
fn borders_of_a_collider() {
    let col = solid(7, 15);
    let pos = Position { x: -3, y: 4 };
    assert_eq!(col.left_border(pos), -3);
    assert_eq!(col.right_border(pos), 4);
    assert_eq!(col.lower_border(pos), 4);
    assert_eq!(col.upper_border(pos), 19);
    let far = Collider { w: u32::MAX, h: u32::MAX, ty: ColliderType::Bridge };
    let corner = Position { x: i32::MAX, y: i32::MAX };
    assert_eq!(far.right_border(corner), i32::MAX as i64 + u32::MAX as i64);
    assert_eq!(far.upper_border(corner), i32::MAX as i64 + u32::MAX as i64);
}
