//! The components of the world and the transient records of one tick.

use crate::ecs::{Entity, Storage};
use crate::units::{clamp_i32, saturate, UNIT};
use vstd::prelude::*;
use vstd::std_specs::convert::{FromSpecImpl, TryFromSpecImpl};
use vstd::std_specs::ops::{BitAndSpecImpl, MulSpecImpl, SubSpecImpl};

verus! {

/// The anchor of an axis-aligned box: its lower left corner, in world units.
/// `y` grows upward.
#[derive(Debug, Default, Clone, Copy, PartialEq, Eq, Structural)]
pub struct Position {
    pub x: i32,
    pub y: i32,
}

/// A rate of change of a [`Position`], in world units per second.
#[derive(Debug, Default, Clone, Copy, PartialEq, Eq, Structural)]
pub struct Velocity {
    pub x: i32,
    pub y: i32,
}

impl Velocity {
    /// The velocity at rest.
    pub open spec fn zero() -> Velocity {
        Velocity { x: 0, y: 0 }
    }

    /// `self` scaled by the fixed-point factor `factor`, each axis rounded
    /// toward zero and saturated.
    pub open spec fn scaled(self, factor: i32) -> Velocity {
        Velocity {
            x: clamp_i32(crate::units::div_toward_zero(self.x * factor, UNIT as int)) as i32,
            y: clamp_i32(crate::units::div_toward_zero(self.y * factor, UNIT as int)) as i32,
        }
    }

    /// `self` relative to `other`: the difference by axis, saturated.
    pub open spec fn minus(self, other: Velocity) -> Velocity {
        Velocity {
            x: clamp_i32(self.x - other.x) as i32,
            y: clamp_i32(self.y - other.y) as i32,
        }
    }
}

impl core::ops::Mul<i32> for Velocity {
    type Output = Velocity;

    /// Scales by a fixed-point factor: `UNIT` leaves the velocity as it is.
    fn mul(self, rhs: i32) -> (r: Velocity) {
        let x: i64 = crate::units::div_i64(crate::units::mul_i32(self.x, rhs), UNIT as u32);
        let y: i64 = crate::units::div_i64(crate::units::mul_i32(self.y, rhs), UNIT as u32);
        Velocity { x: saturate(x), y: saturate(y) }
    }
}

impl MulSpecImpl<i32> for Velocity {
    open spec fn obeys_mul_spec() -> bool {
        true
    }

    open spec fn mul_req(self, rhs: i32) -> bool {
        true
    }

    open spec fn mul_spec(self, rhs: i32) -> Velocity {
        self.scaled(rhs)
    }
}

impl core::ops::Sub for Velocity {
    type Output = Velocity;

    fn sub(self, other: Velocity) -> (r: Velocity) {
        Velocity {
            x: saturate(self.x as i64 - other.x as i64),
            y: saturate(self.y as i64 - other.y as i64),
        }
    }
}

impl SubSpecImpl for Velocity {
    open spec fn obeys_sub_spec() -> bool {
        true
    }

    open spec fn sub_req(self, other: Velocity) -> bool {
        true
    }

    open spec fn sub_spec(self, other: Velocity) -> Velocity {
        self.minus(other)
    }
}

/// The layer an entity is drawn in.
#[derive(Debug, Clone, Copy, PartialEq, Eq, Structural)]
pub enum Depth {
    Background,
    Bridges,
    Grass,
    Player,
    Tiles,
    EditorSelection,
    Particles,
}

impl Depth {
    /// The distance of the layer from the viewer's far plane, in thousandths.
    pub open spec fn thousandths(self) -> i32 {
        match self {
            Depth::Background => 300,
            Depth::Grass => 500,
            Depth::Tiles => 500,
            Depth::Player => 600,
            Depth::Bridges => 700,
            Depth::EditorSelection => 800,
            Depth::Particles => 900,
        }
    }
}

impl From<Depth> for i32 {
    fn from(depth: Depth) -> (r: i32) {
        match depth {
            Depth::Background => 300,
            Depth::Grass => 500,
            Depth::Tiles => 500,
            Depth::Player => 600,
            Depth::Bridges => 700,
            Depth::EditorSelection => 800,
            Depth::Particles => 900,
        }
    }
}

impl FromSpecImpl<Depth> for i32 {
    open spec fn obeys_from_spec() -> bool {
        true
    }

    open spec fn from_spec(depth: Depth) -> i32 {
        depth.thousandths()
    }
}

/// The state of the player's locomotion.
#[derive(Debug, Clone, Copy, PartialEq, Eq, Structural)]
pub enum PlayerState {
    Grounded,
    Airborne,
    Dying,
    Dead,
}

/// A handle of an animation that the host has registered.
#[derive(Debug, Clone, Copy, PartialEq, Eq, Structural)]
pub struct AnimationHandle(pub usize);

/// The animation an entity shows and the frame it has reached.
#[derive(Debug, Clone, Copy, PartialEq, Eq, Structural)]
pub struct AnimationState {
    pub current: AnimationHandle,
    pub frame: usize,
}

impl AnimationState {
    /// The state at the first frame of `handle`.
    pub open spec fn started(handle: AnimationHandle) -> AnimationState {
        AnimationState { current: handle, frame: 0 }
    }

    /// Starts the animation `handle`.
    pub fn start(handle: AnimationHandle) -> (s: AnimationState)
        ensures
            s == AnimationState::started(handle),
    {
        AnimationState { current: handle, frame: 0 }
    }
}

/// The animations of the player.
#[derive(Debug, Clone, Copy, PartialEq, Eq, Structural)]
pub struct PlayerAnimations {
    pub idle: AnimationHandle,
    pub running: AnimationHandle,
    pub run_into_obstacle: AnimationHandle,
    /// Runs once after a jump, then turns into `start_falling`.
    pub jumping: AnimationHandle,
    /// Runs once during a jump or fall, then turns into `falling`.
    pub start_falling: AnimationHandle,
    pub falling: AnimationHandle,
}

/// What a collider stands for. The kinds of two overlapping colliders decide
/// how the overlap is recorded.
#[derive(Debug, Clone, Copy, PartialEq, Eq, Structural)]
pub enum ColliderType {
    Environment,
    Player,
    Bridge,
    PlayerDamage,
    Camera,
    CameraRestriction,
}

impl ColliderType {
    /// Whether standing on, or running into, a collider of this kind counts
    /// as touching the ground or a wall.
    pub open spec fn is_terrain(self) -> bool {
        self == ColliderType::Environment || self == ColliderType::Bridge
    }
}

/// An axis-aligned box of width `w` and height `h`, anchored at the position
/// of its entity.
#[derive(Debug, Clone, Copy, PartialEq, Eq, Structural)]
pub struct Collider {
    pub w: u32,
    pub h: u32,
    pub ty: ColliderType,
}

impl Collider {
    pub open spec fn left(self, pos: Position) -> int {
        pos.x as int
    }

    pub open spec fn right(self, pos: Position) -> int {
        pos.x + self.w
    }

    pub open spec fn lower(self, pos: Position) -> int {
        pos.y as int
    }

    pub open spec fn upper(self, pos: Position) -> int {
        pos.y + self.h
    }

    #[inline]
    pub fn left_border(&self, pos: Position) -> (b: i64)
        ensures
            b == self.left(pos),
    {
        pos.x as i64
    }

    #[inline]
    pub fn right_border(&self, pos: Position) -> (b: i64)
        ensures
            b == self.right(pos),
    {
        pos.x as i64 + self.w as i64
    }

    #[inline]
    pub fn lower_border(&self, pos: Position) -> (b: i64)
        ensures
            b == self.lower(pos),
    {
        pos.y as i64
    }

    #[inline]
    pub fn upper_border(&self, pos: Position) -> (b: i64)
        ensures
            b == self.upper(pos),
    {
        pos.y as i64 + self.h as i64
    }
}

/// An overlap of two colliders. Which entity stands first depends on the
/// list that holds the pair (see [`Collisions`]).
#[derive(Debug, Clone, Copy, PartialEq, Eq, Structural)]
pub struct Collision(pub Entity, pub Entity);

/// The overlaps that one tick has found.
#[derive(Debug)]
pub struct Collisions {
    /// Pairs of a solid and the entity that ran into it, in this order.
    pub fixed: Vec<Collision>,
    /// Pairs of a bridge and the entity that overlaps it, not yet filtered.
    pub bridge: Vec<Collision>,
    /// Pairs of a player and what damages it.
    pub player_damage: Vec<Collision>,
}

impl Collisions {
    /// No overlap at all.
    pub fn new() -> (c: Collisions)
        ensures
            c.fixed@.len() == 0,
            c.bridge@.len() == 0,
            c.player_damage@.len() == 0,
    {
        Collisions { fixed: Vec::new(), bridge: Vec::new(), player_damage: Vec::new() }
    }

    /// Forgets every overlap.
    pub fn clear(&mut self)
        ensures
            final(self).fixed@.len() == 0,
            final(self).bridge@.len() == 0,
            final(self).player_damage@.len() == 0,
    {
        self.fixed.clear();
        self.bridge.clear();
        self.player_damage.clear();
    }
}

/// From where an entity has run into a solid: `Above` says that it came down
/// onto the solid's upper border. Each value is a set of the four flags
/// `Above` (`0b0001`), `Right` (`0b0010`), `Below` (`0b0100`) and `Left`
/// (`0b1000`) with at most one vertical and at most one horizontal flag.
#[derive(Debug, Clone, Copy, PartialEq, Eq, Structural)]
pub enum CollisionDirection {
    Nowhere,
    LeftAbove,
    Above,
    RightAbove,
    Right,
    RightBelow,
    Below,
    LeftBelow,
    Left,
}

/// A byte that is not the bit pattern of a [`CollisionDirection`].
#[derive(Debug, Copy, Clone, PartialEq, Eq, Structural)]
pub struct InvalidBitPattern;

impl CollisionDirection {
    /// The bit pattern of the direction.
    pub open spec fn mask(self) -> u8 {
        match self {
            CollisionDirection::Nowhere => 0b0000,
            CollisionDirection::LeftAbove => 0b1001,
            CollisionDirection::Above => 0b0001,
            CollisionDirection::RightAbove => 0b0011,
            CollisionDirection::Right => 0b0010,
            CollisionDirection::RightBelow => 0b0110,
            CollisionDirection::Below => 0b0100,
            CollisionDirection::LeftBelow => 0b1100,
            CollisionDirection::Left => 0b1000,
        }
    }

    /// The direction with the bit pattern `value`, if there is one.
    pub open spec fn decode(value: u8) -> Option<CollisionDirection> {
        if value == 0b0000 {
            Some(CollisionDirection::Nowhere)
        } else if value == 0b1001 {
            Some(CollisionDirection::LeftAbove)
        } else if value == 0b0001 {
            Some(CollisionDirection::Above)
        } else if value == 0b0011 {
            Some(CollisionDirection::RightAbove)
        } else if value == 0b0010 {
            Some(CollisionDirection::Right)
        } else if value == 0b0110 {
            Some(CollisionDirection::RightBelow)
        } else if value == 0b0100 {
            Some(CollisionDirection::Below)
        } else if value == 0b1100 {
            Some(CollisionDirection::LeftBelow)
        } else if value == 0b1000 {
            Some(CollisionDirection::Left)
        } else {
            None
        }
    }

    /// The vertical part of the direction: `Above`, `Below` or `None`.
    pub open spec fn vertical(self) -> CollisionDirection {
        match self {
            CollisionDirection::LeftAbove
            | CollisionDirection::Above
            | CollisionDirection::RightAbove => CollisionDirection::Above,
            CollisionDirection::LeftBelow
            | CollisionDirection::Below
            | CollisionDirection::RightBelow => CollisionDirection::Below,
            _ => CollisionDirection::Nowhere,
        }
    }

    /// The horizontal part of the direction: `Left`, `Right` or `None`.
    pub open spec fn horizontal(self) -> CollisionDirection {
        match self {
            CollisionDirection::LeftAbove
            | CollisionDirection::Left
            | CollisionDirection::LeftBelow => CollisionDirection::Left,
            CollisionDirection::RightAbove
            | CollisionDirection::Right
            | CollisionDirection::RightBelow => CollisionDirection::Right,
            _ => CollisionDirection::Nowhere,
        }
    }

    /// The direction made of a vertical and a horizontal part.
    pub open spec fn compose(vertical: CollisionDirection, horizontal: CollisionDirection)
        -> CollisionDirection
        recommends
            vertical.horizontal() == CollisionDirection::Nowhere,
            horizontal.vertical() == CollisionDirection::Nowhere,
    {
        match (vertical.vertical(), horizontal.horizontal()) {
            (CollisionDirection::Above, CollisionDirection::Left) => CollisionDirection::LeftAbove,
            (CollisionDirection::Above, CollisionDirection::Right) => CollisionDirection::RightAbove,
            (CollisionDirection::Above, _) => CollisionDirection::Above,
            (CollisionDirection::Below, CollisionDirection::Left) => CollisionDirection::LeftBelow,
            (CollisionDirection::Below, CollisionDirection::Right) => CollisionDirection::RightBelow,
            (CollisionDirection::Below, _) => CollisionDirection::Below,
            (_, CollisionDirection::Left) => CollisionDirection::Left,
            (_, CollisionDirection::Right) => CollisionDirection::Right,
            (_, _) => CollisionDirection::Nowhere,
        }
    }

    /// The directions that `self` and `other` share.
    pub open spec fn meet(self, other: CollisionDirection) -> CollisionDirection {
        CollisionDirection::compose(
            if self.vertical() == other.vertical() {
                self.vertical()
            } else {
                CollisionDirection::Nowhere
            },
            if self.horizontal() == other.horizontal() {
                self.horizontal()
            } else {
                CollisionDirection::Nowhere
            },
        )
    }

    /// Whether the direction holds the flag `flag`, one of `Above`, `Below`,
    /// `Left` and `Right`.
    pub open spec fn holds(self, flag: CollisionDirection) -> bool {
        match flag {
            CollisionDirection::Above | CollisionDirection::Below => self.vertical() == flag,
            CollisionDirection::Left | CollisionDirection::Right => self.horizontal() == flag,
            _ => false,
        }
    }

    /// Whether `self` is one of the four flags `Above`, `Below`, `Left` and
    /// `Right`.
    pub open spec fn is_flag(self) -> bool {
        self == CollisionDirection::Above || self == CollisionDirection::Below || self
            == CollisionDirection::Left || self == CollisionDirection::Right
    }

    /// The bit pattern of the direction.
    pub fn bits(self) -> (b: u8)
        ensures
            b == self.mask(),
    {
        match self {
            CollisionDirection::Nowhere => 0b0000,
            CollisionDirection::LeftAbove => 0b1001,
            CollisionDirection::Above => 0b0001,
            CollisionDirection::RightAbove => 0b0011,
            CollisionDirection::Right => 0b0010,
            CollisionDirection::RightBelow => 0b0110,
            CollisionDirection::Below => 0b0100,
            CollisionDirection::LeftBelow => 0b1100,
            CollisionDirection::Left => 0b1000,
        }
    }
}

impl TryFrom<u8> for CollisionDirection {
    type Error = InvalidBitPattern;

    fn try_from(value: u8) -> (r: Result<Self, Self::Error>) {
        if value == 0b0000 {
            Ok(CollisionDirection::Nowhere)
        } else if value == 0b1001 {
            Ok(CollisionDirection::LeftAbove)
        } else if value == 0b0001 {
            Ok(CollisionDirection::Above)
        } else if value == 0b0011 {
            Ok(CollisionDirection::RightAbove)
        } else if value == 0b0010 {
            Ok(CollisionDirection::Right)
        } else if value == 0b0110 {
            Ok(CollisionDirection::RightBelow)
        } else if value == 0b0100 {
            Ok(CollisionDirection::Below)
        } else if value == 0b1100 {
            Ok(CollisionDirection::LeftBelow)
        } else if value == 0b1000 {
            Ok(CollisionDirection::Left)
        } else {
            Err(InvalidBitPattern)
        }
    }
}

impl TryFromSpecImpl<u8> for CollisionDirection {
    open spec fn obeys_try_from_spec() -> bool {
        true
    }

    open spec fn try_from_spec(value: u8) -> Result<Self, Self::Error> {
        match CollisionDirection::decode(value) {
            Some(d) => Ok(d),
            None => Err(InvalidBitPattern),
        }
    }
}

/// The bitwise AND of the patterns of two directions is the pattern of the
/// directions they share, and the bitwise OR of a vertical and a horizontal
/// part is the pattern of the direction composed of them.
pub proof fn lemma_direction_bits(a: CollisionDirection, b: CollisionDirection)
    ensures
        CollisionDirection::decode(a.mask()) == Some(a),
        CollisionDirection::decode(a.mask() & b.mask()) == Some(a.meet(b)),
        a.meet(b).mask() == a.mask() & b.mask(),
        a.horizontal() == CollisionDirection::Nowhere && b.vertical() == CollisionDirection::Nowhere
            ==> CollisionDirection::decode(a.mask() | b.mask()) == Some(
            CollisionDirection::compose(a, b),
        ),
{
    let x = a.mask();
    let y = b.mask();
    assert(x < 16 && y < 16);
    assert(x < 16 && y < 16 ==> (x & y) == (x & 1) * (y & 1) + (x & 2) * ((y & 2) / 2) + (x & 4) * (
    (y & 4) / 4) + (x & 8) * ((y & 8) / 8)) by (bit_vector);
    assert((x & 1) == (if x == 1 || x == 3 || x == 9 { 1u8 } else { 0u8 })) by (bit_vector)
        requires
            x == 0 || x == 9 || x == 1 || x == 3 || x == 2 || x == 6 || x == 4 || x == 12 || x == 8,
    ;
    assert((y & 1) == (if y == 1 || y == 3 || y == 9 { 1u8 } else { 0u8 })) by (bit_vector)
        requires
            y == 0 || y == 9 || y == 1 || y == 3 || y == 2 || y == 6 || y == 4 || y == 12 || y == 8,
    ;
    assert((x & 2) == (if x == 2 || x == 3 || x == 6 { 2u8 } else { 0u8 })) by (bit_vector)
        requires
            x == 0 || x == 9 || x == 1 || x == 3 || x == 2 || x == 6 || x == 4 || x == 12 || x == 8,
    ;
    assert((y & 2) == (if y == 2 || y == 3 || y == 6 { 2u8 } else { 0u8 })) by (bit_vector)
        requires
            y == 0 || y == 9 || y == 1 || y == 3 || y == 2 || y == 6 || y == 4 || y == 12 || y == 8,
    ;
    assert((x & 4) == (if x == 4 || x == 6 || x == 12 { 4u8 } else { 0u8 })) by (bit_vector)
        requires
            x == 0 || x == 9 || x == 1 || x == 3 || x == 2 || x == 6 || x == 4 || x == 12 || x == 8,
    ;
    assert((y & 4) == (if y == 4 || y == 6 || y == 12 { 4u8 } else { 0u8 })) by (bit_vector)
        requires
            y == 0 || y == 9 || y == 1 || y == 3 || y == 2 || y == 6 || y == 4 || y == 12 || y == 8,
    ;
    assert((x & 8) == (if x == 8 || x == 9 || x == 12 { 8u8 } else { 0u8 })) by (bit_vector)
        requires
            x == 0 || x == 9 || x == 1 || x == 3 || x == 2 || x == 6 || x == 4 || x == 12 || x == 8,
    ;
    assert((y & 8) == (if y == 8 || y == 9 || y == 12 { 8u8 } else { 0u8 })) by (bit_vector)
        requires
            y == 0 || y == 9 || y == 1 || y == 3 || y == 2 || y == 6 || y == 4 || y == 12 || y == 8,
    ;
    assert(x < 16 && y < 16 && (x & y) == 0 ==> (x | y) == x + y) by (bit_vector);
    assert(x < 16 && y < 16 ==> (x & y) < 16) by (bit_vector);
}

impl core::ops::BitAnd for CollisionDirection {
    type Output = Self;

    /// The directions that both operands hold.
    fn bitand(self, rhs: Self) -> (r: Self) {
        proof {
            lemma_direction_bits(self, rhs);
        }
        match Self::try_from(self.bits() & rhs.bits()) {
            Ok(d) => d,
            Err(_) => {
                proof {
                    assert(false);
                }
                CollisionDirection::Nowhere
            },
        }
    }
}

impl BitAndSpecImpl for CollisionDirection {
    open spec fn obeys_bitand_spec() -> bool {
        true
    }

    open spec fn bitand_req(self, rhs: Self) -> bool {
        true
    }

    open spec fn bitand_spec(self, rhs: Self) -> Self {
        self.meet(rhs)
    }
}

impl CollisionDirection {
    /// Whether the direction holds the flag `flag`.
    pub fn has(self, flag: CollisionDirection) -> (r: bool)
        requires
            flag.is_flag(),
        ensures
            r == self.holds(flag),
    {
        (self & flag) != CollisionDirection::Nowhere
    }
}

/// The algebra of directions is closed: the bitwise AND of the patterns of
/// any two directions decodes to a direction, and a direction combined with
/// itself is that direction.
pub proof fn lemma_direction_algebra_closed(a: CollisionDirection, b: CollisionDirection)
    ensures
        CollisionDirection::decode(a.mask() & b.mask()) is Some,
        CollisionDirection::decode(a.mask() & b.mask()) == Some(a.meet(b)),
        a.meet(a) == a,
        a.meet(b) == b.meet(a),
{
    lemma_direction_bits(a, b);
}

/// Taking the components of one more entity away.
pub proof fn lemma_without_one_more(
    after: &Components,
    middle: &Components,
    before: &Components,
    gone: Set<Entity>,
    e: Entity,
)
    requires
        middle.is_without_all(before, gone),
        after.is_without(middle, e),
    ensures
        after.is_without_all(before, gone.insert(e)),
{
    assert(after.positions@ =~= before.positions@.remove_keys(gone.insert(e)));
    assert(after.sprites@ =~= before.sprites@.remove_keys(gone.insert(e)));
    assert(after.animations@ =~= before.animations@.remove_keys(gone.insert(e)));
    assert(after.previous_positions@ =~= before.previous_positions@.remove_keys(gone.insert(e)));
    assert(after.velocities@ =~= before.velocities@.remove_keys(gone.insert(e)));
    assert(after.colliders@ =~= before.colliders@.remove_keys(gone.insert(e)));
    assert(after.grounded@ =~= before.grounded@.remove_keys(gone.insert(e)));
    assert(after.wall_collisions@ =~= before.wall_collisions@.remove_keys(gone.insert(e)));
    assert(after.gravity@ =~= before.gravity@.remove_keys(gone.insert(e)));
    assert(after.ignore_bridges@ =~= before.ignore_bridges@.remove_keys(gone.insert(e)));
    assert(after.player_state@ =~= before.player_state@.remove_keys(gone.insert(e)));
    assert(after.player_animations@ =~= before.player_animations@.remove_keys(gone.insert(e)));
    assert(after.depths@ =~= before.depths@.remove_keys(gone.insert(e)));
    assert(after.mirrored@ =~= before.mirrored@.remove_keys(gone.insert(e)));
    assert(after.cameras@ =~= before.cameras@.remove_keys(gone.insert(e)));
}

/// Taking the components of no entity away changes nothing.
pub proof fn lemma_without_nobody(c: &Components)
    ensures
        c.is_without_all(c, Set::empty()),
{
    assert(c.positions@ =~= c.positions@.remove_keys(Set::empty()));
    assert(c.sprites@ =~= c.sprites@.remove_keys(Set::empty()));
    assert(c.animations@ =~= c.animations@.remove_keys(Set::empty()));
    assert(c.previous_positions@ =~= c.previous_positions@.remove_keys(Set::empty()));
    assert(c.velocities@ =~= c.velocities@.remove_keys(Set::empty()));
    assert(c.colliders@ =~= c.colliders@.remove_keys(Set::empty()));
    assert(c.grounded@ =~= c.grounded@.remove_keys(Set::empty()));
    assert(c.wall_collisions@ =~= c.wall_collisions@.remove_keys(Set::empty()));
    assert(c.gravity@ =~= c.gravity@.remove_keys(Set::empty()));
    assert(c.ignore_bridges@ =~= c.ignore_bridges@.remove_keys(Set::empty()));
    assert(c.player_state@ =~= c.player_state@.remove_keys(Set::empty()));
    assert(c.player_animations@ =~= c.player_animations@.remove_keys(Set::empty()));
    assert(c.depths@ =~= c.depths@.remove_keys(Set::empty()));
    assert(c.mirrored@ =~= c.mirrored@.remove_keys(Set::empty()));
    assert(c.cameras@ =~= c.cameras@.remove_keys(Set::empty()));
}

/// Tag of an entity that rests on a solid surface in this tick.
#[derive(Debug, Clone, Copy, PartialEq, Eq, Structural)]
pub struct Grounded;

/// Tag of an entity that gravity pulls.
#[derive(Debug, Clone, Copy, PartialEq, Eq, Structural)]
pub struct Gravity;

/// Tag of an entity that drops through bridges.
#[derive(Debug, Clone, Copy, PartialEq, Eq, Structural)]
pub struct IgnoreBridges;

/// Tag of an entity whose sprite is drawn flipped horizontally.
#[derive(Debug, Clone, Copy, PartialEq, Eq, Structural)]
pub struct Mirrored;

/// Tag of the entity that the view follows.
#[derive(Debug, Clone, Copy, PartialEq, Eq, Structural)]
pub struct Camera;

/// The side on which an entity touched a wall in this tick.
#[derive(Debug, PartialEq, Eq, Clone, Copy, Structural)]
pub enum WallCollision {
    Right,
    Left,
}

/// The number of a sprite in the sheet of the chunk that an entity belongs to.
#[derive(Debug, Clone, Copy, PartialEq, Eq, Structural)]
pub struct SpriteNumber(pub usize);

/// Every component of every entity.
pub struct Components {
    /// The number of identifiers handed out so far.
    pub count: usize,
    /// Identifiers of deleted entities, to be handed out again.
    pub deleted: Vec<Entity>,
    pub positions: Storage<Position>,
    pub sprites: Storage<SpriteNumber>,
    pub animations: Storage<AnimationState>,
    pub previous_positions: Storage<Position>,
    pub velocities: Storage<Velocity>,
    pub colliders: Storage<Collider>,
    pub grounded: Storage<Grounded>,
    pub wall_collisions: Storage<WallCollision>,
    pub gravity: Storage<Gravity>,
    pub ignore_bridges: Storage<IgnoreBridges>,
    pub player_state: Storage<PlayerState>,
    pub player_animations: Storage<PlayerAnimations>,
    pub depths: Storage<Depth>,
    pub mirrored: Storage<Mirrored>,
    pub cameras: Storage<Camera>,
}

impl Default for Components {
    fn default() -> (c: Components)
        ensures
            c.count == 0,
            c.deleted@.len() == 0,
            forall|e: Entity| c.lacks(e),
    {
        Components::new()
    }
}

impl Components {
    /// Whether no storage holds a component of `e`.
    pub open spec fn lacks(&self, e: Entity) -> bool {
        &&& !self.positions@.contains_key(e)
        &&& !self.sprites@.contains_key(e)
        &&& !self.animations@.contains_key(e)
        &&& !self.previous_positions@.contains_key(e)
        &&& !self.velocities@.contains_key(e)
        &&& !self.colliders@.contains_key(e)
        &&& !self.grounded@.contains_key(e)
        &&& !self.wall_collisions@.contains_key(e)
        &&& !self.gravity@.contains_key(e)
        &&& !self.ignore_bridges@.contains_key(e)
        &&& !self.player_state@.contains_key(e)
        &&& !self.player_animations@.contains_key(e)
        &&& !self.depths@.contains_key(e)
        &&& !self.mirrored@.contains_key(e)
        &&& !self.cameras@.contains_key(e)
    }

    /// Whether `self` is `before` with every component of `e` taken away.
    pub open spec fn is_without(&self, before: &Components, e: Entity) -> bool {
        &&& self.positions@ == before.positions@.remove(e)
        &&& self.sprites@ == before.sprites@.remove(e)
        &&& self.animations@ == before.animations@.remove(e)
        &&& self.previous_positions@ == before.previous_positions@.remove(e)
        &&& self.velocities@ == before.velocities@.remove(e)
        &&& self.colliders@ == before.colliders@.remove(e)
        &&& self.grounded@ == before.grounded@.remove(e)
        &&& self.wall_collisions@ == before.wall_collisions@.remove(e)
        &&& self.gravity@ == before.gravity@.remove(e)
        &&& self.ignore_bridges@ == before.ignore_bridges@.remove(e)
        &&& self.player_state@ == before.player_state@.remove(e)
        &&& self.player_animations@ == before.player_animations@.remove(e)
        &&& self.depths@ == before.depths@.remove(e)
        &&& self.mirrored@ == before.mirrored@.remove(e)
        &&& self.cameras@ == before.cameras@.remove(e)
    }

    /// Whether `self` is `before` with every component of the entities
    /// `gone` taken away.
    pub open spec fn is_without_all(&self, before: &Components, gone: Set<Entity>) -> bool {
        &&& self.positions@ == before.positions@.remove_keys(gone)
        &&& self.sprites@ == before.sprites@.remove_keys(gone)
        &&& self.animations@ == before.animations@.remove_keys(gone)
        &&& self.previous_positions@ == before.previous_positions@.remove_keys(gone)
        &&& self.velocities@ == before.velocities@.remove_keys(gone)
        &&& self.colliders@ == before.colliders@.remove_keys(gone)
        &&& self.grounded@ == before.grounded@.remove_keys(gone)
        &&& self.wall_collisions@ == before.wall_collisions@.remove_keys(gone)
        &&& self.gravity@ == before.gravity@.remove_keys(gone)
        &&& self.ignore_bridges@ == before.ignore_bridges@.remove_keys(gone)
        &&& self.player_state@ == before.player_state@.remove_keys(gone)
        &&& self.player_animations@ == before.player_animations@.remove_keys(gone)
        &&& self.depths@ == before.depths@.remove_keys(gone)
        &&& self.mirrored@ == before.mirrored@.remove_keys(gone)
        &&& self.cameras@ == before.cameras@.remove_keys(gone)
    }

    /// Whether `self` holds the same components as `before`.
    pub open spec fn same_components(&self, before: &Components) -> bool {
        &&& self.positions@ == before.positions@
        &&& self.sprites@ == before.sprites@
        &&& self.animations@ == before.animations@
        &&& self.previous_positions@ == before.previous_positions@
        &&& self.velocities@ == before.velocities@
        &&& self.colliders@ == before.colliders@
        &&& self.grounded@ == before.grounded@
        &&& self.wall_collisions@ == before.wall_collisions@
        &&& self.gravity@ == before.gravity@
        &&& self.ignore_bridges@ == before.ignore_bridges@
        &&& self.player_state@ == before.player_state@
        &&& self.player_animations@ == before.player_animations@
        &&& self.depths@ == before.depths@
        &&& self.mirrored@ == before.mirrored@
        &&& self.cameras@ == before.cameras@
    }

    /// A world without entities.
    pub fn new() -> (c: Components)
        ensures
            c.count == 0,
            c.deleted@.len() == 0,
            forall|e: Entity| c.lacks(e),
    {
        Components {
            count: 0,
            deleted: Vec::new(),
            positions: Storage::new(),
            sprites: Storage::new(),
            animations: Storage::new(),
            previous_positions: Storage::new(),
            velocities: Storage::new(),
            colliders: Storage::new(),
            grounded: Storage::new(),
            wall_collisions: Storage::new(),
            gravity: Storage::new(),
            ignore_bridges: Storage::new(),
            player_state: Storage::new(),
            player_animations: Storage::new(),
            depths: Storage::new(),
            mirrored: Storage::new(),
            cameras: Storage::new(),
        }
    }

    /// Hands out an identifier: the one deleted last, if one is left, else a
    /// new one.
    pub fn new_entity(&mut self) -> (e: Entity)
        requires
            old(self).deleted@.len() > 0 || old(self).count < usize::MAX,
        ensures
            final(self).same_components(old(self)),
            old(self).deleted@.len() > 0 ==> e == old(self).deleted@.last() && final(self).deleted@
                == old(self).deleted@.drop_last() && final(self).count == old(self).count,
            old(self).deleted@.len() == 0 ==> e == Entity(old(self).count) && final(self).deleted@
                == old(self).deleted@ && final(self).count == old(self).count + 1,
    {
        match self.deleted.pop() {
            Some(e) => e,
            None => {
                let e = Entity(self.count);
                self.count += 1;
                e
            },
        }
    }

    /// Deletes `e`: takes every component of it away and keeps its identifier
    /// to hand it out again.
    pub fn delete_entity(&mut self, e: Entity)
        ensures
            final(self).lacks(e),
            final(self).is_without(old(self), e),
            final(self).deleted@ == old(self).deleted@.push(e),
            final(self).count == old(self).count,
    {
        self.deleted.push(e);
        self.positions.remove(e);
        self.sprites.remove(e);
        self.animations.remove(e);
        self.previous_positions.remove(e);
        self.velocities.remove(e);
        self.colliders.remove(e);
        self.grounded.remove(e);
        self.wall_collisions.remove(e);
        self.gravity.remove(e);
        self.ignore_bridges.remove(e);
        self.player_state.remove(e);
        self.player_animations.remove(e);
        self.depths.remove(e);
        self.mirrored.remove(e);
        self.cameras.remove(e);
    }
}

} // verus!
