//! Integration of motion and detection of overlaps.
//!
//! Every entity that has a velocity other than zero moves, and where it was
//! is kept. Then the boxes of the moved entities are tested against each
//! other and against those of the entities that did not move, and each
//! overlap is recorded by the kinds of the two colliders.

use crate::data::{
    Collider, ColliderType, Collision, Collisions, Grounded, Position, Velocity,
};
use crate::ecs::{Entity, Storage};
use crate::physics::{is_collision, overlaps};
use crate::scene::{scene, Scene};
use crate::systems::fixed_collision::all_have_bodies;
use crate::time::Time;
use crate::units::{clamp_i32, per_tick, per_tick_spec, saturate};
use vstd::prelude::*;

verus! {

/// The list that an overlap is recorded in.
#[derive(Debug, Clone, Copy, PartialEq, Eq, Structural)]
pub enum Kind {
    Fixed,
    Bridge,
    PlayerDamage,
}

/// What an overlap of `a` and `b`, in either order, adds to the list `kind`.
///
/// A player and the environment: the pair of the environment and the player,
/// to `Fixed`. A player and a bridge: the pair of the bridge and the player,
/// to `Bridge`. A player and what damages it: the pair of the player and
/// that, to `PlayerDamage`. Any other two kinds: nothing.
pub open spec fn recorded(kind: Kind, a: (Entity, ColliderType), b: (Entity, ColliderType)) -> Seq<
    Collision,
> {
    match (kind, a.1, b.1) {
        (Kind::Fixed, ColliderType::Environment, ColliderType::Player) => seq![Collision(a.0, b.0)],
        (Kind::Fixed, ColliderType::Player, ColliderType::Environment) => seq![Collision(b.0, a.0)],
        (Kind::Bridge, ColliderType::Bridge, ColliderType::Player) => seq![Collision(a.0, b.0)],
        (Kind::Bridge, ColliderType::Player, ColliderType::Bridge) => seq![Collision(b.0, a.0)],
        (Kind::PlayerDamage, ColliderType::Player, ColliderType::PlayerDamage) => seq![
            Collision(a.0, b.0),
        ],
        (Kind::PlayerDamage, ColliderType::PlayerDamage, ColliderType::Player) => seq![
            Collision(b.0, a.0),
        ],
        _ => Seq::empty(),
    }
}

/// Whether `e` moves in a tick: it has a position and a velocity other than
/// zero.
pub open spec fn moves(
    positions: Map<Entity, Position>,
    velocities: Map<Entity, Velocity>,
    e: Entity,
) -> bool {
    positions.contains_key(e) && velocities.contains_key(e) && (velocities[e].x != 0
        || velocities[e].y != 0)
}

/// Where an entity at `position` with the velocity `velocity` is one tick
/// later.
pub open spec fn advanced(position: Position, velocity: Velocity, fps: u32) -> Position {
    Position {
        x: clamp_i32(position.x + per_tick_spec(velocity.x as int, fps as int)) as i32,
        y: clamp_i32(position.y + per_tick_spec(velocity.y as int, fps as int)) as i32,
    }
}

/// The positions one tick later.
pub open spec fn integrated(
    positions: Map<Entity, Position>,
    velocities: Map<Entity, Velocity>,
    fps: u32,
) -> Map<Entity, Position> {
    Map::new(
        |e: Entity| positions.contains_key(e),
        |e: Entity|
            if moves(positions, velocities, e) {
                advanced(positions[e], velocities[e], fps)
            } else {
                positions[e]
            },
    )
}

/// The positions, before the tick, of the entities that move in it.
pub open spec fn left_behind(
    positions: Map<Entity, Position>,
    velocities: Map<Entity, Velocity>,
) -> Map<Entity, Position> {
    Map::new(|e: Entity| moves(positions, velocities, e), |e: Entity| positions[e])
}

/// Whether the pair of `a` and `b` is tested and found to overlap. In the
/// first pass both have moved and `a` has the lower identifier. In the
/// second pass `a` has moved and `b` has not.
pub open spec fn meets(s: Scene, second_pass: bool, a: Entity, b: Entity) -> bool {
    &&& s.has_body(a)
    &&& s.has_body(b)
    &&& s.previous_positions.contains_key(a)
    &&& if second_pass {
        !s.previous_positions.contains_key(b)
    } else {
        s.previous_positions.contains_key(b) && a.0 < b.0
    }
    &&& overlaps(s.positions[a], s.colliders[a], s.positions[b], s.colliders[b])
}

/// What the pair of `a` and `b` adds to the list `kind`.
pub open spec fn hit(s: Scene, kind: Kind, second_pass: bool, a: Entity, b: Entity) -> Seq<
    Collision,
> {
    if meets(s, second_pass, a, b) {
        recorded(kind, (a, s.colliders[a].ty), (b, s.colliders[b].ty))
    } else {
        Seq::empty()
    }
}

/// What the pairs of `a` with the entities below `n`, in ascending order,
/// add to the list `kind`.
pub open spec fn row(s: Scene, kind: Kind, second_pass: bool, a: Entity, n: nat) -> Seq<Collision>
    decreases n,
{
    if n == 0 {
        Seq::empty()
    } else {
        row(s, kind, second_pass, a, (n - 1) as nat) + hit(
            s,
            kind,
            second_pass,
            a,
            Entity((n - 1) as usize),
        )
    }
}

/// What the pairs of the entities below `m` with the entities below `n` add
/// to the list `kind`, in the ascending order of the first entity and then
/// of the second.
pub open spec fn pass(s: Scene, kind: Kind, second_pass: bool, m: nat, n: nat) -> Seq<Collision>
    decreases m,
{
    if m == 0 {
        Seq::empty()
    } else {
        pass(s, kind, second_pass, (m - 1) as nat, n) + row(
            s,
            kind,
            second_pass,
            Entity((m - 1) as usize),
            n,
        )
    }
}

/// The list `kind` of the overlaps among the entities below `n`: those of
/// the first pass, then those of the second.
pub open spec fn found(s: Scene, kind: Kind, n: nat) -> Seq<Collision> {
    pass(s, kind, false, n, n) + pass(s, kind, true, n, n)
}

/// Whether every entity with a position has an identifier below `n`.
pub open spec fn covers(positions: Map<Entity, Position>, n: nat) -> bool {
    forall|e: Entity| #[trigger] positions.contains_key(e) ==> e.0 < n
}

proof fn lemma_row_covered(s: Scene, kind: Kind, second_pass: bool, a: Entity, n: nat, k: nat)
    requires
        covers(s.positions, n),
        n <= k <= usize::MAX,
    ensures
        row(s, kind, second_pass, a, k) == row(s, kind, second_pass, a, n),
    decreases k,
{
    if k > n {
        lemma_row_covered(s, kind, second_pass, a, n, (k - 1) as nat);
        assert(!s.positions.contains_key(Entity((k - 1) as usize)));
        assert(row(s, kind, second_pass, a, k) =~= row(s, kind, second_pass, a, n));
    }
}

proof fn lemma_row_of_nobody(s: Scene, kind: Kind, second_pass: bool, a: Entity, k: nat)
    requires
        !s.positions.contains_key(a),
    ensures
        row(s, kind, second_pass, a, k) == Seq::<Collision>::empty(),
    decreases k,
{
    if k > 0 {
        lemma_row_of_nobody(s, kind, second_pass, a, (k - 1) as nat);
        assert(row(s, kind, second_pass, a, k) =~= Seq::<Collision>::empty());
    }
}

proof fn lemma_pass_columns(s: Scene, kind: Kind, second_pass: bool, m: nat, n: nat, k: nat)
    requires
        covers(s.positions, n),
        n <= k <= usize::MAX,
    ensures
        pass(s, kind, second_pass, m, k) == pass(s, kind, second_pass, m, n),
    decreases m,
{
    if m > 0 {
        lemma_pass_columns(s, kind, second_pass, (m - 1) as nat, n, k);
        lemma_row_covered(s, kind, second_pass, Entity((m - 1) as usize), n, k);
    }
}

proof fn lemma_pass_rows(s: Scene, kind: Kind, second_pass: bool, n: nat, m: nat, k: nat)
    requires
        covers(s.positions, n),
        n <= m <= usize::MAX,
    ensures
        pass(s, kind, second_pass, m, k) == pass(s, kind, second_pass, n, k),
    decreases m,
{
    if m > n {
        lemma_pass_rows(s, kind, second_pass, n, (m - 1) as nat, k);
        lemma_row_of_nobody(s, kind, second_pass, Entity((m - 1) as usize), k);
        assert(pass(s, kind, second_pass, m, k) =~= pass(s, kind, second_pass, n, k));
    }
}

/// Beyond the identifiers of all entities with a position the count does
/// not matter.
pub proof fn lemma_found_covered(s: Scene, kind: Kind, n: nat, m: nat)
    requires
        covers(s.positions, n),
        n <= m <= usize::MAX,
    ensures
        found(s, kind, m) == found(s, kind, n),
{
    lemma_pass_rows(s, kind, false, n, m, m);
    lemma_pass_columns(s, kind, false, n, n, m);
    lemma_pass_rows(s, kind, true, n, m, m);
    lemma_pass_columns(s, kind, true, n, n, m);
}

/// Integrates motion and finds the overlaps of a tick.
#[derive(Debug)]
pub struct PhysicsSystem {
    collisions: Collisions,
}

impl PhysicsSystem {
    /// The overlaps that the last tick has found.
    pub closed spec fn found(&self) -> Collisions {
        self.collisions
    }

    pub fn new() -> (s: Self)
        ensures
            s.found().fixed@.len() == 0,
            s.found().bridge@.len() == 0,
            s.found().player_damage@.len() == 0,
    {
        PhysicsSystem { collisions: Collisions::new() }
    }

    /// The overlaps that the last tick has found.
    pub fn collisions(&mut self) -> (r: &mut Collisions)
        ensures
            *r == old(self).found(),
            final(self).found() == *final(r),
    {
        &mut self.collisions
    }

    /// Records the overlap of `a` and `b` by the kinds of their colliders.
    fn resolve_collisions(&mut self, a: (Entity, ColliderType), b: (Entity, ColliderType))
        ensures
            final(self).collisions.fixed@ == old(self).collisions.fixed@ + recorded(
                Kind::Fixed,
                a,
                b,
            ),
            final(self).collisions.bridge@ == old(self).collisions.bridge@ + recorded(
                Kind::Bridge,
                a,
                b,
            ),
            final(self).collisions.player_damage@ == old(self).collisions.player_damage@
                + recorded(Kind::PlayerDamage, a, b),
    {
        match (a, b) {
            ((e, ColliderType::Environment), (p, ColliderType::Player))
            | ((p, ColliderType::Player), (e, ColliderType::Environment)) => {
                self.collisions.fixed.push(Collision(e, p))
            },
            ((b, ColliderType::Bridge), (p, ColliderType::Player))
            | ((p, ColliderType::Player), (b, ColliderType::Bridge)) => {
                self.collisions.bridge.push(Collision(b, p))
            },
            ((p, ColliderType::Player), (d, ColliderType::PlayerDamage))
            | ((d, ColliderType::PlayerDamage), (p, ColliderType::Player)) => {
                self.collisions.player_damage.push(Collision(p, d))
            },
            _ => {},
        }
        assert(self.collisions.fixed@ =~= old(self).collisions.fixed@ + recorded(
            Kind::Fixed,
            a,
            b,
        ));
        assert(self.collisions.bridge@ =~= old(self).collisions.bridge@ + recorded(
            Kind::Bridge,
            a,
            b,
        ));
        assert(self.collisions.player_damage@ =~= old(self).collisions.player_damage@ + recorded(
            Kind::PlayerDamage,
            a,
            b,
        ));
    }

    /// Tests the entities below `n` that have moved against each other, if
    /// `second_pass` is false, or against those that have not moved, if it is
    /// true.
    fn detect(
        &mut self,
        second_pass: bool,
        n: usize,
        positions: &Storage<Position>,
        previous_positions: &Storage<Position>,
        colliders: &Storage<Collider>,
        velocities: Ghost<Map<Entity, Velocity>>,
    )
        requires
            all_have_bodies(old(self).collisions.fixed@, positions@, colliders@),
            all_have_bodies(old(self).collisions.bridge@, positions@, colliders@),
            all_have_bodies(old(self).collisions.player_damage@, positions@, colliders@),
        ensures
            final(self).collisions.fixed@ == old(self).collisions.fixed@ + pass(
                scene(positions@, previous_positions@, velocities@, colliders@),
                Kind::Fixed,
                second_pass,
                n as nat,
                n as nat,
            ),
            final(self).collisions.bridge@ == old(self).collisions.bridge@ + pass(
                scene(positions@, previous_positions@, velocities@, colliders@),
                Kind::Bridge,
                second_pass,
                n as nat,
                n as nat,
            ),
            final(self).collisions.player_damage@ == old(self).collisions.player_damage@ + pass(
                scene(positions@, previous_positions@, velocities@, colliders@),
                Kind::PlayerDamage,
                second_pass,
                n as nat,
                n as nat,
            ),
            all_have_bodies(final(self).collisions.fixed@, positions@, colliders@),
            all_have_bodies(final(self).collisions.bridge@, positions@, colliders@),
            all_have_bodies(final(self).collisions.player_damage@, positions@, colliders@),
    {
        let ghost s = scene(positions@, previous_positions@, velocities@, colliders@);
        let ghost start = self.collisions;
        let mut a: usize = 0;
        while a < n
            invariant
                a <= n,
                s == scene(positions@, previous_positions@, velocities@, colliders@),
                self.collisions.fixed@ == start.fixed@ + pass(
                    s,
                    Kind::Fixed,
                    second_pass,
                    a as nat,
                    n as nat,
                ),
                self.collisions.bridge@ == start.bridge@ + pass(
                    s,
                    Kind::Bridge,
                    second_pass,
                    a as nat,
                    n as nat,
                ),
                self.collisions.player_damage@ == start.player_damage@ + pass(
                    s,
                    Kind::PlayerDamage,
                    second_pass,
                    a as nat,
                    n as nat,
                ),
                all_have_bodies(self.collisions.fixed@, positions@, colliders@),
                all_have_bodies(self.collisions.bridge@, positions@, colliders@),
                all_have_bodies(self.collisions.player_damage@, positions@, colliders@),
            decreases n - a,
        {
            let a_entity = Entity(a);
            let ghost before = self.collisions;
            let a_body = match (
                positions.get_copied(a_entity),
                colliders.get_copied(a_entity),
                previous_positions.contains(a_entity),
            ) {
                (Some(pos), Some(col), true) => Some((pos, col)),
                _ => None,
            };
            let mut b: usize = 0;
            while b < n
                invariant
                    b <= n,
                    a < n,
                    a_entity == Entity(a),
                    s == scene(positions@, previous_positions@, velocities@, colliders@),
                    a_body == (if s.has_body(a_entity) && s.previous_positions.contains_key(
                        a_entity,
                    ) {
                        Some((s.positions[a_entity], s.colliders[a_entity]))
                    } else {
                        None
                    }),
                    self.collisions.fixed@ == before.fixed@ + row(
                        s,
                        Kind::Fixed,
                        second_pass,
                        a_entity,
                        b as nat,
                    ),
                    self.collisions.bridge@ == before.bridge@ + row(
                        s,
                        Kind::Bridge,
                        second_pass,
                        a_entity,
                        b as nat,
                    ),
                    self.collisions.player_damage@ == before.player_damage@ + row(
                        s,
                        Kind::PlayerDamage,
                        second_pass,
                        a_entity,
                        b as nat,
                    ),
                    all_have_bodies(self.collisions.fixed@, positions@, colliders@),
                    all_have_bodies(self.collisions.bridge@, positions@, colliders@),
                    all_have_bodies(self.collisions.player_damage@, positions@, colliders@),
                decreases n - b,
            {
                let b_entity = Entity(b);
                let ghost inner = self.collisions;
                if let Some((a_pos, a_collider)) = a_body {
                    if let (Some(b_pos), Some(b_collider)) = (
                        positions.get_copied(b_entity),
                        colliders.get_copied(b_entity),
                    ) {
                        let b_moved = previous_positions.contains(b_entity);
                        let paired = if second_pass {
                            !b_moved
                        } else {
                            b_moved && a < b
                        };
                        if paired && is_collision(a_pos, a_collider, b_pos, b_collider) {
                            assert(meets(s, second_pass, a_entity, b_entity));
                            self.resolve_collisions(
                                (a_entity, a_collider.ty),
                                (b_entity, b_collider.ty),
                            );
                        }
                    }
                }
                proof {
                    assert(self.collisions.fixed@ =~= inner.fixed@ + hit(
                        s,
                        Kind::Fixed,
                        second_pass,
                        a_entity,
                        b_entity,
                    ));
                    assert(self.collisions.bridge@ =~= inner.bridge@ + hit(
                        s,
                        Kind::Bridge,
                        second_pass,
                        a_entity,
                        b_entity,
                    ));
                    assert(self.collisions.player_damage@ =~= inner.player_damage@ + hit(
                        s,
                        Kind::PlayerDamage,
                        second_pass,
                        a_entity,
                        b_entity,
                    ));
                    assert(self.collisions.fixed@ =~= before.fixed@ + row(
                        s,
                        Kind::Fixed,
                        second_pass,
                        a_entity,
                        (b + 1) as nat,
                    ));
                    assert(self.collisions.bridge@ =~= before.bridge@ + row(
                        s,
                        Kind::Bridge,
                        second_pass,
                        a_entity,
                        (b + 1) as nat,
                    ));
                    assert(self.collisions.player_damage@ =~= before.player_damage@ + row(
                        s,
                        Kind::PlayerDamage,
                        second_pass,
                        a_entity,
                        (b + 1) as nat,
                    ));
                }
                b += 1;
            }
            proof {
                assert(self.collisions.fixed@ =~= start.fixed@ + pass(
                    s,
                    Kind::Fixed,
                    second_pass,
                    (a + 1) as nat,
                    n as nat,
                ));
                assert(self.collisions.bridge@ =~= start.bridge@ + pass(
                    s,
                    Kind::Bridge,
                    second_pass,
                    (a + 1) as nat,
                    n as nat,
                ));
                assert(self.collisions.player_damage@ =~= start.player_damage@ + pass(
                    s,
                    Kind::PlayerDamage,
                    second_pass,
                    (a + 1) as nat,
                    n as nat,
                ));
            }
            a += 1;
        }
    }
}

impl PhysicsSystem {
    /// Moves every entity that has a velocity other than zero, and keeps
    /// where it was.
    fn integrate(
        velocities: &Storage<Velocity>,
        previous_positions: &mut Storage<Position>,
        positions: &mut Storage<Position>,
        fps: u32,
    ) -> (n: usize)
        requires
            fps > 0,
            old(previous_positions)@ == Map::<Entity, Position>::empty(),
        ensures
            final(positions)@ == integrated(old(positions)@, velocities@, fps),
            final(previous_positions)@ == left_behind(old(positions)@, velocities@),
            covers(old(positions)@, n as nat),
    {
        let n = positions.bound();
        let ghost start = positions@;
        let mut i: usize = 0;
        while i < n
            invariant
                i <= n,
                fps > 0,
                covers(start, n as nat),
                positions@ == Map::new(
                    |e: Entity| start.contains_key(e),
                    |e: Entity|
                        if e.0 < i && moves(start, velocities@, e) {
                            advanced(start[e], velocities@[e], fps)
                        } else {
                            start[e]
                        },
                ),
                previous_positions@ == Map::new(
                    |e: Entity| e.0 < i && moves(start, velocities@, e),
                    |e: Entity| start[e],
                ),
            decreases n - i,
        {
            let entity = Entity(i);
            if let (Some(velocity), Some(position)) = (
                velocities.get_copied(entity),
                positions.get_copied(entity),
            ) {
                if velocity.x != 0 || velocity.y != 0 {
                    previous_positions.insert(entity, position);
                    positions.insert(
                        entity,
                        Position {
                            x: saturate(position.x as i64 + per_tick(velocity.x, fps) as i64),
                            y: saturate(position.y as i64 + per_tick(velocity.y, fps) as i64),
                        },
                    );
                }
            }
            i += 1;
            assert(positions@ =~= Map::new(
                |e: Entity| start.contains_key(e),
                |e: Entity|
                    if e.0 < i && moves(start, velocities@, e) {
                        advanced(start[e], velocities@[e], fps)
                    } else {
                        start[e]
                    },
            ));
            assert(previous_positions@ =~= Map::new(
                |e: Entity| e.0 < i && moves(start, velocities@, e),
                |e: Entity| start[e],
            ));
        }
        assert(positions@ =~= integrated(start, velocities@, fps));
        assert(previous_positions@ =~= left_behind(start, velocities@));
        n
    }

    /// One tick of motion.
    ///
    /// Forgets the overlaps, the previous positions and the grounded
    /// entities of the last tick. Moves every entity that has a velocity
    /// other than zero and keeps where it was. Then records the overlaps
    /// among the moved entities and those of a moved entity with one that
    /// did not move. Two entities that did not move are not tested.
    pub fn run(
        &mut self,
        velocities: &Storage<Velocity>,
        colliders: &Storage<Collider>,
        previous_positions: &mut Storage<Position>,
        positions: &mut Storage<Position>,
        grounded: &mut Storage<Grounded>,
        time: &Time,
    ) -> (r: &mut Collisions)
        ensures
            final(positions)@ == integrated(
                old(positions)@,
                velocities@,
                time.ticks_per_second(),
            ),
            final(previous_positions)@ == left_behind(old(positions)@, velocities@),
            final(grounded)@ == Map::<Entity, Grounded>::empty(),
            is_found(
                *r,
                scene(final(positions)@, final(previous_positions)@, velocities@, colliders@),
            ),
            all_have_bodies(r.fixed@, final(positions)@, colliders@),
            all_have_bodies(r.bridge@, final(positions)@, colliders@),
            all_have_bodies(r.player_damage@, final(positions)@, colliders@),
            final(self).found() == *final(r),
    {
        self.collisions.clear();

        previous_positions.clear();
        grounded.clear();

        let n = Self::integrate(velocities, previous_positions, positions, time.fps());
        let ghost s = scene(positions@, previous_positions@, velocities@, colliders@);

        // overlaps among the entities that have moved
        self.detect(false, n, positions, previous_positions, colliders, Ghost(velocities@));
        // overlaps with the other entities
        self.detect(true, n, positions, previous_positions, colliders, Ghost(velocities@));

        proof {
            assert(self.collisions.fixed@ =~= found(s, Kind::Fixed, n as nat));
            assert(self.collisions.bridge@ =~= found(s, Kind::Bridge, n as nat));
            assert(self.collisions.player_damage@ =~= found(s, Kind::PlayerDamage, n as nat));
            assert(covers(s.positions, n as nat));
            assert forall|m: usize| #[trigger] covers(s.positions, m as nat) implies {
                &&& self.collisions.fixed@ == found(s, Kind::Fixed, m as nat)
                &&& self.collisions.bridge@ == found(s, Kind::Bridge, m as nat)
                &&& self.collisions.player_damage@ == found(s, Kind::PlayerDamage, m as nat)
            } by {
                if m <= n {
                    lemma_found_covered(s, Kind::Fixed, m as nat, n as nat);
                    lemma_found_covered(s, Kind::Bridge, m as nat, n as nat);
                    lemma_found_covered(s, Kind::PlayerDamage, m as nat, n as nat);
                } else {
                    lemma_found_covered(s, Kind::Fixed, n as nat, m as nat);
                    lemma_found_covered(s, Kind::Bridge, n as nat, m as nat);
                    lemma_found_covered(s, Kind::PlayerDamage, n as nat, m as nat);
                }
            }
        }

        &mut self.collisions
    }
}

/// Whether `c` holds the overlaps of the scene `s`: for every count `n`
/// above the identifiers of all entities with a position, each list is the
/// one found among the entities below `n`.
pub open spec fn is_found(c: Collisions, s: Scene) -> bool {
    forall|n: usize| #[trigger]
        covers(s.positions, n as nat) ==> {
            &&& c.fixed@ == found(s, Kind::Fixed, n as nat)
            &&& c.bridge@ == found(s, Kind::Bridge, n as nat)
            &&& c.player_damage@ == found(s, Kind::PlayerDamage, n as nat)
        }
}

/// Whether the pair of `a` and `b` is tested in one of the two passes,
/// found to overlap, and recorded as `c` in the list `kind`.
pub open spec fn records(s: Scene, kind: Kind, a: Entity, b: Entity, c: Collision) -> bool {
    hit(s, kind, false, a, b).contains(c) || hit(s, kind, true, a, b).contains(c)
}

proof fn lemma_row_members(
    s: Scene,
    kind: Kind,
    second_pass: bool,
    a: Entity,
    n: nat,
    c: Collision,
)
    requires
        n <= usize::MAX + 1,
    ensures
        row(s, kind, second_pass, a, n).contains(c) <==> exists|b: Entity|
            b.0 < n && #[trigger] hit(s, kind, second_pass, a, b).contains(c),
    decreases n,
{
    if n > 0 {
        let m = (n - 1) as nat;
        lemma_row_members(s, kind, second_pass, a, m, c);
        let before = row(s, kind, second_pass, a, m);
        let last = Entity(m as usize);
        let added = hit(s, kind, second_pass, a, last);
        lemma_contains_of_sum(before, added, c);
        if row(s, kind, second_pass, a, n).contains(c) {
            if before.contains(c) {
                let b = choose|b: Entity|
                    b.0 < m && #[trigger] hit(s, kind, second_pass, a, b).contains(c);
                assert(b.0 < n && hit(s, kind, second_pass, a, b).contains(c));
            } else {
                assert(last.0 < n && hit(s, kind, second_pass, a, last).contains(c));
            }
        }
        if exists|b: Entity| b.0 < n && #[trigger] hit(s, kind, second_pass, a, b).contains(c) {
            let b = choose|b: Entity|
                b.0 < n && #[trigger] hit(s, kind, second_pass, a, b).contains(c);
            if b.0 < m {
                assert(before.contains(c));
            } else {
                assert(b == last);
            }
        }
    } else {
        assert(!Seq::<Collision>::empty().contains(c));
    }
}

proof fn lemma_pass_members(
    s: Scene,
    kind: Kind,
    second_pass: bool,
    m: nat,
    n: nat,
    c: Collision,
)
    requires
        m <= usize::MAX + 1,
        n <= usize::MAX + 1,
    ensures
        pass(s, kind, second_pass, m, n).contains(c) <==> exists|a: Entity, b: Entity|
            a.0 < m && b.0 < n && #[trigger] hit(s, kind, second_pass, a, b).contains(c),
    decreases m,
{
    if m > 0 {
        let k = (m - 1) as nat;
        lemma_pass_members(s, kind, second_pass, k, n, c);
        let before = pass(s, kind, second_pass, k, n);
        let last = Entity(k as usize);
        let added = row(s, kind, second_pass, last, n);
        lemma_row_members(s, kind, second_pass, last, n, c);
        lemma_contains_of_sum(before, added, c);
        if pass(s, kind, second_pass, m, n).contains(c) {
            if before.contains(c) {
                let (a, b) = choose|a: Entity, b: Entity|
                    a.0 < k && b.0 < n && #[trigger] hit(s, kind, second_pass, a, b).contains(c);
                assert(a.0 < m && b.0 < n && hit(s, kind, second_pass, a, b).contains(c));
            } else {
                let b = choose|b: Entity|
                    b.0 < n && #[trigger] hit(s, kind, second_pass, last, b).contains(c);
                assert(last.0 < m && b.0 < n && hit(s, kind, second_pass, last, b).contains(c));
            }
        }
        if exists|a: Entity, b: Entity|
            a.0 < m && b.0 < n && #[trigger] hit(s, kind, second_pass, a, b).contains(c) {
            let (a, b) = choose|a: Entity, b: Entity|
                a.0 < m && b.0 < n && #[trigger] hit(s, kind, second_pass, a, b).contains(c);
            if a.0 < k {
                assert(before.contains(c));
            } else {
                assert(a == last);
                assert(added.contains(c));
            }
        }
    } else {
        assert(!Seq::<Collision>::empty().contains(c));
    }
}

proof fn lemma_contains_of_sum(x: Seq<Collision>, y: Seq<Collision>, c: Collision)
    ensures
        (x + y).contains(c) <==> x.contains(c) || y.contains(c),
{
    if x.contains(c) {
        let i = choose|i: int| 0 <= i < x.len() && x[i] == c;
        assert((x + y)[i] == c);
    }
    if y.contains(c) {
        let i = choose|i: int| 0 <= i < y.len() && y[i] == c;
        assert((x + y)[x.len() + i] == c);
    }
    if (x + y).contains(c) {
        let i = choose|i: int| 0 <= i < (x + y).len() && (x + y)[i] == c;
        if i < x.len() {
            assert(x[i] == c);
        } else {
            assert(y[i - x.len()] == c);
        }
    }
}

/// A pair is in a list of overlaps if and only if two entities are tested
/// in one of the passes, overlap, and are recorded as that pair in that
/// list. Two entities of which neither has moved are in no list.
pub proof fn lemma_found_members(s: Scene, kind: Kind, n: nat, c: Collision)
    requires
        n <= usize::MAX + 1,
    ensures
        found(s, kind, n).contains(c) <==> exists|a: Entity, b: Entity|
            a.0 < n && b.0 < n && #[trigger] records(s, kind, a, b, c),
        forall|a: Entity, b: Entity| #[trigger]
            records(s, kind, a, b, c) ==> {
                &&& s.has_body(a)
                &&& s.has_body(b)
                &&& s.previous_positions.contains_key(a)
                &&& overlaps(s.positions[a], s.colliders[a], s.positions[b], s.colliders[b])
                &&& recorded(kind, (a, s.colliders[a].ty), (b, s.colliders[b].ty)) == seq![c]
            },
{
    lemma_pass_members(s, kind, false, n, n, c);
    lemma_pass_members(s, kind, true, n, n, c);
    lemma_contains_of_sum(pass(s, kind, false, n, n), pass(s, kind, true, n, n), c);
    if found(s, kind, n).contains(c) {
        if pass(s, kind, false, n, n).contains(c) {
            let (a, b) = choose|a: Entity, b: Entity|
                a.0 < n && b.0 < n && #[trigger] hit(s, kind, false, a, b).contains(c);
            assert(a.0 < n && b.0 < n && records(s, kind, a, b, c));
        } else {
            let (a, b) = choose|a: Entity, b: Entity|
                a.0 < n && b.0 < n && #[trigger] hit(s, kind, true, a, b).contains(c);
            assert(a.0 < n && b.0 < n && records(s, kind, a, b, c));
        }
    }
    if exists|a: Entity, b: Entity| a.0 < n && b.0 < n && #[trigger] records(s, kind, a, b, c) {
        let (a, b) = choose|a: Entity, b: Entity|
            a.0 < n && b.0 < n && #[trigger] records(s, kind, a, b, c);
        if hit(s, kind, false, a, b).contains(c) {
            assert(pass(s, kind, false, n, n).contains(c));
        } else {
            assert(hit(s, kind, true, a, b).contains(c));
            assert(pass(s, kind, true, n, n).contains(c));
        }
    }
    assert forall|a: Entity, b: Entity| #[trigger] records(s, kind, a, b, c) implies {
        &&& s.has_body(a)
        &&& s.has_body(b)
        &&& s.previous_positions.contains_key(a)
        &&& overlaps(s.positions[a], s.colliders[a], s.positions[b], s.colliders[b])
        &&& recorded(kind, (a, s.colliders[a].ty), (b, s.colliders[b].ty)) == seq![c]
    } by {
        let r = recorded(kind, (a, s.colliders[a].ty), (b, s.colliders[b].ty));
        if hit(s, kind, false, a, b).contains(c) {
            assert(meets(s, false, a, b));
            let i = choose|i: int| 0 <= i < r.len() && r[i] == c;
            assert(r =~= seq![c]);
        } else {
            assert(meets(s, true, a, b));
            let i = choose|i: int| 0 <= i < r.len() && r[i] == c;
            assert(r =~= seq![c]);
        }
    }
}

} // verus!
