//! The state machine of the player.
//!
//! A player is grounded, airborne, dying or dead. The machine reads what
//! the collision systems have found in this tick and what the input says,
//! and from that it sets the state, the velocity and the animation of each
//! player, in the ascending order of their identifiers.

use crate::config::PlayerConfig;
use crate::data::{
    AnimationState, Collision, Collisions, Components, Grounded, IgnoreBridges, Mirrored,
    PlayerAnimations, PlayerState, Velocity, WallCollision,
};
use crate::ecs::{Entity, Storage};
use crate::input::KeyState;
use crate::ressources::{Action, DelayedAction, Fadeout, JumpBuffer, Ressources};
use crate::units::{clamp_i32, div_i64, div_toward_zero, mul_i32, per_tick, per_tick_spec, saturate, UNIT};
use vstd::prelude::*;

verus! {

/// The horizontal speed from which on a grounded player is shown running.
pub const RUNNING_THRESHOLD: i32 = 15_000;

/// The number of frames between the death of a player and the reset of the
/// world, during which the view fades out.
pub const DYING_FRAMES: usize = 40;

/// One player as the state machine sees it.
#[derive(Debug, Clone, Copy, PartialEq, Eq, Structural)]
pub struct Player {
    pub state: PlayerState,
    pub velocity: Velocity,
    pub animation: AnimationState,
    pub mirrored: bool,
    pub ignore_bridges: bool,
}

/// What one tick tells the state machine about a player.
#[derive(Debug, Clone, Copy, PartialEq, Eq, Structural)]
pub struct Signals {
    /// The player overlaps something that damages it.
    pub damaged: bool,
    /// The player rests on a solid.
    pub grounded: bool,
    /// The player touches a wall.
    pub wall: bool,
    /// The horizontal axis of the input, from `-UNIT` to `UNIT`.
    pub axis: i32,
    /// The key that lets the player drop through bridges is held.
    pub down: bool,
}

/// Whether the player can act: it is grounded or airborne.
pub open spec fn is_alive(state: PlayerState) -> bool {
    state == PlayerState::Grounded || state == PlayerState::Airborne
}

/// Whether the player starts dying in this tick.
pub open spec fn dies(p: Player, s: Signals) -> bool {
    is_alive(p.state) && s.damaged
}

/// The player after the check for damage. A player that starts dying stops
/// moving sideways, does not rise any more, and no longer drops through
/// bridges.
pub open spec fn after_damage(p: Player, s: Signals) -> Player {
    if dies(p, s) {
        Player {
            state: PlayerState::Dying,
            velocity: Velocity {
                x: 0,
                y: if p.velocity.y < 0 {
                    p.velocity.y
                } else {
                    0
                },
            },
            ignore_bridges: false,
            ..p
        }
    } else {
        p
    }
}

/// The speed `speed` moved toward `target` by at most the magnitude of
/// `acceleration`; a negative `acceleration` moves it by that magnitude in
/// any case.
pub open spec fn approach(speed: int, target: int, acceleration: int) -> int {
    let difference = target - speed;
    let distance = if difference >= 0 {
        difference
    } else {
        -difference
    };
    let step = if acceleration >= 0 {
        acceleration
    } else {
        -acceleration
    };
    if distance > acceleration {
        if difference >= 0 {
            speed + step
        } else {
            speed - step
        }
    } else {
        target
    }
}

/// With an acceleration that is not negative, the speed neither moves away
/// from the target nor beyond it, and it changes by the acceleration at
/// most.
pub proof fn lemma_approach_does_not_overshoot(speed: int, target: int, acceleration: int)
    requires
        acceleration >= 0,
    ensures
        speed <= target ==> speed <= approach(speed, target, acceleration) <= target,
        speed >= target ==> speed >= approach(speed, target, acceleration) >= target,
        -acceleration <= approach(speed, target, acceleration) - speed <= acceleration,
{
}

/// The speed that the player heads for, for the value `axis` of the input.
pub open spec fn target_speed(config: PlayerConfig, axis: i32) -> int {
    div_toward_zero(config.movement_speed * axis, UNIT as int)
}

/// The player after the input has moved it: it faces the way the axis
/// points, once the axis is past half of its range, and its horizontal speed
/// approaches the speed that the axis asks for.
pub open spec fn after_locomotion(p: Player, s: Signals, config: PlayerConfig, fps: u32) -> Player {
    if is_alive(p.state) {
        let acceleration = per_tick_spec(
            if p.state == PlayerState::Grounded {
                config.grounded_acceleration as int
            } else {
                config.airborne_acceleration as int
            },
            fps as int,
        );
        Player {
            mirrored: if s.axis < -(UNIT / 2) {
                true
            } else if s.axis > UNIT / 2 {
                false
            } else {
                p.mirrored
            },
            velocity: Velocity {
                x: clamp_i32(
                    approach(p.velocity.x as int, target_speed(config, s.axis), acceleration),
                ) as i32,
                y: p.velocity.y,
            },
            ..p
        }
    } else {
        p
    }
}

/// The player after it has left or touched the ground.
pub open spec fn after_transition(p: Player, s: Signals, animations: PlayerAnimations) -> Player {
    if p.state == PlayerState::Grounded && !s.grounded {
        Player {
            state: PlayerState::Airborne,
            animation: AnimationState::started(animations.start_falling),
            ..p
        }
    } else if p.state == PlayerState::Airborne && s.grounded {
        Player {
            state: PlayerState::Grounded,
            animation: AnimationState::started(animations.idle),
            ..p
        }
    } else {
        p
    }
}

/// The player after a jump from the ground.
pub open spec fn after_jump(
    p: Player,
    jumps: bool,
    animations: PlayerAnimations,
    config: PlayerConfig,
) -> Player {
    if jumps {
        Player {
            state: PlayerState::Airborne,
            velocity: Velocity { x: p.velocity.x, y: config.jump_speed },
            animation: AnimationState::started(animations.jumping),
            ..p
        }
    } else {
        p
    }
}

/// The player after the key that drops it through bridges was looked at.
pub open spec fn after_bridges(p: Player, s: Signals) -> Player {
    if is_alive(p.state) {
        Player { ignore_bridges: s.down, ..p }
    } else {
        p
    }
}

/// The animation that the player shows at the end of the tick.
pub open spec fn refined_animation(
    p: Player,
    s: Signals,
    animations: PlayerAnimations,
) -> AnimationState {
    let first = if p.state == PlayerState::Airborne && p.velocity.y <= 0 && p.animation.current
        == animations.jumping {
        AnimationState::started(animations.start_falling)
    } else {
        p.animation
    };
    let second = if first.current == animations.run_into_obstacle && !s.wall {
        AnimationState::started(animations.idle)
    } else {
        first
    };
    if p.state == PlayerState::Grounded {
        if p.velocity.x >= RUNNING_THRESHOLD || p.velocity.x <= -RUNNING_THRESHOLD {
            if second.current == animations.idle {
                AnimationState::started(animations.running)
            } else {
                second
            }
        } else if second.current == animations.running {
            if s.wall {
                AnimationState::started(animations.run_into_obstacle)
            } else {
                AnimationState::started(animations.idle)
            }
        } else {
            second
        }
    } else {
        second
    }
}

/// The player before the check for a jump: after damage, locomotion and the
/// transition between ground and air.
pub open spec fn before_jump(
    p: Player,
    s: Signals,
    animations: PlayerAnimations,
    config: PlayerConfig,
    fps: u32,
) -> Player {
    after_transition(after_locomotion(after_damage(p, s), s, config, fps), s, animations)
}

/// Whether the player jumps in this tick: a jump is pending and the player
/// stands on the ground.
pub open spec fn jumps(
    p: Player,
    s: Signals,
    pending: bool,
    animations: PlayerAnimations,
    config: PlayerConfig,
    fps: u32,
) -> bool {
    pending && before_jump(p, s, animations, config, fps).state == PlayerState::Grounded
}

/// The player after one tick.
pub open spec fn stepped(
    p: Player,
    s: Signals,
    pending: bool,
    animations: PlayerAnimations,
    config: PlayerConfig,
    fps: u32,
) -> Player {
    let q = after_bridges(
        after_jump(
            before_jump(p, s, animations, config, fps),
            jumps(p, s, pending, animations, config, fps),
            animations,
            config,
        ),
        s,
    );
    Player { animation: refined_animation(q, s, animations), ..q }
}

/// The machine never leaves the states `Dying` and `Dead`, it enters
/// `Dying` exactly when a player that can act is damaged, and it never
/// enters `Dead`. A player jumps from the ground only: it is airborne
/// right after, with the configured speed.
pub proof fn lemma_transitions(
    p: Player,
    s: Signals,
    pending: bool,
    animations: PlayerAnimations,
    config: PlayerConfig,
    fps: u32,
)
    ensures
        !is_alive(p.state) ==> stepped(p, s, pending, animations, config, fps).state == p.state,
        !is_alive(p.state) ==> stepped(p, s, pending, animations, config, fps).velocity
            == p.velocity,
        is_alive(p.state) ==> (stepped(p, s, pending, animations, config, fps).state
            == PlayerState::Dying <==> s.damaged),
        stepped(p, s, pending, animations, config, fps).state == PlayerState::Dead ==> p.state
            == PlayerState::Dead,
        dies(p, s) ==> stepped(p, s, pending, animations, config, fps).velocity == (Velocity {
            x: 0,
            y: if p.velocity.y < 0 {
                p.velocity.y
            } else {
                0
            },
        }),
        jumps(p, s, pending, animations, config, fps) ==> is_alive(p.state) && !s.damaged
            && s.grounded && stepped(p, s, pending, animations, config, fps).state
            == PlayerState::Airborne && stepped(p, s, pending, animations, config, fps).velocity.y
            == config.jump_speed,
        is_alive(p.state) && !s.damaged && !jumps(p, s, pending, animations, config, fps) ==> (
        stepped(p, s, pending, animations, config, fps).state == PlayerState::Grounded
            <==> s.grounded),
{
}

/// Whether the player `entity` is damaged, and the state it enters then.
pub fn on_player_damage(entity: Entity, player_damage: &[Collision]) -> (r: Option<PlayerState>)
    ensures
        r == (if damaged(player_damage@, entity) {
            Some(PlayerState::Dying)
        } else {
            None
        }),
{
    let mut i: usize = 0;
    while i < player_damage.len()
        invariant
            i <= player_damage.len(),
            forall|j: int| 0 <= j < i ==> (#[trigger] player_damage@[j]).0 != entity,
        decreases player_damage.len() - i,
    {
        let Collision(player, _damage) = player_damage[i];
        if player == entity {
            return Some(PlayerState::Dying);
        }
        i += 1;
    }
    None
}

/// Whether `entity` is the player of one of the pairs `player_damage`.
pub open spec fn damaged(player_damage: Seq<Collision>, entity: Entity) -> bool {
    exists|i: int| 0 <= i < player_damage.len() && (#[trigger] player_damage[i]).0 == entity
}

/// Takes a pending jump, if there is one, and says whether there was one. A
/// jump is taken once.
pub fn maybe_jump(pressed_space: &mut Option<JumpBuffer>) -> (r: bool)
    ensures
        r == (*old(pressed_space) is Some),
        *final(pressed_space) is None,
{
    // taking it prevents a second jump after the player has bumped its head
    pressed_space.take().is_some()
}

/// What happens when the player `player` enters `state`.
///
/// `Grounded`: it shows the idle animation. `Airborne`: it shows the start
/// of a fall. `Dying`: it stops moving sideways and rising, it no longer
/// drops through bridges, the view starts to fade, and the reset of the
/// world is scheduled.
pub fn initialize_state(
    state: PlayerState,
    player: Entity,
    velocity: &mut Velocity,
    animation: &mut AnimationState,
    player_animations: &PlayerAnimations,
    ignore_bridges: &mut Storage<IgnoreBridges>,
    fadeout: &mut Option<Fadeout>,
    delayed_actions: &mut Vec<DelayedAction>,
)
    ensures
        *final(animation) == (match state {
            PlayerState::Grounded => AnimationState::started(player_animations.idle),
            PlayerState::Airborne => AnimationState::started(player_animations.start_falling),
            _ => *old(animation),
        }),
        *final(velocity) == (if state == PlayerState::Dying {
            Velocity {
                x: 0,
                y: if old(velocity).y < 0 {
                    old(velocity).y
                } else {
                    0
                },
            }
        } else {
            *old(velocity)
        }),
        final(ignore_bridges)@ == (if state == PlayerState::Dying {
            old(ignore_bridges)@.remove(player)
        } else {
            old(ignore_bridges)@
        }),
        *final(fadeout) == (if state == PlayerState::Dying {
            Some(Fadeout { current: 0, frames_left: DYING_FRAMES })
        } else {
            *old(fadeout)
        }),
        final(delayed_actions)@ == (if state == PlayerState::Dying {
            old(delayed_actions)@.push(
                DelayedAction { frames_left: DYING_FRAMES, action: Action::ResetWorld },
            )
        } else {
            old(delayed_actions)@
        }),
{
    match state {
        PlayerState::Grounded => {
            *animation = AnimationState::start(player_animations.idle);
        },
        PlayerState::Airborne => {
            *animation = AnimationState::start(player_animations.start_falling);
            // a jump is handled right after `maybe_jump`
        },
        PlayerState::Dying => {
            // keep the player from sliding or falling through bridges
            // while it still falls to the ground
            if velocity.y > 0 {
                velocity.y = 0;
            }
            velocity.x = 0;
            ignore_bridges.remove(player);

            let frames_left = DYING_FRAMES;
            *fadeout = Some(Fadeout { current: 0, frames_left });
            delayed_actions.push(DelayedAction { frames_left, action: Action::ResetWorld });
        },
        PlayerState::Dead => (),
    }
}

/// What the state machine writes, as maps and plain values.
#[verifier::ext_equal]
pub struct Players {
    pub states: Map<Entity, PlayerState>,
    pub animations: Map<Entity, AnimationState>,
    pub velocities: Map<Entity, Velocity>,
    pub mirrored: Map<Entity, Mirrored>,
    pub ignore_bridges: Map<Entity, IgnoreBridges>,
    pub pressed_space: Option<JumpBuffer>,
    pub fadeout: Option<Fadeout>,
    pub delayed_actions: Seq<DelayedAction>,
}

/// What the state machine reads and leaves as it is.
pub struct Tick {
    pub player_animations: Map<Entity, PlayerAnimations>,
    pub grounded: Map<Entity, Grounded>,
    pub wall_collisions: Map<Entity, WallCollision>,
    pub player_damage: Seq<Collision>,
    pub axis: i32,
    pub down: bool,
    pub config: PlayerConfig,
    pub fps: u32,
}

/// What the state machine writes, taken from components and resources.
pub open spec fn players_of(c: &Components, r: &Ressources) -> Players {
    Players {
        states: c.player_state@,
        animations: c.animations@,
        velocities: c.velocities@,
        mirrored: c.mirrored@,
        ignore_bridges: c.ignore_bridges@,
        pressed_space: r.pressed_space,
        fadeout: r.fadeout,
        delayed_actions: r.delayed_actions@,
    }
}

/// What the state machine reads, taken from components, resources and the
/// collisions of the tick.
pub open spec fn tick_of(c: &Components, r: &Ressources, collisions: &Collisions) -> Tick {
    Tick {
        player_animations: c.player_animations@,
        grounded: c.grounded@,
        wall_collisions: c.wall_collisions@,
        player_damage: collisions.player_damage@,
        axis: r.input_state.axis_value(r.config.input.left, r.config.input.right),
        down: r.input_state.held_keys().contains(r.config.input.down),
        config: r.config.player,
        fps: r.time.ticks_per_second(),
    }
}

/// Whether `new` is `old` but for what the state machine writes.
pub open spec fn same_besides_players(
    new_c: &Components,
    new_r: &Ressources,
    old_c: &Components,
    old_r: &Ressources,
) -> bool {
    &&& new_c.count == old_c.count
    &&& new_c.deleted@ == old_c.deleted@
    &&& new_c.positions@ == old_c.positions@
    &&& new_c.sprites@ == old_c.sprites@
    &&& new_c.previous_positions@ == old_c.previous_positions@
    &&& new_c.colliders@ == old_c.colliders@
    &&& new_c.grounded@ == old_c.grounded@
    &&& new_c.wall_collisions@ == old_c.wall_collisions@
    &&& new_c.gravity@ == old_c.gravity@
    &&& new_c.player_animations@ == old_c.player_animations@
    &&& new_c.depths@ == old_c.depths@
    &&& new_c.cameras@ == old_c.cameras@
    &&& new_r.input_state == old_r.input_state
    &&& new_r.time == old_r.time
    &&& new_r.config == old_r.config
    &&& new_r.world == old_r.world
    &&& new_r.last_save == old_r.last_save
    &&& new_r.debug_draw == old_r.debug_draw
    &&& new_r.lazy_update == old_r.lazy_update
}

impl Players {
    /// Whether `e` is a player: it has a state, an animation, the set of
    /// the animations of a player, and a velocity.
    pub open spec fn is_player(self, t: Tick, e: Entity) -> bool {
        &&& self.states.contains_key(e)
        &&& self.animations.contains_key(e)
        &&& t.player_animations.contains_key(e)
        &&& self.velocities.contains_key(e)
    }

    /// The player `e`.
    pub open spec fn player(self, e: Entity) -> Player {
        Player {
            state: self.states[e],
            velocity: self.velocities[e],
            animation: self.animations[e],
            mirrored: self.mirrored.contains_key(e),
            ignore_bridges: self.ignore_bridges.contains_key(e),
        }
    }

    /// Whether every entity with a state has an identifier below `n`.
    pub open spec fn below(self, n: nat) -> bool {
        forall|e: Entity| #[trigger] self.states.contains_key(e) ==> e.0 < n
    }
}

impl Tick {
    /// What the tick tells the state machine about the player `e`.
    pub open spec fn signals(self, e: Entity) -> Signals {
        Signals {
            damaged: damaged(self.player_damage, e),
            grounded: self.grounded.contains_key(e),
            wall: self.wall_collisions.contains_key(e),
            axis: self.axis,
            down: self.down,
        }
    }
}

/// The world after the tick of the player `e`. A jump uses up the pending
/// jump. A death starts the fading of the view and schedules the reset of
/// the world.
pub open spec fn after_player(w: Players, t: Tick, e: Entity) -> Players {
    let p = w.player(e);
    let s = t.signals(e);
    let animations = t.player_animations[e];
    let pending = w.pressed_space is Some;
    let q = stepped(p, s, pending, animations, t.config, t.fps);
    let asked = before_jump(p, s, animations, t.config, t.fps).state == PlayerState::Grounded;
    Players {
        states: w.states.insert(e, q.state),
        animations: w.animations.insert(e, q.animation),
        velocities: w.velocities.insert(e, q.velocity),
        mirrored: if q.mirrored {
            w.mirrored.insert(e, Mirrored)
        } else {
            w.mirrored.remove(e)
        },
        ignore_bridges: if q.ignore_bridges {
            w.ignore_bridges.insert(e, IgnoreBridges)
        } else {
            w.ignore_bridges.remove(e)
        },
        pressed_space: if asked {
            None
        } else {
            w.pressed_space
        },
        fadeout: if dies(p, s) {
            Some(Fadeout { current: 0, frames_left: DYING_FRAMES })
        } else {
            w.fadeout
        },
        delayed_actions: if dies(p, s) {
            w.delayed_actions.push(
                DelayedAction { frames_left: DYING_FRAMES, action: Action::ResetWorld },
            )
        } else {
            w.delayed_actions
        },
    }
}

/// The world after the ticks of the players with an identifier below `n`,
/// in ascending order.
pub open spec fn after_players(w: Players, t: Tick, n: nat) -> Players
    decreases n,
{
    if n == 0 {
        w
    } else {
        let before = after_players(w, t, (n - 1) as nat);
        let e = Entity((n - 1) as usize);
        if before.is_player(t, e) {
            after_player(before, t, e)
        } else {
            before
        }
    }
}

/// The ticks of the players neither add nor remove a state, an animation
/// or a velocity.
pub proof fn lemma_players_stay(w: Players, t: Tick, n: nat)
    ensures
        after_players(w, t, n).states.dom() == w.states.dom(),
        after_players(w, t, n).animations.dom() == w.animations.dom(),
        after_players(w, t, n).velocities.dom() == w.velocities.dom(),
    decreases n,
{
    if n > 0 {
        lemma_players_stay(w, t, (n - 1) as nat);
        let before = after_players(w, t, (n - 1) as nat);
        let e = Entity((n - 1) as usize);
        if before.is_player(t, e) {
            let after = after_player(before, t, e);
            assert(after.states.dom() =~= before.states.dom());
            assert(after.animations.dom() =~= before.animations.dom());
            assert(after.velocities.dom() =~= before.velocities.dom());
        }
    }
}

/// Beyond the identifiers of all players the count does not matter.
pub proof fn lemma_players_covered(w: Players, t: Tick, n: nat, m: nat)
    requires
        w.below(n),
        n <= m <= usize::MAX,
    ensures
        after_players(w, t, m) == after_players(w, t, n),
    decreases m,
{
    if m > n {
        lemma_players_covered(w, t, n, (m - 1) as nat);
        lemma_players_stay(w, t, n);
        let e = Entity((m - 1) as usize);
        assert(!w.states.contains_key(e));
        assert(!w.states.dom().contains(e));
        assert(!after_players(w, t, n).states.contains_key(e));
    }
}

/// The tick of the entity `entity`, if it is a player.
pub fn run_player(entity: Entity, c: &mut Components, r: &mut Ressources, collisions: &Collisions)
    ensures
        players_of(final(c), final(r)) == (if players_of(old(c), old(r)).is_player(
            tick_of(old(c), old(r), collisions),
            entity,
        ) {
            after_player(
                players_of(old(c), old(r)),
                tick_of(old(c), old(r), collisions),
                entity,
            )
        } else {
            players_of(old(c), old(r))
        }),
        same_besides_players(final(c), final(r), old(c), old(r)),
{
    let ghost w = players_of(c, r);
    let ghost t = tick_of(c, r, collisions);
    let (mut state, mut animation, player_animations, mut velocity) = match (
        c.player_state.get_copied(entity),
        c.animations.get_copied(entity),
        c.player_animations.get_copied(entity),
        c.velocities.get_copied(entity),
    ) {
        (Some(state), Some(animation), Some(player_animations), Some(velocity)) => (
            state,
            animation,
            player_animations,
            velocity,
        ),
        _ => {
            return ;
        },
    };
    let grounded = c.grounded.contains(entity);
    let wall_collision = c.wall_collisions.contains(entity);
    let fps = r.time.fps();
    let ghost p = w.player(entity);
    let ghost s = t.signals(entity);

    let hit = match state {
        PlayerState::Grounded | PlayerState::Airborne => on_player_damage(
            entity,
            &collisions.player_damage,
        ),
        PlayerState::Dying | PlayerState::Dead => None,
    };
    if let Some(new_state) = hit {
        initialize_state(
            new_state,
            entity,
            &mut velocity,
            &mut animation,
            &player_animations,
            &mut c.ignore_bridges,
            &mut r.fadeout,
            &mut r.delayed_actions,
        );
        state = new_state;
    }
    let ghost damaged_player = after_damage(p, s);
    assert(state == damaged_player.state && velocity == damaged_player.velocity && animation == damaged_player.animation);

    match state {
        PlayerState::Grounded | PlayerState::Airborne => {
            let direction = r.input_state.axis(r.config.input.left, r.config.input.right);

            if direction < -(UNIT / 2) {
                c.mirrored.insert(entity, Mirrored);
            } else if direction > UNIT / 2 {
                c.mirrored.remove(entity);
            }
            let acceleration: i64 = per_tick(
                if state == PlayerState::Grounded {
                    r.config.player.grounded_acceleration
                } else {
                    r.config.player.airborne_acceleration
                },
                fps,
            ) as i64;

            let target_speed: i64 = div_i64(
                mul_i32(r.config.player.movement_speed, direction),
                UNIT as u32,
            );
            let speed_difference: i64 = target_speed - velocity.x as i64;
            let distance: i64 = if speed_difference >= 0 {
                speed_difference
            } else {
                -speed_difference
            };
            let step: i64 = if acceleration >= 0 {
                acceleration
            } else {
                -acceleration
            };

            velocity.x = saturate(
                if distance > acceleration {
                    if speed_difference >= 0 {
                        velocity.x as i64 + step
                    } else {
                        velocity.x as i64 - step
                    }
                } else {
                    target_speed
                },
            );
        },
        PlayerState::Dying | PlayerState::Dead => (),
    }
    let ghost moved_player = after_locomotion(damaged_player, s, t.config, t.fps);
    assert(state == moved_player.state && velocity == moved_player.velocity && animation == moved_player.animation);

    let next = match state {
        PlayerState::Grounded => {
            if !grounded {
                Some(PlayerState::Airborne)
            } else {
                None
            }
        },
        PlayerState::Airborne => {
            if grounded {
                Some(PlayerState::Grounded)
            } else {
                None
            }
        },
        PlayerState::Dying | PlayerState::Dead => None,
    };
    if let Some(new_state) = next {
        initialize_state(
            new_state,
            entity,
            &mut velocity,
            &mut animation,
            &player_animations,
            &mut c.ignore_bridges,
            &mut r.fadeout,
            &mut r.delayed_actions,
        );
        state = new_state;
    }
    let ghost placed_player = after_transition(moved_player, s, player_animations);
    assert(state == placed_player.state && velocity == placed_player.velocity && animation == placed_player.animation);

    let jump = match state {
        PlayerState::Grounded => maybe_jump(&mut r.pressed_space),
        PlayerState::Airborne | PlayerState::Dying | PlayerState::Dead => false,
    };
    if jump {
        velocity.y = r.config.player.jump_speed;
        animation = AnimationState::start(player_animations.jumping);

        state = PlayerState::Airborne;
    }
    let ghost jumped_player = after_jump(placed_player, jump, player_animations, t.config);
    assert(state == jumped_player.state && velocity == jumped_player.velocity && animation == jumped_player.animation);

    match state {
        PlayerState::Grounded | PlayerState::Airborne => {
            if r.input_state.key(r.config.input.down) == KeyState::Down {
                c.ignore_bridges.insert(entity, IgnoreBridges);
            } else {
                c.ignore_bridges.remove(entity);
            }
        },
        PlayerState::Dying | PlayerState::Dead => (),
    }

    if state == PlayerState::Airborne && velocity.y <= 0 && animation.current
        == player_animations.jumping {
        animation = AnimationState::start(player_animations.start_falling);
    }
    if animation.current == player_animations.run_into_obstacle && !wall_collision {
        animation = AnimationState::start(player_animations.idle);
    }
    if state == PlayerState::Grounded {
        if velocity.x >= RUNNING_THRESHOLD || velocity.x <= -RUNNING_THRESHOLD {
            if animation.current == player_animations.idle {
                animation = AnimationState::start(player_animations.running);
            }
        } else if animation.current == player_animations.running {
            if wall_collision {
                animation = AnimationState::start(player_animations.run_into_obstacle);
            } else {
                animation = AnimationState::start(player_animations.idle);
            }
        }
    }
    c.player_state.insert(entity, state);
    c.animations.insert(entity, animation);
    c.velocities.insert(entity, velocity);
    proof {
        let q = stepped(p, s, w.pressed_space is Some, player_animations, t.config, t.fps);
        assert(state == q.state);
        assert(velocity == q.velocity);
        assert(animation == q.animation);
        assert(c.mirrored@ =~= after_player(w, t, entity).mirrored);
        assert(c.ignore_bridges@ =~= after_player(w, t, entity).ignore_bridges);
    }
}

/// Drives the state, the velocity and the animation of the players.
#[derive(Debug)]
pub struct PlayerStateMachine;

impl PlayerStateMachine {
    /// The tick of every player, in the ascending order of the identifiers.
    pub fn run(&mut self, c: &mut Components, r: &mut Ressources, collisions: &Collisions)
        ensures
            forall|n: usize| #[trigger]
                players_of(old(c), old(r)).below(n as nat) ==> players_of(final(c), final(r))
                    == after_players(
                    players_of(old(c), old(r)),
                    tick_of(old(c), old(r), collisions),
                    n as nat,
                ),
            same_besides_players(final(c), final(r), old(c), old(r)),
    {
        let ghost w = players_of(c, r);
        let ghost t = tick_of(c, r, collisions);
        let bound = c.player_state.bound();
        let mut i: usize = 0;
        while i < bound
            invariant
                i <= bound,
                w.below(bound as nat),
                players_of(c, r) == after_players(w, t, i as nat),
                tick_of(c, r, collisions) == t,
                same_besides_players(c, r, old(c), old(r)),
            decreases bound - i,
        {
            run_player(Entity(i), c, r, collisions);
            i += 1;
        }
        proof {
            assert forall|n: usize| #[trigger] w.below(n as nat) implies players_of(c, r)
                == after_players(w, t, n as nat) by {
                if n <= bound {
                    lemma_players_covered(w, t, n as nat, bound as nat);
                } else {
                    lemma_players_covered(w, t, bound as nat, n as nat);
                }
            }
        }
    }
}

} // verus!
