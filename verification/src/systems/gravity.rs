//! Gravity.

use crate::config::GravityConfig;
use crate::data::{Gravity, Velocity};
use crate::ecs::{Entity, Storage};
use crate::time::Time;
use crate::units::{clamp_i32, per_tick, per_tick_spec, saturate};
use vstd::prelude::*;

verus! {

/// The velocity `v` after gravity has pulled for one tick: the vertical
/// velocity changes by the acceleration of one tick, but gravity leaves it
/// at the terminal velocity at least.
pub open spec fn pulled(v: Velocity, config: GravityConfig, fps: u32) -> Velocity {
    let y = clamp_i32(v.y + per_tick_spec(config.acceleration as int, fps as int));
    Velocity {
        x: v.x,
        y: if y < config.terminal_velocity {
            config.terminal_velocity
        } else {
            y as i32
        },
    }
}

/// The velocities after gravity has pulled, for one tick, every entity that
/// is subject to it.
pub open spec fn gravitated(
    velocities: Map<Entity, Velocity>,
    gravity: Map<Entity, Gravity>,
    config: GravityConfig,
    fps: u32,
) -> Map<Entity, Velocity> {
    Map::new(
        |e: Entity| velocities.contains_key(e),
        |e: Entity|
            if gravity.contains_key(e) {
                pulled(velocities[e], config, fps)
            } else {
                velocities[e]
            },
    )
}

#[derive(Debug)]
pub struct GravitySystem;

impl GravitySystem {
    /// Pulls every entity that is subject to gravity and has a velocity.
    pub fn run(
        &mut self,
        gravity: &Storage<Gravity>,
        velocities: &mut Storage<Velocity>,
        time: &Time,
        gravity_config: &GravityConfig,
    )
        ensures
            final(velocities)@ == gravitated(
                old(velocities)@,
                gravity@,
                *gravity_config,
                time.ticks_per_second(),
            ),
    {
        let fps = time.fps();
        let n = velocities.bound();
        let ghost start = velocities@;
        let mut i: usize = 0;
        while i < n
            invariant
                i <= n,
                fps > 0,
                forall|e: Entity| #[trigger] start.contains_key(e) ==> e.0 < n,
                velocities@ == Map::new(
                    |e: Entity| start.contains_key(e),
                    |e: Entity|
                        if e.0 < i && gravity@.contains_key(e) {
                            pulled(start[e], *gravity_config, fps)
                        } else {
                            start[e]
                        },
                ),
            decreases n - i,
        {
            let entity = Entity(i);
            if gravity.contains(entity) {
                if let Some(velocity) = velocities.get_copied(entity) {
                    let y = saturate(
                        velocity.y as i64 + per_tick(gravity_config.acceleration, fps) as i64,
                    );
                    let y = if y < gravity_config.terminal_velocity {
                        gravity_config.terminal_velocity
                    } else {
                        y
                    };
                    velocities.insert(entity, Velocity { x: velocity.x, y });
                }
            }
            i += 1;
            assert(velocities@ =~= Map::new(
                |e: Entity| start.contains_key(e),
                |e: Entity|
                    if e.0 < i && gravity@.contains_key(e) {
                        pulled(start[e], *gravity_config, fps)
                    } else {
                        start[e]
                    },
            ));
        }
        assert(velocities@ =~= gravitated(start, gravity@, *gravity_config, fps));
    }
}

} // verus!
