//! The systems that make up one tick, in the order in which they run.

pub mod animation;
pub mod bridge_collision;
pub mod camera;
pub mod editor;
pub mod fadeout;
pub mod fixed_collision;
pub mod gravity;
pub mod input_buffer;
pub mod physics;
pub mod player;

use crate::environment::chunk::Tile;
use crate::environment::EnvironmentSystem;
use crate::ressources::{Action, DelayedAction, Ressources};
use crate::systems::animation::AnimationSystem;
use crate::systems::bridge_collision::BridgeCollisionSystem;
use crate::systems::camera::CameraSystem;
use crate::systems::editor::EditorSystem;
use crate::systems::fadeout::FadeoutSystem;
use crate::systems::fixed_collision::FixedCollisionSystem;
use crate::systems::gravity::GravitySystem;
use crate::systems::input_buffer::InputBufferSystem;
use crate::systems::physics::PhysicsSystem;
use crate::systems::player::PlayerStateMachine;
use vstd::prelude::*;

verus! {

/// The delayed actions that are not yet due, each one frame nearer, in
/// their order.
pub open spec fn still_waiting(actions: Seq<DelayedAction>) -> Seq<DelayedAction>
    decreases actions.len(),
{
    if actions.len() == 0 {
        Seq::empty()
    } else {
        let rest = still_waiting(actions.drop_last());
        let last = actions.last();
        if last.frames_left > 0 {
            rest.push(
                DelayedAction { frames_left: (last.frames_left - 1) as usize, action: last.action },
            )
        } else {
            rest
        }
    }
}

/// The actions that are due, in their order: those with no frame left.
pub open spec fn due(actions: Seq<DelayedAction>) -> Seq<Action>
    decreases actions.len(),
{
    if actions.len() == 0 {
        Seq::empty()
    } else {
        let rest = due(actions.drop_last());
        let last = actions.last();
        if last.frames_left > 0 {
            rest
        } else {
            rest.push(last.action)
        }
    }
}

/// Every system of the game.
#[derive(Debug)]
pub struct Systems {
    pub input_buffer: InputBufferSystem,
    pub camera: CameraSystem,
    pub gravity: GravitySystem,
    pub physics: PhysicsSystem,
    pub bridge_collision: BridgeCollisionSystem,
    pub fadeout: FadeoutSystem,
    pub fixed_collision: FixedCollisionSystem,
    pub player: PlayerStateMachine,
    pub environment: EnvironmentSystem,
    pub animation: AnimationSystem,
    pub lazy_update: LazyUpdateSystem,
    pub editor: EditorSystem,
}

impl Default for Systems {
    fn default() -> (s: Self)
        ensures
            s.physics.found().fixed@.len() == 0,
            s.physics.found().bridge@.len() == 0,
            s.physics.found().player_damage@.len() == 0,
            s.editor.chosen_tile() == Tile::Solid,
    {
        Systems::new()
    }
}

impl Systems {
    pub fn new() -> (s: Self)
        ensures
            s.physics.found().fixed@.len() == 0,
            s.physics.found().bridge@.len() == 0,
            s.physics.found().player_damage@.len() == 0,
            s.editor.chosen_tile() == Tile::Solid,
    {
        Systems {
            input_buffer: InputBufferSystem,
            camera: CameraSystem,
            gravity: GravitySystem,
            physics: PhysicsSystem::new(),
            bridge_collision: BridgeCollisionSystem,
            fadeout: FadeoutSystem,
            fixed_collision: FixedCollisionSystem::new(),
            player: PlayerStateMachine,
            environment: EnvironmentSystem,
            animation: AnimationSystem,
            lazy_update: LazyUpdateSystem,
            editor: EditorSystem::new(),
        }
    }

    /// Lets one frame pass for the delayed actions. The actions that are
    /// due are taken out and returned for the host to perform, in their
    /// order; the others are one frame nearer.
    pub fn delayed_actions(&mut self, r: &mut Ressources) -> (now: Vec<Action>)
        ensures
            now@ == due(old(r).delayed_actions@),
            final(r).delayed_actions@ == still_waiting(old(r).delayed_actions@),
            final(r).input_state == old(r).input_state,
            final(r).time == old(r).time,
            final(r).config == old(r).config,
            final(r).pressed_space == old(r).pressed_space,
            final(r).world == old(r).world,
            final(r).fadeout == old(r).fadeout,
            final(r).last_save == old(r).last_save,
            final(r).debug_draw == old(r).debug_draw,
            final(r).lazy_update == old(r).lazy_update,
            *final(self) == *old(self),
    {
        let ghost actions = r.delayed_actions@;
        let mut waiting: Vec<DelayedAction> = Vec::new();
        let mut now: Vec<Action> = Vec::new();
        let mut i: usize = 0;
        while i < r.delayed_actions.len()
            invariant
                i <= actions.len(),
                r.delayed_actions@ == actions,
                waiting@ == still_waiting(actions.take(i as int)),
                now@ == due(actions.take(i as int)),
                r.input_state == old(r).input_state,
                r.time == old(r).time,
                r.config == old(r).config,
                r.pressed_space == old(r).pressed_space,
                r.world == old(r).world,
                r.fadeout == old(r).fadeout,
                r.last_save == old(r).last_save,
                r.debug_draw == old(r).debug_draw,
                r.lazy_update == old(r).lazy_update,
            decreases actions.len() - i,
        {
            let a = r.delayed_actions[i];
            proof {
                assert(actions.take(i + 1).drop_last() =~= actions.take(i as int));
                assert(actions.take(i + 1).last() == a);
            }
            if a.frames_left > 0 {
                waiting.push(DelayedAction { frames_left: a.frames_left - 1, action: a.action });
            } else {
                now.push(a.action);
            }
            i += 1;
        }
        assert(actions.take(actions.len() as int) =~= actions);
        r.delayed_actions = waiting;
        now
    }
}

/// Hands out the actions that wait for the end of the frame.
#[derive(Debug)]
pub struct LazyUpdateSystem;

impl LazyUpdateSystem {
    /// Takes out the actions that wait for the end of the frame and
    /// returns them for the host to perform, in their order.
    pub fn run(&mut self, r: &mut Ressources) -> (now: Vec<Action>)
        ensures
            now@ == old(r).lazy_update@,
            final(r).lazy_update@.len() == 0,
            final(r).delayed_actions == old(r).delayed_actions,
            final(r).input_state == old(r).input_state,
            final(r).time == old(r).time,
            final(r).config == old(r).config,
            final(r).pressed_space == old(r).pressed_space,
            final(r).world == old(r).world,
            final(r).fadeout == old(r).fadeout,
            final(r).last_save == old(r).last_save,
            final(r).debug_draw == old(r).debug_draw,
    {
        let mut now: Vec<Action> = Vec::new();
        core::mem::swap(&mut r.lazy_update, &mut now);
        now
    }
}

} // verus!
