//! What the systems share besides the components.

use crate::config::GameConfig;
use crate::environment::{World, WorldData};
use crate::input::InputState;
use crate::save::SaveData;
use crate::time::Time;
use vstd::prelude::*;

verus! {

/// A press of the jump key that is remembered for this many more frames.
#[derive(Debug, Clone, Copy, PartialEq, Eq, Structural)]
pub struct JumpBuffer(pub u8);

/// The fading of the view to black: `current` goes from 0 to `UNIT` while
/// `frames_left` goes to 0.
#[derive(Debug, Clone, Copy, PartialEq, Eq, Structural)]
pub struct Fadeout {
    pub current: i32,
    pub frames_left: usize,
}

/// What the host is to do when a [`DelayedAction`] is due.
#[derive(Debug, Clone, Copy, PartialEq, Eq, Structural)]
pub enum Action {
    /// Delete every entity, reset the resources, and set up player, camera
    /// and environment anew.
    ResetWorld,
}

/// An action that is due after `frames_left` more frames.
#[derive(Debug, Clone, Copy, PartialEq, Eq, Structural)]
pub struct DelayedAction {
    pub frames_left: usize,
    pub action: Action,
}

pub struct Ressources {
    pub input_state: InputState,
    pub time: Time,
    pub config: GameConfig,
    pub pressed_space: Option<JumpBuffer>,
    pub world: World,
    pub fadeout: Option<Fadeout>,
    pub delayed_actions: Vec<DelayedAction>,
    /// The actions that wait for the end of the frame.
    pub lazy_update: Vec<Action>,
    pub last_save: SaveData,
    pub debug_draw: bool,
}

impl Ressources {
    pub fn new(config: GameConfig, world_data: WorldData, last_save: SaveData) -> (r: Ressources)
        requires
            config.fps > 0,
        ensures
            r.config == config,
            r.time.ticks_per_second() == config.fps,
            r.time.frames() == 0,
            r.input_state.held_keys().len() == 0,
            r.input_state.held_buttons().len() == 0,
            r.input_state.changes().len() == 0,
            r.input_state.cursor() == (0i32, 0i32),
            r.pressed_space is None,
            r.world.data == world_data,
            r.world.chunks@.len() == 0,
            r.fadeout is None,
            r.delayed_actions@.len() == 0,
            r.lazy_update@.len() == 0,
            r.last_save == last_save,
            !r.debug_draw,
    {
        Ressources {
            input_state: InputState::new(),
            time: Time::new(config.fps),
            config,
            pressed_space: None,
            world: World::new(world_data),
            fadeout: None,
            delayed_actions: Vec::new(),
            lazy_update: Vec::new(),
            last_save,
            debug_draw: false,
        }
    }

    /// Ends the fading, drops the delayed actions and forgets the loaded
    /// chunks.
    pub fn reset(&mut self)
        ensures
            final(self).fadeout is None,
            final(self).delayed_actions@.len() == 0,
            final(self).world.chunks@.len() == 0,
            final(self).world.data == old(self).world.data,
            final(self).input_state == old(self).input_state,
            final(self).time == old(self).time,
            final(self).config == old(self).config,
            final(self).pressed_space == old(self).pressed_space,
            final(self).last_save == old(self).last_save,
            final(self).debug_draw == old(self).debug_draw,
            final(self).lazy_update == old(self).lazy_update,
    {
        self.fadeout = None;
        self.delayed_actions.clear();
        self.world.reset();
    }
}

} // verus!
