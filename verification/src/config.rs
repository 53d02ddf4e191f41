//! The settings of a game, as plain values. Speeds and accelerations are in
//! world units per second and per second squared.

use crate::input::Key;
use vstd::prelude::*;

verus! {

#[derive(Debug)]
pub struct GameConfig {
    pub fps: u32,
    pub window: WindowConfig,
    pub input: InputConfig,
    pub camera: CameraConfig,
    pub gravity: GravityConfig,
    pub input_buffer: InputBufferConfig,
    pub player: PlayerConfig,
}

#[derive(Debug)]
pub struct WindowConfig {
    /// The size of the view in pixels.
    pub size: (u32, u32),
    /// The number of screen pixels per pixel of the view.
    pub scale: u32,
    pub title: String,
    pub icon_path: String,
}

#[derive(Debug, Clone, Copy)]
pub struct InputConfig {
    pub up: Key,
    pub down: Key,
    pub right: Key,
    pub left: Key,
    pub jump: Key,
    pub debug_toggle: Key,
    pub editor_tile: Key,
}

#[derive(Debug, Clone, Copy)]
pub struct CameraConfig {
    /// Where the camera stands relative to what it follows.
    pub offset: (i32, i32),
}

#[derive(Debug, Clone, Copy)]
pub struct PlayerConfig {
    pub jump_speed: i32,
    pub movement_speed: i32,
    pub grounded_acceleration: i32,
    pub airborne_acceleration: i32,
}

impl Default for PlayerConfig {
    fn default() -> (c: Self)
        ensures
            c.jump_speed == 280_000,
            c.movement_speed == 100_000,
            c.grounded_acceleration == 850_000,
            c.airborne_acceleration == 250_000,
    {
        PlayerConfig {
            jump_speed: 280_000,
            movement_speed: 100_000,
            grounded_acceleration: 850_000,
            airborne_acceleration: 250_000,
        }
    }
}

#[derive(Debug, Clone, Copy)]
pub struct GravityConfig {
    /// The change of the vertical velocity per second; negative pulls down.
    pub acceleration: i32,
    /// The vertical velocity below which gravity does not push.
    pub terminal_velocity: i32,
}

impl Default for GravityConfig {
    fn default() -> (c: Self)
        ensures
            c.acceleration == -480_000,
            c.terminal_velocity == -180_000,
    {
        GravityConfig { acceleration: -480_000, terminal_velocity: -180_000 }
    }
}

#[derive(Debug, Clone, Copy)]
pub struct InputBufferConfig {
    /// For how many frames a press of the jump key is remembered.
    pub jump_buffer_frames: u8,
}

impl Default for InputBufferConfig {
    fn default() -> (c: Self)
        ensures
            c.jump_buffer_frames == 3,
    {
        InputBufferConfig { jump_buffer_frames: 3 }
    }
}

#[derive(Debug, Clone, Copy, PartialEq, Eq)]
pub struct SpriteConfig {
    pub position: (u32, u32),
    pub size: (u32, u32),
    pub offset: (i32, i32),
}

#[derive(Debug)]
pub struct SpriteSheetConfig {
    pub image_path: String,
    pub sprites: Vec<SpriteConfig>,
}

#[derive(Debug, Clone, Copy)]
pub struct FrameConfig {
    pub spritesheet: usize,
    pub sprite: usize,
    /// For how many sixtieths of a second the frame is shown.
    pub duration: usize,
}

#[derive(Debug)]
pub struct PlayerAnimationsConfig {
    pub spritesheets: Vec<String>,
    pub idle: Vec<FrameConfig>,
    pub running: Vec<FrameConfig>,
    pub run_into_obstacle: Vec<FrameConfig>,
    pub jumping: Vec<FrameConfig>,
    pub start_falling: Vec<FrameConfig>,
    pub falling: Vec<FrameConfig>,
}

} // verus!
