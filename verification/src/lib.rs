//! Simulation core of a 2D platformer: an entity-component world that is
//! stepped once per fixed tick.
//!
//! Every quantity of the world is a fixed-point integer (see [`units`]), so a
//! tick is a deterministic function of the world before it and of the decoded
//! input, and each system states that function in its contract.

pub mod animation;
pub mod config;
pub mod data;
pub mod ecs;
pub mod environment;
pub mod frame;
pub mod init;
pub mod input;
pub mod physics;
pub mod ressources;
pub mod save;
pub mod scene;
pub mod systems;
pub mod time;
pub mod units;

pub use crate::frame::{game_frame, FrameOutcome};
