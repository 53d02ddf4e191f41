//! What is kept of a game between two runs.

use crate::data::Position;
use vstd::prelude::*;

verus! {

#[derive(Debug, Clone, Copy)]
pub struct SaveData {
    /// Where the player stands.
    pub position: Position,
}

} // verus!
