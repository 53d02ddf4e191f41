//! The buffer of the jump key.
//!
//! A press of the jump key is remembered for some frames, so that a jump
//! that was asked for shortly before landing still happens.

use crate::config::{InputBufferConfig, InputConfig};
use crate::input::InputEvent;
use crate::ressources::JumpBuffer;
use vstd::prelude::*;

verus! {

/// The buffer one frame later, without a new press: it has one frame less
/// left, and none is left of a buffer that had no frame left.
pub open spec fn aged(space: Option<JumpBuffer>) -> Option<JumpBuffer> {
    match space {
        Some(JumpBuffer(c)) if c > 0 => Some(JumpBuffer((c - 1) as u8)),
        _ => None,
    }
}

/// The buffer after a frame with the changes `events`: filled anew if the
/// jump key went down, else one frame older.
pub open spec fn buffered(
    events: Seq<InputEvent>,
    space: Option<JumpBuffer>,
    buffer_config: InputBufferConfig,
    input_config: InputConfig,
) -> Option<JumpBuffer> {
    if events.contains(InputEvent::KeyDown(input_config.jump)) {
        Some(JumpBuffer(buffer_config.jump_buffer_frames))
    } else {
        aged(space)
    }
}

#[derive(Debug)]
pub struct InputBufferSystem;

impl InputBufferSystem {
    /// Ages the buffer by one frame, and fills it anew if the jump key went
    /// down in this frame.
    pub fn run(
        &mut self,
        events: &[InputEvent],
        space: &mut Option<JumpBuffer>,
        buffer_config: &InputBufferConfig,
        input_config: &InputConfig,
    )
        ensures
            *final(space) == buffered(events@, *old(space), *buffer_config, *input_config),
    {
        if let Some(JumpBuffer(c)) = *space {
            *space = if c > 0 {
                Some(JumpBuffer(c - 1))
            } else {
                None
            };
        }
        let mut i: usize = 0;
        while i < events.len()
            invariant
                i <= events.len(),
                *space == (if events@.take(i as int).contains(
                    InputEvent::KeyDown(input_config.jump),
                ) {
                    Some(JumpBuffer(buffer_config.jump_buffer_frames))
                } else {
                    aged(*old(space))
                }),
            decreases events.len() - i,
        {
            if events[i] == InputEvent::KeyDown(input_config.jump) {
                *space = Some(JumpBuffer(buffer_config.jump_buffer_frames));
            }
            proof {
                let key_down = InputEvent::KeyDown(input_config.jump);
                let a = events@.take(i as int);
                let b = events@.take(i + 1);
                assert(b =~= a.push(events@[i as int]));
                if a.contains(key_down) {
                    let j = choose|j: int| 0 <= j < a.len() && a[j] == key_down;
                    assert(b[j] == key_down);
                }
                if b.contains(key_down) {
                    let j = choose|j: int| 0 <= j < b.len() && b[j] == key_down;
                    if j < i {
                        assert(a[j] == key_down);
                    }
                }
                if events@[i as int] == key_down {
                    assert(b[i as int] == key_down);
                }
            }
            i += 1;
        }
        assert(events@.take(events@.len() as int) =~= events@);
    }
}

} // verus!
