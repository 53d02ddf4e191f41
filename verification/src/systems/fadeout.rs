//! The fading of the view.

use crate::ressources::Fadeout;
use crate::units::{clamp_i32, div_toward_zero, saturate, UNIT};
use vstd::prelude::*;

verus! {

/// The fading one frame later: what is left to full darkness shrinks by its
/// share for one of the frames that are left. A fading with no frame left
/// stays as it is.
pub open spec fn faded(f: Fadeout) -> Fadeout {
    if f.frames_left > 0 {
        Fadeout {
            current: clamp_i32(
                f.current + div_toward_zero(UNIT - f.current, f.frames_left as int),
            ) as i32,
            frames_left: (f.frames_left - 1) as usize,
        }
    } else {
        f
    }
}

#[derive(Debug)]
pub struct FadeoutSystem;

impl FadeoutSystem {
    /// Fades by one frame, if the view is fading.
    pub fn run(&mut self, fadeout: &mut Option<Fadeout>)
        ensures
            *final(fadeout) == (match *old(fadeout) {
                Some(f) => Some(faded(f)),
                None => None,
            }),
    {
        if let Some(f) = *fadeout {
            if f.frames_left > 0 {
                let diff: i64 = UNIT as i64 - f.current as i64;
                let step: i64 = if f.frames_left > 0xffff_ffff {
                    proof {
                        let d = if diff >= 0 {
                            diff as int
                        } else {
                            -diff as int
                        };
                        vstd::arithmetic::div_mod::lemma_basic_div(d, f.frames_left as int);
                    }
                    0
                } else {
                    crate::units::div_i64(diff, f.frames_left as u32)
                };
                *fadeout = Some(
                    Fadeout {
                        current: saturate(f.current as i64 + step),
                        frames_left: f.frames_left - 1,
                    },
                );
            }
        }
    }
}

} // verus!
