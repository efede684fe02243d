//! Per-instance behavioral toggles reproducing divergence between historical
//! target platform variants. Fixed for the life of a CPU instance.

use vstd::prelude::*;

verus! {

/// Five independent toggles. Each changes the semantics, not the shape, of
/// specific operations.
#[derive(Clone, Copy, PartialEq, Eq, Structural, Debug)]
pub struct Quirks {
    /// Shift instructions operate on the Y register's value instead of X's.
    pub shift_vy: bool,
    /// Bitwise Or/And/XOr force the flag register to 0.
    pub reset_vf: bool,
    /// Memory-transfer instructions advance the pointer register afterwards.
    pub increment_ptr: bool,
    /// Draw and clear stall the CPU until the next frame tick.
    pub video_wait: bool,
    /// Sprites are clipped at the screen edge instead of wrapping around.
    pub clip_sprites: bool,
}

impl Default for Quirks {
    /// The default variant enables every quirk.
    fn default() -> (q: Quirks)
        ensures
            q.shift_vy,
            q.reset_vf,
            q.increment_ptr,
            q.video_wait,
            q.clip_sprites,
    {
        Quirks {
            shift_vy: true,
            reset_vf: true,
            increment_ptr: true,
            video_wait: true,
            clip_sprites: true,
        }
    }
}

} // verus!
