//! The smoke that rises from the cauldron after a delivery.
//!
//! The rules fix how many puffs one burst has and which frames of the smoke
//! sheet a puff may show. Which frame each puff shows is left to chance;
//! where the puffs start and how they drift is left to the renderer.

use vstd::prelude::*;
use rand::Rng;
use crate::progress::Effect;

verus! {

/// Number of frames on the smoke sprite sheet.
pub const SMOKE_FRAMES: u32 = 4;

/// Number of puffs in one burst of smoke.
pub const PUFFS_PER_BURST: usize = 10;

/// One puff of smoke: the frame it shows, and the effect that tints it.
#[derive(Clone, Copy, Debug, PartialEq, Eq, Structural)]
pub struct Puff {
    pub frame: u32,
    pub tint: Effect,
}

/// Draws a number below `bound` from the thread's random generator, by
/// `rand::Rng::gen_range` over the half-open range from 0 to `bound`.
///
/// Trusted: the number drawn lies in the range asked for. `gen_range`
/// panics on an empty range, which `bound > 0` rules out. Nothing is
/// claimed about which number comes, nor that two calls agree.
#[verifier::external_body]
fn draw_below(bound: u32) -> (n: u32)
    requires
        bound > 0,
    ensures
        n < bound,
{
    rand::thread_rng().gen_range(0..bound)
}

/// A burst of smoke for `tint`: ten puffs, each on a frame of the smoke
/// sheet that chance picked.
pub fn smoke(tint: Effect) -> (puffs: Vec<Puff>)
    ensures
        puffs@.len() == PUFFS_PER_BURST,
        forall|i: int|
            0 <= i < puffs@.len() ==> (#[trigger] puffs@[i]).frame < SMOKE_FRAMES && puffs@[i].tint
                == tint,
{
    let mut puffs: Vec<Puff> = Vec::new();
    let mut i: usize = 0;
    while i < PUFFS_PER_BURST
        invariant
            i <= PUFFS_PER_BURST,
            puffs@.len() == i,
            forall|j: int|
                0 <= j < puffs@.len() ==> (#[trigger] puffs@[j]).frame < SMOKE_FRAMES
                    && puffs@[j].tint == tint,
        decreases PUFFS_PER_BURST - i,
    {
        let frame = draw_below(SMOKE_FRAMES);
        puffs.push(Puff { frame, tint });
        i = i + 1;
    }
    puffs
}

} // verus!
