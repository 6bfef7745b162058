use vstd::prelude::*;

pub mod codec;
pub mod mime;
pub mod pipeline;
pub mod shuffle;
pub mod raster;
pub mod rng;

verus! {

/// The three compression-effort tiers the PNG encoder understands.
#[derive(Clone, Copy, PartialEq, Eq, Structural, Debug)]
pub enum Tier {
    Fast,
    Default,
    Best,
}

/// Which tier a caller-supplied compression level selects: levels 0-3 map
/// to `Fast`, 4-6 to `Default`, and everything above to `Best`.
pub open spec fn tier_of(level: u8) -> Tier {
    if level <= 3 {
        Tier::Fast
    } else if level <= 6 {
        Tier::Default
    } else {
        Tier::Best
    }
}

/// Maps a compression level on the 0-10 scale to an encoder tier.
/// Levels above 10 are out of range for callers; they behave as `Best`.
pub fn resolve_tier(level: u8) -> (t: Tier)
    ensures
        t == tier_of(level),
{
    if level <= 3 {
        Tier::Fast
    } else if level <= 6 {
        Tier::Default
    } else {
        Tier::Best
    }
}

} // verus!
