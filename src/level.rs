//! Volume levels, in millionths of full scale.
use vstd::prelude::*;

verus! {

/// The level of a device at full volume; silence is 0.
pub const LEVEL_SCALE: u32 = 1_000_000;

/// Whether a requested level lies in `0 ..= LEVEL_SCALE`.
pub open spec fn valid_level(level: i64) -> bool {
    0 <= level <= LEVEL_SCALE
}

/// Whether a requested level lies in `0 ..= LEVEL_SCALE`.
pub fn level_is_valid(level: i64) -> (r: bool)
    ensures
        r == valid_level(level),
{
    0 <= level && level <= LEVEL_SCALE as i64
}

} // verus!
