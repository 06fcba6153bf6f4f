//! Units of measurement and the bounds inside which the arithmetic is exact.
//!
//! Lengths are counted in billionths of a pixel, speeds in thousandths of a
//! pixel per second and times in microseconds. A speed multiplied by a time
//! is then a length, with no division and no rounding.

use vstd::prelude::*;

verus! {

/// Length units in one pixel.
pub const PIXEL: i64 = 1_000_000_000;

/// Speed units in one pixel per second.
pub const PIXEL_PER_SECOND: i64 = 1_000;

/// Time units (microseconds) in one second.
pub const SECOND: u32 = 1_000_000;

/// Largest side a shape may have.
pub const MAX_SIZE: i64 = 100_000_000_000_000_000;

/// Largest speed a shape may have.
pub const MAX_SPEED: i64 = 1_000_000_000;

/// Largest width or height of a viewport.
pub const MAX_EXTENT: i64 = 100_000_000_000_000_000;

/// Largest distance from the origin, along either axis, at which a shape may
/// rest between two frames.
pub const MAX_COORD: i64 = 1_000_000_000_000_000_000;

/// Largest distance from the origin, along either axis, that a shape can
/// reach within one frame: a resting position plus the fastest motion over
/// the longest frame.
pub const REACH: i64 = 6_000_000_000_000_000_000;

/// A length in whole pixels, rounded to the nearest, halves away from zero.
pub open spec fn rounded_pixels(length: int) -> int {
    if length >= 0 {
        (length + PIXEL / 2) / (PIXEL as int)
    } else {
        -((-length + PIXEL / 2) / (PIXEL as int))
    }
}

/// Rounds a positive length to whole pixels.
pub fn round_to_pixels(length: i64) -> (pixels: u32)
    requires
        0 <= length <= MAX_SIZE,
    ensures
        pixels == rounded_pixels(length as int),
{
    let whole: i64 = (length + PIXEL / 2) / PIXEL;
    whole as u32
}

/// The fastest motion over the longest frame stays within reach of any
/// resting position.
pub proof fn lemma_displacement_within_reach(speed: int, dt: int)
    requires
        0 <= speed <= MAX_SPEED,
        0 <= dt <= u32::MAX,
    ensures
        0 <= speed * dt <= REACH - MAX_COORD,
{
    assert(0 <= speed * dt <= 1_000_000_000 * 4_294_967_295) by (nonlinear_arith)
        requires
            0 <= speed <= 1_000_000_000,
            0 <= dt <= 4_294_967_295,
    ;
}

} // verus!
