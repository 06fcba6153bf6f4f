//! The spawner: which obstacles enter the game, and when.
//!
//! Each frame one integer is drawn from `0..SPAWN_ROLLS`. A draw of
//! `SPAWN_THRESHOLD` or more lets one obstacle in. Its size, speed and
//! horizontal position are then drawn as fractions of their ranges.

use vstd::prelude::*;
use crate::shape::Shape;
use crate::viewport::Viewport;

verus! {

/// Number of outcomes of the per-frame draw.
pub const SPAWN_ROLLS: u32 = 100;

/// Smallest draw that lets an obstacle in.
pub const SPAWN_THRESHOLD: u32 = 95;

/// Number of equal steps into which a range is divided when a value is
/// drawn from it.
pub const FRACTION_STEPS: u32 = 1_048_576;

/// Smallest side of an obstacle: 16 pixels.
pub const MIN_OBSTACLE_SIZE: i64 = 16_000_000_000;

/// Upper end of the range of obstacle sides: 64 pixels.
pub const MAX_OBSTACLE_SIZE: i64 = 64_000_000_000;

/// Smallest speed of an obstacle: 50 pixels per second.
pub const MIN_OBSTACLE_SPEED: i64 = 50_000;

/// Upper end of the range of obstacle speeds: 150 pixels per second.
pub const MAX_OBSTACLE_SPEED: i64 = 150_000;

/// Draws an integer from `low..high` with `quad_rand`'s global generator,
/// through `macroquad::rand::gen_range`.
///
/// Trusted: the result lies in `low..high`. The generator takes a 32-bit
/// draw `k`, forms `low + (high - low) * (k / 2^32)` in double precision and
/// truncates. With `high` at most 2^21 every intermediate value is a
/// multiple of 2^-32 below 2^21 and so is exact, which puts the value in
/// `[low, high)` before truncation and the result in `low..high` after it.
/// Nothing is claimed about which value of the range comes out.
#[verifier::external_body]
fn random_in_range(low: u32, high: u32) -> (drawn: u32)
    requires
        low < high <= 2_097_152,
    ensures
        low <= drawn < high,
{
    macroquad::rand::gen_range(low, high)
}

/// Whether a per-frame draw lets an obstacle in.
pub open spec fn roll_spawns(roll: u32) -> bool {
    roll >= SPAWN_THRESHOLD
}

/// The point of `[low, high]` that lies `fraction` steps out of
/// `FRACTION_STEPS` from `low`, rounded down.
pub open spec fn interpolated(low: int, high: int, fraction: int) -> int {
    low + ((high - low) * fraction) / (FRACTION_STEPS as int)
}

/// An interpolated point lies in its range, and short of the upper end
/// unless the range is a single point.
pub proof fn lemma_interpolated_in_range(low: int, high: int, fraction: int)
    requires
        low <= high,
        0 <= fraction < FRACTION_STEPS,
    ensures
        low <= interpolated(low, high, fraction) <= high,
        low < high ==> interpolated(low, high, fraction) < high,
        fraction == 0 ==> interpolated(low, high, fraction) == low,
{
    let span = high - low;
    assert(0 <= span * fraction <= span * 1_048_575) by (nonlinear_arith)
        requires
            0 <= span,
            0 <= fraction <= 1_048_575,
    ;
    assert(fraction == 0 ==> span * fraction == 0) by (nonlinear_arith);
}

/// Tests whether a per-frame draw lets an obstacle in.
pub fn lets_in(roll: u32) -> (yes: bool)
    ensures
        yes == roll_spawns(roll),
{
    roll >= SPAWN_THRESHOLD
}

/// Computes an interpolated point.
pub fn interpolate(low: i64, high: i64, fraction: u32) -> (value: i64)
    requires
        low <= high,
        fraction < FRACTION_STEPS,
    ensures
        value == interpolated(low as int, high as int, fraction as int),
{
    let span: u128 = (high as i128 - low as i128) as u128;
    proof {
        lemma_interpolated_in_range(low as int, high as int, fraction as int);
        assert(span * fraction <= 0x1_0000_0000_0000_0000 * 1_048_575) by (nonlinear_arith)
            requires
                0 <= span <= 0x1_0000_0000_0000_0000,
                0 <= fraction <= 1_048_575,
        ;
    }
    let offset: u128 = span * (fraction as u128) / (FRACTION_STEPS as u128);
    (low as i128 + offset as i128) as i64
}

/// The obstacle that three drawn fractions describe: a side in
/// `[MIN_OBSTACLE_SIZE, MAX_OBSTACLE_SIZE)`, a speed in
/// `[MIN_OBSTACLE_SPEED, MAX_OBSTACLE_SPEED)`, and a centre placed so that
/// the obstacle sits just above the viewport, between its left and right
/// borders. A viewport narrower than the obstacle has no such place, and
/// then there is no obstacle.
pub open spec fn spawned_obstacle(
    size_fraction: u32,
    speed_fraction: u32,
    x_fraction: u32,
    viewport: Viewport,
) -> Option<Shape> {
    let size = interpolated(
        MIN_OBSTACLE_SIZE as int,
        MAX_OBSTACLE_SIZE as int,
        size_fraction as int,
    );
    let speed = interpolated(
        MIN_OBSTACLE_SPEED as int,
        MAX_OBSTACLE_SPEED as int,
        speed_fraction as int,
    );
    let leftmost = size / 2;
    let rightmost = viewport.width - size / 2;
    if leftmost <= rightmost {
        Some(
            Shape {
                size: size as i64,
                speed: speed as i64,
                x: interpolated(leftmost, rightmost, x_fraction as int) as i64,
                y: (-size) as i64,
                collided: false,
            },
        )
    } else {
        None
    }
}

/// What the spawner makes of its four draws: nothing unless the first draw
/// lets an obstacle in, and then the obstacle that the three fractions
/// describe.
pub open spec fn spawn_outcome(
    roll: u32,
    size_fraction: u32,
    speed_fraction: u32,
    x_fraction: u32,
    viewport: Viewport,
) -> Option<Shape> {
    if roll_spawns(roll) {
        spawned_obstacle(size_fraction, speed_fraction, x_fraction, viewport)
    } else {
        None
    }
}

/// Whether the spawner can come out this way: whether some draws within
/// their ranges give this outcome.
pub open spec fn spawnable(made: Option<Shape>, viewport: Viewport) -> bool {
    exists|roll: u32, size_fraction: u32, speed_fraction: u32, x_fraction: u32|
        {
            &&& roll < SPAWN_ROLLS
            &&& size_fraction < FRACTION_STEPS
            &&& speed_fraction < FRACTION_STEPS
            &&& x_fraction < FRACTION_STEPS
            &&& made == #[trigger] spawn_outcome(
                roll,
                size_fraction,
                speed_fraction,
                x_fraction,
                viewport,
            )
        }
}

/// What holds of every obstacle that the spawner can let in.
pub open spec fn fresh_obstacle(shape: Shape, viewport: Viewport) -> bool {
    &&& MIN_OBSTACLE_SIZE <= shape.size < MAX_OBSTACLE_SIZE
    &&& MIN_OBSTACLE_SPEED <= shape.speed < MAX_OBSTACLE_SPEED
    &&& shape.size / 2 <= shape.x <= viewport.width - shape.size / 2
    &&& shape.y == -shape.size
    &&& !shape.collided
}

/// Every obstacle described by three fractions is a fresh obstacle.
pub proof fn lemma_spawned_is_fresh(
    size_fraction: u32,
    speed_fraction: u32,
    x_fraction: u32,
    viewport: Viewport,
)
    requires
        size_fraction < FRACTION_STEPS,
        speed_fraction < FRACTION_STEPS,
        x_fraction < FRACTION_STEPS,
        viewport.wf(),
    ensures
        spawned_obstacle(size_fraction, speed_fraction, x_fraction, viewport) matches Some(shape)
            ==> fresh_obstacle(shape, viewport),
{
    let size = interpolated(
        MIN_OBSTACLE_SIZE as int,
        MAX_OBSTACLE_SIZE as int,
        size_fraction as int,
    );
    lemma_interpolated_in_range(
        MIN_OBSTACLE_SIZE as int,
        MAX_OBSTACLE_SIZE as int,
        size_fraction as int,
    );
    lemma_interpolated_in_range(
        MIN_OBSTACLE_SPEED as int,
        MAX_OBSTACLE_SPEED as int,
        speed_fraction as int,
    );
    if size / 2 <= viewport.width - size / 2 {
        lemma_interpolated_in_range(size / 2, viewport.width - size / 2, x_fraction as int);
    }
}

/// Every obstacle that the spawner can let in is a fresh obstacle.
pub proof fn lemma_spawnable_is_fresh(made: Option<Shape>, viewport: Viewport)
    requires
        spawnable(made, viewport),
        viewport.wf(),
    ensures
        made matches Some(shape) ==> fresh_obstacle(shape, viewport),
{
    let (roll, size_fraction, speed_fraction, x_fraction) = choose|
        roll: u32,
        size_fraction: u32,
        speed_fraction: u32,
        x_fraction: u32,
    |
        {
            &&& roll < SPAWN_ROLLS
            &&& size_fraction < FRACTION_STEPS
            &&& speed_fraction < FRACTION_STEPS
            &&& x_fraction < FRACTION_STEPS
            &&& made == #[trigger] spawn_outcome(
                roll,
                size_fraction,
                speed_fraction,
                x_fraction,
                viewport,
            )
        };
    lemma_spawned_is_fresh(size_fraction, speed_fraction, x_fraction, viewport);
}

/// Builds the obstacle that three drawn fractions describe.
pub fn make_obstacle(
    size_fraction: u32,
    speed_fraction: u32,
    x_fraction: u32,
    viewport: Viewport,
) -> (made: Option<Shape>)
    requires
        size_fraction < FRACTION_STEPS,
        speed_fraction < FRACTION_STEPS,
        x_fraction < FRACTION_STEPS,
        viewport.wf(),
    ensures
        made == spawned_obstacle(size_fraction, speed_fraction, x_fraction, viewport),
{
    proof {
        lemma_interpolated_in_range(
            MIN_OBSTACLE_SIZE as int,
            MAX_OBSTACLE_SIZE as int,
            size_fraction as int,
        );
        lemma_interpolated_in_range(
            MIN_OBSTACLE_SPEED as int,
            MAX_OBSTACLE_SPEED as int,
            speed_fraction as int,
        );
    }
    let size: i64 = interpolate(MIN_OBSTACLE_SIZE, MAX_OBSTACLE_SIZE, size_fraction);
    let speed: i64 = interpolate(MIN_OBSTACLE_SPEED, MAX_OBSTACLE_SPEED, speed_fraction);
    let leftmost: i64 = size / 2;
    let rightmost: i64 = viewport.width - size / 2;
    if leftmost <= rightmost {
        let x: i64 = interpolate(leftmost, rightmost, x_fraction);
        Some(Shape { size, speed, x, y: -size, collided: false })
    } else {
        None
    }
}

/// Runs the spawner for one frame: draws, and lets at most one obstacle in.
///
/// The draws come from a pseudo-random source, so the contract states what
/// holds of every outcome: it is what some draws within their ranges give.
/// What given draws give is for `lets_in` and `make_obstacle` to say.
pub fn spawn(viewport: Viewport) -> (made: Option<Shape>)
    requires
        viewport.wf(),
    ensures
        spawnable(made, viewport),
        made matches Some(shape) ==> fresh_obstacle(shape, viewport),
{
    let roll: u32 = random_in_range(0, SPAWN_ROLLS);
    if lets_in(roll) {
        let size_fraction: u32 = random_in_range(0, FRACTION_STEPS);
        let speed_fraction: u32 = random_in_range(0, FRACTION_STEPS);
        let x_fraction: u32 = random_in_range(0, FRACTION_STEPS);
        let made = make_obstacle(size_fraction, speed_fraction, x_fraction, viewport);
        proof {
            assert(made == spawn_outcome(roll, size_fraction, speed_fraction, x_fraction, viewport));
            lemma_spawnable_is_fresh(made, viewport);
        }
        made
    } else {
        proof {
            assert(None::<Shape> == spawn_outcome(roll, 0, 0, 0, viewport));
        }
        None
    }
}

} // verus!
