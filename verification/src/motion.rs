//! How shapes move within one frame.
//!
//! The ship follows the arrow keys and is then held inside the viewport.
//! Obstacles fall and projectiles rise, each by its speed times the elapsed
//! time.

use vstd::prelude::*;
use crate::input::Intents;
use crate::shape::Shape;
use crate::units::{lemma_displacement_within_reach, MAX_COORD};
use crate::viewport::Viewport;

verus! {

/// Side of the ship: 32 pixels.
pub const SHIP_SIZE: i64 = 32_000_000_000;

/// Speed of the ship: 200 pixels per second.
pub const SHIP_SPEED: i64 = 200_000;

/// Side of a projectile: 32 pixels.
pub const PROJECTILE_SIZE: i64 = 32_000_000_000;

/// How far above the ship's centre a projectile starts: 24 pixels.
pub const MUZZLE_OFFSET: i64 = 24_000_000_000;

/// A shape at rest: well formed, and no further than `MAX_COORD` from the
/// origin along either axis.
pub open spec fn at_rest(shape: Shape) -> bool {
    &&& shape.wf()
    &&& -MAX_COORD <= shape.x <= MAX_COORD
    &&& -MAX_COORD <= shape.y <= MAX_COORD
}

/// The ship after the arrow keys have acted on it for `dt`. Opposite keys
/// cancel each other.
pub open spec fn steered(ship: Shape, intents: Intents, dt: u32) -> Shape {
    let step = SHIP_SPEED * dt;
    Shape {
        x: (ship.x + (if intents.move_right { step } else { 0 }) - (if intents.move_left {
            step
        } else {
            0
        })) as i64,
        y: (ship.y + (if intents.move_down { step } else { 0 }) - (if intents.move_up {
            step
        } else {
            0
        })) as i64,
        ..ship
    }
}

/// The nearest value to `value` in `[low, high]`.
pub open spec fn clamped(value: int, low: int, high: int) -> int {
    if value < low {
        low
    } else if value > high {
        high
    } else {
        value
    }
}

/// The ship moved to the nearest position inside the viewport.
pub open spec fn held_in(ship: Shape, viewport: Viewport) -> Shape {
    Shape {
        x: clamped(ship.x as int, 0, viewport.width as int) as i64,
        y: clamped(ship.y as int, 0, viewport.height as int) as i64,
        ..ship
    }
}

/// The projectile that a ship fires: it starts `MUZZLE_OFFSET` above the
/// ship's centre and flies twice as fast as the ship.
pub open spec fn shot_from(ship: Shape) -> Shape {
    Shape {
        size: PROJECTILE_SIZE,
        speed: (2 * ship.speed) as i64,
        x: ship.x,
        y: (ship.y - MUZZLE_OFFSET) as i64,
        collided: false,
    }
}

/// An obstacle after falling for `dt`.
pub open spec fn fallen(obstacle: Shape, dt: u32) -> Shape {
    Shape { y: (obstacle.y + obstacle.speed * dt) as i64, ..obstacle }
}

/// A projectile after rising for `dt`.
pub open spec fn risen(projectile: Shape, dt: u32) -> Shape {
    Shape { y: (projectile.y - projectile.speed * dt) as i64, ..projectile }
}

/// Every obstacle of a sequence after falling for `dt`.
pub open spec fn all_fallen(obstacles: Seq<Shape>, dt: u32) -> Seq<Shape> {
    obstacles.map_values(|o: Shape| fallen(o, dt))
}

/// Every projectile of a sequence after rising for `dt`.
pub open spec fn all_risen(projectiles: Seq<Shape>, dt: u32) -> Seq<Shape> {
    projectiles.map_values(|p: Shape| risen(p, dt))
}

/// What the background's horizontal drift gains per microsecond of steering,
/// in units of 10^-8: 0.05 per second.
pub const DRIFT_RATE: i64 = 5;

/// The background's drift after the arrow keys have acted on it for `dt`:
/// steering right adds to it, steering left takes from it. It stops at the
/// ends of what it can hold.
pub open spec fn drifted(modifier: i64, intents: Intents, dt: u32) -> i64 {
    let step = DRIFT_RATE * dt;
    let exact = modifier + (if intents.move_right { step } else { 0 }) - (if intents.move_left {
        step
    } else {
        0
    });
    clamped(exact, i64::MIN as int, i64::MAX as int) as i64
}

/// Whether every shape of a sequence is at rest.
pub open spec fn all_at_rest(shapes: Seq<Shape>) -> bool {
    forall|i: int| 0 <= i < shapes.len() ==> at_rest(#[trigger] shapes[i])
}

/// Whether every shape of a sequence is well formed.
pub open spec fn all_wf(shapes: Seq<Shape>) -> bool {
    forall|i: int| 0 <= i < shapes.len() ==> (#[trigger] shapes[i]).wf()
}

/// Tests whether a shape is at rest.
pub fn is_at_rest(shape: &Shape) -> (yes: bool)
    ensures
        yes == at_rest(*shape),
{
    shape.is_wf() && -MAX_COORD <= shape.x && shape.x <= MAX_COORD && -MAX_COORD <= shape.y
        && shape.y <= MAX_COORD
}

/// Moves the ship as the arrow keys ask.
pub fn steer(ship: &mut Shape, intents: Intents, dt: u32)
    requires
        at_rest(*old(ship)),
    ensures
        *final(ship) == steered(*old(ship), intents, dt),
        final(ship).wf(),
{
    let step: i64 = SHIP_SPEED * (dt as i64);
    if intents.move_right {
        ship.x = ship.x + step;
    }
    if intents.move_left {
        ship.x = ship.x - step;
    }
    if intents.move_down {
        ship.y = ship.y + step;
    }
    if intents.move_up {
        ship.y = ship.y - step;
    }
}

/// Lets the arrow keys act on the background's drift.
pub fn drift(modifier: i64, intents: Intents, dt: u32) -> (after: i64)
    ensures
        after == drifted(modifier, intents, dt),
{
    assert(0 <= DRIFT_RATE * dt <= 5 * 0xffff_ffff) by (nonlinear_arith)
        requires
            DRIFT_RATE == 5,
            0 <= dt <= 0xffff_ffff,
    ;
    let step: i128 = (DRIFT_RATE as i128) * (dt as i128);
    let mut exact: i128 = modifier as i128;
    if intents.move_right {
        exact = exact + step;
    }
    if intents.move_left {
        exact = exact - step;
    }
    if exact < i64::MIN as i128 {
        i64::MIN
    } else if exact > i64::MAX as i128 {
        i64::MAX
    } else {
        exact as i64
    }
}

/// Holds a value between two bounds, by `macroquad::math::clamp`.
///
/// Trusted: the result is `low` where the value is below `low`; failing
/// that, `high` where the value is above `high`; and the value itself
/// otherwise. These are the three branches of the outside function, in its
/// order, which compares with `<` and `>` and so cannot fail on integers.
#[verifier::external_body]
fn clamp(value: i64, low: i64, high: i64) -> (held: i64)
    ensures
        held == clamped(value as int, low as int, high as int),
{
    macroquad::math::clamp(value, low, high)
}

/// Brings the ship back inside the viewport.
pub fn hold_in(ship: &mut Shape, viewport: Viewport)
    requires
        old(ship).wf(),
        viewport.wf(),
    ensures
        *final(ship) == held_in(*old(ship), viewport),
        at_rest(*final(ship)),
        viewport.contains(final(ship).x as int, final(ship).y as int),
{
    ship.x = clamp(ship.x, 0, viewport.width);
    ship.y = clamp(ship.y, 0, viewport.height);
}

/// Fires a projectile from the ship.
pub fn fire(ship: &Shape) -> (projectile: Shape)
    requires
        ship.wf(),
    ensures
        projectile == shot_from(*ship),
{
    Shape {
        size: PROJECTILE_SIZE,
        speed: 2 * ship.speed,
        x: ship.x,
        y: ship.y - MUZZLE_OFFSET,
        collided: false,
    }
}

/// Lets every obstacle fall for `dt`.
pub fn advance_obstacles(obstacles: &mut Vec<Shape>, dt: u32)
    requires
        all_at_rest(old(obstacles)@),
    ensures
        final(obstacles)@ == all_fallen(old(obstacles)@, dt),
        all_wf(final(obstacles)@),
{
    let count = obstacles.len();
    let mut i: usize = 0;
    while i < count
        invariant
            i <= count,
            obstacles.len() == count,
            old(obstacles).len() == count,
            all_at_rest(old(obstacles)@),
            forall|k: int| 0 <= k < i ==> obstacles@[k] == fallen(old(obstacles)@[k], dt),
            forall|k: int| i <= k < count ==> obstacles@[k] == old(obstacles)@[k],
            forall|k: int| 0 <= k < i ==> (#[trigger] obstacles@[k]).wf(),
        decreases count - i,
    {
        let mut shape = obstacles[i];
        proof {
            assert(at_rest(old(obstacles)@[i as int]));
            lemma_displacement_within_reach(shape.speed as int, dt as int);
        }
        shape.y = shape.y + shape.speed * (dt as i64);
        obstacles.set(i, shape);
        i = i + 1;
    }
    assert(obstacles@ =~= all_fallen(old(obstacles)@, dt));
}

/// Lets every projectile rise for `dt`.
pub fn advance_projectiles(projectiles: &mut Vec<Shape>, dt: u32)
    requires
        all_at_rest(old(projectiles)@),
    ensures
        final(projectiles)@ == all_risen(old(projectiles)@, dt),
        all_wf(final(projectiles)@),
{
    let count = projectiles.len();
    let mut i: usize = 0;
    while i < count
        invariant
            i <= count,
            projectiles.len() == count,
            old(projectiles).len() == count,
            all_at_rest(old(projectiles)@),
            forall|k: int| 0 <= k < i ==> projectiles@[k] == risen(old(projectiles)@[k], dt),
            forall|k: int| i <= k < count ==> projectiles@[k] == old(projectiles)@[k],
            forall|k: int| 0 <= k < i ==> (#[trigger] projectiles@[k]).wf(),
        decreases count - i,
    {
        let mut shape = projectiles[i];
        proof {
            assert(at_rest(old(projectiles)@[i as int]));
            lemma_displacement_within_reach(shape.speed as int, dt as int);
        }
        shape.y = shape.y - shape.speed * (dt as i64);
        projectiles.set(i, shape);
        i = i + 1;
    }
    assert(projectiles@ =~= all_risen(old(projectiles)@, dt));
}

} // verus!
