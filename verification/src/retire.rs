//! Retirement: which shapes and explosions leave the game at the end of a
//! frame.

use vstd::prelude::*;
use crate::collision::Explosion;
use crate::shape::Shape;
use crate::viewport::Viewport;

verus! {

/// An obstacle is gone once it has fallen wholly below the viewport, or
/// once it is marked.
pub open spec fn obstacle_gone(obstacle: Shape, viewport: Viewport) -> bool {
    obstacle.y >= viewport.height + obstacle.size || obstacle.collided
}

/// A projectile is gone once it has risen wholly above the viewport, or
/// once it is marked.
pub open spec fn projectile_gone(projectile: Shape) -> bool {
    2 * projectile.y <= -projectile.size || projectile.collided
}

/// The obstacles that stay, in their order.
pub open spec fn surviving_obstacles(obstacles: Seq<Shape>, viewport: Viewport) -> Seq<Shape> {
    obstacles.filter(|o: Shape| !obstacle_gone(o, viewport))
}

/// The projectiles that stay, in their order.
pub open spec fn surviving_projectiles(projectiles: Seq<Shape>) -> Seq<Shape> {
    projectiles.filter(|p: Shape| !projectile_gone(p))
}

/// The explosions that stay, in their order: all but those whose emitter is
/// reported as no longer emitting. `emitting[i]` reports on `explosions[i]`;
/// an explosion without a report stays.
pub open spec fn live_explosions(explosions: Seq<Explosion>, emitting: Seq<bool>) -> Seq<
    Explosion,
>
    decreases explosions.len(),
{
    if explosions.len() == 0 {
        explosions
    } else {
        let rest = live_explosions(explosions.drop_last(), emitting);
        let last = explosions.len() - 1;
        if last < emitting.len() && !emitting[last] {
            rest
        } else {
            rest.push(explosions.last())
        }
    }
}

/// Whatever holds of every item of a sequence holds of every item that a
/// filter keeps, and so does the filter's own test.
pub proof fn lemma_filter_keeps<A>(
    items: Seq<A>,
    keep: spec_fn(A) -> bool,
    property: spec_fn(A) -> bool,
)
    requires
        forall|i: int| 0 <= i < items.len() ==> property(#[trigger] items[i]),
    ensures
        items.filter(keep).len() <= items.len(),
        forall|k: int|
            0 <= k < items.filter(keep).len() ==> property(#[trigger] items.filter(keep)[k])
                && keep(items.filter(keep)[k]),
    decreases items.len(),
{
    reveal(Seq::filter);
    if items.len() > 0 {
        lemma_filter_keeps(items.drop_last(), keep, property);
    }
}

/// Removes the obstacles that are gone.
pub fn retire_obstacles(obstacles: &mut Vec<Shape>, viewport: Viewport)
    ensures
        final(obstacles)@ == surviving_obstacles(old(obstacles)@, viewport),
{
    let count = obstacles.len();
    let mut kept: Vec<Shape> = Vec::new();
    let mut i: usize = 0;
    proof {
        reveal(Seq::filter);
        assert(kept@ =~= surviving_obstacles(obstacles@.take(0), viewport));
    }
    while i < count
        invariant
            i <= count,
            obstacles.len() == count,
            kept@ == surviving_obstacles(obstacles@.take(i as int), viewport),
        decreases count - i,
    {
        let shape = obstacles[i];
        proof {
            reveal(Seq::filter);
            assert(obstacles@.take(i + 1).drop_last() =~= obstacles@.take(i as int));
        }
        if !(shape.y as i128 >= viewport.height as i128 + shape.size as i128 || shape.collided) {
            kept.push(shape);
        }
        i = i + 1;
    }
    proof {
        assert(obstacles@.take(count as int) =~= obstacles@);
    }
    *obstacles = kept;
}

/// Removes the projectiles that are gone.
pub fn retire_projectiles(projectiles: &mut Vec<Shape>)
    ensures
        final(projectiles)@ == surviving_projectiles(old(projectiles)@),
{
    let count = projectiles.len();
    let mut kept: Vec<Shape> = Vec::new();
    let mut i: usize = 0;
    proof {
        reveal(Seq::filter);
        assert(kept@ =~= surviving_projectiles(projectiles@.take(0)));
    }
    while i < count
        invariant
            i <= count,
            projectiles.len() == count,
            kept@ == surviving_projectiles(projectiles@.take(i as int)),
        decreases count - i,
    {
        let shape = projectiles[i];
        proof {
            reveal(Seq::filter);
            assert(projectiles@.take(i + 1).drop_last() =~= projectiles@.take(i as int));
        }
        if !(2 * (shape.y as i128) <= -(shape.size as i128) || shape.collided) {
            kept.push(shape);
        }
        i = i + 1;
    }
    proof {
        assert(projectiles@.take(count as int) =~= projectiles@);
    }
    *projectiles = kept;
}

/// Removes the explosions whose emitter is reported as no longer emitting.
pub fn retire_explosions(explosions: &mut Vec<Explosion>, emitting: &[bool])
    ensures
        final(explosions)@ == live_explosions(old(explosions)@, emitting@),
{
    let count = explosions.len();
    let mut kept: Vec<Explosion> = Vec::new();
    let mut i: usize = 0;
    proof {
        assert(kept@ =~= live_explosions(explosions@.take(0), emitting@));
    }
    while i < count
        invariant
            i <= count,
            explosions.len() == count,
            kept@ == live_explosions(explosions@.take(i as int), emitting@),
        decreases count - i,
    {
        proof {
            assert(explosions@.take(i + 1).drop_last() =~= explosions@.take(i as int));
        }
        if !(i < emitting.len() && !emitting[i]) {
            kept.push(explosions[i]);
        }
        i = i + 1;
    }
    proof {
        assert(explosions@.take(count as int) =~= explosions@);
    }
    *explosions = kept;
}

} // verus!
