//! The collision pass between obstacles and projectiles.
//!
//! Every pair of an obstacle and a projectile is tested. Each colliding
//! pair marks both shapes, scores the obstacle's side in whole pixels and
//! starts one explosion at the obstacle's centre. A projectile that meets
//! several obstacles in one frame scores for each of them.

use vstd::prelude::*;
use crate::motion::all_wf;
use crate::shape::Shape;
use crate::units::{round_to_pixels, rounded_pixels};

verus! {

/// An explosion: where it is anchored and how many particles it throws.
#[derive(Clone, Copy, Debug, PartialEq, Eq)]
pub struct Explosion {
    pub x: i64,
    pub y: i64,
    pub amount: u32,
}

/// What one hit on an obstacle is worth: its side in whole pixels.
pub open spec fn worth(obstacle: Shape) -> int {
    rounded_pixels(obstacle.size as int)
}

/// The explosion that one hit on an obstacle starts.
pub open spec fn blast_of(obstacle: Shape) -> Explosion {
    Explosion { x: obstacle.x, y: obstacle.y, amount: worth(obstacle) as u32 }
}

/// A shape with its mark set if it was hit; a mark once set stays.
pub open spec fn marked(shape: Shape, hit: bool) -> Shape {
    Shape { collided: shape.collided || hit, ..shape }
}

/// How many of the projectiles collide with an obstacle.
pub open spec fn hit_count(obstacle: Shape, projectiles: Seq<Shape>) -> nat
    decreases projectiles.len(),
{
    if projectiles.len() == 0 {
        0
    } else {
        hit_count(obstacle, projectiles.drop_last()) + if projectiles.last().spec_collides_with(
            obstacle,
        ) {
            1nat
        } else {
            0nat
        }
    }
}

/// Whether some projectile collides with an obstacle.
pub open spec fn struck(obstacle: Shape, projectiles: Seq<Shape>) -> bool {
    exists|j: int|
        0 <= j < projectiles.len() && (#[trigger] projectiles[j]).spec_collides_with(obstacle)
}

/// Whether a projectile collides with some obstacle.
pub open spec fn strikes(projectile: Shape, obstacles: Seq<Shape>) -> bool {
    exists|i: int|
        0 <= i < obstacles.len() && projectile.spec_collides_with(#[trigger] obstacles[i])
}

/// The obstacles after the pass: those that were struck are marked.
pub open spec fn marked_obstacles(obstacles: Seq<Shape>, projectiles: Seq<Shape>) -> Seq<Shape> {
    Seq::new(obstacles.len(), |i: int| marked(obstacles[i], struck(obstacles[i], projectiles)))
}

/// The projectiles after the pass: those that struck an obstacle are marked.
pub open spec fn marked_projectiles(projectiles: Seq<Shape>, obstacles: Seq<Shape>) -> Seq<
    Shape,
> {
    Seq::new(
        projectiles.len(),
        |j: int| marked(projectiles[j], strikes(projectiles[j], obstacles)),
    )
}

/// Number of colliding pairs.
pub open spec fn total_hits(obstacles: Seq<Shape>, projectiles: Seq<Shape>) -> nat
    decreases obstacles.len(),
{
    if obstacles.len() == 0 {
        0
    } else {
        total_hits(obstacles.drop_last(), projectiles) + hit_count(obstacles.last(), projectiles)
    }
}

/// Points earned in the pass: for each colliding pair, the worth of its
/// obstacle.
pub open spec fn total_gain(obstacles: Seq<Shape>, projectiles: Seq<Shape>) -> int
    decreases obstacles.len(),
{
    if obstacles.len() == 0 {
        0
    } else {
        total_gain(obstacles.drop_last(), projectiles) + worth(obstacles.last()) * hit_count(
            obstacles.last(),
            projectiles,
        )
    }
}

/// The explosions started in the pass: one per colliding pair, obstacle by
/// obstacle in the order of the list.
pub open spec fn blasts(obstacles: Seq<Shape>, projectiles: Seq<Shape>) -> Seq<Explosion>
    decreases obstacles.len(),
{
    if obstacles.len() == 0 {
        Seq::empty()
    } else {
        blasts(obstacles.drop_last(), projectiles) + Seq::new(
            hit_count(obstacles.last(), projectiles),
            |k: int| blast_of(obstacles.last()),
        )
    }
}

/// A score after a gain. The score stops at the largest value it can hold.
pub open spec fn credited(score: u32, gain: int) -> u32 {
    if score + gain > u32::MAX {
        u32::MAX
    } else if score + gain < 0 {
        0
    } else {
        (score + gain) as u32
    }
}

/// The high score after a pass with `hits` colliding pairs that left the
/// score at `score`: every hit lifts the high score to the score if that is
/// higher.
pub open spec fn raised(high_score: u32, score: u32, hits: nat) -> u32 {
    if hits > 0 && score > high_score {
        score
    } else {
        high_score
    }
}

/// An obstacle is struck exactly when its count of hits is positive.
pub proof fn lemma_struck_iff_hit(obstacle: Shape, projectiles: Seq<Shape>)
    ensures
        struck(obstacle, projectiles) <==> hit_count(obstacle, projectiles) > 0,
    decreases projectiles.len(),
{
    if projectiles.len() > 0 {
        let front = projectiles.drop_last();
        lemma_struck_iff_hit(obstacle, front);
        if struck(obstacle, projectiles) {
            let j = choose|j: int|
                0 <= j < projectiles.len() && (#[trigger] projectiles[j]).spec_collides_with(
                    obstacle,
                );
            if j < front.len() {
                assert(front[j].spec_collides_with(obstacle));
            }
        }
        if struck(obstacle, front) {
            let j = choose|j: int|
                0 <= j < front.len() && (#[trigger] front[j]).spec_collides_with(obstacle);
            assert(projectiles[j].spec_collides_with(obstacle));
        }
        if projectiles.last().spec_collides_with(obstacle) {
            assert(projectiles[projectiles.len() - 1].spec_collides_with(obstacle));
        }
    }
}

/// The count of hits looks at positions and sizes only, not at marks.
pub proof fn lemma_hit_count_ignores_marks(obstacle: Shape, before: Seq<Shape>, after: Seq<Shape>)
    requires
        before.len() == after.len(),
        forall|j: int| 0 <= j < before.len() ==> before[j].spec_rect() == after[j].spec_rect(),
    ensures
        hit_count(obstacle, before) == hit_count(obstacle, after),
    decreases before.len(),
{
    if before.len() > 0 {
        lemma_hit_count_ignores_marks(obstacle, before.drop_last(), after.drop_last());
    }
}

/// A projectile strikes one of the first `count + 1` obstacles exactly when
/// it strikes one of the first `count` or collides with the next.
pub proof fn lemma_strikes_next(projectile: Shape, obstacles: Seq<Shape>, count: int)
    requires
        0 <= count < obstacles.len(),
    ensures
        strikes(projectile, obstacles.take(count + 1)) <==> strikes(
            projectile,
            obstacles.take(count),
        ) || projectile.spec_collides_with(obstacles[count]),
{
    let shorter = obstacles.take(count);
    let longer = obstacles.take(count + 1);
    if strikes(projectile, longer) {
        let i = choose|i: int|
            0 <= i < longer.len() && projectile.spec_collides_with(#[trigger] longer[i]);
        if i < count {
            assert(projectile.spec_collides_with(shorter[i]));
        }
    }
    if strikes(projectile, shorter) {
        let i = choose|i: int|
            0 <= i < shorter.len() && projectile.spec_collides_with(#[trigger] shorter[i]);
        assert(projectile.spec_collides_with(longer[i]));
    }
    if projectile.spec_collides_with(obstacles[count]) {
        assert(projectile.spec_collides_with(longer[count]));
    }
}

/// Adds to a score what `hits` hits on an obstacle of the given worth earn.
fn credit(score: u32, worth: u32, hits: usize) -> (total: u32)
    ensures
        total == credited(score, worth * hits),
{
    assert(worth * hits <= 0xffff_ffff * 0xffff_ffff_ffff_ffff) by (nonlinear_arith)
        requires
            0 <= worth <= 0xffff_ffff,
            0 <= hits <= 0xffff_ffff_ffff_ffff,
    ;
    assert(0 <= worth * hits) by (nonlinear_arith)
        requires
            0 <= worth,
            0 <= hits,
    ;
    let sum: u128 = score as u128 + (worth as u128) * (hits as u128);
    if sum > 0xffff_ffff {
        0xffff_ffff
    } else {
        sum as u32
    }
}

/// Marks every projectile that collides with an obstacle, and counts them.
fn strike(obstacle: &Shape, projectiles: &mut Vec<Shape>) -> (hits: usize)
    requires
        obstacle.wf(),
        all_wf(old(projectiles)@),
    ensures
        hits == hit_count(*obstacle, old(projectiles)@),
        final(projectiles)@ == Seq::new(
            old(projectiles)@.len(),
            |j: int|
                marked(old(projectiles)@[j], old(projectiles)@[j].spec_collides_with(*obstacle)),
        ),
{
    let count = projectiles.len();
    let mut hits: usize = 0;
    let mut j: usize = 0;
    while j < count
        invariant
            j <= count,
            hits <= j,
            obstacle.wf(),
            projectiles.len() == count,
            old(projectiles).len() == count,
            all_wf(old(projectiles)@),
            hits == hit_count(*obstacle, old(projectiles)@.take(j as int)),
            forall|k: int|
                0 <= k < j ==> projectiles@[k] == marked(
                    old(projectiles)@[k],
                    old(projectiles)@[k].spec_collides_with(*obstacle),
                ),
            forall|k: int| j <= k < count ==> projectiles@[k] == old(projectiles)@[k],
        decreases count - j,
    {
        let mut projectile = projectiles[j];
        proof {
            assert(old(projectiles)@[j as int].wf());
            assert(old(projectiles)@.take(j + 1).drop_last() =~= old(projectiles)@.take(j as int));
        }
        if projectile.collides_with(obstacle) {
            projectile.collided = true;
            projectiles.set(j, projectile);
            hits = hits + 1;
        }
        j = j + 1;
    }
    proof {
        assert(old(projectiles)@.take(count as int) =~= old(projectiles)@);
        assert(projectiles@ =~= Seq::new(
            old(projectiles)@.len(),
            |j: int|
                marked(old(projectiles)@[j], old(projectiles)@[j].spec_collides_with(*obstacle)),
        ));
    }
    hits
}

/// Tests whether a shape collides with any of the obstacles.
pub fn hits_any(shape: &Shape, obstacles: &Vec<Shape>) -> (hit: bool)
    requires
        shape.wf(),
        all_wf(obstacles@),
    ensures
        hit == strikes(*shape, obstacles@),
{
    let count = obstacles.len();
    let mut i: usize = 0;
    while i < count
        invariant
            i <= count,
            obstacles.len() == count,
            shape.wf(),
            all_wf(obstacles@),
            forall|k: int| 0 <= k < i ==> !shape.spec_collides_with(#[trigger] obstacles@[k]),
        decreases count - i,
    {
        assert(obstacles@[i as int].wf());
        if shape.collides_with(&obstacles[i]) {
            return true;
        }
        i = i + 1;
    }
    false
}

/// A pass without a colliding pair earns nothing.
pub proof fn lemma_no_hits_no_gain(obstacles: Seq<Shape>, projectiles: Seq<Shape>)
    requires
        total_hits(obstacles, projectiles) == 0,
    ensures
        total_gain(obstacles, projectiles) == 0,
        blasts(obstacles, projectiles).len() == 0,
    decreases obstacles.len(),
{
    if obstacles.len() > 0 {
        lemma_no_hits_no_gain(obstacles.drop_last(), projectiles);
        assert(worth(obstacles.last()) * hit_count(obstacles.last(), projectiles) == 0)
            by (nonlinear_arith)
            requires
                hit_count(obstacles.last(), projectiles) == 0,
        ;
    }
}

/// Runs the collision pass.
///
/// Shapes are marked, never moved or removed; removal is the business of
/// the retirement that follows. The score stops at `u32::MAX`.
pub fn resolve_collisions(
    obstacles: &mut Vec<Shape>,
    projectiles: &mut Vec<Shape>,
    explosions: &mut Vec<Explosion>,
    score: &mut u32,
    high_score: &mut u32,
)
    requires
        all_wf(old(obstacles)@),
        all_wf(old(projectiles)@),
    ensures
        final(obstacles)@ == marked_obstacles(old(obstacles)@, old(projectiles)@),
        final(projectiles)@ == marked_projectiles(old(projectiles)@, old(obstacles)@),
        final(explosions)@ == old(explosions)@ + blasts(old(obstacles)@, old(projectiles)@),
        *final(score) == credited(
            *old(score),
            total_gain(old(obstacles)@, old(projectiles)@),
        ),
        *final(high_score) == raised(
            *old(high_score),
            *final(score),
            total_hits(old(obstacles)@, old(projectiles)@),
        ),
        *old(score) <= *old(high_score) || total_hits(old(obstacles)@, old(projectiles)@) > 0
            ==> *final(score) <= *final(high_score),
{
    let ghost obstacles0 = obstacles@;
    let ghost projectiles0 = projectiles@;
    let ghost explosions0 = explosions@;
    let ghost score0 = *score;
    let ghost high0 = *high_score;
    let count = obstacles.len();
    let mut i: usize = 0;
    proof {
        assert(projectiles@ =~= marked_projectiles(projectiles0, obstacles0.take(0)));
        assert(explosions@ =~= explosions0 + blasts(obstacles0.take(0), projectiles0));
    }
    while i < count
        invariant
            i <= count,
            obstacles.len() == count,
            obstacles0.len() == count,
            projectiles.len() == projectiles0.len(),
            all_wf(obstacles0),
            all_wf(projectiles0),
            forall|k: int|
                0 <= k < i ==> obstacles@[k] == marked(
                    obstacles0[k],
                    struck(obstacles0[k], projectiles0),
                ),
            forall|k: int| i <= k < count ==> obstacles@[k] == obstacles0[k],
            projectiles@ == marked_projectiles(projectiles0, obstacles0.take(i as int)),
            explosions@ == explosions0 + blasts(obstacles0.take(i as int), projectiles0),
            0 <= total_gain(obstacles0.take(i as int), projectiles0),
            *score == credited(score0, total_gain(obstacles0.take(i as int), projectiles0)),
            *high_score == raised(
                high0,
                *score,
                total_hits(obstacles0.take(i as int), projectiles0),
            ),
            score0 <= *score,
            total_hits(obstacles0.take(i as int), projectiles0) == 0 ==> *score == score0,
        decreases count - i,
    {
        let mut obstacle = obstacles[i];
        let ghost before = projectiles@;
        let ghost shorter = obstacles0.take(i as int);
        let ghost longer = obstacles0.take(i + 1);
        proof {
            assert(obstacle == obstacles0[i as int]);
            assert(obstacle.wf());
            assert(all_wf(before));
            assert(longer.drop_last() =~= shorter);
            assert(longer.last() == obstacle);
            lemma_hit_count_ignores_marks(obstacle, before, projectiles0);
            lemma_struck_iff_hit(obstacle, projectiles0);
        }
        let hits = strike(&obstacle, projectiles);
        proof {
            assert forall|j: int| 0 <= j < projectiles0.len() implies projectiles@[j] == marked(
                projectiles0[j],
                strikes(projectiles0[j], longer),
            ) by {
                lemma_strikes_next(projectiles0[j], obstacles0, i as int);
                assert(before[j].spec_collides_with(obstacle)
                    == projectiles0[j].spec_collides_with(obstacle));
            }
            assert(projectiles@ =~= marked_projectiles(projectiles0, longer));
        }
        let ghost blasts_before = explosions@;
        if hits > 0 {
            obstacle.collided = true;
            obstacles.set(i, obstacle);
            let points = round_to_pixels(obstacle.size);
            let amount = points;
            proof {
                assert(0 <= worth(obstacle) * hits) by (nonlinear_arith)
                    requires
                        0 <= worth(obstacle),
                        0 <= hits,
                ;
            }
            *score = credit(*score, points, hits);
            if *score > *high_score {
                *high_score = *score;
            }
            let mut k: usize = 0;
            while k < hits
                invariant
                    k <= hits,
                    amount == worth(obstacle),
                    explosions@ == blasts_before + Seq::new(k as nat, |n: int| blast_of(obstacle)),
                decreases hits - k,
            {
                explosions.push(Explosion { x: obstacle.x, y: obstacle.y, amount });
                k = k + 1;
                assert(explosions@ =~= blasts_before + Seq::new(
                    k as nat,
                    |n: int| blast_of(obstacle),
                ));
            }
        } else {
            assert(explosions@ =~= blasts_before + Seq::new(0nat, |n: int| blast_of(obstacle)));
            assert(worth(obstacle) * hits == 0) by (nonlinear_arith)
                requires
                    hits == 0,
            ;
        }
        proof {
            assert(explosions@ =~= explosions0 + blasts(longer, projectiles0));
        }
        i = i + 1;
    }
    proof {
        assert(obstacles0.take(count as int) =~= obstacles0);
        assert(obstacles@ =~= marked_obstacles(obstacles0, projectiles0));
    }
}

} // verus!
