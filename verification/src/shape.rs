//! Shapes and their collision test.
//!
//! One schema serves the ship, the projectiles and the obstacles: a square
//! of side `size` centred at `(x, y)`, moving at `speed` in the direction its
//! role implies. The origin is the top-left corner of the viewport and `y`
//! grows downward.

use vstd::prelude::*;
use crate::units::{MAX_SIZE, MAX_SPEED, REACH};

verus! {

/// An axis-aligned box, given by its top-left corner and its extents.
#[derive(Clone, Copy, Debug, PartialEq, Eq)]
pub struct Rect {
    pub x: i64,
    pub y: i64,
    pub w: i64,
    pub h: i64,
}

impl Rect {
    /// Two boxes overlap when their interiors meet. Boxes that only share an
    /// edge or a corner do not overlap.
    pub open spec fn spec_overlaps(self, other: Rect) -> bool {
        &&& self.x < other.x + other.w
        &&& other.x < self.x + self.w
        &&& self.y < other.y + other.h
        &&& other.y < self.y + self.h
    }

    /// Tests whether two boxes overlap.
    pub fn overlaps(&self, other: &Rect) -> (hit: bool)
        ensures
            hit == self.spec_overlaps(*other),
    {
        let (ax, ay, aw, ah) = (self.x as i128, self.y as i128, self.w as i128, self.h as i128);
        let (bx, by, bw, bh) = (other.x as i128, other.y as i128, other.w as i128, other.h as i128);
        ax < bx + bw && bx < ax + aw && ay < by + bh && by < ay + ah
    }
}

/// A square entity of the game.
#[derive(Clone, Copy, Debug, PartialEq, Eq)]
pub struct Shape {
    /// Side of the square, used both for drawing and for collisions.
    pub size: i64,
    /// Magnitude of the velocity; the direction follows from the role.
    pub speed: i64,
    /// Horizontal position of the centre.
    pub x: i64,
    /// Vertical position of the centre.
    pub y: i64,
    /// Set by the collision pass; a marked shape is removed at the end of
    /// the frame.
    pub collided: bool,
}

impl Shape {
    /// A shape has a positive size, and its numbers stay within the bounds
    /// that keep the arithmetic on it exact.
    pub open spec fn wf(self) -> bool {
        &&& 0 < self.size <= MAX_SIZE
        &&& 0 <= self.speed <= MAX_SPEED
        &&& -REACH <= self.x <= REACH
        &&& -REACH <= self.y <= REACH
    }

    /// The bounding box: a square of side `size` whose centre is `(x, y)`.
    pub open spec fn spec_rect(self) -> Rect {
        Rect {
            x: (self.x - self.size / 2) as i64,
            y: (self.y - self.size / 2) as i64,
            w: self.size,
            h: self.size,
        }
    }

    /// Two shapes collide when their bounding boxes overlap.
    pub open spec fn spec_collides_with(self, other: Shape) -> bool {
        self.spec_rect().spec_overlaps(other.spec_rect())
    }

    /// Builds an unmarked shape, or nothing where the numbers do not make a
    /// well-formed one.
    pub fn new(size: i64, speed: i64, x: i64, y: i64) -> (made: Option<Shape>)
        ensures
            made == if (Shape { size, speed, x, y, collided: false }).wf() {
                Some(Shape { size, speed, x, y, collided: false })
            } else {
                None
            },
    {
        let candidate = Shape { size, speed, x, y, collided: false };
        if candidate.is_wf() {
            Some(candidate)
        } else {
            None
        }
    }

    /// Tests whether the shape is well formed.
    pub fn is_wf(&self) -> (ok: bool)
        ensures
            ok == self.wf(),
    {
        0 < self.size && self.size <= MAX_SIZE && 0 <= self.speed && self.speed <= MAX_SPEED
            && -REACH <= self.x && self.x <= REACH && -REACH <= self.y && self.y <= REACH
    }

    /// Computes the bounding box.
    pub fn rect(&self) -> (r: Rect)
        requires
            self.wf(),
        ensures
            r == self.spec_rect(),
    {
        let half: i64 = self.size / 2;
        Rect { x: self.x - half, y: self.y - half, w: self.size, h: self.size }
    }

    /// Tests whether two shapes collide.
    pub fn collides_with(&self, other: &Shape) -> (hit: bool)
        requires
            self.wf(),
            other.wf(),
        ensures
            hit == self.spec_collides_with(*other),
    {
        self.rect().overlaps(&other.rect())
    }
}

/// The collision test does not depend on which shape is asked.
pub proof fn law_collision_symmetric(a: Shape, b: Shape)
    ensures
        a.spec_collides_with(b) == b.spec_collides_with(a),
{
}

} // verus!
