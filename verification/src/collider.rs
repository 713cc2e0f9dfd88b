//! The shapes that bodies collide with, and the test of a dash against them.

use vstd::prelude::*;
use crate::fixed::{div_trunc, floor_sqrt, isqrt, lemma_floor_sqrt, lemma_product_bound, Coord};
use crate::geometry::{pos, segment_dist_sq, segment_distance_sq, Aabb, Position};

verus! {

/// The outline of a body.
#[derive(Debug, Clone, Copy, PartialEq, Eq, Structural)]
pub enum Shape {
    Circle { radius: Coord },
    Rectangle { width: Coord, height: Coord },
}

/// A shape at a place, turned by `rotation` (in thousandths of a radian,
/// counter-clockwise) about its centre.
#[derive(Debug, Clone, Copy, PartialEq, Eq, Structural)]
pub struct Collider {
    pub position: Position,
    pub rotation: Coord,
    pub shape: Shape,
}

impl Shape {
    /// How far the shape reaches from its centre: the radius of a circle,
    /// half the diagonal of a rectangle, rounded down.
    pub open spec fn reach(self) -> nat {
        match self {
            Shape::Circle { radius } => if radius > 0 {
                radius as nat
            } else {
                0
            },
            Shape::Rectangle { width, height } => floor_sqrt((width * width + height * height) as nat)
                / 2,
        }
    }

    /// A circle of radius `radius`.
    pub fn circle(radius: Coord) -> (shape: Shape)
        ensures
            shape == (Shape::Circle { radius }),
    {
        Shape::Circle { radius }
    }

    /// How far the shape reaches from its centre.
    pub fn extent(&self) -> (r: u64)
        ensures
            r == self.reach(),
            r <= 0x1_0000_0000,
    {
        match *self {
            Shape::Circle { radius } => if radius > 0 {
                radius as u64
            } else {
                0
            },
            Shape::Rectangle { width, height } => {
                let w: i128 = width as i128;
                let h: i128 = height as i128;
                proof {
                    lemma_product_bound(w as int, w as int, 0x8000_0000, 0x8000_0000);
                    lemma_product_bound(h as int, h as int, 0x8000_0000, 0x8000_0000);
                    assert(w * w >= 0 && h * h >= 0) by (nonlinear_arith);
                }
                let sq: u128 = (w * w + h * h) as u128;
                let diagonal: u64 = isqrt(sq);
                proof {
                    lemma_floor_sqrt(sq as nat);
                    if diagonal > 0x1_0000_0000 {
                        assert(diagonal * diagonal > 0x8000_0000_0000_0000) by (nonlinear_arith)
                            requires
                                diagonal > 0x1_0000_0000,
                        ;
                    }
                }
                diagonal / 2
            },
        }
    }
}

impl Collider {
    /// Whether the shape comes within `margin` of the segment from `a` to
    /// `b`: its centre lies no farther from the segment than the margin and
    /// the shape's reach together.
    pub open spec fn touches(self, a: Position, b: Position, margin: int) -> bool {
        margin + self.shape.reach() >= 0 && segment_dist_sq(a, b, self.position) <= (margin
            + self.shape.reach()) * (margin + self.shape.reach())
    }

    /// Whether the shape comes within `margin` of one of the segments of
    /// the polyline `path`.
    pub open spec fn swept_by(self, path: Seq<Position>, margin: int) -> bool {
        exists|i: int|
            0 <= i && i + 1 < path.len() && #[trigger] self.touches(path[i], path[i + 1], margin)
    }

    /// The box around the shape before it is turned.
    pub open spec fn bounds(self) -> Aabb {
        let p = self.position;
        match self.shape {
            Shape::Circle { radius } => Aabb {
                min: pos(p.x - radius, p.y - radius),
                max: pos(p.x + radius, p.y + radius),
            },
            Shape::Rectangle { width, height } => Aabb {
                min: pos(p.x - div_trunc(width as int, 2), p.y - div_trunc(height as int, 2)),
                max: pos(p.x + div_trunc(width as int, 2), p.y + div_trunc(height as int, 2)),
            },
        }
    }

    /// The box around the shape before it is turned.
    pub fn compute_aabb(&self) -> (around: Aabb)
        ensures
            around == self.bounds(),
    {
        let p: Position = self.position;
        match self.shape {
            Shape::Circle { radius } => Aabb {
                min: p.translated(-(radius as i64), -(radius as i64)),
                max: p.translated(radius as i64, radius as i64),
            },
            Shape::Rectangle { width, height } => {
                let w: i64 = (width / 2) as i64;
                let h: i64 = (height / 2) as i64;
                Aabb { min: p.translated(-w, -h), max: p.translated(w, h) }
            },
        }
    }

    /// The shape `shape` at `position`, not turned.
    pub fn new(position: Position, shape: Shape) -> (collider: Collider)
        ensures
            collider == (Collider { position, rotation: 0, shape }),
    {
        Collider { position, rotation: 0, shape }
    }

    /// Whether the shape comes within `margin` of the segment from `a` to `b`.
    pub fn is_touched(&self, a: &Position, b: &Position, margin: Coord) -> (hit: bool)
        ensures
            hit == self.touches(*a, *b, margin as int),
    {
        let span: i128 = margin as i128 + self.shape.extent() as i128;
        if span < 0 {
            return false;
        }
        proof {
            lemma_product_bound(span as int, span as int, 0x2_0000_0000, 0x2_0000_0000);
        }
        segment_distance_sq(a, b, &self.position) <= (span * span) as u128
    }

    /// Whether the shape comes within `margin` of the polyline `path`.
    pub fn is_swept_by(&self, path: &Vec<Position>, margin: Coord) -> (hit: bool)
        ensures
            hit == self.swept_by(path@, margin as int),
    {
        let mut i: usize = 0;
        if path.len() < 2 {
            return false;
        }
        while i + 1 < path.len()
            invariant
                path.len() >= 2,
                0 <= i < path.len(),
                forall|j: int| 0 <= j < i ==> !#[trigger] self.touches(path[j], path[j + 1], margin as int),
            decreases path.len() - i,
        {
            if self.is_touched(&path[i], &path[i + 1], margin) {
                return true;
            }
            i = i + 1;
        }
        false
    }
}

/// A body that moves: where it is, how fast it moves and how fast it turns
/// (in thousandths of a radian per second).
#[derive(Debug, Clone, Copy, PartialEq, Eq, Structural)]
pub struct PhysicsBody {
    pub collider: Collider,
    pub velocity: Position,
    pub angular_velocity: Coord,
}

impl PhysicsBody {
    /// A body at rest.
    pub fn new(position: Position, shape: Shape) -> (body: PhysicsBody)
        ensures
            body == (PhysicsBody {
                collider: Collider { position, rotation: 0, shape },
                velocity: Position { x: 0, y: 0 },
                angular_velocity: 0,
            }),
    {
        PhysicsBody {
            collider: Collider::new(position, shape),
            velocity: Position { x: 0, y: 0 },
            angular_velocity: 0,
        }
    }
}

} // verus!
