//! Points, boxes and the vector arithmetic that strokes are built from.

use vstd::prelude::*;
use crate::fixed::{
    div_trunc, floor_sqrt, isqrt, lemma_div_trunc, lemma_floor_sqrt, lemma_product_bound, sat,
    saturate_wide, scale, Coord,
};

verus! {

/// A point of the world, or a vector between two of them.
#[derive(Clone, Copy, Debug, PartialEq, Eq, Structural)]
pub struct Position {
    pub x: Coord,
    pub y: Coord,
}

/// The point with the given coordinates, each moved into the scalar range.
pub open spec fn pos(x: int, y: int) -> Position {
    Position { x: sat(x) as i32, y: sat(y) as i32 }
}

/// The scalar product of `p - a` and `b - a`.
pub open spec fn dot_from(a: Position, b: Position, p: Position) -> int {
    (p.x - a.x) * (b.x - a.x) + (p.y - a.y) * (b.y - a.y)
}

/// Where a walk from `from` toward `to` ends when it may cover at most
/// `reach`: at `to` if that is near enough, else on the way, the vector
/// shortened to `reach` and rounded toward `from`.
pub open spec fn step_toward(from: Position, to: Position, reach: int) -> Position {
    let len = from.dist(to) as int;
    let r = if reach < 0 { 0 } else { reach };
    if len <= r {
        to
    } else {
        pos(
            from.x + div_trunc((to.x - from.x) * r, len),
            from.y + div_trunc((to.y - from.y) * r, len),
        )
    }
}

/// The vector from `from` toward `to` with length `magnitude`, rounded toward
/// zero; the zero vector when the two points are less than a thousandth apart.
pub open spec fn direction_scaled(from: Position, to: Position, magnitude: int) -> Position {
    let len = from.dist(to) as int;
    if len == 0 {
        pos(0, 0)
    } else {
        pos(
            div_trunc((to.x - from.x) * magnitude, len),
            div_trunc((to.y - from.y) * magnitude, len),
        )
    }
}

/// The point of the segment from `a` to `b` that is nearest to `p`, rounded
/// toward `a`.
pub open spec fn closest_on_segment(a: Position, b: Position, p: Position) -> Position {
    let len_sq = a.dist_sq(b) as int;
    let dot = dot_from(a, b, p);
    if dot <= 0 {
        a
    } else if dot >= len_sq {
        b
    } else {
        pos(
            a.x + div_trunc((b.x - a.x) * dot, len_sq),
            a.y + div_trunc((b.y - a.y) * dot, len_sq),
        )
    }
}

/// The squared distance between `p` and the segment from `a` to `b`.
pub open spec fn segment_dist_sq(a: Position, b: Position, p: Position) -> nat {
    p.dist_sq(closest_on_segment(a, b, p))
}

/// One coordinate of a vector shortened from length `len` to `r`: it keeps
/// its sign, does not grow, and its square shrinks at least as the lengths do.
pub proof fn lemma_shortened_component(d: int, r: int, len: int)
    requires
        0 <= r < len,
    ensures
        d >= 0 ==> 0 <= div_trunc(d * r, len) <= d,
        d <= 0 ==> d <= div_trunc(d * r, len) <= 0,
        div_trunc(d * r, len) * div_trunc(d * r, len) * (len * len) <= d * d * (r * r),
{
    let q = div_trunc(d * r, len);
    lemma_div_trunc(d * r, len);
    if d >= 0 {
        assert(0 <= q <= d) by (nonlinear_arith)
            requires
                0 <= q * len <= d * r,
                0 <= r < len,
                d >= 0,
        ;
        assert(q * q * (len * len) <= d * d * (r * r)) by (nonlinear_arith)
            requires
                0 <= q * len <= d * r,
        ;
    } else {
        assert(d * r <= 0) by (nonlinear_arith)
            requires
                d <= 0,
                r >= 0,
        ;
        assert(d <= q <= 0) by (nonlinear_arith)
            requires
                d * r <= q * len <= 0,
                0 <= r < len,
                d <= 0,
        ;
        assert(q * q * (len * len) <= d * d * (r * r)) by (nonlinear_arith)
            requires
                d * r <= q * len <= 0,
        ;
    }
}

/// A vector whose squared length, scaled by `len * len`, stays under that of
/// a vector of integer length `len` scaled by `r * r`, is at most `r` long.
pub proof fn lemma_shortened_length(s: int, d: int, r: int, len: int)
    requires
        0 <= r < len,
        0 <= s,
        d < (len + 1) * (len + 1),
        s * (len * len) <= d * (r * r),
    ensures
        s < (r + 1) * (r + 1),
{
    if s >= (r + 1) * (r + 1) {
        assert(d * (r * r) <= ((len + 1) * r) * ((len + 1) * r)) by (nonlinear_arith)
            requires
                d <= (len + 1) * (len + 1),
        ;
        assert(((r + 1) * len) * ((r + 1) * len) <= s * (len * len)) by (nonlinear_arith)
            requires
                s >= (r + 1) * (r + 1),
        ;
        let x = (r + 1) * len;
        let y = (len + 1) * r;
        assert(x <= y) by (nonlinear_arith)
            requires
                x * x <= y * y,
                x >= 0,
                y >= 0,
        ;
        assert(x > y) by (nonlinear_arith)
            requires
                0 <= r < len,
                x == (r + 1) * len,
                y == (len + 1) * r,
        ;
    }
}

/// A walk that may cover `reach` ends within `reach` of its start, and in
/// the box spanned by start and goal.
pub proof fn lemma_step_within_reach(from: Position, to: Position, reach: int)
    requires
        reach >= 0,
    ensures
        from.dist(step_toward(from, to, reach)) <= reach,
        from.dist(step_toward(from, to, reach)) <= from.dist(to),
        from.dist(to) <= reach ==> step_toward(from, to, reach) == to,
{
    let len = from.dist(to) as int;
    let d = from.dist_sq(to) as int;
    lemma_floor_sqrt(from.dist_sq(to));
    if len > reach {
        let dx = to.x - from.x;
        let dy = to.y - from.y;
        let qx = div_trunc(dx * reach, len);
        let qy = div_trunc(dy * reach, len);
        assert(dx * dx + dy * dy >= 0) by (nonlinear_arith);
        lemma_shortened_component(dx, reach, len);
        lemma_shortened_component(dy, reach, len);
        let s = qx * qx + qy * qy;
        assert(s >= 0) by (nonlinear_arith)
            requires
                s == qx * qx + qy * qy,
        ;
        assert(s * (len * len) <= d * (reach * reach)) by (nonlinear_arith)
            requires
                s == qx * qx + qy * qy,
                d == dx * dx + dy * dy,
                qx * qx * (len * len) <= dx * dx * (reach * reach),
                qy * qy * (len * len) <= dy * dy * (reach * reach),
        ;
        lemma_shortened_length(s, d, reach, len);
        lemma_floor_sqrt(s as nat);
        let e = floor_sqrt(s as nat) as int;
        if e > reach {
            assert(e * e >= (reach + 1) * (reach + 1)) by (nonlinear_arith)
                requires
                    e >= reach + 1,
                    reach >= 0,
            ;
        }
    }
}

/// The square of a scalar product is at most the product of the squared lengths.
pub proof fn lemma_cauchy_schwarz(x1: int, y1: int, x2: int, y2: int)
    ensures
        (x1 * x2 + y1 * y2) * (x1 * x2 + y1 * y2) <= (x1 * x1 + y1 * y1) * (x2 * x2 + y2 * y2),
{
    let xx = x1 * x2;
    let yy = y1 * y2;
    let xy = x1 * y2;
    let yx = y1 * x2;
    assert((x1 * x1) * (x2 * x2) == xx * xx) by (nonlinear_arith)
        requires
            xx == x1 * x2,
    ;
    assert((y1 * y1) * (y2 * y2) == yy * yy) by (nonlinear_arith)
        requires
            yy == y1 * y2,
    ;
    assert((x1 * x1) * (y2 * y2) == xy * xy) by (nonlinear_arith)
        requires
            xy == x1 * y2,
    ;
    assert((y1 * y1) * (x2 * x2) == yx * yx) by (nonlinear_arith)
        requires
            yx == y1 * x2,
    ;
    assert(xy * yx == xx * yy) by (nonlinear_arith)
        requires
            xx == x1 * x2,
            yy == y1 * y2,
            xy == x1 * y2,
            yx == y1 * x2,
    ;
    let a = x1 * x1;
    let b = y1 * y1;
    let c = x2 * x2;
    let d = y2 * y2;
    assert((a + b) * (c + d) == a * c + a * d + b * c + b * d) by (nonlinear_arith);
    assert((xx + yy) * (xx + yy) == xx * xx + 2 * (xx * yy) + yy * yy) by (nonlinear_arith);
    assert(xy * xy + yx * yx - 2 * (xy * yx) == (xy - yx) * (xy - yx)) by (nonlinear_arith);
    assert((xy - yx) * (xy - yx) >= 0) by (nonlinear_arith);
}

/// The distance, rounded down as it is, obeys the triangle inequality up to
/// one thousandth.
pub proof fn lemma_triangle(a: Position, b: Position, c: Position)
    ensures
        a.dist(c) <= a.dist(b) + b.dist(c) + 1,
{
    let x1 = b.x - a.x;
    let y1 = b.y - a.y;
    let x2 = c.x - b.x;
    let y2 = c.y - b.y;
    let s1 = x1 * x1 + y1 * y1;
    let s2 = x2 * x2 + y2 * y2;
    let s3 = (x1 + x2) * (x1 + x2) + (y1 + y2) * (y1 + y2);
    let dot = x1 * x2 + y1 * y2;
    let p = a.dist(b) + 1;
    let q = b.dist(c) + 1;
    let e = a.dist(c) as int;
    assert(s1 >= 0 && s2 >= 0 && s3 >= 0) by (nonlinear_arith)
        requires
            s1 == x1 * x1 + y1 * y1,
            s2 == x2 * x2 + y2 * y2,
            s3 == (x1 + x2) * (x1 + x2) + (y1 + y2) * (y1 + y2),
    ;
    assert(a.dist_sq(b) == s1);
    assert(b.dist_sq(c) == s2);
    assert(a.dist_sq(c) == s3);
    lemma_floor_sqrt(a.dist_sq(b));
    lemma_floor_sqrt(b.dist_sq(c));
    lemma_floor_sqrt(a.dist_sq(c));
    lemma_cauchy_schwarz(x1, y1, x2, y2);
    assert(s1 * s2 < (p * p) * (q * q)) by (nonlinear_arith)
        requires
            0 <= s1 < p * p,
            0 <= s2 < q * q,
    ;
    assert(dot < p * q) by (nonlinear_arith)
        requires
            dot * dot < (p * p) * (q * q),
            p > 0,
            q > 0,
    ;
    assert(s3 < (p + q) * (p + q)) by (nonlinear_arith)
        requires
            s3 == (x1 + x2) * (x1 + x2) + (y1 + y2) * (y1 + y2),
            s1 == x1 * x1 + y1 * y1,
            s2 == x2 * x2 + y2 * y2,
            dot == x1 * x2 + y1 * y2,
            s1 < p * p,
            s2 < q * q,
            dot < p * q,
    ;
    assert(e < p + q) by (nonlinear_arith)
        requires
            e * e <= s3,
            s3 < (p + q) * (p + q),
            e >= 0,
            p + q > 0,
    ;
}

impl Position {
    /// The squared distance to `other`.
    pub open spec fn dist_sq(self, other: Position) -> nat {
        ((other.x - self.x) * (other.x - self.x) + (other.y - self.y) * (other.y - self.y)) as nat
    }

    /// The distance to `other`, rounded down.
    pub open spec fn dist(self, other: Position) -> nat {
        floor_sqrt(self.dist_sq(other))
    }

    /// The point `(x, y)`.
    pub fn new(x: Coord, y: Coord) -> (p: Position)
        ensures
            p == (Position { x, y }),
    {
        Position { x, y }
    }

    /// The origin, and the zero vector.
    pub fn zero() -> (p: Position)
        ensures
            p == pos(0, 0),
    {
        Position { x: 0, y: 0 }
    }

    /// The squared distance to `other`.
    pub fn distance_sq(&self, other: &Position) -> (r: u128)
        ensures
            r == self.dist_sq(*other),
            r <= 0x2_0000_0000_0000_0000,
    {
        let dx: i128 = other.x as i128 - self.x as i128;
        let dy: i128 = other.y as i128 - self.y as i128;
        proof {
            lemma_product_bound(dx as int, dx as int, 0x1_0000_0000, 0x1_0000_0000);
            lemma_product_bound(dy as int, dy as int, 0x1_0000_0000, 0x1_0000_0000);
            assert(dx * dx >= 0) by (nonlinear_arith);
            assert(dy * dy >= 0) by (nonlinear_arith);
        }
        let sq: i128 = dx * dx + dy * dy;
        sq as u128
    }

    /// The distance to `other`, rounded down.
    pub fn distance(&self, other: &Position) -> (r: u64)
        ensures
            r == self.dist(*other),
            r <= 0x2_0000_0000,
    {
        let sq: u128 = self.distance_sq(other);
        let r: u64 = isqrt(sq);
        proof {
            lemma_floor_sqrt(sq as nat);
            if r > 0x2_0000_0000 {
                assert(r * r > 0x2_0000_0000_0000_0000) by (nonlinear_arith)
                    requires
                        r > 0x2_0000_0000,
                ;
            }
        }
        r
    }

    /// This point moved by `(dx, dy)`.
    pub fn translated(&self, dx: i64, dy: i64) -> (p: Position)
        ensures
            p == pos(self.x + dx, self.y + dy),
    {
        place(self.x as i128 + dx as i128, self.y as i128 + dy as i128)
    }

    /// This vector turned a quarter turn counter-clockwise.
    pub fn rotate_90(&self) -> (p: Position)
        ensures
            p == pos(-self.y, self.x as int),
    {
        place(-(self.y as i128), self.x as i128)
    }
}

/// The point with the given coordinates, each moved into the scalar range.
pub fn place(x: i128, y: i128) -> (p: Position)
    ensures
        p == pos(x as int, y as int),
{
    Position { x: saturate_wide(x), y: saturate_wide(y) }
}

/// Walks from `from` toward `to`, at most `reach` far.
pub fn walk_toward(from: &Position, to: &Position, reach: i64) -> (p: Position)
    ensures
        p == step_toward(*from, *to, reach as int),
{
    let len: u64 = from.distance(to);
    let r: i64 = if reach < 0 { 0 } else { reach };
    if len as i64 <= r {
        *to
    } else {
        let sx: i128 = scale(to.x as i64 - from.x as i64, r as i128, len as i128);
        let sy: i128 = scale(to.y as i64 - from.y as i64, r as i128, len as i128);
        proof {
            lemma_product_bound(to.x - from.x, r as int, 0x1_0000_0000, 0x2_0000_0000);
            lemma_product_bound(to.y - from.y, r as int, 0x1_0000_0000, 0x2_0000_0000);
        }
        place(from.x as i128 + sx, from.y as i128 + sy)
    }
}

/// The vector from `from` toward `to`, `magnitude` long.
pub fn direction_toward(from: &Position, to: &Position, magnitude: i32) -> (v: Position)
    ensures
        v == direction_scaled(*from, *to, magnitude as int),
{
    let len: u64 = from.distance(to);
    if len == 0 {
        Position::zero()
    } else {
        let vx: i128 = scale(to.x as i64 - from.x as i64, magnitude as i128, len as i128);
        let vy: i128 = scale(to.y as i64 - from.y as i64, magnitude as i128, len as i128);
        place(vx, vy)
    }
}

/// The point of the segment from `a` to `b` nearest to `p`.
pub fn nearest_on_segment(a: &Position, b: &Position, p: &Position) -> (c: Position)
    ensures
        c == closest_on_segment(*a, *b, *p),
{
    let len_sq: u128 = a.distance_sq(b);
    let ux: i128 = b.x as i128 - a.x as i128;
    let uy: i128 = b.y as i128 - a.y as i128;
    let vx: i128 = p.x as i128 - a.x as i128;
    let vy: i128 = p.y as i128 - a.y as i128;
    proof {
        lemma_product_bound(vx as int, ux as int, 0x1_0000_0000, 0x1_0000_0000);
        lemma_product_bound(vy as int, uy as int, 0x1_0000_0000, 0x1_0000_0000);
    }
    let dot: i128 = vx * ux + vy * uy;
    if dot <= 0 {
        *a
    } else if dot >= len_sq as i128 {
        *b
    } else {
        let sx: i128 = scale(ux as i64, dot, len_sq as i128);
        let sy: i128 = scale(uy as i64, dot, len_sq as i128);
        proof {
            lemma_product_bound(ux as int, dot as int, 0x1_0000_0000, 0x2_0000_0000_0000_0000);
            lemma_product_bound(uy as int, dot as int, 0x1_0000_0000, 0x2_0000_0000_0000_0000);
        }
        place(a.x as i128 + sx, a.y as i128 + sy)
    }
}

/// The squared distance between `p` and the segment from `a` to `b`.
pub fn segment_distance_sq(a: &Position, b: &Position, p: &Position) -> (r: u128)
    ensures
        r == segment_dist_sq(*a, *b, *p),
{
    let c: Position = nearest_on_segment(a, b, p);
    p.distance_sq(&c)
}

/// An axis-aligned box: `min` is its lower left corner, `max` its upper right.
#[derive(Clone, Copy, Debug, PartialEq, Eq, Structural)]
pub struct Aabb {
    pub min: Position,
    pub max: Position,
}

impl Aabb {
    /// Whether `p` lies in the box; the lower and left edges belong to it,
    /// the upper and right edges do not.
    pub open spec fn holds(self, p: Position) -> bool {
        self.min.x <= p.x < self.max.x && self.min.y <= p.y < self.max.y
    }

    /// The extent along x.
    pub open spec fn spec_width(&self) -> i64 {
        (self.max.x - self.min.x) as i64
    }

    /// The extent along y.
    pub open spec fn spec_height(&self) -> i64 {
        (self.max.y - self.min.y) as i64
    }

    /// The box moved by `(dx, dy)`.
    pub open spec fn shifted(self, dx: int, dy: int) -> Aabb {
        Aabb { min: pos(self.min.x + dx, self.min.y + dy), max: pos(self.max.x + dx, self.max.y + dy) }
    }

    /// The box around the origin that reaches `half` to each side.
    pub fn centered(half: Position) -> (b: Aabb)
        ensures
            b == (Aabb { min: pos(-half.x, -half.y), max: half }),
    {
        Aabb { min: place(-(half.x as i128), -(half.y as i128)), max: half }
    }

    /// Whether `p` lies in the box.
    pub fn contains(&self, p: &Position) -> (inside: bool)
        ensures
            inside == self.holds(*p),
    {
        self.min.x <= p.x && p.x < self.max.x && self.min.y <= p.y && p.y < self.max.y
    }

    /// The extent along x; negative for a box turned inside out.
    #[verifier::when_used_as_spec(spec_width)]
    pub fn width(&self) -> (w: i64)
        ensures
            w == self.max.x - self.min.x,
            w == self.spec_width(),
    {
        self.max.x as i64 - self.min.x as i64
    }

    /// The extent along y; negative for a box turned inside out.
    #[verifier::when_used_as_spec(spec_height)]
    pub fn height(&self) -> (h: i64)
        ensures
            h == self.max.y - self.min.y,
            h == self.spec_height(),
    {
        self.max.y as i64 - self.min.y as i64
    }

    /// The box moved by `(dx, dy)`.
    pub fn translate(&self, dx: i64, dy: i64) -> (b: Aabb)
        ensures
            b == self.shifted(dx as int, dy as int),
    {
        Aabb { min: self.min.translated(dx, dy), max: self.max.translated(dx, dy) }
    }
}

} // verus!
