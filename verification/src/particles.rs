//! Requests for particles, and the sampling of the points at which they appear.
//!
//! A shape of measure `m` asks for `density * m` particles. What is left
//! after the whole particles is settled by one draw with that chance, so that
//! the mean count is the expected one.

use vstd::prelude::*;
use crate::fixed::{div_trunc, lemma_product_bound, sat, scale, Coord, UNIT};
use crate::geometry::{direction_scaled, direction_toward, place, pos, Aabb, Position};

verus! {

/// Makes `rand::rngs::StdRng`, the generator that samples are drawn from,
/// known as a type of which nothing is said.
#[verifier::external_type_specification]
#[verifier::external_body]
pub struct ExStdRng(rand::rngs::StdRng);

/// Expected counts are kept in billionths of a particle.
pub const NANO: u128 = 1_000_000_000;

/// Pi, in billionths.
pub const PI_NANO: u128 = 3_141_592_654;

/// How often a point of a disc is drawn again before the centre is taken.
pub const DISC_TRIES: u8 = 64;

/// What a particle stands for.
#[derive(Debug, Clone, Copy, PartialEq, Eq, Structural)]
pub enum ParticleKind {
    Draw,
    Drawing,
    WallBreakable,
    WallBlock,
    Bounce,
    Damage,
    Upgrade,
    HitSelf,
    Shield,
    Heal,
}

/// The shape over which particles are spread.
#[derive(Debug, Clone)]
pub enum ParticleDistribution {
    /// A disc.
    Circle { center: Position, radius: Coord },
    /// A ribbon that reaches `width` to either side of a polyline.
    Drawing { points: Vec<Position>, width: Coord },
    /// A box.
    Aabb(Aabb),
}

/// A range of scalars, both ends included.
#[derive(Debug, Clone, Copy, PartialEq, Eq, Structural)]
pub struct Interval {
    pub min: i32,
    pub max: i32,
}

/// A request to spawn particles.
#[derive(Debug, Clone)]
pub struct SpawnParticles {
    pub kind: ParticleKind,
    /// Particles per square unit.
    pub density: Coord,
    pub distribution: ParticleDistribution,
    pub size: Interval,
    pub velocity: Position,
    pub lifetime: Interval,
}

/// A shape as plain values.
#[verifier::ext_equal]
pub enum DistributionView {
    Circle { center: Position, radius: Coord },
    Drawing { points: Seq<Position>, width: Coord },
    Aabb(Aabb),
}

/// A request as plain values.
#[verifier::ext_equal]
pub struct RequestView {
    pub kind: ParticleKind,
    pub density: Coord,
    pub distribution: DistributionView,
    pub size: Interval,
    pub velocity: Position,
    pub lifetime: Interval,
}

impl View for ParticleDistribution {
    type V = DistributionView;

    open spec fn view(&self) -> DistributionView {
        match *self {
            ParticleDistribution::Circle { center, radius } => DistributionView::Circle {
                center,
                radius,
            },
            ParticleDistribution::Drawing { points, width } => DistributionView::Drawing {
                points: points@,
                width,
            },
            ParticleDistribution::Aabb(area) => DistributionView::Aabb(area),
        }
    }
}

impl View for SpawnParticles {
    type V = RequestView;

    open spec fn view(&self) -> RequestView {
        RequestView {
            kind: self.kind,
            density: self.density,
            distribution: self.distribution@,
            size: self.size,
            velocity: self.velocity,
            lifetime: self.lifetime,
        }
    }
}

impl RequestView {
    /// The request for `kind` over `distribution` with the usual density,
    /// sizes and lifetimes.
    pub open spec fn usual(kind: ParticleKind, distribution: DistributionView) -> RequestView {
        RequestView {
            kind,
            density: 5000,
            distribution,
            size: Interval { min: 50, max: 150 },
            velocity: pos(0, 0),
            lifetime: Interval { min: 500, max: 1500 },
        }
    }
}

/// The whole particles of an expected count.
pub open spec fn certain(expected: nat) -> nat {
    expected / (NANO as nat)
}

/// What an expected count leaves after its whole particles, in billionths:
/// the chance of one particle more.
pub open spec fn fraction(expected: nat) -> nat {
    expected % (NANO as nat)
}

/// The most particles that an expected count can give.
pub open spec fn possible(expected: nat) -> nat {
    if fraction(expected) == 0 {
        certain(expected)
    } else {
        certain(expected) + 1
    }
}

/// The count realised from an expected count and the outcome of the draw.
pub open spec fn realised(expected: nat, extra: bool) -> nat {
    if extra {
        certain(expected) + 1
    } else {
        certain(expected)
    }
}

/// The expected count for a box.
pub open spec fn expected_in_box(density: int, area: Aabb) -> nat {
    if density > 0 && area.width() > 0 && area.height() > 0 {
        (density * area.width() * area.height()) as nat
    } else {
        0
    }
}

/// The expected count for a disc.
pub open spec fn expected_in_disc(density: int, radius: int) -> nat {
    if density > 0 {
        (density * radius * radius * PI_NANO / (NANO as int)) as nat
    } else {
        0
    }
}

/// The expected count for the ribbon around one span of a polyline.
pub open spec fn expected_on_span(density: int, a: Position, b: Position, width: int) -> nat {
    if density > 0 && width > 0 {
        (density * width * a.dist(b)) as nat
    } else {
        0
    }
}

/// The fewest particles that a ribbon can give: the whole particles of each span.
pub open spec fn ribbon_certain(points: Seq<Position>, density: int, width: int) -> nat
    decreases points.len(),
{
    if points.len() < 2 {
        0
    } else {
        ribbon_certain(points.drop_last(), density, width) + certain(
            expected_on_span(density, points[points.len() - 2], points[points.len() - 1], width),
        )
    }
}

/// The most particles that a ribbon can give.
pub open spec fn ribbon_possible(points: Seq<Position>, density: int, width: int) -> nat
    decreases points.len(),
{
    if points.len() < 2 {
        0
    } else {
        ribbon_possible(points.drop_last(), density, width) + possible(
            expected_on_span(density, points[points.len() - 2], points[points.len() - 1], width),
        )
    }
}

/// Whether `p` lies in the box, its edges included.
pub open spec fn in_box(area: Aabb, p: Position) -> bool {
    area.min.x <= p.x <= area.max.x && area.min.y <= p.y <= area.max.y
}

/// Whether `p` lies in the disc.
pub open spec fn in_disc(center: Position, radius: int, p: Position) -> bool {
    center.dist_sq(p) <= radius * radius
}

/// The point of the ribbon around the span from `a` to `b` that lies the
/// part `t` (in thousandths) along the span and the part `u` of `width` to
/// its left.
pub open spec fn ribbon_spot(a: Position, b: Position, width: int, t: int, u: int) -> Position {
    let along = direction_scaled(a, b, UNIT as int);
    let normal = pos(-along.y, along.x as int);
    pos(
        a.x + div_trunc((b.x - a.x) * t, UNIT as int) + div_trunc(normal.x * (width * u), 1_000_000),
        a.y + div_trunc((b.y - a.y) * t, UNIT as int) + div_trunc(normal.y * (width * u), 1_000_000),
    )
}

/// Whether `p` is a point of the ribbon around the span from `a` to `b`.
pub open spec fn on_span(a: Position, b: Position, width: int, p: Position) -> bool {
    exists|t: int, u: int|
        0 <= t <= UNIT && -UNIT <= u <= UNIT && p == #[trigger] ribbon_spot(a, b, width, t, u)
}

/// The number of points between cut `s` and the next.
pub open spec fn span_count(cuts: Seq<int>, s: int) -> int {
    cuts[s + 1] - cuts[s]
}

/// Whether `points` were sampled span by span along the polyline `line`,
/// with `cuts[s]` points before those of span `s`: the points of each span
/// follow those of the span before, their number is the whole part of the
/// span's expected count or one more, and each lies on that span's ribbon.
pub open spec fn sampled_span_by_span(
    line: Seq<Position>,
    density: int,
    width: int,
    points: Seq<Position>,
    cuts: Seq<int>,
) -> bool {
    &&& cuts.len() == line.len()
    &&& cuts[0] == 0
    &&& cuts[cuts.len() - 1] == points.len()
    &&& forall|s: int|
        0 <= s && s + 1 < line.len() ==> certain(
            expected_on_span(density, line[s], line[s + 1], width),
        ) <= #[trigger] span_count(cuts, s) <= possible(
            expected_on_span(density, line[s], line[s + 1], width),
        )
    &&& forall|s: int, i: int|
        0 <= s && s + 1 < line.len() && cuts[s] <= i < cuts[s + 1] ==> #[trigger] on_span(
            line[s],
            line[s + 1],
            width,
            points[i],
        )
}

/// Whether `p` is a point of the ribbon around the polyline `points`.
pub open spec fn on_ribbon(points: Seq<Position>, width: int, p: Position) -> bool {
    exists|i: int, t: int, u: int|
        0 <= i && i + 1 < points.len() && 0 <= t <= UNIT && -UNIT <= u <= UNIT && p
            == #[trigger] ribbon_spot(points[i], points[i + 1], width, t, u)
}

/// The whole particles and the chance of one more account for all of an
/// expected count: the mean of the realised count is the expected count.
pub proof fn lemma_count_is_unbiased(expected: nat)
    ensures
        certain(expected) * NANO + fraction(expected) == expected,
        fraction(expected) < NANO,
        (NANO - fraction(expected)) * realised(expected, false) + fraction(expected) * realised(
            expected,
            true,
        ) == expected,
        certain(expected) <= possible(expected) <= certain(expected) + 1,
{
    let c = certain(expected) as int;
    let f = fraction(expected) as int;
    assert((1_000_000_000 - f) * c + f * (c + 1) == c * 1_000_000_000 + f) by (nonlinear_arith);
}

/// Calls `rand::Rng::gen_ratio`, which returns `true` with a chance of
/// `numerator` in `denominator`: never when `numerator` is zero, always
/// when the two are equal. It panics unless `numerator <= denominator` and
/// `denominator > 0`.
#[verifier::external_body]
fn draw_ratio(rng: &mut rand::rngs::StdRng, numerator: u32, denominator: u32) -> (hit: bool)
    requires
        denominator > 0,
        numerator <= denominator,
    ensures
        numerator == 0 ==> !hit,
        numerator == denominator ==> hit,
{
    rand::Rng::gen_ratio(rng, numerator, denominator)
}

/// Calls `rand::Rng::gen_range` on `low..=high`, which returns a number of
/// that range. It panics when the range is empty.
#[verifier::external_body]
fn draw_between(rng: &mut rand::rngs::StdRng, low: i64, high: i64) -> (value: i64)
    requires
        low <= high,
    ensures
        low <= value <= high,
{
    rand::Rng::gen_range(rng, low..=high)
}

/// The count realised from an expected count and the outcome of the draw.
pub fn particle_count(expected: u128, extra: bool) -> (count: u128)
    ensures
        count == realised(expected as nat, extra),
{
    let whole: u128 = expected / NANO;
    if extra {
        whole + 1
    } else {
        whole
    }
}

/// The chance, in billionths, of one particle beyond the whole ones.
pub fn extra_chance(expected: u128) -> (chance: u32)
    ensures
        chance == fraction(expected as nat),
        chance < NANO,
{
    (expected % NANO) as u32
}

/// Draws whether there is one particle beyond the whole ones, and returns the count.
fn draw_count(rng: &mut rand::rngs::StdRng, expected: u128) -> (count: u128)
    ensures
        certain(expected as nat) <= count <= possible(expected as nat),
{
    let extra: bool = draw_ratio(rng, extra_chance(expected), 1_000_000_000);
    particle_count(expected, extra)
}

/// The expected count for a box, in billionths.
pub fn expect_in_box(density: Coord, area: &Aabb) -> (expected: u128)
    ensures
        expected == expected_in_box(density as int, *area),
{
    let w: i64 = area.width();
    let h: i64 = area.height();
    if density <= 0 || w <= 0 || h <= 0 {
        return 0;
    }
    proof {
        lemma_product_bound(density as int, w as int, 0x8000_0000, 0x1_0000_0000);
        lemma_product_bound(density * w, h as int, 0x8000_0000_0000_0000, 0x1_0000_0000);
    }
    density as u128 * w as u128 * h as u128
}

/// The expected count for a disc, in billionths.
pub fn expect_in_disc(density: Coord, radius: Coord) -> (expected: u128)
    ensures
        expected == expected_in_disc(density as int, radius as int),
{
    if density <= 0 {
        return 0;
    }
    let r: i128 = radius as i128;
    proof {
        lemma_product_bound(density as int, r as int, 0x8000_0000, 0x8000_0000);
        lemma_product_bound(density * r, r as int, 0x4000_0000_0000_0000, 0x8000_0000);
        lemma_product_bound(
            density * r * r,
            PI_NANO as int,
            0x2000_0000_0000_0000_0000_0000,
            0x1_0000_0000,
        );
        assert(density * r * r >= 0) by (nonlinear_arith)
            requires
                density > 0,
        ;
    }
    let scaled: i128 = density as i128 * r * r * (PI_NANO as i128);
    (scaled / 1_000_000_000) as u128
}

/// The expected count for the ribbon around the span from `a` to `b`, in billionths.
pub fn expect_on_span(density: Coord, a: &Position, b: &Position, width: Coord) -> (expected: u128)
    ensures
        expected == expected_on_span(density as int, *a, *b, width as int),
{
    if density <= 0 || width <= 0 {
        return 0;
    }
    let len: u64 = a.distance(b);
    proof {
        lemma_product_bound(density as int, width as int, 0x8000_0000, 0x8000_0000);
        lemma_product_bound(density * width, len as int, 0x4000_0000_0000_0000, 0x2_0000_0000);
    }
    density as u128 * width as u128 * len as u128
}

/// The point `(dx, dy)` away from `center`, if that is within `radius` of it.
pub fn disc_point(center: Position, radius: Coord, dx: i64, dy: i64) -> (point: Option<Position>)
    ensures
        point == if dx * dx + dy * dy <= radius * radius {
            Some(pos(center.x + dx, center.y + dy))
        } else {
            None::<Position>
        },
        point matches Some(p) ==> in_disc(center, radius as int, p),
{
    let r: i128 = radius as i128;
    proof {
        lemma_product_bound(r as int, r as int, 0x8000_0000, 0x8000_0000);
        assert(dy * dy >= 0) by (nonlinear_arith);
        assert(dx * dx >= 0) by (nonlinear_arith);
    }
    if dx > 0x8000_0000 || dx < -0x8000_0000 {
        assert(dx * dx > 0x4000_0000_0000_0000) by (nonlinear_arith)
            requires
                dx > 0x8000_0000 || dx < -0x8000_0000,
        ;
        return None;
    }
    if dy > 0x8000_0000 || dy < -0x8000_0000 {
        assert(dy * dy > 0x4000_0000_0000_0000) by (nonlinear_arith)
            requires
                dy > 0x8000_0000 || dy < -0x8000_0000,
        ;
        return None;
    }
    proof {
        lemma_product_bound(dx as int, dx as int, 0x8000_0000, 0x8000_0000);
        lemma_product_bound(dy as int, dy as int, 0x8000_0000, 0x8000_0000);
    }
    let x: i128 = dx as i128;
    let y: i128 = dy as i128;
    if x * x + y * y <= r * r {
        let p: Position = center.translated(dx, dy);
        proof {
            lemma_moved_no_farther(center.x as int, dx as int);
            lemma_moved_no_farther(center.y as int, dy as int);
            let mx = p.x - center.x;
            let my = p.y - center.y;
            assert(mx * mx >= 0 && my * my >= 0) by (nonlinear_arith);
        }
        Some(p)
    } else {
        None
    }
}

/// A scalar moved by `d`, and held in the scalar range, has moved by a
/// step whose square is at most that of `d`.
pub proof fn lemma_moved_no_farther(c: int, d: int)
    requires
        i32::MIN <= c <= i32::MAX,
    ensures
        (sat(c + d) - c) * (sat(c + d) - c) <= d * d,
{
    let m = sat(c + d) - c;
    assert(m * m <= d * d) by (nonlinear_arith)
        requires
            (0 <= m <= d) || (d <= m <= 0),
    ;
}

/// The point of the ribbon around the span from `a` to `b` that lies the
/// part `t` along the span and the part `u` of `width` to its left.
pub fn ribbon_point(a: &Position, b: &Position, width: Coord, t: i64, u: i64) -> (point: Position)
    requires
        0 <= t <= UNIT,
        -UNIT <= u <= UNIT,
    ensures
        point == ribbon_spot(*a, *b, width as int, t as int, u as int),
{
    let along: Position = direction_toward(a, b, UNIT);
    let normal: Position = along.rotate_90();
    proof {
        lemma_product_bound(width as int, u as int, 0x8000_0000, 1000);
    }
    let side: i128 = width as i128 * u as i128;
    let tx: i128 = scale(b.x as i64 - a.x as i64, t as i128, 1000);
    let ty: i128 = scale(b.y as i64 - a.y as i64, t as i128, 1000);
    let nx: i128 = scale(normal.x as i64, side, 1_000_000);
    let ny: i128 = scale(normal.y as i64, side, 1_000_000);
    proof {
        lemma_product_bound(b.x - a.x, t as int, 0x1_0000_0000, 1000);
        lemma_product_bound(b.y - a.y, t as int, 0x1_0000_0000, 1000);
        lemma_product_bound(normal.x as int, side as int, 0x8000_0000, 2_147_483_648_000);
        lemma_product_bound(normal.y as int, side as int, 0x8000_0000, 2_147_483_648_000);
    }
    place(a.x as i128 + tx + nx, a.y as i128 + ty + ny)
}

/// Samples a box: each coordinate of each point is drawn from the box's extent.
fn sample_box(area: &Aabb, rng: &mut rand::rngs::StdRng, density: Coord) -> (points: Vec<Position>)
    ensures
        certain(expected_in_box(density as int, *area)) <= points@.len() <= possible(
            expected_in_box(density as int, *area),
        ),
        forall|i: int| 0 <= i < points@.len() ==> in_box(*area, #[trigger] points@[i]),
{
    let expected: u128 = expect_in_box(density, area);
    let count: u128 = draw_count(rng, expected);
    let mut points: Vec<Position> = Vec::new();
    let mut i: u128 = 0;
    while i < count
        invariant
            i <= count,
            points@.len() == i,
            count > 0 ==> area.min.x <= area.max.x && area.min.y <= area.max.y,
            forall|j: int| 0 <= j < points@.len() ==> in_box(*area, #[trigger] points@[j]),
        decreases count - i,
    {
        let x: i64 = draw_between(rng, area.min.x as i64, area.max.x as i64);
        let y: i64 = draw_between(rng, area.min.y as i64, area.max.y as i64);
        points.push(Position { x: x as i32, y: y as i32 });
        i = i + 1;
    }
    points
}

/// Draws a point of the disc: a point of the square around it, drawn again
/// while it falls outside the disc, and after `DISC_TRIES` draws the centre.
fn sample_disc_point(center: Position, radius: Coord, rng: &mut rand::rngs::StdRng) -> (point:
    Position)
    ensures
        in_disc(center, radius as int, point),
{
    let r: i64 = if radius < 0 { -(radius as i64) } else { radius as i64 };
    let mut tries: u8 = 0;
    while tries < DISC_TRIES
        invariant
            0 <= r,
        decreases DISC_TRIES - tries,
    {
        let dx: i64 = draw_between(rng, -r, r);
        let dy: i64 = draw_between(rng, -r, r);
        match disc_point(center, radius, dx, dy) {
            Some(p) => {
                return p;
            },
            None => {},
        }
        tries = tries + 1;
    }
    assert(radius * radius >= 0) by (nonlinear_arith);
    center
}

/// Samples a disc.
fn sample_disc(center: Position, radius: Coord, rng: &mut rand::rngs::StdRng, density: Coord) -> (points:
    Vec<Position>)
    ensures
        certain(expected_in_disc(density as int, radius as int)) <= points@.len() <= possible(
            expected_in_disc(density as int, radius as int),
        ),
        forall|i: int| 0 <= i < points@.len() ==> in_disc(center, radius as int, #[trigger] points@[i]),
{
    let expected: u128 = expect_in_disc(density, radius);
    let count: u128 = draw_count(rng, expected);
    let mut points: Vec<Position> = Vec::new();
    let mut i: u128 = 0;
    while i < count
        invariant
            i <= count,
            points@.len() == i,
            forall|j: int|
                0 <= j < points@.len() ==> in_disc(center, radius as int, #[trigger] points@[j]),
        decreases count - i,
    {
        points.push(sample_disc_point(center, radius, rng));
        i = i + 1;
    }
    points
}

/// A point of the ribbon around a span of a polyline is a point of the
/// ribbon around the polyline.
pub proof fn lemma_on_span_is_on_ribbon(line: Seq<Position>, s: int, width: int, p: Position)
    requires
        0 <= s,
        s + 1 < line.len(),
        on_span(line[s], line[s + 1], width, p),
    ensures
        on_ribbon(line, width, p),
{
    let (t, u) = choose|t: int, u: int|
        0 <= t <= UNIT && -UNIT <= u <= UNIT && p == #[trigger] ribbon_spot(
            line[s],
            line[s + 1],
            width,
            t,
            u,
        );
    assert(p == ribbon_spot(line[s], line[s + 1], width, t, u));
}

/// Samples the ribbon around the span from `a` to `b` and adds the points
/// to `points`.
fn sample_span(
    a: &Position,
    b: &Position,
    width: Coord,
    rng: &mut rand::rngs::StdRng,
    density: Coord,
    points: &mut Vec<Position>,
)
    ensures
        final(points)@.len() >= old(points)@.len(),
        forall|j: int| 0 <= j < old(points)@.len() ==> #[trigger] final(points)@[j] == old(points)@[j],
        certain(expected_on_span(density as int, *a, *b, width as int)) <= final(points)@.len() - old(
            points,
        )@.len() <= possible(expected_on_span(density as int, *a, *b, width as int)),
        forall|j: int|
            old(points)@.len() <= j < final(points)@.len() ==> on_span(
                *a,
                *b,
                width as int,
                #[trigger] final(points)@[j],
            ),
{
    let expected: u128 = expect_on_span(density, a, b, width);
    let count: u128 = draw_count(rng, expected);
    let ghost before = points@;
    let mut i: u128 = 0;
    while i < count
        invariant
            i <= count,
            points@.len() == before.len() + i,
            forall|j: int| 0 <= j < before.len() ==> #[trigger] points@[j] == before[j],
            forall|j: int|
                before.len() <= j < points@.len() ==> on_span(
                    *a,
                    *b,
                    width as int,
                    #[trigger] points@[j],
                ),
        decreases count - i,
    {
        let u: i64 = draw_between(rng, -1000, 1000);
        let t: i64 = draw_between(rng, 0, 1000);
        let p: Position = ribbon_point(a, b, width, t, u);
        assert(on_span(*a, *b, width as int, p));
        points.push(p);
        i = i + 1;
    }
}

/// Samples the ribbon around a polyline, span by span.
fn sample_ribbon(line: &Vec<Position>, width: Coord, rng: &mut rand::rngs::StdRng, density: Coord) -> (points:
    Vec<Position>)
    ensures
        ribbon_certain(line@, density as int, width as int) <= points@.len() <= ribbon_possible(
            line@,
            density as int,
            width as int,
        ),
        forall|i: int| 0 <= i < points@.len() ==> on_ribbon(line@, width as int, #[trigger] points@[i]),
        line@.len() >= 2 ==> exists|cuts: Seq<int>| #[trigger]
            sampled_span_by_span(line@, density as int, width as int, points@, cuts),
{
    let mut points: Vec<Position> = Vec::new();
    if line.len() < 2 {
        return points;
    }
    let mut span: usize = 0;
    let ghost mut cuts: Seq<int> = seq![0int];
    while span + 1 < line.len()
        invariant
            line.len() >= 2,
            0 <= span < line.len(),
            ribbon_certain(line@.take(span + 1), density as int, width as int) <= points@.len()
                <= ribbon_possible(line@.take(span + 1), density as int, width as int),
            forall|i: int|
                0 <= i < points@.len() ==> on_ribbon(line@, width as int, #[trigger] points@[i]),
            cuts.len() == span + 1,
            cuts[0] == 0,
            cuts[span as int] == points@.len(),
            forall|s: int| 0 <= s < span ==> 0 <= #[trigger] cuts[s] <= cuts[s + 1],
            forall|s: int|
                0 <= s < span ==> certain(
                    expected_on_span(density as int, line@[s], line@[s + 1], width as int),
                ) <= #[trigger] span_count(cuts, s) <= possible(
                    expected_on_span(density as int, line@[s], line@[s + 1], width as int),
                ),
            forall|s: int, i: int|
                0 <= s < span && cuts[s] <= i < cuts[s + 1] ==> #[trigger] on_span(
                    line@[s],
                    line@[s + 1],
                    width as int,
                    points@[i],
                ),
        decreases line.len() - span,
    {
        let a: Position = line[span];
        let b: Position = line[span + 1];
        let ghost before = points@;
        sample_span(&a, &b, width, rng, density, &mut points);
        proof {
            let upto = line@.take(span + 2);
            assert(upto.drop_last() =~= line@.take(span + 1));
            let longer = cuts.push(points@.len() as int);
            assert forall|i: int| 0 <= i < points@.len() implies on_ribbon(
                line@,
                width as int,
                #[trigger] points@[i],
            ) by {
                if i < before.len() {
                    assert(points@[i] == before[i]);
                } else {
                    lemma_on_span_is_on_ribbon(line@, span as int, width as int, points@[i]);
                }
            }
            assert forall|s: int| 0 <= s < span + 1 implies certain(
                expected_on_span(density as int, line@[s], line@[s + 1], width as int),
            ) <= #[trigger] span_count(longer, s) <= possible(
                expected_on_span(density as int, line@[s], line@[s + 1], width as int),
            ) by {
                if s < span {
                    assert(span_count(longer, s) == span_count(cuts, s));
                }
            }
            assert forall|s: int, i: int|
                0 <= s < span + 1 && longer[s] <= i < longer[s + 1] implies #[trigger] on_span(
                line@[s],
                line@[s + 1],
                width as int,
                points@[i],
            ) by {
                if s < span {
                    assert(cuts[s] <= i < cuts[s + 1]);
                    assert(0 <= cuts[s + 1] <= before.len()) by {
                        lemma_cuts_grow(cuts, s + 1, span as int);
                    }
                    assert(points@[i] == before[i]);
                    assert(on_span(line@[s], line@[s + 1], width as int, before[i]));
                }
            }
            assert forall|s: int| 0 <= s < span + 1 implies 0 <= #[trigger] longer[s] <= longer[s + 1] by {
                if s < span {
                    assert(0 <= cuts[s] <= cuts[s + 1]);
                }
            }
            cuts = longer;
        }
        span = span + 1;
    }
    assert(line@.take(line.len() as int) =~= line@);
    assert(sampled_span_by_span(line@, density as int, width as int, points@, cuts));
    points
}

/// Cuts that start at zero and never fall grow from each to every later one.
proof fn lemma_cuts_grow(cuts: Seq<int>, from: int, to: int)
    requires
        0 <= from <= to < cuts.len(),
        cuts[0] == 0,
        forall|s: int| 0 <= s < cuts.len() - 1 ==> 0 <= #[trigger] cuts[s] <= cuts[s + 1],
    ensures
        0 <= cuts[from] <= cuts[to],
    decreases to - from,
{
    if from < to {
        assert(0 <= cuts[from] <= cuts[from + 1]);
        lemma_cuts_grow(cuts, from + 1, to);
    } else if from > 0 {
        assert(0 <= cuts[from - 1] <= cuts[from]);
    }
}

impl DistributionView {
    /// What holds of every sample of the shape at `density`: the number of
    /// points is the whole part of the expected count or one more, and every
    /// point lies in the shape. A ribbon is sampled span by span, in the
    /// order of its spans, and this holds of each span.
    pub open spec fn admits(self, density: int, points: Seq<Position>) -> bool {
        match self {
            DistributionView::Aabb(area) => {
                &&& certain(expected_in_box(density, area)) <= points.len() <= possible(
                    expected_in_box(density, area),
                )
                &&& forall|i: int| 0 <= i < points.len() ==> in_box(area, #[trigger] points[i])
            },
            DistributionView::Circle { center, radius } => {
                &&& certain(expected_in_disc(density, radius as int)) <= points.len() <= possible(
                    expected_in_disc(density, radius as int),
                )
                &&& forall|i: int|
                    0 <= i < points.len() ==> in_disc(center, radius as int, #[trigger] points[i])
            },
            DistributionView::Drawing { points: line, width } => {
                &&& ribbon_certain(line, density, width as int) <= points.len() <= ribbon_possible(
                    line,
                    density,
                    width as int,
                )
                &&& forall|i: int|
                    0 <= i < points.len() ==> on_ribbon(line, width as int, #[trigger] points[i])
                &&& line.len() >= 2 ==> exists|cuts: Seq<int>| #[trigger]
                    sampled_span_by_span(line, density, width as int, points, cuts)
            },
        }
    }
}

impl ParticleDistribution {
    /// What holds of every sample of the shape at `density`.
    pub open spec fn admits(&self, density: int, points: Seq<Position>) -> bool {
        self@.admits(density, points)
    }

    /// Draws the points at which particles of the given density appear.
    pub fn sample(&self, rng: &mut rand::rngs::StdRng, density: Coord) -> (points: Vec<Position>)
        ensures
            self.admits(density as int, points@),
    {
        match self {
            ParticleDistribution::Aabb(area) => sample_box(area, rng, density),
            ParticleDistribution::Circle { center, radius } => sample_disc(
                *center,
                *radius,
                rng,
                density,
            ),
            ParticleDistribution::Drawing { points, width } => sample_ribbon(
                points,
                *width,
                rng,
                density,
            ),
        }
    }
}

impl SpawnParticles {
    /// A request for particles of `kind` over `distribution`, at five
    /// particles per square unit, 0.05 to 0.15 units large, at rest, that
    /// live for half a second to one and a half.
    pub fn new(kind: ParticleKind, distribution: ParticleDistribution) -> (request: SpawnParticles)
        ensures
            request.distribution == distribution,
            request@ == RequestView::usual(kind, distribution@),
    {
        SpawnParticles {
            kind,
            density: 5000,
            distribution,
            size: Interval { min: 50, max: 150 },
            velocity: Position::zero(),
            lifetime: Interval { min: 500, max: 1500 },
        }
    }
}

impl Default for SpawnParticles {
    /// Particles of a stroke over a disc of radius one half around the origin.
    fn default() -> (request: Self)
        ensures
            request@ == RequestView::usual(
                ParticleKind::Draw,
                DistributionView::Circle { center: pos(0, 0), radius: 500 },
            ),
    {
        SpawnParticles::new(
            ParticleKind::Draw,
            ParticleDistribution::Circle { center: Position::zero(), radius: 500 },
        )
    }
}

} // verus!
