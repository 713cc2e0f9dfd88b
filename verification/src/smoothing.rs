//! Turns the raw points of a stroke into the curve that is shown and swept.
//!
//! Points that nearly repeat their predecessor are dropped. Up to two
//! remaining points are joined by straight lines; more are joined by a cardinal
//! spline of tension one half, each span cut into three pieces.

use vstd::prelude::*;
use crate::fixed::div_round;
use crate::geometry::{pos, place, Position};

verus! {

/// Two points merge when their squared distance is below this: 0.01 square units.
pub const MERGE_DISTANCE_SQ: u128 = 10_000;

/// The number of pieces that each span of the spline is cut into.
pub const SUBDIVISIONS: usize = 3;

/// Whether `b` is too near `a` to be kept after it.
pub open spec fn merges(a: Position, b: Position) -> bool {
    a.dist_sq(b) < MERGE_DISTANCE_SQ
}

/// `points` without those that merge with the last point kept before them.
pub open spec fn dedup(points: Seq<Position>) -> Seq<Position>
    decreases points.len(),
{
    if points.len() == 0 {
        Seq::empty()
    } else {
        let kept = dedup(points.drop_last());
        if kept.len() > 0 && merges(kept.last(), points.last()) {
            kept
        } else {
            kept.push(points.last())
        }
    }
}

/// Twice the tangent of the spline at control point `i`: the step between its
/// two neighbours, or at either end the step of the one span there.
pub open spec fn twice_tangent(control: Seq<Position>, i: int) -> (int, int) {
    let before = if i == 0 { control[0] } else { control[i - 1] };
    let after = if i == control.len() - 1 { control[i] } else { control[i + 1] };
    (after.x - before.x, after.y - before.y)
}

/// 54 times one coordinate, at parameter `k / 3` for `k` from 0 to 3, of the
/// cubic Hermite curve that runs from `a` to `b` with tangents `da / 2` and
/// `db / 2`.
pub open spec fn hermite_54(a: int, b: int, da: int, db: int, k: int) -> int {
    if k <= 0 {
        54 * a
    } else if k == 1 {
        40 * a + 4 * da + 14 * b - 2 * db
    } else if k == 2 {
        14 * a + 2 * da + 40 * b - 4 * db
    } else {
        54 * b
    }
}

/// The weights of `hermite_54` are the cubic Hermite basis polynomials
/// `2t^3 - 3t^2 + 1`, `t^3 - 2t^2 + t`, `-2t^3 + 3t^2` and `t^3 - t^2` at
/// `t = k / 3`, the tangents halved, all times 54.
pub proof fn lemma_hermite_basis(a: int, b: int, da: int, db: int, k: int)
    requires
        0 <= k <= 3,
    ensures
        hermite_54(a, b, da, db, k) == 2 * (2 * (k * k * k) - 9 * (k * k) + 27) * a + (k * k * k
            - 6 * (k * k) + 9 * k) * da + 2 * (9 * (k * k) - 2 * (k * k * k)) * b + (k * k * k - 3
            * (k * k)) * db,
{
    let k2 = k * k;
    let k3 = k * k * k;
    let wa = 2 * (2 * k3 - 9 * k2 + 27);
    let wda = k3 - 6 * k2 + 9 * k;
    let wb = 2 * (9 * k2 - 2 * k3);
    let wdb = k3 - 3 * k2;
    assert(wa * a + wda * da + wb * b + wdb * db == hermite_54(a, b, da, db, k)) by (nonlinear_arith)
        requires
            (k == 0 && wa == 54 && wda == 0 && wb == 0 && wdb == 0) || (k == 1 && wa == 40 && wda
                == 4 && wb == 14 && wdb == -2) || (k == 2 && wa == 14 && wda == 2 && wb == 40
                && wdb == -4) || (k == 3 && wa == 0 && wda == 0 && wb == 54 && wdb == 0),
            hermite_54(a, b, da, db, k) == if k <= 0 {
                54 * a
            } else if k == 1 {
                40 * a + 4 * da + 14 * b - 2 * db
            } else if k == 2 {
                14 * a + 2 * da + 40 * b - 4 * db
            } else {
                54 * b
            },
    ;
}

/// The point at parameter `k / 3` of the span from `control[span]` to
/// `control[span + 1]`, rounded to the nearest thousandth.
pub open spec fn span_point(control: Seq<Position>, span: int, k: int) -> Position {
    let a = control[span];
    let b = control[span + 1];
    let da = twice_tangent(control, span);
    let db = twice_tangent(control, span + 1);
    pos(
        div_round(hermite_54(a.x as int, b.x as int, da.0, db.0, k), 54),
        div_round(hermite_54(a.y as int, b.y as int, da.1, db.1, k), 54),
    )
}

/// Vertex `j` of the spline: the first control point, then three vertices for
/// each span, the third of them the span's end.
pub open spec fn spline_vertex(control: Seq<Position>, j: int) -> Position {
    if j == 0 {
        control[0]
    } else {
        span_point(control, (j - 1) / 3, j - 3 * ((j - 1) / 3))
    }
}

/// The vertices of the spline through `control`, which holds at least two points.
pub open spec fn spline(control: Seq<Position>) -> Seq<Position> {
    Seq::new((3 * (control.len() - 1) + 1) as nat, |j: int| spline_vertex(control, j))
}

/// The curve drawn for the raw points `raw`.
pub open spec fn smoothed(raw: Seq<Position>) -> Seq<Position> {
    let control = dedup(raw);
    if control.len() < 3 {
        control
    } else {
        spline(control)
    }
}

/// What is kept of a stroke is no longer than the stroke, starts where it
/// starts, and is empty only if the stroke is.
pub proof fn lemma_dedup_shape(points: Seq<Position>)
    ensures
        dedup(points).len() <= points.len(),
        points.len() > 0 ==> dedup(points).len() > 0 && dedup(points)[0] == points[0],
    decreases points.len(),
{
    if points.len() > 0 {
        lemma_dedup_shape(points.drop_last());
    }
}

/// No point that is kept merges with the one kept before it.
pub proof fn lemma_dedup_separates(points: Seq<Position>)
    ensures
        forall|i: int|
            0 <= i && i + 1 < dedup(points).len() ==> !merges(
                #[trigger] dedup(points)[i],
                dedup(points)[i + 1],
            ),
    decreases points.len(),
{
    if points.len() > 0 {
        let front = points.drop_last();
        lemma_dedup_separates(front);
        assert forall|i: int| 0 <= i && i + 1 < dedup(points).len() implies !merges(
            #[trigger] dedup(points)[i],
            dedup(points)[i + 1],
        ) by {
            if i + 1 < dedup(front).len() {
                assert(!merges(dedup(front)[i], dedup(front)[i + 1]));
            }
        }
    }
}

/// Every point that is kept is a point of the stroke.
pub proof fn lemma_dedup_keeps_points(points: Seq<Position>)
    ensures
        forall|i: int|
            0 <= i < dedup(points).len() ==> points.contains(#[trigger] dedup(points)[i]),
    decreases points.len(),
{
    if points.len() > 0 {
        let front = points.drop_last();
        lemma_dedup_keeps_points(front);
        assert forall|i: int| 0 <= i < dedup(points).len() implies points.contains(
            #[trigger] dedup(points)[i],
        ) by {
            if i < dedup(front).len() {
                assert(front.contains(dedup(front)[i]));
            }
        }
    }
}

/// Lengthening a stroke by `extra` points lengthens what is kept by at most
/// `extra`, and does not shorten it.
pub proof fn lemma_dedup_prefix(points: Seq<Position>, n: int)
    requires
        0 <= n <= points.len(),
    ensures
        dedup(points.take(n)).len() <= dedup(points).len(),
        dedup(points).len() - dedup(points.take(n)).len() <= points.len() - n,
    decreases points.len() - n,
{
    if n == points.len() {
        assert(points.take(n) =~= points);
    } else {
        let front = points.drop_last();
        lemma_dedup_prefix(front, n);
        assert(front.take(n) =~= points.take(n));
    }
}

/// Two successive points of a stroke that merge collapse: fewer points are
/// kept than the stroke has.
pub proof fn lemma_dedup_collapses(points: Seq<Position>, i: int)
    requires
        0 <= i,
        i + 1 < points.len(),
        merges(points[i], points[i + 1]),
    ensures
        dedup(points).len() < points.len(),
{
    let upto = points.take(i + 2);
    let front = points.take(i + 1);
    assert(upto.drop_last() =~= front);
    assert(front.drop_last() =~= points.take(i));
    lemma_dedup_shape(points.take(i));
    if dedup(front).len() == i + 1 {
        assert(dedup(front).last() == points[i]);
    }
    lemma_dedup_prefix(points, i + 2);
}

/// The spline passes through its control points: every third vertex is one.
pub proof fn lemma_spline_interpolates(control: Seq<Position>, i: int)
    requires
        control.len() >= 2,
        0 <= i < control.len(),
    ensures
        spline(control).len() == 3 * (control.len() - 1) + 1,
        spline(control)[3 * i] == control[i],
{
    if i > 0 {
        assert((3 * i - 1) / 3 == i - 1);
    }
}

/// The curve of a stroke that has points has vertices, and starts where the
/// stroke starts.
pub proof fn lemma_curve_is_not_empty(raw: Seq<Position>)
    requires
        raw.len() > 0,
    ensures
        smoothed(raw).len() > 0,
        smoothed(raw)[0] == raw[0],
{
    lemma_dedup_shape(raw);
}

/// Near repeats do not show in the curve. Where the curve is a polyline, no
/// vertex merges with the one before it; where it is a spline, none of the
/// points that it is led through (every third vertex) merges with the one
/// before it.
pub proof fn lemma_curve_keeps_points_apart(raw: Seq<Position>)
    ensures
        dedup(raw).len() < 3 ==> forall|j: int|
            0 <= j && j + 1 < smoothed(raw).len() ==> !merges(
                #[trigger] smoothed(raw)[j],
                smoothed(raw)[j + 1],
            ),
        dedup(raw).len() >= 3 ==> forall|k: int|
            0 <= k && k + 1 < dedup(raw).len() ==> !merges(
                #[trigger] smoothed(raw)[3 * k],
                smoothed(raw)[3 * (k + 1)],
            ),
{
    lemma_dedup_separates(raw);
}

/// Drops the points that merge with the last point kept before them.
pub fn dedup_points(points: &Vec<Position>) -> (kept: Vec<Position>)
    ensures
        kept@ == dedup(points@),
{
    let mut kept: Vec<Position> = Vec::new();
    let mut i: usize = 0;
    while i < points.len()
        invariant
            0 <= i <= points.len(),
            kept@ == dedup(points@.take(i as int)),
        decreases points.len() - i,
    {
        let p: Position = points[i];
        proof {
            assert(points@.take(i + 1).drop_last() =~= points@.take(i as int));
        }
        let n: usize = kept.len();
        if n == 0 || kept[n - 1].distance_sq(&p) >= MERGE_DISTANCE_SQ {
            kept.push(p);
        }
        i = i + 1;
    }
    assert(points@.take(points.len() as int) =~= points@);
    kept
}

/// Twice the tangent at control point `i`.
fn tangent_at(control: &Vec<Position>, i: usize) -> (d: (i64, i64))
    requires
        control.len() >= 2,
        i < control.len(),
    ensures
        (d.0 as int, d.1 as int) == twice_tangent(control@, i as int),
{
    let before: Position = if i == 0 { control[0] } else { control[i - 1] };
    let after: Position = if i == control.len() - 1 { control[i] } else { control[i + 1] };
    (after.x as i64 - before.x as i64, after.y as i64 - before.y as i64)
}

/// One coordinate of a span at parameter `k / 3`, before it is clamped.
fn hermite(a: i32, b: i32, da: i64, db: i64, k: u8) -> (v: i128)
    requires
        1 <= k <= 3,
        -0x1_0000_0000 <= da <= 0x1_0000_0000,
        -0x1_0000_0000 <= db <= 0x1_0000_0000,
    ensures
        v == div_round(hermite_54(a as int, b as int, da as int, db as int, k as int), 54),
{
    let start: i128 = a as i128;
    let end: i128 = b as i128;
    let m: i128 = da as i128;
    let n: i128 = db as i128;
    let num: i128 = if k == 1 {
        40 * start + 14 * end + 4 * m - 2 * n
    } else if k == 2 {
        14 * start + 40 * end + 2 * m - 4 * n
    } else {
        54 * end
    };
    let shifted: i128 = 2 * num + 54;
    assert(div_round(num as int, 54) == shifted as int / 108);
    if shifted >= 0 {
        shifted / 108
    } else {
        -((107 - shifted) / 108)
    }
}

/// The spline through `control`.
fn spline_through(control: &Vec<Position>) -> (curve: Vec<Position>)
    requires
        control.len() >= 2,
    ensures
        curve@ == spline(control@),
{
    let mut curve: Vec<Position> = Vec::new();
    curve.push(control[0]);
    let mut span: usize = 0;
    while span + 1 < control.len()
        invariant
            control.len() >= 2,
            span + 1 <= control.len(),
            curve.len() == 3 * span + 1,
            forall|j: int| 0 <= j < curve.len() ==> curve[j] == spline_vertex(control@, j),
        decreases control.len() - span,
    {
        let a: Position = control[span];
        let b: Position = control[span + 1];
        let da: (i64, i64) = tangent_at(control, span);
        let db: (i64, i64) = tangent_at(control, span + 1);
        let mut k: u8 = 1;
        while k <= 3
            invariant
                1 <= k <= 4,
                control.len() >= 2,
                span + 1 < control.len(),
                a == control[span as int],
                b == control[span + 1],
                (da.0 as int, da.1 as int) == twice_tangent(control@, span as int),
                (db.0 as int, db.1 as int) == twice_tangent(control@, span + 1),
                curve.len() == 3 * span + k,
                forall|j: int| 0 <= j < curve.len() ==> curve[j] == spline_vertex(control@, j),
            decreases 4 - k,
        {
            let x: i128 = hermite(a.x, b.x, da.0, db.0, k);
            let y: i128 = hermite(a.y, b.y, da.1, db.1, k);
            curve.push(place(x, y));
            k = k + 1;
        }
        span = span + 1;
    }
    curve
}

/// The curve drawn for the raw points `raw`.
pub fn smooth(raw: &Vec<Position>) -> (curve: Vec<Position>)
    ensures
        curve@ == smoothed(raw@),
{
    let control: Vec<Position> = dedup_points(raw);
    if control.len() < 3 {
        control
    } else {
        spline_through(&control)
    }
}

} // verus!
