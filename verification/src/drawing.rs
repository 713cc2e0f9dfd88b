//! The stroke that the player is drawing: its raw points, held to a distance
//! budget, and the curve derived from them.

use vstd::prelude::*;
use crate::fixed::{Coord, Time};
use crate::geometry::{
    lemma_step_within_reach, lemma_triangle, step_toward, walk_toward, Position,
};
use crate::smoothing::{smooth, smoothed};

verus! {

/// A point of a stroke and the time at which it was captured.
#[derive(Debug, Clone, Copy, PartialEq, Eq, Structural)]
pub struct DrawPoint {
    pub position: Position,
    pub time: Time,
}

/// A stroke. `points_raw` holds the captured points, the stroke's origin
/// first; `points_smoothed` is the curve through them.
#[derive(Debug, Clone)]
pub struct Drawing {
    pub points_raw: Vec<DrawPoint>,
    pub points_smoothed: Vec<Position>,
}

/// A stroke as two sequences.
#[verifier::ext_equal]
pub struct DrawingView {
    pub raw: Seq<DrawPoint>,
    pub smoothed: Seq<Position>,
}

impl View for Drawing {
    type V = DrawingView;

    open spec fn view(&self) -> DrawingView {
        DrawingView { raw: self.points_raw@, smoothed: self.points_smoothed@ }
    }
}

impl DrawingView {
    /// The stroke that starts at `origin`.
    pub open spec fn begun(origin: Position, time: Time) -> DrawingView {
        DrawingView { raw: seq![DrawPoint { position: origin, time }], smoothed: Seq::empty() }
    }

    /// The stroke after an attempt to extend it toward `candidate`: where a
    /// point is added, the curve is derived anew.
    pub open spec fn extended(self, candidate: Position, time: Time, max_distance: int) -> DrawingView {
        let raw = Drawing::extended(self.raw, candidate, time, max_distance);
        DrawingView {
            raw,
            smoothed: if budget_left(max_distance, path_length(positions(self.raw))) > 0 {
                smoothed(positions(raw))
            } else {
                self.smoothed
            },
        }
    }
}

/// Where the points of a stroke lie.
pub open spec fn positions(raw: Seq<DrawPoint>) -> Seq<Position> {
    Seq::new(raw.len(), |i: int| raw[i].position)
}

/// The length of the polyline through `points`: the sum of the distances
/// between successive points, each rounded down.
pub open spec fn path_length(points: Seq<Position>) -> nat
    decreases points.len(),
{
    if points.len() < 2 {
        0
    } else {
        path_length(points.drop_last()) + points[points.len() - 2].dist(points[points.len() - 1])
    }
}

/// What is left of the budget `max_distance` after a path of length `used`.
pub open spec fn budget_left(max_distance: int, used: nat) -> int {
    max_distance - used
}

impl Drawing {
    /// A stroke has an origin, and its curve is the one derived from its raw
    /// points once there are two of them.
    pub open spec fn wf(&self) -> bool {
        &&& self.points_raw@.len() > 0
        &&& self.points_smoothed@ == if self.points_raw@.len() < 2 {
            Seq::<Position>::empty()
        } else {
            smoothed(positions(self.points_raw@))
        }
    }

    /// The length of the raw path.
    pub open spec fn spec_length(&self) -> nat {
        path_length(positions(self.points_raw@))
    }

    /// The raw points after an attempt to extend the stroke toward
    /// `candidate`: while budget is left, the candidate joins them, pulled
    /// back toward the last point as far as the budget demands.
    pub open spec fn extended(
        raw: Seq<DrawPoint>,
        candidate: Position,
        time: Time,
        max_distance: int,
    ) -> Seq<DrawPoint> {
        let left = budget_left(max_distance, path_length(positions(raw)));
        if left > 0 {
            raw.push(DrawPoint { position: step_toward(raw.last().position, candidate, left), time })
        } else {
            raw
        }
    }

    /// A stroke that starts at `origin`.
    pub fn begin(origin: Position, time: Time) -> (drawing: Drawing)
        ensures
            drawing.points_raw@ == seq![DrawPoint { position: origin, time }],
            drawing.points_smoothed@ == Seq::<Position>::empty(),
            drawing.wf(),
            drawing.spec_length() == 0,
    {
        let mut points_raw: Vec<DrawPoint> = Vec::new();
        points_raw.push(DrawPoint { position: origin, time });
        Drawing { points_raw, points_smoothed: Vec::new() }
    }

    /// Where the raw points lie.
    pub fn raw_positions(&self) -> (points: Vec<Position>)
        ensures
            points@ == positions(self.points_raw@),
    {
        let mut points: Vec<Position> = Vec::new();
        let mut i: usize = 0;
        while i < self.points_raw.len()
            invariant
                0 <= i <= self.points_raw.len(),
                points@ == positions(self.points_raw@.take(i as int)),
            decreases self.points_raw.len() - i,
        {
            points.push(self.points_raw[i].position);
            i = i + 1;
        }
        points
    }

    /// The length of the raw path.
    pub fn length(&self) -> (len: u128)
        ensures
            len == self.spec_length(),
    {
        let n: usize = self.points_raw.len();
        let mut total: u128 = 0;
        let mut i: usize = 1;
        let ghost points = positions(self.points_raw@);
        if n < 2 {
            return 0;
        }
        while i < n
            invariant
                1 <= i <= n,
                n == self.points_raw.len(),
                points == positions(self.points_raw@),
                total == path_length(points.take(i as int)),
                total <= (i - 1) * 0x2_0000_0000,
            decreases n - i,
        {
            let step: u64 = self.points_raw[i - 1].position.distance(&self.points_raw[i].position);
            proof {
                let upto = points.take(i + 1);
                assert(upto.drop_last() =~= points.take(i as int));
            }
            total = total + step as u128;
            i = i + 1;
        }
        assert(points.take(n as int) =~= points);
        total
    }

    /// Tries to extend the stroke toward `candidate` under the budget
    /// `max_distance`, and derives the curve anew when a point was added.
    /// Returns whether one was.
    pub fn extend(&mut self, candidate: Position, time: Time, max_distance: Coord) -> (added: bool)
        requires
            old(self).points_raw@.len() > 0,
        ensures
            final(self).points_raw@ == Self::extended(
                old(self).points_raw@,
                candidate,
                time,
                max_distance as int,
            ),
            added == (budget_left(max_distance as int, old(self).spec_length()) > 0),
            added ==> final(self).points_smoothed@ == smoothed(positions(final(self).points_raw@)),
            !added ==> final(self).points_smoothed@ == old(self).points_smoothed@,
            final(self)@ == old(self)@.extended(candidate, time, max_distance as int),
            old(self).wf() ==> final(self).wf(),
            old(self).spec_length() <= max_distance ==> final(self).spec_length() <= max_distance,
    {
        let used: u128 = self.length();
        if used >= 0x8000_0000 || (used as i64) >= max_distance as i64 {
            return false;
        }
        let left: i64 = max_distance as i64 - used as i64;
        let last: Position = self.points_raw[self.points_raw.len() - 1].position;
        let point = DrawPoint { position: walk_toward(&last, &candidate, left), time };
        proof {
            lemma_extended_length(self.points_raw@, candidate, time, max_distance as int);
        }
        self.points_raw.push(point);
        let points: Vec<Position> = self.raw_positions();
        self.points_smoothed = smooth(&points);
        true
    }
}

/// Extending a stroke lengthens its path by the distance to the new point,
/// which is no more than the budget had left: a stroke within its budget
/// stays within it.
pub proof fn lemma_extended_length(
    raw: Seq<DrawPoint>,
    candidate: Position,
    time: Time,
    max_distance: int,
)
    requires
        raw.len() > 0,
    ensures
        path_length(positions(Drawing::extended(raw, candidate, time, max_distance))) >= path_length(
            positions(raw),
        ),
        path_length(positions(raw)) <= max_distance ==> path_length(
            positions(Drawing::extended(raw, candidate, time, max_distance)),
        ) <= max_distance,
        budget_left(max_distance, path_length(positions(raw))) > 0 ==> path_length(
            positions(Drawing::extended(raw, candidate, time, max_distance)),
        ) == path_length(positions(raw)) + raw.last().position.dist(
            step_toward(
                raw.last().position,
                candidate,
                budget_left(max_distance, path_length(positions(raw))),
            ),
        ),
{
    let left = budget_left(max_distance, path_length(positions(raw)));
    if left > 0 {
        let end = step_toward(raw.last().position, candidate, left);
        let longer = raw.push(DrawPoint { position: end, time });
        lemma_step_within_reach(raw.last().position, candidate, left);
        assert(positions(longer).drop_last() =~= positions(raw));
    }
}

/// A path is as long as its ends are apart, up to the rounding of its
/// spans: one thousandth for each span after the first.
pub proof fn lemma_path_spans_its_ends(points: Seq<Position>)
    requires
        points.len() >= 2,
    ensures
        points[0].dist(points[points.len() - 1]) <= path_length(points) + points.len() - 2,
    decreases points.len(),
{
    let n = points.len() as int;
    if n > 2 {
        let front = points.drop_last();
        lemma_path_spans_its_ends(front);
        lemma_triangle(points[0], points[n - 2], points[n - 1]);
        assert(front[0] == points[0] && front[front.len() - 1] == points[n - 2]);
    } else {
        assert(path_length(points.drop_last()) == 0);
    }
}

} // verus!
