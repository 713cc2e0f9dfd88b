//! A scalar that is held between two limits: health, timers.

use vstd::prelude::*;
use crate::fixed::{div_trunc, lemma_product_bound, sat, saturate, Coord, UNIT};

verus! {

/// `v` moved to the nearest value from `lo` to `hi`.
pub open spec fn clamp(v: int, lo: int, hi: int) -> int {
    if v < lo {
        lo
    } else if v > hi {
        hi
    } else {
        v
    }
}

/// A value and the limits that it is held between.
#[derive(Debug, Clone, Copy, PartialEq, Eq, Structural)]
pub struct Bounded {
    pub value: i32,
    pub min: i32,
    pub max: i32,
}

/// An amount of health between zero and its most.
pub type Health = Bounded;

impl Bounded {
    /// The value lies between the limits.
    pub open spec fn wf(self) -> bool {
        self.min <= self.value <= self.max
    }

    /// The value that lies the part `ratio` (in thousandths) of the way
    /// from `min` to `max`.
    pub open spec fn at_ratio(self, ratio: int) -> int {
        clamp(self.min + div_trunc((self.max - self.min) * ratio, UNIT as int), self.min as int, self.max as int)
    }

    /// This value after `delta` has been added, as far as the limits allow.
    pub open spec fn changed(self, delta: int) -> Bounded {
        Bounded {
            value: clamp(self.value + delta, self.min as int, self.max as int) as i32,
            min: self.min,
            max: self.max,
        }
    }

    /// This value put the part `ratio` (in thousandths) of the way from the
    /// lower limit to the upper.
    pub open spec fn with_ratio(self, ratio: int) -> Bounded {
        Bounded { value: self.at_ratio(ratio) as i32, min: self.min, max: self.max }
    }

    /// A value at its upper limit `max`, with lower limit zero.
    pub fn new_max(max: i32) -> (b: Bounded)
        ensures
            b == (Bounded { value: max, min: 0, max }),
            max >= 0 ==> b.wf(),
    {
        Bounded { value: max, min: 0, max }
    }

    /// A value of zero with upper limit `max`, and lower limit zero.
    pub fn new_zero(max: i32) -> (b: Bounded)
        ensures
            b == (Bounded { value: 0, min: 0, max }),
            max >= 0 ==> b.wf(),
    {
        Bounded { value: 0, min: 0, max }
    }

    /// Adds `delta` to the value, as far as the limits allow.
    pub fn change(&mut self, delta: i64)
        ensures
            *final(self) == old(self).changed(delta as int),
            final(self).value == clamp(old(self).value + delta, old(self).min as int, old(self).max as int),
            old(self).min <= old(self).max ==> final(self).wf(),
    {
        let moved: i128 = self.value as i128 + delta as i128;
        if moved < self.min as i128 {
            self.value = self.min;
        } else if moved > self.max as i128 {
            self.value = self.max;
        } else {
            self.value = moved as i32;
        }
    }

    /// Puts the value the part `ratio` (in thousandths) of the way from the
    /// lower limit to the upper.
    pub fn set_ratio(&mut self, ratio: Coord)
        ensures
            *final(self) == old(self).with_ratio(ratio as int),
            final(self).value == old(self).at_ratio(ratio as int),
            old(self).min <= old(self).max ==> final(self).wf(),
            ratio == UNIT && old(self).min <= old(self).max ==> final(self).value == old(self).max,
    {
        let span: i64 = self.max as i64 - self.min as i64;
        proof {
            lemma_product_bound(span as int, ratio as int, 0x1_0000_0000, 0x8000_0000);
            if ratio == UNIT && span >= 0 {
                assert(div_trunc(span * 1000, 1000) == span);
            }
        }
        let target: i128 = self.min as i128 + (span as i128 * ratio as i128) / 1000;
        if target < self.min as i128 {
            self.value = self.min;
        } else if target > self.max as i128 {
            self.value = self.max;
        } else {
            self.value = target as i32;
        }
    }

    /// How far the value lies from the lower limit toward the upper, in
    /// thousandths; zero when the two limits do not differ.
    pub open spec fn ratio(self) -> int {
        if self.max > self.min {
            div_trunc((self.value - self.min) * UNIT, self.max - self.min)
        } else {
            0
        }
    }

    /// How far the value lies from the lower limit toward the upper, in
    /// thousandths (clamped into the scalar range).
    pub fn get_ratio(&self) -> (r: Coord)
        ensures
            r == sat(self.ratio()),
    {
        if self.max > self.min {
            let span: i64 = self.max as i64 - self.min as i64;
            let above: i64 = self.value as i64 - self.min as i64;
            saturate((above * 1000) / span)
        } else {
            0
        }
    }

    /// Whether the value is at its upper limit.
    pub fn is_max(&self) -> (at: bool)
        ensures
            at == (self.value == self.max),
    {
        self.value == self.max
    }

    /// Whether the value is at its lower limit.
    pub fn is_min(&self) -> (at: bool)
        ensures
            at == (self.value == self.min),
    {
        self.value == self.min
    }

    /// Whether the value is above its lower limit.
    pub fn is_above_min(&self) -> (above: bool)
        ensures
            above == (self.value > self.min),
    {
        self.value > self.min
    }
}

} // verus!
