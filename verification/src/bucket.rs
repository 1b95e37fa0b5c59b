//! One range of numbers and the value that stands for it.
use vstd::prelude::*;
use crate::float::Float;

verus! {

/// A range of numbers with the value that the numbers in it are given.
///
/// `min` is the lowest number in the range, `max` the first number above it.
/// A bound that is `None` is no bound at all. Nothing asks that `min` lie
/// below `max`: a range that is empty, or that has a NaN as a bound, holds
/// no number.
#[derive(Clone, Copy, Debug)]
pub struct Bucket {
    pub min: Option<Float>,
    pub max: Option<Float>,
    pub value: Float,
}

/// Whether two bounds are both absent, or both present and equal as numbers.
pub open spec fn same_bound(a: Option<Float>, b: Option<Float>) -> bool {
    match (a, b) {
        (None, None) => true,
        (Some(x), Some(y)) => x.spec_eq(y),
        _ => false,
    }
}

impl Bucket {
    /// Whether `input` lies in the range.
    pub open spec fn spec_contains(self, input: Float) -> bool {
        match (self.min, self.max) {
            (None, None) => true,
            (Some(min), None) => input.spec_ge(min),
            (None, Some(max)) => input.spec_lt(max),
            (Some(min), Some(max)) => input.spec_ge(min) && input.spec_lt(max),
        }
    }

    /// Whether the two have equal bounds and equal values. Numbers are
    /// compared as numbers, so a bucket with a NaN in it equals no bucket.
    pub open spec fn spec_eq(self, other: Bucket) -> bool {
        &&& same_bound(self.min, other.min)
        &&& same_bound(self.max, other.max)
        &&& self.value.spec_eq(other.value)
    }

    /// Whether `input` lies in the range.
    pub fn contains(&self, input: Float) -> (r: bool)
        ensures
            r == self.spec_contains(input),
    {
        match (self.min, self.max) {
            (None, None) => true,
            (Some(min), None) => input.ge(min),
            (None, Some(max)) => input.lt(max),
            (Some(min), Some(max)) => input.ge(min) && input.lt(max),
        }
    }
}

impl PartialEq for Bucket {
    /// Whether the two have equal bounds and equal values, the numbers
    /// compared as numbers.
    fn eq(&self, other: &Bucket) -> (r: bool) {
        self.min == other.min && self.max == other.max && self.value == other.value
    }
}

impl vstd::std_specs::cmp::PartialEqSpecImpl for Bucket {
    open spec fn obeys_eq_spec() -> bool {
        true
    }

    open spec fn eq_spec(&self, other: &Bucket) -> bool {
        self.spec_eq(*other)
    }
}

} // verus!
