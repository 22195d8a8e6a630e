//! `3x + 2` over the number types that have it.

use vstd::prelude::*;

verus! {

/// A number type with `3x + 2`.
pub trait TimesThreePlusTwo: Sized {
    /// Whether `3x + 2` can be computed for this value.
    spec fn in_range(self) -> bool;

    /// The value of `3x + 2`.
    spec fn tripled_plus_two(self) -> Self;

    fn times_three_plus_two(self) -> (r: Self)
        requires
            self.in_range(),
        ensures
            r == self.tripled_plus_two(),
    ;
}

impl TimesThreePlusTwo for i32 {
    /// `3x` and `3x + 2` both fit in an `i32`.
    open spec fn in_range(self) -> bool {
        -715827882 <= self && self <= 715827881
    }

    open spec fn tripled_plus_two(self) -> i32 {
        (3 * self + 2) as i32
    }

    fn times_three_plus_two(self) -> (r: i32) {
        3 * self + 2
    }
}

/// `3x + 2`.
pub fn times_three_plus_two<T: TimesThreePlusTwo>(x: T) -> (r: T)
    requires
        x.in_range(),
    ensures
        r == x.tripled_plus_two(),
{
    x.times_three_plus_two()
}

} // verus!
