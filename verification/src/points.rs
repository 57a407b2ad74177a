//! Fixed-point fantasy-point arithmetic.
//!
//! A scoring weight is an `i64` number of centipoints (hundredths of a
//! point). A point total is an `i64` number of units, one point being
//! 300 units: a statistic counted `c` times under weight `w` is worth
//! `c * w * 3` units, and a third of an inning under weight `w` is worth
//! exactly `w` units. Totals saturate at the `i64` bounds when merged.

use vstd::prelude::*;

verus! {

/// Units per fantasy point: weights are centipoints, and a third of a
/// centipoint-weighted inning must be whole, so one point is 300 units.
pub const UNITS_PER_POINT: i64 = 300;

/// Largest magnitude allowed for a single scoring weight, in centipoints
/// (one hundred thousand points per counted statistic). The cap keeps
/// every weighted sum of `u32` counts inside `i64` without saturation.
pub const MAX_WEIGHT: i64 = 10_000_000;

/// A scoring weight is valid when its magnitude is at most `MAX_WEIGHT`.
pub open spec fn weight_ok(w: int) -> bool {
    -(MAX_WEIGHT as int) <= w && w <= MAX_WEIGHT as int
}

/// Largest magnitude a single weighted term `count * weight * 3` can have.
pub const MAX_TERM: i64 = 128_849_018_850_000_000;

/// `i64` addition clipped to the representable range.
pub open spec fn clip_add(a: int, b: int) -> int {
    if a + b > i64::MAX as int {
        i64::MAX as int
    } else if a + b < i64::MIN as int {
        i64::MIN as int
    } else {
        a + b
    }
}

/// Point units for `count` occurrences of a statistic weighted `w`
/// centipoints.
pub open spec fn term_units(count: int, w: int) -> int {
    count * w * 3
}

/// Adds two point totals, saturating at the `i64` bounds.
pub fn add_points(a: i64, b: i64) -> (r: i64)
    ensures
        r as int == clip_add(a as int, b as int),
{
    if b >= 0 {
        if a > i64::MAX - b {
            i64::MAX
        } else {
            a + b
        }
    } else {
        if a < i64::MIN - b {
            i64::MIN
        } else {
            a + b
        }
    }
}

/// Point units for a count under a valid weight; exact, never saturates.
pub fn count_units(count: u32, w: i64) -> (r: i64)
    requires
        weight_ok(w as int),
    ensures
        r as int == term_units(count as int, w as int),
        -MAX_TERM <= r <= MAX_TERM,
{
    proof {
        assert(count as int * w as int <= u32::MAX as int * MAX_WEIGHT as int
            && count as int * w as int >= -(u32::MAX as int * MAX_WEIGHT as int)) by (nonlinear_arith)
            requires
                0 <= count as int <= u32::MAX as int,
                weight_ok(w as int),
        ;
    }
    (count as i64) * w * 3
}

} // verus!
