//! Time arithmetic. Times and durations are integer nanoseconds; sums and
//! differences are clamped to the range of `i64` rather than wrapping.

use vstd::prelude::*;

verus! {

/// The integer `v` clamped to the range of `i64`.
pub open spec fn clamp_i64(v: int) -> i64 {
    if v > i64::MAX {
        i64::MAX
    } else if v < i64::MIN {
        i64::MIN
    } else {
        v as i64
    }
}

/// `a + b`, clamped to the range of `i64`.
pub fn add_clamped(a: i64, b: i64) -> (r: i64)
    ensures
        r == clamp_i64(a + b),
{
    match a.checked_add(b) {
        Some(v) => v,
        None => if b > 0 { i64::MAX } else { i64::MIN },
    }
}

/// `a - b`, clamped to the range of `i64`.
pub fn sub_clamped(a: i64, b: i64) -> (r: i64)
    ensures
        r == clamp_i64(a - b),
{
    match a.checked_sub(b) {
        Some(v) => v,
        None => if b > 0 { i64::MIN } else { i64::MAX },
    }
}

/// Whole milliseconds in a nanosecond duration, rounded toward zero.
pub open spec fn whole_ms(ns: int) -> int {
    if ns >= 0 {
        ns / 1_000_000
    } else {
        -((-ns) / 1_000_000)
    }
}

/// Law: whole milliseconds round toward zero: a non-negative duration holds
/// at least that many milliseconds and less than one more; a negative one
/// holds at most that many (in size) and more than one less.
pub proof fn law_whole_ms_rounds_toward_zero(ns: int)
    ensures
        ns >= 0 ==> 0 <= whole_ms(ns) * 1_000_000 <= ns < (whole_ms(ns) + 1) * 1_000_000,
        ns < 0 ==> (whole_ms(ns) - 1) * 1_000_000 < ns <= whole_ms(ns) * 1_000_000 <= 0,
{
}

/// Law: a clamped sum or difference is exact whenever it fits in an `i64`,
/// and saturates at the nearer limit otherwise.
pub proof fn law_clamp_is_exact_when_it_fits(v: int)
    ensures
        i64::MIN <= v <= i64::MAX ==> clamp_i64(v) == v,
        v > i64::MAX ==> clamp_i64(v) == i64::MAX,
        v < i64::MIN ==> clamp_i64(v) == i64::MIN,
{
}

/// Whole milliseconds in a nanosecond duration, rounded toward zero.
pub fn ns_to_ms(ns: i64) -> (r: i64)
    ensures
        r == whole_ms(ns as int),
{
    if ns >= 0 {
        ns / 1_000_000
    } else {
        let q = (0i128 - ns as i128) / 1_000_000;
        (0i128 - q) as i64
    }
}

} // verus!
