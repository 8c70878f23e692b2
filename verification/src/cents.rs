//! Amounts at the edges of their range.

use vstd::prelude::*;

verus! {

/// Whether a number is in the range of an `i64`.
pub open spec fn in_range(n: int) -> bool {
    i64::MIN <= n <= i64::MAX
}

/// The number in the range of an `i64` that is closest to `n`.
pub open spec fn clamped(n: int) -> int {
    if n < i64::MIN {
        i64::MIN as int
    } else if n > i64::MAX {
        i64::MAX as int
    } else {
        n
    }
}

/// The sum of two amounts, pinned at the ends of the range.
pub fn saturating_sum(a: i64, b: i64) -> (r: i64)
    ensures
        r == clamped(a + b),
{
    match a.checked_add(b) {
        Some(sum) => sum,
        None => if b < 0 { i64::MIN } else { i64::MAX },
    }
}

/// The difference of two amounts, pinned at the ends of the range.
pub fn saturating_difference(a: i64, b: i64) -> (r: i64)
    ensures
        r == clamped(a - b),
{
    match a.checked_sub(b) {
        Some(difference) => difference,
        None => if b < 0 { i64::MAX } else { i64::MIN },
    }
}

// ---------------------------------------------------------------------------
// Laws
// ---------------------------------------------------------------------------

/// A number is in range exactly if an `i64` can hold it.
pub proof fn law_in_range_means_it_can_be_held(n: int)
    ensures
        in_range(n) <==> n == n as i64,
{
}

/// A pinned number can be held, and no number that can be held is closer to the
/// one that was pinned. One that can be held is left alone.
pub proof fn law_pinned_is_the_nearest(n: int, other: i64)
    ensures
        clamped(n) == clamped(n) as i64,
        n <= clamped(n) ==> clamped(n) - n <= (if other < n { n - other } else { other - n }),
        clamped(n) <= n ==> n - clamped(n) <= (if other < n { n - other } else { other - n }),
        n == other ==> clamped(n) == n,
{
}

} // verus!
