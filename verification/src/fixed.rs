//! Fractions as whole numbers of millionths.
//!
//! Scores, rates and shares between 0 and 1 are carried as `u64` counts of
//! millionths, so that every rule on them is exact integer arithmetic.

use vstd::prelude::*;

verus! {

/// One, in millionths.
pub const UNIT: u64 = 1_000_000;

/// `value` held between `low` and `high`.
pub open spec fn clamped(value: int, low: int, high: int) -> int {
    if value < low {
        low
    } else if value > high {
        high
    } else {
        value
    }
}

/// A count raised by `by`; counts stop at the largest 64-bit number.
pub open spec fn raised(count: u64, by: int) -> u64 {
    if count + by > u64::MAX {
        u64::MAX
    } else {
        (count + by) as u64
    }
}

/// `value`, or the largest 64-bit number where it is beyond it.
pub open spec fn capped(value: int) -> int {
    if value > u64::MAX {
        u64::MAX as int
    } else {
        value
    }
}

/// The ratio `part / whole` in millionths, rounded down.
pub open spec fn ratio(part: int, whole: int) -> int
    recommends
        whole > 0,
{
    part * 1_000_000 / whole
}

/// The ratio `part / whole` in millionths, rounded down.
pub fn ratio_of(part: u64, whole: u64) -> (r: u64)
    requires
        0 < whole,
        part <= whole,
    ensures
        r == ratio(part as int, whole as int),
        r <= UNIT,
{
    let scaled: u128 = (part as u128) * 1_000_000;
    let r: u128 = scaled / (whole as u128);
    assert(r <= 1_000_000) by (nonlinear_arith)
        requires
            r == (part * 1_000_000) / (whole as int),
            0 <= part <= whole,
            0 < whole,
    ;
    r as u64
}

/// `a * b` in millionths, both being millionths: rounded down.
pub open spec fn product(a: int, b: int) -> int {
    a * b / 1_000_000
}

/// The product of two fractions of at most one, rounded down.
pub fn product_of(a: u64, b: u64) -> (r: u64)
    requires
        a <= UNIT,
        b <= UNIT,
    ensures
        r == product(a as int, b as int),
        r <= UNIT,
        r <= a,
        r <= b,
{
    assert(a * b <= 1_000_000_000_000) by (nonlinear_arith)
        requires
            0 <= a <= 1_000_000,
            0 <= b <= 1_000_000,
    ;
    let wide: u128 = (a as u128) * (b as u128);
    let r: u128 = wide / 1_000_000;
    assert(r <= a && r <= b) by (nonlinear_arith)
        requires
            r == (a * b) / 1_000_000,
            0 <= a <= 1_000_000,
            0 <= b <= 1_000_000,
    ;
    r as u64
}

/// `root` is the whole part of the square root of `n`.
pub open spec fn is_sqrt(n: int, root: int) -> bool {
    0 <= root && root * root <= n < (root + 1) * (root + 1)
}

/// The whole part of the square root of `n`.
pub open spec fn sqrt_floor(n: int) -> int {
    choose|root: int| is_sqrt(n, root)
}

/// A number has one whole square root at most.
pub proof fn lemma_sqrt_is_unique(n: int, root: int)
    requires
        is_sqrt(n, root),
    ensures
        sqrt_floor(n) == root,
{
    let other = sqrt_floor(n);
    assert(is_sqrt(n, other));
    if other < root {
        assert((other + 1) * (other + 1) <= root * root) by (nonlinear_arith)
            requires
                0 <= other < root,
        ;
    } else if other > root {
        assert((root + 1) * (root + 1) <= other * other) by (nonlinear_arith)
            requires
                0 <= root < other,
        ;
    }
}

/// The whole part of the square root of `n`.
pub fn isqrt(n: u128) -> (root: u64)
    ensures
        is_sqrt(n as int, root as int),
        root == sqrt_floor(n as int),
{
    let mut low: u128 = 0;
    let mut high: u128 = 0x1_0000_0000_0000_0000;
    while high - low > 1
        invariant
            0 <= low < high <= 0x1_0000_0000_0000_0000,
            low * low <= n,
            high == 0x1_0000_0000_0000_0000 || n < high * high,
        decreases high - low,
    {
        let mid: u128 = low + (high - low) / 2;
        assert(mid * mid <= 0xFFFF_FFFF_FFFF_FFFF * 0xFFFF_FFFF_FFFF_FFFF) by (nonlinear_arith)
            requires
                0 <= mid <= 0xFFFF_FFFF_FFFF_FFFF,
        ;
        if mid * mid <= n {
            low = mid;
        } else {
            high = mid;
        }
    }
    assert(n < (low + 1) * (low + 1)) by {
        if high == 0x1_0000_0000_0000_0000 {
            assert(low + 1 == high);
            assert(0x1_0000_0000_0000_0000int * 0x1_0000_0000_0000_0000int
                == 0x1_0000_0000_0000_0000_0000_0000_0000_0000int) by (nonlinear_arith);
        }
    }
    proof {
        lemma_sqrt_is_unique(n as int, low as int);
    }
    low as u64
}

} // verus!
