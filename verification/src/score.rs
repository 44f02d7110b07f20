//! Scores of moves. A score is a binary fraction with fifty-three significant
//! bits, the kind that double-precision arithmetic works with: every product
//! and every sum is rounded to the nearest such fraction, and of two equally
//! near ones to the one whose last bit is zero. All scores of this library
//! are whole multiples of 2^-56, so a score is held as a whole number of
//! such units.

use vstd::prelude::*;

verus! {

/// How many units make one.
pub const ONE: i64 = 0x100_0000_0000_0000;

/// A half, which is a fraction itself.
pub const HALF: i64 = 0x80_0000_0000_0000;

/// The fraction nearest to one tenth.
pub const TENTH: i64 = 7205759403792794;

/// The fraction nearest to two tenths.
pub const TWO_TENTHS: i64 = 14411518807585588;

/// The fraction nearest to three tenths.
pub const THREE_TENTHS: i64 = 21617278211378380;

/// The fraction nearest to four tenths.
pub const FOUR_TENTHS: i64 = 28823037615171176;

/// The fraction nearest to six tenths.
pub const SIX_TENTHS: i64 = 43234556422756760;

/// Scores stay below this magnitude, which is eight.
pub const LIMIT: i64 = 0x800_0000_0000_0000;

/// The multiple of `step` nearest to `magnitude`; of two equally near ones
/// the even multiple.
#[verifier::inline]
pub open spec fn nearest(magnitude: int, step: int) -> int {
    let below = magnitude / step;
    let rest = magnitude % step;
    if 2 * rest < step || (2 * rest == step && below % 2 == 0) {
        below * step
    } else {
        (below + 1) * step
    }
}

/// The fraction nearest to a magnitude below eight. Below an eighth every
/// whole number of units is a fraction; from there on the fractions lie two
/// units apart, and twice as far at every doubling.
#[verifier::opaque]
pub open spec fn rounded_magnitude(magnitude: int) -> int {
    if magnitude < 0x20_0000_0000_0000 {
        magnitude
    } else if magnitude < 0x40_0000_0000_0000 {
        nearest(magnitude, 2)
    } else if magnitude < 0x80_0000_0000_0000 {
        nearest(magnitude, 4)
    } else if magnitude < 0x100_0000_0000_0000 {
        nearest(magnitude, 8)
    } else if magnitude < 0x200_0000_0000_0000 {
        nearest(magnitude, 16)
    } else if magnitude < 0x400_0000_0000_0000 {
        nearest(magnitude, 32)
    } else {
        nearest(magnitude, 64)
    }
}

/// The fraction nearest to `value`, a number of units below eight in
/// magnitude. Rounding does not look at the sign.
pub open spec fn rounded(value: int) -> int {
    if value >= 0 {
        rounded_magnitude(value)
    } else {
        -rounded_magnitude(-value)
    }
}

/// The sum of two scores: their exact sum, rounded.
pub open spec fn sum_of(a: int, b: int) -> int {
    rounded(a + b)
}

/// A weight taken `count` times: the exact product, rounded.
pub open spec fn product_of(weight: int, count: int) -> int {
    rounded(weight * count)
}

/// Rounding moves a value by at most thirty-two units, half of what lies
/// between two fractions just below the limit, and keeps it within the limit.
pub proof fn lemma_rounded_is_near(value: int)
    requires
        -LIMIT < value < LIMIT,
    ensures
        -32 <= rounded(value) - value <= 32,
        -LIMIT <= rounded(value) <= LIMIT,
        value >= 0 ==> rounded(value) >= 0,
        value <= 0 ==> rounded(value) <= 0,
{
    reveal(rounded_magnitude);
}

/// Every multiple of sixty-four units below the limit is a fraction: rounding
/// leaves it as it is.
pub proof fn lemma_multiples_are_fractions(value: int)
    requires
        -LIMIT < value < LIMIT,
        value % 64 == 0,
    ensures
        rounded(value) == value,
{
    reveal(rounded_magnitude);
    let magnitude = if value >= 0 {
        value
    } else {
        -value
    };
    let k = magnitude / 64;
    assert(magnitude % 2 == 0 && magnitude / 2 == 32 * k);
    assert(magnitude % 32 == 0 && magnitude / 32 == 2 * k);
}

/// The fraction nearest to a magnitude below eight.
fn round_magnitude(magnitude: i64) -> (fraction: i64)
    requires
        0 <= magnitude < LIMIT,
    ensures
        fraction == rounded_magnitude(magnitude as int),
        0 <= fraction <= LIMIT,
{
    reveal(rounded_magnitude);
    let step: i64 = if magnitude < 0x20_0000_0000_0000 {
        1
    } else if magnitude < 0x40_0000_0000_0000 {
        2
    } else if magnitude < 0x80_0000_0000_0000 {
        4
    } else if magnitude < 0x100_0000_0000_0000 {
        8
    } else if magnitude < 0x200_0000_0000_0000 {
        16
    } else if magnitude < 0x400_0000_0000_0000 {
        32
    } else {
        64
    };
    let below = magnitude / step;
    let rest = magnitude % step;
    if 2 * rest < step || (2 * rest == step && below % 2 == 0) {
        below * step
    } else {
        (below + 1) * step
    }
}

/// The fraction nearest to `value`.
pub fn round(value: i64) -> (fraction: i64)
    requires
        -LIMIT < value < LIMIT,
    ensures
        fraction == rounded(value as int),
{
    if value >= 0 {
        round_magnitude(value)
    } else {
        -round_magnitude(-value)
    }
}

/// The sum of two scores.
pub fn plus(a: i64, b: i64) -> (sum: i64)
    requires
        -LIMIT < a + b < LIMIT,
    ensures
        sum == sum_of(a as int, b as int),
        -32 <= sum - (a + b) <= 32,
{
    proof {
        lemma_rounded_is_near(a + b);
    }
    round(a + b)
}

/// A weight, at most six tenths, taken `count` times, at most eight times.
pub fn times(weight: i64, count: usize) -> (product: i64)
    requires
        0 <= weight <= SIX_TENTHS,
        count <= 8,
    ensures
        product == product_of(weight as int, count as int),
        0 <= product <= weight * count + 32,
{
    assert(0 <= weight * count <= 8 * SIX_TENTHS) by (nonlinear_arith)
        requires
            0 <= weight <= SIX_TENTHS,
            0 <= count <= 8,
    ;
    proof {
        lemma_rounded_is_near(weight * count);
    }
    round(weight * (count as i64))
}

} // verus!
