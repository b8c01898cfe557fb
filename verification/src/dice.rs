//! Random draws. Each draw goes to the thread-local generator of `rand`.

use rand::Rng;
use vstd::prelude::*;

verus! {

/// Number of distinct values of a roll: a roll `r < ROLL_SCALE` stands for the
/// fraction `r / ROLL_SCALE` of the unit interval.
pub const ROLL_SCALE: u32 = 16777216;

/// Draws a value from `lo..hi` with `rand::Rng::gen_range` on the thread-local
/// generator. Claimed: the value lies in the half-open range (which value it is
/// rests on chance, and nothing more is claimed). `gen_range` panics on an empty
/// range, which `requires` leaves out.
#[verifier::external_body]
pub(crate) fn random_range(lo: u32, hi: u32) -> (r: u32)
    requires
        lo < hi,
    ensures
        lo <= r < hi,
{
    rand::thread_rng().gen_range(lo..hi)
}

/// The roll `roll / ROLL_SCALE` falls below `pct / 100`.
pub open spec fn roll_below_pct(roll: u32, pct: u32) -> bool {
    roll * 100 < pct * ROLL_SCALE
}

/// Whether the roll `roll / ROLL_SCALE` falls below `pct / 100`.
pub fn roll_is_below_pct(roll: u32, pct: u32) -> (b: bool)
    requires
        roll < ROLL_SCALE,
    ensures
        b == roll_below_pct(roll, pct),
{
    assert((pct as u64) * (ROLL_SCALE as u64) <= (u32::MAX as u64) * 16777216) by (nonlinear_arith)
        requires pct <= u32::MAX;
    (roll as u64) * 100 < (pct as u64) * (ROLL_SCALE as u64)
}

/// `2^j` for `j <= 6`.
pub open spec fn two_to(j: int) -> int {
    if j <= 0 { 1 } else if j == 1 { 2 } else if j == 2 { 4 } else if j == 3 { 8 }
    else if j == 4 { 16 } else if j == 5 { 32 } else { 64 }
}

/// The binade of `pct / 100` for `1 <= pct < 100`: the `j` with
/// `1/2 <= pct * 2^j / 100 < 1`.
pub open spec fn binade(pct: int) -> int {
    if pct >= 50 { 0 } else if pct >= 25 { 1 } else if pct >= 13 { 2 } else if pct >= 7 { 3 }
    else if pct >= 4 { 4 } else if pct >= 2 { 5 } else { 6 }
}

/// `n / d` rounded to the nearest integer, ties to even.
pub open spec fn round_half_even(n: int, d: int) -> int {
    let q = n / d;
    let r = n % d;
    if 2 * r > d { q + 1 } else if 2 * r < d { q } else if q % 2 == 0 { q } else { q + 1 }
}

/// How many rolls fall below the `f32` nearest to `pct / 100`: the
/// fraction's 24-bit significand is `pct * 2^(24 + j) / 100` rounded to the
/// nearest integer, ties to even, in its binade `j`, and a roll `r` lies
/// below it when `r * 2^j` does.
pub open spec fn rolls_below_f32_hundredths(pct: u32) -> int {
    if pct == 0 {
        0
    } else if pct >= 100 {
        ROLL_SCALE as int
    } else {
        let j = binade(pct as int);
        let m = round_half_even(pct * ROLL_SCALE * two_to(j), 100);
        (m + two_to(j) - 1) / two_to(j)
    }
}

/// The roll `roll / ROLL_SCALE` falls below the `f32` nearest to `pct / 100`,
/// as a comparison of the roll with such a single-precision value decides.
pub open spec fn roll_below_f32_pct(roll: u32, pct: u32) -> bool {
    roll < rolls_below_f32_hundredths(pct)
}

/// Number of rolls that fall below the `f32` nearest to `pct / 100`.
pub fn rolls_below_f32(pct: u32) -> (n: u32)
    ensures
        n == rolls_below_f32_hundredths(pct),
        n <= ROLL_SCALE,
{
    if pct == 0 {
        return 0;
    }
    if pct >= 100 {
        return ROLL_SCALE;
    }
    let p2: u64 = if pct >= 50 { 1 } else if pct >= 25 { 2 } else if pct >= 13 { 4 } else if pct >= 7 { 8 }
        else if pct >= 4 { 16 } else if pct >= 2 { 32 } else { 64 };
    assert(p2 == two_to(binade(pct as int)));
    assert(pct * ROLL_SCALE * p2 < 100 * ROLL_SCALE) by (nonlinear_arith)
        requires
            p2 == two_to(binade(pct as int)),
            1 <= pct < 100,
            ROLL_SCALE == 16777216,
    {
        assert(pct * p2 < 100);
    }
    assert(pct * ROLL_SCALE <= pct * ROLL_SCALE * p2) by (nonlinear_arith)
        requires 1 <= p2, 0 <= pct;
    let n: u64 = (pct as u64) * (ROLL_SCALE as u64) * p2;
    let q = n / 100;
    let r = n % 100;
    let m: u64 = if 2 * r > 100 { q + 1 } else if 2 * r < 100 { q } else if q % 2 == 0 { q } else { q + 1 };
    assert(m == round_half_even(pct * ROLL_SCALE * p2, 100));
    assert(m <= ROLL_SCALE * p2);
    let c = (m + p2 - 1) / p2;
    assert(c <= ROLL_SCALE) by (nonlinear_arith)
        requires
            c as int == (m + p2 - 1) as int / p2 as int,
            m <= ROLL_SCALE * p2,
            1 <= p2,
            ROLL_SCALE == 16777216,
    ;
    c as u32
}

/// Whether the roll `roll / ROLL_SCALE` falls below the `f32` nearest to
/// `pct / 100`.
pub fn roll_is_below_f32_pct(roll: u32, pct: u32) -> (b: bool)
    ensures
        b == roll_below_f32_pct(roll, pct),
{
    roll < rolls_below_f32(pct)
}

/// Draws a roll: a uniform 24-bit fraction of the unit interval.
pub fn random_roll() -> (r: u32)
    ensures
        r < ROLL_SCALE,
{
    random_range(0, ROLL_SCALE)
}

} // verus!
