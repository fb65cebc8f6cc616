//! Fixed-point trigonometry on a circle of 65536 angle units.
//!
//! Sine is approximated on the first half turn by Bhaskara's rational
//! formula `16 q (H - q) / (5 H^2 - 4 q (H - q))`, scaled to sixteen
//! fractional bits; the second half turn is its mirror image. The
//! approximation is exact at the quarter points and always stays within
//! one whole unit in magnitude, which is what the polygon generator's
//! radius bound rests on.

use vstd::prelude::*;
use vstd::arithmetic::div_mod::{
    lemma_div_by_multiple, lemma_div_is_ordered, lemma_div_pos_is_pos,
};

verus! {

/// A full circle, in angle units.
pub const TURN: u32 = 65536;

/// Half a circle, in angle units.
pub const HALF_TURN: u32 = 32768;

/// A quarter circle, in angle units.
pub const QUARTER_TURN: u32 = 16384;

/// Sine on the first half turn, scaled by 65536.
pub open spec fn sin_half_spec(q: int) -> int {
    (16 * q * (32768 - q) * 65536) / (5 * 32768 * 32768 - 4 * q * (32768 - q))
}

/// Sine over a whole turn, scaled by 65536.
pub open spec fn sin_spec(t: int) -> int {
    if t <= 32768 {
        sin_half_spec(t)
    } else {
        -sin_half_spec(t - 32768)
    }
}

/// Cosine over a whole turn, scaled by 65536: sine shifted by a quarter.
pub open spec fn cos_spec(t: int) -> int {
    sin_spec((t + 16384) % 65536)
}

/// The half-turn sine approximation never leaves `[0, 65536]`.
pub proof fn lemma_sin_half_bounds(q: int)
    requires
        0 <= q <= 32768,
    ensures
        0 <= sin_half_spec(q) <= 65536,
{
    let p = q * (32768 - q);
    assert(0 <= p && 4 * p <= 32768 * 32768) by (nonlinear_arith)
        requires 0 <= q <= 32768, p == q * (32768 - q);
    let num = 16 * p * 65536;
    let den = 5 * 32768 * 32768 - 4 * p;
    assert(sin_half_spec(q) == num / den) by (nonlinear_arith)
        requires p == q * (32768 - q), num == 16 * p * 65536, den == 5 * 32768 * 32768 - 4 * p;
    lemma_div_pos_is_pos(num, den);
    assert(num <= 65536 * den) by (nonlinear_arith)
        requires 0 <= p, 4 * p <= 32768 * 32768, num == 16 * p * 65536, den == 5 * 32768 * 32768 - 4 * p;
    lemma_div_is_ordered(num, 65536 * den, den);
    lemma_div_by_multiple(65536, den);
    assert(65536 * den == den * 65536) by (nonlinear_arith);
}

/// The sine approximation never leaves `[-65536, 65536]`.
pub proof fn lemma_sin_bounds(t: int)
    requires
        0 <= t < 65536,
    ensures
        -65536 <= sin_spec(t) <= 65536,
{
    if t <= 32768 {
        lemma_sin_half_bounds(t);
    } else {
        lemma_sin_half_bounds(t - 32768);
    }
}

/// The cosine approximation never leaves `[-65536, 65536]`.
pub proof fn lemma_cos_bounds(t: int)
    requires
        0 <= t < 65536,
    ensures
        -65536 <= cos_spec(t) <= 65536,
{
    lemma_sin_bounds((t + 16384) % 65536);
}

/// Sine on the first half turn, scaled by 65536.
fn sin_half(q: u32) -> (r: i64)
    requires
        q <= 32768,
    ensures
        r == sin_half_spec(q as int),
        0 <= r <= 65536,
{
    let qq: u64 = q as u64;
    proof {
        assert(qq * (32768 - qq) <= 0x10000000) by (nonlinear_arith)
            requires qq <= 32768;
    }
    let p: u64 = qq * (32768 - qq);
    proof {
        lemma_sin_half_bounds(q as int);
        assert(sin_half_spec(q as int)
            == (16 * p * 65536) as int / (5 * 32768 * 32768 - 4 * p) as int) by (nonlinear_arith)
            requires p == q * (32768 - q);
    }
    let num: u64 = 16 * p * 65536;
    let den: u64 = 5 * 32768 * 32768 - 4 * p;
    (num / den) as i64
}

/// Sine of an angle in `[0, TURN)`, scaled by 65536.
pub fn sin_fp(t: u32) -> (r: i64)
    requires
        t < TURN,
    ensures
        r == sin_spec(t as int),
        -65536 <= r <= 65536,
{
    if t <= 32768 {
        sin_half(t)
    } else {
        -sin_half(t - 32768)
    }
}

/// Cosine of an angle in `[0, TURN)`, scaled by 65536.
pub fn cos_fp(t: u32) -> (r: i64)
    requires
        t < TURN,
    ensures
        r == cos_spec(t as int),
        -65536 <= r <= 65536,
{
    let u: u32 = (t + 16384) % 65536;
    sin_fp(u)
}

} // verus!
