//! Fixed-point scalars: integers carrying sixteen fractional bits.

use vstd::prelude::*;
use vstd::arithmetic::div_mod::{
    lemma_div_is_ordered, lemma_div_pos_is_pos, lemma_fundamental_div_mod,
    lemma_fundamental_div_mod_converse,
};

verus! {

/// One whole unit in the fixed-point representation (sixteen fractional bits).
pub const SCALE: u64 = 65536;

/// Largest destination or source dimension the painter accepts, in pixels.
pub const MAX_DIM: u32 = 16384;

/// Largest jitter amplitude the painter accepts, in fixed-point pixels.
pub const MAX_JITTER: u64 = 0x4000_0000;

/// Headroom bound under which `fx_trunc` is exact.
pub const FX_BOUND: i64 = 0x4000_0000_0000_0000;

/// For `m >= 0` and `s > 0`, the Euclidean quotient of `-m` by `s` is the
/// negated ceiling quotient of `m` by `s`; this justifies the sign split
/// in floor-versus-truncation reasoning.
pub proof fn lemma_neg_div(m: int, s: int)
    requires
        m >= 0,
        s > 0,
    ensures
        (-m) / s == -((m + s - 1) / s),
{
    let q = m / s;
    let r = m % s;
    lemma_fundamental_div_mod(m, s);
    assert((q + 1) * s == q * s + s) by (nonlinear_arith);
    assert((-q) * s == -(q * s)) by (nonlinear_arith);
    assert((-q - 1) * s == -(q * s) - s) by (nonlinear_arith);
    if r == 0 {
        lemma_fundamental_div_mod_converse(m + s - 1, s, q, s - 1);
        lemma_fundamental_div_mod_converse(-m, s, -q, 0);
    } else {
        lemma_fundamental_div_mod_converse(m + s - 1, s, q + 1, r - 1);
        lemma_fundamental_div_mod_converse(-m, s, -q - 1, s - r);
    }
}

/// A fixed-point value dropped to whole units, rounding toward zero, as
/// Rust's float-to-integer casts do.
pub open spec fn fx_trunc_spec(v: int) -> int {
    if v >= 0 {
        v / 65536
    } else {
        -((-v) / 65536)
    }
}

/// Truncation toward zero is monotone.
pub proof fn lemma_trunc_monotone(a: int, b: int)
    requires
        a <= b,
    ensures
        fx_trunc_spec(a) <= fx_trunc_spec(b),
{
    if a >= 0 {
        lemma_div_is_ordered(a, b, 65536);
    } else if b < 0 {
        lemma_div_is_ordered(-b, -a, 65536);
    } else {
        lemma_div_pos_is_pos(b, 65536);
        lemma_div_pos_is_pos(-a, 65536);
    }
}

/// Division by `SCALE`: drops the fractional bits of a fixed-point value,
/// rounding toward zero.
pub fn fx_trunc(v: i64) -> (r: i64)
    requires
        -FX_BOUND <= v <= FX_BOUND,
    ensures
        r == fx_trunc_spec(v as int),
{
    if v >= 0 {
        let q: u64 = (v as u64) / 65536;
        q as i64
    } else {
        let m: u64 = (-v) as u64;
        let q: u64 = m / 65536;
        proof {
            lemma_div_is_ordered(m as int, FX_BOUND as int, 65536);
            lemma_div_pos_is_pos(m as int, 65536);
        }
        -(q as i64)
    }
}

} // verus!
