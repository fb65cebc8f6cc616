//! Parsing a resolution of the form `WIDTHxHEIGHT` into the two
//! destination dimensions: a decimal width, one letter `x`, a decimal
//! height, both fitting a `u32`.

use vstd::prelude::*;
use vstd::arithmetic::div_mod::{lemma_fundamental_div_mod, lemma_mod_bound};
use vstd::slice::slice_subrange;

verus! {

/// The byte of the letter `x` separating the two dimensions.
pub const SEP: u8 = 120;

/// Whether a byte is a decimal digit.
pub open spec fn is_digit(c: u8) -> bool {
    48 <= c <= 57
}

/// Whether every byte of `s` is a decimal digit.
pub open spec fn all_digits(s: Seq<u8>) -> bool {
    forall |i: int| 0 <= i < s.len() ==> is_digit(#[trigger] s[i])
}

/// The value of a string of decimal digits, most significant first.
pub open spec fn digits_val(s: Seq<u8>) -> int
    decreases s.len(),
{
    if s.len() == 0 {
        0
    } else {
        digits_val(s.drop_last()) * 10 + (s.last() - 48)
    }
}

/// A digit string's value is never negative.
proof fn lemma_digits_val_nonneg(s: Seq<u8>)
    requires
        all_digits(s),
    ensures
        digits_val(s) >= 0,
    decreases s.len(),
{
    if s.len() > 0 {
        assert(all_digits(s.drop_last()));
        lemma_digits_val_nonneg(s.drop_last());
    }
}

/// A digit string's value only grows as digits are appended.
proof fn lemma_digits_val_extend(s: Seq<u8>, j: int)
    requires
        all_digits(s),
        0 <= j <= s.len(),
    ensures
        digits_val(s.take(j)) <= digits_val(s),
    decreases s.len() - j,
{
    assert(all_digits(s.take(j)));
    if j == s.len() {
        assert(s.take(j) =~= s);
    } else {
        lemma_digits_val_extend(s, j + 1);
        assert(s.take(j + 1).drop_last() =~= s.take(j));
        lemma_digits_val_nonneg(s.take(j));
    }
}

/// Parse a nonempty string of decimal digits whose value fits a `u32`;
/// anything else is refused.
pub fn parse_u32_digits(s: &[u8]) -> (r: Option<u32>)
    ensures
        r is Some <==> s@.len() > 0 && all_digits(s@) && digits_val(s@) <= u32::MAX,
        r is Some ==> r->0 == digits_val(s@),
{
    if s.len() == 0 {
        return None;
    }
    let mut acc: u32 = 0;
    let mut i: usize = 0;
    while i < s.len()
        invariant
            i <= s@.len(),
            all_digits(s@.take(i as int)),
            acc == digits_val(s@.take(i as int)),
        decreases s@.len() - i,
    {
        let c: u8 = *vstd::slice::slice_index_get(s, i);
        if c < 48 || c > 57 {
            assert(!is_digit(s@[i as int]));
            return None;
        }
        let d: u32 = (c - 48) as u32;
        proof {
            assert(s@.take(i + 1).drop_last() =~= s@.take(i as int));
            assert(s@.take(i + 1).last() == s@[i as int]);
        }
        if acc > (u32::MAX - d) / 10 {
            proof {
                lemma_fundamental_div_mod(u32::MAX - d, 10);
                lemma_mod_bound(u32::MAX - d, 10);
                assert(acc * 10 >= ((u32::MAX - d) as int / 10 + 1) * 10) by (nonlinear_arith)
                    requires acc >= (u32::MAX - d) as int / 10 + 1;
                assert(((u32::MAX - d) as int / 10 + 1) * 10
                    == ((u32::MAX - d) as int / 10) * 10 + 10) by (nonlinear_arith);
                assert(10 * ((u32::MAX - d) as int / 10) == ((u32::MAX - d) as int / 10) * 10)
                    by (nonlinear_arith);
                assert(digits_val(s@.take(i + 1)) > u32::MAX);
                if all_digits(s@) {
                    lemma_digits_val_extend(s@, i + 1);
                }
            }
            return None;
        }
        proof {
            lemma_fundamental_div_mod(u32::MAX - d, 10);
            lemma_mod_bound(u32::MAX - d, 10);
            assert(acc * 10 <= ((u32::MAX - d) as int / 10) * 10) by (nonlinear_arith)
                requires acc <= (u32::MAX - d) as int / 10;
            assert(10 * ((u32::MAX - d) as int / 10) == ((u32::MAX - d) as int / 10) * 10)
                by (nonlinear_arith);
        }
        acc = acc * 10 + d;
        i = i + 1;
    }
    proof {
        assert(s@.take(i as int) =~= s@);
    }
    Some(acc)
}

/// Whether splitting `s` at position `i` reads as a well-formed
/// resolution: the separator there, nonempty digit strings on both sides,
/// both values fitting a `u32`.
pub open spec fn valid_split(s: Seq<u8>, i: int) -> bool {
    &&& 1 <= i <= s.len() - 2
    &&& s[i] == SEP
    &&& all_digits(s.take(i))
    &&& all_digits(s.skip(i + 1))
    &&& digits_val(s.take(i)) <= u32::MAX
    &&& digits_val(s.skip(i + 1)) <= u32::MAX
}

/// What a resolution string denotes: the two dimension values where some
/// split of it is well-formed, and nothing otherwise.
pub open spec fn resolution_spec(s: Seq<u8>) -> Option<(u32, u32)> {
    if exists |i: int| valid_split(s, i) {
        let i = choose |i: int| valid_split(s, i);
        Some(((digits_val(s.take(i)) as u32), (digits_val(s.skip(i + 1)) as u32)))
    } else {
        None
    }
}

/// Parse a resolution of the form `WIDTHxHEIGHT`: a decimal width, the
/// letter `x`, a decimal height, each nonempty and fitting a `u32`.
pub fn parse_resolution(s: &[u8]) -> (r: Option<(u32, u32)>)
    ensures
        r == resolution_spec(s@),
{
    let n: usize = s.len();
    let mut i: usize = 0;
    while i < n && *vstd::slice::slice_index_get(s, i) != SEP
        invariant
            n == s@.len(),
            i <= n,
            forall |j: int| 0 <= j < i ==> s@[j] != SEP,
        decreases n - i,
    {
        i = i + 1;
    }
    if i >= n {
        proof {
            assert forall |j: int| !valid_split(s@, j) by {
                if 0 <= j < s@.len() {
                    assert(s@[j] != SEP);
                }
            }
        }
        return None;
    }
    let w = parse_u32_digits(slice_subrange(s, 0, i));
    let h = parse_u32_digits(slice_subrange(s, i + 1, n));
    proof {
        assert(s@.subrange(0, i as int) =~= s@.take(i as int));
        assert(s@.subrange(i + 1, n as int) =~= s@.skip(i + 1));
        assert forall |j: int| valid_split(s@, j) implies j == i by {
            if j < i {
                assert(s@[j] != SEP);
            } else if j > i {
                assert(is_digit(s@.take(j)[i as int]));
            }
        }
    }
    match (w, h) {
        (Some(width), Some(height)) => {
            proof {
                assert(valid_split(s@, i as int));
            }
            Some((width, height))
        },
        _ => {
            proof {
                assert(!valid_split(s@, i as int));
            }
            None
        },
    }
}

} // verus!
