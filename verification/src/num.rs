//! Numeric narrowing policy.
//!
//! Pure functions deciding which of two integer widths or two floating-point
//! widths a decoded numeric literal should occupy. Floating-point payloads
//! are carried everywhere in this crate as their IEEE 754 bit patterns
//! (`u32` for single precision, `u64` for double precision), so the range
//! checks and width conversions below are integer functions on bit patterns.
//! The narrowing conversion rounds to nearest, ties to even, matching the
//! rounding a hardware double-to-single conversion performs; the widening
//! conversion is exact.

use vstd::arithmetic::div_mod::{
    lemma_basic_div, lemma_breakdown, lemma_div_denominator,
    lemma_div_is_ordered_by_denominator, lemma_fundamental_div_mod,
    lemma_mod_division_less_than_divisor, lemma_multiply_divide_le, lemma_multiply_divide_lt,
    lemma_small_mod,
};
use vstd::arithmetic::mul::lemma_mul_basics;
use vstd::arithmetic::power2::{
    lemma2_to64, lemma2_to64_rest, lemma_pow2_adds, lemma_pow2_pos, lemma_pow2_strictly_increases,
    pow2,
};
use vstd::prelude::*;

verus! {

/// True when a signed long value fits in the inclusive 32-bit signed range.
pub open spec fn long_in_int_range(v: i64) -> bool {
    -2147483648 <= v <= 2147483647
}

/// Executable check for [`long_in_int_range`].
pub fn is_long_in_int_range(v: i64) -> (r: bool)
    ensures
        r == long_in_int_range(v),
{
    -2147483648 <= v && v <= 2147483647
}

/// True when an unsigned 64-bit value fits in the 32-bit signed range.
pub open spec fn uint_in_int_range(v: u64) -> bool {
    v <= 0x7FFF_FFFF
}

/// True when an unsigned 64-bit value fits in the 64-bit signed range.
pub open spec fn uint_in_long_range(v: u64) -> bool {
    v <= 0x7FFF_FFFF_FFFF_FFFF
}

/// Magnitude of a double-precision bit pattern: the bits with the sign cleared.
pub open spec fn double_abs_bits(bits: u64) -> int {
    bits as int % 0x8000_0000_0000_0000
}

/// Bit pattern of the largest finite single-precision value, widened to
/// double precision. For non-NaN doubles, comparing cleared-sign bit
/// patterns orders them by magnitude, and NaN patterns compare above this
/// bound, so the check below is exactly the inclusive single-precision
/// range check on the represented value.
pub const FLOAT_MAX_AS_DOUBLE_BITS: u64 = 0x47EF_FFFF_E000_0000;

/// True when the double-precision bit pattern lies within the inclusive
/// range of finite single-precision values.
pub open spec fn double_in_float_range(bits: u64) -> bool {
    double_abs_bits(bits) <= FLOAT_MAX_AS_DOUBLE_BITS
}

/// Executable check for [`double_in_float_range`].
pub fn is_double_in_float_range(bits: u64) -> (r: bool)
    ensures
        r == double_in_float_range(bits),
{
    bits % 0x8000_0000_0000_0000 <= FLOAT_MAX_AS_DOUBLE_BITS
}

/// `x / p` rounded to the nearest integer, ties to even; `p` must be a
/// positive even integer.
pub open spec fn rne_div(x: int, p: int) -> int
    recommends
        x >= 0,
        p >= 2,
        p % 2 == 0,
{
    let q = x / p;
    let r = x % p;
    if 2 * r > p || (2 * r == p && q % 2 == 1) {
        q + 1
    } else {
        q
    }
}

/// Executable rounding of `x / 2^sh` to nearest, ties to even.
pub fn rne_shift(x: u64, sh: usize) -> (r: u64)
    requires
        1 <= sh <= 63,
    ensures
        r as int == rne_div(x as int, pow2(sh as nat) as int),
{
    let mut q: u64 = x;
    let mut round: bool = false;
    let mut sticky: bool = false;
    let mut i: usize = 0;
    proof {
        lemma2_to64();
    }
    while i < sh
        invariant
            i <= sh,
            sh <= 63,
            q as int == x as int / pow2(i as nat) as int,
            i > 0 ==> round == ((x as int / pow2((i - 1) as nat) as int) % 2 == 1),
            i > 0 ==> sticky == (x as int % pow2((i - 1) as nat) as int != 0),
            i == 0 ==> !round && !sticky,
        decreases sh - i,
    {
        proof {
            lemma_pow2_pos(i as nat);
            lemma_pow2_adds(i as nat, 1);
            lemma2_to64();
            lemma_div_denominator(x as int, pow2(i as nat) as int, 2);
            if i > 0 {
                lemma_pow2_pos((i - 1) as nat);
                lemma_pow2_adds((i - 1) as nat, 1);
                lemma_breakdown(x as int, pow2((i - 1) as nat) as int, 2);
                lemma_mod_division_less_than_divisor(x as int, pow2((i - 1) as nat) as int);
                let p = pow2((i - 1) as nat) as int;
                let b = (x as int / p) % 2;
                let lo = x as int % p;
                assert(b == 0 || b == 1);
                assert(pow2(i as nat) as int == p * 2);
                assert(x as int % pow2(i as nat) as int == p * b + lo);
                lemma_mul_basics(p);
                assert((x as int % pow2(i as nat) as int != 0) == (b == 1 || lo != 0));
            } else {
                assert(pow2(0) == 1);
                assert(x as int % 1 == 0);
                assert(x as int / 1 == x as int);
            }
        }
        sticky = sticky || round;
        round = q % 2 == 1;
        q = q / 2;
        i = i + 1;
    }
    proof {
        lemma_pow2_pos((sh - 1) as nat);
        lemma_pow2_pos(sh as nat);
        lemma_pow2_adds((sh - 1) as nat, 1);
        lemma_breakdown(x as int, pow2((sh - 1) as nat) as int, 2);
        lemma_mod_division_less_than_divisor(x as int, pow2((sh - 1) as nat) as int);
        let p1 = pow2((sh - 1) as nat) as int;
        let b = (x as int / p1) % 2;
        let lo = x as int % p1;
        assert(b == 0 || b == 1);
        assert(pow2(sh as nat) as int == 2 * p1);
        assert(x as int % pow2(sh as nat) as int == p1 * b + lo);
        lemma_mul_basics(p1);
        assert((2 * (x as int % pow2(sh as nat) as int) > pow2(sh as nat) as int) == (b == 1 && lo
            > 0));
        assert((2 * (x as int % pow2(sh as nat) as int) == pow2(sh as nat) as int) == (b == 1 && lo
            == 0));
        if sh > 1 {
            lemma_pow2_strictly_increases(1, sh as nat);
        }
        lemma_div_is_ordered_by_denominator(x as int, 2, pow2(sh as nat) as int);
    }
    if round && (sticky || q % 2 == 1) {
        q + 1
    } else {
        q
    }
}

/// Narrowing of a double-precision bit pattern to the single-precision
/// pattern denoting the nearest representable value (ties to even), defined
/// only within the single-precision range.
pub open spec fn double_to_float_bits_spec(bits: u64) -> u32
    recommends
        double_in_float_range(bits),
{
    let s = bits as int / 0x8000_0000_0000_0000;
    let e = (bits as int / 0x10_0000_0000_0000) % 0x800;
    let m = bits as int % 0x10_0000_0000_0000;
    if e == 0 {
        // Subnormal doubles are far below the smallest single; they round to zero.
        (s * 0x8000_0000) as u32
    } else if e >= 897 {
        // Normal single-precision range: round the 53-bit significand to 24 bits.
        let k = rne_div(m + 0x10_0000_0000_0000, 0x2000_0000);
        if k == 0x100_0000 {
            // The significand rounded up to 2^24: carry into the exponent.
            (s * 0x8000_0000 + (e - 895) * 0x80_0000) as u32
        } else {
            (s * 0x8000_0000 + (e - 896) * 0x80_0000 + (k - 0x80_0000)) as u32
        }
    } else {
        // Subnormal single-precision result (or zero).
        let k = rne_div(m + 0x10_0000_0000_0000, pow2((926 - e) as nat) as int);
        (s * 0x8000_0000 + k) as u32
    }
}

/// Executable narrowing matching [`double_to_float_bits_spec`].
pub fn double_to_float_bits(bits: u64) -> (r: u32)
    requires
        double_in_float_range(bits),
    ensures
        r == double_to_float_bits_spec(bits),
{
    let s: u64 = bits / 0x8000_0000_0000_0000;
    let e: u64 = (bits / 0x10_0000_0000_0000) % 0x800;
    let m: u64 = bits % 0x10_0000_0000_0000;
    proof {
        lemma_breakdown(bits as int, 0x10_0000_0000_0000, 0x800);
        assert(double_abs_bits(bits) == e * 0x10_0000_0000_0000 + m);
    }
    if e == 0 {
        (s * 0x8000_0000) as u32
    } else if e >= 897 {
        let r53: u64 = m + 0x10_0000_0000_0000;
        let k: u64 = rne_shift(r53, 29);
        proof {
            lemma2_to64();
            lemma_fundamental_div_mod(r53 as int, 0x2000_0000);
            lemma_multiply_divide_lt(r53 as int, 0x2000_0000, 0x100_0000);
            assert(e <= 1150);
            assert(r53 as int / 0x2000_0000 <= 0xFF_FFFF);
            assert(k <= 0x100_0000);
            if e == 1150 {
                // At the top exponent the significand cannot round up past
                // the largest finite single.
                assert(m <= 0xF_FFFF_E000_0000);
                lemma_multiply_divide_le(r53 as int, 0x2000_0000, 0xFF_FFFF);
                assert(k <= 0xFF_FFFF);
            }
        }
        if k == 0x100_0000 {
            assert(e <= 1149);
            (s * 0x8000_0000 + (e - 895) * 0x80_0000) as u32
        } else {
            (s * 0x8000_0000 + (e - 896) * 0x80_0000 + (k - 0x80_0000)) as u32
        }
    } else {
        let r53: u64 = m + 0x10_0000_0000_0000;
        let sh: u64 = 926 - e;
        let k: u64 = if sh >= 54 {
            proof {
                lemma2_to64_rest();
                if sh > 54 {
                    lemma_pow2_strictly_increases(54, sh as nat);
                }
                lemma_basic_div(r53 as int, pow2(sh as nat) as int);
                lemma_small_mod(r53 as nat, pow2(sh as nat));
                assert(rne_div(r53 as int, pow2(sh as nat) as int) == 0);
            }
            0
        } else {
            rne_shift(r53, sh as usize)
        };
        proof {
            lemma2_to64();
            lemma2_to64_rest();
            lemma_pow2_pos(sh as nat);
            if sh > 30 {
                lemma_pow2_strictly_increases(30, sh as nat);
            }
            lemma_div_is_ordered_by_denominator(r53 as int, pow2(30) as int, pow2(sh as nat) as int);
            lemma_multiply_divide_lt(r53 as int, 0x80_0000, pow2(30) as int);
            lemma_fundamental_div_mod(r53 as int, pow2(sh as nat) as int);
            assert(r53 as int / pow2(sh as nat) as int <= 0x7F_FFFF);
            assert(k <= 0x80_0000);
        }
        (s * 0x8000_0000 + k) as u32
    }
}

/// Helper for the exact widening of a subnormal single-precision
/// significand: doubles the significand until it is normalized, decrementing
/// the exponent in step.
pub open spec fn norm_sub(mm: int, ee: int) -> (int, int)
    recommends
        0 < mm < 0x100_0000,
    decreases 0x100_0000 - mm,
    when 0 < mm < 0x100_0000
{
    if mm >= 0x80_0000 {
        (mm, ee)
    } else {
        norm_sub(2 * mm, ee - 1)
    }
}

/// Exact widening of a single-precision bit pattern to the double-precision
/// pattern denoting the same value (infinities and NaN payloads map to
/// their double-precision counterparts with the payload shifted up).
pub open spec fn float_to_double_bits_spec(b: u32) -> u64 {
    let s = b as int / 0x8000_0000;
    let e = (b as int / 0x80_0000) % 0x100;
    let m = b as int % 0x80_0000;
    if e == 0xFF {
        (s * 0x8000_0000_0000_0000 + 0x7FF0_0000_0000_0000 + m * 0x2000_0000) as u64
    } else if e == 0 {
        if m == 0 {
            (s * 0x8000_0000_0000_0000) as u64
        } else {
            let (mm, ee) = norm_sub(m, 897);
            (s * 0x8000_0000_0000_0000 + ee * 0x10_0000_0000_0000 + (mm - 0x80_0000)
                * 0x2000_0000) as u64
        }
    } else {
        (s * 0x8000_0000_0000_0000 + (e + 896) * 0x10_0000_0000_0000 + m * 0x2000_0000) as u64
    }
}

/// Executable widening matching [`float_to_double_bits_spec`].
pub fn float_to_double_bits(b: u32) -> (r: u64)
    ensures
        r == float_to_double_bits_spec(b),
{
    let s: u64 = (b / 0x8000_0000) as u64;
    let e: u64 = ((b / 0x80_0000) % 0x100) as u64;
    let m: u64 = (b % 0x80_0000) as u64;
    if e == 0xFF {
        s * 0x8000_0000_0000_0000 + 0x7FF0_0000_0000_0000 + m * 0x2000_0000
    } else if e == 0 {
        if m == 0 {
            s * 0x8000_0000_0000_0000
        } else {
            let mut mm: u64 = m;
            let mut ee: u64 = 897;
            proof {
                lemma2_to64();
            }
            while mm < 0x80_0000
                invariant
                    0 < mm < 0x100_0000,
                    874 <= ee <= 897,
                    norm_sub(m as int, 897) == norm_sub(mm as int, ee as int),
                    mm as int >= pow2((897 - ee) as nat),
                decreases 0x100_0000 - mm,
            {
                proof {
                    lemma2_to64();
                    lemma_pow2_adds((897 - ee) as nat, 1);
                    if ee == 874 {
                        assert(pow2(23) == 0x80_0000);
                        assert(false);
                    }
                }
                mm = mm * 2;
                ee = ee - 1;
            }
            s * 0x8000_0000_0000_0000 + ee * 0x10_0000_0000_0000 + (mm - 0x80_0000) * 0x2000_0000
        }
    } else {
        s * 0x8000_0000_0000_0000 + (e + 896) * 0x10_0000_0000_0000 + m * 0x2000_0000
    }
}

} // verus!
