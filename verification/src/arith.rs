//! Exact ratio arithmetic on unsigned 128-bit quantities.
//!
//! The distribution flows need `floor(a * num / (denom as int))` where `a` and `num`
//! may each use the full 128-bit range, so the product does not fit in any
//! machine word.  The product is computed as a 256-bit value held in two
//! 128-bit halves and divided by a binary long division; both steps are
//! verified, so the result is exactly the mathematical floored quotient.

use vstd::prelude::*;
use vstd::arithmetic::div_mod::{
    lemma_div_is_ordered, lemma_div_multiples_vanish, lemma_fundamental_div_mod,
    lemma_fundamental_div_mod_converse, lemma_div_denominator, lemma_breakdown,
    lemma_mod_multiples_basic, lemma_mod_division_less_than_divisor, lemma_div_pos_is_pos,
    lemma_multiply_divide_lt,
};
use vstd::arithmetic::mul::{
    lemma_mul_inequality, lemma_mul_is_associative, lemma_mul_is_commutative, lemma_mul_nonnegative,
    lemma_mul_is_distributive_add_other_way,
    lemma_mul_upper_bound,
};
use vstd::arithmetic::power2::{lemma_pow2_adds, lemma_pow2_pos, lemma_pow2_strictly_increases, lemma2_to64, lemma2_to64_rest, pow2};

verus! {

/// 2^64, the base in which 128-bit factors are split for the wide product.
pub const TWO64: u128 = 0x1_0000_0000_0000_0000;

/// 2^127, used to read off the top bit of a 128-bit remainder.
pub const TWO127: u128 = 0x8000_0000_0000_0000_0000_0000_0000_0000;

/// 2^128 as a mathematical integer: the weight of the high half of a
/// 256-bit value.
pub open spec fn two128() -> int {
    0x1_0000_0000_0000_0000_0000_0000_0000_0000int
}

/// The 256-bit value represented by the pair `(hi, lo)`.
pub open spec fn wide(hi: u128, lo: u128) -> int {
    hi * two128() + lo
}

/// Full 256-bit product of two 128-bit values, returned as `(hi, lo)`.
pub fn mul_wide(a: u128, b: u128) -> (r: (u128, u128))
    ensures
        wide(r.0, r.1) == a * b,
{
    let a1 = a / TWO64;
    let a0 = a % TWO64;
    let b1 = b / TWO64;
    let b0 = b % TWO64;
    proof {
        lemma_fundamental_div_mod(a as int, TWO64 as int);
        lemma_fundamental_div_mod(b as int, TWO64 as int);
        lemma_mod_division_less_than_divisor(a as int, TWO64 as int);
        lemma_mod_division_less_than_divisor(b as int, TWO64 as int);
        lemma_div_is_ordered(a as int, u128::MAX as int, TWO64 as int);
        lemma_div_is_ordered(b as int, u128::MAX as int, TWO64 as int);
        lemma_mul_upper_bound(a1 as int, TWO64 - 1, b1 as int, TWO64 - 1);
        lemma_mul_upper_bound(a1 as int, TWO64 - 1, b0 as int, TWO64 - 1);
        lemma_mul_upper_bound(a0 as int, TWO64 - 1, b1 as int, TWO64 - 1);
        lemma_mul_upper_bound(a0 as int, TWO64 - 1, b0 as int, TWO64 - 1);
    }
    let p11 = a1 * b1;
    let p10 = a1 * b0;
    let p01 = a0 * b1;
    let p00 = a0 * b0;
    proof {
        lemma_div_is_ordered(p00 as int, u128::MAX as int, TWO64 as int);
        lemma_mod_division_less_than_divisor(p00 as int, TWO64 as int);
    }
    let mid = p10 + p00 / TWO64;
    proof {
        lemma_mod_division_less_than_divisor(mid as int, TWO64 as int);
    }
    let mid2 = p01 + mid % TWO64;
    proof {
        lemma_mod_division_less_than_divisor(mid2 as int, TWO64 as int);
        lemma_mul_upper_bound((mid2 % TWO64) as int, TWO64 - 1, TWO64 as int, TWO64 as int);
        lemma_div_is_ordered(mid as int, u128::MAX as int, TWO64 as int);
        lemma_div_is_ordered(mid2 as int, u128::MAX as int, TWO64 as int);
    }
    let lo = (mid2 % TWO64) * TWO64 + p00 % TWO64;
    let hi = p11 + mid / TWO64 + mid2 / TWO64;
    proof {
        lemma_fundamental_div_mod(p00 as int, TWO64 as int);
        lemma_fundamental_div_mod(mid as int, TWO64 as int);
        lemma_fundamental_div_mod(mid2 as int, TWO64 as int);
        let t = TWO64 as int;
        assert(wide(hi, lo) == p11 * (t * t) + p01 * t + p10 * t + p00) by {
            assert(two128() == t * t);
            assert(hi * (t * t) + lo
                == p11 * (t * t) + (mid / TWO64) * (t * t) + (mid2 / TWO64) * (t * t)
                    + (mid2 % TWO64) * t + p00 % TWO64) by {
                lemma_mul_is_distributive_add_other_way(t * t, p11 as int,
                    mid / TWO64 + mid2 / TWO64);
                lemma_mul_is_distributive_add_other_way(t * t, (mid / TWO64) as int,
                    (mid2 / TWO64) as int);
            }
            assert((mid2 / TWO64) * (t * t) + (mid2 % TWO64) * t == mid2 * t) by {
                lemma_mul_is_associative((mid2 / TWO64) as int, t, t);
                lemma_mul_is_distributive_add_other_way(t, (mid2 / TWO64) * t,
                    (mid2 % TWO64) as int);
            }
            assert((mid / TWO64) * (t * t) + (mid % TWO64) * t == mid * t) by {
                lemma_mul_is_associative((mid / TWO64) as int, t, t);
                lemma_mul_is_distributive_add_other_way(t, (mid / TWO64) * t,
                    (mid % TWO64) as int);
            }
            assert(mid2 * t == p01 * t + (mid % TWO64) * t) by {
                lemma_mul_is_distributive_add_other_way(t, p01 as int, (mid % TWO64) as int);
            }
            assert(mid * t == p10 * t + (p00 / TWO64) * t) by {
                lemma_mul_is_distributive_add_other_way(t, p10 as int, (p00 / TWO64) as int);
            }
        }
        assert(p11 * (t * t) + p01 * t + p10 * t + p00 == a * b) by (nonlinear_arith)
            requires
                a == a1 * t + a0,
                b == b1 * t + b0,
                p11 == a1 * b1,
                p10 == a1 * b0,
                p01 == a0 * b1,
                p00 == a0 * b0,
        {}
    }
    (hi, lo)
}

/// Concrete values of the powers of two that the division proof keys on.
proof fn lemma_pow2_vals()
    ensures
        pow2(1) == 2,
        pow2(63) == 0x8000_0000_0000_0000,
        pow2(64) == TWO64,
        pow2(127) == TWO127,
        pow2(128) == two128(),
{
    lemma2_to64();
    lemma2_to64_rest();
    lemma_pow2_adds(64, 63);
    lemma_pow2_adds(64, 64);
}

/// Quotient of the 256-bit value `(hi, lo)` by `d`, by binary long division
/// over the bits of `lo` with the running remainder seeded from `hi`.
/// `hi < d` is exactly the condition under which the quotient fits in
/// 128 bits.
pub fn div_wide(hi: u128, lo: u128, d: u128) -> (q: u128)
    requires
        0 < d,
        hi < d,
    ensures
        q == wide(hi, lo) / (d as int),
{
    let mut q: u128 = 0;
    let mut rem: u128 = hi;
    let mut cur: u128 = lo;
    let ghost mut m: int = 0;
    let ghost mut r: int = lo as int;
    let mut i: usize = 0;
    proof {
        lemma_pow2_vals();
        lemma2_to64();
    }
    while i < 128
        invariant
            i <= 128,
            0 < d,
            hi < d,
            0 <= m,
            lo == m * pow2((128 - i) as nat) + r,
            0 <= r < pow2((128 - i) as nat),
            cur == r * pow2(i as nat),
            (q as int) * d + rem == hi * pow2(i as nat) + m,
            rem < d,
        decreases 128 - i,
    {
        let ghost k1: nat = (127 - i) as nat;
        proof {
            lemma_pow2_vals();
            lemma_pow2_pos(k1);
            lemma_pow2_pos(i as nat);
            lemma_pow2_adds(1, k1);
            lemma_pow2_adds(i as nat, k1);
            lemma_pow2_adds(1, i as nat);
        }
        let ghost b: int = r / (pow2(k1) as int);
        let ghost r2: int = r % (pow2(k1) as int);
        proof {
            lemma_fundamental_div_mod(r, pow2(k1) as int);
            lemma_mod_division_less_than_divisor(r, pow2(k1) as int);
            lemma_multiply_divide_lt(r, 2, pow2(k1) as int);
            assert(lo == (2 * m + b) * pow2(k1) + r2) by (nonlinear_arith)
                requires
                    lo == m * pow2((128 - i) as nat) + r,
                    r == b * pow2(k1) + r2,
                    pow2((128 - i) as nat) == 2 * pow2(k1),
            {}
            // the top bit of `cur` is the next bit of `lo`
            lemma_div_denominator(cur as int, pow2(i as nat) as int, pow2(k1) as int);
            lemma_div_multiples_vanish(r, pow2(i as nat) as int);
            lemma_mul_is_commutative(r, pow2(i as nat) as int);
            assert(cur as int / (TWO127 as int) == b);
            // what remains of `cur` once the top bit is dropped
            lemma_breakdown(cur as int, pow2(i as nat) as int, pow2(k1) as int);
            lemma_mod_multiples_basic(r, pow2(i as nat) as int);
            lemma_mod_division_less_than_divisor(cur as int, TWO127 as int);
            assert(cur as int % (TWO127 as int) == pow2(i as nat) * r2);
        }
        let top: u128 = cur / TWO127;
        let newcur: u128 = (cur % TWO127) * 2;
        proof {
            assert(newcur == r2 * pow2((i + 1) as nat)) by (nonlinear_arith)
                requires
                    newcur == (pow2(i as nat) * r2) * 2,
                    pow2((i + 1) as nat) == 2 * pow2(i as nat),
            {}
        }
        let qbit: u128;
        let newrem: u128;
        if rem >= TWO127 {
            proof {
                lemma_multiply_divide_lt(d as int, TWO127 as int, 2);
                lemma_fundamental_div_mod(d as int, 2);
                lemma_mod_division_less_than_divisor(d as int, 2);
            }
            let t = rem - d / 2;
            qbit = 1;
            newrem = 2 * t + top - d % 2;
        } else {
            let s = 2 * rem + top;
            if s >= d {
                qbit = 1;
                newrem = s - d;
            } else {
                qbit = 0;
                newrem = s;
            }
        }
        proof {
            assert(newrem == 2 * rem + b - (qbit as int) * d);
            assert(newrem < d);
            let p2: int = hi * pow2((i + 1) as nat) + (2 * m + b);
            assert((2 * (q as int) + qbit) * d + newrem == p2) by (nonlinear_arith)
                requires
                    (q as int) * d + rem == hi * pow2(i as nat) + m,
                    newrem == 2 * rem + b - (qbit as int) * d,
                    p2 == hi * pow2((i + 1) as nat) + (2 * m + b),
                    pow2((i + 1) as nat) == 2 * pow2(i as nat),
            {}
            // the next partial quotient still fits in 128 bits
            lemma_fundamental_div_mod_converse(p2, d as int, 2 * (q as int) + qbit, newrem as int);
            assert(2 * m + b <= lo) by (nonlinear_arith)
                requires
                    lo == (2 * m + b) * pow2(k1) + r2,
                    0 <= r2,
                    0 <= 2 * m + b,
                    1 <= pow2(k1),
            {}
            if i + 1 < 128 {
                lemma_pow2_strictly_increases((i + 1) as nat, 128);
            }
            assert(hi * pow2((i + 1) as nat) <= hi * pow2(128)) by (nonlinear_arith)
                requires
                    0 <= hi as int,
                    pow2((i + 1) as nat) <= pow2(128),
            {}
            assert(wide(hi, lo) < d * two128()) by (nonlinear_arith)
                requires
                    hi < d,
                    lo < two128(),
                    pow2(128) == two128(),
                    wide(hi, lo) == hi * two128() + lo,
            {}
            lemma_div_is_ordered(p2, wide(hi, lo), d as int);
            lemma_multiply_divide_lt(wide(hi, lo), d as int, two128());
        }
        q = 2 * q + qbit;
        rem = newrem;
        cur = newcur;
        proof {
            m = 2 * m + b;
            r = r2;
        }
        i = i + 1;
    }
    proof {
        lemma_pow2_vals();
        lemma2_to64();
        assert(r == 0);
        assert(pow2((128 - i) as nat) == 1);
        assert(m * 1 == m) by (nonlinear_arith);
        assert(m == lo);
        assert((q as int) * d + rem == hi * pow2(128) + lo);
        assert((q as int) * d + rem == wide(hi, lo));
        lemma_fundamental_div_mod_converse(wide(hi, lo), d as int, q as int, rem as int);
    }
    q
}

/// `floor(a * num / (denom as int))` computed exactly, through a 256-bit product,
/// or `None` exactly when the quotient does not fit in 128 bits.
pub fn checked_u128_ratio(a: u128, num: u128, denom: u128) -> (r: Option<u128>)
    requires
        0 < denom,
    ensures
        match r {
            Option::Some(q) => q == a * num / (denom as int),
            Option::None => a * num / (denom as int) > u128::MAX,
        },
{
    let (hi, lo) = mul_wide(a, num);
    if hi >= denom {
        proof {
            assert(wide(hi, lo) >= denom * two128()) by (nonlinear_arith)
                requires
                    wide(hi, lo) == hi * two128() + lo,
                    hi >= denom,
                    0 <= lo,
            {}
            lemma_div_is_ordered(denom * two128(), wide(hi, lo), denom as int);
            lemma_div_multiples_vanish(two128(), denom as int);
        }
        None
    } else {
        Some(div_wide(hi, lo, denom))
    }
}

/// `floor(a * num / (denom as int))` when the caller can show the quotient fits.
pub fn u128_ratio(a: u128, num: u128, denom: u128) -> (r: u128)
    requires
        0 < denom,
        a * num / (denom as int) <= u128::MAX,
    ensures
        r == a * num / (denom as int),
{
    match checked_u128_ratio(a, num, denom) {
        Some(q) => q,
        None => {
            proof {
                assert(false);
            }
            0
        },
    }
}

/// A floored ratio with `num <= denom` never exceeds `a`.
pub proof fn lemma_ratio_le(a: int, num: int, denom: int)
    requires
        0 <= a,
        0 <= num,
        0 < denom,
        num <= denom,
    ensures
        0 <= a * num / (denom as int) <= a,
{
    lemma_mul_nonnegative(a, num);
    lemma_div_pos_is_pos(a * num, denom);
    lemma_mul_inequality(num, denom, a);
    lemma_mul_is_commutative(num, a);
    lemma_mul_is_commutative(denom, a);
    lemma_div_is_ordered(a * num, a * denom, denom);
    lemma_mul_is_commutative(a, denom);
    lemma_div_multiples_vanish(a, denom);
}

/// 10^e as a mathematical integer.
pub open spec fn pow10(e: nat) -> int
    decreases e,
{
    if e == 0 {
        1
    } else {
        10 * pow10((e - 1) as nat)
    }
}

/// Powers of ten are at least one.
pub proof fn lemma_pow10_pos(e: nat)
    ensures
        pow10(e) >= 1,
    decreases e,
{
    if e > 0 {
        lemma_pow10_pos((e - 1) as nat);
    }
}

/// Powers of ten are monotone in the exponent.
pub proof fn lemma_pow10_increases(e1: nat, e2: nat)
    requires
        e1 <= e2,
    ensures
        pow10(e1) <= pow10(e2),
    decreases e2,
{
    if e1 < e2 {
        lemma_pow10_increases(e1, (e2 - 1) as nat);
        lemma_pow10_pos((e2 - 1) as nat);
    }
}

/// `10^e` as a 128-bit value, or `None` exactly when it does not fit.
pub fn checked_pow10(e: u32) -> (r: Option<u128>)
    ensures
        match r {
            Option::Some(p) => p == pow10(e as nat),
            Option::None => pow10(e as nat) > u128::MAX,
        },
{
    let mut acc: u128 = 1;
    let mut j: u32 = 0;
    while j < e
        invariant
            j <= e,
            acc == pow10(j as nat),
        decreases e - j,
    {
        if acc > u128::MAX / 10 {
            proof {
                lemma_pow10_pos(j as nat);
                lemma_pow10_increases((j + 1) as nat, e as nat);
            }
            return None;
        }
        acc = acc * 10;
        j = j + 1;
    }
    Some(acc)
}

} // verus!
