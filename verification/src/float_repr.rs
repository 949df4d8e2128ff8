//! Bit-level model of IEEE-754 binary64 values.
//!
//! Floating-point payloads are carried as their 64 raw bits, and the two
//! comparisons the value model needs — float against float, and float
//! against integer by exact numeric value — are computed and specified
//! over those bits: a finite value with significand `f64_sig` and biased
//! exponent `f64_bexp` denotes `(-1)^sign * f64_sig * 2^(f64_bexp - 1075)`.

use vstd::arithmetic::mul::{lemma_mul_inequality, lemma_mul_upper_bound};
use vstd::arithmetic::power2::{lemma2_to64, lemma_pow2_adds, lemma_pow2_strictly_increases, pow2};
use vstd::math::abs;
use vstd::prelude::*;

verus! {

pub open spec fn f64_sign_field(b: u64) -> u64 {
    b >> 63
}

pub open spec fn f64_exp_field(b: u64) -> u64 {
    (b >> 52) & 0x7ff
}

pub open spec fn f64_frac_field(b: u64) -> u64 {
    b & 0xf_ffff_ffff_ffff
}

pub open spec fn f64_is_nan(b: u64) -> bool {
    f64_exp_field(b) == 0x7ff && f64_frac_field(b) != 0
}

pub open spec fn f64_is_zero(b: u64) -> bool {
    f64_exp_field(b) == 0 && f64_frac_field(b) == 0
}

/// Significand with the hidden bit made explicit; subnormals keep the
/// bare fraction.
pub open spec fn f64_sig(b: u64) -> nat {
    if f64_exp_field(b) == 0 {
        f64_frac_field(b) as nat
    } else {
        f64_frac_field(b) as nat + 0x10_0000_0000_0000
    }
}

/// Biased exponent, with subnormals folded onto exponent 1 so that the
/// value is always `f64_sig(b) * 2^(f64_bexp(b) - 1075)` in magnitude.
pub open spec fn f64_bexp(b: u64) -> nat {
    if f64_exp_field(b) == 0 {
        1
    } else {
        f64_exp_field(b) as nat
    }
}

/// The bits `b` denote a finite value numerically equal to the integer
/// `i`. Signs of zero are ignored: both zeros equal the integer zero.
pub open spec fn f64_equals_int(b: u64, i: int) -> bool {
    &&& f64_exp_field(b) != 0x7ff
    &&& if i == 0 {
        f64_sig(b) == 0
    } else {
        &&& ((i < 0) <==> f64_sign_field(b) == 1)
        &&& if f64_bexp(b) >= 1075 {
            f64_sig(b) * pow2((f64_bexp(b) - 1075) as nat) == abs(i)
        } else {
            abs(i) * pow2((1075 - f64_bexp(b)) as nat) == f64_sig(b)
        }
    }
}

/// IEEE equality on two finite-or-NaN values: NaN equals nothing, the
/// two zeros are equal, and all other values are equal only as bits.
pub open spec fn f64_eq(a: u64, b: u64) -> bool {
    &&& !f64_is_nan(a)
    &&& !f64_is_nan(b)
    &&& (a == b || (f64_is_zero(a) && f64_is_zero(b)))
}

/// Numeric equality of two binary64 values given as raw bits.
pub fn float_eq_bits(a: u64, b: u64) -> (r: bool)
    ensures
        r == f64_eq(a, b),
{
    let ea: u64 = (a >> 52) & 0x7ff;
    let fa: u64 = a & 0xf_ffff_ffff_ffff;
    let eb: u64 = (b >> 52) & 0x7ff;
    let fb: u64 = b & 0xf_ffff_ffff_ffff;
    if ea == 0x7ff && fa != 0 {
        return false;
    }
    if eb == 0x7ff && fb != 0 {
        return false;
    }
    a == b || (ea == 0 && fa == 0 && eb == 0 && fb == 0)
}

/// 2 to the power `k`, computed for the exponent ranges the float
/// comparisons need.
fn pow2_u128(k: u64) -> (r: u128)
    requires
        k < 127,
    ensures
        r == pow2(k as nat),
{
    let mut j: u64 = 0;
    let mut r: u128 = 1;
    proof {
        vstd::arithmetic::power2::lemma_pow2_unfold(1);
        assert(pow2(0) == 1) by {
            lemma2_to64();
        }
    }
    while j < k
        invariant
            j <= k < 127,
            r == pow2(j as nat),
        decreases k - j,
    {
        proof {
            lemma_pow2_adds(j as nat, 1);
            assert(pow2(1) == 2) by {
                lemma2_to64();
            }
            lemma_pow2_strictly_increases(j as nat + 1, 127);
            lemma_pow2_127_fits();
        }
        r = r * 2;
        j += 1;
    }
    r
}

proof fn lemma_pow2_127_fits()
    ensures
        pow2(127) < u128::MAX,
{
    lemma2_to64();
    vstd::arithmetic::power2::lemma2_to64_rest();
    lemma_pow2_adds(64, 63);
    assert(pow2(64) == 0x10000000000000000 && pow2(63) == 0x8000000000000000);
}

/// Exact numeric equality between a binary64 value given as raw bits and
/// a machine integer: true only when the float is finite, integral, and
/// of the same magnitude and sign.
pub fn float_int_eq_bits(b: u64, i: i64) -> (r: bool)
    ensures
        r == f64_equals_int(b, i as int),
{
    let e: u64 = (b >> 52) & 0x7ff;
    if e == 0x7ff {
        return false;
    }
    let f: u64 = b & 0xf_ffff_ffff_ffff;
    proof {
        assert(f <= 0xf_ffff_ffff_ffff) by (bit_vector)
            requires
                f == b & 0xf_ffff_ffff_ffff,
        ;
    }
    let m: u64 = if e == 0 {
        f
    } else {
        f + 0x10_0000_0000_0000
    };
    if i == 0 {
        return m == 0;
    }
    let neg: bool = (b >> 63) == 1;
    if (i < 0) != neg {
        return false;
    }
    let mag: u64 = if i == i64::MIN {
        0x8000_0000_0000_0000
    } else if i < 0 {
        (-i) as u64
    } else {
        i as u64
    };
    let be: u64 = if e == 0 {
        1
    } else {
        e
    };
    proof {
        assert(e <= 0x7fe) by (bit_vector)
            requires
                e == (b >> 52) & 0x7ff && e != 0x7ff,
        ;
    }
    if be >= 1075 {
        let k: u64 = be - 1075;
        if k >= 64 {
            proof {
                // the magnitude is at least 2^52 * 2^64, beyond any i64
                lemma2_to64();
                if k > 64 {
                    lemma_pow2_strictly_increases(64, k as nat);
                }
                lemma_mul_inequality(pow2(64) as int, pow2(k as nat) as int, m as int);
                lemma_mul_inequality(1, m as int, pow2(64) as int);
                vstd::arithmetic::mul::lemma_mul_is_commutative(pow2(64) as int, m as int);
                vstd::arithmetic::mul::lemma_mul_is_commutative(pow2(k as nat) as int, m as int);
                assert(m * pow2(k as nat) >= pow2(64));
                assert(abs(i as int) == mag);
                assert(mag < pow2(64));
            }
            return false;
        }
        let p: u128 = pow2_u128(k);
        proof {
            lemma2_to64();
            vstd::arithmetic::power2::lemma2_to64_rest();
            if k > 0 {
                lemma_pow2_strictly_increases(0, k as nat);
            }
            if (k as nat) < 63 {
                lemma_pow2_strictly_increases(k as nat, 63);
            }
            lemma_mul_upper_bound(m as int, pow2(53) as int, p as int, pow2(63) as int);
            lemma_pow2_adds(53, 63);
            lemma_pow2_strictly_increases(116, 127);
            lemma_pow2_127_fits();
            assert(abs(i as int) == mag);
        }
        let prod: u128 = (m as u128) * p;
        prod == mag as u128
    } else {
        let d: u64 = 1075 - be;
        if d >= 64 {
            proof {
                // an integer magnitude of at least one, scaled by 2^64 or
                // more, exceeds any significand
                lemma2_to64();
                if d > 64 {
                    lemma_pow2_strictly_increases(64, d as nat);
                }
                lemma_mul_inequality(pow2(64) as int, pow2(d as nat) as int, mag as int);
                lemma_mul_inequality(1, mag as int, pow2(64) as int);
                vstd::arithmetic::mul::lemma_mul_is_commutative(pow2(64) as int, mag as int);
                vstd::arithmetic::mul::lemma_mul_is_commutative(pow2(d as nat) as int, mag as int);
                assert(abs(i as int) == mag);
                assert(mag >= 1);
                assert(mag * pow2(d as nat) >= pow2(64));
            }
            return false;
        }
        let p: u128 = pow2_u128(d);
        proof {
            lemma2_to64();
            vstd::arithmetic::power2::lemma2_to64_rest();
            if d > 0 {
                lemma_pow2_strictly_increases(0, d as nat);
            }
            if (d as nat) < 63 {
                lemma_pow2_strictly_increases(d as nat, 63);
            }
            lemma_mul_upper_bound(mag as int, pow2(63) as int, p as int, pow2(63) as int);
            lemma_pow2_adds(63, 63);
            lemma_pow2_strictly_increases(126, 127);
            lemma_pow2_127_fits();
            assert(abs(i as int) == mag);
        }
        let prod: u128 = (mag as u128) * p;
        prod == m as u128
    }
}

} // verus!
