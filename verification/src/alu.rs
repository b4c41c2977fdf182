//! The arithmetic unit: exact executable arithmetic on 32-bit words.
//!
//! Signed operands travel through the machine as their two's-complement
//! bit patterns; [`to_i32`] and [`from_i32`] are the spec-level bridge
//! between bit patterns and signed values.  Every function here carries an
//! exact contract in terms of mathematical integers.

use vstd::prelude::*;

use vstd::arithmetic::div_mod::lemma_fundamental_div_mod;
use vstd::arithmetic::div_mod::lemma_fundamental_div_mod_converse;
use vstd::arithmetic::div_mod::lemma_mul_mod_noop_general;
use vstd::arithmetic::div_mod::lemma_small_mod;
use vstd::arithmetic::mul::lemma_mul_upper_bound;
use vstd::arithmetic::power::lemma_pow0;
use vstd::arithmetic::power::lemma_pow1;
use vstd::arithmetic::power::lemma_pow_adds;
use vstd::arithmetic::power::lemma_pow_increases;
use vstd::arithmetic::power::lemma_pow_mod_noop;
use vstd::arithmetic::power::lemma_pow_multiplies;
use vstd::arithmetic::power::lemma_pow_positive;
use vstd::arithmetic::power::pow;

verus! {

/// The signed value of a two's-complement bit pattern.
pub open spec fn to_i32(b: u32) -> i32 {
    if b <= 0x7FFF_FFFF {
        b as i32
    } else {
        (b - 0x1_0000_0000) as i32
    }
}

/// The two's-complement bit pattern of a signed value.
pub open spec fn from_i32(v: i32) -> u32 {
    if v >= 0 {
        v as u32
    } else {
        (v + 0x1_0000_0000) as u32
    }
}

/// The magnitude of the signed value of a bit pattern.
pub open spec fn smag(b: u32) -> u32 {
    if b <= 0x7FFF_FFFF {
        b
    } else {
        (0x1_0000_0000 - b) as u32
    }
}

/// Multiplication modulo 2^32.
pub open spec fn wrap_mul(a: u32, b: u32) -> u32 {
    (((a * b) % 0x1_0000_0000) as u32)
}

/// Truncating (toward zero) integer division, the division of the signed
/// opcodes.
pub open spec fn tdiv(a: int, b: int) -> int
    recommends
        b != 0,
{
    if a >= 0 && b > 0 {
        a / b
    } else if a < 0 && b > 0 {
        -((-a) / b)
    } else if a >= 0 && b < 0 {
        -(a / (-b))
    } else {
        (-a) / (-b)
    }
}

/// The remainder matching [`tdiv`]; it carries the sign of the dividend.
pub open spec fn trem(a: int, b: int) -> int
    recommends
        b != 0,
{
    a - b * tdiv(a, b)
}

/// The Euclidean remainder: [`trem`] shifted into `[0, |b|)`.
pub open spec fn erem(a: int, b: int) -> int
    recommends
        b != 0,
{
    if trem(a, b) < 0 {
        trem(a, b) + (if b < 0 {
            -b
        } else {
            b
        })
    } else {
        trem(a, b)
    }
}

/// Converts a bit pattern to the signed value it encodes.
pub fn bits_to_i32(b: u32) -> (r: i32)
    ensures
        r == to_i32(b),
{
    if b <= 0x7FFF_FFFF {
        b as i32
    } else {
        -((0xFFFF_FFFFu32 - b) as i32) - 1
    }
}

/// Converts a signed value to its bit pattern.
pub fn i32_to_bits(v: i32) -> (r: u32)
    ensures
        r == from_i32(v),
{
    if v >= 0 {
        v as u32
    } else {
        ((v as i64) + 0x1_0000_0000i64) as u32
    }
}

/// The magnitude of the signed value of a bit pattern.
pub fn bits_mag(b: u32) -> (r: u32)
    ensures
        r == smag(b),
{
    if b <= 0x7FFF_FFFF {
        b
    } else {
        (0x1_0000_0000u64 - (b as u64)) as u32
    }
}

/// The bit pattern of the negation of a magnitude `m <= 2^31`.
pub fn neg_mag_bits(m: u32) -> (r: u32)
    requires
        m <= 0x8000_0000,
    ensures
        m > 0 ==> r == 0x1_0000_0000 - m,
        m == 0 ==> r == 0,
        to_i32(r) == -(m as int),
{
    if m == 0 {
        0
    } else {
        (0x1_0000_0000u64 - (m as u64)) as u32
    }
}

/// Addition with carry: the 33-bit sum split into its low word and carry.
pub fn add_carry(a: u32, b: u32, ci: bool) -> (r: (u32, bool))
    ensures
        r.0 == (a + b + (if ci {
            1int
        } else {
            0int
        })) % 0x1_0000_0000,
        r.1 == (a + b + (if ci {
            1int
        } else {
            0int
        }) > 0xFFFF_FFFF),
{
    let s: u64 = (a as u64) + (b as u64) + (if ci {
        1u64
    } else {
        0u64
    });
    ((s % 0x1_0000_0000) as u32, s > 0xFFFF_FFFF)
}

/// Subtraction with borrow: the wrapped difference and whether it went
/// below zero.
pub fn sub_borrow(a: u32, b: u32, bi: bool) -> (r: (u32, bool))
    ensures
        r.0 == (a - b - (if bi {
            1int
        } else {
            0int
        })) % 0x1_0000_0000,
        r.1 == (a - b - (if bi {
            1int
        } else {
            0int
        }) < 0),
{
    let d: i64 = (a as i64) - (b as i64) - (if bi {
        1i64
    } else {
        0i64
    });
    if d >= 0 {
        proof {
            lemma_small_mod(d as nat, 0x1_0000_0000nat);
        }
        (d as u32, false)
    } else {
        proof {
            lemma_fundamental_div_mod_converse(d as int, 0x1_0000_0000, -1, d + 0x1_0000_0000);
        }
        ((d + 0x1_0000_0000i64) as u32, true)
    }
}

/// Widening multiply-accumulate: `a * b + c` split into low and high words.
pub fn mul_wide(a: u32, b: u32, c: u32) -> (r: (u32, u32))
    ensures
        r.0 == (a * b + c) % 0x1_0000_0000,
        r.1 == (a * b + c) / 0x1_0000_0000,
{
    proof {
        lemma_mul_upper_bound(a as int, 0xFFFF_FFFF, b as int, 0xFFFF_FFFF);
    }
    let p: u64 = (a as u64) * (b as u64) + (c as u64);
    ((p % 0x1_0000_0000) as u32, (p / 0x1_0000_0000) as u32)
}

/// Multiplication modulo 2^32.
pub fn wmul(a: u32, b: u32) -> (r: u32)
    ensures
        r == wrap_mul(a, b),
{
    proof {
        lemma_mul_upper_bound(a as int, 0xFFFF_FFFF, b as int, 0xFFFF_FFFF);
    }
    let p: u64 = (a as u64) * (b as u64);
    (p % 0x1_0000_0000) as u32
}

/// Signed addition on bit patterns: the wrapped sum and the overflow bit.
pub fn sadd_ovf(a: u32, b: u32, ci: bool) -> (r: (u32, bool))
    ensures
        r.0 == (a + b + (if ci {
            1int
        } else {
            0int
        })) % 0x1_0000_0000,
        r.1 == !(i32::MIN <= to_i32(a) + to_i32(b) + (if ci {
            1int
        } else {
            0int
        }) <= i32::MAX),
{
    let (sum, _) = add_carry(a, b, ci);
    let m: i64 = (bits_to_i32(a) as i64) + (bits_to_i32(b) as i64) + (if ci {
        1i64
    } else {
        0i64
    });
    (sum, m < i32::MIN as i64 || m > i32::MAX as i64)
}

/// Signed subtraction on bit patterns: the wrapped difference and the
/// overflow bit.
pub fn ssub_ovf(a: u32, b: u32, bi: bool) -> (r: (u32, bool))
    ensures
        r.0 == (a - b - (if bi {
            1int
        } else {
            0int
        })) % 0x1_0000_0000,
        r.1 == !(i32::MIN <= to_i32(a) - to_i32(b) - (if bi {
            1int
        } else {
            0int
        }) <= i32::MAX),
{
    let (diff, _) = sub_borrow(a, b, bi);
    let m: i64 = (bits_to_i32(a) as i64) - (bits_to_i32(b) as i64) - (if bi {
        1i64
    } else {
        0i64
    });
    (diff, m < i32::MIN as i64 || m > i32::MAX as i64)
}

/// Signed multiplication on bit patterns: the wrapped product and the
/// overflow bit.
pub fn smul_ovf(a: u32, b: u32) -> (r: (u32, bool))
    ensures
        r.0 == wrap_mul(a, b),
        r.1 == !(i32::MIN <= to_i32(a) * to_i32(b) <= i32::MAX),
{
    let p = wmul(a, b);
    proof {
        assert(-0x4000_0000_0000_0000 <= to_i32(a) * to_i32(b)
            <= 0x4000_0000_0000_0000) by (nonlinear_arith)
            requires
                -0x8000_0000 <= to_i32(a) <= 0x7FFF_FFFF,
                -0x8000_0000 <= to_i32(b) <= 0x7FFF_FFFF,
        {
        }
    }
    let m: i64 = (bits_to_i32(a) as i64) * (bits_to_i32(b) as i64);
    (p, m < i32::MIN as i64 || m > i32::MAX as i64)
}

/// Unsigned checked division: `None` exactly on a zero divisor.
pub fn udiv_checked(a: u32, b: u32) -> (r: Option<u32>)
    ensures
        b == 0 <==> r is None,
        r matches Some(v) ==> v == a as int / b as int,
{
    if b == 0 {
        None
    } else {
        Some(a / b)
    }
}

/// Unsigned checked remainder: `None` exactly on a zero divisor.
pub fn urem_checked(a: u32, b: u32) -> (r: Option<u32>)
    ensures
        b == 0 <==> r is None,
        r matches Some(v) ==> v == a as int % b as int,
{
    if b == 0 {
        None
    } else {
        Some(a % b)
    }
}

/// Signed checked division on bit patterns.  `None` exactly on a zero
/// divisor or on the one overflowing quotient `MIN / -1`.
pub fn sdiv_checked(a: u32, b: u32) -> (r: Option<u32>)
    ensures
        r is None <==> (b == 0 || (a == 0x8000_0000 && b == 0xFFFF_FFFF)),
        r matches Some(v) ==> to_i32(v) == tdiv(to_i32(a) as int, to_i32(b) as int),
{
    if b == 0 {
        return None;
    }
    if a == 0x8000_0000 && b == 0xFFFF_FFFF {
        return None;
    }
    let neg_a = a > 0x7FFF_FFFF;
    let neg_b = b > 0x7FFF_FFFF;
    let ma = bits_mag(a);
    let mb = bits_mag(b);
    let q = ma / mb;
    proof {
        lemma_tdiv_cases(to_i32(a) as int, to_i32(b) as int, ma as int, mb as int);
        lemma_div_bounds(ma as int, mb as int);
    }
    if neg_a != neg_b {
        Some(neg_mag_bits(q))
    } else {
        proof {
            // Same signs: the quotient is nonnegative and must fit below
            // 2^31.  A quotient that large would need `a = MIN, b = -1`,
            // which was ruled out above.
            if neg_a && mb == 1 {
                assert(b == 0xFFFF_FFFF);
            }
        }
        Some(q)
    }
}

/// Signed checked remainder on bit patterns; the remainder carries the sign
/// of the dividend.  `None` exactly where [`sdiv_checked`] is.
pub fn srem_checked(a: u32, b: u32) -> (r: Option<u32>)
    ensures
        r is None <==> (b == 0 || (a == 0x8000_0000 && b == 0xFFFF_FFFF)),
        r matches Some(v) ==> to_i32(v) == trem(to_i32(a) as int, to_i32(b) as int),
{
    if b == 0 {
        return None;
    }
    if a == 0x8000_0000 && b == 0xFFFF_FFFF {
        return None;
    }
    let neg_a = a > 0x7FFF_FFFF;
    let neg_b = b > 0x7FFF_FFFF;
    let ma = bits_mag(a);
    let mb = bits_mag(b);
    let q = ma / mb;
    let m = ma % mb;
    proof {
        lemma_fundamental_div_mod(ma as int, mb as int);
        vstd::arithmetic::div_mod::lemma_mod_bound(ma as int, mb as int);
        lemma_tdiv_cases(to_i32(a) as int, to_i32(b) as int, ma as int, mb as int);
    }
    if neg_a {
        Some(neg_mag_bits(m))
    } else {
        Some(m)
    }
}

/// Signed checked Euclidean remainder on bit patterns: the result lies in
/// `[0, |b|)`.  `None` exactly where [`sdiv_checked`] is.
pub fn srem_euclid_checked(a: u32, b: u32) -> (r: Option<u32>)
    ensures
        r is None <==> (b == 0 || (a == 0x8000_0000 && b == 0xFFFF_FFFF)),
        r matches Some(v) ==> to_i32(v) == erem(to_i32(a) as int, to_i32(b) as int),
{
    if b == 0 {
        return None;
    }
    if a == 0x8000_0000 && b == 0xFFFF_FFFF {
        return None;
    }
    let neg_a = a > 0x7FFF_FFFF;
    let ma = bits_mag(a);
    let mb = bits_mag(b);
    let m = ma % mb;
    proof {
        lemma_fundamental_div_mod(ma as int, mb as int);
        vstd::arithmetic::div_mod::lemma_mod_bound(ma as int, mb as int);
        lemma_tdiv_cases(to_i32(a) as int, to_i32(b) as int, ma as int, mb as int);
    }
    if neg_a && m != 0 {
        Some(mb - m)
    } else {
        Some(m)
    }
}

/// Relates the magnitude quotient and remainder to [`tdiv`] and [`trem`]
/// in all four sign cases.
proof fn lemma_tdiv_cases(ia: int, ib: int, ma: int, mb: int)
    requires
        ib != 0,
        ma == if ia >= 0 {
            ia
        } else {
            -ia
        },
        mb == if ib >= 0 {
            ib
        } else {
            -ib
        },
    ensures
        tdiv(ia, ib) == if (ia >= 0) == (ib >= 0) {
            ma / mb
        } else {
            -(ma / mb)
        },
        trem(ia, ib) == if ia >= 0 {
            ma % mb
        } else {
            -(ma % mb)
        },
{
    lemma_fundamental_div_mod(ma, mb);
    let q = ma / mb;
    let r = ma % mb;
    assert(ma == mb * q + r);
    if ia >= 0 && ib > 0 {
        assert(trem(ia, ib) == ia - ib * q);
    } else if ia < 0 && ib > 0 {
        assert(tdiv(ia, ib) == -q);
        assert(ib * -q == -(mb * q)) by (nonlinear_arith)
            requires
                ib == mb,
        {
        }
        assert(trem(ia, ib) == -ma + mb * q == -r);
    } else if ia >= 0 {
        assert(tdiv(ia, ib) == -q);
        assert(ib * -q == mb * q) by (nonlinear_arith)
            requires
                ib == -mb,
        {
        }
        assert(trem(ia, ib) == ma - mb * q == r);
    } else {
        assert(tdiv(ia, ib) == q);
        assert(ib * q == -(mb * q)) by (nonlinear_arith)
            requires
                ib == -mb,
        {
        }
        assert(trem(ia, ib) == -ma + mb * q == -r);
    }
}

/// A nonnegative quotient is bounded by its dividend, and halved by a
/// divisor of two or more.
proof fn lemma_div_bounds(x: int, d: int)
    requires
        0 <= x,
        1 <= d,
    ensures
        0 <= x / d <= x,
        d >= 2 ==> x / d <= x / 2,
        d == 1 ==> x / d == x,
{
    lemma_fundamental_div_mod(x, d);
    vstd::arithmetic::div_mod::lemma_div_is_ordered_by_denominator(x, 1, d);
    if d >= 2 {
        vstd::arithmetic::div_mod::lemma_div_is_ordered_by_denominator(x, 2, d);
    }
    vstd::arithmetic::div_mod::lemma_div_pos_is_pos(x, d);
    assert(x / 1 == x) by {
        lemma_fundamental_div_mod(x, 1);
        vstd::arithmetic::div_mod::lemma_mod_bound(x, 1);
    };
    vstd::arithmetic::div_mod::lemma_mod_bound(x, d);
}

/// The power `a^e` reduced modulo 2^32, by binary exponentiation.
pub fn pow_mod32(a: u32, e: u32) -> (r: u32)
    ensures
        r == pow(a as int, e as nat) % 0x1_0000_0000,
{
    let mut result: u32 = 1;
    let mut base: u32 = a;
    let mut exp: u32 = e;
    proof {
        lemma_pow0(a as int);
        lemma_small_mod(1nat, 0x1_0000_0000nat);
    }
    while exp > 0
        invariant
            (result * pow(base as int, exp as nat)) % 0x1_0000_0000 == pow(a as int, e as nat)
                % 0x1_0000_0000,
        decreases exp,
    {
        if exp % 2 == 1 {
            let ghost r0 = result as int;
            let ghost b0 = base as int;
            let ghost x0 = exp as nat;
            result = wmul(result, base);
            exp = exp - 1;
            proof {
                assert(pow(b0, x0) == b0 * pow(b0, (x0 - 1) as nat)) by {
                    lemma_pow1(b0);
                    lemma_pow_adds(b0, 1nat, (x0 - 1) as nat);
                };
                assert((r0 * (b0 * pow(b0, (x0 - 1) as nat))) == (r0 * b0) * pow(
                    b0,
                    (x0 - 1) as nat,
                )) by (nonlinear_arith);
                lemma_mul_mod_noop_general(r0 * b0, pow(b0, (x0 - 1) as nat), 0x1_0000_0000);
            }
        } else {
            let ghost r0 = result as int;
            let ghost b0 = base as int;
            let ghost x0 = exp as nat;
            base = wmul(base, base);
            exp = exp / 2;
            proof {
                assert(pow(b0, x0) == pow(b0 * b0, (x0 / 2) as nat)) by {
                    lemma_pow1(b0);
                    lemma_pow_adds(b0, 1nat, 1nat);
                    lemma_pow_multiplies(b0, 2nat, (x0 / 2) as nat);
                };
                lemma_pow_mod_noop(b0 * b0, (x0 / 2) as nat, 0x1_0000_0000);
                lemma_mul_mod_noop_general(r0, pow(b0 * b0, (x0 / 2) as nat), 0x1_0000_0000);
                lemma_mul_mod_noop_general(r0, pow((b0 * b0) % 0x1_0000_0000, (x0 / 2) as nat), 0x1_0000_0000);
            }
        }
    }
    proof {
        lemma_pow0(base as int);
        lemma_small_mod(result as nat, 0x1_0000_0000nat);
    }
    result
}

/// Unsigned checked exponentiation: `Some` exactly when `a^e` fits a word.
pub fn upow_checked(a: u32, e: u32) -> (r: Option<u32>)
    ensures
        r matches Some(v) ==> v == pow(a as int, e as nat) && pow(a as int, e as nat)
            <= 0xFFFF_FFFF,
        r is None ==> pow(a as int, e as nat) > 0xFFFF_FFFF,
{
    if e == 0 {
        proof {
            lemma_pow0(a as int);
        }
        return Some(1);
    }
    if a == 0 {
        proof {
            vstd::arithmetic::power::lemma0_pow(e as nat);
        }
        return Some(0);
    }
    if a == 1 {
        proof {
            vstd::arithmetic::power::lemma1_pow(e as nat);
        }
        return Some(1);
    }
    if e >= 32 {
        proof {
            lemma_pow_increases(a as nat, 32nat, e as nat);
            lemma_pow_increases_base(32nat, 2, a as int);
            assert(pow(2, 32) == 0x1_0000_0000) by {
                lemma_pow_positive(2, 32nat);
                vstd::arithmetic::power2::lemma2_to64();
            };
        }
        return None;
    }
    let mut acc: u64 = 1;
    let mut i: u32 = 0;
    proof {
        lemma_pow0(a as int);
    }
    while i < e
        invariant
            i <= e,
            a >= 2,
            e < 32,
            acc == pow(a as int, i as nat),
            acc <= 0xFFFF_FFFF,
        decreases e - i,
    {
        proof {
            lemma_pow1(a as int);
            lemma_pow_adds(a as int, i as nat, 1nat);
            assert(acc * a <= 0xFFFF_FFFF * 0xFFFF_FFFF) by (nonlinear_arith)
                requires
                    0 <= acc <= 0xFFFF_FFFF,
                    0 <= a <= 0xFFFF_FFFF,
            {
            }
        }
        let next: u64 = acc * (a as u64);
        if next > 0xFFFF_FFFF {
            proof {
                lemma_pow_positive(a as int, e as nat);
                lemma_pow_increases(a as nat, (i + 1) as nat, e as nat);
            }
            return None;
        }
        acc = next;
        i = i + 1;
    }
    Some(acc as u32)
}

/// Power is monotone in the base.
proof fn lemma_pow_increases_base(e: nat, b1: int, b2: int)
    requires
        1 <= b1 <= b2,
    ensures
        pow(b1, e) <= pow(b2, e),
    decreases e,
{
    if e == 0 {
        lemma_pow0(b1);
        lemma_pow0(b2);
    } else {
        lemma_pow_increases_base((e - 1) as nat, b1, b2);
        lemma_pow_positive(b1, (e - 1) as nat);
        lemma_pow_positive(b2, (e - 1) as nat);
        assert(pow(b1, e) == b1 * pow(b1, (e - 1) as nat)) by {
            lemma_pow1(b1);
            lemma_pow_adds(b1, 1nat, (e - 1) as nat);
        };
        assert(pow(b2, e) == b2 * pow(b2, (e - 1) as nat)) by {
            lemma_pow1(b2);
            lemma_pow_adds(b2, 1nat, (e - 1) as nat);
        };
        assert(b1 * pow(b1, (e - 1) as nat) <= b2 * pow(b2, (e - 1) as nat)) by (nonlinear_arith)
            requires
                0 <= b1 <= b2,
                0 <= pow(b1, (e - 1) as nat) <= pow(b2, (e - 1) as nat),
        {
        }
    }
}


/// Signed exponentiation on bit patterns: the wrapped power and whether the
/// mathematical power leaves the signed range.
pub fn spow_ovf(a: u32, e: u32) -> (r: (u32, bool))
    ensures
        r.0 == pow(a as int, e as nat) % 0x1_0000_0000,
        r.0 == pow(to_i32(a) as int, e as nat) % 0x1_0000_0000,
        r.1 == !(i32::MIN <= pow(to_i32(a) as int, e as nat) <= i32::MAX),
{
    let wrapped = pow_mod32(a, e);
    let ghost ia = to_i32(a) as int;
    let m = bits_mag(a);
    let neg = a > 0x7FFF_FFFF;
    let overflow: bool;
    if m <= 1 {
        proof {
            lemma_spow_small_base(ia, e as nat);
        }
        overflow = false;
    } else {
        // The magnitude of the power is the power of the magnitude; track
        // it exactly until it passes 2^31, after which every longer power
        // is out of range too.
        let mut mag: u64 = 1;
        let mut i: u32 = 0;
        let mut big = false;
        proof {
            lemma_pow0(m as int);
        }
        while i < e && !big
            invariant
                i <= e,
                2 <= m <= 0x8000_0000,
                !big ==> mag == pow(m as int, i as nat) && mag <= 0x8000_0000,
                big ==> pow(m as int, e as nat) > 0x8000_0000,
            decreases e - i,
        {
            proof {
                assert(mag * m <= 0x8000_0000 * 0x8000_0000) by (nonlinear_arith)
                    requires
                        0 <= mag <= 0x8000_0000,
                        0 <= m <= 0x8000_0000,
                {
                }
                lemma_pow1(m as int);
                lemma_pow_adds(m as int, i as nat, 1nat);
            }
            mag = mag * (m as u64);
            i = i + 1;
            if mag > 0x8000_0000 {
                proof {
                    lemma_pow_increases(m as nat, i as nat, e as nat);
                }
                big = true;
            }
        }
        proof {
            if neg {
                lemma_pow_neg(m as int, e as nat);
                assert(ia == -(m as int));
            }
            if !big {
                assert(i == e);
            }
        }
        if big {
            overflow = true;
        } else if neg && e % 2 == 1 {
            // The value is the negated magnitude, at least -2^31: in range.
            overflow = false;
        } else {
            // The value is the magnitude itself; only 2^31 exactly escapes.
            overflow = mag > 0x7FFF_FFFF;
        }
    }
    proof {
        lemma_pow_mod_noop(to_i32(a) as int, e as nat, 0x1_0000_0000);
        assert((to_i32(a) as int) % 0x1_0000_0000 == a as int % 0x1_0000_0000) by {
            if a > 0x7FFF_FFFF {
                lemma_fundamental_div_mod_converse(
                    (to_i32(a) as int),
                    0x1_0000_0000,
                    -1,
                    a as int,
                );
            }
            lemma_small_mod(a as nat, 0x1_0000_0000nat);
        };
        lemma_pow_mod_noop(a as int, e as nat, 0x1_0000_0000);
    }
    (wrapped, overflow)
}

/// Powers of 0, 1 and -1 stay inside the signed range.
proof fn lemma_spow_small_base(b: int, e: nat)
    requires
        -1 <= b <= 1,
    ensures
        -1 <= pow(b, e) <= 1,
    decreases e,
{
    if e == 0 {
        lemma_pow0(b);
    } else {
        lemma_spow_small_base(b, (e - 1) as nat);
        assert(pow(b, e) == b * pow(b, (e - 1) as nat)) by {
            lemma_pow1(b);
            lemma_pow_adds(b, 1nat, (e - 1) as nat);
        };
        assert(-1 <= b * pow(b, (e - 1) as nat) <= 1) by (nonlinear_arith)
            requires
                -1 <= b <= 1,
                -1 <= pow(b, (e - 1) as nat) <= 1,
        {
        }
    }
}

/// The power of a negated base: the magnitude is unchanged and the sign
/// follows the parity of the exponent.
proof fn lemma_pow_neg(b: int, e: nat)
    ensures
        pow(-b, e) == if e % 2 == 0 {
            pow(b, e)
        } else {
            -pow(b, e)
        },
    decreases e,
{
    if e == 0 {
        lemma_pow0(b);
        lemma_pow0(-b);
    } else {
        lemma_pow_neg(b, (e - 1) as nat);
        assert(pow(b, e) == b * pow(b, (e - 1) as nat)) by {
            lemma_pow1(b);
            lemma_pow_adds(b, 1nat, (e - 1) as nat);
        };
        assert(pow(-b, e) == (-b) * pow(-b, (e - 1) as nat)) by {
            lemma_pow1(-b);
            lemma_pow_adds(-b, 1nat, (e - 1) as nat);
        };
        let p = pow(b, (e - 1) as nat);
        assert((-b) * p == -(b * p) && (-b) * (-p) == b * p) by (nonlinear_arith);
    }
}

} // verus!
