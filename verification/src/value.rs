//! Decimal floating-point values.
//!
//! A `Value` is sign * mant * 10^(exp - 14), where a nonzero mantissa is
//! normalized to 15 decimal digits (10^14 <= mant < 10^15) and `exp` is the
//! decimal exponent of the leading digit. Zero is the unique value with
//! `mant == 0`. The exponent is bounded by `EXP_MAX`; results that would
//! exceed it are reported as overflow (`None`) by the arithmetic operations,
//! and results below `-EXP_MAX` flush to zero.
//!
//! Addition works in a 17-digit window aligned to the larger operand: digits
//! of the smaller operand below the window are truncated before the exact
//! sum is taken and rounded back to 15 digits. Multiplication and division
//! are exact before the final rounding step. Rounding is round-half-up on
//! the magnitude.

use vstd::prelude::*;

verus! {

/// 10^14, the smallest normalized nonzero mantissa.
pub const MANT_MIN: u64 = 100_000_000_000_000;

/// 10^15, the exclusive upper bound on a mantissa.
pub const MANT_LIMIT: u64 = 1_000_000_000_000_000;

/// Largest decimal exponent (of the leading digit) a value may carry.
pub const EXP_MAX: i32 = 307;

/// A decimal floating-point number: sign * mant * 10^(exp - 14).
#[derive(Clone, Copy, Debug, PartialEq, Eq, Structural)]
pub struct Value {
    /// True for negative values; always false for zero.
    pub neg: bool,
    /// Decimal mantissa: zero, or normalized to 15 digits.
    pub mant: u64,
    /// Decimal exponent of the leading mantissa digit.
    pub exp: i32,
}

/// 10^n as a mathematical integer.
pub open spec fn pow10(n: nat) -> int
    decreases n,
{
    if n == 0 {
        1
    } else {
        10 * pow10((n - 1) as nat)
    }
}

/// Number of decimal digits of `m` (zero has none).
pub open spec fn ndigits(m: nat) -> nat
    decreases m,
{
    if m == 0 {
        0
    } else {
        1 + ndigits(m / 10)
    }
}

/// Round a positive magnitude to 15 significant decimal digits, half up.
/// Returns the 15-digit mantissa and the power of ten it was scaled by, so
/// that `mag == mant * 10^shift` up to the rounding error.
pub open spec fn spec_round15(mag: nat) -> (nat, int) {
    let d = ndigits(mag) as int;
    if d <= 15 {
        ((mag * pow10((15 - d) as nat)) as nat, d - 15)
    } else {
        let p = pow10((d - 15) as nat);
        let q = mag as int / p;
        let r = mag as int % p;
        let m = if 2 * r >= p {
            q + 1
        } else {
            q
        };
        if m == pow10(15) {
            (pow10(14) as nat, d - 14)
        } else {
            (m as nat, d - 15)
        }
    }
}

/// The normalized value of magnitude `mag * 10^unit` with the given sign:
/// rounded to 15 significant digits, `None` on exponent overflow, flushed
/// to zero on exponent underflow.
pub open spec fn spec_make(neg: bool, mag: nat, unit: int) -> Option<Value> {
    if mag == 0 {
        Some(Value { neg: false, mant: 0, exp: 0 })
    } else {
        let (m, sh) = spec_round15(mag);
        let e = sh + unit + 14;
        if e > EXP_MAX {
            None
        } else if e < -EXP_MAX {
            Some(Value { neg: false, mant: 0, exp: 0 })
        } else {
            Some(Value { neg, mant: m as u64, exp: e as i32 })
        }
    }
}

/// `mant * 10^from_unit` re-expressed in units of `10^to_unit`, truncating
/// any digits below `to_unit`.
pub open spec fn spec_trunc(mant: nat, from_unit: int, to_unit: int) -> nat {
    if from_unit >= to_unit {
        (mant * pow10((from_unit - to_unit) as nat)) as nat
    } else {
        mant / (pow10((to_unit - from_unit) as nat) as nat)
    }
}

/// The negation of a value.
pub open spec fn spec_negate(a: Value) -> Value {
    if a.mant == 0 {
        a
    } else {
        Value { neg: !a.neg, mant: a.mant, exp: a.exp }
    }
}

/// Sum of two values: both operands are truncated to a 17-digit window
/// aligned to the larger one, summed exactly, and rounded to 15 digits.
pub open spec fn spec_add(a: Value, b: Value) -> Option<Value> {
    if a.mant == 0 {
        Some(b)
    } else if b.mant == 0 {
        Some(a)
    } else {
        let ea = a.exp - 14;
        let eb = b.exp - 14;
        let w = (if ea >= eb {
            ea
        } else {
            eb
        }) - 16;
        let ta = spec_trunc(a.mant as nat, ea, w) as int;
        let tb = spec_trunc(b.mant as nat, eb, w) as int;
        let s = (if a.neg {
            -ta
        } else {
            ta
        }) + (if b.neg {
            -tb
        } else {
            tb
        });
        spec_make(s < 0, (if s < 0 { -s } else { s }) as nat, w)
    }
}

/// Difference of two values.
pub open spec fn spec_sub(a: Value, b: Value) -> Option<Value> {
    spec_add(a, spec_negate(b))
}

/// Product of two values: exact product of the mantissas, rounded.
pub open spec fn spec_mul(a: Value, b: Value) -> Option<Value> {
    spec_make(a.neg != b.neg, (a.mant * b.mant) as nat, (a.exp - 14) + (b.exp - 14))
}

/// Quotient of two values (divisor nonzero): the mantissa quotient is taken
/// to 16 extra digits with a final half-up rounding of the remainder.
pub open spec fn spec_div(a: Value, b: Value) -> Option<Value> {
    let n = a.mant * pow10(16);
    let q = n / (b.mant as int);
    let r = n % (b.mant as int);
    let mag = if 2 * r >= b.mant {
        q + 1
    } else {
        q
    };
    spec_make(a.neg != b.neg, mag as nat, a.exp - b.exp - 16)
}

pub proof fn lemma_pow10_pos(n: nat)
    ensures
        pow10(n) >= 1,
    decreases n,
{
    if n > 0 {
        lemma_pow10_pos((n - 1) as nat);
    }
}

pub proof fn lemma_pow10_mono(a: nat, b: nat)
    requires
        a <= b,
    ensures
        pow10(a) <= pow10(b),
    decreases b,
{
    if a < b {
        lemma_pow10_mono(a, (b - 1) as nat);
        lemma_pow10_pos((b - 1) as nat);
    }
}

pub proof fn lemma_pow10_adds(a: nat, b: nat)
    ensures
        pow10(a + b) == pow10(a) * pow10(b),
    decreases a,
{
    if a > 0 {
        lemma_pow10_adds((a - 1) as nat, b);
        assert(10 * (pow10((a - 1) as nat) * pow10(b)) == (10 * pow10((a - 1) as nat)) * pow10(
        b)) by (nonlinear_arith);
    }
}

/// Concrete powers of ten that the executable code needs bounds for.
pub proof fn lemma_pow10_val()
    ensures
        pow10(14) == MANT_MIN,
        pow10(15) == MANT_LIMIT,
        pow10(16) == 10_000_000_000_000_000,
        pow10(17) == 100_000_000_000_000_000,
        pow10(32) == 100_000_000_000_000_000_000_000_000_000_000,
        pow10(38) == 100_000_000_000_000_000_000_000_000_000_000_000_000,
{
    reveal_with_fuel(pow10, 40);
}

/// A positive number lies between the powers of ten its digit count names.
pub proof fn lemma_ndigits_bounds(m: nat)
    requires
        m > 0,
    ensures
        ndigits(m) >= 1,
        pow10((ndigits(m) - 1) as nat) <= m < pow10(ndigits(m)),
    decreases m,
{
    if m < 10 {
        assert(ndigits(m) == 1 + ndigits(m / 10));
        assert(m / 10 == 0);
    } else {
        lemma_ndigits_bounds(m / 10);
        let d = ndigits(m / 10);
        assert(pow10((d - 1) as nat) <= m / 10 < pow10(d));
        assert(m >= 10 * (m / 10) >= 10 * pow10((d - 1) as nat));
        assert(pow10(d) == 10 * pow10((d - 1) as nat));
        assert(m <= 10 * (m / 10) + 9);
        assert(m / 10 + 1 <= pow10(d));
        assert(10 * (m / 10) + 10 <= 10 * pow10(d));
        assert(pow10(d + 1) == 10 * pow10(d));
    }
}

/// Digit counts are monotone in the bounding power of ten.
pub proof fn lemma_ndigits_le(m: nat, k: nat)
    requires
        m < pow10(k),
    ensures
        ndigits(m) <= k,
{
    if m > 0 {
        lemma_ndigits_bounds(m);
        if ndigits(m) > k {
            lemma_pow10_mono(k, (ndigits(m) - 1) as nat);
        }
    }
}

/// 10^n for n <= 38, as a u128.
pub fn pow10_u128(n: u32) -> (r: u128)
    requires
        n <= 38,
    ensures
        r == pow10(n as nat),
{
    proof {
        lemma_pow10_val();
    }
    let mut r: u128 = 1;
    let mut i: u32 = 0;
    while i < n
        invariant
            i <= n <= 38,
            r == pow10(i as nat),
        decreases n - i,
    {
        proof {
            lemma_pow10_mono(i as nat, 37);
            lemma_pow10_val();
        }
        r = r * 10;
        i = i + 1;
    }
    r
}

/// Number of decimal digits of a positive magnitude.
fn count_digits(mag: u128) -> (d: u32)
    requires
        mag > 0,
    ensures
        d == ndigits(mag as nat),
        1 <= d <= 39,
{
    proof {
        lemma_pow10_val();
        assert(pow10(39) == 10 * pow10(38));
        lemma_ndigits_le(mag as nat, 39);
    }
    let mut d: u32 = 0;
    let mut m: u128 = mag;
    while m > 0
        invariant
            ndigits(mag as nat) == d + ndigits(m as nat),
            ndigits(mag as nat) <= 39,
        decreases m,
    {
        m = m / 10;
        d = d + 1;
    }
    proof {
        lemma_ndigits_bounds(mag as nat);
    }
    d
}

impl Value {
    /// Well-formedness: the normalization invariant described on the type.
    pub open spec fn wf(self) -> bool {
        &&& (self.mant == 0 ==> !self.neg && self.exp == 0)
        &&& (self.mant != 0 ==> MANT_MIN <= self.mant < MANT_LIMIT)
        &&& -EXP_MAX <= self.exp <= EXP_MAX
    }

    /// Whether this value is zero.
    pub open spec fn spec_is_zero(self) -> bool {
        self.mant == 0
    }

    /// The zero value.
    pub fn zero() -> (r: Value)
        ensures
            r == (Value { neg: false, mant: 0, exp: 0 }),
            r.wf(),
    {
        Value { neg: false, mant: 0, exp: 0 }
    }

    /// Whether this value is zero.
    pub fn is_zero(&self) -> (r: bool)
        ensures
            r == self.spec_is_zero(),
    {
        self.mant == 0
    }

    /// Whether this value satisfies the normalization invariant; a value
    /// handed in from outside is validated with this before use.
    pub fn check_wf(&self) -> (r: bool)
        ensures
            r == self.wf(),
    {
        if self.mant == 0 {
            !self.neg && self.exp == 0
        } else {
            MANT_MIN <= self.mant && self.mant < MANT_LIMIT && -EXP_MAX <= self.exp && self.exp
                <= EXP_MAX
        }
    }

    /// The negation: same magnitude, opposite sign; zero stays zero.
    pub fn negate(&self) -> (r: Value)
        requires
            self.wf(),
        ensures
            r == spec_negate(*self),
            r.wf(),
    {
        if self.mant == 0 {
            *self
        } else {
            Value { neg: !self.neg, mant: self.mant, exp: self.exp }
        }
    }
}

/// Build the normalized value of magnitude `mag * 10^unit` with the given
/// sign: `None` on exponent overflow, zero on underflow.
pub fn make(neg: bool, mag: u128, unit: i64) -> (r: Option<Value>)
    requires
        mag < pow10(32),
        -700 <= unit <= 700,
    ensures
        r == spec_make(neg, mag as nat, unit as int),
        r is Some ==> r.unwrap().wf(),
{
    proof {
        lemma_pow10_val();
    }
    if mag == 0 {
        return Some(Value { neg: false, mant: 0, exp: 0 });
    }
    let d = count_digits(mag);
    proof {
        lemma_ndigits_le(mag as nat, 32);
        lemma_ndigits_bounds(mag as nat);
    }
    let (m, sh): (u64, i64) = if d <= 15 {
        let p = pow10_u128(15 - d);
        proof {
            lemma_pow10_adds((d - 1) as nat, (15 - d) as nat);
            lemma_pow10_adds(d as nat, (15 - d) as nat);
            lemma_pow10_pos((15 - d) as nat);
            assert(mag * p >= pow10((d - 1) as nat) * p) by (nonlinear_arith)
                requires
                    mag >= pow10((d - 1) as nat),
                    p >= 0,
            ;
            assert(mag * p < pow10(d as nat) * p) by (nonlinear_arith)
                requires
                    mag < pow10(d as nat),
                    p > 0,
            ;
        }
        ((mag * p) as u64, d as i64 - 15)
    } else {
        let p = pow10_u128(d - 15);
        proof {
            lemma_pow10_mono((d - 15) as nat, 17nat);
            lemma_pow10_adds((d - 15) as nat, 14nat);
            lemma_pow10_adds((d - 15) as nat, 15nat);
            assert(pow10((d - 15) as nat) * pow10(14) == pow10((d - 1) as nat)) by {
                lemma_pow10_adds((d - 15) as nat, 14nat);
                assert((d - 15) + 14 == d - 1);
            }
        }
        let q = mag / p;
        let rem = mag % p;
        proof {
            assert(q >= MANT_MIN) by {
                assert(mag >= pow10((d - 1) as nat));
                assert(pow10((d - 1) as nat) == pow10((d - 15) as nat) * MANT_MIN);
                assert(mag as int / (p as int) >= (pow10((d - 15) as nat) * MANT_MIN) / (
                p as int)) by {
                    vstd::arithmetic::div_mod::lemma_div_is_ordered(
                        pow10((d - 15) as nat) * MANT_MIN,
                        mag as int,
                        p as int,
                    );
                }
                vstd::arithmetic::div_mod::lemma_div_multiples_vanish(
                    MANT_MIN as int,
                    p as int,
                );
            }
            assert(q < MANT_LIMIT) by {
                assert(mag < pow10(d as nat));
                assert(pow10(d as nat) == p * MANT_LIMIT) by {
                    lemma_pow10_adds((d - 15) as nat, 15nat);
                }
                vstd::arithmetic::div_mod::lemma_multiply_divide_lt(
                    mag as int,
                    p as int,
                    MANT_LIMIT as int,
                );
            }
        }
        let m0 = if 2 * rem >= p {
            q + 1
        } else {
            q
        };
        if m0 == MANT_LIMIT as u128 {
            (MANT_MIN, d as i64 - 14)
        } else {
            (m0 as u64, d as i64 - 15)
        }
    };
    let e = sh + unit + 14;
    if e > EXP_MAX as i64 {
        None
    } else if e < -(EXP_MAX as i64) {
        Some(Value { neg: false, mant: 0, exp: 0 })
    } else {
        Some(Value { neg, mant: m, exp: e as i32 })
    }
}

/// A positive magnitude with a large exponent always overflows.
pub proof fn lemma_make_overflow(neg: bool, mag: nat, unit: int)
    requires
        mag > 0,
        unit > 400,
    ensures
        spec_make(neg, mag, unit) is None,
{
    lemma_ndigits_bounds(mag);
}

/// Re-express a normalized mantissa at unit `from_unit` in units of
/// `to_unit`, truncating digits below the target unit.
fn trunc_to(mant: u64, from_unit: i64, to_unit: i64) -> (r: u128)
    requires
        MANT_MIN <= mant < MANT_LIMIT,
        from_unit - to_unit <= 16,
        -400 <= from_unit <= 400,
        -400 <= to_unit <= 400,
    ensures
        r == spec_trunc(mant as nat, from_unit as int, to_unit as int),
        r < pow10(31),
{
    proof {
        lemma_pow10_val();
        assert(pow10(31) == pow10(15) * pow10(16)) by {
            lemma_pow10_adds(15nat, 16nat);
        }
    }
    if from_unit >= to_unit {
        let k = (from_unit - to_unit) as u32;
        let p = pow10_u128(k);
        proof {
            lemma_pow10_mono(k as nat, 16nat);
            lemma_pow10_pos(k as nat);
            assert((mant as u128) * p < pow10(15) * pow10(16)) by (nonlinear_arith)
                requires
                    (mant as u128) < pow10(15),
                    0 < p <= pow10(16),
                    pow10(15) > 0,
            ;
        }
        (mant as u128) * p
    } else if to_unit - from_unit >= 15 {
        proof {
            let k = (to_unit - from_unit) as nat;
            lemma_pow10_mono(15nat, k);
            vstd::arithmetic::div_mod::lemma_basic_div(mant as int, pow10(k));
            lemma_pow10_pos(31nat);
        }
        0
    } else {
        let p = pow10_u128((to_unit - from_unit) as u32);
        proof {
            lemma_pow10_pos((to_unit - from_unit) as nat);
            assert((mant as u128) / p <= mant as u128) by {
                vstd::arithmetic::div_mod::lemma_div_nonincreasing(mant as int, p as int);
            }
        }
        (mant as u128) / p
    }
}

/// Sum of two values, `None` on overflow.
pub fn add_val(a: &Value, b: &Value) -> (r: Option<Value>)
    requires
        a.wf(),
        b.wf(),
    ensures
        r == spec_add(*a, *b),
        r is Some ==> r.unwrap().wf(),
{
    if a.mant == 0 {
        return Some(*b);
    }
    if b.mant == 0 {
        return Some(*a);
    }
    let ea: i64 = a.exp as i64 - 14;
    let eb: i64 = b.exp as i64 - 14;
    let w: i64 = (if ea >= eb {
        ea
    } else {
        eb
    }) - 16;
    let ta = trunc_to(a.mant, ea, w);
    let tb = trunc_to(b.mant, eb, w);
    proof {
        lemma_pow10_val();
    }
    let (neg, mag): (bool, u128) = if a.neg == b.neg {
        (a.neg, ta + tb)
    } else if ta >= tb {
        (a.neg, ta - tb)
    } else {
        (b.neg, tb - ta)
    };
    make(neg, mag, w)
}

/// Difference of two values, `None` on overflow.
pub fn sub_val(a: &Value, b: &Value) -> (r: Option<Value>)
    requires
        a.wf(),
        b.wf(),
    ensures
        r == spec_sub(*a, *b),
        r is Some ==> r.unwrap().wf(),
{
    let nb = b.negate();
    add_val(a, &nb)
}

/// Product of two values, `None` on overflow.
pub fn mul_val(a: &Value, b: &Value) -> (r: Option<Value>)
    requires
        a.wf(),
        b.wf(),
    ensures
        r == spec_mul(*a, *b),
        r is Some ==> r.unwrap().wf(),
{
    proof {
        lemma_pow10_val();
        assert(pow10(30) == pow10(15) * pow10(15)) by {
            lemma_pow10_adds(15nat, 15nat);
        }
        lemma_pow10_mono(30nat, 32nat);
        assert((a.mant as u128) * (b.mant as u128) < pow10(15) * pow10(15)) by (nonlinear_arith)
            requires
                (a.mant as u128) < pow10(15),
                (b.mant as u128) < pow10(15),
                pow10(15) > 0,
        ;
    }
    let mag = (a.mant as u128) * (b.mant as u128);
    let unit = (a.exp as i64 - 14) + (b.exp as i64 - 14);
    make(a.neg != b.neg, mag, unit)
}

/// Quotient of two values; the divisor must be nonzero.
pub fn div_val(a: &Value, b: &Value) -> (r: Option<Value>)
    requires
        a.wf(),
        b.wf(),
        !b.spec_is_zero(),
    ensures
        r == spec_div(*a, *b),
        r is Some ==> r.unwrap().wf(),
{
    proof {
        lemma_pow10_val();
        assert(pow10(31) == pow10(15) * pow10(16)) by {
            lemma_pow10_adds(15nat, 16nat);
        }
    }
    let p16 = pow10_u128(16);
    proof {
        assert((a.mant as u128) * p16 < pow10(15) * pow10(16)) by (nonlinear_arith)
            requires
                (a.mant as u128) < pow10(15),
                p16 == pow10(16),
                pow10(15) > 0,
                pow10(16) > 0,
        ;
    }
    let n = (a.mant as u128) * p16;
    let q = n / (b.mant as u128);
    let rem = n % (b.mant as u128);
    proof {
        assert(q <= n) by {
            vstd::arithmetic::div_mod::lemma_div_nonincreasing(n as int, b.mant as int);
        }
        vstd::arithmetic::div_mod::lemma_div_pos_is_pos(n as int, b.mant as int);
    }
    let mag = if 2 * rem >= b.mant as u128 {
        q + 1
    } else {
        q
    };
    let unit = a.exp as i64 - b.exp as i64 - 16;
    make(a.neg != b.neg, mag, unit)
}

impl Value {
    /// The value of a small nonnegative integer.
    pub fn from_int(n: u64) -> (r: Value)
        requires
            n < MANT_LIMIT,
        ensures
            r == spec_make(false, n as nat, 0).unwrap(),
            r.wf(),
    {
        proof {
            lemma_pow10_val();
            lemma_pow10_mono(15nat, 32nat);
            if n > 0 {
                lemma_ndigits_le(n as nat, 15);
                lemma_ndigits_bounds(n as nat);
            }
        }
        match make(false, n as u128, 0) {
            Some(v) => v,
            None => Value { neg: false, mant: 0, exp: 0 },
        }
    }

    /// The value sign * m * 10^exp10, rounded to 15 significant digits;
    /// `None` on exponent overflow.
    pub fn from_parts(neg: bool, m: u64, exp10: i64) -> (r: Option<Value>)
        requires
            -400 <= exp10 <= 400,
        ensures
            r == spec_make(neg, m as nat, exp10 as int),
            r is Some ==> r.unwrap().wf(),
    {
        proof {
            lemma_pow10_val();
            assert(pow10(20) == pow10(15) * pow10(5)) by {
                lemma_pow10_adds(15nat, 5nat);
            }
            lemma_pow10_mono(20nat, 32nat);
        }
        make(neg, m as u128, exp10)
    }
}

} // verus!
