//! An exact fixed-point carrier for the [`crate::fluid::Value`] contract.
//!
//! Values are stored in millionths, so every arithmetic result is exact to
//! one millionth and every contract about it can be checked to the last
//! unit.  Addition and subtraction wrap around the 64-bit raw range;
//! multiplication and division truncate toward zero and saturate at the
//! range ends; division by zero yields zero.  The transcendental
//! primitives are low-order truncated series, which keeps them total and
//! exactly specified; their derivative pairs are what the chain-rule
//! machinery consumes.

use vstd::arithmetic::div_mod::{
    lemma_div_multiples_vanish,
    lemma_div_nonincreasing,
    lemma_div_pos_is_pos,
};
use vstd::arithmetic::mul::lemma_mul_nonnegative;
use vstd::prelude::*;
use vstd::wrapping::i64_specs;

use crate::fluid::{Grad, Value};

verus! {

/// Raw units in one: the carrier stores millionths.
pub const SCALE: i64 = 1_000_000;

/// An exact fixed-point number holding `raw` millionths.
#[derive(Clone, Copy, Debug, PartialEq, Eq, Structural, Hash)]
pub struct Fixed {
    /// The value in millionths.
    pub raw: i64,
}

/// Magnitude of an integer.
pub open spec fn abs_i(x: int) -> int {
    if x < 0 {
        -x
    } else {
        x
    }
}

/// Division rounding toward zero, the rounding of the executable
/// fixed-point operations.
pub open spec fn div_trunc(x: int, d: int) -> int {
    if (x >= 0) == (d >= 0) {
        abs_i(x) / abs_i(d)
    } else {
        -(abs_i(x) / abs_i(d))
    }
}

/// Clamping of a wide intermediate result into the raw 64-bit range.
pub open spec fn sat64(x: int) -> i64 {
    if x > i64::MAX {
        i64::MAX
    } else if x < i64::MIN {
        i64::MIN
    } else {
        x as i64
    }
}

impl Fixed {
    /// Build a value from a raw count of millionths.
    pub fn from_millionths(raw: i64) -> (r: Self)
        ensures
            r.raw == raw,
    {
        Fixed { raw }
    }

    /// The raw count of millionths.
    pub fn millionths(self) -> (r: i64)
        ensures
            r == self.raw,
    {
        self.raw
    }

    /// Whether a power exponent stands for a whole number.
    pub open spec fn is_whole(p: Self) -> bool {
        p.raw != i64::MIN && abs_i(p.raw as int) % (SCALE as int) == 0
    }

    /// The magnitude of a whole power exponent.
    pub open spec fn whole_mag(p: Self) -> int {
        abs_i(p.raw as int) / (SCALE as int)
    }

    /// Repeated multiplication: `x` to the power `n`.
    pub open spec fn pow_nat_spec(x: Self, n: nat) -> Self
        decreases n,
    {
        if n == 0 {
            Fixed { raw: SCALE }
        } else {
            Self::pow_nat_spec(x, (n - 1) as nat).mul_spec(x)
        }
    }
}

/// Narrow a wide intermediate result into the raw range, clamping at the
/// ends.
fn sat_narrow(q: i128) -> (r: i64)
    ensures
        r == sat64(q as int),
{
    if q > i64::MAX as i128 {
        i64::MAX
    } else if q < i64::MIN as i128 {
        i64::MIN
    } else {
        q as i64
    }
}

/// The saturated, truncated quotient `(a * b) / d` of raw values, the one
/// primitive behind fixed-point multiplication and division.
fn mul_then_div(a: i64, b: i64, d: i64) -> (r: i64)
    requires
        d != 0,
    ensures
        r == sat64(div_trunc(a as int * b as int, d as int)),
{
    proof {
        assert((a as int) * (b as int) <= 85070591730234615865843651857942052864
            && (a as int) * (b as int) >= -85070591730234615865843651857942052864)
            by (nonlinear_arith)
            requires
                -9223372036854775808 <= a as int <= 9223372036854775807,
                -9223372036854775808 <= b as int <= 9223372036854775807,
        ;
    }
    let p: i128 = (a as i128) * (b as i128);
    let qo: Option<i128> = p.checked_div(d as i128);
    proof {
        lemma_checked_div_is_div_trunc(p as int, d as int);
    }
    let q: i128 = match qo {
        Some(v) => v,
        None => 0,
    };
    sat_narrow(q)
}

/// The truncated quotient formula used by the checked division of the
/// standard library agrees with [`div_trunc`], and its result stays within
/// the magnitude of the dividend.
proof fn lemma_checked_div_is_div_trunc(x: int, d: int)
    requires
        d != 0,
    ensures
        abs_i(div_trunc(x, d)) <= abs_i(x),
        div_trunc(x, d) == if x == 0 {
            0
        } else if x > 0 && d > 0 {
            x / d
        } else if x < 0 && d < 0 {
            (x * -1) / (d * -1)
        } else if x < 0 {
            ((x * -1) / d) * -1
        } else {
            (x / (d * -1)) * -1
        },
{
    lemma_div_pos_is_pos(abs_i(x), abs_i(d));
    lemma_div_nonincreasing(abs_i(x), abs_i(d));
}

impl Value for Fixed {
    open spec fn zero_spec() -> Self {
        Fixed { raw: 0 }
    }

    open spec fn one_spec() -> Self {
        Fixed { raw: SCALE }
    }

    open spec fn add_spec(self, rhs: Self) -> Self {
        Fixed { raw: i64_specs::wrapping_add(self.raw, rhs.raw) }
    }

    open spec fn sub_spec(self, rhs: Self) -> Self {
        Fixed { raw: i64_specs::wrapping_sub(self.raw, rhs.raw) }
    }

    open spec fn mul_spec(self, rhs: Self) -> Self {
        Fixed { raw: sat64(div_trunc(self.raw as int * rhs.raw as int, SCALE as int)) }
    }

    open spec fn div_spec(self, rhs: Self) -> Self {
        if rhs.raw == 0 {
            Fixed { raw: 0 }
        } else {
            Fixed { raw: sat64(div_trunc(self.raw as int * SCALE as int, rhs.raw as int)) }
        }
    }

    open spec fn neg_spec(self) -> Self {
        Fixed { raw: i64_specs::wrapping_sub(0i64, self.raw) }
    }

    open spec fn abs_spec(self) -> Self {
        if self.raw < 0 {
            self.neg_spec()
        } else {
            self
        }
    }

    open spec fn signum_spec(self) -> Self {
        if self.raw > 0 {
            Fixed { raw: SCALE }
        } else if self.raw < 0 {
            Fixed { raw: SCALE }.neg_spec()
        } else {
            Fixed { raw: 0 }
        }
    }

    open spec fn powf_spec(self, p: Self) -> Self {
        if Self::is_whole(p) {
            if p.raw >= 0 {
                Self::pow_nat_spec(self, Self::whole_mag(p) as nat)
            } else {
                Self::one_spec().div_spec(Self::pow_nat_spec(self, Self::whole_mag(p) as nat))
            }
        } else {
            p.mul_spec(self.ln_spec()).exp_spec()
        }
    }

    open spec fn exp_spec(self) -> Self {
        self.mul_spec(self).mul_spec(self).div_spec(Self::from_int_spec(6)).add_spec(
            self.mul_spec(self).div_spec(Self::from_int_spec(2)),
        ).add_spec(self).add_spec(Self::one_spec())
    }

    open spec fn ln_spec(self) -> Self {
        let t = self.sub_spec(Self::one_spec());
        t.sub_spec(t.mul_spec(t).div_spec(Self::from_int_spec(2))).add_spec(
            t.mul_spec(t).mul_spec(t).div_spec(Self::from_int_spec(3)),
        )
    }

    open spec fn sin_spec(self) -> Self {
        self.sub_spec(self.mul_spec(self).mul_spec(self).div_spec(Self::from_int_spec(6)))
    }

    open spec fn cos_spec(self) -> Self {
        Self::one_spec().sub_spec(self.mul_spec(self).div_spec(Self::from_int_spec(2)))
    }

    open spec fn lt_spec(self, rhs: Self) -> bool {
        self.raw < rhs.raw
    }

    open spec fn from_int_spec(n: i64) -> Self {
        Fixed { raw: sat64(n as int * SCALE as int) }
    }

    fn zero() -> (r: Self) {
        Fixed { raw: 0 }
    }

    fn one() -> (r: Self) {
        Fixed { raw: SCALE }
    }

    fn add(self, rhs: Self) -> (r: Self) {
        Fixed { raw: self.raw.wrapping_add(rhs.raw) }
    }

    fn sub(self, rhs: Self) -> (r: Self) {
        Fixed { raw: self.raw.wrapping_sub(rhs.raw) }
    }

    fn mul(self, rhs: Self) -> (r: Self) {
        Fixed { raw: mul_then_div(self.raw, rhs.raw, SCALE) }
    }

    fn div(self, rhs: Self) -> (r: Self) {
        if rhs.raw == 0 {
            Fixed { raw: 0 }
        } else {
            Fixed { raw: mul_then_div(self.raw, SCALE, rhs.raw) }
        }
    }

    fn neg(self) -> (r: Self) {
        Fixed { raw: 0i64.wrapping_sub(self.raw) }
    }

    fn abs(self) -> (r: Self) {
        if self.raw < 0 {
            Value::neg(self)
        } else {
            self
        }
    }

    fn signum(self) -> (r: Self) {
        if self.raw > 0 {
            Fixed { raw: SCALE }
        } else if self.raw < 0 {
            Value::neg(<Self as Value>::one())
        } else {
            Fixed { raw: 0 }
        }
    }

    fn powf(self, p: Self) -> (r: Self) {
        if p.raw == i64::MIN {
            // not a whole exponent: general power through exp and ln
            return Value::exp(Value::mul(p, Value::ln(self)));
        }
        let pm: i64 = if p.raw < 0 {
            -p.raw
        } else {
            p.raw
        };
        let pmu: u64 = pm as u64;
        if pmu % 1_000_000u64 == 0 {
            let n: u64 = pmu / 1_000_000u64;
            let mut acc: Fixed = <Self as Value>::one();
            let mut i: u64 = 0;
            while i < n
                invariant
                    i <= n,
                    acc == Fixed::pow_nat_spec(self, i as nat),
                decreases n - i,
            {
                acc = Value::mul(acc, self);
                i = i + 1;
            }
            if p.raw < 0 {
                Value::div(<Self as Value>::one(), acc)
            } else {
                acc
            }
        } else {
            Value::exp(Value::mul(p, Value::ln(self)))
        }
    }

    fn exp(self) -> (r: Self) {
        let x2: Fixed = Value::mul(self, self);
        let x3: Fixed = Value::mul(x2, self);
        Value::add(
            Value::add(
                Value::add(
                    Value::div(x3, <Self as Value>::from_int(6)),
                    Value::div(x2, <Self as Value>::from_int(2)),
                ),
                self,
            ),
            <Self as Value>::one(),
        )
    }

    fn ln(self) -> (r: Self) {
        let t: Fixed = Value::sub(self, <Self as Value>::one());
        let t2: Fixed = Value::mul(t, t);
        let t3: Fixed = Value::mul(t2, t);
        Value::add(
            Value::sub(t, Value::div(t2, <Self as Value>::from_int(2))),
            Value::div(t3, <Self as Value>::from_int(3)),
        )
    }

    fn sin_cos(self) -> (r: (Self, Self)) {
        let x2: Fixed = Value::mul(self, self);
        let x3: Fixed = Value::mul(x2, self);
        let s: Fixed = Value::sub(self, Value::div(x3, <Self as Value>::from_int(6)));
        let c: Fixed = Value::sub(
            <Self as Value>::one(),
            Value::div(x2, <Self as Value>::from_int(2)),
        );
        (s, c)
    }

    fn eq_val(self, rhs: Self) -> (b: bool) {
        self.raw == rhs.raw
    }

    fn lt(self, rhs: Self) -> (b: bool) {
        self.raw < rhs.raw
    }

    fn from_int(n: i64) -> (r: Self) {
        proof {
            assert((n as int) * (SCALE as int) <= 85070591730234615865843651857942052864
                && (n as int) * (SCALE as int) >= -85070591730234615865843651857942052864)
                by (nonlinear_arith)
                requires
                    -9223372036854775808 <= n as int <= 9223372036854775807,
            ;
        }
        let p: i128 = (n as i128) * (SCALE as i128);
        Fixed { raw: sat_narrow(p) }
    }

    proof fn lemma_add_commutes(a: Self, b: Self) {
    }

    proof fn lemma_add_associates(a: Self, b: Self, c: Self) {
    }

    proof fn lemma_add_zero(a: Self) {
    }

    proof fn lemma_powf_neg_one(x: Self) {
        let m1 = Self::one_spec().neg_spec();
        assert(m1.raw == -1_000_000i64);
        assert(Self::is_whole(m1));
        assert(Self::whole_mag(m1) == 1);
        lemma_mul_one_left(x);
        assert(Self::pow_nat_spec(x, 1nat) == Self::pow_nat_spec(x, 0nat).mul_spec(x));
    }

    proof fn lemma_signum_zero() {
    }
}

/// Multiplying by one on the left is the identity: `(SCALE * raw) / SCALE`
/// truncates back to `raw` and never saturates.
proof fn lemma_mul_one_left(x: Fixed)
    ensures
        Fixed::one_spec().mul_spec(x) == x,
{
    let s: int = SCALE as int;
    let r: int = x.raw as int;
    if r >= 0 {
        lemma_mul_nonnegative(s, r);
        assert(abs_i(s * r) == s * r);
        lemma_div_multiples_vanish(r, s);
        assert((s * r) / s == r);
    } else {
        lemma_mul_nonnegative(s, -r);
        assert(abs_i(s * r) == s * (-r)) by (nonlinear_arith)
            requires
                s > 0,
                r < 0,
                abs_i(s * r) == if s * r >= 0 {
                    s * r
                } else {
                    -(s * r)
                },
        ;
        lemma_div_multiples_vanish(-r, s);
        assert((s * (-r)) / s == -r);
    }
}

impl Grad<Fixed> for Fixed {
    type Model = Fixed;

    open spec fn model(self) -> Fixed {
        self
    }

    open spec fn zero_model() -> Fixed {
        Fixed { raw: 0 }
    }

    open spec fn add_model(a: Fixed, b: Fixed) -> Fixed {
        a.add_spec(b)
    }

    open spec fn scale_model(a: Fixed, k: Fixed) -> Fixed {
        a.mul_spec(k)
    }

    open spec fn div_scale_model(a: Fixed, k: Fixed) -> Fixed {
        a.div_spec(k)
    }

    open spec fn neg_model(a: Fixed) -> Fixed {
        a.neg_spec()
    }

    fn zero() -> (r: Self) {
        Fixed { raw: 0 }
    }

    fn duplicate(&self) -> (r: Self) {
        *self
    }

    fn add(self, rhs: Self) -> (r: Self) {
        Value::add(self, rhs)
    }

    fn add_assign(&mut self, rhs: Self) {
        *self = Value::add(*self, rhs);
    }

    fn mul(self, rhs: Fixed) -> (r: Self) {
        Value::mul(self, rhs)
    }

    fn mul_assign(&mut self, rhs: Fixed) {
        *self = Value::mul(*self, rhs);
    }

    fn div_scale(self, rhs: Fixed) -> (r: Self) {
        Value::div(self, rhs)
    }

    fn neg(self) -> (r: Self) {
        Value::neg(self)
    }

    fn eq_grad(&self, rhs: &Self) -> (b: bool) {
        self.raw == rhs.raw
    }

    proof fn lemma_add_model_commutes(a: Fixed, b: Fixed) {
        <Fixed as Value>::lemma_add_commutes(a, b);
    }

    proof fn lemma_add_model_associates(a: Fixed, b: Fixed, c: Fixed) {
        <Fixed as Value>::lemma_add_associates(a, b, c);
    }
}

} // verus!
