//! Behaviour contracts of the differentiation engine.
//!
//! [`Value`] is the capability contract for the "real" component of a dual
//! number: an arithmetic type with transcendental primitives.  [`Grad`] is
//! the contract for derivative storage: an additive structure that can be
//! scaled by a [`Value`].  [`Dual`] is the behaviour of a dual number built
//! from the two.  Every contract is stated over spec-level models so that
//! the calculus rules (sum, product, quotient, chain) are proved once,
//! generically, for every storage shape.

use vstd::prelude::*;

verus! {

/// Capability contract of an ordinary value: field-style arithmetic,
/// ordering and the transcendental primitives used by the elementary
/// function library.
///
/// Each executable operation is pinned to a spec-level counterpart, and a
/// small set of algebraic laws is demanded of every implementation; the
/// derivative containers only ever use a value as a scalar, never looking
/// inside it.
pub trait Value: Sized + Copy {
    /// The additive identity.
    spec fn zero_spec() -> Self;

    /// The multiplicative identity.
    spec fn one_spec() -> Self;

    /// What addition returns.
    spec fn add_spec(self, rhs: Self) -> Self;

    /// What subtraction returns.
    spec fn sub_spec(self, rhs: Self) -> Self;

    /// What multiplication returns.
    spec fn mul_spec(self, rhs: Self) -> Self;

    /// What division returns.
    spec fn div_spec(self, rhs: Self) -> Self;

    /// What negation returns.
    spec fn neg_spec(self) -> Self;

    /// What the absolute value is.
    spec fn abs_spec(self) -> Self;

    /// What the sign is: minus one, zero or one.
    spec fn signum_spec(self) -> Self;

    /// What raising to the power `p` returns.
    spec fn powf_spec(self, p: Self) -> Self;

    /// What the exponential returns.
    spec fn exp_spec(self) -> Self;

    /// What the natural logarithm returns.
    spec fn ln_spec(self) -> Self;

    /// What the sine returns.
    spec fn sin_spec(self) -> Self;

    /// What the cosine returns.
    spec fn cos_spec(self) -> Self;

    /// The strict order on values.
    spec fn lt_spec(self, rhs: Self) -> bool;

    /// The value standing for the integer `n`.
    spec fn from_int_spec(n: i64) -> Self;

    /// The additive identity.
    fn zero() -> (r: Self)
        ensures
            r == Self::zero_spec(),
    ;

    /// The multiplicative identity.
    fn one() -> (r: Self)
        ensures
            r == Self::one_spec(),
    ;

    /// Addition.
    fn add(self, rhs: Self) -> (r: Self)
        ensures
            r == self.add_spec(rhs),
    ;

    /// Subtraction.
    fn sub(self, rhs: Self) -> (r: Self)
        ensures
            r == self.sub_spec(rhs),
    ;

    /// Multiplication.
    fn mul(self, rhs: Self) -> (r: Self)
        ensures
            r == self.mul_spec(rhs),
    ;

    /// Division.  Every implementation is total; what a division by zero
    /// returns is the implementation's own documented choice.
    fn div(self, rhs: Self) -> (r: Self)
        ensures
            r == self.div_spec(rhs),
    ;

    /// Negation.
    fn neg(self) -> (r: Self)
        ensures
            r == self.neg_spec(),
    ;

    /// Absolute value.
    fn abs(self) -> (r: Self)
        ensures
            r == self.abs_spec(),
    ;

    /// Sign of the value.
    fn signum(self) -> (r: Self)
        ensures
            r == self.signum_spec(),
    ;

    /// Raise to the power `p`.
    fn powf(self, p: Self) -> (r: Self)
        ensures
            r == self.powf_spec(p),
    ;

    /// Exponential.
    fn exp(self) -> (r: Self)
        ensures
            r == self.exp_spec(),
    ;

    /// Natural logarithm.
    fn ln(self) -> (r: Self)
        ensures
            r == self.ln_spec(),
    ;

    /// Sine and cosine together, so one evaluation can serve both.
    fn sin_cos(self) -> (r: (Self, Self))
        ensures
            r.0 == self.sin_spec(),
            r.1 == self.cos_spec(),
    ;

    /// Equality test.
    fn eq_val(self, rhs: Self) -> (b: bool)
        ensures
            b == (self == rhs),
    ;

    /// Strict order test.
    fn lt(self, rhs: Self) -> (b: bool)
        ensures
            b == self.lt_spec(rhs),
    ;

    /// The value standing for the integer `n`.
    fn from_int(n: i64) -> (r: Self)
        ensures
            r == Self::from_int_spec(n),
    ;

    /// Law: addition is commutative.
    proof fn lemma_add_commutes(a: Self, b: Self)
        ensures
            a.add_spec(b) == b.add_spec(a),
    ;

    /// Law: addition is associative.
    proof fn lemma_add_associates(a: Self, b: Self, c: Self)
        ensures
            a.add_spec(b).add_spec(c) == a.add_spec(b.add_spec(c)),
    ;

    /// Law: zero is the additive identity.
    proof fn lemma_add_zero(a: Self)
        ensures
            a.add_spec(Self::zero_spec()) == a,
    ;

    /// Law: raising to the power minus one is the reciprocal.
    proof fn lemma_powf_neg_one(x: Self)
        ensures
            x.powf_spec(Self::one_spec().neg_spec()) == Self::one_spec().div_spec(x),
    ;

    /// Law: the sign of zero is zero, the convention that also fixes the
    /// derivative of the absolute value at zero.
    proof fn lemma_signum_zero()
        ensures
            Self::zero_spec().signum_spec() == Self::zero_spec(),
    ;
}

/// Contract of derivative storage: an additive structure over a [`Value`],
/// scalable by a value, negatable, with a zero obtainable from nothing.
///
/// Each shape chooses its own mathematical model (`Model`): a plain value,
/// a sequence of partials, or a map from keys to partials.  All executable
/// operations are pinned to model-level operations, and combination is
/// demanded to be commutative and associative, so the order in which
/// derivative contributions are merged never matters.
pub trait Grad<V: Value>: Sized {
    /// The mathematical model of this storage shape.
    type Model;

    /// The model of this container's contents.
    spec fn model(self) -> Self::Model;

    /// The model of the zero derivative.
    spec fn zero_model() -> Self::Model;

    /// What combining two derivatives yields.
    spec fn add_model(a: Self::Model, b: Self::Model) -> Self::Model;

    /// What scaling a derivative by a value yields.
    spec fn scale_model(a: Self::Model, k: V) -> Self::Model;

    /// What dividing a derivative by a value yields.
    spec fn div_scale_model(a: Self::Model, k: V) -> Self::Model;

    /// What negating a derivative yields.
    spec fn neg_model(a: Self::Model) -> Self::Model;

    /// The zero derivative.
    fn zero() -> (r: Self)
        ensures
            r.model() == Self::zero_model(),
    ;

    /// A fresh container with the same contents.
    fn duplicate(&self) -> (r: Self)
        ensures
            r.model() == self.model(),
    ;

    /// Combine two derivatives.
    fn add(self, rhs: Self) -> (r: Self)
        ensures
            r.model() == Self::add_model(self.model(), rhs.model()),
    ;

    /// Combine a derivative into this one.
    fn add_assign(&mut self, rhs: Self)
        ensures
            final(self).model() == Self::add_model(old(self).model(), rhs.model()),
    ;

    /// Scale by a value.
    fn mul(self, rhs: V) -> (r: Self)
        ensures
            r.model() == Self::scale_model(self.model(), rhs),
    ;

    /// Scale this derivative by a value in place.
    fn mul_assign(&mut self, rhs: V)
        ensures
            final(self).model() == Self::scale_model(old(self).model(), rhs),
    ;

    /// Divide by a value.
    fn div_scale(self, rhs: V) -> (r: Self)
        ensures
            r.model() == Self::div_scale_model(self.model(), rhs),
    ;

    /// Negate.
    fn neg(self) -> (r: Self)
        ensures
            r.model() == Self::neg_model(self.model()),
    ;

    /// Equality of contents.
    fn eq_grad(&self, rhs: &Self) -> (b: bool)
        ensures
            b == (self.model() == rhs.model()),
    ;

    /// Law: combining derivatives is commutative.
    proof fn lemma_add_model_commutes(a: Self::Model, b: Self::Model)
        ensures
            Self::add_model(a, b) == Self::add_model(b, a),
    ;

    /// Law: combining derivatives is associative.
    proof fn lemma_add_model_associates(a: Self::Model, b: Self::Model, c: Self::Model)
        ensures
            Self::add_model(Self::add_model(a, b), c) == Self::add_model(a, Self::add_model(b, c)),
    ;
}

/// Fundamental behaviour of dual numbers: a value paired with derivative
/// storage, propagated through arithmetic by the sum, product and quotient
/// rules and through elementary functions by the chain rule.
pub trait Dual: Sized {
    /// The type of the carried value.
    type Value: Value;

    /// The type of the carried derivative.
    type Grad: Grad<Self::Value>;

    /// The carried value.
    spec fn val_spec(self) -> Self::Value;

    /// The model of the carried derivative.
    spec fn grad_spec(self) -> <Self::Grad as Grad<Self::Value>>::Model;

    /// Construct a dual number from its parts, without validation.
    fn new(value: Self::Value, dual: Self::Grad) -> (r: Self)
        ensures
            r.val_spec() == value,
            r.grad_spec() == dual.model(),
    ;

    /// Construct a parameter: a differentiation constant whose derivative
    /// is entirely zero.
    fn parameter(value: Self::Value) -> (r: Self)
        ensures
            r.val_spec() == value,
            r.grad_spec() == Self::Grad::zero_model(),
    ;

    /// Borrow the value.
    fn value(&self) -> (r: &Self::Value)
        ensures
            *r == self.val_spec(),
    ;

    /// Mutably borrow the value.
    fn value_mut(&mut self) -> (r: &mut Self::Value)
        ensures
            *r == old(self).val_spec(),
            final(self).val_spec() == *final(r),
            final(self).grad_spec() == old(self).grad_spec(),
    ;

    /// Borrow the derivative.
    fn dual(&self) -> (r: &Self::Grad)
        ensures
            r.model() == self.grad_spec(),
    ;

    /// Mutably borrow the derivative.
    fn dual_mut(&mut self) -> (r: &mut Self::Grad)
        ensures
            r.model() == old(self).grad_spec(),
            final(self).grad_spec() == final(r).model(),
            final(self).val_spec() == old(self).val_spec(),
    ;

    /// Consume the dual number and return its parts.
    fn decompose(self) -> (r: (Self::Value, Self::Grad))
        ensures
            r.0 == self.val_spec(),
            r.1.model() == self.grad_spec(),
    ;

    /// Chain rule: given `f` and `df`, the function and derivative of some
    /// elementary map evaluated at this value, build `f` with derivative
    /// `df` times this derivative.  This is the sole primitive injecting
    /// calculus; every elementary function below is exactly one such call.
    fn chain(&self, f: Self::Value, df: Self::Value) -> (r: Self)
        ensures
            r.val_spec() == f,
            r.grad_spec() == Self::Grad::scale_model(self.grad_spec(), df),
    ;

    /// Differentiable power: value `x^p`, derivative factor `p * x^(p-1)`.
    fn powf(&self, p: Self::Value) -> (r: Self)
        ensures
            r.val_spec() == self.val_spec().powf_spec(p),
            r.grad_spec() == Self::Grad::scale_model(
                self.grad_spec(),
                self.val_spec().powf_spec(p.sub_spec(Self::Value::one_spec())).mul_spec(p),
            ),
    ;

    /// Differentiable integer power, a specialization of [`Dual::powf`].
    fn powi(&self, n: i64) -> (r: Self)
        ensures
            r.val_spec() == self.val_spec().powf_spec(Self::Value::from_int_spec(n)),
            r.grad_spec() == Self::Grad::scale_model(
                self.grad_spec(),
                self.val_spec().powf_spec(
                    Self::Value::from_int_spec(n).sub_spec(Self::Value::one_spec()),
                ).mul_spec(Self::Value::from_int_spec(n)),
            ),
    ;

    /// Differentiable sine: derivative factor is the cosine.
    fn sin(&self) -> (r: Self)
        ensures
            r.val_spec() == self.val_spec().sin_spec(),
            r.grad_spec() == Self::Grad::scale_model(
                self.grad_spec(),
                self.val_spec().cos_spec(),
            ),
    ;

    /// Differentiable cosine: derivative factor is minus the sine.
    fn cos(&self) -> (r: Self)
        ensures
            r.val_spec() == self.val_spec().cos_spec(),
            r.grad_spec() == Self::Grad::scale_model(
                self.grad_spec(),
                self.val_spec().sin_spec().neg_spec(),
            ),
    ;

    /// Fused sine and cosine, reusing one evaluation of the underlying
    /// value-level primitives for both results.
    fn sin_cos(&self) -> (r: (Self, Self))
        ensures
            r.0.val_spec() == self.val_spec().sin_spec(),
            r.0.grad_spec() == Self::Grad::scale_model(
                self.grad_spec(),
                self.val_spec().cos_spec(),
            ),
            r.1.val_spec() == self.val_spec().cos_spec(),
            r.1.grad_spec() == Self::Grad::scale_model(
                self.grad_spec(),
                self.val_spec().sin_spec().neg_spec(),
            ),
    ;

    /// Differentiable exponential: the derivative factor is the result
    /// itself.
    fn exp(&self) -> (r: Self)
        ensures
            r.val_spec() == self.val_spec().exp_spec(),
            r.grad_spec() == Self::Grad::scale_model(
                self.grad_spec(),
                self.val_spec().exp_spec(),
            ),
    ;

    /// Differentiable logarithm: derivative factor is the reciprocal.
    fn ln(&self) -> (r: Self)
        ensures
            r.val_spec() == self.val_spec().ln_spec(),
            r.grad_spec() == Self::Grad::scale_model(
                self.grad_spec(),
                Self::Value::one_spec().div_spec(self.val_spec()),
            ),
    ;

    /// Differentiable reciprocal, the power minus one.
    fn recip(&self) -> (r: Self)
        ensures
            r.val_spec() == Self::Value::one_spec().div_spec(self.val_spec()),
            r.grad_spec() == Self::Grad::scale_model(
                self.grad_spec(),
                self.val_spec().powf_spec(
                    Self::Value::one_spec().neg_spec().sub_spec(Self::Value::one_spec()),
                ).mul_spec(Self::Value::one_spec().neg_spec()),
            ),
    ;

    /// Differentiable absolute value: derivative factor is the sign, which
    /// is zero at zero by convention.
    fn abs(&self) -> (r: Self)
        ensures
            r.val_spec() == self.val_spec().abs_spec(),
            r.grad_spec() == Self::Grad::scale_model(
                self.grad_spec(),
                self.val_spec().signum_spec(),
            ),
    ;

    /// Differentiable sign: derivative factor is zero everywhere.
    fn signum(&self) -> (r: Self)
        ensures
            r.val_spec() == self.val_spec().signum_spec(),
            r.grad_spec() == Self::Grad::scale_model(
                self.grad_spec(),
                Self::Value::zero_spec(),
            ),
    ;

    /// Sum rule: values add, derivatives combine component-wise.
    fn add_impl(&self, rhs: &Self) -> (r: Self)
        ensures
            r.val_spec() == self.val_spec().add_spec(rhs.val_spec()),
            r.grad_spec() == Self::Grad::add_model(self.grad_spec(), rhs.grad_spec()),
    ;

    /// Product rule: `(a*b)' == a'*b + b'*a`.
    fn mul_impl(&self, rhs: &Self) -> (r: Self)
        ensures
            r.val_spec() == self.val_spec().mul_spec(rhs.val_spec()),
            r.grad_spec() == Self::Grad::add_model(
                Self::Grad::scale_model(self.grad_spec(), rhs.val_spec()),
                Self::Grad::scale_model(rhs.grad_spec(), self.val_spec()),
            ),
    ;

    /// Difference: values subtract, derivatives combine with the negated
    /// right-hand derivative.
    fn sub_impl(&self, rhs: &Self) -> (r: Self)
        ensures
            r.val_spec() == self.val_spec().sub_spec(rhs.val_spec()),
            r.grad_spec() == Self::Grad::add_model(
                self.grad_spec(),
                Self::Grad::neg_model(rhs.grad_spec()),
            ),
    ;

    /// Quotient rule: `(a/b)' == (a'*b - b'*a) / b^2`.
    fn div_impl(&self, rhs: &Self) -> (r: Self)
        ensures
            r.val_spec() == self.val_spec().div_spec(rhs.val_spec()),
            r.grad_spec() == Self::Grad::div_scale_model(
                Self::Grad::add_model(
                    Self::Grad::scale_model(self.grad_spec(), rhs.val_spec()),
                    Self::Grad::neg_model(
                        Self::Grad::scale_model(rhs.grad_spec(), self.val_spec()),
                    ),
                ),
                rhs.val_spec().mul_spec(rhs.val_spec()),
            ),
    ;

    /// In-place sum rule.
    fn add_assign_impl(&mut self, rhs: &Self)
        ensures
            final(self).val_spec() == old(self).val_spec().add_spec(rhs.val_spec()),
            final(self).grad_spec() == Self::Grad::add_model(
                old(self).grad_spec(),
                rhs.grad_spec(),
            ),
    ;

    /// In-place product rule.
    fn mul_assign_impl(&mut self, rhs: &Self)
        ensures
            final(self).val_spec() == old(self).val_spec().mul_spec(rhs.val_spec()),
            final(self).grad_spec() == Self::Grad::add_model(
                Self::Grad::scale_model(old(self).grad_spec(), rhs.val_spec()),
                Self::Grad::scale_model(rhs.grad_spec(), old(self).val_spec()),
            ),
    ;

    /// In-place difference.
    fn sub_assign_impl(&mut self, rhs: &Self)
        ensures
            final(self).val_spec() == old(self).val_spec().sub_spec(rhs.val_spec()),
            final(self).grad_spec() == Self::Grad::add_model(
                old(self).grad_spec(),
                Self::Grad::neg_model(rhs.grad_spec()),
            ),
    ;

    /// In-place quotient rule.
    fn div_assign_impl(&mut self, rhs: &Self)
        ensures
            final(self).val_spec() == old(self).val_spec().div_spec(rhs.val_spec()),
            final(self).grad_spec() == Self::Grad::div_scale_model(
                Self::Grad::add_model(
                    Self::Grad::scale_model(old(self).grad_spec(), rhs.val_spec()),
                    Self::Grad::neg_model(
                        Self::Grad::scale_model(rhs.grad_spec(), old(self).val_spec()),
                    ),
                ),
                rhs.val_spec().mul_spec(rhs.val_spec()),
            ),
    ;

    /// Negate both channels.
    fn neg_impl(&self) -> (r: Self)
        ensures
            r.val_spec() == self.val_spec().neg_spec(),
            r.grad_spec() == Self::Grad::neg_model(self.grad_spec()),
    ;

    /// Evaluate a function over this dual number.
    fn map<Output, F: Fn(Self) -> Output>(self, func: F) -> (r: Output)
        requires
            call_requires(func, (self,)),
        ensures
            call_ensures(func, (self,), r),
    ;
}

/// The standard basis vector of length `n` with a one at position `i`:
/// the derivative an independent variable is seeded with.
pub open spec fn basis_model<V: Value>(n: nat, i: int) -> Seq<V> {
    Seq::new(
        n,
        |j: int|
            if j == i {
                V::one_spec()
            } else {
                V::zero_spec()
            },
    )
}

/// A sequence of partials zero-extended to length `n` (entries past the
/// original length read as zero).
pub open spec fn seq_pad_model<V: Value>(a: Seq<V>, n: nat) -> Seq<V> {
    Seq::new(
        n,
        |i: int|
            if i < a.len() {
                a[i]
            } else {
                V::zero_spec()
            },
    )
}

/// Element-wise combination of two sequences of partials after
/// zero-extending the shorter one to the longer length.
pub open spec fn seq_add_model<V: Value>(a: Seq<V>, b: Seq<V>) -> Seq<V> {
    Seq::new(
        vstd::math::max(a.len() as int, b.len() as int) as nat,
        |i: int| seq_pad_model(a, (a.len() + b.len()) as nat)[i].add_spec(
            seq_pad_model(b, (a.len() + b.len()) as nat)[i],
        ),
    )
}

/// Combining sequences of partials is commutative.
pub proof fn lemma_seq_add_model_commutes<V: Value>(a: Seq<V>, b: Seq<V>)
    ensures
        seq_add_model(a, b) == seq_add_model(b, a),
{
    assert forall|i: int| 0 <= i < seq_add_model(a, b).len() implies seq_add_model(a, b)[i]
        == seq_add_model(b, a)[i] by {
        V::lemma_add_commutes(
            seq_pad_model(a, (a.len() + b.len()) as nat)[i],
            seq_pad_model(b, (a.len() + b.len()) as nat)[i],
        );
    }
    assert(seq_add_model(a, b) =~= seq_add_model(b, a));
}

/// Combining sequences of partials is associative.
pub proof fn lemma_seq_add_model_associates<V: Value>(a: Seq<V>, b: Seq<V>, c: Seq<V>)
    ensures
        seq_add_model(seq_add_model(a, b), c) == seq_add_model(a, seq_add_model(b, c)),
{
    let lhs = seq_add_model(seq_add_model(a, b), c);
    let rhs = seq_add_model(a, seq_add_model(b, c));
    assert forall|i: int| 0 <= i < lhs.len() implies lhs[i] == rhs[i] by {
        let n: nat = (a.len() + b.len() + c.len()) as nat;
        let av: V = seq_pad_model(a, n)[i];
        let bv: V = seq_pad_model(b, n)[i];
        let cv: V = seq_pad_model(c, n)[i];
        let z: V = V::zero_spec();
        V::lemma_add_commutes(av, bv);
        V::lemma_add_commutes(bv, cv);
        V::lemma_add_commutes(av, cv);
        V::lemma_add_associates(av, bv, cv);
        V::lemma_add_zero(av);
        V::lemma_add_zero(bv);
        V::lemma_add_zero(cv);
        V::lemma_add_zero(av.add_spec(bv));
        V::lemma_add_zero(bv.add_spec(cv));
        V::lemma_add_commutes(z, bv.add_spec(cv));
        V::lemma_add_commutes(z, cv);
        V::lemma_add_commutes(z, bv);
        V::lemma_add_zero(z);
    }
    assert(lhs =~= rhs);
}

} // verus!
