//! The generic data structure implementing [`Dual`].
//!
//! One implementation serves every derivative storage shape: the calculus
//! rules are derived here once, generically, and the shape-specific
//! modules below only supply storage adapters and seeding helpers.

use vstd::prelude::*;

use crate::fluid::{Dual, Grad, Value};

verus! {

/// Default generic [`Dual`] implementor: a value paired with its
/// derivative components.
#[derive(Clone, Copy, Debug, PartialEq)]
pub struct DualNumber<V, D> {
    /// The carried value.
    pub value: V,
    /// The derivative components.
    pub dual: D,
}

impl<V: Value, D: Grad<V>> Dual for DualNumber<V, D> {
    type Value = V;

    type Grad = D;

    open spec fn val_spec(self) -> V {
        self.value
    }

    open spec fn grad_spec(self) -> D::Model {
        self.dual.model()
    }

    fn new(value: V, dual: D) -> (r: Self) {
        DualNumber { value, dual }
    }

    fn parameter(value: V) -> (r: Self) {
        DualNumber { value, dual: D::zero() }
    }

    fn value(&self) -> (r: &V) {
        &self.value
    }

    fn value_mut(&mut self) -> (r: &mut V) {
        &mut self.value
    }

    fn dual(&self) -> (r: &D) {
        &self.dual
    }

    fn dual_mut(&mut self) -> (r: &mut D) {
        &mut self.dual
    }

    fn decompose(self) -> (r: (V, D)) {
        let DualNumber { value, dual } = self;
        (value, dual)
    }

    fn chain(&self, f: V, df: V) -> (r: Self) {
        DualNumber { value: f, dual: self.dual.duplicate().mul(df) }
    }

    fn powf(&self, p: V) -> (r: Self) {
        let f: V = self.value.powf(p);
        let df: V = self.value.powf(p.sub(V::one())).mul(p);
        self.chain(f, df)
    }

    fn powi(&self, n: i64) -> (r: Self) {
        self.powf(V::from_int(n))
    }

    fn sin(&self) -> (r: Self) {
        let (s, c) = self.value.sin_cos();
        self.chain(s, c)
    }

    fn cos(&self) -> (r: Self) {
        let (s, c) = self.value.sin_cos();
        self.chain(c, s.neg())
    }

    fn sin_cos(&self) -> (r: (Self, Self)) {
        let (s, c) = self.value.sin_cos();
        (self.chain(s, c), self.chain(c, s.neg()))
    }

    fn exp(&self) -> (r: Self) {
        let e: V = self.value.exp();
        self.chain(e, e)
    }

    fn ln(&self) -> (r: Self) {
        self.chain(self.value.ln(), V::one().div(self.value))
    }

    fn recip(&self) -> (r: Self) {
        let r = self.powf(V::one().neg());
        proof {
            V::lemma_powf_neg_one(self.value);
        }
        r
    }

    fn abs(&self) -> (r: Self) {
        self.chain(self.value.abs(), self.value.signum())
    }

    fn signum(&self) -> (r: Self) {
        self.chain(self.value.signum(), V::zero())
    }

    fn add_impl(&self, rhs: &Self) -> (r: Self) {
        DualNumber {
            value: self.value.add(rhs.value),
            dual: self.dual.duplicate().add(rhs.dual.duplicate()),
        }
    }

    fn mul_impl(&self, rhs: &Self) -> (r: Self) {
        DualNumber {
            value: self.value.mul(rhs.value),
            dual: self.dual.duplicate().mul(rhs.value).add(
                rhs.dual.duplicate().mul(self.value),
            ),
        }
    }

    fn sub_impl(&self, rhs: &Self) -> (r: Self) {
        DualNumber {
            value: self.value.sub(rhs.value),
            dual: self.dual.duplicate().add(rhs.dual.duplicate().neg()),
        }
    }

    fn div_impl(&self, rhs: &Self) -> (r: Self) {
        DualNumber {
            value: self.value.div(rhs.value),
            dual: self.dual.duplicate().mul(rhs.value).add(
                rhs.dual.duplicate().mul(self.value).neg(),
            ).div_scale(rhs.value.mul(rhs.value)),
        }
    }

    fn add_assign_impl(&mut self, rhs: &Self) {
        self.value = self.value.add(rhs.value);
        self.dual.add_assign(rhs.dual.duplicate());
    }

    fn mul_assign_impl(&mut self, rhs: &Self) {
        // preserve the original value for the product rule
        let value_local: V = self.value;
        self.value = self.value.mul(rhs.value);
        self.dual.mul_assign(rhs.value);
        self.dual.add_assign(rhs.dual.duplicate().mul(value_local));
    }

    fn sub_assign_impl(&mut self, rhs: &Self) {
        self.value = self.value.sub(rhs.value);
        self.dual.add_assign(rhs.dual.duplicate().neg());
    }

    fn div_assign_impl(&mut self, rhs: &Self) {
        let value_local: V = self.value;
        self.value = self.value.div(rhs.value);
        let dual_new: D = self.dual.duplicate().mul(rhs.value).add(
            rhs.dual.duplicate().mul(value_local).neg(),
        ).div_scale(rhs.value.mul(rhs.value));
        self.dual = dual_new;
    }

    fn neg_impl(&self) -> (r: Self) {
        DualNumber { value: self.value.neg(), dual: self.dual.duplicate().neg() }
    }

    fn map<Output, F: Fn(Self) -> Output>(self, func: F) -> (r: Output) {
        func(self)
    }
}

/// The degenerate derivative: it carries nothing, so a dual number built
/// on it runs the very same generic function body as a plain,
/// undifferentiated reference computation.
#[derive(Clone, Copy, Debug, PartialEq)]
pub struct NoGrad;

impl<V: Value> Grad<V> for NoGrad {
    type Model = ();

    open spec fn model(self) -> () {
        ()
    }

    open spec fn zero_model() -> () {
        ()
    }

    open spec fn add_model(a: (), b: ()) -> () {
        ()
    }

    open spec fn scale_model(a: (), k: V) -> () {
        ()
    }

    open spec fn div_scale_model(a: (), k: V) -> () {
        ()
    }

    open spec fn neg_model(a: ()) -> () {
        ()
    }

    fn zero() -> (r: Self) {
        NoGrad
    }

    fn duplicate(&self) -> (r: Self) {
        NoGrad
    }

    fn add(self, rhs: Self) -> (r: Self) {
        NoGrad
    }

    fn add_assign(&mut self, rhs: Self) {
    }

    fn mul(self, rhs: V) -> (r: Self) {
        NoGrad
    }

    fn mul_assign(&mut self, rhs: V) {
    }

    fn div_scale(self, rhs: V) -> (r: Self) {
        NoGrad
    }

    fn neg(self) -> (r: Self) {
        NoGrad
    }

    fn eq_grad(&self, rhs: &Self) -> (b: bool) {
        true
    }

    proof fn lemma_add_model_commutes(a: (), b: ()) {
    }

    proof fn lemma_add_model_associates(a: (), b: (), c: ()) {
    }
}

} // verus!

pub mod array;
pub mod single;
pub mod sparse;
pub mod vector;
