//! [`DualNumber`] for a dynamic number of variables.
//!
//! The derivative is a growable ordered sequence of partials.  Combining
//! two sequences of different lengths zero-extends the shorter one to the
//! longer length first: a documented policy, never an error and never a
//! truncation, so variables discovered later in a growing parameter list
//! always combine cleanly with earlier results.

use vstd::prelude::*;

use crate::fluid::Grad as _;
use crate::fluid::{basis_model, seq_add_model, seq_pad_model, Value};

verus! {

/// Dense growable storage of partial derivatives.
#[derive(Clone, Debug, PartialEq)]
pub struct Grad<V> {
    /// The partials, indexed by variable position.
    pub partials: Vec<V>,
}

/// For a dynamically known number of variables.
pub type DualNumber<V> = crate::solid::DualNumber<V, Grad<V>>;

impl<V: Value> Grad<V> {
    /// Wrap a vector of partials.
    pub fn from_partials(partials: Vec<V>) -> (r: Self)
        ensures
            r.partials@ == partials@,
    {
        Grad { partials }
    }

    /// Borrow the partials.
    pub fn as_partials(&self) -> (r: &Vec<V>)
        ensures
            r@ == self.partials@,
    {
        &self.partials
    }
}

impl<V: Value> crate::fluid::Grad<V> for Grad<V> {
    type Model = Seq<V>;

    open spec fn model(self) -> Seq<V> {
        self.partials@
    }

    open spec fn zero_model() -> Seq<V> {
        Seq::empty()
    }

    open spec fn add_model(a: Seq<V>, b: Seq<V>) -> Seq<V> {
        seq_add_model(a, b)
    }

    open spec fn scale_model(a: Seq<V>, k: V) -> Seq<V> {
        a.map_values(|v: V| v.mul_spec(k))
    }

    open spec fn div_scale_model(a: Seq<V>, k: V) -> Seq<V> {
        a.map_values(|v: V| v.div_spec(k))
    }

    open spec fn neg_model(a: Seq<V>) -> Seq<V> {
        a.map_values(|v: V| v.neg_spec())
    }

    fn zero() -> (r: Self) {
        Grad { partials: Vec::new() }
    }

    fn duplicate(&self) -> (r: Self) {
        let mut out: Vec<V> = Vec::new();
        let mut i: usize = 0;
        while i < self.partials.len()
            invariant
                i <= self.partials@.len(),
                out@ =~= self.partials@.take(i as int),
            decreases self.partials@.len() - i,
        {
            out.push(self.partials[i]);
            i = i + 1;
        }
        proof {
            assert(out@ =~= self.partials@);
        }
        Grad { partials: out }
    }

    fn add(self, rhs: Self) -> (r: Self) {
        let mut out: Self = self;
        out.add_assign(rhs);
        out
    }

    fn add_assign(&mut self, rhs: Self) {
        let ghost orig: Seq<V> = self.partials@;
        let rlen: usize = rhs.partials.len();
        while self.partials.len() < rlen
            invariant
                orig.len() <= self.partials@.len(),
                self.partials@.len() <= vstd::math::max(orig.len() as int, rlen as int),
                self.partials@ =~= seq_pad_model(orig, self.partials@.len()),
            decreases rlen - self.partials@.len(),
        {
            self.partials.push(V::zero());
        }
        let ghost padded: Seq<V> = self.partials@;
        let mut i: usize = 0;
        while i < rlen
            invariant
                rlen == rhs.partials@.len(),
                rlen <= padded.len(),
                i <= rlen,
                orig.len() <= padded.len(),
                padded.len() == vstd::math::max(orig.len() as int, rlen as int),
                padded =~= seq_pad_model(orig, padded.len()),
                self.partials@.len() == padded.len(),
                forall|j: int| 0 <= j < i ==> self.partials@[j] == padded[j].add_spec(
                    rhs.partials@[j],
                ),
                forall|j: int| i <= j < padded.len() ==> self.partials@[j] == padded[j],
            decreases rlen - i,
        {
            let v: V = self.partials[i];
            self.partials[i] = v.add(rhs.partials[i]);
            i = i + 1;
        }
        proof {
            let res: Seq<V> = seq_add_model(orig, rhs.partials@);
            let n: nat = (orig.len() + rhs.partials@.len()) as nat;
            assert(res.len() == padded.len());
            assert forall|j: int| 0 <= j < padded.len() implies self.partials@[j] == res[j] by {
                assert(res[j] == seq_pad_model(orig, n)[j].add_spec(
                    seq_pad_model(rhs.partials@, n)[j],
                ));
                assert(seq_pad_model(orig, n)[j] == padded[j]);
                if j < rlen {
                    assert(seq_pad_model(rhs.partials@, n)[j] == rhs.partials@[j]);
                    assert(self.partials@[j] == padded[j].add_spec(rhs.partials@[j]));
                } else {
                    assert(seq_pad_model(rhs.partials@, n)[j] == V::zero_spec());
                    V::lemma_add_zero(padded[j]);
                    assert(self.partials@[j] == padded[j]);
                }
            }
            assert(self.partials@ =~= res);
        }
    }

    fn mul(self, rhs: V) -> (r: Self) {
        let mut out: Self = self;
        out.mul_assign(rhs);
        out
    }

    fn mul_assign(&mut self, rhs: V) {
        let ghost orig: Seq<V> = self.partials@;
        let mut i: usize = 0;
        while i < self.partials.len()
            invariant
                self.partials@.len() == orig.len(),
                i <= orig.len(),
                forall|j: int| 0 <= j < i ==> self.partials@[j] == orig[j].mul_spec(rhs),
                forall|j: int| i <= j < orig.len() ==> self.partials@[j] == orig[j],
            decreases orig.len() - i,
        {
            let v: V = self.partials[i];
            self.partials[i] = v.mul(rhs);
            i = i + 1;
        }
        proof {
            assert(self.partials@ =~= orig.map_values(|v: V| v.mul_spec(rhs)));
        }
    }

    fn div_scale(self, rhs: V) -> (r: Self) {
        let ghost orig: Seq<V> = self.partials@;
        let mut out: Self = self;
        let mut i: usize = 0;
        while i < out.partials.len()
            invariant
                out.partials@.len() == orig.len(),
                i <= orig.len(),
                forall|j: int| 0 <= j < i ==> out.partials@[j] == orig[j].div_spec(rhs),
                forall|j: int| i <= j < orig.len() ==> out.partials@[j] == orig[j],
            decreases orig.len() - i,
        {
            let v: V = out.partials[i];
            out.partials[i] = v.div(rhs);
            i = i + 1;
        }
        proof {
            assert(out.partials@ =~= orig.map_values(|v: V| v.div_spec(rhs)));
        }
        out
    }

    fn neg(self) -> (r: Self) {
        let ghost orig: Seq<V> = self.partials@;
        let mut out: Self = self;
        let mut i: usize = 0;
        while i < out.partials.len()
            invariant
                out.partials@.len() == orig.len(),
                i <= orig.len(),
                forall|j: int| 0 <= j < i ==> out.partials@[j] == orig[j].neg_spec(),
                forall|j: int| i <= j < orig.len() ==> out.partials@[j] == orig[j],
            decreases orig.len() - i,
        {
            let v: V = out.partials[i];
            out.partials[i] = v.neg();
            i = i + 1;
        }
        proof {
            assert(out.partials@ =~= orig.map_values(|v: V| v.neg_spec()));
        }
        out
    }

    fn eq_grad(&self, rhs: &Self) -> (b: bool) {
        if self.partials.len() != rhs.partials.len() {
            return false;
        }
        let mut i: usize = 0;
        while i < self.partials.len()
            invariant
                self.partials@.len() == rhs.partials@.len(),
                i <= self.partials@.len(),
                forall|j: int| 0 <= j < i ==> self.partials@[j] == rhs.partials@[j],
            decreases self.partials@.len() - i,
        {
            let a: V = self.partials[i];
            let b: V = rhs.partials[i];
            if !a.eq_val(b) {
                return false;
            }
            i = i + 1;
        }
        proof {
            assert(self.partials@ =~= rhs.partials@);
        }
        true
    }

    proof fn lemma_add_model_commutes(a: Seq<V>, b: Seq<V>) {
        crate::fluid::lemma_seq_add_model_commutes(a, b);
    }

    proof fn lemma_add_model_associates(a: Seq<V>, b: Seq<V>, c: Seq<V>) {
        crate::fluid::lemma_seq_add_model_associates(a, b, c);
    }
}

/// The dynamic-extension law: combining a shorter derivative with a longer
/// one yields a result of the longer length, equal to zero-extending the
/// shorter one first and then combining position by position.
pub proof fn lemma_zero_extension<V: Value>(a: Seq<V>, b: Seq<V>)
    requires
        a.len() <= b.len(),
    ensures
        seq_add_model(a, b).len() == b.len(),
        seq_add_model(a, b) == seq_add_model(seq_pad_model(a, b.len()), b),
        forall|i: int| #![trigger seq_add_model(a, b)[i]]
            0 <= i < b.len() ==> seq_add_model(a, b)[i] == seq_pad_model(a, b.len())[i].add_spec(
                b[i],
            ),
{
    assert(seq_add_model(a, b) =~= seq_add_model(seq_pad_model(a, b.len()), b));
}

/// Turn a vector of values into independent dual variables: variable `i`
/// carries the standard basis derivative with a one at position `i`, so
/// seeding `n` values yields the `n` by `n` identity as the derivative
/// matrix.
pub trait IntoVariables<V: Value>: Sized {
    /// The seeded values.
    spec fn values_spec(self) -> Seq<V>;

    /// Turn the values into independent dual variables.
    fn into_variables(self) -> (r: Vec<DualNumber<V>>)
        ensures
            r@.len() == self.values_spec().len(),
            forall|i: int| #![all_triggers]
                0 <= i < r@.len() ==> r@[i].value == self.values_spec()[i] && r@[i].dual.partials@
                    == basis_model::<V>(self.values_spec().len(), i),
    ;
}

impl<V: Value> IntoVariables<V> for Vec<V> {
    open spec fn values_spec(self) -> Seq<V> {
        self@
    }

    fn into_variables(self) -> (r: Vec<DualNumber<V>>) {
        let n: usize = self.len();
        let mut out: Vec<DualNumber<V>> = Vec::new();
        let mut i: usize = 0;
        while i < n
            invariant
                n == self@.len(),
                i <= n,
                out@.len() == i,
                forall|k: int| #![all_triggers]
                    0 <= k < i ==> out@[k].value == self@[k] && out@[k].dual.partials@
                        == basis_model::<V>(n as nat, k),
            decreases n - i,
        {
            let mut g: Vec<V> = Vec::new();
            let mut j: usize = 0;
            while j < n
                invariant
                    j <= n,
                    i < n,
                    g@.len() == j,
                    forall|k: int| 0 <= k < j ==> g@[k] == basis_model::<V>(n as nat, i as int)[k],
                decreases n - j,
            {
                if j == i {
                    g.push(V::one());
                } else {
                    g.push(V::zero());
                }
                j = j + 1;
            }
            proof {
                assert(g@ =~= basis_model::<V>(n as nat, i as int));
            }
            out.push(DualNumber { value: self[i], dual: Grad { partials: g } });
            i = i + 1;
        }
        out
    }
}

} // verus!
