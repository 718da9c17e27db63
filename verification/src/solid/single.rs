//! [`DualNumber`] for single-variable differentiation.
//!
//! The scalar storage shape: the derivative is one partial, carried by the
//! value type itself, and arithmetic on it is plain value arithmetic.

use vstd::prelude::*;

use crate::fluid::Value;

verus! {

/// Uni-variate dual number: the value type doubles as its own derivative
/// storage.
pub type DualNumber<V> = crate::solid::DualNumber<V, V>;

/// Single variable over the library's exact fixed-point carrier.
pub type DualFixed = DualNumber<crate::fixed::Fixed>;

/// Create an independent variable from a value: the value keeps its place
/// in the value channel and the derivative is seeded with one.
pub trait IntoVariable: Value {
    /// Create an independent variable from this value.
    fn into_variable(self) -> (r: DualNumber<Self>)
        ensures
            r.value == self,
            r.dual == Self::one_spec(),
    ;
}

impl<V: Value> IntoVariable for V {
    fn into_variable(self) -> (r: DualNumber<V>) {
        DualNumber { value: self, dual: V::one() }
    }
}

} // verus!
