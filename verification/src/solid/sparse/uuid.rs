//! Sparse dual numbers keyed by freshly generated 128-bit keys, so that
//! independently seeded variables get distinct derivative slots without
//! any shared counter.

use vstd::prelude::*;

use crate::fluid::Value;
use crate::solid::sparse::Grad;

verus! {

/// Sparse dual number keyed by generated 128-bit keys.
pub type DualNumber<V> = crate::solid::sparse::DualNumber<V, u128>;

/// Relies on `uuid::Uuid::new_v4`, a randomly generated version-4 UUID,
/// for a fresh 128-bit key.  The result is random: nothing is assumed
/// about which key comes back.
#[verifier::external_body]
fn fresh_key() -> u128 {
    uuid::Uuid::new_v4().as_u128()
}

/// Create an independent variable with a sparse derivative: the value is
/// kept, and the derivative carries coefficient one under a single freshly
/// generated key.
pub trait IntoVariable: Value {
    /// Create an independent variable from this value.
    fn into_variable(self) -> (r: DualNumber<Self>)
        ensures
            r.value == self,
            exists|key: u128|
                r.dual.map_spec() == Map::<u128, Self>::empty().insert(key, Self::one_spec()),
    ;
}

impl<V: Value> IntoVariable for V {
    fn into_variable(self) -> (r: DualNumber<V>) {
        let key: u128 = fresh_key();
        let dual: Grad<u128, V> = Grad::singleton(key, V::one());
        let r: DualNumber<V> = crate::solid::DualNumber { value: self, dual };
        proof {
            assert(r.dual.map_spec() == Map::<u128, V>::empty().insert(key, V::one_spec()));
        }
        r
    }
}

} // verus!
