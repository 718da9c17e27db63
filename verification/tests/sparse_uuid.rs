//! Seeding sparse variables with freshly generated keys.

use autodj::fixed::Fixed;
use autodj::fluid::Dual;
use autodj::solid::sparse::uuid::IntoVariable as IntoSparseVariable;

fn fx(raw: i64) -> Fixed {
    Fixed::from_millionths(raw)
}

#[test]
fn sparse_variable_gets_one_fresh_key() {
    let x = IntoSparseVariable::into_variable(fx(4_000_000));
    assert_eq!(x.value().millionths(), 4_000_000);
    assert_eq!(x.dual().key_count(), 1);
    let y = IntoSparseVariable::into_variable(fx(6_000_000));
    let f = x.mul_impl(&y);
    // the product of two independently seeded variables carries both keys
    assert_eq!(f.value().millionths(), 24_000_000);
    assert_eq!(f.dual().key_count(), 2);
}

