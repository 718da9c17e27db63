//! Tests of the dynamic-vector derivative storage.

use autodj::fixed::Fixed;
use autodj::fluid::Grad as GradOps;
use autodj::fluid::Value;
use autodj::solid::vector::Grad;

fn fx(raw: i64) -> Fixed {
    Fixed::from_millionths(raw)
}

#[test]
fn vector_div() {
    let a = Grad::from_partials(vec![fx(1_000_000), fx(2_000_000), fx(3_000_000)]);
    let half = Value::div(fx(1_000_000), fx(2_000_000));
    let b = GradOps::mul(a, half);
    assert_eq!(
        b,
        Grad::from_partials(vec![fx(500_000), fx(1_000_000), fx(1_500_000)])
    );
}

#[test]
fn vector_neg() {
    let a = Grad::from_partials(vec![fx(-1_000_000), fx(2_000_000), fx(0)]);
    let b = GradOps::neg(a);
    assert_eq!(
        b,
        Grad::from_partials(vec![fx(1_000_000), fx(-2_000_000), fx(0)])
    );
}

#[test]
fn vector_add_assign() {
    let a = Grad::from_partials(vec![fx(1_000_000), fx(2_000_000), fx(3_000_000)]);
    let mut b = Grad::from_partials(vec![fx(500_000), fx(1_000_000)]);
    GradOps::add_assign(&mut b, a);
    assert_eq!(
        b,
        Grad::from_partials(vec![fx(1_500_000), fx(3_000_000), fx(3_000_000)])
    );
}

#[test]
fn vector_add_assign_same_len() {
    let a = Grad::from_partials(vec![fx(1_000_000), fx(2_000_000), fx(3_000_000)]);
    let mut b = Grad::from_partials(vec![fx(500_000), fx(1_000_000), fx(1_500_000)]);
    GradOps::add_assign(&mut b, a);
    assert_eq!(
        b,
        Grad::from_partials(vec![fx(1_500_000), fx(3_000_000), fx(4_500_000)])
    );
}

#[test]
fn vector_extension_pads_shorter() {
    // combining length-2 and length-3 derivatives yields a length-3 result
    // equal to zero-padding the shorter one first, then adding
    let short = Grad::from_partials(vec![fx(1_000_000), fx(2_000_000)]);
    let long = Grad::from_partials(vec![fx(10_000_000), fx(20_000_000), fx(30_000_000)]);
    let merged = GradOps::add(short, long);
    let padded = Grad::from_partials(vec![fx(1_000_000), fx(2_000_000), fx(0)]);
    let long_again = Grad::from_partials(vec![fx(10_000_000), fx(20_000_000), fx(30_000_000)]);
    let expected = GradOps::add(padded, long_again);
    assert_eq!(merged.as_partials().len(), 3);
    assert_eq!(merged, expected);
    assert_eq!(
        merged,
        Grad::from_partials(vec![fx(11_000_000), fx(22_000_000), fx(30_000_000)])
    );
}

#[test]
fn vector_zero_is_empty() {
    let z: Grad<Fixed> = GradOps::zero();
    assert_eq!(z.as_partials().len(), 0);
    // the empty derivative acts as all-zero under the extension rule
    let a = Grad::from_partials(vec![fx(7_000_000), fx(-4_000_000)]);
    let sum = GradOps::add(GradOps::zero(), a);
    assert_eq!(
        sum,
        Grad::from_partials(vec![fx(7_000_000), fx(-4_000_000)])
    );
}

#[test]
fn vector_eq_grad() {
    let a = Grad::from_partials(vec![fx(1_000_000), fx(2_000_000)]);
    let b = Grad::from_partials(vec![fx(1_000_000), fx(2_000_000)]);
    let c = Grad::from_partials(vec![fx(1_000_000), fx(3_000_000)]);
    let d = Grad::from_partials(vec![fx(1_000_000)]);
    assert!(GradOps::eq_grad(&a, &b));
    assert!(!GradOps::eq_grad(&a, &c));
    assert!(!GradOps::eq_grad(&a, &d));
}
