//! Scenario tests: the calculus rules on concrete inputs, the seeding
//! protocol, sparse merging, and the edge behaviour of the fixed-point
//! carrier.

use autodj::fixed::Fixed;
use autodj::fluid::Grad as GradOps;
use autodj::fluid::{Dual, Value};
use autodj::solid::array::IntoVariables as IntoArrayVariables;
use autodj::solid::single::{DualFixed, IntoVariable};
use autodj::solid::sparse::Grad as SparseGrad;
use autodj::solid::vector::IntoVariables as IntoVecVariables;

fn fx(raw: i64) -> Fixed {
    Fixed::from_millionths(raw)
}

#[test]
fn scalar_newton_step() {
    // f(x) = (x - 1)^2 seeded at x = 0: value 1, derivative -2,
    // and the Newton step x - f/f' lands at one half
    let x: DualFixed = fx(0).into_variable();
    let shift: DualFixed = Dual::parameter(fx(1_000_000));
    let f = x.sub_impl(&shift).powf(fx(2_000_000));
    assert_eq!(f.value().millionths(), 1_000_000);
    assert_eq!(f.dual().millionths(), -2_000_000);
    let step = Value::sub(fx(0), Value::div(*f.value(), *f.dual()));
    assert_eq!(step.millionths(), 500_000);
}

#[test]
fn ideal_gas_residual() {
    // r(P,V,n,T) = P*V - n*T at P=1, V=1.618, n=1, T=300, seeded on P
    let p: DualFixed = fx(1_000_000).into_variable();
    let v: DualFixed = Dual::parameter(fx(1_618_000));
    let n: DualFixed = Dual::parameter(fx(1_000_000));
    let t: DualFixed = Dual::parameter(fx(300_000_000));
    let r = p.mul_impl(&v).sub_impl(&n.mul_impl(&t));
    assert_eq!(r.value().millionths(), -298_382_000);
    assert_eq!(r.dual().millionths(), 1_618_000);
}

#[test]
fn two_variable_gradient() {
    // f(x,y) = (x - 1) * (2*y - 1) at x = 0, y = 0: value 1, gradient [-1, -2]
    let vars = [fx(0), fx(0)].into_variables();
    let shift = Dual::parameter(fx(1_000_000));
    let two = Dual::parameter(fx(2_000_000));
    let f = vars[0]
        .sub_impl(&shift)
        .mul_impl(&vars[1].mul_impl(&two).sub_impl(&shift));
    assert_eq!(f.value().millionths(), 1_000_000);
    assert_eq!(
        f.dual()
            .as_partials()
            .iter()
            .map(|v| v.millionths())
            .collect::<Vec<i64>>(),
        vec![-1_000_000, -2_000_000]
    );
}

#[test]
fn seeding_yields_identity_matrix() {
    let values = [fx(7_000_000), fx(-3_000_000), fx(500_000)];
    let vars = values.into_variables();
    assert_eq!(vars.len(), 3);
    for (i, var) in vars.iter().enumerate() {
        assert_eq!(var.value().millionths(), values[i].millionths());
        let row: Vec<i64> = var
            .dual()
            .as_partials()
            .iter()
            .map(|v| v.millionths())
            .collect();
        let expected: Vec<i64> = (0..3)
            .map(|j| if j == i { 1_000_000 } else { 0 })
            .collect();
        assert_eq!(row, expected);
    }
}

#[test]
fn seeding_vector_yields_identity_matrix() {
    let values = vec![fx(1_000_000), fx(2_000_000)];
    let vars = values.into_variables();
    assert_eq!(vars.len(), 2);
    for (i, var) in vars.iter().enumerate() {
        let row: Vec<i64> = var
            .dual()
            .as_partials()
            .iter()
            .map(|v| v.millionths())
            .collect();
        let expected: Vec<i64> = (0..2)
            .map(|j| if j == i { 1_000_000 } else { 0 })
            .collect();
        assert_eq!(row, expected);
    }
}

#[test]
fn sparse_merge_any_order() {
    // merging {A:1}, {B:2}, {A:3} in any order yields {A:4, B:2}
    let key_a: u64 = 10;
    let key_b: u64 = 20;
    let parts = || {
        (
            SparseGrad::singleton(key_a, fx(1_000_000)),
            SparseGrad::singleton(key_b, fx(2_000_000)),
            SparseGrad::singleton(key_a, fx(3_000_000)),
        )
    };

    let check = |g: SparseGrad<u64, Fixed>| {
        assert_eq!(g.key_count(), 2);
        assert_eq!(g.partial_for(key_a).millionths(), 4_000_000);
        assert_eq!(g.partial_for(key_b).millionths(), 2_000_000);
    };

    let (a, b, c) = parts();
    let left = GradOps::add(GradOps::add(a, b), c);
    check(GradOps::duplicate(&left));

    let (a, b, c) = parts();
    let right = GradOps::add(a, GradOps::add(b, c));
    assert!(GradOps::eq_grad(&left, &right));
    check(right);

    let (a, b, c) = parts();
    let swapped = GradOps::add(c, GradOps::add(b, a));
    assert!(GradOps::eq_grad(&left, &swapped));
    check(swapped);
}

#[test]
fn sparse_keeps_zero_sums() {
    // a key summing to exactly zero stays in the mapping
    let key: u64 = 5;
    let a = SparseGrad::singleton(key, fx(2_500_000));
    let b = SparseGrad::singleton(key, fx(-2_500_000));
    let merged = GradOps::add(a, b);
    assert_eq!(merged.key_count(), 1);
    assert_eq!(merged.partial_for(key).millionths(), 0);
}

#[test]
fn chain_rule_elementary() {
    // exp at 0: value 1, derivative exp(0) * seed
    let x: DualFixed = fx(0).into_variable();
    let e = x.exp();
    assert_eq!(e.value().millionths(), 1_000_000);
    assert_eq!(e.dual().millionths(), 1_000_000);

    // sin at 0: value 0, derivative cos(0) = 1; cos at 0: value 1, derivative 0
    let s = x.sin();
    assert_eq!(s.value().millionths(), 0);
    assert_eq!(s.dual().millionths(), 1_000_000);
    let c = x.cos();
    assert_eq!(c.value().millionths(), 1_000_000);
    assert_eq!(c.dual().millionths(), 0);

    // the fused evaluation agrees with the separate ones
    let (s2, c2) = x.sin_cos();
    assert_eq!(s2, s);
    assert_eq!(c2, c);

    // ln at 1: value 0, derivative 1/1
    let one: DualFixed = fx(1_000_000).into_variable();
    let l = one.ln();
    assert_eq!(l.value().millionths(), 0);
    assert_eq!(l.dual().millionths(), 1_000_000);

    // a non-unit seed scales the derivative by the chain factor
    let seeded: DualFixed = Dual::new(fx(0), fx(3_000_000));
    let e3 = seeded.exp();
    assert_eq!(e3.dual().millionths(), 3_000_000);
}

#[test]
fn abs_and_signum_convention() {
    let neg: DualFixed = fx(-3_000_000).into_variable();
    let a = neg.abs();
    assert_eq!(a.value().millionths(), 3_000_000);
    assert_eq!(a.dual().millionths(), -1_000_000);

    let pos: DualFixed = fx(2_000_000).into_variable();
    assert_eq!(pos.abs().dual().millionths(), 1_000_000);

    // the derivative of the absolute value at zero is zero by convention
    let zero: DualFixed = fx(0).into_variable();
    assert_eq!(zero.abs().value().millionths(), 0);
    assert_eq!(zero.abs().dual().millionths(), 0);

    let sg = neg.signum();
    assert_eq!(sg.value().millionths(), -1_000_000);
    assert_eq!(sg.dual().millionths(), 0);
}

#[test]
fn reciprocal_and_quotient() {
    // recip value is one over the value, and its derivative is -1/x^2
    let x: DualFixed = fx(4_000_000).into_variable();
    let r = x.recip();
    assert_eq!(
        r.value().millionths(),
        Value::div(fx(1_000_000), fx(4_000_000)).millionths()
    );
    assert_eq!(r.value().millionths(), 250_000);
    assert_eq!(r.dual().millionths(), -62_500);

    // the quotient rule on plain division agrees
    let one_param: DualFixed = Dual::parameter(fx(1_000_000));
    let q = one_param.div_impl(&x);
    assert_eq!(q.value().millionths(), 250_000);
    assert_eq!(q.dual().millionths(), -62_500);
}

#[test]
fn powi_matches_whole_power() {
    let x: DualFixed = fx(3_000_000).into_variable();
    let f = x.powi(2);
    assert_eq!(f.value().millionths(), 9_000_000);
    assert_eq!(f.dual().millionths(), 6_000_000);
    let g = x.powi(-1);
    assert_eq!(g.value().millionths(), 333_333);
}

#[test]
fn fixed_edge_behaviour() {
    // addition wraps around the raw 64-bit range
    let top = fx(i64::MAX);
    let wrapped = Value::add(top, fx(1));
    assert_eq!(wrapped.millionths(), i64::MIN);

    // multiplication saturates at the range ends
    let big = Value::mul(top, top);
    assert_eq!(big.millionths(), i64::MAX);
    let small = Value::mul(top, fx(i64::MIN));
    assert_eq!(small.millionths(), i64::MIN);

    // division by zero yields zero, never a trap
    assert_eq!(Value::div(fx(5_000_000), fx(0)).millionths(), 0);

    // truncation rounds toward zero for both signs
    assert_eq!(Value::div(fx(1_000_000), fx(3_000_000)).millionths(), 333_333);
    assert_eq!(
        Value::div(fx(-1_000_000), fx(3_000_000)).millionths(),
        -333_333
    );
}

#[test]
fn parameter_has_zero_derivative() {
    let p: DualFixed = Dual::parameter(fx(42_000_000));
    assert_eq!(p.value().millionths(), 42_000_000);
    assert_eq!(p.dual().millionths(), 0);
    // a differentiation constant contributes nothing to any derivative
    let x: DualFixed = fx(2_000_000).into_variable();
    let f = x.mul_impl(&p);
    assert_eq!(f.value().millionths(), 84_000_000);
    assert_eq!(f.dual().millionths(), 42_000_000);
}

#[test]
fn in_place_operations_match() {
    let x: DualFixed = fx(2_000_000).into_variable();
    let y: DualFixed = Dual::parameter(fx(3_000_000));

    let mut a = x;
    a.add_assign_impl(&y);
    assert_eq!(a, x.add_impl(&y));

    let mut m = x;
    m.mul_assign_impl(&y);
    assert_eq!(m, x.mul_impl(&y));

    let mut s = x;
    s.sub_assign_impl(&y);
    assert_eq!(s, x.sub_impl(&y));

    let mut d = x;
    d.div_assign_impl(&y);
    assert_eq!(d, x.div_impl(&y));

    assert_eq!(x.neg_impl().value().millionths(), -2_000_000);
    assert_eq!(x.neg_impl().dual().millionths(), -1_000_000);
}

#[test]
fn mutable_accessors() {
    let mut x: DualFixed = fx(1_000_000).into_variable();
    *x.value_mut() = fx(2_000_000);
    assert_eq!(x.value().millionths(), 2_000_000);
    assert_eq!(x.dual().millionths(), 1_000_000);
    *x.dual_mut() = fx(0);
    assert_eq!(x.dual().millionths(), 0);
}
