//! The worked examples of the `autodiff` crate, reproduced with this
//! library and compared against that crate's results.

use autodiff::{F, F1};
use autodj::fixed::Fixed;
use autodj::fluid::Dual;
use autodj::solid::array::{DualNumber, IntoVariables};
use autodj::solid::single::{DualFixed, IntoVariable};

fn fx(raw: i64) -> Fixed {
    Fixed::from_millionths(raw)
}

fn as_f64(v: Fixed) -> f64 {
    v.millionths() as f64 / 1e6
}

#[test]
fn quadratic() {
    let x: f64 = 0.0;

    let autodiff = {
        let f = |x: F1| -> F1 { (x - 1.0f64).pow(2.0) };
        let dfdx = f(F1::var(x));
        dfdx.deriv()
    };

    let autodj = {
        fn calculate_quadratic(x: DualFixed) -> DualFixed {
            let shift: DualFixed = Dual::parameter(Fixed::from_millionths(1_000_000));
            x.sub_impl(&shift).powf(Fixed::from_millionths(2_000_000))
        }
        fx(0).into_variable().map(calculate_quadratic)
    };

    assert_eq!(as_f64(*autodj.dual()), autodiff);

    println!(
        r#"
----------f(x) = (x - 1)^2
autodiff: df/dx = {autodiff} at x = {x}
autodj  : f({x}) = {autodj:?}"#
    );
}

#[test]
fn multi_quadratic() {
    let x: f64 = 0.0;
    let y: f64 = 0.0;

    let autodiff = {
        let f = |x: F1, y: F1| -> F1 { (x - 1.0f64) * (2. * y - 1.0f64) };

        let dfdx = f(F1::var(x), F::cst(y));
        let dfdy = f(F::cst(x), F1::var(y));

        [dfdx.deriv(), dfdy.deriv()]
    };

    let autodj = {
        fn calculate_multi_quadratic(vars: &[DualNumber<Fixed, 2>]) -> DualNumber<Fixed, 2> {
            let shift: DualNumber<Fixed, 2> = Dual::parameter(Fixed::from_millionths(1_000_000));
            let two: DualNumber<Fixed, 2> = Dual::parameter(Fixed::from_millionths(2_000_000));
            vars[0]
                .sub_impl(&shift)
                .mul_impl(&vars[1].mul_impl(&two).sub_impl(&shift))
        }
        calculate_multi_quadratic(&[fx(0), fx(0)].into_variables())
    };

    let got: Vec<f64> = autodj
        .dual()
        .as_partials()
        .iter()
        .map(|v| as_f64(*v))
        .collect();
    assert_eq!(got.as_slice(), &autodiff);

    println!(
        r#"
----------f(x,y) = (x - 1) * (2 * y - 1)
autodiff: df/dx = {} and df/dy = {} at x = {}, y = {}
autodj  : f({:?}) = {:?}"#,
        autodiff[0],
        autodiff[1],
        x,
        y,
        [x, y],
        autodj
    );
}
