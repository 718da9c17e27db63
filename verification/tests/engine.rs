//! Integration tests: an ideal-gas residual driven through seeding and
//! evaluation, and folds over dynamically seeded variables.

use autodj::fixed::Fixed;
use autodj::fluid::{Dual, Value};
use autodj::solid::array::{DualNumber as DualArray, IntoVariables as IntoArrayVariables};
use autodj::solid::single::{DualFixed, IntoVariable};
use autodj::solid::vector::{DualNumber as DualVec, IntoVariables as IntoVecVariables};
use autodj::solid::{DualNumber, NoGrad};

fn fx(raw: i64) -> Fixed {
    Fixed::from_millionths(raw)
}

/// One atmosphere, in millionths.
const ATM: i64 = 101_325_000_000;
/// The golden ratio, rounded to a millionth.
const GOLDEN: i64 = 1_618_034;
/// Body temperature in kelvin, in millionths.
const BODY: i64 = 309_750_000;
/// The universal gas constant, in millionths.
const UGC: i64 = 8_314_000;

fn calc_gas_state<D: Dual<Value = Fixed>>(state: [D; 4]) -> D {
    let [pressure, volume, temperature, moles] = state;
    let ugc: D = D::parameter(fx(UGC));
    pressure
        .mul_impl(&volume)
        .sub_impl(&temperature.mul_impl(&moles).mul_impl(&ugc))
}

#[test]
fn moles() {
    let pressure: DualFixed = Dual::parameter(fx(ATM));
    let volume: DualFixed = Dual::parameter(fx(GOLDEN));
    let temperature: DualFixed = Dual::parameter(fx(BODY));

    let moles_initial: Fixed = fx(1_000_000);

    let scalar_func = |m: DualFixed| calc_gas_state([pressure, volume, temperature, m]);

    let initial = moles_initial.into_variable().map(scalar_func);

    let (f, df) = initial.decompose();
    // newton iteration
    let moles = Value::sub(moles_initial, Value::div(f, df));

    let state = moles.into_variable().map(scalar_func);

    println!(
        "\nInitial guess: r({:?}) = {:?}\nUpdate-------: r({:?}) = {:?}",
        moles_initial,
        initial,
        moles,
        state.value()
    );
}

#[test]
fn moles_volume() {
    let pressure: Fixed = fx(ATM);
    let temperature: Fixed = fx(BODY);

    let moles_initial: Fixed = fx(GOLDEN);
    let volume_initial: Fixed = fx(1_000_000);

    let vector_func = |vars: &Vec<DualArray<Fixed, 2>>| {
        calc_gas_state([
            Dual::parameter(pressure),
            vars[1].clone(),
            Dual::parameter(temperature),
            vars[0].clone(),
        ])
    };

    let initial = vector_func(&[moles_initial, volume_initial].into_variables());

    // Newton-like iteration with fixed weights
    let w: Fixed = fx(1_500_000);
    let w_rest: Fixed = Value::sub(fx(1_000_000), w);

    let moles = Value::sub(
        moles_initial,
        Value::div(
            Value::mul(w, *initial.value()),
            initial.dual().as_partials()[0],
        ),
    );
    let volume = Value::sub(
        volume_initial,
        Value::div(
            Value::mul(w_rest, *initial.value()),
            initial.dual().as_partials()[1],
        ),
    );

    let update = vector_func(&[moles, volume].into_variables());

    println!(
        "\nInitial guess: r({:?}, {:?}) = {:?}\nUpdate-------: r({:?}, {:?}) = {:?}",
        moles_initial,
        volume_initial,
        initial,
        moles,
        volume,
        update.value()
    );
}

#[test]
fn vector_multiple() {
    fn sqps(x: &[DualVec<Fixed>]) -> DualVec<Fixed> {
        x.iter()
            .map(|x| {
                x.powf(fx(2_000_000))
                    .add_impl(&Dual::parameter(fx(1_000_000)))
            })
            .reduce(|a, b| a.add_impl(&b))
            .expect("nonzero slice length")
    }
    let x = vec![fx(1_000_000), fx(2_000_000), fx(3_000_000)];
    let result = sqps(x.clone().into_variables().as_slice());
    println!("f{x:?} = {result:?}");
    assert_eq!(result.value().millionths(), 17_000_000);
    assert_eq!(
        result
            .dual()
            .as_partials()
            .iter()
            .map(|v| v.millionths())
            .collect::<Vec<i64>>(),
        vec![2_000_000, 4_000_000, 6_000_000]
    );
}

#[test]
fn sum() {
    let x = vec![
        fx(1_000_000),
        fx(2_000_000),
        fx(3_000_000),
        fx(4_000_000),
        fx(5_000_000),
    ];

    let reference: i64 = x.iter().map(|v| v.millionths()).sum();
    println!("f(x) = sum x_i = {}", reference);

    let result: DualVec<Fixed> = x
        .clone()
        .into_variables()
        .into_iter()
        .reduce(|a, b| a.add_impl(&b))
        .expect("nonzero slice length");
    println!("f({x:?}) = {result:?}");

    assert_eq!(result.value().millionths(), reference);
}

#[test]
fn product() {
    let x = vec![
        fx(1_000_000),
        fx(2_000_000),
        fx(3_000_000),
        fx(4_000_000),
        fx(5_000_000),
    ];

    let reference: i64 = 120_000_000;
    println!("f(x) = prod x_i = {}", reference);

    let result = x
        .clone()
        .into_variables()
        .into_iter()
        .reduce(|a, b| a.mul_impl(&b));
    println!("f({x:?}) = {result:?}");

    assert_eq!(
        result.map(|result| result.value().millionths()),
        Some(reference)
    );
}

#[test]
fn product_owned() {
    let zero = [fx(1_000_000), fx(2_000_000), fx(3_000_000)]
        .into_variables()
        .iter()
        .map(|x| x.sub_impl(&Dual::parameter(fx(1_000_000))))
        .reduce(|a, b| a.mul_impl(&b));

    assert_eq!(zero.map(|result| result.value().millionths()), Some(0));
}

#[test]
fn shifted_partial() {
    fn shifted_product(x: &[DualVec<Fixed>], threshold: Fixed) -> Option<DualVec<Fixed>> {
        x.iter()
            .filter(|x| Value::lt(*x.value(), threshold))
            .map(|x| x.sub_impl(&Dual::parameter(fx(1_000_000))))
            .reduce(|a, b| a.mul_impl(&b))
    }

    let values = vec![fx(2_000_000), fx(3_000_000), fx(5_000_000), fx(8_000_000)];
    let variables = values.clone().into_variables();
    let f = shifted_product(variables.as_slice(), fx(6_000_000)).expect("At least two variables");
    println!("f({:?}) = {:?}", values, f);
    assert_eq!(f.value().millionths(), 8_000_000);
    assert_eq!(f.dual().as_partials().len(), variables.len());
    assert_eq!(
        f.dual().as_partials().last().map(|v| v.millionths()),
        Some(0)
    );
}

#[test]
fn test_div() {
    let variables = vec![fx(1_000_000), fx(2_000_000)].into_variables();
    let x = &variables[0];
    let y = &variables[1];

    let (f, df) = (x.div_impl(y)).decompose();
    assert_eq!(
        df.as_partials()
            .iter()
            .map(|v| v.millionths())
            .collect::<Vec<i64>>(),
        vec![500_000, -250_000]
    );
    assert_eq!(f.millionths(), 500_000);
}

#[test]
fn undifferentiated_reference_run() {
    // the same generic residual body runs on the degenerate derivative,
    // giving a plain reference computation with the same value channel
    let plain: DualNumber<Fixed, NoGrad> = calc_gas_state([
        Dual::parameter(fx(ATM)),
        Dual::parameter(fx(GOLDEN)),
        Dual::parameter(fx(BODY)),
        Dual::parameter(fx(1_000_000)),
    ]);

    let seeded = calc_gas_state([
        Dual::parameter(fx(ATM)),
        Dual::parameter(fx(GOLDEN)),
        Dual::parameter(fx(BODY)),
        fx(1_000_000).into_variable(),
    ]);

    assert_eq!(plain.value().millionths(), seeded.value().millionths());
}
