use snake_tuner::activation::{ActivationFunction, ReLu, Sigmoid};
use snake_tuner::fixed::{Fx, FRAC, HALF};

fn fx(raw: i64) -> Fx {
    Fx { raw }
}

/// Expected fixed-point product, truncating toward zero.
fn mul_expect(a: i64, b: i64) -> i64 {
    let p = a as i128 * b as i128;
    let q = p.abs() / FRAC as i128;
    (if p < 0 { -q } else { q }) as i64
}

#[test]
fn sigmoid_midpoint_and_symmetry() {
    assert_eq!(Sigmoid::evaluate(fx(0)), fx(HALF));
    // sigmoid(1) = 3/4 and sigmoid(-1) = 1/4, exactly, for the
    // algebraic sigmoid 1/2 + x / (2 * (1 + |x|)).
    assert_eq!(Sigmoid::evaluate(fx(FRAC)), fx(3 * FRAC / 4));
    assert_eq!(Sigmoid::evaluate(fx(-FRAC)), fx(FRAC / 4));
}

#[test]
fn sigmoid_saturates_inside_unit_interval() {
    // Even for the most extreme raw inputs the output stays strictly
    // between 0 and 1.
    let hi = Sigmoid::evaluate(fx(i64::MAX));
    let lo = Sigmoid::evaluate(fx(-i64::MAX));
    assert!(0 < lo.raw && lo.raw < hi.raw && hi.raw < FRAC);
    assert!(hi.raw > FRAC - 3);
    assert!(lo.raw < 3);
}

#[test]
fn sigmoid_is_monotone_on_samples() {
    let xs = [-40 * FRAC, -3 * FRAC, -FRAC, -1000, 0, 1000, FRAC, 3 * FRAC, 40 * FRAC];
    let mut prev = None;
    for &x in xs.iter() {
        let y = Sigmoid::evaluate(fx(x)).raw;
        if let Some(p) = prev {
            assert!(p < y);
        }
        prev = Some(y);
    }
}

#[test]
fn sigmoid_derivative_identity() {
    // For y = sigmoid(x), derivative(y) == y * (1 - y), exactly in
    // fixed-point arithmetic, including large-magnitude (saturating) x.
    let xs = [
        0,
        1,
        -1,
        HALF,
        -HALF,
        FRAC,
        -FRAC,
        7 * FRAC,
        -7 * FRAC,
        1000 * FRAC,
        -1000 * FRAC,
        i64::MAX,
        -i64::MAX,
    ];
    for &x in xs.iter() {
        let y = Sigmoid::evaluate(fx(x));
        let d = Sigmoid::derivative(y);
        assert_eq!(d.raw, mul_expect(y.raw, FRAC - y.raw));
    }
}

#[test]
fn sigmoid_derivative_on_raw_values() {
    // The derivative convention applies to whatever the caller passes:
    // derivative(v) == v * (1 - v) for any v, not only sigmoid outputs.
    for &v in [-2 * FRAC, -1, 0, 1, HALF, FRAC, 2 * FRAC].iter() {
        assert_eq!(Sigmoid::derivative(fx(v)).raw, mul_expect(v, FRAC - v));
    }
}

#[test]
fn relu_evaluate() {
    assert_eq!(ReLu::evaluate(fx(5 * FRAC)), fx(5 * FRAC));
    assert_eq!(ReLu::evaluate(fx(1)), fx(1));
    assert_eq!(ReLu::evaluate(fx(0)), fx(0));
    assert_eq!(ReLu::evaluate(fx(-1)), fx(0));
    assert_eq!(ReLu::evaluate(fx(-3 * FRAC)), fx(0));
}

#[test]
fn relu_derivative() {
    assert_eq!(ReLu::derivative(fx(2 * FRAC)), fx(FRAC));
    assert_eq!(ReLu::derivative(fx(0)), fx(FRAC));
    assert_eq!(ReLu::derivative(fx(-1)), fx(0));
}

#[test]
fn fixed_point_arithmetic() {
    // Saturating addition and subtraction at the symmetric bound.
    assert_eq!(fx(i64::MAX).add(fx(1)).raw, i64::MAX);
    assert_eq!(fx(-i64::MAX).sub(fx(1)).raw, -i64::MAX);
    assert_eq!(fx(3 * FRAC).add(fx(-FRAC)), fx(2 * FRAC));
    // Multiplication rescales and truncates toward zero.
    assert_eq!(fx(HALF).mul(fx(HALF)), fx(FRAC / 4));
    assert_eq!(fx(-1).mul(fx(1)), fx(0));
    assert_eq!(fx(-3 * FRAC).mul(fx(HALF)), fx(-3 * HALF));
    // Division by a count truncates toward zero.
    assert_eq!(fx(-7).div_count(2), fx(-3));
    assert_eq!(fx(7).div_count(2), fx(3));
    // Negation.
    assert_eq!(fx(5).neg(), fx(-5));
    assert_eq!(fx(i64::MIN).neg().raw, i64::MAX);
}
