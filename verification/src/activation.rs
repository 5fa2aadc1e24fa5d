//! Activation functions.
//!
//! An [`ActivationFunction`] is a stateless pair of pure functions: the
//! forward nonlinearity and the local derivative used in
//! back-propagation. Two standard instances are provided, [`Sigmoid`]
//! and [`ReLu`].

use vstd::prelude::*;

use crate::fixed::{abs_to_u64, mag, mul_raw, sub_raw, Fx, FRAC, HALF};

verus! {

/// A pluggable nonlinearity with its paired derivative.
///
/// Both operations are pure: each result is pinned by a spec function of
/// the raw argument alone.
pub trait ActivationFunction: Sized {
    /// Raw value of the forward nonlinearity.
    spec fn eval_spec(x: int) -> int;

    /// Raw value of the local derivative used in back-propagation.
    spec fn deriv_spec(x: int) -> int;

    /// Evaluate the function.
    fn evaluate(value: Fx) -> (r: Fx)
        ensures
            r.raw as int == Self::eval_spec(value.raw as int),
    ;

    /// Evaluate the derivative of the function.
    fn derivative(value: Fx) -> (r: Fx)
        ensures
            r.raw as int == Self::deriv_spec(value.raw as int),
    ;
}

/// Raw value of the sigmoid-shaped curve `1/2 + x / (2 * (1 + |x|))`.
///
/// This is the algebraic sigmoid: it is 1/2 at zero, strictly
/// increasing, and saturates toward 0 and 1, computed exactly in
/// fixed-point arithmetic (the quotient truncates toward zero).
pub open spec fn sigmoid_raw(x: int) -> int {
    let q = (mag(x) * (FRAC as int)) / (2 * ((FRAC as int) + mag(x)));
    if x >= 0 {
        HALF as int + q
    } else {
        HALF as int - q
    }
}

/// Sigmoid activation function.
///
/// `derivative` is evaluated on the already-activated output: the caller
/// passes `y = evaluate(x)` and gets back `y * (1 - y)`, which avoids
/// recomputing the forward pass.
#[derive(Clone, Copy, PartialEq, Eq, Structural, Debug)]
pub struct Sigmoid;

impl ActivationFunction for Sigmoid {
    open spec fn eval_spec(x: int) -> int {
        sigmoid_raw(x)
    }

    open spec fn deriv_spec(x: int) -> int {
        mul_raw(x, sub_raw(FRAC as int, x))
    }

    fn evaluate(value: Fx) -> (r: Fx)
        ensures
            r.raw as int == Self::eval_spec(value.raw as int),
    {
        let ghost xi = value.raw as int;
        let ax = abs_to_u64(value.raw);
        proof {
            assert((ax as int) * (FRAC as int) <= 0xffff_ffff_ffff_ffffint * (FRAC as int))
                by (nonlinear_arith)
                requires
                    0 <= ax as int <= 0xffff_ffff_ffff_ffffint,
            ;
        }
        let num: u128 = (ax as u128) * (FRAC as u128);
        let den: u128 = 2 * ((FRAC as u128) + (ax as u128));
        let q: u128 = num / den;
        proof {
            assert(num as int == mag(xi) * (FRAC as int));
            assert(den as int == 2 * ((FRAC as int) + mag(xi)));
            assert(mag(xi) * (FRAC as int) < (2 * ((FRAC as int) + mag(xi))) * (HALF as int))
                by (nonlinear_arith)
                requires
                    mag(xi) >= 0,
            ;
            vstd::arithmetic::div_mod::lemma_multiply_divide_lt(
                mag(xi) * (FRAC as int),
                2 * ((FRAC as int) + mag(xi)),
                HALF as int,
            );
            assert(q as int == (mag(xi) * (FRAC as int)) / (2 * ((FRAC as int) + mag(xi))));
            assert(q < HALF as u128);
        }
        let qi = q as i64;
        if value.raw >= 0 {
            Fx { raw: HALF + qi }
        } else {
            Fx { raw: HALF - qi }
        }
    }

    fn derivative(value: Fx) -> (r: Fx)
        ensures
            r.raw as int == Self::deriv_spec(value.raw as int),
    {
        value.mul(Fx { raw: FRAC }.sub(value))
    }
}

/// The sigmoid derivative identity: for any already-activated output
/// `y`, the derivative the optimizer uses equals `y * (1 - y)`, exactly,
/// in the library's fixed-point arithmetic.
pub proof fn lemma_sigmoid_derivative_identity(x: int)
    ensures
        Sigmoid::deriv_spec(Sigmoid::eval_spec(x)) == mul_raw(
            Sigmoid::eval_spec(x),
            sub_raw(FRAC as int, Sigmoid::eval_spec(x)),
        ),
{
}

/// Every sigmoid output lies strictly between 0 and 1.
pub proof fn lemma_sigmoid_output_range(x: int)
    ensures
        0 < sigmoid_raw(x) < FRAC as int,
{
    assert(mag(x) * (FRAC as int) < (2 * ((FRAC as int) + mag(x))) * (HALF as int))
        by (nonlinear_arith)
        requires
            mag(x) >= 0,
    ;
    vstd::arithmetic::div_mod::lemma_multiply_divide_lt(
        mag(x) * (FRAC as int),
        2 * ((FRAC as int) + mag(x)),
        HALF as int,
    );
    assert(mag(x) * (FRAC as int) >= 0) by (nonlinear_arith)
        requires
            mag(x) >= 0,
    ;
    vstd::arithmetic::div_mod::lemma_div_pos_is_pos(
        mag(x) * (FRAC as int),
        2 * ((FRAC as int) + mag(x)),
    );
}

/// Rectified-linear activation function: `max(0, x)`, whose derivative
/// is 1 for `x >= 0` and 0 otherwise.
#[derive(Clone, Copy, PartialEq, Eq, Structural, Debug)]
pub struct ReLu;

impl ActivationFunction for ReLu {
    open spec fn eval_spec(x: int) -> int {
        if x >= 0 {
            x
        } else {
            0
        }
    }

    open spec fn deriv_spec(x: int) -> int {
        if x >= 0 {
            FRAC as int
        } else {
            0
        }
    }

    fn evaluate(value: Fx) -> (r: Fx)
        ensures
            r.raw as int == Self::eval_spec(value.raw as int),
    {
        if value.raw >= 0 {
            value
        } else {
            Fx { raw: 0 }
        }
    }

    fn derivative(value: Fx) -> (r: Fx)
        ensures
            r.raw as int == Self::deriv_spec(value.raw as int),
    {
        if value.raw >= 0 {
            Fx { raw: FRAC }
        } else {
            Fx { raw: 0 }
        }
    }
}

} // verus!
