//! The trainable-evaluation abstraction and the linear model.
//!
//! An [`Eval`] owns a weight vector, evaluates inputs against it, and
//! accepts additive weight updates from an optimizer. [`Linear`] is the
//! single-unit model: its forward pass is the dot product of the
//! coefficients with the weights, so the derivative of the output with
//! respect to each weight is the matching coefficient.

use vstd::prelude::*;

use crate::activation::ActivationFunction;
use crate::fixed::{Fx, FRAC};
use crate::linalg::{add_vec_raw, copy_vec, dot, dot_raw, raws, vec_add};
use crate::random::rand_unit_raw;

verus! {

/// A trainable evaluation with the capability pair the optimizer needs:
/// a forward pass and an additive weight update.
pub trait Eval<A: ActivationFunction>: Sized {
    /// Number of coefficients a forward pass consumes.
    spec fn coeff_dim(&self) -> int;

    /// Number of trainable weights.
    spec fn weight_dim(&self) -> int;

    /// Raw values of the trainable weights.
    spec fn weights_spec(&self) -> Seq<int>;

    /// Raw result of the forward pass on the given raw coefficients.
    spec fn forward_spec(&self, coefficients: Seq<int>) -> int;

    /// Raw derivative of the forward pass with respect to each weight.
    spec fn derivative_vector_spec(&self, coefficients: Seq<int>) -> Seq<int>;

    /// The weight vector has length `weight_dim`, and both dimensions
    /// are nonnegative.
    proof fn lemma_dims(&self)
        ensures
            self.weights_spec().len() == self.weight_dim(),
            self.weight_dim() >= 0,
            self.coeff_dim() >= 0,
    ;

    /// The derivative vector of a well-sized coefficient vector has one
    /// entry per weight.
    proof fn lemma_derivative_vector_len(&self, coefficients: Seq<int>)
        requires
            coefficients.len() == self.coeff_dim(),
        ensures
            self.derivative_vector_spec(coefficients).len() == self.weight_dim(),
    ;

    /// The activation function paired with this evaluation.
    fn activation_fn(&self) -> A;

    /// Number of coefficients a forward pass consumes.
    fn coeff_count(&self) -> (n: usize)
        ensures
            n as int == self.coeff_dim(),
    ;

    /// Number of trainable weights.
    fn weight_count(&self) -> (n: usize)
        ensures
            n as int == self.weight_dim(),
    ;

    /// Forward pass: evaluate the coefficients against the weights.
    fn forward(&self, coefficients: &Vec<Fx>) -> (r: Fx)
        requires
            coefficients@.len() == self.coeff_dim(),
        ensures
            r.raw as int == self.forward_spec(raws(coefficients@)),
    ;

    /// Add the given delta vector to the weights, in place. The
    /// dimensions do not change.
    fn nudge_weights(&mut self, updates: &Vec<Fx>)
        requires
            updates@.len() == old(self).weight_dim(),
        ensures
            final(self).weights_spec() == add_vec_raw(old(self).weights_spec(), raws(updates@)),
            final(self).weight_dim() == old(self).weight_dim(),
            final(self).coeff_dim() == old(self).coeff_dim(),
    ;

    /// Derivative of the forward pass with respect to each weight.
    fn derivative_vector(&self, coefficients: &Vec<Fx>) -> (r: Vec<Fx>)
        requires
            coefficients@.len() == self.coeff_dim(),
        ensures
            raws(r@) == self.derivative_vector_spec(raws(coefficients@)),
    ;
}

/// Linear evaluation: one weight per coefficient, forward pass
/// `dot(coefficients, weights)`.
#[derive(Clone, Debug)]
pub struct Linear<A: ActivationFunction + Clone> {
    weights: Vec<Fx>,
    activate_fn: A,
}

impl<A: ActivationFunction + Clone> Linear<A> {
    /// Create a new linear evaluation with `n` weights drawn uniformly
    /// from `[0, 1]`.
    pub fn new(n: usize, activate_fn: A) -> (r: Linear<A>)
        ensures
            r.weight_dim() == n,
            r.coeff_dim() == n,
            forall|i: int| 0 <= i < n ==> 0 <= #[trigger] r.weights_spec()[i] <= FRAC as int,
    {
        let mut weights: Vec<Fx> = Vec::new();
        let mut i: usize = 0;
        while i < n
            invariant
                i <= n,
                weights@.len() == i,
                forall|k: int| 0 <= k < i ==> 0 <= #[trigger] weights@[k].raw <= FRAC,
            decreases n - i,
        {
            weights.push(Fx { raw: rand_unit_raw() });
            i += 1;
        }
        Linear { weights, activate_fn }
    }

    /// Create a linear evaluation holding exactly the given weights.
    pub fn from_weights(weights: Vec<Fx>, activate_fn: A) -> (r: Linear<A>)
        ensures
            r.weights_spec() == raws(weights@),
            r.weight_dim() == weights@.len(),
            r.coeff_dim() == weights@.len(),
    {
        Linear { weights, activate_fn }
    }

    /// What the abstract evaluation capabilities mean for a linear
    /// model: the dimensions coincide with the weight count, the forward
    /// pass is the dot product with the weights, and the derivative
    /// vector is the coefficient vector itself.
    pub proof fn lemma_linear_semantics(&self, coefficients: Seq<int>)
        ensures
            self.coeff_dim() == self.weights_spec().len(),
            self.weight_dim() == self.weights_spec().len(),
            self.forward_spec(coefficients) == dot_raw(coefficients, self.weights_spec()),
            self.derivative_vector_spec(coefficients) == coefficients,
    {
    }
}

impl<A: ActivationFunction + Clone> Eval<A> for Linear<A> {
    closed spec fn coeff_dim(&self) -> int {
        self.weights@.len() as int
    }

    closed spec fn weight_dim(&self) -> int {
        self.weights@.len() as int
    }

    closed spec fn weights_spec(&self) -> Seq<int> {
        raws(self.weights@)
    }

    closed spec fn forward_spec(&self, coefficients: Seq<int>) -> int {
        dot_raw(coefficients, raws(self.weights@))
    }

    closed spec fn derivative_vector_spec(&self, coefficients: Seq<int>) -> Seq<int> {
        coefficients
    }

    proof fn lemma_dims(&self) {
    }

    proof fn lemma_derivative_vector_len(&self, coefficients: Seq<int>) {
    }

    fn activation_fn(&self) -> (a: A) {
        self.activate_fn.clone()
    }

    fn coeff_count(&self) -> (n: usize) {
        self.weights.len()
    }

    fn weight_count(&self) -> (n: usize) {
        self.weights.len()
    }

    fn forward(&self, coefficients: &Vec<Fx>) -> (r: Fx) {
        dot(coefficients, &self.weights)
    }

    fn nudge_weights(&mut self, updates: &Vec<Fx>) {
        self.weights = vec_add(&self.weights, updates);
    }

    fn derivative_vector(&self, coefficients: &Vec<Fx>) -> (r: Vec<Fx>) {
        copy_vec(coefficients)
    }
}

} // verus!
