//! The optimizer abstraction and batched delta-rule gradient descent.
//!
//! [`SGD`] applies the delta rule over one batch: for each entry it
//! accumulates `derivative_vector(inputs) * activation'(forward(inputs))
//! * (expected - activation(forward(inputs)))`, then averages over the
//! batch, scales by the learning rate, and adds the result to the
//! weights. The whole update is pinned exactly by [`delta_rule_update`].

use vstd::prelude::*;

use crate::activation::ActivationFunction;
use crate::database::{model_of, models_of, Entry, EntryModel};
use crate::evaluation::Eval;
use crate::fixed::{div_count_raw, mul_raw, sub_raw, Fx};
use crate::linalg::{add_vec_raw, raws, scale_raw, vec_add, vec_scale, zero_raws, zeros};

verus! {

/// The delta-rule gradient accumulated over the first `k` entries of a
/// batch, in batch order, exactly as the training loop computes it.
pub open spec fn delta_accum<A: ActivationFunction, V: Eval<A>>(
    ev: &V,
    entries: Seq<EntryModel>,
    k: int,
) -> Seq<int>
    decreases k,
{
    if k <= 0 {
        zero_raws(ev.weight_dim())
    } else {
        let e = entries[k - 1];
        let f = ev.forward_spec(e.inputs);
        let err = sub_raw(e.expected, A::eval_spec(f));
        let term = scale_raw(
            scale_raw(ev.derivative_vector_spec(e.inputs), A::deriv_spec(f)),
            err,
        );
        add_vec_raw(delta_accum::<A, V>(ev, entries, k - 1), term)
    }
}

/// An accumulated gradient averaged over the batch size `b`, then scaled
/// by the learning rate `lr`.
pub open spec fn finalize_gradient(g: Seq<int>, b: int, lr: int) -> Seq<int>
    recommends
        b >= 1,
{
    Seq::new(g.len(), |i: int| mul_raw(div_count_raw(g[i], b), lr))
}

/// The new weights after one batched delta-rule step: the old weights
/// plus the finalized gradient.
pub open spec fn delta_rule_update<A: ActivationFunction, V: Eval<A>>(
    ev: &V,
    entries: Seq<EntryModel>,
    lr: int,
) -> Seq<int>
    recommends
        entries.len() >= 1,
{
    let g = delta_accum::<A, V>(ev, entries, entries.len() as int);
    add_vec_raw(ev.weights_spec(), finalize_gradient(g, entries.len() as int, lr))
}

/// An optimizer: one `step` consumes a batch of entries and updates the
/// weights of the given evaluation according to its update rule.
pub trait Optimizer<A: ActivationFunction, E: Eval<A>>: Sized {
    /// The raw weights one step on this batch produces.
    spec fn update_spec(&self, eval: &E, entries: Seq<EntryModel>) -> Seq<int>;

    /// Run one optimizer step over the given entries.
    fn step<T: Entry>(&mut self, eval: &mut E, entries: Vec<T>)
        requires
            entries@.len() >= 1,
            forall|i: int|
                0 <= i < entries@.len() ==> (#[trigger] entries@[i]).inputs_spec().len() == old(
                    eval,
                ).coeff_dim(),
        ensures
            final(eval).weights_spec() == old(self).update_spec(old(eval), models_of(entries@)),
            final(eval).weight_dim() == old(eval).weight_dim(),
            final(eval).coeff_dim() == old(eval).coeff_dim(),
    ;

    /// Reset any internal optimizer state.
    fn reset(&mut self);
}

/// Batched stochastic gradient descent by the delta rule.
pub struct SGD {
    lr: Fx,
}

impl SGD {
    /// The raw learning rate.
    pub closed spec fn rate(&self) -> int {
        self.lr.raw as int
    }

    /// A new optimizer with the given learning rate.
    pub fn new(learning_rate: Fx) -> (r: SGD)
        ensures
            r.rate() == learning_rate.raw as int,
    {
        SGD { lr: learning_rate }
    }
}

impl<A: ActivationFunction, E: Eval<A>> Optimizer<A, E> for SGD {
    open spec fn update_spec(&self, eval: &E, entries: Seq<EntryModel>) -> Seq<int> {
        delta_rule_update::<A, E>(eval, entries, self.rate())
    }

    fn step<T: Entry>(&mut self, eval: &mut E, entries: Vec<T>) {
        let ghost ms = models_of(entries@);
        let ghost ev0 = *eval;
        let n_w = eval.weight_count();
        let mut acc = zeros(n_w);
        proof {
            eval.lemma_dims();
            assert(raws(acc@) =~= delta_accum::<A, E>(&ev0, ms, 0));
        }
        let mut i: usize = 0;
        while i < entries.len()
            invariant
                *eval == ev0,
                ev0.weights_spec().len() == ev0.weight_dim(),
                i <= entries@.len(),
                ms == models_of(entries@),
                forall|t: int|
                    0 <= t < entries@.len() ==> (#[trigger] entries@[t]).inputs_spec().len()
                        == ev0.coeff_dim(),
                acc@.len() == ev0.weight_dim(),
                raws(acc@) == delta_accum::<A, E>(&ev0, ms, i as int),
            decreases entries@.len() - i,
        {
            let entry = &entries[i];
            let inputs = entry.get_inputs();
            let f = eval.forward(&inputs);
            let guess = A::evaluate(f);
            let expected = entry.get_expected_output();
            let error = expected.sub(guess);
            let dv = eval.derivative_vector(&inputs);
            let deriv = A::derivative(f);
            let term = vec_scale(&vec_scale(&dv, deriv), error);
            proof {
                eval.lemma_derivative_vector_len(raws(inputs@));
                let e = ms[i as int];
                assert(e.inputs == raws(inputs@));
                assert(raws(term@) == scale_raw(
                    scale_raw(ev0.derivative_vector_spec(e.inputs), A::deriv_spec(
                        ev0.forward_spec(e.inputs),
                    )),
                    sub_raw(e.expected, A::eval_spec(ev0.forward_spec(e.inputs))),
                ));
            }
            acc = vec_add(&acc, &term);
            proof {
                assert(raws(acc@) == delta_accum::<A, E>(&ev0, ms, i as int + 1));
            }
            i += 1;
        }
        let bsz = entries.len();
        let mut upd: Vec<Fx> = Vec::new();
        let mut t: usize = 0;
        let ghost g = delta_accum::<A, E>(&ev0, ms, ms.len() as int);
        while t < acc.len()
            invariant
                bsz >= 1,
                t <= acc@.len(),
                raws(acc@) == g,
                upd@.len() == t,
                forall|k: int|
                    0 <= k < t ==> #[trigger] upd@[k].raw as int == mul_raw(
                        div_count_raw(g[k], bsz as int),
                        self.lr.raw as int,
                    ),
            decreases acc@.len() - t,
        {
            upd.push(acc[t].div_count(bsz).mul(self.lr));
            t += 1;
        }
        proof {
            assert(raws(upd@) =~= finalize_gradient(g, bsz as int, self.rate()));
        }
        eval.nudge_weights(&upd);
        proof {
            assert(eval.weights_spec() == delta_rule_update::<A, E>(&ev0, ms, self.rate()));
        }
    }

    fn reset(&mut self) {
    }
}

} // verus!
