//! The training loop for a single evaluation.
//!
//! A [`Tuner`] owns a [`DataLoader`], a learning rate and the evaluation
//! being trained. Each [`Tuner::step`] consumes exactly one batch from
//! the loader and applies one batched delta-rule update to the
//! evaluation's weights; the new weights are pinned exactly by
//! [`delta_rule_update`].

use vstd::prelude::*;

use crate::activation::ActivationFunction;
use crate::database::{models_of, Entry};
use crate::dataloader::DataLoader;
use crate::evaluation::Eval;
use crate::fixed::{div_count_raw, mul_raw, sub_raw, Fx};
use crate::linalg::{raws, scale_raw, vec_add, vec_scale, zeros};
use crate::optimizer::{delta_accum, delta_rule_update, finalize_gradient};

verus! {

/// Holds the data loader, the learning rate and the evaluation under
/// training.
pub struct Tuner<V> {
    pub data_loader: DataLoader,
    pub learning_rate: Fx,
    pub evaluation: V,
}

impl<V> Tuner<V> {
    /// The raw learning rate.
    pub open spec fn rate(&self) -> int {
        self.learning_rate.raw as int
    }

    /// A well-formed tuner: the loader is well formed and every stored
    /// entry has exactly one input per model coefficient.
    pub open spec fn wf<A: ActivationFunction>(&self) -> bool where V: Eval<A> {
        &&& self.data_loader.wf()
        &&& self.data_loader.entries_dim_ok(self.evaluation.coeff_dim())
    }

    /// Returns a new tuner over the given loader, learning rate and
    /// evaluation.
    pub fn new(data_loader: DataLoader, learning_rate: Fx, evaluation: V) -> (r: Tuner<V>)
        ensures
            r.data_loader == data_loader,
            r.learning_rate == learning_rate,
            r.evaluation == evaluation,
    {
        Tuner { data_loader, learning_rate, evaluation }
    }

    /// Run one iteration of batched stochastic gradient descent: sample
    /// one batch from the loader and apply the delta rule to the
    /// evaluation's weights.
    pub fn step<A: ActivationFunction>(&mut self) where V: Eval<A>
        requires
            old(self).wf::<A>(),
        ensures
            final(self).wf::<A>(),
            final(self).rate() == old(self).rate(),
            ({
                let bs = old(self).data_loader.batches();
                let cur = if old(self).data_loader.cursor() == bs.len() {
                    0int
                } else {
                    old(self).data_loader.cursor()
                };
                let batch = models_of(bs[cur]);
                &&& final(self).data_loader.batches() == bs
                &&& final(self).data_loader.cursor() == cur + 1
                &&& final(self).evaluation.weights_spec() == delta_rule_update::<A, V>(
                    &old(self).evaluation,
                    batch,
                    old(self).rate(),
                )
                &&& final(self).evaluation.weight_dim() == old(self).evaluation.weight_dim()
                &&& final(self).evaluation.coeff_dim() == old(self).evaluation.coeff_dim()
            }),
    {
        let entries = self.data_loader.sample();
        let ghost ms = models_of(entries@);
        let ghost ev0 = self.evaluation;
        proof {
            assert forall|t: int| 0 <= t < entries@.len() implies (
            #[trigger] entries@[t]).inputs_spec().len() == ev0.coeff_dim() by {
                let bs = old(self).data_loader.batches();
                let cur = if old(self).data_loader.cursor() == bs.len() {
                    0int
                } else {
                    old(self).data_loader.cursor()
                };
                assert(models_of(entries@)[t] == models_of(bs[cur])[t]);
                assert(bs[cur][t].inputs_spec().len() == ev0.coeff_dim());
            }
        }
        let n_w = self.evaluation.weight_count();
        let mut acc = zeros(n_w);
        proof {
            self.evaluation.lemma_dims();
            assert(raws(acc@) =~= delta_accum::<A, V>(&ev0, ms, 0));
        }
        let mut i: usize = 0;
        while i < entries.len()
            invariant
                self.evaluation == ev0,
                ev0.weights_spec().len() == ev0.weight_dim(),
                i <= entries@.len(),
                ms == models_of(entries@),
                forall|t: int|
                    0 <= t < entries@.len() ==> (#[trigger] entries@[t]).inputs_spec().len()
                        == ev0.coeff_dim(),
                acc@.len() == ev0.weight_dim(),
                raws(acc@) == delta_accum::<A, V>(&ev0, ms, i as int),
            decreases entries@.len() - i,
        {
            let entry = &entries[i];
            let inputs = entry.get_inputs();
            let f = self.evaluation.forward(&inputs);
            let guess = A::evaluate(f);
            let expected = entry.get_expected_output();
            let error = expected.sub(guess);
            let dv = self.evaluation.derivative_vector(&inputs);
            let deriv = A::derivative(f);
            let term = vec_scale(&vec_scale(&dv, deriv), error);
            proof {
                self.evaluation.lemma_derivative_vector_len(raws(inputs@));
                let e = ms[i as int];
                assert(e.inputs == raws(inputs@));
                assert(raws(term@) == scale_raw(
                    scale_raw(ev0.derivative_vector_spec(e.inputs), A::deriv_spec(
                        ev0.forward_spec(e.inputs),
                    )),
                    sub_raw(e.expected, A::eval_spec(ev0.forward_spec(e.inputs))),
                ));
            }
            acc = vec_add(&acc, &term);
            proof {
                assert(raws(acc@) == delta_accum::<A, V>(&ev0, ms, i as int + 1));
            }
            i += 1;
        }
        let bsz = entries.len();
        let mut upd: Vec<Fx> = Vec::new();
        let mut t: usize = 0;
        let ghost g = delta_accum::<A, V>(&ev0, ms, ms.len() as int);
        while t < acc.len()
            invariant
                bsz >= 1,
                t <= acc@.len(),
                raws(acc@) == g,
                upd@.len() == t,
                self.evaluation == ev0,
                forall|k: int|
                    0 <= k < t ==> #[trigger] upd@[k].raw as int == mul_raw(
                        div_count_raw(g[k], bsz as int),
                        self.learning_rate.raw as int,
                    ),
            decreases acc@.len() - t,
        {
            upd.push(acc[t].div_count(bsz).mul(self.learning_rate));
            t += 1;
        }
        proof {
            assert(raws(upd@) =~= finalize_gradient(g, bsz as int, self.rate()));
        }
        self.evaluation.nudge_weights(&upd);
        proof {
            assert(self.evaluation.weights_spec() == delta_rule_update::<A, V>(
                &ev0,
                ms,
                old(self).rate(),
            ));
        }
    }
}

} // verus!
