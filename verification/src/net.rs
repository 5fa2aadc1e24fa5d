//! Multilayer feed-forward networks with back-propagation.
//!
//! A [`Net`] is an ordered sequence of [`Layer`]s whose dimensions
//! chain. `forward` threads a vector through every layer;
//! `backward` runs one forward pass caching each layer's input and
//! output, computes the initial error `expected - output`, and walks the
//! layers from last to first: each layer scales the error by its
//! activation derivative and the learning rate, adds the resulting
//! deltas to its weights and bias, and hands the error for the
//! preceding layer back, computed with its pre-update transposed
//! weights.

use vstd::prelude::*;

use crate::activation::ActivationFunction;
use crate::fixed::{mul_raw, Fx, FRAC};
use crate::linalg::{
    add_vec_raw, copy_vec, mat_add, mat_add_raw, mat_raws, mat_vec_mul, matvec_raw, outer,
    outer_raw, raws, sub_vec_raw, transpose, transpose_raw, vec_add, vec_comp_mul, vec_scale,
    vec_sub,
};
use crate::random::rand_unit_raw;
use crate::ConfigError;

verus! {

/// Each entry of `v` passed through the forward nonlinearity.
pub open spec fn eval_map_raw<A: ActivationFunction>(v: Seq<int>) -> Seq<int> {
    Seq::new(v.len(), |i: int| A::eval_spec(v[i]))
}

/// One layer's forward pass: `activation(weights * input + bias)`.
pub open spec fn layer_forward_raw<A: ActivationFunction>(
    w: Seq<Seq<int>>,
    b: Seq<int>,
    x: Seq<int>,
) -> Seq<int> {
    eval_map_raw::<A>(add_vec_raw(matvec_raw(w, x), b))
}

/// One layer's gradient: the activation derivative of each output,
/// times the matching output error, times the learning rate.
pub open spec fn gradient_raw<A: ActivationFunction>(
    output: Seq<int>,
    out_errors: Seq<int>,
    lr: int,
) -> Seq<int>
    recommends
        output.len() == out_errors.len(),
{
    Seq::new(output.len(), |i: int| mul_raw(mul_raw(A::deriv_spec(output[i]), out_errors[i]), lr))
}

/// A vector of `n` scalars drawn uniformly from `[0, 1]`.
fn random_fx_vec(n: usize) -> (r: Vec<Fx>)
    ensures
        r@.len() == n,
        forall|i: int| 0 <= i < n ==> 0 <= #[trigger] r@[i].raw <= FRAC,
{
    let mut out: Vec<Fx> = Vec::new();
    let mut i: usize = 0;
    while i < n
        invariant
            i <= n,
            out@.len() == i,
            forall|k: int| 0 <= k < i ==> 0 <= #[trigger] out@[k].raw <= FRAC,
        decreases n - i,
    {
        out.push(Fx { raw: rand_unit_raw() });
        i += 1;
    }
    out
}

/// Each entry of `v` passed through the activation derivative.
fn deriv_vec<A: ActivationFunction>(v: &Vec<Fx>) -> (r: Vec<Fx>)
    ensures
        r@.len() == v@.len(),
        forall|i: int|
            0 <= i < v@.len() ==> #[trigger] raws(r@)[i] == A::deriv_spec(raws(v@)[i]),
{
    let mut out: Vec<Fx> = Vec::new();
    let mut i: usize = 0;
    while i < v.len()
        invariant
            i <= v@.len(),
            out@.len() == i,
            forall|k: int| 0 <= k < i ==> #[trigger] out@[k].raw as int == A::deriv_spec(
                v@[k].raw as int,
            ),
        decreases v@.len() - i,
    {
        out.push(A::derivative(v[i]));
        i += 1;
    }
    out
}

/// Each entry of `v` passed through the forward nonlinearity.
fn activate_vec<A: ActivationFunction>(v: &Vec<Fx>) -> (r: Vec<Fx>)
    ensures
        r@.len() == v@.len(),
        raws(r@) == eval_map_raw::<A>(raws(v@)),
{
    let mut out: Vec<Fx> = Vec::new();
    let mut i: usize = 0;
    while i < v.len()
        invariant
            i <= v@.len(),
            out@.len() == i,
            forall|k: int| 0 <= k < i ==> #[trigger] out@[k].raw as int == A::eval_spec(
                v@[k].raw as int,
            ),
        decreases v@.len() - i,
    {
        out.push(A::evaluate(v[i]));
        i += 1;
    }
    proof {
        assert(raws(out@) =~= eval_map_raw::<A>(raws(v@)));
    }
    out
}

/// One fully-connected layer: a weight matrix of shape
/// `outputs x inputs` and a bias vector of length `outputs`.
#[derive(Debug)]
pub struct Layer {
    pub weights_io: Vec<Vec<Fx>>,
    pub bias_o: Vec<Fx>,
}

impl Layer {
    /// Number of outputs.
    pub open spec fn out_dim(&self) -> int {
        self.weights_io@.len() as int
    }

    /// Number of inputs.
    pub open spec fn in_dim(&self) -> int {
        if self.weights_io@.len() == 0 {
            0
        } else {
            self.weights_io@[0]@.len() as int
        }
    }

    /// Raw weight matrix.
    pub open spec fn weights_raw(&self) -> Seq<Seq<int>> {
        mat_raws(self.weights_io@)
    }

    /// Raw bias vector.
    pub open spec fn bias_raw(&self) -> Seq<int> {
        raws(self.bias_o@)
    }

    /// Well-formed: both dimensions nonzero, the weight matrix
    /// rectangular, one bias per output.
    pub open spec fn wf(&self) -> bool {
        &&& self.out_dim() >= 1
        &&& self.in_dim() >= 1
        &&& self.bias_o@.len() == self.out_dim()
        &&& forall|i: int|
            0 <= i < self.weights_io@.len() ==> #[trigger] self.weights_io@[i]@.len()
                == self.in_dim()
    }

    /// A new layer of the given dimensions, every weight and bias drawn
    /// uniformly from `[0, 1]`.
    pub fn new(inputs: usize, outputs: usize) -> (r: Layer)
        requires
            inputs >= 1,
            outputs >= 1,
        ensures
            r.wf(),
            r.in_dim() == inputs,
            r.out_dim() == outputs,
    {
        let mut weights_io: Vec<Vec<Fx>> = Vec::new();
        let mut i: usize = 0;
        while i < outputs
            invariant
                i <= outputs,
                weights_io@.len() == i,
                forall|k: int| 0 <= k < i ==> #[trigger] weights_io@[k]@.len() == inputs,
            decreases outputs - i,
        {
            weights_io.push(random_fx_vec(inputs));
            i += 1;
        }
        let bias_o = random_fx_vec(outputs);
        Layer { weights_io, bias_o }
    }

    /// Forward pass: `activation(weights * input + bias)`.
    pub fn forward<A: ActivationFunction>(&self, input: &Vec<Fx>) -> (out: Vec<Fx>)
        requires
            self.wf(),
            input@.len() == self.in_dim(),
        ensures
            out@.len() == self.out_dim(),
            raws(out@) == layer_forward_raw::<A>(self.weights_raw(), self.bias_raw(), raws(input@)),
    {
        let z = vec_add(&mat_vec_mul(&self.weights_io, input), &self.bias_o);
        activate_vec::<A>(&z)
    }

    /// One back-propagation step: scale the error by the activation
    /// derivative of each output and the learning rate, add the
    /// resulting deltas to the weights and the gradient to the bias, and
    /// return the error for the preceding layer, computed with the
    /// pre-update transposed weights.
    pub fn backprop<A: ActivationFunction>(
        &mut self,
        out_errors: &Vec<Fx>,
        output: &Vec<Fx>,
        input: &Vec<Fx>,
        learning_rate: Fx,
    ) -> (prev_errors: Vec<Fx>)
        requires
            old(self).wf(),
            out_errors@.len() == old(self).out_dim(),
            output@.len() == old(self).out_dim(),
            input@.len() == old(self).in_dim(),
        ensures
            final(self).wf(),
            final(self).in_dim() == old(self).in_dim(),
            final(self).out_dim() == old(self).out_dim(),
            prev_errors@.len() == old(self).in_dim(),
            ({
                let g = gradient_raw::<A>(raws(output@), raws(out_errors@), learning_rate.raw as int);
                &&& final(self).weights_raw() == mat_add_raw(
                    old(self).weights_raw(),
                    outer_raw(g, raws(input@)),
                )
                &&& final(self).bias_raw() == add_vec_raw(old(self).bias_raw(), g)
                &&& raws(prev_errors@) == matvec_raw(
                    transpose_raw(old(self).weights_raw(), old(self).in_dim()),
                    raws(out_errors@),
                )
            }),
    {
        let gradients = vec_scale(&vec_comp_mul(&deriv_vec::<A>(output), out_errors), learning_rate);
        proof {
            assert(raws(gradients@) =~= gradient_raw::<A>(
                raws(output@),
                raws(out_errors@),
                learning_rate.raw as int,
            ));
        }
        let deltas = outer(&gradients, input);
        let wio_t = transpose(&self.weights_io);
        self.weights_io = mat_add(&self.weights_io, &deltas);
        self.bias_o = vec_add(&self.bias_o, &gradients);
        mat_vec_mul(&wio_t, out_errors)
    }
}

/// Chained well-formedness: every layer well formed, and consecutive
/// layers' dimensions agree.
pub open spec fn net_wf(layers: Seq<Layer>) -> bool {
    &&& forall|i: int| 0 <= i < layers.len() ==> (#[trigger] layers[i]).wf()
    &&& forall|i: int|
        0 <= i < layers.len() - 1 ==> (#[trigger] layers[i]).out_dim() == layers[i + 1].in_dim()
}

/// The vector obtained by threading `x` through the first `k` layers.
pub open spec fn forward_thru<A: ActivationFunction>(layers: Seq<Layer>, x: Seq<int>, k: int) -> Seq<
    int,
>
    decreases k,
{
    if k <= 0 {
        x
    } else {
        layer_forward_raw::<A>(
            layers[k - 1].weights_raw(),
            layers[k - 1].bias_raw(),
            forward_thru::<A>(layers, x, k - 1),
        )
    }
}

/// The vector after `k` layers has the `k`-th boundary dimension.
pub proof fn lemma_forward_thru_len<A: ActivationFunction>(layers: Seq<Layer>, x: Seq<int>, k: int)
    requires
        net_wf(layers),
        0 <= k <= layers.len(),
        layers.len() > 0 ==> x.len() == layers[0].in_dim(),
    ensures
        forward_thru::<A>(layers, x, k).len() == if k == 0 {
            x.len() as int
        } else {
            layers[k - 1].out_dim()
        },
        k < layers.len() ==> forward_thru::<A>(layers, x, k).len() == layers[k].in_dim(),
    decreases k,
{
    if k > 0 {
        lemma_forward_thru_len::<A>(layers, x, k - 1);
    }
}

/// Error at the output of layer `k` while walking backward: the initial
/// output error for the last layer; every earlier layer receives what
/// its successor propagated through its pre-update transposed weights.
pub open spec fn err_at(layers: Seq<Layer>, e_init: Seq<int>, k: int) -> Seq<int>
    decreases layers.len() - k,
{
    if k >= layers.len() - 1 {
        e_init
    } else {
        matvec_raw(
            transpose_raw(layers[k + 1].weights_raw(), layers[k + 1].in_dim()),
            err_at(layers, e_init, k + 1),
        )
    }
}

/// A multilayer feed-forward network.
#[derive(Debug)]
pub struct Net {
    layers: Vec<Layer>,
}

impl Net {
    /// The layers, in forward order.
    pub closed spec fn layers_spec(&self) -> Seq<Layer> {
        self.layers@
    }

    /// Chained well-formedness of all layers.
    pub open spec fn wf(&self) -> bool {
        net_wf(self.layers_spec())
    }

    /// Whether a vector of length `n` can be fed forward.
    pub open spec fn accepts(&self, n: int) -> bool {
        self.layers_spec().len() == 0 || n == self.layers_spec()[0].in_dim()
    }

    /// Length of the output for an input of length `n0`.
    pub open spec fn out_len(&self, n0: int) -> int {
        if self.layers_spec().len() == 0 {
            n0
        } else {
            self.layers_spec().last().out_dim()
        }
    }

    /// A new network with one layer between each pair of consecutive
    /// sizes, weights and biases drawn uniformly from `[0, 1]`.
    /// Construction fails fast on an empty size sequence or a zero size.
    pub fn new(layer_sizes: Vec<usize>) -> (r: Result<Net, ConfigError>)
        ensures
            match r {
                Ok(net) => {
                    &&& layer_sizes@.len() >= 1
                    &&& forall|i: int| 0 <= i < layer_sizes@.len() ==> #[trigger] layer_sizes@[i] >= 1
                    &&& net.wf()
                    &&& net.layers_spec().len() == layer_sizes@.len() - 1
                    &&& forall|i: int|
                        0 <= i < net.layers_spec().len() ==> (
                        #[trigger] net.layers_spec()[i]).in_dim() == layer_sizes@[i]
                            && net.layers_spec()[i].out_dim() == layer_sizes@[i + 1]
                },
                Err(e) => {
                    &&& (layer_sizes@.len() == 0 || exists|i: int|
                        0 <= i < layer_sizes@.len() && #[trigger] layer_sizes@[i] == 0)
                    &&& (e == ConfigError::EmptyLayerSizes <==> layer_sizes@.len() == 0)
                    &&& (e == ConfigError::ZeroLayerSize <==> (layer_sizes@.len() >= 1
                        && exists|i: int|
                        0 <= i < layer_sizes@.len() && #[trigger] layer_sizes@[i] == 0))
                },
            },
    {
        if layer_sizes.len() == 0 {
            return Err(ConfigError::EmptyLayerSizes);
        }
        let mut i: usize = 0;
        while i < layer_sizes.len()
            invariant
                i <= layer_sizes@.len(),
                forall|t: int| 0 <= t < i ==> #[trigger] layer_sizes@[t] >= 1,
            decreases layer_sizes@.len() - i,
        {
            if layer_sizes[i] == 0 {
                return Err(ConfigError::ZeroLayerSize);
            }
            i += 1;
        }
        let mut layers: Vec<Layer> = Vec::new();
        let mut i: usize = 0;
        while i < layer_sizes.len() - 1
            invariant
                layer_sizes@.len() >= 1,
                forall|t: int| 0 <= t < layer_sizes@.len() ==> #[trigger] layer_sizes@[t] >= 1,
                i <= layer_sizes@.len() - 1,
                layers@.len() == i,
                forall|t: int|
                    0 <= t < i ==> (#[trigger] layers@[t]).in_dim() == layer_sizes@[t]
                        && layers@[t].out_dim() == layer_sizes@[t + 1],
                forall|t: int| 0 <= t < i ==> (#[trigger] layers@[t]).wf(),
            decreases layer_sizes@.len() - 1 - i,
        {
            layers.push(Layer::new(layer_sizes[i], layer_sizes[i + 1]));
            i += 1;
        }
        let net = Net { layers };
        proof {
            assert(net.wf());
        }
        Ok(net)
    }

    /// True when a vector of length `n` can be fed forward.
    pub fn accepts_len(&self, n: usize) -> (r: bool)
        ensures
            r == self.accepts(n as int),
    {
        if self.layers.len() == 0 {
            true
        } else if self.layers[0].weights_io.len() == 0 {
            n == 0
        } else {
            self.layers[0].weights_io[0].len() == n
        }
    }

    /// Length of the output for an input of length `n`.
    pub fn output_len(&self, n: usize) -> (r: usize)
        ensures
            r as int == self.out_len(n as int),
    {
        if self.layers.len() == 0 {
            n
        } else {
            self.layers[self.layers.len() - 1].weights_io.len()
        }
    }

    /// Forward pass: thread the input through every layer in order.
    pub fn forward<A: ActivationFunction>(&self, input: &Vec<Fx>) -> (out: Vec<Fx>)
        requires
            self.wf(),
            self.accepts(input@.len() as int),
        ensures
            out@.len() == self.out_len(input@.len() as int),
            raws(out@) == forward_thru::<A>(
                self.layers_spec(),
                raws(input@),
                self.layers_spec().len() as int,
            ),
    {
        let ghost ls = self.layers_spec();
        let ghost x = raws(input@);
        let n = self.layers.len();
        let mut cur = copy_vec(input);
        let mut i: usize = 0;
        while i < n
            invariant
                self.wf(),
                self.accepts(x.len() as int),
                ls == self.layers_spec(),
                x == raws(input@),
                n == ls.len(),
                i <= n,
                raws(cur@) == forward_thru::<A>(ls, x, i as int),
                cur@.len() == if i == 0 {
                    x.len() as int
                } else {
                    ls[i - 1].out_dim()
                },
            decreases n - i,
        {
            proof {
                lemma_forward_thru_len::<A>(ls, x, i as int);
            }
            cur = self.layers[i].forward::<A>(&cur);
            i += 1;
        }
        cur
    }

    /// One training example of back-propagation: run a forward pass
    /// caching every layer's input and output, set the initial error to
    /// `expected - output`, then walk the layers from last to first,
    /// letting each update itself and propagate the error.
    pub fn backward<A: ActivationFunction>(
        &mut self,
        input: &Vec<Fx>,
        expected: &Vec<Fx>,
        learning_rate: Fx,
    )
        requires
            old(self).wf(),
            old(self).accepts(input@.len() as int),
            expected@.len() == old(self).out_len(input@.len() as int),
        ensures
            final(self).wf(),
            final(self).layers_spec().len() == old(self).layers_spec().len(),
            ({
                let ls = old(self).layers_spec();
                let x = raws(input@);
                let lr = learning_rate.raw as int;
                let e0 = sub_vec_raw(
                    raws(expected@),
                    forward_thru::<A>(ls, x, ls.len() as int),
                );
                forall|k: int|
                    0 <= k < ls.len() ==> {
                        let g = gradient_raw::<A>(
                            forward_thru::<A>(ls, x, k + 1),
                            err_at(ls, e0, k),
                            lr,
                        );
                        &&& (#[trigger] final(self).layers_spec()[k]).weights_raw() == mat_add_raw(
                            ls[k].weights_raw(),
                            outer_raw(g, forward_thru::<A>(ls, x, k)),
                        )
                        &&& final(self).layers_spec()[k].bias_raw() == add_vec_raw(
                            ls[k].bias_raw(),
                            g,
                        )
                        &&& final(self).layers_spec()[k].in_dim() == ls[k].in_dim()
                        &&& final(self).layers_spec()[k].out_dim() == ls[k].out_dim()
                    }
            }),
    {
        let ghost ls = self.layers_spec();
        let ghost x = raws(input@);
        let n = self.layers.len();
        // Forward pass, caching every layer's input and output.
        let mut inters: Vec<Vec<Fx>> = Vec::new();
        inters.push(copy_vec(input));
        let mut i: usize = 0;
        while i < n
            invariant
                self.wf(),
                self.accepts(x.len() as int),
                ls == self.layers_spec(),
                x == raws(input@),
                n == ls.len(),
                i <= n,
                inters@.len() == i + 1,
                forall|t: int|
                    0 <= t <= i ==> raws(#[trigger] inters@[t]@) == forward_thru::<A>(ls, x, t),
                forall|t: int|
                    0 <= t <= i ==> #[trigger] inters@[t]@.len() == (if t == 0 {
                        x.len() as int
                    } else {
                        ls[t - 1].out_dim()
                    }),
            decreases n - i,
        {
            proof {
                lemma_forward_thru_len::<A>(ls, x, i as int);
            }
            let next = self.layers[i].forward::<A>(&inters[i]);
            inters.push(next);
            i += 1;
        }
        // Initial error: expected minus the final output.
        let mut err = vec_sub(expected, &inters[n]);
        let ghost e0 = sub_vec_raw(raws(expected@), forward_thru::<A>(ls, x, n as int));
        // Backward pass, last layer to first.
        let mut k: usize = n;
        while k > 0
            invariant
                x == raws(input@),
                n == ls.len(),
                n > 0 ==> x.len() == ls[0].in_dim(),
                k <= n,
                self.layers@.len() == n,
                forall|t: int| 0 <= t < k ==> #[trigger] self.layers@[t] == ls[t],
                inters@.len() == n + 1,
                forall|t: int|
                    0 <= t <= n ==> raws(#[trigger] inters@[t]@) == forward_thru::<A>(ls, x, t),
                forall|t: int|
                    0 <= t <= n ==> #[trigger] inters@[t]@.len() == (if t == 0 {
                        x.len() as int
                    } else {
                        ls[t - 1].out_dim()
                    }),
                net_wf(ls),
                k >= 1 ==> err@.len() == ls[k - 1].out_dim(),
                raws(err@) == err_at(ls, e0, k as int - 1),
                forall|t: int|
                    k <= t < n ==> {
                        let g = gradient_raw::<A>(
                            forward_thru::<A>(ls, x, t + 1),
                            err_at(ls, e0, t),
                            learning_rate.raw as int,
                        );
                        &&& (#[trigger] self.layers@[t]).weights_raw() == mat_add_raw(
                            ls[t].weights_raw(),
                            outer_raw(g, forward_thru::<A>(ls, x, t)),
                        )
                        &&& self.layers@[t].bias_raw() == add_vec_raw(ls[t].bias_raw(), g)
                        &&& self.layers@[t].in_dim() == ls[t].in_dim()
                        &&& self.layers@[t].out_dim() == ls[t].out_dim()
                        &&& self.layers@[t].wf()
                    },
            decreases k,
        {
            let k1 = k - 1;
            let next_err = self.layers[k1].backprop::<A>(
                &err,
                &inters[k1 + 1],
                &inters[k1],
                learning_rate,
            );
            err = next_err;
            k = k1;
        }
        proof {
            assert(self.wf());
        }
    }
}

} // verus!
