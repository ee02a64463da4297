//! The network: an input layer, one hidden layer and an output layer, with
//! the forward pass and training by backpropagation.
use crate::layer::{is_adjusted, is_forward, is_grid, NetworkLayer};
use crate::scalar::{
    dot, is_difference, is_dot, is_error, is_negation, is_one, is_product, is_slope, is_sum,
    is_zero, sigmoid_gradient, squared_error, Scalar,
};
use vstd::prelude::*;

verus! {

/// Three layers in a row. The input layer and the hidden layer each hold one
/// node more than was asked for; that node is treated like every other.
pub struct NeuralNetwork<S> {
    input: NetworkLayer<S>,
    hidden: NetworkLayer<S>,
    output: NetworkLayer<S>,
}

/// `d` is an outcome of `slope(act) * (t - act)`.
pub open spec fn is_output_delta<S: Scalar>(act: S, t: S, d: S) -> bool {
    exists|g: S, diff: S|
        #![trigger is_product(g, diff, d)]
        is_slope(act, g) && is_difference(t, act, diff) && is_product(g, diff, d)
}

/// `d` is an outcome of `slope(act) * (row[0] * od[0] + row[1] * od[1] + ...)`.
pub open spec fn is_hidden_delta<S: Scalar>(act: S, row: Seq<S>, od: Seq<S>, d: S) -> bool {
    exists|g: S, s: S|
        #![trigger is_product(g, s, d)]
        is_slope(act, g) && is_dot(row, od, od.len(), s) && is_product(g, s, d)
}

/// `e` is an outcome of `-1`, which stands for an example whose target the
/// network could not be held against.
pub open spec fn is_sentinel<S: Scalar>(e: S) -> bool {
    exists|one: S| #![trigger is_negation(one, e)] is_one(one) && is_negation(one, e)
}

/// A copy of `v`.
pub fn copied<S: Scalar>(v: &Vec<S>) -> (r: Vec<S>)
    ensures
        r@ == v@,
{
    let mut r: Vec<S> = Vec::new();
    let mut i: usize = 0;
    while i < v.len()
        invariant
            i <= v@.len(),
            r@.len() == i,
            forall|k: int| 0 <= k < i ==> #[trigger] r@[k] == v@[k],
        decreases v@.len() - i,
    {
        r.push(v[i]);
        i += 1;
    }
    assert(r@ =~= v@);
    r
}

impl<S: Scalar> NeuralNetwork<S> {
    /// The input layer.
    pub closed spec fn input(&self) -> NetworkLayer<S> {
        self.input
    }

    /// The hidden layer.
    pub closed spec fn hidden(&self) -> NetworkLayer<S> {
        self.hidden
    }

    /// The output layer.
    pub closed spec fn output(&self) -> NetworkLayer<S> {
        self.output
    }

    /// The layers fit: the input layer feeds every hidden node, the hidden
    /// layer every output node, and the output layer nothing.
    pub open spec fn wf(&self) -> bool {
        &&& self.input().num_nodes >= 1
        &&& self.hidden().num_nodes >= 1
        &&& self.input().feeds(self.hidden().num_nodes as int)
        &&& self.hidden().feeds(self.output().num_nodes as int)
        &&& self.output().feeds(0)
    }

    /// `post` has the nodes of `pre`, layer by layer.
    pub open spec fn same_shape(pre: Self, post: Self) -> bool {
        &&& post.input().num_nodes == pre.input().num_nodes
        &&& post.hidden().num_nodes == pre.hidden().num_nodes
        &&& post.output().num_nodes == pre.output().num_nodes
    }

    /// `post` is an outcome of one forward pass of `pre` on `inputs`.
    ///
    /// No weight and no change differs. The input layer holds `inputs`,
    /// followed by what its last node held before. Each hidden node holds an
    /// outcome of its neuron over the whole input layer, and each output node
    /// one of its neuron over the whole hidden layer.
    pub open spec fn is_activated(pre: Self, inputs: Seq<S>, post: Self) -> bool {
        &&& Self::same_shape(pre, post)
        &&& post.input().weights == pre.input().weights
        &&& post.input().changes == pre.input().changes
        &&& post.hidden().weights == pre.hidden().weights
        &&& post.hidden().changes == pre.hidden().changes
        &&& post.output().weights == pre.output().weights
        &&& post.output().changes == pre.output().changes
        &&& post.input().activations@ == inputs.push(
            pre.input().activations@[pre.input().num_nodes - 1],
        )
        &&& post.hidden().activations@.len() == pre.hidden().num_nodes
        &&& is_forward(
            post.input().activations@,
            post.input().weights@,
            post.hidden().activations@,
        )
        &&& post.output().activations@.len() == pre.output().num_nodes
        &&& is_forward(
            post.hidden().activations@,
            post.hidden().weights@,
            post.output().activations@,
        )
    }

    /// `od` holds, for each output node of `pre`, an outcome of its delta
    /// against `target`.
    pub open spec fn is_output_deltas(pre: Self, target: Seq<S>, od: Seq<S>) -> bool {
        &&& od.len() == pre.output().num_nodes
        &&& forall|i: int|
            0 <= i < od.len() ==> is_output_delta(
                pre.output().activations@[i],
                target[i],
                #[trigger] od[i],
            )
    }

    /// `hd` holds, for each hidden node of `pre`, an outcome of its delta:
    /// the output deltas `od` weighted by the connections that leave the node
    /// in `pre`.
    pub open spec fn is_hidden_deltas(pre: Self, od: Seq<S>, hd: Seq<S>) -> bool {
        &&& hd.len() == pre.hidden().num_nodes
        &&& forall|i: int|
            0 <= i < hd.len() ==> is_hidden_delta(
                pre.hidden().activations@[i],
                pre.hidden().weights@[i]@,
                od,
                #[trigger] hd[i],
            )
    }

    /// `post` is an outcome of one backpropagation of `pre` against `target`.
    ///
    /// Both sets of deltas come from `pre`: the hidden deltas weigh the output
    /// deltas with the weights that the hidden layer held before any of them
    /// was updated. Then the hidden layer is updated along the output deltas
    /// and the input layer along the hidden deltas. The output layer stays.
    pub open spec fn is_backpropagated(
        pre: Self,
        target: Seq<S>,
        learn: S,
        momentum: S,
        post: Self,
    ) -> bool {
        exists|od: Seq<S>, hd: Seq<S>|
            #![trigger Self::is_hidden_deltas(pre, od, hd)]
            {
                &&& Self::is_output_deltas(pre, target, od)
                &&& Self::is_hidden_deltas(pre, od, hd)
                &&& is_adjusted(pre.hidden(), od, learn, momentum, post.hidden())
                &&& is_adjusted(pre.input(), hd, learn, momentum, post.input())
                &&& post.output() == pre.output()
            }
    }

    /// `mid` is an outcome of showing `input` to `pre`: a forward pass where
    /// `input` has one entry for each input asked for, and no change otherwise.
    pub open spec fn is_shown(pre: Self, input: Seq<S>, mid: Self) -> bool {
        if input.len() == pre.input().num_nodes - 1 {
            Self::is_activated(pre, input, mid)
        } else {
            mid == pre
        }
    }

    /// `post` and `e` are an outcome of holding `mid` against `target`: one
    /// backpropagation and its error where `target` has one entry for each
    /// output node, and no change and the sentinel otherwise.
    pub open spec fn is_corrected(
        mid: Self,
        target: Seq<S>,
        learn: S,
        momentum: S,
        post: Self,
        e: S,
    ) -> bool {
        if target.len() == mid.output().num_nodes {
            Self::is_backpropagated(mid, target, learn, momentum, post) && is_error(
                target,
                mid.output().activations@,
                target.len(),
                e,
            )
        } else {
            post == mid && is_sentinel(e)
        }
    }

    /// `post` and `e` are an outcome of training `pre` on one example: it is
    /// shown the input, then held against the target.
    pub open spec fn is_example(
        pre: Self,
        input: Seq<S>,
        target: Seq<S>,
        learn: S,
        momentum: S,
        post: Self,
        e: S,
    ) -> bool {
        exists|mid: Self|
            #![trigger Self::is_shown(pre, input, mid)]
            Self::is_shown(pre, input, mid) && Self::is_corrected(
                mid,
                target,
                learn,
                momentum,
                post,
                e,
            )
    }

    /// `post` and `e` are an outcome of training `pre` on example `k - 1`.
    pub open spec fn is_last_example(
        pre: Self,
        inputs: Seq<Vec<S>>,
        targets: Seq<Vec<S>>,
        k: nat,
        learn: S,
        momentum: S,
        post: Self,
        e: S,
    ) -> bool {
        Self::is_example(pre, inputs[k - 1]@, targets[k - 1]@, learn, momentum, post, e)
    }

    /// `post` and `total` are an outcome of training `pre` on the first `k`
    /// examples in their order, `total` being the sum of their errors from
    /// zero.
    pub open spec fn is_epoch(
        pre: Self,
        inputs: Seq<Vec<S>>,
        targets: Seq<Vec<S>>,
        k: nat,
        learn: S,
        momentum: S,
        post: Self,
        total: S,
    ) -> bool
        decreases k,
    {
        if k == 0 {
            post == pre && is_zero(total)
        } else {
            exists|mid: Self, acc: S, e: S|
                #![trigger Self::is_last_example(mid, inputs, targets, k, learn, momentum, post, e), is_sum(acc, e, total)]
                Self::is_epoch(pre, inputs, targets, (k - 1) as nat, learn, momentum, mid, acc)
                    && Self::is_last_example(mid, inputs, targets, k, learn, momentum, post, e)
                    && is_sum(acc, e, total)
        }
    }

    /// `post` and `errors` are an outcome of training `pre` for `epochs`
    /// epochs, each over all examples; `errors` holds each epoch's total.
    pub open spec fn is_trained(
        pre: Self,
        inputs: Seq<Vec<S>>,
        targets: Seq<Vec<S>>,
        epochs: nat,
        learn: S,
        momentum: S,
        post: Self,
        errors: Seq<S>,
    ) -> bool
        decreases epochs,
    {
        if epochs == 0 {
            post == pre && errors.len() == 0
        } else {
            exists|mid: Self|
                #![trigger Self::is_epoch(mid, inputs, targets, inputs.len(), learn, momentum, post, errors.last())]
                errors.len() == epochs && Self::is_trained(
                    pre,
                    inputs,
                    targets,
                    (epochs - 1) as nat,
                    learn,
                    momentum,
                    mid,
                    errors.drop_last(),
                ) && Self::is_epoch(
                    mid,
                    inputs,
                    targets,
                    inputs.len(),
                    learn,
                    momentum,
                    post,
                    errors.last(),
                )
        }
    }

    /// A network of `num_inputs + 1` input nodes, `num_hiddens + 1` hidden
    /// nodes and `num_outputs` output nodes, at rest.
    ///
    /// Input node `i` is connected to each hidden node with the weight
    /// `input_weights[i]`, hidden node `i` to each output node with the weight
    /// `hidden_weights[i]`. The result is `None` unless each of the two holds
    /// one weight for each node of its layer.
    pub fn new(
        num_inputs: usize,
        num_hiddens: usize,
        num_outputs: usize,
        input_weights: &Vec<S>,
        hidden_weights: &Vec<S>,
    ) -> (r: Option<NeuralNetwork<S>>)
        ensures
            r is Some <==> input_weights@.len() == num_inputs + 1 && hidden_weights@.len()
                == num_hiddens + 1,
            r is Some ==> {
                &&& r.unwrap().wf()
                &&& r.unwrap().input().num_nodes == num_inputs + 1
                &&& r.unwrap().hidden().num_nodes == num_hiddens + 1
                &&& r.unwrap().output().num_nodes == num_outputs
                &&& r.unwrap().input().is_idle()
                &&& r.unwrap().hidden().is_idle()
                &&& r.unwrap().output().is_idle()
                &&& r.unwrap().input().is_spread(input_weights@)
                &&& r.unwrap().hidden().is_spread(hidden_weights@)
            },
    {
        let input_count = input_weights.len();
        let hidden_count = hidden_weights.len();
        if input_count == 0 || input_count - 1 != num_inputs {
            return Option::None;
        }
        if hidden_count == 0 || hidden_count - 1 != num_hiddens {
            return Option::None;
        }
        let output = match NetworkLayer::new(num_outputs, Option::None, hidden_weights) {
            Option::Some(layer) => layer,
            Option::None => {
                return Option::None;
            },
        };
        let hidden = match NetworkLayer::new(hidden_count, Option::Some(&output), hidden_weights) {
            Option::Some(layer) => layer,
            Option::None => {
                return Option::None;
            },
        };
        let input = match NetworkLayer::new(input_count, Option::Some(&hidden), input_weights) {
            Option::Some(layer) => layer,
            Option::None => {
                return Option::None;
            },
        };
        Option::Some(NeuralNetwork { input, hidden, output })
    }

    /// A network of `num_inputs + 1` input nodes, `num_hiddens + 1` hidden
    /// nodes and `num_outputs` output nodes, at rest, with a weight of its own
    /// for each connection.
    ///
    /// Input node `i` is connected to hidden node `j` with the weight
    /// `input_weights[i][j]`, hidden node `i` to output node `j` with the
    /// weight `hidden_weights[i][j]`. The result is `None` unless each of the
    /// two holds one row for each node of its layer and, in each row, one
    /// weight for each node of the next.
    pub fn with_weights(
        num_inputs: usize,
        num_hiddens: usize,
        num_outputs: usize,
        input_weights: Vec<Vec<S>>,
        hidden_weights: Vec<Vec<S>>,
    ) -> (r: Option<NeuralNetwork<S>>)
        ensures
            r is Some <==> is_grid(input_weights@, num_inputs + 1, num_hiddens + 1) && is_grid(
                hidden_weights@,
                num_hiddens + 1,
                num_outputs as int,
            ),
            r is Some ==> {
                &&& r.unwrap().wf()
                &&& r.unwrap().input().num_nodes == num_inputs + 1
                &&& r.unwrap().hidden().num_nodes == num_hiddens + 1
                &&& r.unwrap().output().num_nodes == num_outputs
                &&& r.unwrap().input().is_idle()
                &&& r.unwrap().hidden().is_idle()
                &&& r.unwrap().output().is_idle()
                &&& r.unwrap().input().weights == input_weights
                &&& r.unwrap().hidden().weights == hidden_weights
            },
    {
        let input_count = input_weights.len();
        let hidden_count = hidden_weights.len();
        if input_count == 0 || input_count - 1 != num_inputs {
            return Option::None;
        }
        if hidden_count == 0 || hidden_count - 1 != num_hiddens {
            return Option::None;
        }
        let none: Vec<S> = Vec::new();
        let output = match NetworkLayer::new(num_outputs, Option::None, &none) {
            Option::Some(layer) => layer,
            Option::None => {
                return Option::None;
            },
        };
        let hidden = match NetworkLayer::with_weights(hidden_weights, num_outputs) {
            Option::Some(layer) => layer,
            Option::None => {
                return Option::None;
            },
        };
        let input = match NetworkLayer::with_weights(input_weights, hidden_count) {
            Option::Some(layer) => layer,
            Option::None => {
                return Option::None;
            },
        };
        Option::Some(NeuralNetwork { input, hidden, output })
    }

    /// The input layer.
    pub fn input_layer(&self) -> (r: &NetworkLayer<S>)
        ensures
            *r == self.input(),
    {
        &self.input
    }

    /// The hidden layer.
    pub fn hidden_layer(&self) -> (r: &NetworkLayer<S>)
        ensures
            *r == self.hidden(),
    {
        &self.hidden
    }

    /// The output layer.
    pub fn output_layer(&self) -> (r: &NetworkLayer<S>)
        ensures
            *r == self.output(),
    {
        &self.output
    }

    /// The forward pass.
    ///
    /// `inputs` holds one entry for each input asked for, one less than the
    /// input layer has nodes. Then the result holds the activation of each
    /// output node, in a vector of its own. Otherwise the result is empty and
    /// the network is as it was.
    pub fn activate(&mut self, inputs: Vec<S>) -> (r: Vec<S>)
        requires
            old(self).wf(),
        ensures
            final(self).wf(),
            inputs@.len() != old(self).input().num_nodes - 1 ==> r@.len() == 0 && *final(self)
                == *old(self),
            inputs@.len() == old(self).input().num_nodes - 1 ==> {
                &&& Self::is_activated(*old(self), inputs@, *final(self))
                &&& r@ == final(self).output().activations@
                &&& r@.len() == old(self).output().num_nodes
            },
    {
        let n = self.input.num_nodes;
        if inputs.len() != n - 1 {
            return Vec::new();
        }
        let reserved = self.input.activations[n - 1];
        let mut first = inputs;
        first.push(reserved);
        self.input.activations = first;
        let second = self.input.feed(self.hidden.num_nodes);
        self.hidden.activations = second;
        let third = self.hidden.feed(self.output.num_nodes);
        let r = copied(&third);
        self.output.activations = third;
        r
    }

    /// The delta of each output node against `target`.
    fn output_deltas(&self, target: &Vec<S>) -> (od: Vec<S>)
        requires
            self.wf(),
            target@.len() == self.output().num_nodes,
        ensures
            Self::is_output_deltas(*self, target@, od@),
    {
        let mut od: Vec<S> = Vec::new();
        let mut i: usize = 0;
        while i < self.output.num_nodes
            invariant
                self.wf(),
                target@.len() == self.output().num_nodes,
                i <= self.output().num_nodes,
                od@.len() == i,
                forall|k: int|
                    0 <= k < i ==> is_output_delta(
                        self.output().activations@[k],
                        target@[k],
                        #[trigger] od@[k],
                    ),
            decreases self.output().num_nodes - i,
        {
            let act = self.output.activations[i];
            let g = sigmoid_gradient(act);
            let diff = target[i].minus(act);
            let d = g.times(diff);
            proof {
                assert(is_product(g, diff, d));
            }
            od.push(d);
            i += 1;
        }
        od
    }

    /// The delta of each hidden node, from the output deltas `od` and the
    /// weights that the hidden layer holds now.
    fn hidden_deltas(&self, od: &Vec<S>) -> (hd: Vec<S>)
        requires
            self.wf(),
            od@.len() == self.output().num_nodes,
        ensures
            Self::is_hidden_deltas(*self, od@, hd@),
    {
        let mut hd: Vec<S> = Vec::new();
        let mut i: usize = 0;
        while i < self.hidden.num_nodes
            invariant
                self.wf(),
                od@.len() == self.output().num_nodes,
                i <= self.hidden().num_nodes,
                hd@.len() == i,
                forall|k: int|
                    0 <= k < i ==> is_hidden_delta(
                        self.hidden().activations@[k],
                        self.hidden().weights@[k]@,
                        od@,
                        #[trigger] hd@[k],
                    ),
            decreases self.hidden().num_nodes - i,
        {
            let act = self.hidden.activations[i];
            let g = sigmoid_gradient(act);
            let s = dot(&self.hidden.weights[i], od);
            let d = g.times(s);
            proof {
                assert(is_product(g, s, d));
            }
            hd.push(d);
            i += 1;
        }
        hd
    }

    /// One step of backpropagation against `target`, after a forward pass.
    ///
    /// `target` holds one entry for each output node. Then every weight is
    /// updated, and the result is the error that the output layer had against
    /// `target`. Otherwise the result is `None` and the network is as it was.
    pub fn run_backpropagation(&mut self, target: &Vec<S>, learn: S, momentum: S) -> (r: Option<S>)
        requires
            old(self).wf(),
        ensures
            final(self).wf(),
            Self::same_shape(*old(self), *final(self)),
            r is Some <==> target@.len() == old(self).output().num_nodes,
            r is None ==> *final(self) == *old(self),
            r is Some ==> {
                &&& Self::is_backpropagated(*old(self), target@, learn, momentum, *final(self))
                &&& is_error(
                    target@,
                    old(self).output().activations@,
                    target@.len(),
                    r.unwrap(),
                )
            },
    {
        if target.len() != self.output.num_nodes {
            return Option::None;
        }
        let od = self.output_deltas(target);
        let hd = self.hidden_deltas(&od);
        self.hidden.adjust(&od, learn, momentum);
        self.input.adjust(&hd, learn, momentum);
        let e = squared_error(target, &self.output.activations);
        proof {
            assert(Self::is_hidden_deltas(*old(self), od@, hd@));
        }
        Option::Some(e)
    }

    /// Training: `num_iter` epochs, each over every example in order.
    ///
    /// `inputs` and `targets` hold as many examples. Then the result holds
    /// each epoch's total error, in the order of the epochs. Otherwise the
    /// result is empty and the network is as it was.
    ///
    /// An example is shown to the network, and the network is then held
    /// against the example's target. Where the input does not fit the input
    /// layer, the activations stay as the example before left them. Where the
    /// target does not fit the output layer, no weight moves and the example
    /// counts as `-1`.
    pub fn train(
        &mut self,
        inputs: Vec<Vec<S>>,
        targets: Vec<Vec<S>>,
        num_iter: usize,
        learn: S,
        momentum: S,
    ) -> (errors: Vec<S>)
        requires
            old(self).wf(),
        ensures
            final(self).wf(),
            Self::same_shape(*old(self), *final(self)),
            inputs@.len() != targets@.len() ==> errors@.len() == 0 && *final(self) == *old(self),
            inputs@.len() == targets@.len() ==> {
                &&& errors@.len() == num_iter
                &&& Self::is_trained(
                    *old(self),
                    inputs@,
                    targets@,
                    num_iter as nat,
                    learn,
                    momentum,
                    *final(self),
                    errors@,
                )
            },
    {
        let mut errors: Vec<S> = Vec::new();
        if inputs.len() != targets.len() {
            return errors;
        }
        let mut epoch: usize = 0;
        while epoch < num_iter
            invariant
                self.wf(),
                Self::same_shape(*old(self), *self),
                inputs@.len() == targets@.len(),
                epoch <= num_iter,
                errors@.len() == epoch,
                Self::is_trained(
                    *old(self),
                    inputs@,
                    targets@,
                    epoch as nat,
                    learn,
                    momentum,
                    *self,
                    errors@,
                ),
            decreases num_iter - epoch,
        {
            let ghost start = *self;
            let ghost before = errors@;
            let mut total = S::zero();
            let mut j: usize = 0;
            while j < inputs.len()
                invariant
                    self.wf(),
                    Self::same_shape(*old(self), *self),
                    inputs@.len() == targets@.len(),
                    j <= inputs@.len(),
                    Self::is_epoch(
                        start,
                        inputs@,
                        targets@,
                        j as nat,
                        learn,
                        momentum,
                        *self,
                        total,
                    ),
                decreases inputs@.len() - j,
            {
                let ghost pre = *self;
                self.activate(copied(&inputs[j]));
                let ghost mid = *self;
                let e = match self.run_backpropagation(&targets[j], learn, momentum) {
                    Option::Some(e) => e,
                    Option::None => {
                        let one = S::one();
                        let e = one.negated();
                        proof {
                            assert(is_negation(one, e));
                        }
                        e
                    },
                };
                let next = total.plus(e);
                proof {
                    assert(Self::is_shown(pre, inputs@[j as int]@, mid));
                    assert(Self::is_corrected(mid, targets@[j as int]@, learn, momentum, *self, e));
                    assert(Self::is_last_example(
                        pre,
                        inputs@,
                        targets@,
                        (j + 1) as nat,
                        learn,
                        momentum,
                        *self,
                        e,
                    ));
                    assert(is_sum(total, e, next));
                }
                total = next;
                j += 1;
            }
            errors.push(total);
            proof {
                assert(errors@.drop_last() =~= before);
                assert(errors@.last() == total);
                assert(Self::is_epoch(
                    start,
                    inputs@,
                    targets@,
                    inputs@.len(),
                    learn,
                    momentum,
                    *self,
                    errors@.last(),
                ));
            }
            epoch += 1;
        }
        errors
    }
}

/// A forward pass reads the network only through its weights and through what
/// the last input node holds, and changes neither. So once a pass on `inputs`
/// has led from `a` to `b`, a second pass on the same inputs has the very
/// outcomes that the first one had, `b` itself among them: with numbers whose
/// operations give one result for one set of operands, both passes return the
/// same.
pub proof fn lemma_activate_repeats<S: Scalar>(
    a: NeuralNetwork<S>,
    inputs: Seq<S>,
    b: NeuralNetwork<S>,
    c: NeuralNetwork<S>,
)
    requires
        a.wf(),
        inputs.len() == a.input().num_nodes - 1,
        NeuralNetwork::is_activated(a, inputs, b),
    ensures
        b.wf(),
        NeuralNetwork::is_activated(b, inputs, b),
        NeuralNetwork::is_activated(b, inputs, c) <==> NeuralNetwork::is_activated(a, inputs, c),
{
    let n = a.input().num_nodes as int;
    let kept = a.input().activations@[n - 1];
    assert(b.input().activations@[n - 1] == kept);
    assert(b.input().activations@ =~= inputs.push(kept));
}

/// Backpropagation takes the hidden deltas from the weights that the hidden
/// layer held before the step. Whatever one step makes of `pre`, there are
/// output deltas `od` and hidden deltas `hd` such that `hd` weighs `od` with
/// the hidden weights of `pre`, not with those of `post`, and the input layer
/// of `post` is the input layer of `pre` updated along that `hd`.
pub proof fn lemma_hidden_deltas_precede_update<S: Scalar>(
    pre: NeuralNetwork<S>,
    target: Seq<S>,
    learn: S,
    momentum: S,
    post: NeuralNetwork<S>,
)
    requires
        NeuralNetwork::is_backpropagated(pre, target, learn, momentum, post),
    ensures
        exists|od: Seq<S>, hd: Seq<S>|
            #![trigger NeuralNetwork::is_hidden_deltas(pre, od, hd)]
            {
                &&& hd.len() == pre.hidden().num_nodes
                &&& forall|i: int|
                    0 <= i < hd.len() ==> is_hidden_delta(
                        pre.hidden().activations@[i],
                        pre.hidden().weights@[i]@,
                        od,
                        #[trigger] hd[i],
                    )
                &&& NeuralNetwork::is_hidden_deltas(pre, od, hd)
                &&& is_adjusted(pre.hidden(), od, learn, momentum, post.hidden())
                &&& is_adjusted(pre.input(), hd, learn, momentum, post.input())
            },
{
    let (od, hd) = choose|od: Seq<S>, hd: Seq<S>|
        #![trigger NeuralNetwork::is_hidden_deltas(pre, od, hd)]
        {
            &&& NeuralNetwork::is_output_deltas(pre, target, od)
            &&& NeuralNetwork::is_hidden_deltas(pre, od, hd)
            &&& is_adjusted(pre.hidden(), od, learn, momentum, post.hidden())
            &&& is_adjusted(pre.input(), hd, learn, momentum, post.input())
            &&& post.output() == pre.output()
        };
    assert(NeuralNetwork::is_hidden_deltas(pre, od, hd));
}

} // verus!
