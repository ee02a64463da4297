//! One layer of the network: the activations of its nodes and the weights of
//! the connections that leave them.
use crate::scalar::{dot, is_dot, is_product, is_sigmoid, is_sum, is_zero, sigmoid, Scalar};
use vstd::prelude::*;

verus! {

/// The nodes of one layer and their connections to the next layer.
///
/// `weights[i][j]` is the weight of the connection from node `i` of this layer
/// to node `j` of the next; `changes[i][j]` is the last change made to it. A
/// layer that feeds no other has rows without entries.
#[derive(Clone)]
pub struct NetworkLayer<S> {
    pub num_nodes: usize,
    pub activations: Vec<S>,
    pub weights: Vec<Vec<S>>,
    pub changes: Vec<Vec<S>>,
}

/// `m` has `rows` rows of `cols` entries each.
pub open spec fn is_grid<S>(m: Seq<Vec<S>>, rows: int, cols: int) -> bool {
    m.len() == rows && forall|i: int| 0 <= i < rows ==> (#[trigger] m[i])@.len() == cols
}

/// Column `c` of `m`, from the first row to the last.
pub open spec fn column<S>(m: Seq<Vec<S>>, c: int) -> Seq<S> {
    Seq::new(m.len(), |i: int| m[i]@[c])
}

/// `y` is an outcome of the logistic function at the weighted sum of `a` and `w`.
pub open spec fn is_neuron<S: Scalar>(a: Seq<S>, w: Seq<S>, y: S) -> bool {
    exists|x: S| #![trigger is_sigmoid(x, y)] is_dot(a, w, a.len(), x) && is_sigmoid(x, y)
}

/// `out[i]` is, for each `i`, an outcome of the neuron that weighs the
/// activations `a` with column `i` of `m`.
pub open spec fn is_forward<S: Scalar>(a: Seq<S>, m: Seq<Vec<S>>, out: Seq<S>) -> bool {
    forall|i: int| 0 <= i < out.len() ==> is_neuron(a, column(m, i), #[trigger] out[i])
}

/// `w2` is an outcome of `w + learn * delta * act + momentum * change`,
/// evaluated from left to right, products first.
pub open spec fn is_step<S: Scalar>(
    w: S,
    learn: S,
    delta: S,
    act: S,
    momentum: S,
    change: S,
    w2: S,
) -> bool {
    exists|t1: S, t2: S, t3: S, t4: S|
        #![trigger is_product(t1, act, t2), is_sum(t3, t4, w2)]
        is_product(learn, delta, t1) && is_product(t1, act, t2) && is_sum(w, t2, t3) && is_product(
            momentum,
            change,
            t4,
        ) && is_sum(t3, t4, w2)
}

/// The row `w2`, `c2` is an outcome of one update of the row `w`, `c` of a node
/// with activation `act`: each weight takes a step along its delta, and each
/// change becomes `delta[j] * act`.
pub open spec fn is_row_adjusted<S: Scalar>(
    w: Seq<S>,
    c: Seq<S>,
    delta: Seq<S>,
    act: S,
    learn: S,
    momentum: S,
    w2: Seq<S>,
    c2: Seq<S>,
) -> bool {
    &&& w2.len() == delta.len()
    &&& c2.len() == delta.len()
    &&& forall|j: int|
        0 <= j < delta.len() ==> is_step(w[j], learn, delta[j], act, momentum, c[j], #[trigger] w2[j])
    &&& forall|j: int| 0 <= j < delta.len() ==> is_product(delta[j], act, #[trigger] c2[j])
}

/// The layer `post` is an outcome of one update of `pre` along `delta`: the
/// nodes and their activations stay, and each row is updated from the weights
/// and changes that `pre` held.
pub open spec fn is_adjusted<S: Scalar>(
    pre: NetworkLayer<S>,
    delta: Seq<S>,
    learn: S,
    momentum: S,
    post: NetworkLayer<S>,
) -> bool {
    &&& post.num_nodes == pre.num_nodes
    &&& post.activations@ == pre.activations@
    &&& post.weights@.len() == pre.num_nodes
    &&& post.changes@.len() == pre.num_nodes
    &&& forall|i: int|
        0 <= i < pre.num_nodes ==> is_row_adjusted(
            pre.weights@[i]@,
            pre.changes@[i]@,
            delta,
            pre.activations@[i],
            learn,
            momentum,
            (#[trigger] post.weights@[i])@,
            post.changes@[i]@,
        )
}

/// `n` numbers, each an outcome of `S::zero()`.
pub fn zeros<S: Scalar>(n: usize) -> (r: Vec<S>)
    ensures
        r@.len() == n,
        forall|i: int| 0 <= i < n ==> is_zero(#[trigger] r@[i]),
{
    let mut r: Vec<S> = Vec::new();
    let mut i: usize = 0;
    while i < n
        invariant
            i <= n,
            r@.len() == i,
            forall|k: int| 0 <= k < i ==> is_zero(#[trigger] r@[k]),
        decreases n - i,
    {
        r.push(S::zero());
        i += 1;
    }
    r
}

/// `n` copies of `x`.
pub fn filled<S: Scalar>(n: usize, x: S) -> (r: Vec<S>)
    ensures
        r@.len() == n,
        forall|i: int| 0 <= i < n ==> #[trigger] r@[i] == x,
{
    let mut r: Vec<S> = Vec::new();
    let mut i: usize = 0;
    while i < n
        invariant
            i <= n,
            r@.len() == i,
            forall|k: int| 0 <= k < i ==> #[trigger] r@[k] == x,
        decreases n - i,
    {
        r.push(x);
        i += 1;
    }
    r
}

/// `rows` rows of `cols` numbers, each an outcome of `S::zero()`.
pub fn zero_grid<S: Scalar>(rows: usize, cols: usize) -> (r: Vec<Vec<S>>)
    ensures
        is_grid(r@, rows as int, cols as int),
        forall|i: int, j: int| 0 <= i < rows && 0 <= j < cols ==> is_zero(#[trigger] r@[i]@[j]),
{
    let mut r: Vec<Vec<S>> = Vec::new();
    let mut i: usize = 0;
    while i < rows
        invariant
            i <= rows,
            is_grid(r@, i as int, cols as int),
            forall|k: int, j: int| 0 <= k < i && 0 <= j < cols ==> is_zero(#[trigger] r@[k]@[j]),
        decreases rows - i,
    {
        r.push(zeros(cols));
        i += 1;
    }
    r
}

/// Whether `m` has `rows` rows of `cols` entries each.
pub fn has_shape<S: Scalar>(m: &Vec<Vec<S>>, rows: usize, cols: usize) -> (b: bool)
    ensures
        b == is_grid(m@, rows as int, cols as int),
{
    if m.len() != rows {
        return false;
    }
    let mut i: usize = 0;
    while i < rows
        invariant
            i <= rows,
            m@.len() == rows,
            forall|k: int| 0 <= k < i ==> (#[trigger] m@[k])@.len() == cols,
        decreases rows - i,
    {
        if m[i].len() != cols {
            return false;
        }
        i += 1;
    }
    true
}

/// One update of a node's row of weights and changes.
fn adjusted_row<S: Scalar>(
    w: &Vec<S>,
    c: &Vec<S>,
    delta: &Vec<S>,
    act: S,
    learn: S,
    momentum: S,
) -> (r: (Vec<S>, Vec<S>))
    requires
        w@.len() == delta@.len(),
        c@.len() == delta@.len(),
    ensures
        is_row_adjusted(w@, c@, delta@, act, learn, momentum, r.0@, r.1@),
{
    let mut w2: Vec<S> = Vec::new();
    let mut c2: Vec<S> = Vec::new();
    let mut j: usize = 0;
    while j < delta.len()
        invariant
            j <= delta@.len(),
            w@.len() == delta@.len(),
            c@.len() == delta@.len(),
            w2@.len() == j,
            c2@.len() == j,
            forall|k: int|
                0 <= k < j ==> is_step(
                    w@[k],
                    learn,
                    delta@[k],
                    act,
                    momentum,
                    c@[k],
                    #[trigger] w2@[k],
                ),
            forall|k: int| 0 <= k < j ==> is_product(delta@[k], act, #[trigger] c2@[k]),
        decreases delta@.len() - j,
    {
        let t1 = learn.times(delta[j]);
        let t2 = t1.times(act);
        let t3 = w[j].plus(t2);
        let t4 = momentum.times(c[j]);
        let stepped = t3.plus(t4);
        let change = delta[j].times(act);
        proof {
            assert(is_product(t1, act, t2) && is_sum(t3, t4, stepped));
            assert(is_step(w@[j as int], learn, delta@[j as int], act, momentum, c@[j as int], stepped));
        }
        w2.push(stepped);
        c2.push(change);
        j += 1;
    }
    (w2, c2)
}

impl<S: Scalar> NetworkLayer<S> {
    /// The layer is whole, and each of its nodes has `next_count` connections.
    /// A layer that feeds no other has none: `feeds(0)`.
    pub open spec fn feeds(&self, next_count: int) -> bool {
        &&& self.activations@.len() == self.num_nodes
        &&& is_grid(self.weights@, self.num_nodes as int, next_count)
        &&& is_grid(self.changes@, self.num_nodes as int, next_count)
    }

    /// Every activation and every change is an outcome of `S::zero()`.
    pub open spec fn is_idle(&self) -> bool {
        &&& forall|i: int|
            0 <= i < self.activations@.len() ==> is_zero(#[trigger] self.activations@[i])
        &&& forall|i: int, j: int|
            0 <= i < self.changes@.len() && 0 <= j < self.changes@[i]@.len() ==> is_zero(
                #[trigger] self.changes@[i]@[j],
            )
    }

    /// Every weight in row `i` is `rows[i]`.
    pub open spec fn is_spread(&self, rows: Seq<S>) -> bool {
        forall|i: int, j: int|
            0 <= i < self.weights@.len() && 0 <= j < self.weights@[i]@.len()
                ==> #[trigger] self.weights@[i]@[j] == rows[i]
    }

    /// A layer of `num_nodes` nodes at rest.
    ///
    /// Without a next layer it has no connections, and `row_weights` is not
    /// read. With one, node `i` is connected to each node of `next` with the
    /// weight `row_weights[i]`; there is no such layer, and the result is
    /// `None`, unless `row_weights` holds one weight for each node.
    pub fn new(num_nodes: usize, next: Option<&NetworkLayer<S>>, row_weights: &Vec<S>) -> (r:
        Option<NetworkLayer<S>>)
        ensures
            r is Some <==> (next is Some ==> row_weights@.len() == num_nodes),
            r is Some ==> {
                &&& r.unwrap().num_nodes == num_nodes
                &&& r.unwrap().is_idle()
                &&& r.unwrap().is_spread(row_weights@)
                &&& next is None ==> r.unwrap().feeds(0)
                &&& next is Some ==> r.unwrap().feeds(next.unwrap().num_nodes as int)
            },
    {
        let next_count: usize = match next {
            Option::None => 0,
            Option::Some(layer) => {
                if row_weights.len() != num_nodes {
                    return Option::None;
                }
                layer.num_nodes
            },
        };
        let activations = zeros(num_nodes);
        let changes = zero_grid(num_nodes, next_count);
        let mut weights: Vec<Vec<S>> = Vec::new();
        let mut i: usize = 0;
        while i < num_nodes
            invariant
                i <= num_nodes,
                next is Some ==> row_weights@.len() == num_nodes,
                next is None ==> next_count == 0,
                is_grid(weights@, i as int, next_count as int),
                forall|k: int, j: int|
                    0 <= k < i && 0 <= j < next_count ==> #[trigger] weights@[k]@[j]
                        == row_weights@[k],
            decreases num_nodes - i,
        {
            let row: Vec<S> = match next {
                Option::None => Vec::new(),
                Option::Some(_) => filled(next_count, row_weights[i]),
            };
            weights.push(row);
            i += 1;
        }
        Option::Some(NetworkLayer { num_nodes, activations, weights, changes })
    }

    /// A layer at rest whose node `i` is connected to node `j` of the next
    /// layer with the weight `weights[i][j]`.
    ///
    /// There is no such layer, and the result is `None`, unless every row of
    /// `weights` holds one weight for each of the `next_count` nodes of the
    /// next layer.
    pub fn with_weights(weights: Vec<Vec<S>>, next_count: usize) -> (r: Option<NetworkLayer<S>>)
        ensures
            r is Some <==> is_grid(weights@, weights@.len() as int, next_count as int),
            r is Some ==> {
                &&& r.unwrap().num_nodes == weights@.len()
                &&& r.unwrap().weights == weights
                &&& r.unwrap().is_idle()
                &&& r.unwrap().feeds(next_count as int)
            },
    {
        let num_nodes = weights.len();
        if !has_shape(&weights, num_nodes, next_count) {
            return Option::None;
        }
        let activations = zeros(num_nodes);
        let changes = zero_grid(num_nodes, next_count);
        Option::Some(NetworkLayer { num_nodes, activations, weights, changes })
    }

    /// Column `c` of the weights.
    fn column_of(&self, c: usize) -> (r: Vec<S>)
        requires
            self.weights@.len() == self.num_nodes,
            forall|i: int| 0 <= i < self.num_nodes ==> c < (#[trigger] self.weights@[i])@.len(),
        ensures
            r@ == column(self.weights@, c as int),
    {
        let mut r: Vec<S> = Vec::new();
        let mut i: usize = 0;
        while i < self.num_nodes
            invariant
                i <= self.num_nodes,
                self.weights@.len() == self.num_nodes,
                forall|k: int|
                    0 <= k < self.num_nodes ==> c < (#[trigger] self.weights@[k])@.len(),
                r@.len() == i,
                forall|k: int| 0 <= k < i ==> #[trigger] r@[k] == self.weights@[k]@[c as int],
            decreases self.num_nodes - i,
        {
            r.push(self.weights[i][c]);
            i += 1;
        }
        assert(r@ =~= column(self.weights@, c as int));
        r
    }

    /// The activations that this layer gives to the `next_count` nodes of the
    /// next: for each of them the logistic function of the sum of this layer's
    /// activations, every node counted, weighted by the connections to it.
    pub fn feed(&self, next_count: usize) -> (out: Vec<S>)
        requires
            self.feeds(next_count as int),
        ensures
            out@.len() == next_count,
            is_forward(self.activations@, self.weights@, out@),
    {
        let mut out: Vec<S> = Vec::new();
        let mut i: usize = 0;
        while i < next_count
            invariant
                i <= next_count,
                self.feeds(next_count as int),
                out@.len() == i,
                is_forward(self.activations@, self.weights@, out@),
            decreases next_count - i,
        {
            let w = self.column_of(i);
            let x = dot(&self.activations, &w);
            let y = sigmoid(x);
            proof {
                assert(is_neuron(self.activations@, column(self.weights@, i as int), y));
            }
            out.push(y);
            i += 1;
        }
        out
    }

    /// One update of every weight along `delta`, which holds one entry for
    /// each node of the next layer. The activations stay as they are.
    pub fn adjust(&mut self, delta: &Vec<S>, learn: S, momentum: S)
        requires
            old(self).feeds(delta@.len() as int),
        ensures
            final(self).feeds(delta@.len() as int),
            is_adjusted(*old(self), delta@, learn, momentum, *final(self)),
    {
        let mut weights: Vec<Vec<S>> = Vec::new();
        let mut changes: Vec<Vec<S>> = Vec::new();
        let mut i: usize = 0;
        while i < self.num_nodes
            invariant
                *self == *old(self),
                self.feeds(delta@.len() as int),
                i <= self.num_nodes,
                is_grid(weights@, i as int, delta@.len() as int),
                is_grid(changes@, i as int, delta@.len() as int),
                forall|k: int|
                    0 <= k < i ==> is_row_adjusted(
                        self.weights@[k]@,
                        self.changes@[k]@,
                        delta@,
                        self.activations@[k],
                        learn,
                        momentum,
                        (#[trigger] weights@[k])@,
                        changes@[k]@,
                    ),
            decreases self.num_nodes - i,
        {
            let (w2, c2) = adjusted_row(
                &self.weights[i],
                &self.changes[i],
                delta,
                self.activations[i],
                learn,
                momentum,
            );
            weights.push(w2);
            changes.push(c2);
            i += 1;
        }
        self.weights = weights;
        self.changes = changes;
    }
}

} // verus!
