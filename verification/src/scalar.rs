//! The number type of the network, and the relations that name what its
//! operations may return.
use vstd::prelude::*;

verus! {

/// The arithmetic that the network needs of its numbers.
///
/// No method carries a contract: an implementation is free in what it
/// computes, and the network's contracts hold of whatever it returns.
pub trait Scalar: Copy {
    /// The number zero.
    fn zero() -> Self;

    /// The number one.
    fn one() -> Self;

    /// The number one half.
    fn half() -> Self;

    /// `self + rhs`.
    fn plus(self, rhs: Self) -> Self;

    /// `self - rhs`.
    fn minus(self, rhs: Self) -> Self;

    /// `self * rhs`.
    fn times(self, rhs: Self) -> Self;

    /// `self / rhs`.
    fn over(self, rhs: Self) -> Self;

    /// `-self`.
    fn negated(self) -> Self;

    /// Euler's number raised to `self`.
    fn exp(self) -> Self;
}

/// `r` is an outcome of `S::zero()`.
pub open spec fn is_zero<S: Scalar>(r: S) -> bool {
    call_ensures(S::zero, (), r)
}

/// `r` is an outcome of `S::one()`.
pub open spec fn is_one<S: Scalar>(r: S) -> bool {
    call_ensures(S::one, (), r)
}

/// `r` is an outcome of `S::half()`.
pub open spec fn is_half<S: Scalar>(r: S) -> bool {
    call_ensures(S::half, (), r)
}

/// `r` is an outcome of `a.plus(b)`.
pub open spec fn is_sum<S: Scalar>(a: S, b: S, r: S) -> bool {
    call_ensures(S::plus, (a, b), r)
}

/// `r` is an outcome of `a.minus(b)`.
pub open spec fn is_difference<S: Scalar>(a: S, b: S, r: S) -> bool {
    call_ensures(S::minus, (a, b), r)
}

/// `r` is an outcome of `a.times(b)`.
pub open spec fn is_product<S: Scalar>(a: S, b: S, r: S) -> bool {
    call_ensures(S::times, (a, b), r)
}

/// `r` is an outcome of `a.over(b)`.
pub open spec fn is_quotient<S: Scalar>(a: S, b: S, r: S) -> bool {
    call_ensures(S::over, (a, b), r)
}

/// `r` is an outcome of `a.negated()`.
pub open spec fn is_negation<S: Scalar>(a: S, r: S) -> bool {
    call_ensures(S::negated, (a,), r)
}

/// `r` is an outcome of `a.exp()`.
pub open spec fn is_exp<S: Scalar>(a: S, r: S) -> bool {
    call_ensures(S::exp, (a,), r)
}

/// `y` is an outcome of the logistic function at `x`, computed as
/// `1 / (1 + exp(-x))`.
pub open spec fn is_sigmoid<S: Scalar>(x: S, y: S) -> bool {
    exists|one: S, nx: S, e: S, d: S|
        #![trigger is_exp(nx, e), is_sum(one, e, d)]
        is_one(one) && is_negation(x, nx) && is_exp(nx, e) && is_sum(one, e, d) && is_quotient(
            one,
            d,
            y,
        )
}

/// `g` is an outcome of the logistic function's slope, computed from its
/// value `y` as `y * (1 - y)`.
pub open spec fn is_slope<S: Scalar>(y: S, g: S) -> bool {
    exists|one: S, c: S|
        #![trigger is_difference(one, y, c)]
        is_one(one) && is_difference(one, y, c) && is_product(y, c, g)
}

/// `r` is an outcome of `a[0] * b[0] + ... + a[n - 1] * b[n - 1]`, summed
/// from zero in the order of the indices.
pub open spec fn is_dot<S: Scalar>(a: Seq<S>, b: Seq<S>, n: nat, r: S) -> bool
    decreases n,
{
    if n == 0 {
        is_zero(r)
    } else {
        exists|acc: S, p: S|
            #![trigger is_sum(acc, p, r)]
            is_dot(a, b, (n - 1) as nat, acc) && is_product(a[n - 1], b[n - 1], p) && is_sum(
                acc,
                p,
                r,
            )
    }
}

/// `term` is an outcome of `0.5 * (t - o) * (t - o)`, the multiplication by
/// one half coming last.
pub open spec fn is_half_square<S: Scalar>(t: S, o: S, term: S) -> bool {
    exists|h: S, d: S, sq: S|
        #![trigger is_product(d, d, sq), is_product(h, sq, term)]
        is_half(h) && is_difference(t, o, d) && is_product(d, d, sq) && is_product(h, sq, term)
}

/// `e` is an outcome of the halved squared distance between the first `n`
/// entries of `target` and of `out`, summed from zero in the order of the
/// indices.
pub open spec fn is_error<S: Scalar>(target: Seq<S>, out: Seq<S>, n: nat, e: S) -> bool
    decreases n,
{
    if n == 0 {
        is_zero(e)
    } else {
        exists|acc: S, term: S|
            #![trigger is_sum(acc, term, e)]
            is_error(target, out, (n - 1) as nat, acc) && is_half_square(
                target[n - 1],
                out[n - 1],
                term,
            ) && is_sum(acc, term, e)
    }
}

/// The logistic function `1 / (1 + exp(-x))`.
pub fn sigmoid<S: Scalar>(x: S) -> (y: S)
    ensures
        is_sigmoid(x, y),
{
    let one = S::one();
    let nx = x.negated();
    let e = nx.exp();
    let d = one.plus(e);
    let y = one.over(d);
    proof {
        assert(is_exp(nx, e) && is_sum(one, e, d));
    }
    y
}

/// The slope of the logistic function at the point where its value is `y`:
/// `y * (1 - y)`.
pub fn sigmoid_gradient<S: Scalar>(y: S) -> (g: S)
    ensures
        is_slope(y, g),
{
    let one = S::one();
    let c = one.minus(y);
    let g = y.times(c);
    proof {
        assert(is_difference(one, y, c));
    }
    g
}

/// The weighted sum of `a` and `b`, entry by entry.
pub fn dot<S: Scalar>(a: &Vec<S>, b: &Vec<S>) -> (r: S)
    requires
        a@.len() == b@.len(),
    ensures
        is_dot(a@, b@, a@.len(), r),
{
    let mut acc = S::zero();
    let mut j: usize = 0;
    while j < a.len()
        invariant
            j <= a@.len(),
            a@.len() == b@.len(),
            is_dot(a@, b@, j as nat, acc),
        decreases a@.len() - j,
    {
        let p = a[j].times(b[j]);
        let next = acc.plus(p);
        proof {
            assert(is_sum(acc, p, next));
        }
        acc = next;
        j += 1;
    }
    acc
}

/// Half the squared distance between `target` and `out`, summed over their
/// entries.
pub fn squared_error<S: Scalar>(target: &Vec<S>, out: &Vec<S>) -> (e: S)
    requires
        target@.len() == out@.len(),
    ensures
        is_error(target@, out@, target@.len(), e),
{
    let mut acc = S::zero();
    let mut j: usize = 0;
    while j < target.len()
        invariant
            j <= target@.len(),
            target@.len() == out@.len(),
            is_error(target@, out@, j as nat, acc),
        decreases target@.len() - j,
    {
        let d = target[j].minus(out[j]);
        let sq = d.times(d);
        let h = S::half();
        let term = h.times(sq);
        let next = acc.plus(term);
        proof {
            assert(is_product(d, d, sq) && is_product(h, sq, term));
            assert(is_half_square(target@[j as int], out@[j as int], term));
            assert(is_sum(acc, term, next));
        }
        acc = next;
        j += 1;
    }
    acc
}

} // verus!
