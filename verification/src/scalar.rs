//! The numbers a matrix holds, and what is known of their arithmetic.
//!
//! The kernel never looks inside a number. It asks the number type for each
//! operation and records, as a relation between operands and result, which
//! operation produced which cell. Nothing is assumed of the operations
//! themselves: they need not be exact, and they need not give the same answer
//! twice.

use vstd::prelude::*;

verus! {

/// What a number type offers to the matrix kernel and the network engine.
pub trait Scalar: Copy {
    /// The additive identity, with which every accumulated sum starts.
    fn zero() -> Self;

    /// The multiplicative identity.
    fn one() -> Self;

    /// The number that stands for a count of nodes.
    fn from_count(n: usize) -> Self;

    /// `self + rhs`.
    fn plus(self, rhs: Self) -> Self;

    /// `self - rhs`.
    fn minus(self, rhs: Self) -> Self;

    /// `self * rhs`.
    fn times(self, rhs: Self) -> Self;

    /// `self / rhs`.
    fn over(self, rhs: Self) -> Self;

    /// `-self`.
    fn negated(self) -> Self;

    /// `e` raised to `self`.
    fn exp(self) -> Self;

    /// The square root of `self`.
    fn sqrt(self) -> Self;

    /// Whether `self` lies below zero.
    fn is_negative(self) -> bool;

    /// One draw from the normal distribution with the given mean and standard
    /// deviation, or `None` where the two describe no distribution.
    fn normal_sample(mean: Self, std_dev: Self) -> Option<Self>;
}

/// `r` is a value that `Scalar::zero` may return.
pub open spec fn is_zero<T: Scalar>(r: T) -> bool {
    call_ensures(T::zero, (), r)
}

/// `r` is a value that `Scalar::one` may return.
pub open spec fn is_one<T: Scalar>(r: T) -> bool {
    call_ensures(T::one, (), r)
}

/// `r` is a value that `Scalar::from_count` may return for `n`.
pub open spec fn is_count<T: Scalar>(n: usize, r: T) -> bool {
    call_ensures(T::from_count, (n,), r)
}

/// `r` is a value that `x.plus(y)` may return.
pub open spec fn is_sum<T: Scalar>(x: T, y: T, r: T) -> bool {
    call_ensures(T::plus, (x, y), r)
}

/// `r` is a value that `x.minus(y)` may return.
pub open spec fn is_difference<T: Scalar>(x: T, y: T, r: T) -> bool {
    call_ensures(T::minus, (x, y), r)
}

/// `r` is a value that `x.times(y)` may return.
pub open spec fn is_product<T: Scalar>(x: T, y: T, r: T) -> bool {
    call_ensures(T::times, (x, y), r)
}

/// `r` is a value that `x.over(y)` may return.
pub open spec fn is_quotient<T: Scalar>(x: T, y: T, r: T) -> bool {
    call_ensures(T::over, (x, y), r)
}

/// `r` is a value that `x.negated()` may return.
pub open spec fn is_negation<T: Scalar>(x: T, r: T) -> bool {
    call_ensures(T::negated, (x,), r)
}

/// `r` is a value that `x.exp()` may return.
pub open spec fn is_exp<T: Scalar>(x: T, r: T) -> bool {
    call_ensures(T::exp, (x,), r)
}

/// `r` is a value that `x.sqrt()` may return.
pub open spec fn is_sqrt<T: Scalar>(x: T, r: T) -> bool {
    call_ensures(T::sqrt, (x,), r)
}

/// `b` is an answer that `x.is_negative()` may give.
pub open spec fn is_sign<T: Scalar>(x: T, b: bool) -> bool {
    call_ensures(T::is_negative, (x,), b)
}

/// `r` is an outcome that `Scalar::normal_sample` may have for this mean and
/// standard deviation.
pub open spec fn is_draw<T: Scalar>(mean: T, std_dev: T, r: Option<T>) -> bool {
    call_ensures(T::normal_sample, (mean, std_dev), r)
}

/// `r` is a value that the logistic function `1 / (1 + e^-x)` may take at `x`:
/// the negation, the exponential, the sum and the quotient, each applied to
/// what the one before it gave.
pub open spec fn is_sigmoid<T: Scalar>(x: T, r: T) -> bool {
    exists|one: T, n: T, e: T, d: T|
        is_one(one) && #[trigger] is_negation(x, n) && #[trigger] is_exp(n, e) && #[trigger] is_sum(
            one,
            e,
            d,
        ) && is_quotient(one, d, r)
}

/// `r` is a value that `o * (1 - o)` may take: the slope of the logistic
/// function, written in terms of the function's own output `o`.
pub open spec fn is_sigmoid_slope<T: Scalar>(o: T, r: T) -> bool {
    exists|one: T, d: T| is_one(one) && #[trigger] is_difference(one, o, d) && is_product(o, d, r)
}

/// `r` is a value that `n^(-1/2)` may take, computed as `1 / sqrt(n)`.
pub open spec fn is_inverse_root<T: Scalar>(n: usize, r: T) -> bool {
    exists|one: T, c: T, s: T|
        is_one(one) && is_count(n, c) && #[trigger] is_sqrt(c, s) && #[trigger] is_quotient(
            one,
            s,
            r,
        )
}

/// The arithmetic of the forward and backward passes gives one answer to
/// each question: whatever `zero`, `one`, `plus`, `minus`, `times`, `over`,
/// `negated` and `exp` may return for the same operands is the same value.
pub open spec fn single_valued<T: Scalar>() -> bool {
    &&& forall|a: T, b: T| #![trigger is_zero(a), is_zero(b)] is_zero(a) && is_zero(b) ==> a == b
    &&& forall|a: T, b: T| #![trigger is_one(a), is_one(b)] is_one(a) && is_one(b) ==> a == b
    &&& forall|x: T, y: T, a: T, b: T|
        #![trigger is_sum(x, y, a), is_sum(x, y, b)]
        is_sum(x, y, a) && is_sum(x, y, b) ==> a == b
    &&& forall|x: T, y: T, a: T, b: T|
        #![trigger is_difference(x, y, a), is_difference(x, y, b)]
        is_difference(x, y, a) && is_difference(x, y, b) ==> a == b
    &&& forall|x: T, y: T, a: T, b: T|
        #![trigger is_product(x, y, a), is_product(x, y, b)]
        is_product(x, y, a) && is_product(x, y, b) ==> a == b
    &&& forall|x: T, y: T, a: T, b: T|
        #![trigger is_quotient(x, y, a), is_quotient(x, y, b)]
        is_quotient(x, y, a) && is_quotient(x, y, b) ==> a == b
    &&& forall|x: T, a: T, b: T|
        #![trigger is_negation(x, a), is_negation(x, b)]
        is_negation(x, a) && is_negation(x, b) ==> a == b
    &&& forall|x: T, a: T, b: T|
        #![trigger is_exp(x, a), is_exp(x, b)]
        is_exp(x, a) && is_exp(x, b) ==> a == b
}

/// The slope of the logistic function at the point where its value is `o`.
pub fn sigmoid_slope<T: Scalar>(o: T) -> (r: T)
    ensures
        is_sigmoid_slope(o, r),
{
    let one = T::one();
    let d = one.minus(o);
    let r = o.times(d);
    assert(is_one(one) && is_difference(one, o, d) && is_product(o, d, r));
    r
}

/// The standard deviation for the initial weights of a layer of `n` nodes:
/// `n^(-1/2)`.
pub fn inverse_root<T: Scalar>(n: usize) -> (r: T)
    ensures
        is_inverse_root(n, r),
{
    let one = T::one();
    let c = T::from_count(n);
    let s = c.sqrt();
    let r = one.over(s);
    assert(is_one(one) && is_count(n, c) && is_sqrt(c, s) && is_quotient(one, s, r));
    r
}

} // verus!
