//! Inference and training are functions of their inputs.
//!
//! The kernel and the engine add no choice of their own to the arithmetic:
//! where each operation of the number type has one answer, so has a query,
//! and so has a training step.

use vstd::prelude::*;
use crate::math::{
    is_cellwise_product, is_dot, is_matrix_difference, is_matrix_product, is_matrix_sigmoid,
    is_matrix_sigmoid_slope, is_matrix_sum, is_partial_dot, is_scaled,
};
use crate::network::{
    is_backpropagation, is_gradient, is_inference, is_layer_output, is_training_step,
    is_weight_delta, Backpropagation, NetworkModel,
};
use crate::scalar::{
    is_difference, is_exp, is_negation, is_one, is_product, is_quotient, is_sigmoid,
    is_sigmoid_slope, is_sum, single_valued, Scalar,
};
use crate::shape::{column, transposed};

verus! {

/// Where the arithmetic is single-valued, the logistic function has one value
/// at each point.
pub proof fn lemma_sigmoid_unique<T: Scalar>(x: T, a: T, b: T)
    requires
        single_valued::<T>(),
        is_sigmoid(x, a),
        is_sigmoid(x, b),
    ensures
        a == b,
{
    let (one1, n1, e1, d1) = choose|one: T, n: T, e: T, d: T|
        is_one(one) && #[trigger] is_negation(x, n) && #[trigger] is_exp(n, e) && #[trigger] is_sum(
            one,
            e,
            d,
        ) && is_quotient(one, d, a);
    let (one2, n2, e2, d2) = choose|one: T, n: T, e: T, d: T|
        is_one(one) && #[trigger] is_negation(x, n) && #[trigger] is_exp(n, e) && #[trigger] is_sum(
            one,
            e,
            d,
        ) && is_quotient(one, d, b);
    assert(one1 == one2);
    assert(n1 == n2);
    assert(e1 == e2);
    assert(d1 == d2);
}

/// Where the arithmetic is single-valued, an accumulation of `k` terms has
/// one value.
pub proof fn lemma_partial_dot_unique<T: Scalar>(row: Seq<T>, col: Seq<T>, k: nat, a: T, b: T)
    requires
        single_valued::<T>(),
        is_partial_dot(row, col, k, a),
        is_partial_dot(row, col, k, b),
    ensures
        a == b,
    decreases k,
{
    if k > 0 {
        let (p1, t1) = choose|prev: T, term: T|
            is_partial_dot(row, col, (k - 1) as nat, prev) && is_product(
                row[k - 1],
                col[k - 1],
                term,
            ) && #[trigger] is_sum(prev, term, a);
        let (p2, t2) = choose|prev: T, term: T|
            is_partial_dot(row, col, (k - 1) as nat, prev) && is_product(
                row[k - 1],
                col[k - 1],
                term,
            ) && #[trigger] is_sum(prev, term, b);
        lemma_partial_dot_unique(row, col, (k - 1) as nat, p1, p2);
        assert(t1 == t2);
    }
}

/// Where the arithmetic is single-valued, two matrices have one product.
pub proof fn lemma_matrix_product_unique<T: Scalar>(
    a: Seq<Seq<T>>,
    b: Seq<Seq<T>>,
    p: Seq<Seq<T>>,
    q: Seq<Seq<T>>,
)
    requires
        single_valued::<T>(),
        is_matrix_product(a, b, p),
        is_matrix_product(a, b, q),
    ensures
        p == q,
{
    if a.len() == 0 || b.len() == 0 {
        assert(p =~= q);
    } else {
        assert forall|i: int| 0 <= i < p.len() implies #[trigger] p[i] == q[i] by {
            assert forall|j: int| 0 <= j < p[i].len() implies #[trigger] p[i][j] == q[i][j] by {
                assert(is_dot(a[i], column(b, j), p[i][j]));
                assert(is_dot(a[i], column(b, j), q[i][j]));
                lemma_partial_dot_unique(a[i], column(b, j), a[i].len(), p[i][j], q[i][j]);
            }
            assert(p[i] =~= q[i]);
        }
        assert(p =~= q);
    }
}

/// Where the arithmetic is single-valued, a matrix has one image under the
/// logistic function.
pub proof fn lemma_matrix_sigmoid_unique<T: Scalar>(
    m: Seq<Seq<T>>,
    p: Seq<Seq<T>>,
    q: Seq<Seq<T>>,
)
    requires
        single_valued::<T>(),
        is_matrix_sigmoid(m, p),
        is_matrix_sigmoid(m, q),
    ensures
        p == q,
{
    assert forall|i: int| 0 <= i < p.len() implies #[trigger] p[i] == q[i] by {
        assert forall|j: int| 0 <= j < p[i].len() implies #[trigger] p[i][j] == q[i][j] by {
            assert(is_sigmoid(m[i][j], p[i][j]));
            assert(is_sigmoid(m[i][j], q[i][j]));
            lemma_sigmoid_unique(m[i][j], p[i][j], q[i][j]);
        }
        assert(p[i] =~= q[i]);
    }
    assert(p =~= q);
}

/// Where the arithmetic is single-valued, a layer has one output for each
/// input.
pub proof fn lemma_layer_output_unique<T: Scalar>(
    weights: Seq<Seq<T>>,
    inputs: Seq<Seq<T>>,
    p: Seq<Seq<T>>,
    q: Seq<Seq<T>>,
)
    requires
        single_valued::<T>(),
        is_layer_output(weights, inputs, p),
        is_layer_output(weights, inputs, q),
    ensures
        p == q,
{
    let s1 = choose|sums: Seq<Seq<T>>| #[trigger]
        is_matrix_product(weights, inputs, sums) && is_matrix_sigmoid(sums, p);
    let s2 = choose|sums: Seq<Seq<T>>| #[trigger]
        is_matrix_product(weights, inputs, sums) && is_matrix_sigmoid(sums, q);
    lemma_matrix_product_unique(weights, inputs, s1, s2);
    lemma_matrix_sigmoid_unique(s1, p, q);
}

/// Inference is a function of the weights and the input: where the
/// arithmetic is single-valued, any two answers that a network may give to
/// the same input are the same matrix. A query changes nothing in the
/// network, so asking twice gives the same answer twice.
pub proof fn lemma_inference_unique<T: Scalar>(
    net: NetworkModel<T>,
    inputs: Seq<Seq<T>>,
    first: Seq<Seq<T>>,
    second: Seq<Seq<T>>,
)
    requires
        single_valued::<T>(),
        is_inference(net, inputs, first),
        is_inference(net, inputs, second),
    ensures
        first == second,
{
    let h1 = choose|hidden: Seq<Seq<T>>| #[trigger]
        is_layer_output(net.weights_in_hid, inputs, hidden) && is_layer_output(
            net.weights_hid_out,
            hidden,
            first,
        );
    let h2 = choose|hidden: Seq<Seq<T>>| #[trigger]
        is_layer_output(net.weights_in_hid, inputs, hidden) && is_layer_output(
            net.weights_hid_out,
            hidden,
            second,
        );
    lemma_layer_output_unique(net.weights_in_hid, inputs, h1, h2);
    lemma_layer_output_unique(net.weights_hid_out, h1, first, second);
}

/// Where the arithmetic is single-valued, the slope `o * (1 - o)` has one
/// value for each `o`.
pub proof fn lemma_sigmoid_slope_unique<T: Scalar>(o: T, a: T, b: T)
    requires
        single_valued::<T>(),
        is_sigmoid_slope(o, a),
        is_sigmoid_slope(o, b),
    ensures
        a == b,
{
    let (one1, d1) = choose|one: T, d: T|
        is_one(one) && #[trigger] is_difference(one, o, d) && is_product(o, d, a);
    let (one2, d2) = choose|one: T, d: T|
        is_one(one) && #[trigger] is_difference(one, o, d) && is_product(o, d, b);
    assert(one1 == one2);
    assert(d1 == d2);
}

/// Where the arithmetic is single-valued, two matrices have one sum.
pub proof fn lemma_matrix_sum_unique<T: Scalar>(
    a: Seq<Seq<T>>,
    b: Seq<Seq<T>>,
    p: Seq<Seq<T>>,
    q: Seq<Seq<T>>,
)
    requires
        single_valued::<T>(),
        is_matrix_sum(a, b, p),
        is_matrix_sum(a, b, q),
    ensures
        p == q,
{
    assert forall|i: int| 0 <= i < p.len() implies #[trigger] p[i] == q[i] by {
        assert forall|j: int| 0 <= j < p[i].len() implies #[trigger] p[i][j] == q[i][j] by {
            assert(is_sum(a[i][j], b[i][j], p[i][j]));
            assert(is_sum(a[i][j], b[i][j], q[i][j]));
        }
        assert(p[i] =~= q[i]);
    }
    assert(p =~= q);
}

/// Where the arithmetic is single-valued, two matrices have one difference.
pub proof fn lemma_matrix_difference_unique<T: Scalar>(
    a: Seq<Seq<T>>,
    b: Seq<Seq<T>>,
    p: Seq<Seq<T>>,
    q: Seq<Seq<T>>,
)
    requires
        single_valued::<T>(),
        is_matrix_difference(a, b, p),
        is_matrix_difference(a, b, q),
    ensures
        p == q,
{
    assert forall|i: int| 0 <= i < p.len() implies #[trigger] p[i] == q[i] by {
        assert forall|j: int| 0 <= j < p[i].len() implies #[trigger] p[i][j] == q[i][j] by {
            assert(is_difference(a[i][j], b[i][j], p[i][j]));
            assert(is_difference(a[i][j], b[i][j], q[i][j]));
        }
        assert(p[i] =~= q[i]);
    }
    assert(p =~= q);
}

/// Where the arithmetic is single-valued, two matrices have one cell-by-cell
/// product.
pub proof fn lemma_cellwise_product_unique<T: Scalar>(
    a: Seq<Seq<T>>,
    b: Seq<Seq<T>>,
    p: Seq<Seq<T>>,
    q: Seq<Seq<T>>,
)
    requires
        single_valued::<T>(),
        is_cellwise_product(a, b, p),
        is_cellwise_product(a, b, q),
    ensures
        p == q,
{
    assert forall|i: int| 0 <= i < p.len() implies #[trigger] p[i] == q[i] by {
        assert forall|j: int| 0 <= j < p[i].len() implies #[trigger] p[i][j] == q[i][j] by {
            assert(is_product(a[i][j], b[i][j], p[i][j]));
            assert(is_product(a[i][j], b[i][j], q[i][j]));
        }
        assert(p[i] =~= q[i]);
    }
    assert(p =~= q);
}

/// Where the arithmetic is single-valued, a matrix times a number is one
/// matrix.
pub proof fn lemma_scaled_unique<T: Scalar>(m: Seq<Seq<T>>, k: T, p: Seq<Seq<T>>, q: Seq<Seq<T>>)
    requires
        single_valued::<T>(),
        is_scaled(m, k, p),
        is_scaled(m, k, q),
    ensures
        p == q,
{
    assert forall|i: int| 0 <= i < p.len() implies #[trigger] p[i] == q[i] by {
        assert forall|j: int| 0 <= j < p[i].len() implies #[trigger] p[i][j] == q[i][j] by {
            assert(is_product(m[i][j], k, p[i][j]));
            assert(is_product(m[i][j], k, q[i][j]));
        }
        assert(p[i] =~= q[i]);
    }
    assert(p =~= q);
}

/// Where the arithmetic is single-valued, a matrix of outputs has one matrix
/// of slopes.
pub proof fn lemma_matrix_sigmoid_slope_unique<T: Scalar>(
    m: Seq<Seq<T>>,
    p: Seq<Seq<T>>,
    q: Seq<Seq<T>>,
)
    requires
        single_valued::<T>(),
        is_matrix_sigmoid_slope(m, p),
        is_matrix_sigmoid_slope(m, q),
    ensures
        p == q,
{
    assert forall|i: int| 0 <= i < p.len() implies #[trigger] p[i] == q[i] by {
        assert forall|j: int| 0 <= j < p[i].len() implies #[trigger] p[i][j] == q[i][j] by {
            assert(is_sigmoid_slope(m[i][j], p[i][j]));
            assert(is_sigmoid_slope(m[i][j], q[i][j]));
            lemma_sigmoid_slope_unique(m[i][j], p[i][j], q[i][j]);
        }
        assert(p[i] =~= q[i]);
    }
    assert(p =~= q);
}

/// Where the arithmetic is single-valued, errors and outputs have one
/// gradient.
pub proof fn lemma_gradient_unique<T: Scalar>(
    errors: Seq<Seq<T>>,
    outputs: Seq<Seq<T>>,
    p: Seq<Seq<T>>,
    q: Seq<Seq<T>>,
)
    requires
        single_valued::<T>(),
        is_gradient(errors, outputs, p),
        is_gradient(errors, outputs, q),
    ensures
        p == q,
{
    let s1 = choose|slopes: Seq<Seq<T>>| #[trigger]
        is_matrix_sigmoid_slope(outputs, slopes) && is_cellwise_product(errors, slopes, p);
    let s2 = choose|slopes: Seq<Seq<T>>| #[trigger]
        is_matrix_sigmoid_slope(outputs, slopes) && is_cellwise_product(errors, slopes, q);
    lemma_matrix_sigmoid_slope_unique(outputs, s1, s2);
    lemma_cellwise_product_unique(errors, s1, p, q);
}

/// Where the arithmetic is single-valued, a gradient and a layer's inputs
/// have one change of weights.
pub proof fn lemma_weight_delta_unique<T: Scalar>(
    gradient: Seq<Seq<T>>,
    inputs: Seq<Seq<T>>,
    rate: T,
    p: Seq<Seq<T>>,
    q: Seq<Seq<T>>,
)
    requires
        single_valued::<T>(),
        is_weight_delta(gradient, inputs, rate, p),
        is_weight_delta(gradient, inputs, rate, q),
    ensures
        p == q,
{
    let o1 = choose|outer: Seq<Seq<T>>| #[trigger]
        is_matrix_product(gradient, transposed(inputs), outer) && is_scaled(outer, rate, p);
    let o2 = choose|outer: Seq<Seq<T>>| #[trigger]
        is_matrix_product(gradient, transposed(inputs), outer) && is_scaled(outer, rate, q);
    lemma_matrix_product_unique(gradient, transposed(inputs), o1, o2);
    lemma_scaled_unique(o1, rate, p, q);
}

/// Where the arithmetic is single-valued, a network and a sample have one
/// backward pass.
pub proof fn lemma_backpropagation_unique<T: Scalar>(
    net: NetworkModel<T>,
    inputs: Seq<Seq<T>>,
    targets: Seq<Seq<T>>,
    p: Backpropagation<T>,
    q: Backpropagation<T>,
)
    requires
        single_valued::<T>(),
        is_backpropagation(net, inputs, targets, p),
        is_backpropagation(net, inputs, targets, q),
    ensures
        p == q,
{
    lemma_layer_output_unique(net.weights_in_hid, inputs, p.hidden_outputs, q.hidden_outputs);
    lemma_layer_output_unique(
        net.weights_hid_out,
        p.hidden_outputs,
        p.final_outputs,
        q.final_outputs,
    );
    lemma_matrix_difference_unique(targets, p.final_outputs, p.output_errors, q.output_errors);
    lemma_gradient_unique(
        p.output_errors,
        p.final_outputs,
        p.output_gradient,
        q.output_gradient,
    );
    lemma_weight_delta_unique(
        p.output_gradient,
        p.hidden_outputs,
        net.learning_rate,
        p.delta_hid_out,
        q.delta_hid_out,
    );
    lemma_matrix_product_unique(
        transposed(net.weights_hid_out),
        p.output_gradient,
        p.hidden_errors,
        q.hidden_errors,
    );
    lemma_gradient_unique(
        p.hidden_errors,
        p.hidden_outputs,
        p.hidden_gradient,
        q.hidden_gradient,
    );
    lemma_weight_delta_unique(
        p.hidden_gradient,
        inputs,
        net.learning_rate,
        p.delta_in_hid,
        q.delta_in_hid,
    );
}

/// Training is a function of the network and the sample: where the
/// arithmetic is single-valued, any two networks that one step on the same
/// sample may lead to are the same.
pub proof fn lemma_training_step_unique<T: Scalar>(
    before: NetworkModel<T>,
    inputs: Seq<Seq<T>>,
    targets: Seq<Seq<T>>,
    first: NetworkModel<T>,
    second: NetworkModel<T>,
)
    requires
        single_valued::<T>(),
        is_training_step(before, inputs, targets, first),
        is_training_step(before, inputs, targets, second),
    ensures
        first == second,
{
    let p = choose|pass: Backpropagation<T>| #[trigger]
        is_backpropagation(before, inputs, targets, pass) && is_matrix_sum(
            before.weights_hid_out,
            pass.delta_hid_out,
            first.weights_hid_out,
        ) && is_matrix_sum(before.weights_in_hid, pass.delta_in_hid, first.weights_in_hid)
            && first.learning_rate == before.learning_rate;
    let q = choose|pass: Backpropagation<T>| #[trigger]
        is_backpropagation(before, inputs, targets, pass) && is_matrix_sum(
            before.weights_hid_out,
            pass.delta_hid_out,
            second.weights_hid_out,
        ) && is_matrix_sum(before.weights_in_hid, pass.delta_in_hid, second.weights_in_hid)
            && second.learning_rate == before.learning_rate;
    lemma_backpropagation_unique(before, inputs, targets, p, q);
    lemma_matrix_sum_unique(
        before.weights_hid_out,
        p.delta_hid_out,
        first.weights_hid_out,
        second.weights_hid_out,
    );
    lemma_matrix_sum_unique(
        before.weights_in_hid,
        p.delta_in_hid,
        first.weights_in_hid,
        second.weights_in_hid,
    );
}

} // verus!
