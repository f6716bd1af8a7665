//! The network engine: two weight matrices, a learning rate, and the forward
//! and backward passes over them.

use vstd::prelude::*;
use crate::error::MatrixError;
use crate::math::{
    dot_product, is_cellwise_product, is_matrix_difference, is_matrix_product, is_matrix_sigmoid,
    is_matrix_sigmoid_slope, is_matrix_sum, is_scaled, matrix_add, matrix_elementwise_mul,
    is_normal_matrix, is_rectangular, matrix_scale, matrix_subtract, multipliable,
    random_normal_matrix, sigmoid_derivative, sigmoid_matrix, traspose_matrix,
};
use crate::scalar::{inverse_root, is_draw, is_inverse_root, is_sign, is_zero, Scalar};
use crate::shape::{
    column_vector, congruent, grid, has_shape, lemma_transposed_row, rectangular, same_shape,
    transposed, width,
};

verus! {

/// What a network holds: the weights from the input layer to the hidden
/// layer, one row for each hidden node; the weights from the hidden layer to
/// the output layer, one row for each output node; and the learning rate.
pub struct NetworkModel<T> {
    pub weights_in_hid: Seq<Seq<T>>,
    pub weights_hid_out: Seq<Seq<T>>,
    pub learning_rate: T,
}

impl<T> NetworkModel<T> {
    /// The number of input nodes.
    pub open spec fn input_nodes(self) -> nat {
        width(self.weights_in_hid)
    }

    /// The number of hidden nodes.
    pub open spec fn hidden_nodes(self) -> nat {
        self.weights_in_hid.len()
    }

    /// The number of output nodes.
    pub open spec fn output_nodes(self) -> nat {
        self.weights_hid_out.len()
    }

    /// Every layer has a node, and the two weight matrices fit the three
    /// layers.
    pub open spec fn well_formed(self) -> bool {
        &&& self.input_nodes() > 0
        &&& self.hidden_nodes() > 0
        &&& self.output_nodes() > 0
        &&& rectangular(self.weights_in_hid)
        &&& has_shape(self.weights_hid_out, self.output_nodes(), self.hidden_nodes())
    }
}

/// `outputs` is what a layer with these weights may give for `inputs`: the
/// logistic function of the weighted sums.
pub open spec fn is_layer_output<T: Scalar>(
    weights: Seq<Seq<T>>,
    inputs: Seq<Seq<T>>,
    outputs: Seq<Seq<T>>,
) -> bool {
    exists|sums: Seq<Seq<T>>| #[trigger]
        is_matrix_product(weights, inputs, sums) && is_matrix_sigmoid(sums, outputs)
}

/// `outputs` is what the network may answer to `inputs`, a matrix of one
/// column: the output layer's answer to what the hidden layer gives.
pub open spec fn is_inference<T: Scalar>(
    net: NetworkModel<T>,
    inputs: Seq<Seq<T>>,
    outputs: Seq<Seq<T>>,
) -> bool {
    exists|hidden: Seq<Seq<T>>| #[trigger]
        is_layer_output(net.weights_in_hid, inputs, hidden) && is_layer_output(
            net.weights_hid_out,
            hidden,
            outputs,
        )
}

/// `gradient` holds, cell by cell, an error times the slope of the logistic
/// function at the output that the error belongs to.
pub open spec fn is_gradient<T: Scalar>(
    errors: Seq<Seq<T>>,
    outputs: Seq<Seq<T>>,
    gradient: Seq<Seq<T>>,
) -> bool {
    exists|slopes: Seq<Seq<T>>| #[trigger]
        is_matrix_sigmoid_slope(outputs, slopes) && is_cellwise_product(errors, slopes, gradient)
}

/// `delta` is the change to the weights of a layer that was given `inputs`:
/// the product of `gradient` and the transpose of `inputs`, times `rate`.
pub open spec fn is_weight_delta<T: Scalar>(
    gradient: Seq<Seq<T>>,
    inputs: Seq<Seq<T>>,
    rate: T,
    delta: Seq<Seq<T>>,
) -> bool {
    exists|outer: Seq<Seq<T>>| #[trigger]
        is_matrix_product(gradient, transposed(inputs), outer) && is_scaled(outer, rate, delta)
}

/// What one backward pass goes through, from the hidden layer's outputs to
/// the two changes of weights.
pub struct Backpropagation<T> {
    pub hidden_outputs: Seq<Seq<T>>,
    pub final_outputs: Seq<Seq<T>>,
    pub output_errors: Seq<Seq<T>>,
    pub output_gradient: Seq<Seq<T>>,
    pub hidden_errors: Seq<Seq<T>>,
    pub hidden_gradient: Seq<Seq<T>>,
    pub delta_hid_out: Seq<Seq<T>>,
    pub delta_in_hid: Seq<Seq<T>>,
}

/// `pass` is a backward pass of `net` for `inputs` and `targets`, each a
/// matrix of one column.
///
/// The output error is the target less the output. Each layer's gradient is
/// its error times the slope at its output. The hidden layer's error is the
/// output gradient carried back through the weights that `net` holds, the
/// ones from before the step.
pub open spec fn is_backpropagation<T: Scalar>(
    net: NetworkModel<T>,
    inputs: Seq<Seq<T>>,
    targets: Seq<Seq<T>>,
    pass: Backpropagation<T>,
) -> bool {
    &&& is_layer_output(net.weights_in_hid, inputs, pass.hidden_outputs)
    &&& is_layer_output(net.weights_hid_out, pass.hidden_outputs, pass.final_outputs)
    &&& is_matrix_difference(targets, pass.final_outputs, pass.output_errors)
    &&& is_gradient(pass.output_errors, pass.final_outputs, pass.output_gradient)
    &&& is_weight_delta(
        pass.output_gradient,
        pass.hidden_outputs,
        net.learning_rate,
        pass.delta_hid_out,
    )
    &&& is_matrix_product(
        transposed(net.weights_hid_out),
        pass.output_gradient,
        pass.hidden_errors,
    )
    &&& is_gradient(pass.hidden_errors, pass.hidden_outputs, pass.hidden_gradient)
    &&& is_weight_delta(pass.hidden_gradient, inputs, net.learning_rate, pass.delta_in_hid)
}

/// `after` is what one training step may make of `before`: each weight
/// matrix plus its change from one backward pass, and the learning rate as it
/// was.
pub open spec fn is_training_step<T: Scalar>(
    before: NetworkModel<T>,
    inputs: Seq<Seq<T>>,
    targets: Seq<Seq<T>>,
    after: NetworkModel<T>,
) -> bool {
    exists|pass: Backpropagation<T>| #[trigger]
        is_backpropagation(before, inputs, targets, pass) && is_matrix_sum(
            before.weights_hid_out,
            pass.delta_hid_out,
            after.weights_hid_out,
        ) && is_matrix_sum(before.weights_in_hid, pass.delta_in_hid, after.weights_in_hid)
            && after.learning_rate == before.learning_rate
}

/// A feedforward network of an input layer, one hidden layer and an output
/// layer.
pub struct NeuralNetwork<T: Scalar> {
    weights_in_hid: Vec<Vec<T>>,
    weights_hid_out: Vec<Vec<T>>,
    learning_rate: T,
}

impl<T: Scalar> View for NeuralNetwork<T> {
    type V = NetworkModel<T>;

    closed spec fn view(&self) -> NetworkModel<T> {
        NetworkModel {
            weights_in_hid: grid(self.weights_in_hid@),
            weights_hid_out: grid(self.weights_hid_out@),
            learning_rate: self.learning_rate,
        }
    }
}

/// The matrix of one column that holds `list` from the top down.
fn column_of<T: Copy>(list: Vec<T>) -> (c: Vec<Vec<T>>)
    ensures
        grid(c@) == column_vector(list@),
        rectangular(grid(c@)),
{
    let ghost v = list@;
    let row: Vec<Vec<T>> = vec![list];
    assert(grid(row@) =~= seq![v]);
    proof {
        lemma_transposed_row(v);
    }
    traspose_matrix(&row)
}

/// What a layer with these weights gives for `inputs`.
fn feed<T: Scalar>(weights: &Vec<Vec<T>>, inputs: &Vec<Vec<T>>) -> (r: Result<
    Vec<Vec<T>>,
    MatrixError,
>)
    requires
        rectangular(grid(weights@)),
        rectangular(grid(inputs@)),
    ensures
        match r {
            Ok(outputs) => {
                &&& weights.len() == 0 || inputs.len() == 0 || width(grid(weights@))
                    == inputs.len()
                &&& is_layer_output(grid(weights@), grid(inputs@), grid(outputs@))
                &&& weights.len() == 0 || inputs.len() == 0 ==> outputs.len() == 0
                &&& weights.len() != 0 && inputs.len() != 0 ==> has_shape(
                    grid(outputs@),
                    weights.len() as nat,
                    width(grid(inputs@)),
                )
            },
            Err(e) => {
                &&& e == MatrixError::DimensionMismatch
                &&& weights.len() != 0
                &&& inputs.len() != 0
                &&& width(grid(weights@)) != inputs.len()
            },
        },
{
    match dot_product(weights, inputs) {
        Ok(sums) => {
            let outputs = sigmoid_matrix(&sums);
            assert(is_matrix_product(grid(weights@), grid(inputs@), grid(sums@))
                && is_matrix_sigmoid(grid(sums@), grid(outputs@)));
            Ok(outputs)
        },
        Err(e) => Err(e),
    }
}

/// Each error times the slope of the logistic function at its output.
fn gradient<T: Scalar>(errors: &Vec<Vec<T>>, outputs: &Vec<Vec<T>>) -> (r: Result<
    Vec<Vec<T>>,
    MatrixError,
>)
    requires
        rectangular(grid(errors@)),
        rectangular(grid(outputs@)),
    ensures
        match r {
            Ok(g) => {
                &&& same_shape(grid(errors@), grid(outputs@))
                &&& is_gradient(grid(errors@), grid(outputs@), grid(g@))
                &&& congruent(grid(g@), grid(errors@))
            },
            Err(e) => e == MatrixError::DimensionMismatch && !same_shape(
                grid(errors@),
                grid(outputs@),
            ),
        },
{
    let slopes = sigmoid_derivative(outputs);
    assert(grid(slopes@).len() > 0 ==> grid(slopes@)[0].len() == grid(outputs@)[0].len());
    match matrix_elementwise_mul(errors, &slopes) {
        Ok(g) => {
            assert(is_matrix_sigmoid_slope(grid(outputs@), grid(slopes@)) && is_cellwise_product(
                grid(errors@),
                grid(slopes@),
                grid(g@),
            ));
            Ok(g)
        },
        Err(e) => Err(e),
    }
}

/// The change to the weights of a layer that was given `inputs` and has
/// `gradient`: the product of the gradient and the inputs laid on their
/// side, times `rate`.
fn weight_delta<T: Scalar>(gradient: &Vec<Vec<T>>, inputs: &Vec<Vec<T>>, rate: T) -> (r: Result<
    Vec<Vec<T>>,
    MatrixError,
>)
    requires
        rectangular(grid(gradient@)),
        rectangular(grid(inputs@)),
    ensures
        match r {
            Ok(d) => {
                &&& multipliable(grid(gradient@), transposed(grid(inputs@)))
                &&& is_weight_delta(grid(gradient@), grid(inputs@), rate, grid(d@))
                &&& gradient.len() == 0 || transposed(grid(inputs@)).len() == 0 ==> d.len() == 0
                &&& gradient.len() != 0 && transposed(grid(inputs@)).len() != 0 ==> has_shape(
                    grid(d@),
                    gradient.len() as nat,
                    inputs.len() as nat,
                )
            },
            Err(e) => e == MatrixError::DimensionMismatch && !multipliable(
                grid(gradient@),
                transposed(grid(inputs@)),
            ),
        },
{
    let across = traspose_matrix(inputs);
    match dot_product(gradient, &across) {
        Ok(outer) => {
            let d = matrix_scale(&outer, rate);
            assert(is_matrix_product(
                grid(gradient@),
                transposed(grid(inputs@)),
                grid(outer@),
            ) && is_scaled(grid(outer@), rate, grid(d@)));
            Ok(d)
        },
        Err(e) => Err(e),
    }
}

/// `m` is what a layer of `rows` nodes with `cols` inputs may start from:
/// draws from the normal distribution with mean zero and standard deviation
/// `rows^(-1/2)`.
pub open spec fn is_initial_weights<T: Scalar>(rows: usize, cols: usize, m: Seq<Seq<T>>) -> bool {
    exists|mean: T, dev: T|
        #![trigger is_zero(mean), is_inverse_root(rows, dev)]
        is_zero(mean) && is_inverse_root(rows, dev) && is_sign(dev, false) && is_normal_matrix(
            mean,
            dev,
            rows as nat,
            cols as nat,
            m,
        )
}

/// The initial weights of a layer of `rows` nodes may be refused: the
/// standard deviation `rows^(-1/2)` may count as negative, or a draw with it
/// may give nothing.
pub open spec fn is_refused_layer<T: Scalar>(rows: usize) -> bool {
    exists|mean: T, dev: T|
        #![trigger is_zero(mean), is_inverse_root(rows, dev)]
        is_zero(mean) && is_inverse_root(rows, dev) && (is_sign(dev, true) || is_draw(
            mean,
            dev,
            None,
        ))
}

/// The initial weights of a layer of `rows` nodes with `cols` inputs each.
fn initial_weights<T: Scalar>(rows: usize, cols: usize) -> (r: Result<Vec<Vec<T>>, MatrixError>)
    requires
        rows > 0,
        cols > 0,
    ensures
        match r {
            Ok(m) => is_initial_weights(rows, cols, grid(m@)) && has_shape(
                grid(m@),
                rows as nat,
                cols as nat,
            ),
            Err(e) => e == MatrixError::InvalidDistributionParameters && is_refused_layer::<T>(
                rows,
            ),
        },
{
    let mean: T = T::zero();
    let dev: T = inverse_root(rows);
    match random_normal_matrix(mean, dev, (rows, cols)) {
        Ok(m) => {
            assert(is_zero(mean) && is_inverse_root(rows, dev) && is_sign(dev, false)
                && is_normal_matrix(mean, dev, rows as nat, cols as nat, grid(m@)));
            Ok(m)
        },
        Err(e) => {
            assert(is_zero(mean) && is_inverse_root(rows, dev) && (is_sign(dev, true) || is_draw(
                mean,
                dev,
                None,
            )));
            Err(e)
        },
    }
}

impl<T: Scalar> NeuralNetwork<T> {
    /// A network of the given layer sizes with freshly drawn weights.
    ///
    /// Both weight matrices are drawn from normal distributions with mean
    /// zero. The standard deviation is `hidden_nodes^(-1/2)` for the weights
    /// into the hidden layer and `output_nodes^(-1/2)` for those into the
    /// output layer. Whether a distribution is accepted lies with the number
    /// type; where it is not, no network is made.
    pub fn new(
        input_nodes_number: usize,
        hidden_nodes_number: usize,
        output_nodes_number: usize,
        learning_rate: T,
    ) -> (r: Result<NeuralNetwork<T>, MatrixError>)
        requires
            input_nodes_number > 0,
            hidden_nodes_number > 0,
            output_nodes_number > 0,
        ensures
            match r {
                Ok(net) => {
                    &&& net@.well_formed()
                    &&& net@.input_nodes() == input_nodes_number
                    &&& net@.hidden_nodes() == hidden_nodes_number
                    &&& net@.output_nodes() == output_nodes_number
                    &&& net@.learning_rate == learning_rate
                    &&& is_initial_weights(
                        hidden_nodes_number,
                        input_nodes_number,
                        net@.weights_in_hid,
                    )
                    &&& is_initial_weights(
                        output_nodes_number,
                        hidden_nodes_number,
                        net@.weights_hid_out,
                    )
                },
                Err(e) => {
                    &&& e == MatrixError::InvalidDistributionParameters
                    &&& is_refused_layer::<T>(hidden_nodes_number) || is_refused_layer::<T>(
                        output_nodes_number,
                    )
                },
            },
    {
        let weights_in_hid = match initial_weights(hidden_nodes_number, input_nodes_number) {
            Ok(m) => m,
            Err(e) => {
                return Err(e);
            },
        };
        let weights_hid_out = match initial_weights(output_nodes_number, hidden_nodes_number) {
            Ok(m) => m,
            Err(e) => {
                return Err(e);
            },
        };
        assert(grid(weights_in_hid@)[0].len() == input_nodes_number);
        Ok(NeuralNetwork { weights_in_hid, weights_hid_out, learning_rate })
    }

    /// A network that holds the given weights and learning rate.
    ///
    /// The weights are accepted where they fit three layers of at least one
    /// node each: `weights_in_hid` has a row for each hidden node and a
    /// column for each input node, `weights_hid_out` a row for each output
    /// node and a column for each hidden node.
    pub fn from_weights(
        weights_in_hid: Vec<Vec<T>>,
        weights_hid_out: Vec<Vec<T>>,
        learning_rate: T,
    ) -> (r: Result<NeuralNetwork<T>, MatrixError>)
        ensures
            match r {
                Ok(net) => {
                    &&& net@.well_formed()
                    &&& net@.weights_in_hid == grid(weights_in_hid@)
                    &&& net@.weights_hid_out == grid(weights_hid_out@)
                    &&& net@.learning_rate == learning_rate
                },
                Err(e) => {
                    &&& e == MatrixError::DimensionMismatch
                    &&& !(NetworkModel {
                        weights_in_hid: grid(weights_in_hid@),
                        weights_hid_out: grid(weights_hid_out@),
                        learning_rate,
                    }).well_formed()
                },
            },
    {
        let ghost model = NetworkModel {
            weights_in_hid: grid(weights_in_hid@),
            weights_hid_out: grid(weights_hid_out@),
            learning_rate,
        };
        if weights_in_hid.len() == 0 || weights_hid_out.len() == 0 {
            return Err(MatrixError::DimensionMismatch);
        }
        assert(model.weights_in_hid[0] == weights_in_hid[0]@);
        assert(model.weights_hid_out[0] == weights_hid_out[0]@);
        if weights_in_hid[0].len() == 0 || weights_hid_out[0].len() != weights_in_hid.len() {
            return Err(MatrixError::DimensionMismatch);
        }
        if !is_rectangular(&weights_in_hid) || !is_rectangular(&weights_hid_out) {
            return Err(MatrixError::DimensionMismatch);
        }
        Ok(NeuralNetwork { weights_in_hid, weights_hid_out, learning_rate })
    }

    /// The number of input nodes.
    pub fn input_nodes(&self) -> (n: usize)
        requires
            self@.well_formed(),
        ensures
            n == self@.input_nodes(),
    {
        self.weights_in_hid[0].len()
    }

    /// The number of hidden nodes.
    pub fn hidden_nodes(&self) -> (n: usize)
        ensures
            n == self@.hidden_nodes(),
    {
        self.weights_in_hid.len()
    }

    /// The number of output nodes.
    pub fn output_nodes(&self) -> (n: usize)
        ensures
            n == self@.output_nodes(),
    {
        self.weights_hid_out.len()
    }

    /// The learning rate.
    pub fn learning_rate(&self) -> (rate: T)
        ensures
            rate == self@.learning_rate,
    {
        self.learning_rate
    }

    /// The weights from the input layer to the hidden layer.
    pub fn weights_in_hid(&self) -> (w: &Vec<Vec<T>>)
        ensures
            grid(w@) == self@.weights_in_hid,
    {
        &self.weights_in_hid
    }

    /// The weights from the hidden layer to the output layer.
    pub fn weights_hid_out(&self) -> (w: &Vec<Vec<T>>)
        ensures
            grid(w@) == self@.weights_hid_out,
    {
        &self.weights_hid_out
    }

    /// What the network answers to `input_list`: a matrix of one column with
    /// one row for each output node.
    ///
    /// The input is laid out as a column and passed through both layers. The
    /// kernel judges its length: a list of another length than the input
    /// layer is a dimension mismatch, and the empty list gives the empty
    /// matrix. The network itself is left as it was.
    pub fn query(&self, input_list: Vec<T>) -> (r: Result<Vec<Vec<T>>, MatrixError>)
        requires
            self@.well_formed(),
        ensures
            match r {
                Ok(outputs) => {
                    &&& input_list@.len() == 0 || input_list@.len() == self@.input_nodes()
                    &&& is_inference(self@, column_vector(input_list@), grid(outputs@))
                    &&& input_list@.len() == 0 ==> outputs@.len() == 0
                    &&& input_list@.len() != 0 ==> has_shape(
                        grid(outputs@),
                        self@.output_nodes(),
                        1,
                    )
                },
                Err(e) => {
                    &&& e == MatrixError::DimensionMismatch
                    &&& input_list@.len() != 0
                    &&& input_list@.len() != self@.input_nodes()
                },
            },
    {
        let inputs = column_of(input_list);
        assert(grid(inputs@).len() == inputs.len());
        let hidden_outputs = match feed(&self.weights_in_hid, &inputs) {
            Ok(m) => m,
            Err(e) => {
                return Err(e);
            },
        };
        let final_outputs = match feed(&self.weights_hid_out, &hidden_outputs) {
            Ok(m) => m,
            Err(e) => {
                return Err(e);
            },
        };
        assert(is_layer_output(self@.weights_in_hid, grid(inputs@), grid(hidden_outputs@))
            && is_layer_output(self@.weights_hid_out, grid(hidden_outputs@), grid(final_outputs@)));
        Ok(final_outputs)
    }

    /// One step of training on one sample.
    ///
    /// The step runs the forward pass as `query` does, works out both changes
    /// of weights from the weights as they are, and only then adds them. It
    /// succeeds exactly where the input is as long as the input layer and the
    /// target as long as the output layer; on any other sample it reports the
    /// mismatch that the kernel found and leaves the network as it was.
    pub fn train(&mut self, input_list: Vec<T>, target_list: Vec<T>) -> (r: Result<
        (),
        MatrixError,
    >)
        requires
            old(self)@.well_formed(),
        ensures
            final(self)@.well_formed(),
            final(self)@.input_nodes() == old(self)@.input_nodes(),
            final(self)@.hidden_nodes() == old(self)@.hidden_nodes(),
            final(self)@.output_nodes() == old(self)@.output_nodes(),
            match r {
                Ok(_) => {
                    &&& input_list@.len() == old(self)@.input_nodes()
                    &&& target_list@.len() == old(self)@.output_nodes()
                    &&& is_training_step(
                        old(self)@,
                        column_vector(input_list@),
                        column_vector(target_list@),
                        final(self)@,
                    )
                },
                Err(e) => {
                    &&& e == MatrixError::DimensionMismatch
                    &&& input_list@.len() != old(self)@.input_nodes() || target_list@.len()
                        != old(self)@.output_nodes()
                    &&& final(self)@ == old(self)@
                },
            },
    {
        let inputs = column_of(input_list);
        let targets = column_of(target_list);
        assert(grid(inputs@).len() == inputs.len());
        assert(grid(targets@).len() == targets.len());

        let hidden_outputs = match feed(&self.weights_in_hid, &inputs) {
            Ok(m) => m,
            Err(e) => {
                return Err(e);
            },
        };
        let final_outputs = match feed(&self.weights_hid_out, &hidden_outputs) {
            Ok(m) => m,
            Err(e) => {
                return Err(e);
            },
        };
        let output_errors = match matrix_subtract(&targets, &final_outputs) {
            Ok(m) => m,
            Err(e) => {
                return Err(e);
            },
        };
        let output_grad = match gradient(&output_errors, &final_outputs) {
            Ok(m) => m,
            Err(e) => {
                return Err(e);
            },
        };
        let delta_hid_out = match weight_delta(&output_grad, &hidden_outputs, self.learning_rate) {
            Ok(m) => m,
            Err(e) => {
                return Err(e);
            },
        };
        let back = traspose_matrix(&self.weights_hid_out);
        let hidden_errors = match dot_product(&back, &output_grad) {
            Ok(m) => m,
            Err(e) => {
                return Err(e);
            },
        };
        let hidden_grad = match gradient(&hidden_errors, &hidden_outputs) {
            Ok(m) => m,
            Err(e) => {
                return Err(e);
            },
        };
        let delta_in_hid = match weight_delta(&hidden_grad, &inputs, self.learning_rate) {
            Ok(m) => m,
            Err(e) => {
                return Err(e);
            },
        };
        let weights_hid_out = match matrix_add(&self.weights_hid_out, &delta_hid_out) {
            Ok(m) => m,
            Err(e) => {
                return Err(e);
            },
        };
        let weights_in_hid = match matrix_add(&self.weights_in_hid, &delta_in_hid) {
            Ok(m) => m,
            Err(e) => {
                return Err(e);
            },
        };
        proof {
            let pass = Backpropagation {
                hidden_outputs: grid(hidden_outputs@),
                final_outputs: grid(final_outputs@),
                output_errors: grid(output_errors@),
                output_gradient: grid(output_grad@),
                hidden_errors: grid(hidden_errors@),
                hidden_gradient: grid(hidden_grad@),
                delta_hid_out: grid(delta_hid_out@),
                delta_in_hid: grid(delta_in_hid@),
            };
            assert(is_backpropagation(
                old(self)@,
                column_vector(input_list@),
                column_vector(target_list@),
                pass,
            ));
        }
        self.weights_hid_out = weights_hid_out;
        self.weights_in_hid = weights_in_hid;
        Ok(())
    }
}

} // verus!
