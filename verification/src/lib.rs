//! A three-layer feedforward network trained by backpropagation, and the dense
//! matrix kernel beneath it, generic in the numbers that the matrices hold.

pub mod error;
pub mod math;
pub mod network;
pub mod scalar;
pub mod shape;
pub mod uniqueness;

pub use error::MatrixError;
pub use math::{
    dot_product, is_rectangular, matrix_add, matrix_elementwise_mul, matrix_scale, matrix_subtract,
    random_normal_matrix, sigmoid, sigmoid_derivative, sigmoid_matrix, traspose_matrix,
};
pub use network::NeuralNetwork;
pub use scalar::{inverse_root, sigmoid_slope, Scalar};
