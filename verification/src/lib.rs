//! A two-layer classifier trained by finite differences, over decimal
//! scalars of increased precision.
//!
//! Every number is a [`scalar::Scalar`]; arrays of them are
//! [`bigfloat_array::BigFloatArray`] values with a checked shape. The
//! arithmetic itself is done by `num-bigfloat`, matrix products and
//! reductions by `ndarray`, and random draws by `ndarray-rand`; what this
//! crate proves is everything around those calls: shapes, indexing, the
//! perturb-and-restore discipline of the gradient sweep, and the bookkeeping
//! of a training run.
//!
//! - [`scalar`], [`bigfloat_array`], [`linalg`]: numbers, arrays, products
//!   and rows.
//! - [`activation`], [`loss`], [`gates`]: the functions that networks are
//!   made of.
//! - [`gradient`]: central differences of functions of scalars and of
//!   arrays, and gradient descent.
//! - [`gradient_simplenet`], [`two_layer`], [`training`]: a single layer, the
//!   two-layer network with its parameter store, and training by
//!   mini-batches.
//! - [`mnist_dataset`], [`neuralnet_mnist`], [`neuralnet_mnist_batch`]: the
//!   MNIST bytes as arrays, and inference with three layers.
//! - [`draw`], [`random`]: the points of a picture, and draws.
pub mod activation;
pub mod bigfloat_array;
pub mod draw;
pub mod gates;
pub mod gradient;
pub mod gradient_simplenet;
pub mod linalg;
pub mod loss;
pub mod mnist_dataset;
pub mod neuralnet_mnist;
pub mod neuralnet_mnist_batch;
pub mod random;
pub mod scalar;
pub mod training;
pub mod two_layer;
