//! Structural core of a small feedforward network engine: layer topology,
//! the forward/backward lifecycle of layers and networks, the mini-batch
//! training schedule, activation variants and label encoding.

mod activations;
mod error;
mod math;
mod phase;
mod schedule;
mod topology;

pub use activations::{Activation, Sigmoid, RELU};
pub use error::NetError;
pub use math::one_hot_encode;
pub use topology::{chain_width, lemma_forward_width, shape_from_rows, shapes_of, uniform_activations, LayerShape, Topology};
pub use phase::{backward_outcome, forward_outcome, reverse_order, LayerPhase, LayerState, NetworkPhase};
pub use schedule::{batches_of, epoch_steps, lemma_batches_partition, mini_batches, schedule, Batch, TrainSchedule, TrainStep};
