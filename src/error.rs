use vstd::prelude::*;

verus! {

/// Why an operation of the engine refused to run.
#[derive(Debug, Clone, Copy, PartialEq, Eq, Structural)]
pub enum NetError {
    /// A network needs at least an input width and an output width.
    TooFewLayers { found: usize },
    /// Each layer needs exactly one activation.
    ActivationCount { expected: usize, found: usize },
    /// A vector's length differs from the width it is fed to.
    DimensionMismatch { expected: usize, found: usize },
    /// A network was given another number of layers than its topology has.
    LayerCount { expected: usize, found: usize },
    /// Layer `layer` has another shape than the topology gives it.
    ShapeMismatch { layer: usize },
    /// `backward` was called before any `forward` filled the caches.
    BackwardBeforeForward,
    /// A mini-batch must hold at least one example.
    ZeroBatchSize,
}

} // verus!
