use vstd::prelude::*;

verus! {

/// The activation applied after a layer's weighted sum.
///
/// All variants but `Softmax` act on each unit alone; `Softmax` normalises
/// the whole pre-activation vector.
#[derive(Debug, Clone, Copy, PartialEq, Eq, Structural)]
pub enum Activation {
    Identity,
    ReLU,
    Sigmoid,
    Softmax,
}

impl Activation {
    /// Whether the activation maps each unit on its own.
    pub open spec fn spec_is_elementwise(self) -> bool {
        !(self is Softmax)
    }

    /// Whether the activation maps each unit on its own (every variant
    /// but `Softmax`).
    pub fn is_elementwise(&self) -> (r: bool)
        ensures
            r == self.spec_is_elementwise(),
    {
        match self {
            Activation::Softmax => false,
            _ => true,
        }
    }
}

/// The rectified linear unit: `max(x, 0)`, with slope 1 above zero and 0 at
/// or below it.
pub struct RELU {}

/// The logistic function `1 / (1 + e^-x)`, whose slope is taken from its
/// output `y` as `y * (1 - y)`.
pub struct Sigmoid {}

impl RELU {
    pub fn new() -> (r: Self) {
        RELU {}
    }

    /// The variant of the closed activation type that this unit stands for.
    pub fn kind(&self) -> (r: Activation)
        ensures
            r == Activation::ReLU,
    {
        Activation::ReLU
    }
}

impl Sigmoid {
    pub fn new() -> (r: Self) {
        Sigmoid {}
    }

    /// The variant of the closed activation type that this unit stands for.
    pub fn kind(&self) -> (r: Activation)
        ensures
            r == Activation::Sigmoid,
    {
        Activation::Sigmoid
    }
}

} // verus!
