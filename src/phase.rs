use vstd::prelude::*;

use crate::error::NetError;
use crate::topology::{LayerShape, Topology};

verus! {

/// Whether the caches that `backward` reads have been filled.
#[derive(Debug, Clone, Copy, PartialEq, Eq, Structural)]
pub enum LayerState {
    /// No `forward` has run yet: there is nothing to propagate back.
    Uninitialized,
    /// The last `forward` left its input and output in the caches.
    ReadyAfterForward,
}

/// The outcome of a `forward` on a vector of length `len` into a layer or
/// network whose input width is `input_width`.
pub open spec fn forward_outcome(input_width: usize, len: usize) -> Result<(), NetError> {
    if len == input_width {
        Ok(())
    } else {
        Err((NetError::DimensionMismatch { expected: input_width, found: len }))
    }
}

/// The outcome of a `backward` that hands `len` values to a layer or
/// network in `state` whose output width is `output_width`.
pub open spec fn backward_outcome(state: LayerState, output_width: usize, len: usize) -> Result<
    (),
    NetError,
> {
    if state is Uninitialized {
        Err(NetError::BackwardBeforeForward)
    } else if len != output_width {
        Err((NetError::DimensionMismatch { expected: output_width, found: len }))
    } else {
        Ok(())
    }
}

/// The layer indices from last to first: the order of the reverse pass.
pub open spec fn reverse_order(layers: nat) -> Seq<usize> {
    Seq::new(layers, |k: int| (layers - 1 - k) as usize)
}

/// The lifecycle of one dense layer: its shape, which never changes, and
/// whether its caches hold the data of a forward pass.
#[derive(Debug, Clone, Copy, PartialEq, Eq, Structural)]
pub struct LayerPhase {
    pub shape: LayerShape,
    pub state: LayerState,
}

impl LayerPhase {
    /// A layer of the given shape on which no forward pass has run.
    pub fn new(shape: LayerShape) -> (r: Self)
        ensures
            r.shape == shape,
            r.state == LayerState::Uninitialized,
    {
        LayerPhase { shape, state: LayerState::Uninitialized }
    }

    /// Admits a forward pass on an input of length `input_len`: it must be
    /// the layer's input width. An admitted pass leaves the layer ready for
    /// `backward`; a refused one changes nothing.
    pub fn forward(&mut self, input_len: usize) -> (r: Result<(), NetError>)
        ensures
            r == forward_outcome(old(self).shape.input_dim, input_len),
            final(self).shape == old(self).shape,
            r is Ok ==> final(self).state == LayerState::ReadyAfterForward,
            r is Err ==> *final(self) == *old(self),
    {
        if input_len != self.shape.input_dim {
            return Err(NetError::DimensionMismatch { expected: self.shape.input_dim, found: input_len });
        }
        self.state = LayerState::ReadyAfterForward;
        Ok(())
    }

    /// Admits a backward pass with an upstream gradient of length
    /// `gradient_len`: a forward pass must have run, and the length must be
    /// the layer's output width. The layer stays ready afterwards.
    pub fn backward(&self, gradient_len: usize) -> (r: Result<(), NetError>)
        ensures
            r == backward_outcome(self.state, self.shape.output_dim, gradient_len),
    {
        match self.state {
            LayerState::Uninitialized => Err(NetError::BackwardBeforeForward),
            LayerState::ReadyAfterForward => {
                if gradient_len != self.shape.output_dim {
                    Err(NetError::DimensionMismatch { expected: self.shape.output_dim, found: gradient_len })
                } else {
                    Ok(())
                }
            },
        }
    }
}

/// The lifecycle of a whole network: its topology, which never changes,
/// and whether a forward pass has filled the caches of its layers.
pub struct NetworkPhase {
    pub topology: Topology,
    pub state: LayerState,
}

impl NetworkPhase {
    /// A network of the given topology on which no forward pass has run.
    pub fn new(topology: Topology) -> (r: Self)
        ensures
            r.topology == topology,
            r.state == LayerState::Uninitialized,
    {
        NetworkPhase { topology, state: LayerState::Uninitialized }
    }

    /// Admits a forward pass on an input of length `input_len`: it must be
    /// the network's input width. An admitted pass leaves the network ready
    /// for `backward`; a refused one changes nothing.
    pub fn forward(&mut self, input_len: usize) -> (r: Result<(), NetError>)
        ensures
            r == forward_outcome(old(self).topology.spec_input_width(), input_len),
            final(self).topology == old(self).topology,
            r is Ok ==> final(self).state == LayerState::ReadyAfterForward,
            r is Err ==> final(self).state == old(self).state,
    {
        let checked = self.topology.check_input(input_len);
        if checked.is_ok() {
            self.state = LayerState::ReadyAfterForward;
        }
        checked
    }

    /// Admits a backward pass towards a target of length `target_len`: a
    /// forward pass must have run, and the length must be the network's
    /// output width. On success it returns the order in which the layers
    /// are to be visited: from the last to the first.
    pub fn backward(&self, target_len: usize) -> (r: Result<Vec<usize>, NetError>)
        ensures
            backward_outcome(self.state, self.topology.spec_output_width(), target_len) matches Err(
                e,
            ) ==> r == Err::<Vec<usize>, NetError>(e),
            backward_outcome(self.state, self.topology.spec_output_width(), target_len) is Ok ==> (
            r matches Ok(order) && order@ == reverse_order(self.topology.spec_num_layers())),
    {
        if let LayerState::Uninitialized = self.state {
            return Err(NetError::BackwardBeforeForward);
        }
        let checked = self.topology.check_target(target_len);
        if let Err(e) = checked {
            return Err(e);
        }
        let layers = self.topology.num_layers();
        let mut order: Vec<usize> = Vec::new();
        let mut k: usize = 0;
        while k < layers
            invariant
                k <= layers,
                order@ =~= reverse_order(layers as nat).take(k as int),
            decreases layers - k,
        {
            order.push(layers - 1 - k);
            k = k + 1;
            assert(order@ =~= reverse_order(layers as nat).take(k as int));
        }
        assert(order@ =~= reverse_order(layers as nat));
        Ok(order)
    }
}

} // verus!
