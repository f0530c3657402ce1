use vstd::prelude::*;

use crate::activations::Activation;
use crate::error::NetError;

verus! {

/// The widths of one dense layer: it maps `input_dim` values to
/// `output_dim` values, through a weight matrix of `output_dim` rows and
/// `input_dim` columns.
#[derive(Debug, Clone, Copy, PartialEq, Eq, Structural)]
pub struct LayerShape {
    pub input_dim: usize,
    pub output_dim: usize,
}

/// The shape of a weight matrix whose rows have the lengths `rows`, next
/// to a bias vector of length `biases`: every row must be as long as the
/// first, and there must be one bias per row.
pub open spec fn shape_from_rows(rows: Seq<usize>, biases: usize) -> Result<LayerShape, NetError> {
    let width = if rows.len() == 0 {
        0usize
    } else {
        rows[0]
    };
    if exists|i: int| 0 <= i < rows.len() && rows[i] != width {
        let i = choose|i: int| 0 <= i < rows.len() && rows[i] != width && forall|j: int| 0 <= j < i ==> rows[j] == width;
        Err((NetError::DimensionMismatch { expected: width, found: rows[i] }))
    } else if biases != rows.len() {
        Err((NetError::DimensionMismatch { expected: rows.len() as usize, found: biases }))
    } else {
        Ok((LayerShape { input_dim: width, output_dim: rows.len() as usize }))
    }
}

impl LayerShape {
    /// The shape of a layer given the length of each row of its weight
    /// matrix and the length of its bias vector.
    pub fn from_rows(rows: &Vec<usize>, biases: usize) -> (r: Result<LayerShape, NetError>)
        ensures
            r == shape_from_rows(rows@, biases),
    {
        let width: usize = if rows.len() == 0 {
            0
        } else {
            rows[0]
        };
        let mut i: usize = 0;
        while i < rows.len()
            invariant
                i <= rows@.len(),
                width == (if rows@.len() == 0 { 0usize } else { rows@[0] }),
                forall|j: int| 0 <= j < i ==> rows@[j] == width,
            decreases rows@.len() - i,
        {
            if rows[i] != width {
                let ghost first = i as int;
                proof {
                    let c = choose|k: int|
                        0 <= k < rows@.len() && rows@[k] != width && forall|j: int|
                            0 <= j < k ==> rows@[j] == width;
                    assert(0 <= first < rows@.len() && rows@[first] != width && forall|j: int|
                        0 <= j < first ==> rows@[j] == width);
                    if c < first {
                    } else if c > first {
                        assert(rows@[first] == width);
                    }
                    assert(c == first);
                }
                return Err(NetError::DimensionMismatch { expected: width, found: rows[i] });
            }
            i = i + 1;
        }
        if biases != rows.len() {
            return Err(NetError::DimensionMismatch { expected: rows.len(), found: biases });
        }
        Ok(LayerShape { input_dim: width, output_dim: rows.len() })
    }
}

/// The layers that a sequence of widths describes: layer `i` maps width
/// `widths[i]` to width `widths[i + 1]`.
pub open spec fn shapes_of(widths: Seq<usize>) -> Seq<LayerShape> {
    if widths.len() == 0 {
        Seq::empty()
    } else {
        Seq::new(
            (widths.len() - 1) as nat,
            |i: int| LayerShape { input_dim: widths[i], output_dim: widths[i + 1] },
        )
    }
}

/// The width of what comes out when a vector of length `width` is fed
/// through `shapes` in order, or `None` where some layer receives a vector
/// of another width than its own input width.
pub open spec fn chain_width(shapes: Seq<LayerShape>, width: nat) -> Option<nat>
    decreases shapes.len(),
{
    if shapes.len() == 0 {
        Some(width)
    } else if shapes[0].input_dim == width {
        chain_width(shapes.drop_first(), shapes[0].output_dim as nat)
    } else {
        None
    }
}

/// The activations of a network whose hidden layers share one activation
/// and whose last layer has its own.
pub open spec fn uniform_activations(layers: nat, hidden: Activation, output: Activation) -> Seq<
    Activation,
> {
    Seq::new(layers, |i: int| if i == layers - 1 { output } else { hidden })
}

/// The shape of a network: its widths, input first and output last, and the
/// activation of each layer. Adjacent layers agree on the width between
/// them by construction.
pub struct Topology {
    widths: Vec<usize>,
    activations: Vec<Activation>,
}

impl Topology {
    #[verifier::type_invariant]
    spec fn well_formed(self) -> bool {
        &&& self.widths@.len() >= 2
        &&& self.activations@.len() + 1 == self.widths@.len()
    }

    /// The widths, input first and output last.
    pub closed spec fn spec_widths(self) -> Seq<usize> {
        self.widths@
    }

    /// The activation of each layer, first layer first.
    pub closed spec fn spec_activations(self) -> Seq<Activation> {
        self.activations@
    }

    pub open spec fn spec_num_layers(self) -> nat {
        (self.spec_widths().len() - 1) as nat
    }

    pub open spec fn spec_input_width(self) -> usize {
        self.spec_widths()[0]
    }

    pub open spec fn spec_output_width(self) -> usize {
        self.spec_widths().last()
    }

    pub open spec fn spec_shapes(self) -> Seq<LayerShape> {
        shapes_of(self.spec_widths())
    }

    /// Builds the topology of `widths.len() - 1` layers, layer `i` with
    /// activation `activations[i]`.
    pub fn new(widths: Vec<usize>, activations: Vec<Activation>) -> (r: Result<Topology, NetError>)
        ensures
            widths.len() < 2 ==> r == Err::<Topology, NetError>(
                (NetError::TooFewLayers { found: widths.len() }),
            ),
            widths.len() >= 2 && activations.len() + 1 != widths.len() ==> r == Err::<
                Topology,
                NetError,
            >((NetError::ActivationCount { expected: (widths.len() - 1) as usize, found: activations.len() })),
            widths.len() >= 2 && activations.len() + 1 == widths.len() ==> (r matches Ok(t)
                && t.spec_widths() == widths@ && t.spec_activations() == activations@),
    {
        if widths.len() < 2 {
            return Err(NetError::TooFewLayers { found: widths.len() });
        }
        if activations.len() != widths.len() - 1 {
            return Err(NetError::ActivationCount { expected: widths.len() - 1, found: activations.len() });
        }
        Ok(Topology { widths, activations })
    }

    /// Builds the topology in which every layer but the last has activation
    /// `hidden`, and the last has `output`.
    pub fn uniform(widths: Vec<usize>, hidden: Activation, output: Activation) -> (r: Result<
        Topology,
        NetError,
    >)
        ensures
            widths.len() < 2 ==> r == Err::<Topology, NetError>(
                (NetError::TooFewLayers { found: widths.len() }),
            ),
            widths.len() >= 2 ==> (r matches Ok(t) && t.spec_widths() == widths@
                && t.spec_activations() == uniform_activations(
                (widths.len() - 1) as nat,
                hidden,
                output,
            )),
    {
        if widths.len() < 2 {
            return Err(NetError::TooFewLayers { found: widths.len() });
        }
        let layers = widths.len() - 1;
        let mut activations: Vec<Activation> = Vec::new();
        let mut i: usize = 0;
        while i < layers
            invariant
                i <= layers,
                layers == widths.len() - 1,
                activations@ =~= uniform_activations(layers as nat, hidden, output).take(i as int),
            decreases layers - i,
        {
            if i + 1 == layers {
                activations.push(output);
            } else {
                activations.push(hidden);
            }
            i = i + 1;
            assert(activations@ =~= uniform_activations(layers as nat, hidden, output).take(i as int));
        }
        assert(activations@ =~= uniform_activations(layers as nat, hidden, output));
        Ok(Topology { widths, activations })
    }

    /// The number of layers: one less than the number of widths.
    pub fn num_layers(&self) -> (r: usize)
        ensures
            r == self.spec_num_layers(),
            r >= 1,
            r + 1 == self.spec_widths().len(),
            r == self.spec_activations().len(),
    {
        proof {
            use_type_invariant(self);
        }
        self.widths.len() - 1
    }

    /// The width of the vectors the network takes in.
    pub fn input_width(&self) -> (r: usize)
        ensures
            r == self.spec_input_width(),
    {
        proof {
            use_type_invariant(self);
        }
        self.widths[0]
    }

    /// The width of the vectors the network hands out.
    pub fn output_width(&self) -> (r: usize)
        ensures
            r == self.spec_output_width(),
    {
        proof {
            use_type_invariant(self);
        }
        self.widths[self.widths.len() - 1]
    }

    /// The widths, input first and output last.
    pub fn widths(&self) -> (r: &Vec<usize>)
        ensures
            r@ == self.spec_widths(),
    {
        &self.widths
    }

    /// The shape of layer `i`.
    pub fn layer_shape(&self, i: usize) -> (r: LayerShape)
        requires
            i < self.spec_num_layers(),
        ensures
            r == self.spec_shapes()[i as int],
    {
        proof {
            use_type_invariant(self);
        }
        let n = self.widths.len();
        assert(i + 1 < n);
        LayerShape { input_dim: self.widths[i], output_dim: self.widths[i + 1] }
    }

    /// The activation of layer `i`.
    pub fn layer_activation(&self, i: usize) -> (r: Activation)
        requires
            i < self.spec_num_layers(),
        ensures
            r == self.spec_activations()[i as int],
    {
        proof {
            use_type_invariant(self);
        }
        self.activations[i]
    }

    /// The shape of every layer, first layer first.
    pub fn layer_shapes(&self) -> (r: Vec<LayerShape>)
        ensures
            r@ == self.spec_shapes(),
    {
        proof {
            use_type_invariant(self);
        }
        let layers = self.widths.len() - 1;
        let mut shapes: Vec<LayerShape> = Vec::new();
        let mut i: usize = 0;
        while i < layers
            invariant
                i <= layers,
                layers + 1 == self.widths@.len(),
                shapes@ =~= shapes_of(self.widths@).take(i as int),
            decreases layers - i,
        {
            shapes.push(LayerShape { input_dim: self.widths[i], output_dim: self.widths[i + 1] });
            i = i + 1;
            assert(shapes@ =~= shapes_of(self.widths@).take(i as int));
        }
        assert(shapes@ =~= shapes_of(self.widths@));
        shapes
    }

    /// Accepts the layers of shapes `shapes` only where they are this
    /// topology's layers: as many, and each of the shape it gives.
    pub fn check_layers(&self, shapes: &Vec<LayerShape>) -> (r: Result<(), NetError>)
        ensures
            shapes@.len() != self.spec_num_layers() ==> r == Err::<(), NetError>(
                (NetError::LayerCount { expected: self.spec_num_layers() as usize, found: shapes.len() }),
            ),
            shapes@.len() == self.spec_num_layers() && shapes@ == self.spec_shapes() ==> r is Ok,
            shapes@.len() == self.spec_num_layers() && shapes@ != self.spec_shapes() ==> (r matches Err(
                NetError::ShapeMismatch { layer },
            ) && layer < shapes@.len() && shapes@[layer as int] != self.spec_shapes()[layer as int]
                && forall|j: int| 0 <= j < layer ==> shapes@[j] == self.spec_shapes()[j]),
    {
        let layers = self.num_layers();
        if shapes.len() != layers {
            return Err(NetError::LayerCount { expected: layers, found: shapes.len() });
        }
        let mut i: usize = 0;
        while i < layers
            invariant
                i <= layers,
                layers == self.spec_num_layers(),
                shapes@.len() == layers,
                self.spec_shapes().len() == layers,
                forall|j: int| 0 <= j < i ==> shapes@[j] == self.spec_shapes()[j],
            decreases layers - i,
        {
            let expected = self.layer_shape(i);
            if shapes[i] != expected {
                return Err(NetError::ShapeMismatch { layer: i });
            }
            i = i + 1;
        }
        assert(shapes@ =~= self.spec_shapes());
        Ok(())
    }

    /// Accepts an input vector of length `len` only where it is the input
    /// width.
    pub fn check_input(&self, len: usize) -> (r: Result<(), NetError>)
        ensures
            r == if len == self.spec_input_width() {
                Ok::<(), NetError>(())
            } else {
                Err((NetError::DimensionMismatch { expected: self.spec_input_width(), found: len }))
            },
    {
        let expected = self.input_width();
        if len == expected {
            Ok(())
        } else {
            Err(NetError::DimensionMismatch { expected, found: len })
        }
    }

    /// Accepts a target vector of length `len` only where it is the output
    /// width.
    pub fn check_target(&self, len: usize) -> (r: Result<(), NetError>)
        ensures
            r == if len == self.spec_output_width() {
                Ok::<(), NetError>(())
            } else {
                Err((NetError::DimensionMismatch { expected: self.spec_output_width(), found: len }))
            },
    {
        let expected = self.output_width();
        if len == expected {
            Ok(())
        } else {
            Err(NetError::DimensionMismatch { expected, found: len })
        }
    }
}

/// Feeding a vector of the first width through the layers that a sequence
/// of at least two widths describes passes every layer's width check and
/// yields a vector of the last width.
pub proof fn lemma_forward_width(widths: Seq<usize>)
    requires
        widths.len() >= 2,
    ensures
        chain_width(shapes_of(widths), widths[0] as nat) == Some(widths.last() as nat),
    decreases widths.len(),
{
    let shapes = shapes_of(widths);
    assert(shapes.len() == widths.len() - 1);
    assert(shapes[0].input_dim == widths[0]);
    assert(chain_width(shapes, widths[0] as nat) == chain_width(
        shapes.drop_first(),
        widths[1] as nat,
    ));
    if widths.len() == 2 {
        assert(shapes.drop_first().len() == 0);
    } else {
        let rest = widths.drop_first();
        lemma_forward_width(rest);
        assert(shapes.drop_first() =~= shapes_of(rest));
        assert(rest.last() == widths.last());
    }
}

} // verus!
