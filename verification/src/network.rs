//! The layer layout of a network and the shapes of its buffers.
//!
//! A network is an ordered sequence of layers. Layer 0 is the input layer and
//! owns no parameters; every later layer `l` owns a weight matrix of
//! `sizes[l]` rows and `sizes[l - 1]` columns and a bias column of `sizes[l]`
//! rows. Every buffer the trainer works on takes its shape from here.

use vstd::prelude::*;
use crate::error::NetworkError;
use crate::shape::Shape;

verus! {

/// The cost whose gradient drives the output layer.
#[derive(Clone, Copy, Debug, PartialEq, Eq, Structural)]
pub enum CostFunction {
    /// Half the squared distance between output and target.
    Quadratic,
    /// The cross-entropy between output and target.
    CrossEntropy,
}

/// How the weights are drawn at construction.
#[derive(Clone, Copy, Debug, PartialEq, Eq, Structural)]
pub enum WeightInit {
    /// Every weight is a standard normal draw.
    Plain,
    /// Every weight is a standard normal draw divided by the square root of
    /// the layer's fan-in.
    Scaled,
}

/// Layer sizes describe a network when there are at least two layers and no
/// layer is empty.
pub open spec fn valid_layer_sizes(sizes: Seq<usize>) -> bool {
    &&& sizes.len() >= 2
    &&& forall|l: int| 0 <= l < sizes.len() ==> sizes[l] > 0
}

/// Shape of the weight matrix of layer `l`: empty at the input layer.
pub open spec fn weight_shape_of(sizes: Seq<usize>, l: int) -> Shape {
    if 1 <= l < sizes.len() {
        Shape { rows: sizes[l], cols: sizes[l - 1] }
    } else {
        Shape::empty()
    }
}

/// Shape of the bias column of layer `l`: empty at the input layer.
pub open spec fn bias_shape_of(sizes: Seq<usize>, l: int) -> Shape {
    if 1 <= l < sizes.len() {
        Shape::column(sizes[l])
    } else {
        Shape::empty()
    }
}

/// Shape of the activation column of layer `l`.
pub open spec fn activation_shape_of(sizes: Seq<usize>, l: int) -> Shape {
    if 0 <= l < sizes.len() {
        Shape::column(sizes[l])
    } else {
        Shape::empty()
    }
}

/// The shapes of the buffers a network works on, one entry per layer.
///
/// `weights` is also the shape of the two weight-gradient buffers; `biases`
/// is also the shape of the weighted inputs and of the two bias-gradient
/// buffers.
pub struct Layout {
    pub biases: Vec<Shape>,
    pub weights: Vec<Shape>,
    pub activations: Vec<Shape>,
}

/// A network's fixed configuration: layer sizes, cost and initialisation.
pub struct Network {
    sizes: Vec<usize>,
    cost: CostFunction,
    init: WeightInit,
}

impl View for Network {
    type V = Seq<usize>;

    /// The layer sizes, input layer first.
    closed spec fn view(&self) -> Seq<usize> {
        self.sizes@
    }
}

impl Network {
    /// The invariant of every constructed network.
    pub open spec fn wf(&self) -> bool {
        valid_layer_sizes(self@)
    }

    /// The configured cost function.
    pub closed spec fn spec_cost(&self) -> CostFunction {
        self.cost
    }

    /// The configured initialisation policy.
    pub closed spec fn spec_init(&self) -> WeightInit {
        self.init
    }

    /// Builds a network over `layer_sizes`, or reports `InvalidTopology` when
    /// fewer than two sizes are given or one of them is zero.
    pub fn new(layer_sizes: &[usize], init: WeightInit, cost: CostFunction) -> (r: Result<
        Network,
        NetworkError,
    >)
        ensures
            r.is_ok() <==> valid_layer_sizes(layer_sizes@),
            r matches Ok(net) ==> net@ == layer_sizes@ && net.wf() && net.spec_cost() == cost
                && net.spec_init() == init,
            r matches Err(e) ==> e == NetworkError::InvalidTopology,
    {
        if layer_sizes.len() < 2 {
            return Err(NetworkError::InvalidTopology);
        }
        let mut sizes: Vec<usize> = Vec::with_capacity(layer_sizes.len());
        let mut l: usize = 0;
        while l < layer_sizes.len()
            invariant
                l <= layer_sizes.len(),
                sizes@ == layer_sizes@.subrange(0, l as int),
                forall|k: int| 0 <= k < l ==> layer_sizes@[k] > 0,
            decreases layer_sizes.len() - l,
        {
            if layer_sizes[l] == 0 {
                return Err(NetworkError::InvalidTopology);
            }
            sizes.push(layer_sizes[l]);
            proof {
                assert(sizes@ =~= layer_sizes@.subrange(0, l + 1));
            }
            l += 1;
        }
        proof {
            assert(sizes@ =~= layer_sizes@);
        }
        Ok(Network { sizes, cost, init })
    }

    /// Number of layers, the input layer included.
    pub fn num_layers(&self) -> (n: usize)
        ensures
            n == self@.len(),
    {
        self.sizes.len()
    }

    /// Index of the output layer.
    pub fn last_layer(&self) -> (l: usize)
        requires
            self.wf(),
        ensures
            l == self@.len() - 1,
    {
        self.sizes.len() - 1
    }

    /// Number of neurons in layer `l`.
    pub fn layer_size(&self, l: usize) -> (n: usize)
        requires
            l < self@.len(),
        ensures
            n == self@[l as int],
    {
        self.sizes[l]
    }

    /// Length of the input vector the network accepts.
    pub fn input_size(&self) -> (n: usize)
        requires
            self.wf(),
        ensures
            n == self@[0],
    {
        self.sizes[0]
    }

    /// Number of classes: length of the output and target vectors.
    pub fn output_size(&self) -> (n: usize)
        requires
            self.wf(),
        ensures
            n == self@[self@.len() - 1],
    {
        self.sizes[self.sizes.len() - 1]
    }

    /// The configured cost function.
    pub fn cost(&self) -> (c: CostFunction)
        ensures
            c == self.spec_cost(),
    {
        self.cost
    }

    /// The configured initialisation policy.
    pub fn init(&self) -> (i: WeightInit)
        ensures
            i == self.spec_init(),
    {
        self.init
    }

    /// Shape of the weight matrix of layer `l`, and of the two gradient
    /// buffers that mirror it. The input layer holds an empty placeholder.
    pub fn weight_shape(&self, l: usize) -> (s: Shape)
        requires
            l < self@.len(),
        ensures
            s == weight_shape_of(self@, l as int),
    {
        if l == 0 {
            Shape { rows: 0, cols: 0 }
        } else {
            Shape { rows: self.sizes[l], cols: self.sizes[l - 1] }
        }
    }

    /// Shape of the bias column of layer `l`, and of the weighted-input and
    /// gradient buffers that mirror it. The input layer holds an empty
    /// placeholder.
    pub fn bias_shape(&self, l: usize) -> (s: Shape)
        requires
            l < self@.len(),
        ensures
            s == bias_shape_of(self@, l as int),
    {
        if l == 0 {
            Shape { rows: 0, cols: 0 }
        } else {
            Shape { rows: self.sizes[l], cols: 1 }
        }
    }

    /// Shape of the activation column of layer `l`.
    pub fn activation_shape(&self, l: usize) -> (s: Shape)
        requires
            l < self@.len(),
        ensures
            s == activation_shape_of(self@, l as int),
    {
        Shape { rows: self.sizes[l], cols: 1 }
    }

    /// Lays out every buffer of the network: for each layer the shape of its
    /// bias column, of its weight matrix and of its activation column.
    pub fn layout(&self) -> (r: Layout)
        ensures
            r.biases@.len() == self@.len(),
            r.weights@.len() == self@.len(),
            r.activations@.len() == self@.len(),
            forall|l: int|
                0 <= l < self@.len() ==> #[trigger] r.biases@[l] == bias_shape_of(self@, l),
            forall|l: int|
                0 <= l < self@.len() ==> #[trigger] r.weights@[l] == weight_shape_of(self@, l),
            forall|l: int|
                0 <= l < self@.len() ==> #[trigger] r.activations@[l] == activation_shape_of(
                    self@,
                    l,
                ),
    {
        let count: usize = self.sizes.len();
        let mut biases: Vec<Shape> = Vec::with_capacity(count);
        let mut weights: Vec<Shape> = Vec::with_capacity(count);
        let mut activations: Vec<Shape> = Vec::with_capacity(count);
        let mut l: usize = 0;
        while l < count
            invariant
                l <= count == self@.len(),
                biases@.len() == l,
                weights@.len() == l,
                activations@.len() == l,
                forall|k: int| 0 <= k < l ==> #[trigger] biases@[k] == bias_shape_of(self@, k),
                forall|k: int| 0 <= k < l ==> #[trigger] weights@[k] == weight_shape_of(self@, k),
                forall|k: int|
                    0 <= k < l ==> #[trigger] activations@[k] == activation_shape_of(self@, k),
            decreases count - l,
        {
            biases.push(self.bias_shape(l));
            weights.push(self.weight_shape(l));
            activations.push(self.activation_shape(l));
            l += 1;
        }
        Layout { biases, weights, activations }
    }

    /// Number of inputs that feed each neuron of layer `l`: the divisor under
    /// the square root of the scaled initialisation.
    pub fn fan_in(&self, l: usize) -> (n: usize)
        requires
            1 <= l < self@.len(),
        ensures
            n == self@[l - 1],
    {
        self.sizes[l - 1]
    }

    /// Whether the output-layer error carries the derivative of the
    /// activation: it does under the quadratic cost and cancels under
    /// cross-entropy.
    pub fn output_delta_uses_derivative(&self) -> (b: bool)
        ensures
            b <==> self.spec_cost() == CostFunction::Quadratic,
    {
        match self.cost {
            CostFunction::Quadratic => true,
            CostFunction::CrossEntropy => false,
        }
    }

    /// Checks a sample against the layout: the input must have one entry per
    /// input neuron, the target one entry per output neuron, and the label
    /// must name one of the output neurons.
    pub fn check_sample(&self, input_len: usize, target_len: usize, label: usize) -> (r: Result<
        (),
        NetworkError,
    >)
        requires
            self.wf(),
        ensures
            r.is_ok() <==> (input_len == self@[0] && target_len == self@[self@.len() - 1] && label
                < target_len),
            r matches Err(e) ==> e == NetworkError::ShapeMismatch,
    {
        if input_len == self.sizes[0] && target_len == self.sizes[self.sizes.len() - 1] && label
            < target_len {
            Ok(())
        } else {
            Err(NetworkError::ShapeMismatch)
        }
    }
}

/// For all valid layer sizes, every layer after the input owns a weight
/// matrix with one row per neuron and one column per neuron of the layer
/// before, and a bias column with one row per neuron.
pub proof fn lemma_parameter_shapes(layer_sizes: Seq<usize>, l: int)
    requires
        valid_layer_sizes(layer_sizes),
        1 <= l < layer_sizes.len(),
    ensures
        weight_shape_of(layer_sizes, l).rows == layer_sizes[l],
        bias_shape_of(layer_sizes, l).rows == layer_sizes[l],
        weight_shape_of(layer_sizes, l).cols == layer_sizes[l - 1],
        bias_shape_of(layer_sizes, l).cols == 1,
{
}

} // verus!
