//! The passes over a network as sequences of steps.
//!
//! Each step names one operation on the network's buffers and the layer it
//! works on; the steps of a pass work on one sample, the updates that end a
//! batch on the parameters. The library decides which steps are taken and in
//! what order; carrying a step out is arithmetic on the buffers and is left
//! to the caller. A step overwrites the buffer it fills. The buffers of layer
//! `l` are its weights `W[l]`, biases `b[l]`, weighted input `z[l]`,
//! activation `a[l]`, error `d[l]`, weight gradient `g[l]`, and the batch
//! sums `B[l]` of the errors and `G[l]` of the weight gradients.

use vstd::prelude::*;
use crate::network::{
    activation_shape_of, bias_shape_of, weight_shape_of, CostFunction, Network,
};

verus! {

/// One operation on the buffers.
#[derive(Clone, Copy, Debug, PartialEq, Eq, Structural)]
pub enum Step {
    /// `a[0] := input`.
    LoadInput,
    /// `z[l] := W[l] · a[l-1] + b[l]`.
    WeightedSum { layer: usize },
    /// `a[l] := sigmoid(z[l])`, entry by entry.
    Activate { layer: usize },
    /// `d[l] := a[l] - target` at the output layer, multiplied entry by entry
    /// with `sigmoid'(z[l])` when `with_derivative` is set.
    OutputError { layer: usize, with_derivative: bool },
    /// `d[l] := (W[l+1]ᵀ · d[l+1]) ⊙ sigmoid'(z[l])` at a hidden layer.
    HiddenError { layer: usize },
    /// `g[l] := d[l] · a[l-1]ᵀ`.
    WeightGradient { layer: usize },
}

/// One operation of the parameter update that ends a batch.
#[derive(Clone, Copy, Debug, PartialEq, Eq, Structural)]
pub enum Update {
    /// `b[l] := b[l] - scale · B[l]`, where `scale` is the learning rate
    /// divided by the number of samples in the batch.
    Biases { layer: usize },
    /// `W[l] := W[l] · (1 - rate · lambda / n)`, where `n` is the size of the
    /// training set.
    Decay { layer: usize },
    /// `W[l] := W[l] - scale · G[l]`.
    Weights { layer: usize },
}

/// Whether `step` can be carried out on a network of `layers` layers: it
/// names a layer that owns parameters, and an error is carried back only to
/// a layer that has a layer after it.
pub open spec fn in_range(step: Step, layers: int) -> bool {
    match step {
        Step::LoadInput => true,
        Step::WeightedSum { layer } => 1 <= layer < layers,
        Step::Activate { layer } => 1 <= layer < layers,
        Step::OutputError { layer, with_derivative } => layer == layers - 1 && 1 <= layer,
        Step::HiddenError { layer } => 1 <= layer < layers - 1,
        Step::WeightGradient { layer } => 1 <= layer < layers,
    }
}

/// Whether the shapes of the buffers that `step` combines agree, in a
/// network of the given layer sizes: every matrix product is defined and
/// has the shape of the buffer it is stored in, and entry-by-entry operations
/// meet buffers of one shape.
pub open spec fn well_shaped(step: Step, sizes: Seq<usize>) -> bool {
    match step {
        Step::LoadInput => true,
        Step::WeightedSum { layer } => weight_shape_of(sizes, layer as int).product(
            activation_shape_of(sizes, layer - 1),
        ) == Some(bias_shape_of(sizes, layer as int)),
        Step::Activate { layer } => bias_shape_of(sizes, layer as int) == activation_shape_of(
            sizes,
            layer as int,
        ),
        Step::OutputError { layer, with_derivative } => activation_shape_of(sizes, layer as int)
            == bias_shape_of(sizes, layer as int),
        Step::HiddenError { layer } => weight_shape_of(sizes, layer + 1).transposed().product(
            bias_shape_of(sizes, layer + 1),
        ) == Some(bias_shape_of(sizes, layer as int)),
        Step::WeightGradient { layer } => bias_shape_of(sizes, layer as int).product(
            activation_shape_of(sizes, layer - 1).transposed(),
        ) == Some(weight_shape_of(sizes, layer as int)),
    }
}

/// Whether `update` names a layer that owns parameters in a network of
/// `layers` layers.
pub open spec fn update_in_range(update: Update, layers: int) -> bool {
    match update {
        Update::Biases { layer } => 1 <= layer < layers,
        Update::Decay { layer } => 1 <= layer < layers,
        Update::Weights { layer } => 1 <= layer < layers,
    }
}

/// The forward pass up to layer `last`: load the input, then for each layer
/// in turn its weighted sum and its activation.
pub open spec fn forward_steps(last: usize) -> Seq<Step>
    decreases last,
{
    if last == 0 {
        seq![Step::LoadInput]
    } else {
        forward_steps((last - 1) as usize) + seq![
            Step::WeightedSum { layer: last },
            Step::Activate { layer: last },
        ]
    }
}

/// The backward pass over the hidden layers from `from` down to layer 1: for
/// each its error, then its weight gradient.
pub open spec fn hidden_backward_steps(from: usize) -> Seq<Step>
    decreases from,
{
    if from == 0 {
        Seq::empty()
    } else {
        seq![Step::HiddenError { layer: from }, Step::WeightGradient { layer: from }]
            + hidden_backward_steps((from - 1) as usize)
    }
}

/// The backward pass of a network whose output layer is `last`: the output
/// error and its weight gradient, then the hidden layers from the last one
/// down.
pub open spec fn backward_steps(last: usize, with_derivative: bool) -> Seq<Step> {
    seq![
        Step::OutputError { layer: last, with_derivative },
        Step::WeightGradient { layer: last },
    ] + hidden_backward_steps((last - 1) as usize)
}

/// The bias updates of layers 1 to `last`, in order.
pub open spec fn bias_update_steps(last: usize) -> Seq<Update>
    decreases last,
{
    if last == 0 {
        Seq::empty()
    } else {
        bias_update_steps((last - 1) as usize) + seq![Update::Biases { layer: last }]
    }
}

/// The weight updates of layers 1 to `last`, in order; with regularization
/// each is preceded by the decay of the same weights.
pub open spec fn weight_update_steps(last: usize, regularized: bool) -> Seq<Update>
    decreases last,
{
    if last == 0 {
        Seq::empty()
    } else if regularized {
        weight_update_steps((last - 1) as usize, regularized) + seq![
            Update::Decay { layer: last },
            Update::Weights { layer: last },
        ]
    } else {
        weight_update_steps((last - 1) as usize, regularized) + seq![
            Update::Weights { layer: last },
        ]
    }
}

/// The parameter update that ends a batch: every bias, then every weight.
pub open spec fn update_steps(last: usize, regularized: bool) -> Seq<Update> {
    bias_update_steps(last) + weight_update_steps(last, regularized)
}

/// Every step of a sequence can be carried out on a network of `layers`
/// layers.
pub open spec fn all_in_range(steps: Seq<Step>, layers: int) -> bool {
    forall|i: int| 0 <= i < steps.len() ==> in_range(#[trigger] steps[i], layers)
}

/// Every update of a sequence names a layer that owns parameters.
pub open spec fn all_updates_in_range(updates: Seq<Update>, layers: int) -> bool {
    forall|i: int| 0 <= i < updates.len() ==> update_in_range(#[trigger] updates[i], layers)
}

/// A step that names layers of the network is well-shaped: the weighted sum
/// has the shape of the bias it is added to and of the activation it fills;
/// the error of a layer has the shape of its bias; the transposed weights of
/// the next layer carry its error back to that shape; and the outer product
/// of the error with the transposed activation of the layer before has the
/// shape of the weights.
pub proof fn lemma_steps_well_shaped(net: Network, step: Step)
    requires
        net.wf(),
        in_range(step, net@.len() as int),
    ensures
        well_shaped(step, net@),
{
}

/// The step at position `i` of a forward pass.
pub open spec fn forward_step_at(i: int) -> Step {
    if i == 0 {
        Step::LoadInput
    } else if i % 2 == 1 {
        Step::WeightedSum { layer: ((i + 1) / 2) as usize }
    } else {
        Step::Activate { layer: (i / 2) as usize }
    }
}

/// The step at position `i` of the backward pass of a network whose output
/// layer is `last`.
pub open spec fn backward_step_at(last: int, with_derivative: bool, i: int) -> Step {
    if i == 0 {
        Step::OutputError { layer: last as usize, with_derivative }
    } else if i % 2 == 1 {
        Step::WeightGradient { layer: (last - i / 2) as usize }
    } else {
        Step::HiddenError { layer: (last - i / 2) as usize }
    }
}

/// The step at position `i` of the weight updates.
pub open spec fn weight_update_at(regularized: bool, i: int) -> Update {
    if !regularized {
        Update::Weights { layer: (i + 1) as usize }
    } else if i % 2 == 0 {
        Update::Decay { layer: (i / 2 + 1) as usize }
    } else {
        Update::Weights { layer: (i / 2 + 1) as usize }
    }
}

/// The forward pass visits each layer after the input once, in ascending
/// order, its weighted sum before its activation, and every step names a
/// layer that exists.
pub proof fn lemma_forward_steps(last: usize)
    ensures
        forward_steps(last).len() == 1 + 2 * last,
        forall|i: int|
            0 <= i < 1 + 2 * last ==> #[trigger] forward_steps(last)[i] == forward_step_at(i),
        forall|layers: int| last < layers ==> all_in_range(forward_steps(last), layers),
    decreases last,
{
    if last > 0 {
        lemma_forward_steps((last - 1) as usize);
        let before = forward_steps((last - 1) as usize);
        let all = forward_steps(last);
        assert forall|i: int| 0 <= i < 1 + 2 * last implies #[trigger] all[i] == forward_step_at(
            i,
        ) by {
            if i < before.len() {
                assert(all[i] == before[i]);
            }
        }
    }
    assert forall|layers: int| last < layers implies all_in_range(forward_steps(last), layers) by {
        assert forall|i: int| 0 <= i < forward_steps(last).len() implies in_range(
            #[trigger] forward_steps(last)[i],
            layers,
        ) by {
            assert(forward_steps(last)[i] == forward_step_at(i));
        }
    }
}

/// The hidden part of the backward pass visits the layers in descending
/// order, the error of each before its weight gradient.
pub proof fn lemma_hidden_backward_steps(from: usize)
    ensures
        hidden_backward_steps(from).len() == 2 * from,
        forall|i: int|
            0 <= i < 2 * from ==> #[trigger] hidden_backward_steps(from)[i] == backward_step_at(
                from + 1,
                false,
                i + 2,
            ),
    decreases from,
{
    if from > 0 {
        lemma_hidden_backward_steps((from - 1) as usize);
        let rest = hidden_backward_steps((from - 1) as usize);
        let all = hidden_backward_steps(from);
        assert forall|i: int| 0 <= i < 2 * from implies #[trigger] all[i] == backward_step_at(
            from + 1,
            false,
            i + 2,
        ) by {
            if i >= 2 {
                assert(all[i] == rest[i - 2]);
            }
        }
    }
}

/// The backward pass begins at the output layer and then walks the hidden
/// layers down to layer 1, the error of each layer before its weight
/// gradient; with a single hidden layer the walk takes one turn. Every step
/// names a layer that exists.
pub proof fn lemma_backward_steps(last: usize, with_derivative: bool)
    requires
        1 <= last,
    ensures
        backward_steps(last, with_derivative).len() == 2 * last,
        forall|i: int|
            0 <= i < 2 * last ==> #[trigger] backward_steps(last, with_derivative)[i]
                == backward_step_at(last as int, with_derivative, i),
        all_in_range(backward_steps(last, with_derivative), last + 1),
{
    let hidden = hidden_backward_steps((last - 1) as usize);
    let all = backward_steps(last, with_derivative);
    lemma_hidden_backward_steps((last - 1) as usize);
    assert forall|i: int| 0 <= i < 2 * last implies #[trigger] all[i] == backward_step_at(
        last as int,
        with_derivative,
        i,
    ) by {
        if i >= 2 {
            assert(all[i] == hidden[i - 2]);
        }
    }
    assert forall|i: int| 0 <= i < all.len() implies in_range(#[trigger] all[i], last + 1) by {
        assert(all[i] == backward_step_at(last as int, with_derivative, i));
    }
}

/// The output error carries the derivative of the activation exactly when
/// the pass is planned with it: under cross-entropy it is the plain
/// difference between activation and target.
pub proof fn lemma_output_error(last: usize, with_derivative: bool)
    ensures
        backward_steps(last, with_derivative)[0] == (Step::OutputError {
            layer: last,
            with_derivative,
        }),
        backward_steps(last, true)[0] != backward_steps(last, false)[0],
{
}

/// The bias updates name the layers 1 to `last` in order.
pub proof fn lemma_bias_update_steps(last: usize)
    ensures
        bias_update_steps(last).len() == last,
        forall|i: int|
            0 <= i < last ==> #[trigger] bias_update_steps(last)[i] == (Update::Biases {
                layer: (i + 1) as usize,
            }),
    decreases last,
{
    if last > 0 {
        lemma_bias_update_steps((last - 1) as usize);
    }
}

/// The weight updates name the layers 1 to `last` in order. Without
/// regularization they hold no decay: each layer's weights only take their
/// gradient step, as if the decay factor were one. With regularization each
/// layer's weights are decayed first and take their gradient step right
/// after.
pub proof fn lemma_weight_update_steps(last: usize, regularized: bool)
    ensures
        weight_update_steps(last, regularized).len() == if regularized {
            2 * last
        } else {
            last as int
        },
        forall|i: int|
            0 <= i < weight_update_steps(last, regularized).len() ==> #[trigger] weight_update_steps(
                last,
                regularized,
            )[i] == weight_update_at(regularized, i),
    decreases last,
{
    if last > 0 {
        lemma_weight_update_steps((last - 1) as usize, regularized);
        let before = weight_update_steps((last - 1) as usize, regularized);
        let all = weight_update_steps(last, regularized);
        assert forall|i: int| 0 <= i < all.len() implies #[trigger] all[i] == weight_update_at(
            regularized,
            i,
        ) by {
            if i < before.len() {
                assert(all[i] == before[i]);
            }
        }
    }
}

/// Every step of the parameter update names a layer that exists.
pub proof fn lemma_update_in_range(last: usize, regularized: bool)
    ensures
        all_updates_in_range(update_steps(last, regularized), last + 1),
{
    lemma_bias_update_steps(last);
    lemma_weight_update_steps(last, regularized);
    let biases = bias_update_steps(last);
    let weights = weight_update_steps(last, regularized);
    let all = update_steps(last, regularized);
    assert forall|i: int| 0 <= i < all.len() implies update_in_range(
        #[trigger] all[i],
        last + 1,
    ) by {
        if i < biases.len() {
            assert(all[i] == biases[i]);
        } else {
            assert(all[i] == weights[i - biases.len()]);
        }
    }
}

impl Network {
    /// The forward pass: the input is loaded, then every layer after the
    /// input computes its weighted sum and its activation, in ascending
    /// order.
    pub fn forward_plan(&self) -> (plan: Vec<Step>)
        requires
            self.wf(),
        ensures
            plan@ == forward_steps((self@.len() - 1) as usize),
            all_in_range(plan@, self@.len() as int),
    {
        let count: usize = self.num_layers();
        let mut plan: Vec<Step> = Vec::new();
        plan.push(Step::LoadInput);
        let mut l: usize = 1;
        while l < count
            invariant
                1 <= l <= count,
                plan@ == forward_steps((l - 1) as usize),
            decreases count - l,
        {
            plan.push(Step::WeightedSum { layer: l });
            plan.push(Step::Activate { layer: l });
            proof {
                assert(plan@ =~= forward_steps(l));
            }
            l += 1;
        }
        proof {
            lemma_forward_steps((count - 1) as usize);
        }
        plan
    }

    /// The backward pass that follows a forward pass of the same sample: the
    /// output error, which carries the derivative of the activation only
    /// under the quadratic cost, then layer by layer down to layer 1 the
    /// error and the weight gradient. The error of a layer is also its bias
    /// gradient.
    pub fn backward_plan(&self) -> (plan: Vec<Step>)
        requires
            self.wf(),
        ensures
            plan@ == backward_steps(
                (self@.len() - 1) as usize,
                self.spec_cost() == CostFunction::Quadratic,
            ),
            all_in_range(plan@, self@.len() as int),
    {
        let last: usize = self.last_layer();
        let with_derivative = self.output_delta_uses_derivative();
        let mut plan: Vec<Step> = Vec::new();
        plan.push(Step::OutputError { layer: last, with_derivative });
        plan.push(Step::WeightGradient { layer: last });
        let mut l: usize = last;
        proof {
            assert(plan@ + hidden_backward_steps((l - 1) as usize) =~= backward_steps(
                last,
                with_derivative,
            ));
        }
        while l > 1
            invariant
                1 <= l <= last,
                plan@ + hidden_backward_steps((l - 1) as usize) =~= backward_steps(
                    last,
                    with_derivative,
                ),
            decreases l,
        {
            let ghost before = plan@;
            l -= 1;
            plan.push(Step::HiddenError { layer: l });
            plan.push(Step::WeightGradient { layer: l });
            proof {
                assert(hidden_backward_steps(l) =~= seq![
                    Step::HiddenError { layer: l },
                    Step::WeightGradient { layer: l },
                ] + hidden_backward_steps((l - 1) as usize));
                assert(plan@ + hidden_backward_steps((l - 1) as usize) =~= before
                    + hidden_backward_steps(l));
            }
        }
        proof {
            assert(hidden_backward_steps(0) =~= Seq::<Step>::empty());
            assert(plan@ =~= plan@ + hidden_backward_steps(0));
            lemma_backward_steps(last, with_derivative);
        }
        plan
    }

    /// The parameter update that ends a batch: every layer's biases take
    /// their step, then every layer's weights; with regularization each
    /// layer's weights are decayed just before they take theirs.
    pub fn update_plan(&self, regularized: bool) -> (plan: Vec<Update>)
        requires
            self.wf(),
        ensures
            plan@ == update_steps((self@.len() - 1) as usize, regularized),
            all_updates_in_range(plan@, self@.len() as int),
    {
        let count: usize = self.num_layers();
        let mut plan: Vec<Update> = Vec::new();
        let mut l: usize = 1;
        while l < count
            invariant
                1 <= l <= count,
                plan@ == bias_update_steps((l - 1) as usize),
            decreases count - l,
        {
            plan.push(Update::Biases { layer: l });
            proof {
                assert(plan@ =~= bias_update_steps(l));
            }
            l += 1;
        }
        let ghost biases = plan@;
        l = 1;
        while l < count
            invariant
                1 <= l <= count,
                plan@ == biases + weight_update_steps((l - 1) as usize, regularized),
            decreases count - l,
        {
            if regularized {
                plan.push(Update::Decay { layer: l });
            }
            plan.push(Update::Weights { layer: l });
            proof {
                assert(plan@ =~= biases + weight_update_steps(l, regularized));
            }
            l += 1;
        }
        proof {
            lemma_update_in_range((count - 1) as usize, regularized);
        }
        plan
    }
}

} // verus!
