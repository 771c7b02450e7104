use neural_network::network::{CostFunction, Network, WeightInit};
use neural_network::plan::{Step, Update};

fn network(sizes: &[usize], cost: CostFunction) -> Network {
    Network::new(sizes, WeightInit::Scaled, cost).ok().unwrap()
}

#[test]
fn forward_pass_visits_layers_in_ascending_order() {
    let net = network(&[784, 30, 10], CostFunction::CrossEntropy);
    assert_eq!(
        net.forward_plan(),
        vec![
            Step::LoadInput,
            Step::WeightedSum { layer: 1 },
            Step::Activate { layer: 1 },
            Step::WeightedSum { layer: 2 },
            Step::Activate { layer: 2 },
        ]
    );
}

#[test]
fn forward_pass_of_two_layers_has_one_weighted_sum() {
    let net = network(&[3, 2], CostFunction::Quadratic);
    assert_eq!(
        net.forward_plan(),
        vec![
            Step::LoadInput,
            Step::WeightedSum { layer: 1 },
            Step::Activate { layer: 1 },
        ]
    );
}

#[test]
fn one_hidden_layer_is_visited_once_on_the_way_back() {
    let net = network(&[4, 3, 2], CostFunction::Quadratic);
    assert_eq!(
        net.backward_plan(),
        vec![
            Step::OutputError { layer: 2, with_derivative: true },
            Step::WeightGradient { layer: 2 },
            Step::HiddenError { layer: 1 },
            Step::WeightGradient { layer: 1 },
        ]
    );
}

#[test]
fn deep_network_is_visited_from_last_hidden_layer_down() {
    let net = network(&[8, 7, 6, 5, 4], CostFunction::CrossEntropy);
    assert_eq!(
        net.backward_plan(),
        vec![
            Step::OutputError { layer: 4, with_derivative: false },
            Step::WeightGradient { layer: 4 },
            Step::HiddenError { layer: 3 },
            Step::WeightGradient { layer: 3 },
            Step::HiddenError { layer: 2 },
            Step::WeightGradient { layer: 2 },
            Step::HiddenError { layer: 1 },
            Step::WeightGradient { layer: 1 },
        ]
    );
}

#[test]
fn network_without_hidden_layer_has_no_hidden_error() {
    let net = network(&[3, 2], CostFunction::CrossEntropy);
    assert_eq!(
        net.backward_plan(),
        vec![
            Step::OutputError { layer: 1, with_derivative: false },
            Step::WeightGradient { layer: 1 },
        ]
    );
}

#[test]
fn cross_entropy_drops_the_derivative_and_quadratic_keeps_it() {
    let cross = network(&[4, 3, 2], CostFunction::CrossEntropy).backward_plan();
    let quadratic = network(&[4, 3, 2], CostFunction::Quadratic).backward_plan();
    assert_eq!(cross[0], Step::OutputError { layer: 2, with_derivative: false });
    assert_eq!(quadratic[0], Step::OutputError { layer: 2, with_derivative: true });
    assert_ne!(cross[0], quadratic[0]);
    assert_eq!(cross[1..], quadratic[1..]);
}

#[test]
fn plain_update_holds_no_decay() {
    let net = network(&[784, 30, 10], CostFunction::Quadratic);
    assert_eq!(
        net.update_plan(false),
        vec![
            Update::Biases { layer: 1 },
            Update::Biases { layer: 2 },
            Update::Weights { layer: 1 },
            Update::Weights { layer: 2 },
        ]
    );
}

#[test]
fn regularized_update_decays_before_each_weight_step() {
    let net = network(&[784, 30, 10], CostFunction::CrossEntropy);
    assert_eq!(
        net.update_plan(true),
        vec![
            Update::Biases { layer: 1 },
            Update::Biases { layer: 2 },
            Update::Decay { layer: 1 },
            Update::Weights { layer: 1 },
            Update::Decay { layer: 2 },
            Update::Weights { layer: 2 },
        ]
    );
}
