use neural_network::error::NetworkError;
use neural_network::network::{CostFunction, Network, WeightInit};
use neural_network::shape::Shape;

fn canonical() -> Network {
    match Network::new(&[784, 30, 10], WeightInit::Scaled, CostFunction::CrossEntropy) {
        Ok(net) => net,
        Err(e) => panic!("{}", e.message()),
    }
}

#[test]
fn construction_keeps_sizes_and_configuration() {
    let net = canonical();
    assert_eq!(net.num_layers(), 3);
    assert_eq!(net.last_layer(), 2);
    assert_eq!(net.input_size(), 784);
    assert_eq!(net.output_size(), 10);
    assert_eq!(net.layer_size(1), 30);
    assert_eq!(net.cost(), CostFunction::CrossEntropy);
    assert_eq!(net.init(), WeightInit::Scaled);
}

#[test]
fn too_few_layers_are_rejected() {
    assert!(matches!(
        Network::new(&[], WeightInit::Plain, CostFunction::Quadratic),
        Err(NetworkError::InvalidTopology)
    ));
    assert!(matches!(
        Network::new(&[784], WeightInit::Plain, CostFunction::Quadratic),
        Err(NetworkError::InvalidTopology)
    ));
}

#[test]
fn empty_layer_is_rejected() {
    assert!(matches!(
        Network::new(&[784, 0, 10], WeightInit::Plain, CostFunction::Quadratic),
        Err(NetworkError::InvalidTopology)
    ));
    assert!(matches!(
        Network::new(&[0, 3], WeightInit::Plain, CostFunction::Quadratic),
        Err(NetworkError::InvalidTopology)
    ));
    assert!(matches!(
        Network::new(&[3, 0], WeightInit::Plain, CostFunction::Quadratic),
        Err(NetworkError::InvalidTopology)
    ));
}

#[test]
fn two_layers_are_enough() {
    let net = Network::new(&[2, 1], WeightInit::Plain, CostFunction::Quadratic);
    assert!(net.is_ok());
    let net = net.ok().unwrap();
    assert_eq!(net.weight_shape(1), Shape { rows: 1, cols: 2 });
}

#[test]
fn parameter_shapes_follow_layer_sizes() {
    let sizes = [784usize, 30, 10];
    let net = canonical();
    for l in 1..sizes.len() {
        let w = net.weight_shape(l);
        let b = net.bias_shape(l);
        assert_eq!(w.rows, sizes[l]);
        assert_eq!(b.rows, sizes[l]);
        assert_eq!(w.cols, sizes[l - 1]);
        assert_eq!(b.cols, 1);
    }
    assert_eq!(net.weight_shape(1), Shape { rows: 30, cols: 784 });
    assert_eq!(net.weight_shape(2), Shape { rows: 10, cols: 30 });
    assert_eq!(net.bias_shape(2), Shape { rows: 10, cols: 1 });
}

#[test]
fn input_layer_owns_no_parameters() {
    let net = canonical();
    assert_eq!(net.weight_shape(0), Shape { rows: 0, cols: 0 });
    assert_eq!(net.bias_shape(0), Shape { rows: 0, cols: 0 });
    assert_eq!(net.activation_shape(0), Shape { rows: 784, cols: 1 });
}

#[test]
fn layout_lists_every_buffer() {
    let net = canonical();
    let layout = net.layout();
    assert_eq!(
        layout.weights,
        vec![
            Shape { rows: 0, cols: 0 },
            Shape { rows: 30, cols: 784 },
            Shape { rows: 10, cols: 30 }
        ]
    );
    assert_eq!(
        layout.biases,
        vec![
            Shape { rows: 0, cols: 0 },
            Shape { rows: 30, cols: 1 },
            Shape { rows: 10, cols: 1 }
        ]
    );
    assert_eq!(
        layout.activations,
        vec![
            Shape { rows: 784, cols: 1 },
            Shape { rows: 30, cols: 1 },
            Shape { rows: 10, cols: 1 }
        ]
    );
}

#[test]
fn fan_in_is_the_size_of_the_layer_before() {
    let net = canonical();
    assert_eq!(net.fan_in(1), 784);
    assert_eq!(net.fan_in(2), 30);
}

#[test]
fn only_the_quadratic_cost_keeps_the_derivative_at_the_output() {
    let quadratic = Network::new(&[4, 3, 2], WeightInit::Plain, CostFunction::Quadratic)
        .ok()
        .unwrap();
    let cross = Network::new(&[4, 3, 2], WeightInit::Scaled, CostFunction::CrossEntropy)
        .ok()
        .unwrap();
    assert!(quadratic.output_delta_uses_derivative());
    assert!(!cross.output_delta_uses_derivative());
}

#[test]
fn sample_of_the_right_lengths_is_accepted() {
    let net = canonical();
    assert_eq!(net.check_sample(784, 10, 0), Ok(()));
    assert_eq!(net.check_sample(784, 10, 9), Ok(()));
}

#[test]
fn sample_of_the_wrong_lengths_is_a_shape_mismatch() {
    let net = canonical();
    assert_eq!(net.check_sample(783, 10, 0), Err(NetworkError::ShapeMismatch));
    assert_eq!(net.check_sample(784, 9, 0), Err(NetworkError::ShapeMismatch));
    assert_eq!(net.check_sample(784, 10, 10), Err(NetworkError::ShapeMismatch));
    assert_eq!(net.check_sample(10, 784, 0), Err(NetworkError::ShapeMismatch));
}

#[test]
fn error_messages_name_the_condition() {
    assert_eq!(NetworkError::InvalidTopology.message(), "invalid topology");
    assert_eq!(NetworkError::ShapeMismatch.message(), "shape mismatch");
}

#[test]
fn forward_products_have_the_shape_of_the_layer() {
    let net = canonical();
    for l in 1..net.num_layers() {
        let z = net.weight_shape(l).dot(&net.activation_shape(l - 1));
        assert_eq!(z, Some(net.bias_shape(l)));
        assert_eq!(net.bias_shape(l), net.activation_shape(l));
    }
}

#[test]
fn backward_products_have_the_shape_of_the_parameters() {
    let net = canonical();
    for l in 1..net.num_layers() {
        let grad = net.bias_shape(l).dot(&net.activation_shape(l - 1).t());
        assert_eq!(grad, Some(net.weight_shape(l)));
    }
    let carried = net.weight_shape(2).t().dot(&net.bias_shape(2));
    assert_eq!(carried, Some(net.bias_shape(1)));
}

#[test]
fn product_of_disagreeing_shapes_is_undefined() {
    let a = Shape { rows: 2, cols: 3 };
    let b = Shape { rows: 4, cols: 1 };
    assert_eq!(a.dot(&b), None);
    assert_eq!(a.t(), Shape { rows: 3, cols: 2 });
    assert_eq!(a.dot(&a.t()), Some(Shape { rows: 2, cols: 2 }));
}
