use rann::{Activation, LayerPhase, LayerShape, LayerState, NetError, NetworkPhase, Topology};

#[test]
fn layer_backward_before_forward_fails() {
    let layer = LayerPhase::new(LayerShape { input_dim: 3, output_dim: 2 });
    assert_eq!(layer.state, LayerState::Uninitialized);
    assert_eq!(layer.backward(2), Err(NetError::BackwardBeforeForward));
}

#[test]
fn layer_forward_checks_input_width() {
    let mut layer = LayerPhase::new(LayerShape { input_dim: 3, output_dim: 2 });
    assert_eq!(
        layer.forward(2),
        Err(NetError::DimensionMismatch { expected: 3, found: 2 })
    );
    assert_eq!(layer.state, LayerState::Uninitialized);
    assert_eq!(layer.forward(3), Ok(()));
    assert_eq!(layer.state, LayerState::ReadyAfterForward);
    assert_eq!(layer.shape, LayerShape { input_dim: 3, output_dim: 2 });
}

#[test]
fn layer_backward_after_forward() {
    let mut layer = LayerPhase::new(LayerShape { input_dim: 3, output_dim: 2 });
    layer.forward(3).unwrap();
    assert_eq!(
        layer.backward(3),
        Err(NetError::DimensionMismatch { expected: 2, found: 3 })
    );
    assert_eq!(layer.backward(2), Ok(()));
    // backward may run again on the same caches, and forward again after it
    assert_eq!(layer.backward(2), Ok(()));
    assert_eq!(layer.forward(3), Ok(()));
    assert_eq!(layer.state, LayerState::ReadyAfterForward);
}

#[test]
fn layer_failed_forward_keeps_ready_state() {
    let mut layer = LayerPhase::new(LayerShape { input_dim: 1, output_dim: 1 });
    layer.forward(1).unwrap();
    assert!(layer.forward(4).is_err());
    assert_eq!(layer.state, LayerState::ReadyAfterForward);
}

fn network() -> NetworkPhase {
    let t = Topology::uniform(vec![2, 4, 3, 1], Activation::Sigmoid, Activation::Identity).unwrap();
    NetworkPhase::new(t)
}

#[test]
fn network_backward_before_forward_fails() {
    let n = network();
    assert_eq!(n.state, LayerState::Uninitialized);
    assert_eq!(n.backward(1), Err(NetError::BackwardBeforeForward));
}

#[test]
fn network_forward_checks_input_width() {
    let mut n = network();
    assert_eq!(
        n.forward(3),
        Err(NetError::DimensionMismatch { expected: 2, found: 3 })
    );
    assert_eq!(n.state, LayerState::Uninitialized);
    assert_eq!(n.forward(2), Ok(()));
    assert_eq!(n.state, LayerState::ReadyAfterForward);
}

#[test]
fn network_backward_visits_layers_last_to_first() {
    let mut n = network();
    n.forward(2).unwrap();
    assert_eq!(
        n.backward(2),
        Err(NetError::DimensionMismatch { expected: 1, found: 2 })
    );
    assert_eq!(n.backward(1), Ok(vec![2, 1, 0]));
}

#[test]
fn network_single_layer_order() {
    let t = Topology::new(vec![1, 1], vec![Activation::Identity]).unwrap();
    let mut n = NetworkPhase::new(t);
    n.forward(1).unwrap();
    assert_eq!(n.backward(1), Ok(vec![0]));
    assert_eq!(n.topology.output_width(), 1);
}
