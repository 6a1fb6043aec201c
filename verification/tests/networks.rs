use td3::network::{Activation, Actor, Critic, Linear, ShapeError};

fn actor(state_dim: i64, action_dim: i64, hidden: Vec<i64>) -> Actor {
    Actor::new(state_dim, action_dim, hidden, String::from("1.0"))
}

#[test]
fn actor_layers_follow_the_widths() {
    let a = actor(4, 2, vec![256, 128]);
    assert_eq!(
        a.layers,
        vec![
            Linear { in_dim: 4, out_dim: 256 },
            Linear { in_dim: 256, out_dim: 128 },
            Linear { in_dim: 128, out_dim: 2 },
        ]
    );
    assert_eq!(a.max_action, "1.0");
}

#[test]
fn actor_without_hidden_layers_has_one_layer() {
    let a = actor(4, 2, vec![]);
    assert_eq!(a.layers, vec![Linear { in_dim: 4, out_dim: 2 }]);
}

#[test]
fn actor_maps_a_batch_of_states_to_a_batch_of_actions() {
    let a = actor(4, 2, vec![256, 256, 256]);
    assert_eq!(a.forward(&vec![8, 4]), Ok(vec![8, 2]));
    assert_eq!(a.forward(&vec![1, 4]), Ok(vec![1, 2]));
    assert_eq!(a.forward(&vec![0, 4]), Ok(vec![0, 2]));
    assert_eq!(a.forward(&vec![4]), Ok(vec![2]));
}

#[test]
fn actor_shape_holds_for_other_widths() {
    for (state_dim, action_dim, hidden) in [
        (1i64, 1i64, vec![]),
        (17, 6, vec![400, 300]),
        (3, 3, vec![3, 3, 3, 3]),
        (376, 17, vec![64]),
    ] {
        let a = actor(state_dim, action_dim, hidden);
        for batch in [1i64, 8, 256] {
            assert_eq!(a.forward(&vec![batch, state_dim]), Ok(vec![batch, action_dim]));
        }
    }
}

#[test]
fn actor_refuses_states_of_another_width() {
    let a = actor(4, 2, vec![256]);
    assert_eq!(a.forward(&vec![8, 5]), Err(ShapeError::Mismatch));
    assert_eq!(a.forward(&vec![]), Err(ShapeError::Mismatch));
}

#[test]
fn network_without_layers_gives_no_output() {
    let a = Actor { layers: vec![], max_action: String::from("1.0") };
    assert_eq!(a.forward(&vec![8, 4]), Err(ShapeError::NoLayers));
    let c = Critic { q1_layers: vec![], q2_layers: vec![] };
    assert_eq!(c.forward(&vec![8, 4]), Err(ShapeError::NoLayers));
    assert_eq!(c.Q1(&vec![8, 4]), Err(ShapeError::NoLayers));
}

#[test]
fn layers_that_do_not_follow_each_other_give_no_output() {
    let a = Actor {
        layers: vec![Linear { in_dim: 4, out_dim: 8 }, Linear { in_dim: 9, out_dim: 2 }],
        max_action: String::from("1.0"),
    };
    assert_eq!(a.forward(&vec![8, 4]), Err(ShapeError::Mismatch));
}

#[test]
fn actor_activations() {
    let a = actor(4, 2, vec![256, 256]);
    assert_eq!(a.activation(0), Some(Activation::Relu));
    assert_eq!(a.activation(1), Some(Activation::Relu));
    assert_eq!(a.activation(2), Some(Activation::ScaledTanh));
    assert_eq!(a.activation(3), None);
}

#[test]
fn critic_layers_take_state_and_action_and_give_one_value() {
    let c = Critic::new(4, 2, vec![256], vec![64, 32]);
    assert_eq!(
        c.q1_layers,
        vec![Linear { in_dim: 6, out_dim: 256 }, Linear { in_dim: 256, out_dim: 1 }]
    );
    assert_eq!(
        c.q2_layers,
        vec![
            Linear { in_dim: 6, out_dim: 64 },
            Linear { in_dim: 64, out_dim: 32 },
            Linear { in_dim: 32, out_dim: 1 },
        ]
    );
}

#[test]
fn critic_gives_two_columns() {
    let c = Critic::new(4, 2, vec![256, 256, 256], vec![256, 256, 256]);
    assert_eq!(c.forward(&vec![8, 6]), Ok(vec![8, 2]));
    assert_eq!(c.forward(&vec![256, 6]), Ok(vec![256, 2]));
}

#[test]
fn critic_first_estimator_gives_one_column() {
    let c = Critic::new(4, 2, vec![256, 256, 256], vec![256, 256, 256]);
    assert_eq!(c.Q1(&vec![8, 6]), Ok(vec![8, 1]));
}

#[test]
fn critic_refuses_inputs_of_another_width() {
    let c = Critic::new(4, 2, vec![256], vec![256]);
    assert_eq!(c.forward(&vec![8, 4]), Err(ShapeError::Mismatch));
    assert_eq!(c.Q1(&vec![8, 4]), Err(ShapeError::Mismatch));
}

#[test]
fn critic_refuses_a_single_input_without_rows() {
    let c = Critic::new(4, 2, vec![256], vec![256]);
    assert_eq!(c.Q1(&vec![6]), Ok(vec![1]));
    assert_eq!(c.forward(&vec![6]), Err(ShapeError::Mismatch));
}

#[test]
fn critic_activations() {
    let c = Critic::new(4, 2, vec![256], vec![64, 32]);
    assert_eq!(c.q1_activation(0), Some(Activation::Relu));
    assert_eq!(c.q1_activation(1), Some(Activation::Identity));
    assert_eq!(c.q1_activation(2), None);
    assert_eq!(c.q2_activation(0), Some(Activation::Relu));
    assert_eq!(c.q2_activation(1), Some(Activation::Relu));
    assert_eq!(c.q2_activation(2), Some(Activation::Identity));
    assert_eq!(c.q2_activation(3), None);
}
