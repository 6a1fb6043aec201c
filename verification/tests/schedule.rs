use td3::agent::{Step, TrainError, Update, DEFAULT_BATCH_SIZE, DEFAULT_POLICY_FREQ, TD3};
use td3::network::{Linear, ShapeError};

fn default_agent(state_dim: i64, action_dim: i64) -> TD3 {
    TD3::new(
        state_dim,
        action_dim,
        String::from("1.0"),
        None,
        None,
        None,
        None,
        None,
        None,
        None,
        None,
    )
}

fn batch(size: i64, state_dim: i64, action_dim: i64) -> Vec<Vec<i64>> {
    vec![
        vec![size, state_dim],
        vec![size, action_dim],
        vec![size, state_dim],
        vec![size, 1],
        vec![size, 1],
    ]
}

#[test]
fn defaults_of_a_new_agent() {
    let agent = default_agent(4, 2);
    assert_eq!(agent.state_dim, 4);
    assert_eq!(agent.action_dim, 2);
    assert_eq!(agent.max_action.parse::<f64>().unwrap(), 1.0);
    assert_eq!(agent.tau.parse::<f64>().unwrap(), 0.005);
    assert_eq!(agent.discount.parse::<f64>().unwrap(), 0.99);
    assert_eq!(agent.policy_noise.parse::<f64>().unwrap(), 0.2);
    assert_eq!(agent.noise_clip.parse::<f64>().unwrap(), 0.5);
    assert_eq!(agent.policy_freq, 2);
    assert_eq!(DEFAULT_POLICY_FREQ, 2);
    assert_eq!(DEFAULT_BATCH_SIZE, 256);
    assert_eq!(agent.total_it, 0);
}

#[test]
fn default_hidden_widths() {
    let agent = default_agent(4, 2);
    assert_eq!(
        agent.actor.layers,
        vec![
            Linear { in_dim: 4, out_dim: 256 },
            Linear { in_dim: 256, out_dim: 256 },
            Linear { in_dim: 256, out_dim: 256 },
            Linear { in_dim: 256, out_dim: 2 },
        ]
    );
    let estimator = vec![
        Linear { in_dim: 6, out_dim: 256 },
        Linear { in_dim: 256, out_dim: 256 },
        Linear { in_dim: 256, out_dim: 256 },
        Linear { in_dim: 256, out_dim: 1 },
    ];
    assert_eq!(agent.critic.q1_layers, estimator);
    assert_eq!(agent.critic.q2_layers, estimator);
}

#[test]
fn settings_that_are_given_are_kept() {
    let agent = TD3::new(
        3,
        1,
        String::from("2.5"),
        Some(vec![400, 300]),
        Some(vec![64]),
        Some(vec![]),
        Some(String::from("0.01")),
        Some(String::from("0.9")),
        Some(String::from("0.1")),
        Some(String::from("0.3")),
        Some(3),
    );
    assert_eq!(agent.max_action, "2.5");
    assert_eq!(agent.actor.max_action, "2.5");
    assert_eq!(agent.actor_target.max_action, "2.5");
    assert_eq!(agent.tau, "0.01");
    assert_eq!(agent.discount, "0.9");
    assert_eq!(agent.policy_noise, "0.1");
    assert_eq!(agent.noise_clip, "0.3");
    assert_eq!(agent.policy_freq, 3);
    assert_eq!(
        agent.actor.layers,
        vec![
            Linear { in_dim: 3, out_dim: 400 },
            Linear { in_dim: 400, out_dim: 300 },
            Linear { in_dim: 300, out_dim: 1 },
        ]
    );
    assert_eq!(
        agent.critic.q1_layers,
        vec![Linear { in_dim: 4, out_dim: 64 }, Linear { in_dim: 64, out_dim: 1 }]
    );
    assert_eq!(agent.critic.q2_layers, vec![Linear { in_dim: 4, out_dim: 1 }]);
}

#[test]
fn targets_have_the_layers_of_the_online_networks() {
    let agent = TD3::new(
        5,
        2,
        String::from("1.0"),
        Some(vec![32, 16]),
        Some(vec![8]),
        Some(vec![8, 8]),
        None,
        None,
        None,
        None,
        None,
    );
    assert_eq!(agent.actor_target, agent.actor);
    assert_eq!(agent.critic_target, agent.critic);
}

#[test]
fn shapes_of_a_new_agent() {
    let agent = default_agent(4, 2);
    assert_eq!(agent.actor.forward(&vec![8, 4]), Ok(vec![8, 2]));
    assert_eq!(agent.actor_target.forward(&vec![8, 4]), Ok(vec![8, 2]));
    assert_eq!(agent.critic.forward(&vec![8, 6]), Ok(vec![8, 2]));
    assert_eq!(agent.critic_target.forward(&vec![8, 6]), Ok(vec![8, 2]));
    assert_eq!(agent.critic.Q1(&vec![8, 6]), Ok(vec![8, 1]));
}

#[test]
fn ten_training_steps() {
    let mut agent = default_agent(4, 2);
    let before = agent.clone();
    let mut synchronised_at = Vec::new();
    for _ in 0..10 {
        let update = agent.train(&batch(8, 4, 2), Some(8)).unwrap();
        assert_eq!(update.batch_size, 8);
        if update.steps.contains(&Step::Synchronise) {
            synchronised_at.push(agent.total_it);
        }
    }
    assert_eq!(agent.total_it, 10);
    assert_eq!(synchronised_at, vec![2, 4, 6, 8, 10]);
    assert_eq!(agent.actor_target, before.actor_target);
    assert_eq!(agent.critic_target, before.critic_target);
}

#[test]
fn every_step_updates_the_critic_first() {
    let mut agent = default_agent(4, 2);
    let first = agent.train(&batch(8, 4, 2), Some(8)).unwrap();
    assert_eq!(first, Update { batch_size: 8, steps: vec![Step::Target, Step::Critic] });
    let second = agent.train(&batch(8, 4, 2), Some(8)).unwrap();
    assert_eq!(
        second,
        Update {
            batch_size: 8,
            steps: vec![Step::Target, Step::Critic, Step::Actor, Step::Synchronise],
        }
    );
}

#[test]
fn the_counter_goes_up_by_one_whatever_the_period() {
    for period in [1i64, 2, 3, 7, 1000] {
        let mut agent = TD3::new(
            4,
            2,
            String::from("1.0"),
            None,
            None,
            None,
            None,
            None,
            None,
            None,
            Some(period),
        );
        agent.total_it = 5;
        let mut delayed = 0;
        for n in 1..=20i64 {
            let update = agent.train(&batch(8, 4, 2), Some(8)).unwrap();
            assert_eq!(agent.total_it, 5 + n);
            assert_eq!(update.steps.contains(&Step::Synchronise), (5 + n) % period == 0);
            assert_eq!(update.steps.contains(&Step::Actor), (5 + n) % period == 0);
            if update.steps.contains(&Step::Synchronise) {
                delayed += 1;
            }
        }
        assert_eq!(delayed, 25 / period - 5 / period);
    }
}

#[test]
fn a_period_of_one_synchronises_every_step() {
    let mut agent = TD3::new(
        4,
        2,
        String::from("1.0"),
        None,
        None,
        None,
        None,
        None,
        None,
        None,
        Some(1),
    );
    for _ in 0..4 {
        let update = agent.train(&batch(8, 4, 2), Some(8)).unwrap();
        assert_eq!(update.steps.len(), 4);
    }
}

#[test]
fn the_batch_size_defaults_to_256() {
    let mut agent = default_agent(4, 2);
    let update = agent.train(&batch(256, 4, 2), None).unwrap();
    assert_eq!(update.batch_size, 256);
    assert_eq!(agent.train(&batch(8, 4, 2), None), Err(TrainError::Shape(0)));
}

#[test]
fn a_batch_of_the_wrong_shape_is_refused_and_the_step_is_counted() {
    let mut agent = default_agent(4, 2);
    assert_eq!(agent.train(&vec![], Some(8)), Err(TrainError::Samples));
    assert_eq!(agent.total_it, 1);
    let mut four = batch(8, 4, 2);
    four.pop();
    assert_eq!(agent.train(&four, Some(8)), Err(TrainError::Samples));
    assert_eq!(agent.total_it, 2);
    for place in 0..5usize {
        let mut bad = batch(8, 4, 2);
        bad[place] = vec![8, 3];
        assert_eq!(agent.train(&bad, Some(8)), Err(TrainError::Shape(place)));
        let mut short = batch(8, 4, 2);
        short[place][0] = 7;
        assert_eq!(agent.train(&short, Some(8)), Err(TrainError::Shape(place)));
    }
    assert_eq!(agent.total_it, 12);
    let mut flat = batch(8, 4, 2);
    flat[3] = vec![8];
    assert_eq!(agent.train(&flat, Some(8)), Err(TrainError::Shape(3)));
}

#[test]
fn one_state_gives_one_action() {
    let agent = default_agent(4, 2);
    assert_eq!(agent.select_action(4), Ok(2));
    assert_eq!(agent.select_action(5), Err(ShapeError::Mismatch));
    assert_eq!(agent.select_action(0), Err(ShapeError::Mismatch));
    let other = default_agent(17, 6);
    assert_eq!(other.select_action(17), Ok(6));
}

#[test]
fn selecting_an_action_leaves_the_agent_as_it_was() {
    let agent = default_agent(4, 2);
    let before = agent.clone();
    let _ = agent.select_action(4);
    assert_eq!(agent, before);
}
