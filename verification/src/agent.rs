//! The agent: its four networks, its settings, and the schedule of its
//! training steps.
//!
//! The arithmetic of a training step is not done here. `train` counts the
//! step, checks the shapes of the batch, and says which parts of the update are
//! due; the caller carries them out, in the order given.

use crate::network::{
    build_stack, chained, critic_shape, forward_shape, lemma_chained_critic_shape,
    lemma_chained_forward, lemma_stack_chained, stack_of, through, Actor, Critic, Linear,
    ShapeError,
};
use crate::shape::{element_count, joined_columns};
use crate::shape::{checked_element_count, is_matrix, storage_size};
use vstd::prelude::*;
use vstd::string::*;

verus! {

/// The hidden widths of a network for which none are given.
pub open spec fn default_hidden() -> Seq<i64> {
    seq![256i64, 256i64, 256i64]
}

/// The size of a batch where none is given.
pub const DEFAULT_BATCH_SIZE: i64 = 256;

/// The number of training steps from one delayed update to the next, where
/// none is given.
pub const DEFAULT_POLICY_FREQ: i64 = 2;

/// One part of a training step.
#[derive(Clone, Copy, Debug, PartialEq, Eq, Structural)]
pub enum Step {
    /// Compute the target value from the target networks, without gradients.
    Target,
    /// Fit both estimators of the critic to the target: one optimizer step on
    /// the critic.
    Critic,
    /// Raise the first estimator's value of the actor's actions: one
    /// optimizer step on the actor, none on the critic.
    Actor,
    /// Move each parameter of the target networks towards that of the online
    /// network.
    Synchronise,
}

/// What a training step has to do.
#[derive(Clone, Debug, PartialEq, Eq)]
pub struct Update {
    /// The number of transitions in the batch.
    pub batch_size: i64,
    /// The parts of the step that are due, in the order in which they are to
    /// be carried out.
    pub steps: Vec<Step>,
}

/// Why a batch was refused.
#[derive(Clone, Copy, Debug, PartialEq, Eq, Structural)]
pub enum TrainError {
    /// The batch is not made of five tensors.
    Samples,
    /// The tensor at this place in the batch has not the shape that its place
    /// calls for.
    Shape(usize),
}

/// A TD3 agent.
#[derive(Clone, Debug, PartialEq, Eq)]
pub struct TD3 {
    pub actor: Actor,
    pub actor_target: Actor,
    pub critic: Critic,
    pub critic_target: Critic,
    pub action_dim: i64,
    pub state_dim: i64,
    /// The bound on each component of an action.
    pub max_action: String,
    /// The rate at which the target networks follow the online ones.
    pub tau: String,
    pub discount: String,
    /// The scale of the noise added to the target action.
    pub policy_noise: String,
    /// The bound on that noise.
    pub noise_clip: String,
    /// The actor is updated and the targets are synchronised once in this
    /// many training steps.
    pub policy_freq: i64,
    /// The number of training steps so far.
    pub total_it: i64,
}

/// The hidden widths that were asked for, or the default ones.
pub open spec fn hidden_or_default(shape: Option<Vec<i64>>) -> Seq<i64> {
    match shape {
        Some(widths) => widths@,
        None => default_hidden(),
    }
}

/// The setting that was asked for, or its default.
pub open spec fn text_or(setting: Option<String>, default: Seq<char>) -> Seq<char> {
    match setting {
        Some(text) => text@,
        None => default,
    }
}

/// Whether the step that brings the counter to `total_it` includes the
/// delayed update: the update of the actor and the synchronisation of the
/// targets.
pub open spec fn is_delayed(total_it: int, policy_freq: int) -> bool {
    total_it % policy_freq == 0
}

/// The parts of the training step that brings the counter to `total_it`.
pub open spec fn steps_due(total_it: int, policy_freq: int) -> Seq<Step> {
    if is_delayed(total_it, policy_freq) {
        seq![Step::Target, Step::Critic, Step::Actor, Step::Synchronise]
    } else {
        seq![Step::Target, Step::Critic]
    }
}

/// How many of the `n` training steps after step `start` include the delayed
/// update.
pub open spec fn delayed_updates(start: int, n: nat, policy_freq: int) -> nat
    decreases n,
{
    if n == 0 {
        0
    } else {
        delayed_updates(start, (n - 1) as nat, policy_freq) + if is_delayed(
            start + n,
            policy_freq,
        ) {
            1nat
        } else {
            0nat
        }
    }
}

/// The number of components of the action that an actor gives for one state
/// of `state_len` components: the number of elements of what its layers give
/// for a tensor of that one dimension.
pub open spec fn action_len(layers: Seq<Linear>, state_len: usize) -> Result<
    usize,
    ShapeError,
> {
    if state_len > i64::MAX {
        Err(ShapeError::Mismatch)
    } else {
        match forward_shape(layers, seq![state_len as i64]) {
            Err(e) => Err(e),
            Ok(ys) => match storage_size(ys) {
                Some(len) => Ok(len),
                None => Err(ShapeError::Mismatch),
            },
        }
    }
}

/// What is wrong with a batch, if anything. A batch holds, in this order, the
/// states, the actions taken, the states that followed, the rewards, and the
/// flags that say that the episode went on; each with one row for each of the
/// `size` transitions.
pub open spec fn batch_fault(state_dim: i64, action_dim: i64, samples: Seq<Vec<i64>>, size: i64)
    -> Option<TrainError> {
    if samples.len() != 5 {
        Some(TrainError::Samples)
    } else if samples[0]@ != seq![size, state_dim] {
        Some(TrainError::Shape(0))
    } else if samples[1]@ != seq![size, action_dim] {
        Some(TrainError::Shape(1))
    } else if samples[2]@ != seq![size, state_dim] {
        Some(TrainError::Shape(2))
    } else if samples[3]@ != seq![size, 1i64] {
        Some(TrainError::Shape(3))
    } else if samples[4]@ != seq![size, 1i64] {
        Some(TrainError::Shape(4))
    } else {
        None
    }
}

fn text_or_default(setting: Option<String>, default: &str) -> (r: String)
    ensures
        r@ == text_or(setting, default@),
{
    match setting {
        Some(text) => text,
        None => String::from_str(default),
    }
}

fn hidden_widths(shape: Option<Vec<i64>>) -> (r: Vec<i64>)
    ensures
        r@ == hidden_or_default(shape),
{
    match shape {
        Some(widths) => widths,
        None => {
            let mut widths: Vec<i64> = Vec::new();
            widths.push(256);
            widths.push(256);
            widths.push(256);
            assert(widths@ =~= default_hidden());
            widths
        },
    }
}

impl TD3 {
    /// The agent is consistent: its counter and period are in range, its
    /// networks lead from states to actions and from states and actions to one
    /// value, and each target network has the layers of its online network.
    pub open spec fn wf(&self) -> bool {
        &&& self.policy_freq >= 1
        &&& self.total_it >= 0
        &&& i64::MIN <= self.state_dim + self.action_dim <= i64::MAX
        &&& chained(self.actor.layers@, self.state_dim, self.action_dim)
        &&& chained(self.critic.q1_layers@, (self.state_dim + self.action_dim) as i64, 1)
        &&& chained(self.critic.q2_layers@, (self.state_dim + self.action_dim) as i64, 1)
        &&& self.actor_target.layers@ == self.actor.layers@
        &&& self.critic_target.q1_layers@ == self.critic.q1_layers@
        &&& self.critic_target.q2_layers@ == self.critic.q2_layers@
        &&& self.actor.max_action@ == self.max_action@
        &&& self.actor_target.max_action@ == self.max_action@
    }

    /// The agent after one more training step: the counter has gone up by one,
    /// and nothing else has changed.
    pub open spec fn stepped(self) -> TD3 {
        TD3 { total_it: (self.total_it + 1) as i64, ..self }
    }

    /// The agent after `n` more training steps.
    pub open spec fn after(self, n: nat) -> TD3
        decreases n,
    {
        if n == 0 {
            self
        } else {
            self.after((n - 1) as nat).stepped()
        }
    }

    /// A new agent, which has not trained yet. The networks and their targets
    /// are built from the same widths. A setting that is not given takes its
    /// default: hidden widths of 256, 256 and 256, a rate `tau` of 0.005, a
    /// discount of 0.99, a policy noise of 0.2 bounded by 0.5, and a delayed
    /// update every second step.
    pub fn new(
        state_dim: i64,
        action_dim: i64,
        max_action: String,
        actor_shape: Option<Vec<i64>>,
        q1_shape: Option<Vec<i64>>,
        q2_shape: Option<Vec<i64>>,
        tau: Option<String>,
        discount: Option<String>,
        policy_noise: Option<String>,
        noise_clip: Option<String>,
        policy_freq: Option<i64>,
    ) -> (r: Self)
        requires
            i64::MIN <= state_dim + action_dim <= i64::MAX,
            policy_freq matches Some(period) ==> period >= 1,
        ensures
            r.wf(),
            r.state_dim == state_dim,
            r.action_dim == action_dim,
            r.max_action@ == max_action@,
            r.actor.layers@ == stack_of(state_dim, hidden_or_default(actor_shape), action_dim),
            r.critic.q1_layers@ == stack_of(
                (state_dim + action_dim) as i64,
                hidden_or_default(q1_shape),
                1,
            ),
            r.critic.q2_layers@ == stack_of(
                (state_dim + action_dim) as i64,
                hidden_or_default(q2_shape),
                1,
            ),
            r.tau@ == text_or(tau, "0.005"@),
            r.discount@ == text_or(discount, "0.99"@),
            r.policy_noise@ == text_or(policy_noise, "0.2"@),
            r.noise_clip@ == text_or(noise_clip, "0.5"@),
            r.policy_freq == match policy_freq {
                Some(period) => period,
                None => DEFAULT_POLICY_FREQ,
            },
            r.total_it == 0,
    {
        let actor_shape = hidden_widths(actor_shape);
        let q1_shape = hidden_widths(q1_shape);
        let q2_shape = hidden_widths(q2_shape);
        let input: i64 = state_dim + action_dim;
        proof {
            lemma_stack_chained(state_dim, actor_shape@, action_dim);
            lemma_stack_chained(input, q1_shape@, 1);
            lemma_stack_chained(input, q2_shape@, 1);
        }
        let actor = Actor {
            layers: build_stack(state_dim, &actor_shape, action_dim),
            max_action: max_action.clone(),
        };
        let actor_target = Actor {
            layers: build_stack(state_dim, &actor_shape, action_dim),
            max_action: max_action.clone(),
        };
        let critic = Critic {
            q1_layers: build_stack(input, &q1_shape, 1),
            q2_layers: build_stack(input, &q2_shape, 1),
        };
        let critic_target = Critic {
            q1_layers: build_stack(input, &q1_shape, 1),
            q2_layers: build_stack(input, &q2_shape, 1),
        };
        TD3 {
            actor,
            actor_target,
            critic,
            critic_target,
            action_dim,
            state_dim,
            max_action,
            tau: text_or_default(tau, "0.005"),
            discount: text_or_default(discount, "0.99"),
            policy_noise: text_or_default(policy_noise, "0.2"),
            noise_clip: text_or_default(noise_clip, "0.5"),
            policy_freq: match policy_freq {
                Some(period) => period,
                None => DEFAULT_POLICY_FREQ,
            },
            total_it: 0,
        }
    }

    /// The number of components of the action that the actor gives for one
    /// state of `state_len` components. Fails where the state has not as many
    /// components as the actor has inputs.
    pub fn select_action(&self, state_len: usize) -> (r: Result<usize, ShapeError>)
        ensures
            r == action_len(self.actor.layers@, state_len),
            self.wf() && state_len == self.state_dim && 0 <= self.action_dim <= usize::MAX ==> r
                == Ok::<_, ShapeError>(self.action_dim as usize),
            self.wf() && state_len != self.state_dim ==> r == Err::<usize, _>(ShapeError::Mismatch),
    {
        if state_len as u64 > i64::MAX as u64 {
            return Err(ShapeError::Mismatch);
        }
        let mut state: Vec<i64> = Vec::new();
        state.push(state_len as i64);
        assert(state@ =~= seq![state_len as i64]);
        proof {
            if self.wf() {
                if state_len == self.state_dim {
                    lemma_chained_forward(
                        self.actor.layers@,
                        self.state_dim,
                        self.action_dim,
                        state@,
                    );
                    let ys = state@.drop_last().push(self.action_dim);
                    assert(ys =~= seq![self.action_dim]);
                    lemma_single_dimension(self.action_dim);
                } else {
                    lemma_first_layer_refuses(self.actor.layers@, state@, self.actor.layers@.len());
                }
            }
        }
        let action = match self.actor.forward(&state) {
            Ok(ys) => ys,
            Err(e) => {
                return Err(e);
            },
        };
        match checked_element_count(&action) {
            Some(len) => Ok(len),
            None => Err(ShapeError::Mismatch),
        }
    }

    /// Counts one training step and says what it has to do. The step is
    /// counted whether or not the batch is accepted. `samples` holds the
    /// shapes of the five tensors of the batch, and `batch_size` the number of
    /// transitions asked for, 256 where none is given. Every step computes the
    /// target and updates the critic; the step that brings the counter to a
    /// multiple of `policy_freq` also updates the actor and then synchronises
    /// the targets.
    pub fn train(&mut self, samples: &Vec<Vec<i64>>, batch_size: Option<i64>) -> (r: Result<
        Update,
        TrainError,
    >)
        requires
            old(self).policy_freq >= 1,
            0 <= old(self).total_it < i64::MAX,
        ensures
            *final(self) == old(self).stepped(),
            old(self).wf() ==> final(self).wf(),
            match batch_fault(
                old(self).state_dim,
                old(self).action_dim,
                samples@,
                match batch_size {
                    Some(size) => size,
                    None => DEFAULT_BATCH_SIZE,
                },
            ) {
                Some(e) => r == Err::<Update, _>(e),
                None => r matches Ok(update) && update.batch_size == match batch_size {
                    Some(size) => size,
                    None => DEFAULT_BATCH_SIZE,
                } && update.steps@ == steps_due(
                    final(self).total_it as int,
                    final(self).policy_freq as int,
                ),
            },
    {
        let size: i64 = match batch_size {
            Some(size) => size,
            None => DEFAULT_BATCH_SIZE,
        };
        self.total_it = self.total_it + 1;
        if samples.len() != 5 {
            return Err(TrainError::Samples);
        }
        if !is_matrix(&samples[0], size, self.state_dim) {
            return Err(TrainError::Shape(0));
        }
        if !is_matrix(&samples[1], size, self.action_dim) {
            return Err(TrainError::Shape(1));
        }
        if !is_matrix(&samples[2], size, self.state_dim) {
            return Err(TrainError::Shape(2));
        }
        if !is_matrix(&samples[3], size, 1) {
            return Err(TrainError::Shape(3));
        }
        if !is_matrix(&samples[4], size, 1) {
            return Err(TrainError::Shape(4));
        }
        let mut steps: Vec<Step> = Vec::new();
        steps.push(Step::Target);
        steps.push(Step::Critic);
        if self.total_it % self.policy_freq == 0 {
            steps.push(Step::Actor);
            steps.push(Step::Synchronise);
        }
        assert(steps@ =~= steps_due(self.total_it as int, self.policy_freq as int));
        Ok(Update { batch_size: size, steps })
    }
}

proof fn lemma_single_dimension(d: i64)
    ensures
        0 <= d <= usize::MAX ==> storage_size(seq![d]) == Some(d as usize),
{
    let s = seq![d];
    reveal_with_fuel(element_count, 2);
    assert(s.drop_last() =~= Seq::<i64>::empty());
    assert(element_count(s) == 1 * (d as int));
}

/// A stack whose first layer does not take the input gives no output.
proof fn lemma_first_layer_refuses(layers: Seq<Linear>, xs: Seq<i64>, n: nat)
    requires
        layers.len() >= 1,
        xs.len() == 1,
        xs[0] != layers[0].in_dim,
        1 <= n <= layers.len(),
    ensures
        through(layers, xs, n) is None,
    decreases n,
{
    if n == 1 {
        assert(through(layers, xs, 0) == Some(xs));
    } else {
        lemma_first_layer_refuses(layers, xs, (n - 1) as nat);
    }
}

/// The counter after `n` training steps is the counter before them plus `n`,
/// whatever the period of the delayed update, and the steps change nothing else
/// of the agent: the layers of the target networks, like those of the online
/// ones, are what they were.
pub proof fn lemma_counter(agent: TD3, n: nat)
    requires
        agent.total_it + n <= i64::MAX,
        agent.total_it >= i64::MIN,
    ensures
        agent.after(n).total_it == agent.total_it + n,
        agent.after(n) == (TD3 { total_it: (agent.total_it + n) as i64, ..agent }),
    decreases n,
{
    if n > 0 {
        lemma_counter(agent, (n - 1) as nat);
    }
}

/// A training step includes the delayed update, and with it the only change
/// of the target networks, exactly where it brings the counter to a multiple
/// of the period.
pub proof fn lemma_steps_due(total_it: int, policy_freq: int)
    ensures
        steps_due(total_it, policy_freq).contains(Step::Synchronise) <==> is_delayed(
            total_it,
            policy_freq,
        ),
        steps_due(total_it, policy_freq).contains(Step::Actor) <==> is_delayed(
            total_it,
            policy_freq,
        ),
        steps_due(total_it, policy_freq)[0] == Step::Target,
        steps_due(total_it, policy_freq)[1] == Step::Critic,
{
    let steps = steps_due(total_it, policy_freq);
    if is_delayed(total_it, policy_freq) {
        assert(steps[2] == Step::Actor);
        assert(steps[3] == Step::Synchronise);
    }
}

/// Of the `n` training steps after step `start`, as many include the delayed
/// update as there are multiples of the period above `start` and up to
/// `start + n`.
pub proof fn lemma_delayed_updates(start: int, n: nat, policy_freq: int)
    requires
        start >= 0,
        policy_freq >= 1,
    ensures
        delayed_updates(start, n, policy_freq) == (start + n) / policy_freq - start / policy_freq,
    decreases n,
{
    if n > 0 {
        lemma_delayed_updates(start, (n - 1) as nat, policy_freq);
        lemma_next_multiple(start + n - 1, policy_freq);
    }
}

proof fn lemma_next_multiple(m: int, f: int)
    requires
        m >= 0,
        f >= 1,
    ensures
        (m + 1) / f == m / f + if (m + 1) % f == 0 {
            1int
        } else {
            0int
        },
{
    vstd::arithmetic::div_mod::lemma_fundamental_div_mod(m, f);
    vstd::arithmetic::div_mod::lemma_fundamental_div_mod(m + 1, f);
    vstd::arithmetic::div_mod::lemma_mod_bound(m, f);
    vstd::arithmetic::div_mod::lemma_mod_bound(m + 1, f);
    let q = m / f;
    let r = m % f;
    let q1 = (m + 1) / f;
    let r1 = (m + 1) % f;
    assert(f * q1 + r1 == f * q + r + 1);
    assert(q1 == q || q1 == q + 1) by (nonlinear_arith)
        requires
            f * q1 + r1 == f * q + r + 1,
            0 <= r < f,
            0 <= r1 < f,
            f >= 1,
    ;
    if q1 == q + 1 {
        assert(r1 == 0) by (nonlinear_arith)
            requires
                f * (q + 1) + r1 == f * q + r + 1,
                0 <= r < f,
                0 <= r1 < f,
        ;
    } else {
        assert(r1 == r + 1) by (nonlinear_arith)
            requires
                f * q + r1 == f * q + r + 1,
        ;
    }
}

/// The shapes along a training step. For a consistent agent and a batch of
/// `size` transitions: each actor gives `size` actions; states and actions
/// side by side are what each critic takes; each critic gives `size` rows of
/// two values, and its first estimator alone `size` rows of one.
pub proof fn lemma_training_shapes(agent: TD3, size: i64)
    requires
        agent.wf(),
    ensures
        forward_shape(agent.actor.layers@, seq![size, agent.state_dim]) == Ok::<_, ShapeError>(
            seq![size, agent.action_dim],
        ),
        forward_shape(agent.actor_target.layers@, seq![size, agent.state_dim]) == Ok::<
            _,
            ShapeError,
        >(seq![size, agent.action_dim]),
        joined_columns(
            seq![size, agent.state_dim],
            seq![size, agent.action_dim],
        ) == Some(seq![size, (agent.state_dim + agent.action_dim) as i64]),
        critic_shape(
            agent.critic.q1_layers@,
            agent.critic.q2_layers@,
            seq![size, (agent.state_dim + agent.action_dim) as i64],
        ) == Ok::<_, ShapeError>(seq![size, 2i64]),
        critic_shape(
            agent.critic_target.q1_layers@,
            agent.critic_target.q2_layers@,
            seq![size, (agent.state_dim + agent.action_dim) as i64],
        ) == Ok::<_, ShapeError>(seq![size, 2i64]),
        forward_shape(
            agent.critic.q1_layers@,
            seq![size, (agent.state_dim + agent.action_dim) as i64],
        ) == Ok::<_, ShapeError>(seq![size, 1i64]),
{
    let states = seq![size, agent.state_dim];
    let actions = seq![size, agent.action_dim];
    let input = (agent.state_dim + agent.action_dim) as i64;
    lemma_chained_forward(agent.actor.layers@, agent.state_dim, agent.action_dim, states);
    assert(states.drop_last().push(agent.action_dim) =~= actions);
    assert(states.update(1, input) =~= seq![size, input]);
    lemma_chained_critic_shape(agent.critic.q1_layers@, agent.critic.q2_layers@, input, size);
}

} // verus!
