//! The two networks of an agent, as far as their shapes go: which layers they
//! are made of, and what shape each gives for an input of a given shape.

use crate::shape::{apply_linear, join_columns, joined_columns, linear_output};
use vstd::prelude::*;

verus! {

/// A linear layer: the number of its inputs and the number of its outputs.
#[derive(Clone, Copy, Debug, PartialEq, Eq, Structural)]
pub struct Linear {
    pub in_dim: i64,
    pub out_dim: i64,
}

/// Why a network gives no output for an input.
#[derive(Clone, Copy, Debug, PartialEq, Eq, Structural)]
pub enum ShapeError {
    /// The network has no layer.
    NoLayers,
    /// A layer met an input whose last dimension is not the number of its
    /// inputs, or the two outputs of a critic cannot be joined.
    Mismatch,
}

/// What follows a linear layer.
#[derive(Clone, Copy, Debug, PartialEq, Eq, Structural)]
pub enum Activation {
    /// The rectifier, after every layer but the last.
    Relu,
    /// The hyperbolic tangent, scaled by the bound on the action: after the
    /// last layer of an actor.
    ScaledTanh,
    /// Nothing: after the last layer of a value estimator.
    Identity,
}

/// The policy network: from a state to an action.
#[derive(Clone, Debug, PartialEq, Eq)]
pub struct Actor {
    pub layers: Vec<Linear>,
    /// The bound on each component of an action, as the text of a number.
    pub max_action: String,
}

/// The value network: two estimators, each from a state and an action, side
/// by side, to one value.
#[derive(Clone, Debug, PartialEq, Eq)]
pub struct Critic {
    pub q1_layers: Vec<Linear>,
    pub q2_layers: Vec<Linear>,
}

/// The widths along a stack of layers: its input, its hidden widths, its
/// output.
pub open spec fn widths(input: i64, hidden: Seq<i64>, output: i64) -> Seq<i64> {
    seq![input] + hidden + seq![output]
}

/// The stack of layers with the given widths: one layer more than there are
/// hidden widths, each from one width to the next.
pub open spec fn stack_of(input: i64, hidden: Seq<i64>, output: i64) -> Seq<Linear> {
    Seq::new(
        hidden.len() + 1,
        |i: int|
            Linear {
                in_dim: widths(input, hidden, output)[i],
                out_dim: widths(input, hidden, output)[i + 1],
            },
    )
}

/// The layers lead from `input` inputs to `output` outputs, each taking what
/// the one before it gives.
pub open spec fn chained(layers: Seq<Linear>, input: i64, output: i64) -> bool {
    &&& layers.len() >= 1
    &&& layers[0].in_dim == input
    &&& layers.last().out_dim == output
    &&& forall|i: int| 0 <= i < layers.len() - 1 ==> layers[i].out_dim == layers[i + 1].in_dim
}

/// The shape after the first `n` layers, for an input of shape `xs`.
pub open spec fn through(layers: Seq<Linear>, xs: Seq<i64>, n: nat) -> Option<Seq<i64>>
    decreases n,
{
    if n == 0 {
        Some(xs)
    } else {
        match through(layers, xs, (n - 1) as nat) {
            None => None,
            Some(s) => linear_output(s, layers[n - 1].in_dim, layers[n - 1].out_dim),
        }
    }
}

/// The shape that a stack of layers gives for an input of shape `xs`.
pub open spec fn forward_shape(layers: Seq<Linear>, xs: Seq<i64>) -> Result<Seq<i64>, ShapeError> {
    if layers.len() == 0 {
        Err(ShapeError::NoLayers)
    } else {
        match through(layers, xs, layers.len()) {
            Some(s) => Ok(s),
            None => Err(ShapeError::Mismatch),
        }
    }
}

/// The shape that a critic gives for an input of shape `xs`: the outputs of
/// its two estimators joined along dimension 1.
pub open spec fn critic_shape(q1: Seq<Linear>, q2: Seq<Linear>, xs: Seq<i64>) -> Result<
    Seq<i64>,
    ShapeError,
> {
    match forward_shape(q1, xs) {
        Err(e) => Err(e),
        Ok(a) => match forward_shape(q2, xs) {
            Err(e) => Err(e),
            Ok(b) => match joined_columns(a, b) {
                Some(c) => Ok(c),
                None => Err(ShapeError::Mismatch),
            },
        },
    }
}

/// What follows layer `layer` in a stack of `n` layers whose last layer is
/// followed by `last`.
pub open spec fn activation_after(n: nat, layer: nat, last: Activation) -> Option<Activation> {
    if layer + 1 < n {
        Some(Activation::Relu)
    } else if layer + 1 == n {
        Some(last)
    } else {
        None
    }
}

/// A stack built from widths is chained from its input to its output.
pub proof fn lemma_stack_chained(input: i64, hidden: Seq<i64>, output: i64)
    ensures
        chained(stack_of(input, hidden, output), input, output),
{
}

/// A chained stack gives, for an input whose last dimension is the number of
/// its inputs, that shape with the last dimension replaced by the number of its
/// outputs.
pub proof fn lemma_chained_forward(layers: Seq<Linear>, input: i64, output: i64, xs: Seq<i64>)
    requires
        chained(layers, input, output),
        xs.len() >= 1,
        xs.last() == input,
    ensures
        forward_shape(layers, xs) == Ok::<_, ShapeError>(xs.drop_last().push(output)),
{
    lemma_chained_through(layers, input, output, xs, layers.len());
}

proof fn lemma_chained_through(
    layers: Seq<Linear>,
    input: i64,
    output: i64,
    xs: Seq<i64>,
    n: nat,
)
    requires
        chained(layers, input, output),
        xs.len() >= 1,
        xs.last() == input,
        1 <= n <= layers.len(),
    ensures
        through(layers, xs, n) == Some(xs.drop_last().push(layers[n - 1].out_dim)),
    decreases n,
{
    if n == 1 {
        assert(through(layers, xs, 0) == Some(xs));
    } else {
        lemma_chained_through(layers, input, output, xs, (n - 1) as nat);
        let before = xs.drop_last().push(layers[n - 2].out_dim);
        assert(before.last() == layers[n - 1].in_dim);
        assert(before.drop_last() =~= xs.drop_last());
    }
}

/// An actor built for states of `state_dim` components and actions of
/// `action_dim` gives, for a batch of `batch` states, a batch of `batch`
/// actions, whatever its hidden widths.
pub proof fn lemma_actor_output_shape(
    state_dim: i64,
    action_dim: i64,
    hidden: Seq<i64>,
    batch: i64,
)
    ensures
        forward_shape(stack_of(state_dim, hidden, action_dim), seq![batch, state_dim]) == Ok::<
            _,
            ShapeError,
        >(seq![batch, action_dim]),
{
    lemma_stack_chained(state_dim, hidden, action_dim);
    lemma_chained_forward(
        stack_of(state_dim, hidden, action_dim),
        state_dim,
        action_dim,
        seq![batch, state_dim],
    );
    assert(seq![batch, state_dim].drop_last().push(action_dim) =~= seq![batch, action_dim]);
}

/// A critic whose two estimators are chained from `input` inputs to one
/// output gives, for a batch of `batch` inputs, `batch` rows of two values.
pub proof fn lemma_chained_critic_shape(q1: Seq<Linear>, q2: Seq<Linear>, input: i64, batch: i64)
    requires
        chained(q1, input, 1),
        chained(q2, input, 1),
    ensures
        forward_shape(q1, seq![batch, input]) == Ok::<_, ShapeError>(seq![batch, 1i64]),
        forward_shape(q2, seq![batch, input]) == Ok::<_, ShapeError>(seq![batch, 1i64]),
        critic_shape(q1, q2, seq![batch, input]) == Ok::<_, ShapeError>(seq![batch, 2i64]),
{
    let xs = seq![batch, input];
    lemma_chained_forward(q1, input, 1, xs);
    lemma_chained_forward(q2, input, 1, xs);
    let one = seq![batch, 1i64];
    assert(xs.drop_last().push(1i64) =~= one);
    assert(one.update(1, 2i64) =~= seq![batch, 2i64]);
}

/// A critic built for states of `state_dim` components and actions of
/// `action_dim` gives, for a batch of `batch` states and actions side by side,
/// `batch` rows of two values, whatever the hidden widths of its estimators.
pub proof fn lemma_critic_output_shape(
    state_dim: i64,
    action_dim: i64,
    q1_hidden: Seq<i64>,
    q2_hidden: Seq<i64>,
    batch: i64,
)
    requires
        i64::MIN <= state_dim + action_dim <= i64::MAX,
    ensures
        critic_shape(
            stack_of((state_dim + action_dim) as i64, q1_hidden, 1),
            stack_of((state_dim + action_dim) as i64, q2_hidden, 1),
            seq![batch, (state_dim + action_dim) as i64],
        ) == Ok::<_, ShapeError>(seq![batch, 2i64]),
{
    let input = (state_dim + action_dim) as i64;
    lemma_stack_chained(input, q1_hidden, 1);
    lemma_stack_chained(input, q2_hidden, 1);
    lemma_chained_critic_shape(
        stack_of(input, q1_hidden, 1),
        stack_of(input, q2_hidden, 1),
        input,
        batch,
    );
}

/// The stack of layers with the given widths.
pub fn build_stack(input: i64, hidden: &Vec<i64>, output: i64) -> (r: Vec<Linear>)
    ensures
        r@ == stack_of(input, hidden@, output),
{
    let n: usize = hidden.len();
    let ghost w = widths(input, hidden@, output);
    let mut layers: Vec<Linear> = Vec::new();
    let mut from: i64 = input;
    let mut i: usize = 0;
    while i < n
        invariant
            0 <= i <= n,
            n == hidden@.len(),
            w == widths(input, hidden@, output),
            from == w[i as int],
            layers@ == stack_of(input, hidden@, output).take(i as int),
        decreases n - i,
    {
        let to: i64 = hidden[i];
        assert(to == w[i + 1]);
        layers.push(Linear { in_dim: from, out_dim: to });
        assert(layers@ =~= stack_of(input, hidden@, output).take(i + 1));
        from = to;
        i += 1;
    }
    assert(output == w[n + 1]);
    layers.push(Linear { in_dim: from, out_dim: output });
    assert(layers@ =~= stack_of(input, hidden@, output));
    layers
}

/// The shape that a stack of layers gives for an input of shape `xs`.
pub fn run_stack(layers: &Vec<Linear>, xs: &Vec<i64>) -> (r: Result<Vec<i64>, ShapeError>)
    ensures
        match r {
            Ok(ys) => forward_shape(layers@, xs@) == Ok::<_, ShapeError>(ys@),
            Err(e) => forward_shape(layers@, xs@) == Err::<Seq<i64>, _>(e),
        },
{
    let n: usize = layers.len();
    if n == 0 {
        return Err(ShapeError::NoLayers);
    }
    let mut current: Vec<i64> = match apply_linear(xs, layers[0].in_dim, layers[0].out_dim) {
        Some(ys) => ys,
        None => {
            proof {
                assert(through(layers@, xs@, 0) == Some(xs@));
                lemma_through_fails(layers@, xs@, 1, n as nat);
            }
            return Err(ShapeError::Mismatch);
        },
    };
    assert(through(layers@, xs@, 0) == Some(xs@));
    let mut i: usize = 1;
    while i < n
        invariant
            1 <= i <= n,
            n == layers@.len(),
            through(layers@, xs@, i as nat) == Some(current@),
        decreases n - i,
    {
        match apply_linear(&current, layers[i].in_dim, layers[i].out_dim) {
            Some(ys) => {
                current = ys;
            },
            None => {
                proof {
                    lemma_through_fails(layers@, xs@, (i + 1) as nat, n as nat);
                }
                return Err(ShapeError::Mismatch);
            },
        }
        i += 1;
    }
    Ok(current)
}

/// Once a layer meets an input that does not fit it, no later layer gives
/// an output.
proof fn lemma_through_fails(layers: Seq<Linear>, xs: Seq<i64>, m: nat, n: nat)
    requires
        m <= n,
        through(layers, xs, m) is None,
    ensures
        through(layers, xs, n) is None,
    decreases n - m,
{
    if m < n {
        lemma_through_fails(layers, xs, m, (n - 1) as nat);
    }
}

fn activation_in(n: usize, layer: usize, last: Activation) -> (r: Option<Activation>)
    ensures
        r == activation_after(n as nat, layer as nat, last),
{
    if layer >= n {
        None
    } else if layer == n - 1 {
        Some(last)
    } else {
        Some(Activation::Relu)
    }
}

impl Actor {
    /// An actor from states of `state_dim` components to actions of
    /// `action_dim`, through hidden layers of the widths `nn_shape`, with
    /// actions bounded by `max_action`.
    pub fn new(state_dim: i64, action_dim: i64, nn_shape: Vec<i64>, max_action: String) -> (r:
        Self)
        ensures
            r.layers@ == stack_of(state_dim, nn_shape@, action_dim),
            r.max_action@ == max_action@,
    {
        Actor { layers: build_stack(state_dim, &nn_shape, action_dim), max_action }
    }

    /// The shape of the actions for states of shape `xs`: the last dimension
    /// of `xs` must be the number of the actor's inputs, and becomes the
    /// number of its outputs.
    pub fn forward(&self, xs: &Vec<i64>) -> (r: Result<Vec<i64>, ShapeError>)
        ensures
            match r {
                Ok(ys) => forward_shape(self.layers@, xs@) == Ok::<_, ShapeError>(ys@),
                Err(e) => forward_shape(self.layers@, xs@) == Err::<Seq<i64>, _>(e),
            },
    {
        run_stack(&self.layers, xs)
    }

    /// What follows layer `layer`: the rectifier after a hidden layer, the
    /// scaled hyperbolic tangent after the last. `None` where the actor has no
    /// such layer.
    pub fn activation(&self, layer: usize) -> (r: Option<Activation>)
        ensures
            r == activation_after(self.layers@.len(), layer as nat, Activation::ScaledTanh),
    {
        activation_in(self.layers.len(), layer, Activation::ScaledTanh)
    }
}

impl Critic {
    /// A critic for states of `state_dim` components and actions of
    /// `action_dim`: two estimators, each from a state and an action side by
    /// side to one value, through hidden layers of the widths `q1_shape` and
    /// `q2_shape`.
    pub fn new(state_dim: i64, action_dim: i64, q1_shape: Vec<i64>, q2_shape: Vec<i64>) -> (r:
        Self)
        requires
            i64::MIN <= state_dim + action_dim <= i64::MAX,
        ensures
            r.q1_layers@ == stack_of((state_dim + action_dim) as i64, q1_shape@, 1),
            r.q2_layers@ == stack_of((state_dim + action_dim) as i64, q2_shape@, 1),
    {
        let input: i64 = state_dim + action_dim;
        Critic {
            q1_layers: build_stack(input, &q1_shape, 1),
            q2_layers: build_stack(input, &q2_shape, 1),
        }
    }

    /// The shape of the first estimator's values for inputs of shape `xs`.
    #[allow(non_snake_case)]
    pub fn Q1(&self, xs: &Vec<i64>) -> (r: Result<Vec<i64>, ShapeError>)
        ensures
            match r {
                Ok(ys) => forward_shape(self.q1_layers@, xs@) == Ok::<_, ShapeError>(ys@),
                Err(e) => forward_shape(self.q1_layers@, xs@) == Err::<Seq<i64>, _>(e),
            },
    {
        run_stack(&self.q1_layers, xs)
    }

    /// The shape of the critic's output for inputs of shape `xs`: the values
    /// of the two estimators joined along dimension 1.
    pub fn forward(&self, xs: &Vec<i64>) -> (r: Result<Vec<i64>, ShapeError>)
        ensures
            match r {
                Ok(ys) => critic_shape(self.q1_layers@, self.q2_layers@, xs@) == Ok::<
                    _,
                    ShapeError,
                >(ys@),
                Err(e) => critic_shape(self.q1_layers@, self.q2_layers@, xs@) == Err::<
                    Seq<i64>,
                    _,
                >(e),
            },
    {
        let q1 = match run_stack(&self.q1_layers, xs) {
            Ok(ys) => ys,
            Err(e) => {
                return Err(e);
            },
        };
        let q2 = match run_stack(&self.q2_layers, xs) {
            Ok(ys) => ys,
            Err(e) => {
                return Err(e);
            },
        };
        match join_columns(&q1, &q2) {
            Some(ys) => Ok(ys),
            None => Err(ShapeError::Mismatch),
        }
    }

    /// What follows layer `layer` of the first estimator: the rectifier after
    /// a hidden layer, nothing after the last. `None` where the estimator has
    /// no such layer.
    pub fn q1_activation(&self, layer: usize) -> (r: Option<Activation>)
        ensures
            r == activation_after(self.q1_layers@.len(), layer as nat, Activation::Identity),
    {
        activation_in(self.q1_layers.len(), layer, Activation::Identity)
    }

    /// What follows layer `layer` of the second estimator.
    pub fn q2_activation(&self, layer: usize) -> (r: Option<Activation>)
        ensures
            r == activation_after(self.q2_layers@.len(), layer as nat, Activation::Identity),
    {
        activation_in(self.q2_layers.len(), layer, Activation::Identity)
    }
}

} // verus!
