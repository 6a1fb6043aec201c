//! Saving an agent's parameters as one JSON text and loading them again.
//!
//! The text is a JSON object from keys to values, all strings. `save` reads
//! back what it has written before it reports success, so a text that `save`
//! has given is one that `load` reads as the parameters that were saved.

use crate::agent::TD3;
use crate::checkpoint::{
    actor_fault, actor_from, actor_pairs, critic_fault, critic_from, critic_pairs, layers_model,
    ActorModel, ActorParams, CriticModel, CriticParams, LinearModel, LinearParams, PersistError,
    Tensor,
};
use crate::entry::{pairs, Entry};
use crate::json::{json_object, json_of_object, parse_object, render_object};
use crate::network::Linear;
use crate::shape::{is_matrix, is_vector, same_shape};
use vstd::prelude::*;

verus! {

/// The saved parameters of an agent: those of its actor and of its critic.
#[derive(Clone, Debug, PartialEq, Eq)]
pub struct Checkpoint {
    pub actor: ActorParams,
    pub critic: CriticParams,
}

/// What a [`Checkpoint`] holds, as contracts speak of it.
pub struct CheckpointModel {
    pub actor: ActorModel,
    pub critic: CriticModel,
}

impl View for Checkpoint {
    type V = CheckpointModel;

    open spec fn view(&self) -> CheckpointModel {
        CheckpointModel { actor: self.actor@, critic: self.critic@ }
    }
}

/// The parameters are those of this layer: a matrix of weights with a row for
/// each output and a column for each input, and, where there is a bias, one
/// number for each output.
pub open spec fn layer_fits(l: Linear, p: LinearModel) -> bool {
    &&& p.ws.shape == seq![l.out_dim, l.in_dim]
    &&& p.bs matches Some(bs) ==> bs.shape == seq![l.out_dim]
}

/// The parameters are those of these layers, layer by layer.
pub open spec fn stack_fits(layers: Seq<Linear>, params: Seq<LinearModel>) -> bool {
    &&& layers.len() == params.len()
    &&& forall|i: int| 0 <= i < layers.len() ==> layer_fits(layers[i], #[trigger] params[i])
}

/// The entries of a checkpoint: those of the actor, then those of the critic.
pub open spec fn checkpoint_pairs(c: CheckpointModel) -> Seq<(Seq<char>, Seq<char>)> {
    actor_pairs(c.actor) + critic_pairs(c.critic)
}

/// What a text is loaded as: the actor and the critic that its entries hold.
/// The error is that of the text where it is no JSON object of strings, else
/// that of the actor, else that of the critic.
pub open spec fn load_from(text: Seq<char>) -> Result<CheckpointModel, PersistError> {
    match json_object(text) {
        None => Err(PersistError::Unreadable),
        Some(ps) => match actor_from(ps) {
            Err(e) => Err(e),
            Ok(actor) => match critic_from(ps) {
                Err(e) => Err(e),
                Ok(critic) => Ok(CheckpointModel { actor, critic }),
            },
        },
    }
}

/// The text that an agent's parameters are saved as. The parameters must be
/// those of the agent's networks, and each value must be one that can be read
/// back; the text is then the JSON object of the entries, given that it is
/// loaded as the parameters again.
pub open spec fn save_text(agent: TD3, c: CheckpointModel) -> Result<Seq<char>, PersistError> {
    if !agent.fits(c) {
        Err(PersistError::Mismatch)
    } else {
        match actor_fault(c.actor) {
            Some(e) => Err(e),
            None => match critic_fault(c.critic) {
                Some(e) => Err(e),
                None => if load_from(json_of_object(checkpoint_pairs(c))) == Ok::<_, PersistError>(
                    c,
                ) {
                    Ok(json_of_object(checkpoint_pairs(c)))
                } else {
                    Err(PersistError::Unwritable)
                },
            },
        }
    }
}

fn same_tensor(a: &Tensor, b: &Tensor) -> (r: bool)
    ensures
        r == (a@ == b@),
{
    same_shape(&a.shape, &b.shape) && a.data == b.data
}

fn same_layer(a: &LinearParams, b: &LinearParams) -> (r: bool)
    ensures
        r == (a@ == b@),
{
    if !same_tensor(&a.ws, &b.ws) {
        return false;
    }
    match (&a.bs, &b.bs) {
        (Some(x), Some(y)) => same_tensor(x, y),
        (None, None) => true,
        _ => false,
    }
}

fn same_stack(a: &Vec<LinearParams>, b: &Vec<LinearParams>) -> (r: bool)
    ensures
        r == (layers_model(a@) == layers_model(b@)),
{
    if a.len() != b.len() {
        assert(layers_model(a@).len() != layers_model(b@).len());
        return false;
    }
    let n: usize = a.len();
    let mut i: usize = 0;
    while i < n
        invariant
            0 <= i <= n,
            n == a@.len(),
            n == b@.len(),
            forall|j: int| 0 <= j < i ==> a@[j]@ == b@[j]@,
        decreases n - i,
    {
        if !same_layer(&a[i], &b[i]) {
            assert(layers_model(a@)[i as int] != layers_model(b@)[i as int]);
            return false;
        }
        i += 1;
    }
    assert(layers_model(a@) =~= layers_model(b@));
    true
}

fn same_checkpoint(a: &Checkpoint, b: &Checkpoint) -> (r: bool)
    ensures
        r == (a@ == b@),
{
    a.actor.max_action == b.actor.max_action && same_stack(&a.actor.layers, &b.actor.layers)
        && same_stack(&a.critic.q1_layers, &b.critic.q1_layers) && same_stack(
        &a.critic.q2_layers,
        &b.critic.q2_layers,
    )
}

fn fits_layer(l: &Linear, p: &LinearParams) -> (r: bool)
    ensures
        r == layer_fits(*l, p@),
{
    if !is_matrix(&p.ws.shape, l.out_dim, l.in_dim) {
        return false;
    }
    match &p.bs {
        Some(bs) => is_vector(&bs.shape, l.out_dim),
        None => true,
    }
}

fn fits_stack(layers: &Vec<Linear>, params: &Vec<LinearParams>) -> (r: bool)
    ensures
        r == stack_fits(layers@, layers_model(params@)),
{
    if layers.len() != params.len() {
        return false;
    }
    let n: usize = layers.len();
    let mut i: usize = 0;
    while i < n
        invariant
            0 <= i <= n,
            n == layers@.len(),
            n == params@.len(),
            forall|j: int|
                0 <= j < i ==> layer_fits(layers@[j], #[trigger] layers_model(params@)[j]),
        decreases n - i,
    {
        assert(layers_model(params@)[i as int] == params@[i as int]@);
        if !fits_layer(&layers[i], &params[i]) {
            return false;
        }
        i += 1;
    }
    true
}

impl TD3 {
    /// The parameters are those of this agent's networks: the actor's bound is
    /// the agent's, and each stack of parameters fits the layers of its
    /// network.
    pub open spec fn fits(&self, c: CheckpointModel) -> bool {
        &&& c.actor.max_action == self.max_action@
        &&& stack_fits(self.actor.layers@, c.actor.layers)
        &&& stack_fits(self.critic.q1_layers@, c.critic.q1_layers)
        &&& stack_fits(self.critic.q2_layers@, c.critic.q2_layers)
    }

    /// Whether the parameters are those of this agent's networks.
    pub fn accepts(&self, checkpoint: &Checkpoint) -> (r: bool)
        ensures
            r == self.fits(checkpoint@),
    {
        checkpoint.actor.max_action == self.max_action && fits_stack(
            &self.actor.layers,
            &checkpoint.actor.layers,
        ) && fits_stack(&self.critic.q1_layers, &checkpoint.critic.q1_layers) && fits_stack(
            &self.critic.q2_layers,
            &checkpoint.critic.q2_layers,
        )
    }

    /// The text to write to the destination for the parameters of this agent.
    /// Fails where the parameters are not those of the agent's networks, where
    /// one of their values could not be read back, and where the text as a
    /// whole is not loaded as these parameters again.
    pub fn save(&self, checkpoint: &Checkpoint) -> (r: Result<String, PersistError>)
        ensures
            match r {
                Ok(text) => save_text(*self, checkpoint@) == Ok::<_, PersistError>(text@),
                Err(e) => save_text(*self, checkpoint@) == Err::<Seq<char>, _>(e),
            },
            r matches Ok(text) ==> load_from(text@) == Ok::<_, PersistError>(checkpoint@),
    {
        if !self.accepts(checkpoint) {
            return Err(PersistError::Mismatch);
        }
        let mut entries = match checkpoint.actor.serialize() {
            Ok(entries) => entries,
            Err(e) => {
                return Err(e);
            },
        };
        let mut more = match checkpoint.critic.serialize() {
            Ok(entries) => entries,
            Err(e) => {
                return Err(e);
            },
        };
        let ghost first = entries@;
        let ghost second = more@;
        entries.append(&mut more);
        assert(pairs(entries@) =~= pairs(first) + pairs(second));
        let text = match render_object(&entries) {
            Ok(text) => text,
            Err(_) => {
                return Err(PersistError::Unwritable);
            },
        };
        match Self::load(text.as_str()) {
            Ok(read) => {
                if same_checkpoint(&read, checkpoint) {
                    Ok(text)
                } else {
                    Err(PersistError::Unwritable)
                }
            },
            Err(_) => Err(PersistError::Unwritable),
        }
    }

    /// The parameters that a saved text holds. Fails where the text is no JSON
    /// object of strings, and on the first key that is missing or whose value
    /// cannot be used, which the error names.
    pub fn load(text: &str) -> (r: Result<Checkpoint, PersistError>)
        ensures
            match r {
                Ok(checkpoint) => load_from(text@) == Ok::<_, PersistError>(checkpoint@),
                Err(e) => load_from(text@) == Err::<CheckpointModel, _>(e),
            },
    {
        let entries: Vec<Entry> = match parse_object(text) {
            Ok(entries) => entries,
            Err(_) => {
                return Err(PersistError::Unreadable);
            },
        };
        let actor = match ActorParams::deserialize(&entries) {
            Ok(actor) => actor,
            Err(e) => {
                return Err(e);
            },
        };
        match CriticParams::deserialize(&entries) {
            Ok(critic) => Ok(Checkpoint { actor, critic }),
            Err(e) => Err(e),
        }
    }
}

} // verus!
