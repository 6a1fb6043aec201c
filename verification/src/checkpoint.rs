//! The parameters of an agent as they are saved, and how they are read from
//! and written to a flat list of entries.
//!
//! The numbers of a tensor are carried as the JSON text of their flat list:
//! this module checks that such a text holds as many numbers as the shape
//! calls for, and never looks at the numbers themselves.

use crate::digits::{count_of, decimal, parse_count, render_decimal};
use crate::entry::{find, lookup, pairs, Entry};
use crate::json::{
    count_numbers, i64_list_text, is_number, json_i64_list, json_is_number, json_number_count,
    parse_i64_list, render_i64_list,
};
use crate::keys::{Branch, Field, Key};
use crate::roundtrip::{lemma_actor_round_trip, lemma_critic_round_trip};
use crate::shape::{
    checked_element_count, element_count, is_shape, lemma_element_count_nonnegative, same_shape,
};
use vstd::prelude::*;

verus! {

/// Why a saved agent could not be read or written.
#[derive(Clone, Copy, Debug, PartialEq, Eq, Structural)]
pub enum PersistError {
    /// No entry has this key.
    Missing(Key),
    /// The value under this key is not of the form that the key calls for.
    Malformed(Key),
    /// The data under this key does not hold as many numbers as the shape
    /// beside it calls for.
    Corrupt(Key),
    /// The text is not a JSON object whose values are all strings.
    Unreadable,
    /// The text written for the parameters was not read back as them.
    Unwritable,
    /// The parameters are not those of the agent's networks.
    Mismatch,
}

/// A tensor as it is saved: its dimensions, and its numbers in row-major
/// order as the text of a JSON list.
#[derive(Clone, Debug, PartialEq, Eq)]
pub struct Tensor {
    pub shape: Vec<i64>,
    pub data: String,
}

/// What a [`Tensor`] holds, as contracts speak of it.
pub struct TensorModel {
    pub shape: Seq<i64>,
    pub data: Seq<char>,
}

impl View for Tensor {
    type V = TensorModel;

    open spec fn view(&self) -> TensorModel {
        TensorModel { shape: self.shape@, data: self.data@ }
    }
}

/// The parameters of one linear layer: its weights and, where it has one, its
/// bias.
#[derive(Clone, Debug, PartialEq, Eq)]
pub struct LinearParams {
    pub ws: Tensor,
    pub bs: Option<Tensor>,
}

/// What a [`LinearParams`] holds, as contracts speak of it.
pub struct LinearModel {
    pub ws: TensorModel,
    pub bs: Option<TensorModel>,
}

impl View for LinearParams {
    type V = LinearModel;

    open spec fn view(&self) -> LinearModel {
        LinearModel {
            ws: self.ws@,
            bs: match self.bs {
                Some(t) => Some(t@),
                None => None,
            },
        }
    }
}

/// What a list of layers holds, layer by layer.
pub open spec fn layers_model(layers: Seq<LinearParams>) -> Seq<LinearModel> {
    layers.map_values(|l: LinearParams| l@)
}

/// The saved parameters of an actor.
#[derive(Clone, Debug, PartialEq, Eq)]
pub struct ActorParams {
    /// The bound on the actor's output, as the text of a JSON number.
    pub max_action: String,
    pub layers: Vec<LinearParams>,
}

/// What an [`ActorParams`] holds, as contracts speak of it.
pub struct ActorModel {
    pub max_action: Seq<char>,
    pub layers: Seq<LinearModel>,
}

impl View for ActorParams {
    type V = ActorModel;

    open spec fn view(&self) -> ActorModel {
        ActorModel { max_action: self.max_action@, layers: layers_model(self.layers@) }
    }
}

/// The saved parameters of a critic: those of its two value estimators.
#[derive(Clone, Debug, PartialEq, Eq)]
pub struct CriticParams {
    pub q1_layers: Vec<LinearParams>,
    pub q2_layers: Vec<LinearParams>,
}

/// What a [`CriticParams`] holds, as contracts speak of it.
pub struct CriticModel {
    pub q1_layers: Seq<LinearModel>,
    pub q2_layers: Seq<LinearModel>,
}

impl View for CriticParams {
    type V = CriticModel;

    open spec fn view(&self) -> CriticModel {
        CriticModel {
            q1_layers: layers_model(self.q1_layers@),
            q2_layers: layers_model(self.q2_layers@),
        }
    }
}

/// The data holds exactly the numbers of a tensor of this shape.
pub open spec fn fills(shape: Seq<i64>, count: nat) -> bool {
    is_shape(shape) && element_count(shape) == count
}

// ---------------------------------------------------------------------------
// Reading
// ---------------------------------------------------------------------------

/// The tensor saved under a pair of keys, or the first thing wrong with it:
/// the shape is missing or is no list of integers, the data is missing or is
/// no list of numbers, or the two disagree in the number of elements.
pub open spec fn tensor_from(
    ps: Seq<(Seq<char>, Seq<char>)>,
    shape_key: Key,
    data_key: Key,
) -> Result<TensorModel, PersistError> {
    match lookup(ps, shape_key.text()) {
        None => Err(PersistError::Missing(shape_key)),
        Some(shape_text) => match json_i64_list(shape_text) {
            None => Err(PersistError::Malformed(shape_key)),
            Some(shape) => match lookup(ps, data_key.text()) {
                None => Err(PersistError::Missing(data_key)),
                Some(data) => match json_number_count(data) {
                    None => Err(PersistError::Malformed(data_key)),
                    Some(count) => if fills(shape, count) {
                        Ok(TensorModel { shape, data })
                    } else {
                        Err(PersistError::Corrupt(data_key))
                    },
                },
            },
        },
    }
}

/// Layer `index` of a branch as the entries hold it. A layer has a bias
/// exactly where there is an entry for the bias data.
pub open spec fn layer_from(
    ps: Seq<(Seq<char>, Seq<char>)>,
    branch: Branch,
    index: usize,
) -> Result<LinearModel, PersistError> {
    match tensor_from(
        ps,
        Key::Layer(branch, index, Field::WeightShape),
        Key::Layer(branch, index, Field::WeightData),
    ) {
        Err(e) => Err(e),
        Ok(ws) => if lookup(ps, Key::Layer(branch, index, Field::BiasData).text()) is Some {
            match tensor_from(
                ps,
                Key::Layer(branch, index, Field::BiasShape),
                Key::Layer(branch, index, Field::BiasData),
            ) {
                Err(e) => Err(e),
                Ok(bs) => Ok(LinearModel { ws, bs: Some(bs) }),
            }
        } else {
            Ok(LinearModel { ws, bs: None })
        },
    }
}

/// The first `n` layers of a branch as the entries hold them, or what is wrong
/// with the first layer that cannot be read.
pub open spec fn stack_from(
    ps: Seq<(Seq<char>, Seq<char>)>,
    branch: Branch,
    n: nat,
) -> Result<Seq<LinearModel>, PersistError>
    decreases n,
{
    if n == 0 {
        Ok(Seq::empty())
    } else {
        match stack_from(ps, branch, (n - 1) as nat) {
            Err(e) => Err(e),
            Ok(layers) => match layer_from(ps, branch, (n - 1) as usize) {
                Err(e) => Err(e),
                Ok(layer) => Ok(layers.push(layer)),
            },
        }
    }
}

/// The number of layers of a branch as the entries hold it.
pub open spec fn count_from(ps: Seq<(Seq<char>, Seq<char>)>, branch: Branch) -> Result<
    usize,
    PersistError,
> {
    match lookup(ps, Key::Count(branch).text()) {
        None => Err(PersistError::Missing(Key::Count(branch))),
        Some(text) => match count_of(text) {
            None => Err(PersistError::Malformed(Key::Count(branch))),
            Some(n) => Ok(n),
        },
    }
}

/// The bound on the actor's output as the entries hold it.
pub open spec fn max_action_from(ps: Seq<(Seq<char>, Seq<char>)>) -> Result<
    Seq<char>,
    PersistError,
> {
    match lookup(ps, Key::MaxAction.text()) {
        None => Err(PersistError::Missing(Key::MaxAction)),
        Some(text) => if json_is_number(text) {
            Ok(text)
        } else {
            Err(PersistError::Malformed(Key::MaxAction))
        },
    }
}

/// The actor that the entries hold, or the first thing wrong with them, in
/// the order: the bound, the number of layers, then layer by layer.
pub open spec fn actor_from(ps: Seq<(Seq<char>, Seq<char>)>) -> Result<ActorModel, PersistError> {
    match max_action_from(ps) {
        Err(e) => Err(e),
        Ok(max_action) => match count_from(ps, Branch::Actor) {
            Err(e) => Err(e),
            Ok(n) => match stack_from(ps, Branch::Actor, n as nat) {
                Err(e) => Err(e),
                Ok(layers) => Ok(ActorModel { max_action, layers }),
            },
        },
    }
}

/// The critic that the entries hold, or the first thing wrong with them, in
/// the order: the two numbers of layers, the first estimator layer by layer,
/// then the second.
pub open spec fn critic_from(ps: Seq<(Seq<char>, Seq<char>)>) -> Result<
    CriticModel,
    PersistError,
> {
    match count_from(ps, Branch::Q1) {
        Err(e) => Err(e),
        Ok(n1) => match count_from(ps, Branch::Q2) {
            Err(e) => Err(e),
            Ok(n2) => match stack_from(ps, Branch::Q1, n1 as nat) {
                Err(e) => Err(e),
                Ok(q1_layers) => match stack_from(ps, Branch::Q2, n2 as nat) {
                    Err(e) => Err(e),
                    Ok(q2_layers) => Ok(CriticModel { q1_layers, q2_layers }),
                },
            },
        },
    }
}

fn read_tensor(entries: &Vec<Entry>, shape_key: Key, data_key: Key) -> (r: Result<
    Tensor,
    PersistError,
>)
    ensures
        match r {
            Ok(t) => tensor_from(pairs(entries@), shape_key, data_key) == Ok::<_, PersistError>(t@),
            Err(e) => tensor_from(pairs(entries@), shape_key, data_key) == Err::<TensorModel, _>(e),
        },
{
    let shape_text = match find(entries, &shape_key.render()) {
        Some(text) => text,
        None => {
            return Err(PersistError::Missing(shape_key));
        },
    };
    let shape = match parse_i64_list(shape_text.as_str()) {
        Ok(shape) => shape,
        Err(_) => {
            return Err(PersistError::Malformed(shape_key));
        },
    };
    let data = match find(entries, &data_key.render()) {
        Some(text) => text,
        None => {
            return Err(PersistError::Missing(data_key));
        },
    };
    let count = match count_numbers(data.as_str()) {
        Ok(count) => count,
        Err(_) => {
            return Err(PersistError::Malformed(data_key));
        },
    };
    proof {
        if is_shape(shape@) {
            lemma_element_count_nonnegative(shape@);
        }
    }
    match checked_element_count(&shape) {
        Some(expected) => {
            if expected != count {
                return Err(PersistError::Corrupt(data_key));
            }
        },
        None => {
            return Err(PersistError::Corrupt(data_key));
        },
    }
    Ok(Tensor { shape, data: data.clone() })
}

fn read_layer(entries: &Vec<Entry>, branch: Branch, index: usize) -> (r: Result<
    LinearParams,
    PersistError,
>)
    ensures
        match r {
            Ok(l) => layer_from(pairs(entries@), branch, index) == Ok::<_, PersistError>(l@),
            Err(e) => layer_from(pairs(entries@), branch, index) == Err::<LinearModel, _>(e),
        },
{
    let ws = match read_tensor(
        entries,
        Key::Layer(branch, index, Field::WeightShape),
        Key::Layer(branch, index, Field::WeightData),
    ) {
        Ok(t) => t,
        Err(e) => {
            return Err(e);
        },
    };
    let bias_key = Key::Layer(branch, index, Field::BiasData);
    let bs = match find(entries, &bias_key.render()) {
        Some(_) => {
            match read_tensor(entries, Key::Layer(branch, index, Field::BiasShape), bias_key) {
                Ok(t) => Some(t),
                Err(e) => {
                    return Err(e);
                },
            }
        },
        None => None,
    };
    Ok(LinearParams { ws, bs })
}

fn read_stack(entries: &Vec<Entry>, branch: Branch, n: usize) -> (r: Result<
    Vec<LinearParams>,
    PersistError,
>)
    ensures
        match r {
            Ok(layers) => stack_from(pairs(entries@), branch, n as nat) == Ok::<_, PersistError>(
                layers_model(layers@),
            ),
            Err(e) => stack_from(pairs(entries@), branch, n as nat) == Err::<Seq<LinearModel>, _>(
                e,
            ),
        },
{
    let mut layers: Vec<LinearParams> = Vec::new();
    let mut i: usize = 0;
    assert(layers_model(layers@) =~= Seq::<LinearModel>::empty());
    while i < n
        invariant
            0 <= i <= n,
            stack_from(pairs(entries@), branch, i as nat) == Ok::<_, PersistError>(
                layers_model(layers@),
            ),
        decreases n - i,
    {
        let ghost before = layers_model(layers@);
        match read_layer(entries, branch, i) {
            Ok(layer) => {
                layers.push(layer);
                assert(layers_model(layers@) =~= before.push(layer@));
            },
            Err(e) => {
                proof {
                    lemma_stack_from_fails(pairs(entries@), branch, (i + 1) as nat, n as nat);
                }
                return Err(e);
            },
        }
        i += 1;
    }
    Ok(layers)
}

/// Once a layer cannot be read, no longer stack can be read either, and the
/// error stays the same.
pub proof fn lemma_stack_from_fails(
    ps: Seq<(Seq<char>, Seq<char>)>,
    branch: Branch,
    m: nat,
    n: nat,
)
    requires
        m <= n,
        stack_from(ps, branch, m) is Err,
    ensures
        stack_from(ps, branch, n) == stack_from(ps, branch, m),
    decreases n - m,
{
    if m < n {
        lemma_stack_from_fails(ps, branch, m, (n - 1) as nat);
    }
}

fn read_count(entries: &Vec<Entry>, branch: Branch) -> (r: Result<usize, PersistError>)
    ensures
        r == count_from(pairs(entries@), branch),
{
    let key = Key::Count(branch);
    match find(entries, &key.render()) {
        None => Err(PersistError::Missing(key)),
        Some(text) => match parse_count(text.as_str()) {
            None => Err(PersistError::Malformed(key)),
            Some(n) => Ok(n),
        },
    }
}

impl ActorParams {
    /// Reads the parameters of an actor from the entries of a saved agent.
    /// Entries with other keys are passed over. Fails on the first key that is
    /// missing or whose value cannot be used, and names it.
    pub fn deserialize(entries: &Vec<Entry>) -> (r: Result<ActorParams, PersistError>)
        ensures
            match r {
                Ok(actor) => actor_from(pairs(entries@)) == Ok::<_, PersistError>(actor@),
                Err(e) => actor_from(pairs(entries@)) == Err::<ActorModel, _>(e),
            },
    {
        let key = Key::MaxAction;
        let max_action = match find(entries, &key.render()) {
            Some(text) => text,
            None => {
                return Err(PersistError::Missing(key));
            },
        };
        if !is_number(max_action.as_str()) {
            return Err(PersistError::Malformed(key));
        }
        let n = match read_count(entries, Branch::Actor) {
            Ok(n) => n,
            Err(e) => {
                return Err(e);
            },
        };
        match read_stack(entries, Branch::Actor, n) {
            Ok(layers) => Ok(ActorParams { max_action: max_action.clone(), layers }),
            Err(e) => Err(e),
        }
    }
}

impl CriticParams {
    /// Reads the parameters of a critic from the entries of a saved agent.
    /// Entries with other keys are passed over. Fails on the first key that is
    /// missing or whose value cannot be used, and names it.
    pub fn deserialize(entries: &Vec<Entry>) -> (r: Result<CriticParams, PersistError>)
        ensures
            match r {
                Ok(critic) => critic_from(pairs(entries@)) == Ok::<_, PersistError>(critic@),
                Err(e) => critic_from(pairs(entries@)) == Err::<CriticModel, _>(e),
            },
    {
        let n1 = match read_count(entries, Branch::Q1) {
            Ok(n) => n,
            Err(e) => {
                return Err(e);
            },
        };
        let n2 = match read_count(entries, Branch::Q2) {
            Ok(n) => n,
            Err(e) => {
                return Err(e);
            },
        };
        let q1_layers = match read_stack(entries, Branch::Q1, n1) {
            Ok(layers) => layers,
            Err(e) => {
                return Err(e);
            },
        };
        match read_stack(entries, Branch::Q2, n2) {
            Ok(q2_layers) => Ok(CriticParams { q1_layers, q2_layers }),
            Err(e) => Err(e),
        }
    }
}

// ---------------------------------------------------------------------------
// Writing
// ---------------------------------------------------------------------------

/// The two entries of a tensor: its shape as a JSON list of integers, then its
/// data.
pub open spec fn tensor_pairs(t: TensorModel, shape_key: Key, data_key: Key) -> Seq<
    (Seq<char>, Seq<char>),
> {
    seq![(shape_key.text(), i64_list_text(t.shape)), (data_key.text(), t.data)]
}

/// The entries of layer `index` of a branch: those of its weights, then those
/// of its bias where it has one.
pub open spec fn layer_pairs(branch: Branch, index: usize, l: LinearModel) -> Seq<
    (Seq<char>, Seq<char>),
> {
    tensor_pairs(
        l.ws,
        Key::Layer(branch, index, Field::WeightShape),
        Key::Layer(branch, index, Field::WeightData),
    ) + match l.bs {
        Some(bs) => tensor_pairs(
            bs,
            Key::Layer(branch, index, Field::BiasShape),
            Key::Layer(branch, index, Field::BiasData),
        ),
        None => Seq::empty(),
    }
}

/// The entries of the first `n` layers of a branch, layer by layer.
pub open spec fn stack_pairs(branch: Branch, layers: Seq<LinearModel>, n: nat) -> Seq<
    (Seq<char>, Seq<char>),
>
    decreases n,
{
    if n == 0 {
        Seq::empty()
    } else {
        stack_pairs(branch, layers, (n - 1) as nat) + layer_pairs(
            branch,
            (n - 1) as usize,
            layers[n - 1],
        )
    }
}

/// The entries of an actor: the bound on its output, the number of its layers
/// as a decimal numeral, then its layers.
pub open spec fn actor_pairs(m: ActorModel) -> Seq<(Seq<char>, Seq<char>)> {
    seq![
        (Key::MaxAction.text(), m.max_action),
        (Key::Count(Branch::Actor).text(), decimal(m.layers.len())),
    ] + stack_pairs(Branch::Actor, m.layers, m.layers.len())
}

/// The entries of a critic: the numbers of layers of its two estimators as
/// decimal numerals, then the layers of the first and those of the second.
pub open spec fn critic_pairs(m: CriticModel) -> Seq<(Seq<char>, Seq<char>)> {
    seq![
        (Key::Count(Branch::Q1).text(), decimal(m.q1_layers.len())),
        (Key::Count(Branch::Q2).text(), decimal(m.q2_layers.len())),
    ] + stack_pairs(Branch::Q1, m.q1_layers, m.q1_layers.len()) + stack_pairs(
        Branch::Q2,
        m.q2_layers,
        m.q2_layers.len(),
    )
}

/// What keeps a tensor from being saved, if anything: the text of its shape
/// does not read back as the shape, its data is no list of numbers, or the
/// data does not hold as many numbers as the shape calls for.
pub open spec fn tensor_fault(t: TensorModel, shape_key: Key, data_key: Key) -> Option<
    PersistError,
> {
    if json_i64_list(i64_list_text(t.shape)) != Some(t.shape) {
        Some(PersistError::Malformed(shape_key))
    } else {
        match json_number_count(t.data) {
            None => Some(PersistError::Malformed(data_key)),
            Some(count) => if fills(t.shape, count) {
                None
            } else {
                Some(PersistError::Corrupt(data_key))
            },
        }
    }
}

/// What keeps a layer from being saved: what is wrong with its weights, or
/// else with its bias.
pub open spec fn layer_fault(branch: Branch, index: usize, l: LinearModel) -> Option<
    PersistError,
> {
    match tensor_fault(
        l.ws,
        Key::Layer(branch, index, Field::WeightShape),
        Key::Layer(branch, index, Field::WeightData),
    ) {
        Some(e) => Some(e),
        None => match l.bs {
            Some(bs) => tensor_fault(
                bs,
                Key::Layer(branch, index, Field::BiasShape),
                Key::Layer(branch, index, Field::BiasData),
            ),
            None => None,
        },
    }
}

/// What is wrong with the first of the first `n` layers that cannot be saved.
pub open spec fn stack_fault(branch: Branch, layers: Seq<LinearModel>, n: nat) -> Option<
    PersistError,
>
    decreases n,
{
    if n == 0 {
        None
    } else {
        match stack_fault(branch, layers, (n - 1) as nat) {
            Some(e) => Some(e),
            None => layer_fault(branch, (n - 1) as usize, layers[n - 1]),
        }
    }
}

/// What keeps an actor from being saved: its bound is no JSON number, or one
/// of its layers cannot be saved.
pub open spec fn actor_fault(m: ActorModel) -> Option<PersistError> {
    if !json_is_number(m.max_action) {
        Some(PersistError::Malformed(Key::MaxAction))
    } else {
        stack_fault(Branch::Actor, m.layers, m.layers.len())
    }
}

/// What keeps a critic from being saved: a layer of its first estimator, or
/// else of its second, cannot be saved.
pub open spec fn critic_fault(m: CriticModel) -> Option<PersistError> {
    match stack_fault(Branch::Q1, m.q1_layers, m.q1_layers.len()) {
        Some(e) => Some(e),
        None => stack_fault(Branch::Q2, m.q2_layers, m.q2_layers.len()),
    }
}

fn put(out: &mut Vec<Entry>, key: Key, value: String)
    ensures
        pairs(final(out)@) == pairs(old(out)@).push((key.text(), value@)),
{
    out.push(Entry { key: key.render(), value });
    assert(pairs(out@) =~= pairs(old(out)@).push((key.text(), value@)));
}

fn write_tensor(out: &mut Vec<Entry>, t: &Tensor, shape_key: Key, data_key: Key) -> (r: Result<
    (),
    PersistError,
>)
    ensures
        match tensor_fault(t@, shape_key, data_key) {
            Some(e) => r == Err::<(), _>(e),
            None => r is Ok && pairs(final(out)@) == pairs(old(out)@) + tensor_pairs(
                t@,
                shape_key,
                data_key,
            ),
        },
{
    let shape_text = match render_i64_list(&t.shape) {
        Ok(text) => text,
        Err(_) => {
            return Err(PersistError::Malformed(shape_key));
        },
    };
    match parse_i64_list(shape_text.as_str()) {
        Ok(shape) => {
            if !same_shape(&shape, &t.shape) {
                return Err(PersistError::Malformed(shape_key));
            }
        },
        Err(_) => {
            return Err(PersistError::Malformed(shape_key));
        },
    }
    let count = match count_numbers(t.data.as_str()) {
        Ok(count) => count,
        Err(_) => {
            return Err(PersistError::Malformed(data_key));
        },
    };
    proof {
        if is_shape(t.shape@) {
            lemma_element_count_nonnegative(t.shape@);
        }
    }
    match checked_element_count(&t.shape) {
        Some(expected) => {
            if expected != count {
                return Err(PersistError::Corrupt(data_key));
            }
        },
        None => {
            return Err(PersistError::Corrupt(data_key));
        },
    }
    put(out, shape_key, shape_text);
    put(out, data_key, t.data.clone());
    assert(pairs(out@) =~= pairs(old(out)@) + tensor_pairs(t@, shape_key, data_key));
    Ok(())
}

fn write_layer(out: &mut Vec<Entry>, branch: Branch, index: usize, l: &LinearParams) -> (r:
    Result<(), PersistError>)
    ensures
        match layer_fault(branch, index, l@) {
            Some(e) => r == Err::<(), _>(e),
            None => r is Ok && pairs(final(out)@) == pairs(old(out)@) + layer_pairs(
                branch,
                index,
                l@,
            ),
        },
{
    match write_tensor(
        out,
        &l.ws,
        Key::Layer(branch, index, Field::WeightShape),
        Key::Layer(branch, index, Field::WeightData),
    ) {
        Ok(()) => {},
        Err(e) => {
            return Err(e);
        },
    }
    match &l.bs {
        Some(bs) => {
            match write_tensor(
                out,
                bs,
                Key::Layer(branch, index, Field::BiasShape),
                Key::Layer(branch, index, Field::BiasData),
            ) {
                Ok(()) => {},
                Err(e) => {
                    return Err(e);
                },
            }
        },
        None => {},
    }
    assert(pairs(out@) =~= pairs(old(out)@) + layer_pairs(branch, index, l@));
    Ok(())
}

fn write_stack(out: &mut Vec<Entry>, branch: Branch, layers: &Vec<LinearParams>) -> (r: Result<
    (),
    PersistError,
>)
    ensures
        match stack_fault(branch, layers_model(layers@), layers@.len()) {
            Some(e) => r == Err::<(), _>(e),
            None => r is Ok && pairs(final(out)@) == pairs(old(out)@) + stack_pairs(
                branch,
                layers_model(layers@),
                layers@.len(),
            ),
        },
{
    let n: usize = layers.len();
    let ghost model = layers_model(layers@);
    let mut i: usize = 0;
    assert(pairs(out@) =~= pairs(old(out)@) + stack_pairs(branch, model, 0));
    while i < n
        invariant
            0 <= i <= n,
            n == layers@.len(),
            model == layers_model(layers@),
            stack_fault(branch, model, i as nat) is None,
            pairs(out@) == pairs(old(out)@) + stack_pairs(branch, model, i as nat),
        decreases n - i,
    {
        assert(model[i as int] == layers@[i as int]@);
        match write_layer(out, branch, i, &layers[i]) {
            Ok(()) => {},
            Err(e) => {
                proof {
                    lemma_stack_fault_stays(branch, model, (i + 1) as nat, n as nat);
                }
                return Err(e);
            },
        }
        assert(pairs(out@) =~= pairs(old(out)@) + stack_pairs(branch, model, (i + 1) as nat));
        i += 1;
    }
    Ok(())
}

/// Once a layer cannot be saved, no longer stack can be saved either, and the
/// error stays the same.
pub proof fn lemma_stack_fault_stays(branch: Branch, layers: Seq<LinearModel>, m: nat, n: nat)
    requires
        m <= n,
        stack_fault(branch, layers, m) is Some,
    ensures
        stack_fault(branch, layers, n) == stack_fault(branch, layers, m),
    decreases n - m,
{
    if m < n {
        lemma_stack_fault_stays(branch, layers, m, (n - 1) as nat);
    }
}

impl ActorParams {
    /// The entries of this actor, in the order of the layout. Fails, and names
    /// the key, where a value of the actor could not be read back from what
    /// would be written. The entries that are given are read back as this
    /// actor.
    pub fn serialize(&self) -> (r: Result<Vec<Entry>, PersistError>)
        ensures
            match actor_fault(self@) {
                Some(e) => r == Err::<Vec<Entry>, _>(e),
                None => r matches Ok(entries) && pairs(entries@) == actor_pairs(self@),
            },
            r matches Ok(entries) ==> actor_from(pairs(entries@)) == Ok::<_, PersistError>(self@),
    {
        let layers: usize = self.layers.len();
        proof {
            if actor_fault(self@) is None {
                assert(self@.layers.len() == layers);
                lemma_actor_round_trip(self@, Seq::empty());
                assert(actor_pairs(self@) + Seq::empty() =~= actor_pairs(self@));
            }
        }
        if !is_number(self.max_action.as_str()) {
            return Err(PersistError::Malformed(Key::MaxAction));
        }
        let mut out: Vec<Entry> = Vec::new();
        put(&mut out, Key::MaxAction, self.max_action.clone());
        put(&mut out, Key::Count(Branch::Actor), render_decimal(layers));
        let ghost head = pairs(out@);
        assert(head =~= seq![
            (Key::MaxAction.text(), self@.max_action),
            (Key::Count(Branch::Actor).text(), decimal(self@.layers.len())),
        ]);
        match write_stack(&mut out, Branch::Actor, &self.layers) {
            Ok(()) => Ok(out),
            Err(e) => Err(e),
        }
    }
}

impl CriticParams {
    /// The entries of this critic, in the order of the layout. Fails, and
    /// names the key, where a value of the critic could not be read back from
    /// what would be written. The entries that are given are read back as this
    /// critic.
    pub fn serialize(&self) -> (r: Result<Vec<Entry>, PersistError>)
        ensures
            match critic_fault(self@) {
                Some(e) => r == Err::<Vec<Entry>, _>(e),
                None => r matches Ok(entries) && pairs(entries@) == critic_pairs(self@),
            },
            r matches Ok(entries) ==> critic_from(pairs(entries@)) == Ok::<_, PersistError>(self@),
    {
        let q1_layers: usize = self.q1_layers.len();
        let q2_layers: usize = self.q2_layers.len();
        proof {
            if critic_fault(self@) is None {
                assert(self@.q1_layers.len() == q1_layers);
                assert(self@.q2_layers.len() == q2_layers);
                lemma_critic_round_trip(Seq::empty(), self@);
                assert(Seq::empty() + critic_pairs(self@) =~= critic_pairs(self@));
            }
        }
        let mut out: Vec<Entry> = Vec::new();
        put(&mut out, Key::Count(Branch::Q1), render_decimal(q1_layers));
        put(&mut out, Key::Count(Branch::Q2), render_decimal(q2_layers));
        let ghost head = pairs(out@);
        assert(head =~= seq![
            (Key::Count(Branch::Q1).text(), decimal(self@.q1_layers.len())),
            (Key::Count(Branch::Q2).text(), decimal(self@.q2_layers.len())),
        ]);
        match write_stack(&mut out, Branch::Q1, &self.q1_layers) {
            Ok(()) => {},
            Err(e) => {
                return Err(e);
            },
        }
        match write_stack(&mut out, Branch::Q2, &self.q2_layers) {
            Ok(()) => Ok(out),
            Err(e) => Err(e),
        }
    }
}

} // verus!
