//! What is written can be read back: the proof that reading the entries of
//! an actor and a critic gives those same parameters.

use crate::checkpoint::{
    actor_fault, actor_from, actor_pairs, count_from, critic_fault, critic_from, critic_pairs,
    layer_fault, layer_from, layer_pairs, max_action_from, stack_fault, stack_from, stack_pairs,
    tensor_fault, tensor_from, tensor_pairs, ActorModel, CriticModel, LinearModel, PersistError,
    TensorModel,
};
use crate::digits::{decimal, lemma_count_of_decimal};
use crate::entry::{lemma_lookup_concat, lookup};
use crate::json::i64_list_text;
use crate::keys::{lemma_text_injective, Branch, Field, Key};
use vstd::prelude::*;

verus! {

/// Whether a layer has the value that a field names: its weights always, its
/// bias where it has one.
pub open spec fn has_field(l: LinearModel, field: Field) -> bool {
    match field {
        Field::WeightShape | Field::WeightData => true,
        Field::BiasShape | Field::BiasData => l.bs is Some,
    }
}

/// The text saved for a field of a layer.
pub open spec fn field_value(l: LinearModel, field: Field) -> Seq<char> {
    match field {
        Field::WeightShape => i64_list_text(l.ws.shape),
        Field::WeightData => l.ws.data,
        Field::BiasShape => i64_list_text(l.bs->0.shape),
        Field::BiasData => l.bs->0.data,
    }
}

/// What the entries of the first `n` layers of a branch hold under a key.
pub open spec fn stack_lookup(branch: Branch, layers: Seq<LinearModel>, n: nat, key: Key) -> Option<
    Seq<char>,
> {
    match key {
        Key::Layer(b, i, field) => if b == branch && i < n && has_field(layers[i as int], field) {
            Some(field_value(layers[i as int], field))
        } else {
            None
        },
        _ => None,
    }
}

/// An entry is found under a key exactly where the entry's key is that key.
proof fn lemma_lookup_cons(key: Key, value: Seq<char>, rest: Seq<(Seq<char>, Seq<char>)>, k: Key)
    ensures
        lookup(seq![(key.text(), value)] + rest, k.text()) == if key == k {
            Some(value)
        } else {
            lookup(rest, k.text())
        },
{
    let ps = seq![(key.text(), value)] + rest;
    assert(ps[0] == (key.text(), value));
    assert(ps.drop_first() =~= rest);
    if key.text() == k.text() {
        lemma_text_injective(key, k);
    }
}

proof fn lemma_lookup_tensor_pairs(t: TensorModel, shape_key: Key, data_key: Key, k: Key)
    ensures
        lookup(tensor_pairs(t, shape_key, data_key), k.text()) == if shape_key == k {
            Some(i64_list_text(t.shape))
        } else if data_key == k {
            Some(t.data)
        } else {
            None
        },
{
    let tail = seq![(data_key.text(), t.data)];
    assert(tensor_pairs(t, shape_key, data_key) =~= seq![
        (shape_key.text(), i64_list_text(t.shape)),
    ] + tail);
    lemma_lookup_cons(shape_key, i64_list_text(t.shape), tail, k);
    assert(tail =~= seq![(data_key.text(), t.data)] + Seq::empty());
    lemma_lookup_cons(data_key, t.data, Seq::empty(), k);
}

proof fn lemma_lookup_layer_pairs(branch: Branch, index: usize, l: LinearModel, k: Key)
    ensures
        lookup(layer_pairs(branch, index, l), k.text()) == match k {
            Key::Layer(b, i, field) => if b == branch && i == index && has_field(l, field) {
                Some(field_value(l, field))
            } else {
                None
            },
            _ => None,
        },
{
    let ws = tensor_pairs(
        l.ws,
        Key::Layer(branch, index, Field::WeightShape),
        Key::Layer(branch, index, Field::WeightData),
    );
    let bs = match l.bs {
        Some(bs) => tensor_pairs(
            bs,
            Key::Layer(branch, index, Field::BiasShape),
            Key::Layer(branch, index, Field::BiasData),
        ),
        None => Seq::empty(),
    };
    lemma_lookup_concat(ws, bs, k.text());
    lemma_lookup_tensor_pairs(
        l.ws,
        Key::Layer(branch, index, Field::WeightShape),
        Key::Layer(branch, index, Field::WeightData),
        k,
    );
    if l.bs is Some {
        lemma_lookup_tensor_pairs(
            l.bs->0,
            Key::Layer(branch, index, Field::BiasShape),
            Key::Layer(branch, index, Field::BiasData),
            k,
        );
    }
}

/// The entries of a stack hold each value of each of its layers under its key,
/// and nothing under any other key.
pub proof fn lemma_lookup_stack_pairs(branch: Branch, layers: Seq<LinearModel>, n: nat, k: Key)
    requires
        n <= usize::MAX,
    ensures
        lookup(stack_pairs(branch, layers, n), k.text()) == stack_lookup(branch, layers, n, k),
    decreases n,
{
    if n > 0 {
        let m = (n - 1) as nat;
        lemma_lookup_stack_pairs(branch, layers, m, k);
        lemma_lookup_layer_pairs(branch, m as usize, layers[m as int], k);
        lemma_lookup_concat(
            stack_pairs(branch, layers, m),
            layer_pairs(branch, m as usize, layers[m as int]),
            k.text(),
        );
    }
}

/// The entries hold, under the keys of the layers of a branch, what the stack
/// would have written there.
pub open spec fn holds_stack(
    ps: Seq<(Seq<char>, Seq<char>)>,
    branch: Branch,
    layers: Seq<LinearModel>,
) -> bool {
    forall|i: usize, field: Field|
        lookup(ps, #[trigger] Key::Layer(branch, i, field).text()) == stack_lookup(
            branch,
            layers,
            layers.len(),
            Key::Layer(branch, i, field),
        )
}

proof fn lemma_tensor_round_trip(
    ps: Seq<(Seq<char>, Seq<char>)>,
    t: TensorModel,
    shape_key: Key,
    data_key: Key,
)
    requires
        tensor_fault(t, shape_key, data_key) is None,
        lookup(ps, shape_key.text()) == Some(i64_list_text(t.shape)),
        lookup(ps, data_key.text()) == Some(t.data),
    ensures
        tensor_from(ps, shape_key, data_key) == Ok::<_, PersistError>(t),
{
}

proof fn lemma_layer_round_trip(
    ps: Seq<(Seq<char>, Seq<char>)>,
    branch: Branch,
    layers: Seq<LinearModel>,
    index: usize,
)
    requires
        index < layers.len(),
        layer_fault(branch, index, layers[index as int]) is None,
        holds_stack(ps, branch, layers),
    ensures
        layer_from(ps, branch, index) == Ok::<_, PersistError>(
            layers[index as int],
        ),
{
    let l = layers[index as int];
    let ws_shape = Key::Layer(branch, index, Field::WeightShape);
    let ws_data = Key::Layer(branch, index, Field::WeightData);
    let bs_shape = Key::Layer(branch, index, Field::BiasShape);
    let bs_data = Key::Layer(branch, index, Field::BiasData);
    assert(lookup(ps, ws_shape.text()) == stack_lookup(branch, layers, layers.len(), ws_shape));
    assert(lookup(ps, ws_data.text()) == stack_lookup(branch, layers, layers.len(), ws_data));
    assert(lookup(ps, bs_shape.text()) == stack_lookup(branch, layers, layers.len(), bs_shape));
    assert(lookup(ps, bs_data.text()) == stack_lookup(branch, layers, layers.len(), bs_data));
    lemma_tensor_round_trip(ps, l.ws, ws_shape, ws_data);
    if l.bs is Some {
        lemma_tensor_round_trip(ps, l.bs->0, bs_shape, bs_data);
    }
}

/// Where the entries hold what a stack would have written, and every layer of
/// the stack can be saved, reading the stack gives its layers.
pub proof fn lemma_stack_round_trip(
    ps: Seq<(Seq<char>, Seq<char>)>,
    branch: Branch,
    layers: Seq<LinearModel>,
    n: nat,
)
    requires
        n <= layers.len() <= usize::MAX,
        stack_fault(branch, layers, n) is None,
        holds_stack(ps, branch, layers),
    ensures
        stack_from(ps, branch, n) == Ok::<_, PersistError>(
            layers.take(n as int),
        ),
    decreases n,
{
    if n == 0 {
        assert(layers.take(0) =~= Seq::<LinearModel>::empty());
    } else {
        let m = (n - 1) as nat;
        lemma_stack_round_trip(ps, branch, layers, m);
        lemma_layer_round_trip(ps, branch, layers, m as usize);
        assert(layers.take(n as int) =~= layers.take(m as int).push(layers[m as int]));
    }
}

/// Reading the entries of an actor gives the actor back, whatever entries
/// follow them, as long as none of those is under the key of an actor's layer.
pub proof fn lemma_actor_round_trip(a: ActorModel, rest: Seq<(Seq<char>, Seq<char>)>)
    requires
        actor_fault(a) is None,
        a.layers.len() <= usize::MAX,
        forall|i: usize, field: Field|
            lookup(rest, #[trigger] Key::Layer(Branch::Actor, i, field).text()) is None,
    ensures
        actor_from(actor_pairs(a) + rest) == Ok::<_, PersistError>(a),
{
    let n = a.layers.len();
    let stack = stack_pairs(Branch::Actor, a.layers, n);
    let count = (Key::Count(Branch::Actor).text(), decimal(n));
    let ps = actor_pairs(a) + rest;
    let after_bound = seq![count] + (stack + rest);
    assert(ps =~= seq![(Key::MaxAction.text(), a.max_action)] + after_bound);
    assert forall|k: Key| #[trigger]
        lookup(ps, k.text()) == if k == Key::MaxAction {
            Some(a.max_action)
        } else if k == Key::Count(Branch::Actor) {
            Some(decimal(n))
        } else {
            match stack_lookup(Branch::Actor, a.layers, n, k) {
                Some(v) => Some(v),
                None => lookup(rest, k.text()),
            }
        } by {
        lemma_lookup_cons(Key::MaxAction, a.max_action, after_bound, k);
        lemma_lookup_cons(Key::Count(Branch::Actor), decimal(n), stack + rest, k);
        lemma_lookup_concat(stack, rest, k.text());
        lemma_lookup_stack_pairs(Branch::Actor, a.layers, n, k);
    }
    assert(lookup(ps, Key::MaxAction.text()) == Some(a.max_action));
    assert(lookup(ps, Key::Count(Branch::Actor).text()) == Some(decimal(n)));
    lemma_count_of_decimal(n as usize);
    assert(max_action_from(ps) == Ok::<_, PersistError>(a.max_action));
    assert(count_from(ps, Branch::Actor) == Ok::<_, PersistError>(n as usize));
    assert(holds_stack(ps, Branch::Actor, a.layers)) by {
        assert forall|i: usize, field: Field|
            lookup(ps, #[trigger] Key::Layer(Branch::Actor, i, field).text()) == stack_lookup(
                Branch::Actor,
                a.layers,
                n,
                Key::Layer(Branch::Actor, i, field),
            ) by {
            let k = Key::Layer(Branch::Actor, i, field);
            assert(lookup(rest, k.text()) is None);
        }
    }
    lemma_stack_round_trip(ps, Branch::Actor, a.layers, n);
    assert(a.layers.take(n as int) =~= a.layers);
}

/// Reading the entries of a critic gives the critic back, whatever entries
/// stand before them, as long as none of those is under a key of a critic.
pub proof fn lemma_critic_round_trip(before: Seq<(Seq<char>, Seq<char>)>, c: CriticModel)
    requires
        critic_fault(c) is None,
        c.q1_layers.len() <= usize::MAX,
        c.q2_layers.len() <= usize::MAX,
        lookup(before, Key::Count(Branch::Q1).text()) is None,
        lookup(before, Key::Count(Branch::Q2).text()) is None,
        forall|i: usize, field: Field|
            lookup(before, #[trigger] Key::Layer(Branch::Q1, i, field).text()) is None,
        forall|i: usize, field: Field|
            lookup(before, #[trigger] Key::Layer(Branch::Q2, i, field).text()) is None,
    ensures
        critic_from(before + critic_pairs(c)) == Ok::<_, PersistError>(c),
{
    let n1 = c.q1_layers.len();
    let n2 = c.q2_layers.len();
    let s1 = stack_pairs(Branch::Q1, c.q1_layers, n1);
    let s2 = stack_pairs(Branch::Q2, c.q2_layers, n2);
    let ps = before + critic_pairs(c);
    let after_first = seq![(Key::Count(Branch::Q2).text(), decimal(n2))] + (s1 + s2);
    assert(critic_pairs(c) =~= seq![(Key::Count(Branch::Q1).text(), decimal(n1))] + after_first);
    assert forall|k: Key| #[trigger]
        lookup(critic_pairs(c), k.text()) == if k == Key::Count(Branch::Q1) {
            Some(decimal(n1))
        } else if k == Key::Count(Branch::Q2) {
            Some(decimal(n2))
        } else {
            match stack_lookup(Branch::Q1, c.q1_layers, n1, k) {
                Some(v) => Some(v),
                None => stack_lookup(Branch::Q2, c.q2_layers, n2, k),
            }
        } by {
        lemma_lookup_cons(Key::Count(Branch::Q1), decimal(n1), after_first, k);
        lemma_lookup_cons(Key::Count(Branch::Q2), decimal(n2), s1 + s2, k);
        lemma_lookup_concat(s1, s2, k.text());
        lemma_lookup_stack_pairs(Branch::Q1, c.q1_layers, n1, k);
        lemma_lookup_stack_pairs(Branch::Q2, c.q2_layers, n2, k);
    }
    assert forall|k: Key| #[trigger]
        lookup(ps, k.text()) == match lookup(before, k.text()) {
            Some(v) => Some(v),
            None => lookup(critic_pairs(c), k.text()),
        } by {
        lemma_lookup_concat(before, critic_pairs(c), k.text());
    }
    assert(lookup(ps, Key::Count(Branch::Q1).text()) == Some(decimal(n1)));
    assert(lookup(ps, Key::Count(Branch::Q2).text()) == Some(decimal(n2)));
    lemma_count_of_decimal(n1 as usize);
    lemma_count_of_decimal(n2 as usize);
    assert(holds_stack(ps, Branch::Q1, c.q1_layers)) by {
        assert forall|i: usize, field: Field|
            lookup(ps, #[trigger] Key::Layer(Branch::Q1, i, field).text()) == stack_lookup(
                Branch::Q1,
                c.q1_layers,
                n1,
                Key::Layer(Branch::Q1, i, field),
            ) by {
            let k = Key::Layer(Branch::Q1, i, field);
            assert(lookup(before, k.text()) is None);
            assert(lookup(ps, k.text()) == lookup(critic_pairs(c), k.text()));
        }
    }
    assert(holds_stack(ps, Branch::Q2, c.q2_layers)) by {
        assert forall|i: usize, field: Field|
            lookup(ps, #[trigger] Key::Layer(Branch::Q2, i, field).text()) == stack_lookup(
                Branch::Q2,
                c.q2_layers,
                n2,
                Key::Layer(Branch::Q2, i, field),
            ) by {
            let k = Key::Layer(Branch::Q2, i, field);
            assert(lookup(before, k.text()) is None);
            assert(lookup(ps, k.text()) == lookup(critic_pairs(c), k.text()));
        }
    }
    lemma_stack_round_trip(ps, Branch::Q1, c.q1_layers, n1);
    lemma_stack_round_trip(ps, Branch::Q2, c.q2_layers, n2);
    assert(c.q1_layers.take(n1 as int) =~= c.q1_layers);
    assert(c.q2_layers.take(n2 as int) =~= c.q2_layers);
}

/// The entries of an actor hold nothing under the keys of a critic.
proof fn lemma_actor_pairs_foreign(a: ActorModel, k: Key)
    requires
        a.layers.len() <= usize::MAX,
        match k {
            Key::MaxAction => false,
            Key::Count(b) => b != Branch::Actor,
            Key::Layer(b, _, _) => b != Branch::Actor,
        },
    ensures
        lookup(actor_pairs(a), k.text()) is None,
{
    let n = a.layers.len();
    let stack = stack_pairs(Branch::Actor, a.layers, n);
    let after_bound = seq![(Key::Count(Branch::Actor).text(), decimal(n))] + stack;
    assert(actor_pairs(a) =~= seq![(Key::MaxAction.text(), a.max_action)] + after_bound);
    lemma_lookup_cons(Key::MaxAction, a.max_action, after_bound, k);
    lemma_lookup_cons(Key::Count(Branch::Actor), decimal(n), stack, k);
    lemma_lookup_stack_pairs(Branch::Actor, a.layers, n, k);
}

/// The entries of a critic hold nothing under the key of an actor's layer.
proof fn lemma_critic_pairs_foreign(c: CriticModel, i: usize, field: Field)
    requires
        c.q1_layers.len() <= usize::MAX,
        c.q2_layers.len() <= usize::MAX,
    ensures
        lookup(critic_pairs(c), Key::Layer(Branch::Actor, i, field).text()) is None,
{
    let k = Key::Layer(Branch::Actor, i, field);
    let n1 = c.q1_layers.len();
    let n2 = c.q2_layers.len();
    let s1 = stack_pairs(Branch::Q1, c.q1_layers, n1);
    let s2 = stack_pairs(Branch::Q2, c.q2_layers, n2);
    let after_first = seq![(Key::Count(Branch::Q2).text(), decimal(n2))] + (s1 + s2);
    assert(critic_pairs(c) =~= seq![(Key::Count(Branch::Q1).text(), decimal(n1))] + after_first);
    lemma_lookup_cons(Key::Count(Branch::Q1), decimal(n1), after_first, k);
    lemma_lookup_cons(Key::Count(Branch::Q2), decimal(n2), s1 + s2, k);
    lemma_lookup_concat(s1, s2, k.text());
    lemma_lookup_stack_pairs(Branch::Q1, c.q1_layers, n1, k);
    lemma_lookup_stack_pairs(Branch::Q2, c.q2_layers, n2, k);
}

/// Saving and loading give the parameters back. Where an actor and a critic
/// can both be saved, reading the entries of the two, the actor's first, gives
/// that actor and that critic: every layer with its shapes and data, and a
/// layer without a bias again without one.
pub proof fn lemma_round_trip(a: ActorModel, c: CriticModel)
    requires
        actor_fault(a) is None,
        critic_fault(c) is None,
        a.layers.len() <= usize::MAX,
        c.q1_layers.len() <= usize::MAX,
        c.q2_layers.len() <= usize::MAX,
    ensures
        actor_from(actor_pairs(a) + critic_pairs(c)) == Ok::<_, PersistError>(a),
        critic_from(actor_pairs(a) + critic_pairs(c)) == Ok::<_, PersistError>(
            c,
        ),
{
    assert forall|i: usize, field: Field|
        lookup(critic_pairs(c), #[trigger] Key::Layer(Branch::Actor, i, field).text()) is None by {
        lemma_critic_pairs_foreign(c, i, field);
    }
    lemma_actor_round_trip(a, critic_pairs(c));
    lemma_actor_pairs_foreign(a, Key::Count(Branch::Q1));
    lemma_actor_pairs_foreign(a, Key::Count(Branch::Q2));
    assert forall|i: usize, field: Field|
        lookup(actor_pairs(a), #[trigger] Key::Layer(Branch::Q1, i, field).text()) is None by {
        lemma_actor_pairs_foreign(a, Key::Layer(Branch::Q1, i, field));
    }
    assert forall|i: usize, field: Field|
        lookup(actor_pairs(a), #[trigger] Key::Layer(Branch::Q2, i, field).text()) is None by {
        lemma_actor_pairs_foreign(a, Key::Layer(Branch::Q2, i, field));
    }
    lemma_critic_round_trip(actor_pairs(a), c);
}

} // verus!
