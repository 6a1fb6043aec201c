//! The keys of a saved agent.
//!
//! A saved agent is a flat list of entries, each a key and a value, both text.
//! This module names every key the layout knows and gives its text. No two
//! keys share a text, so a key can be looked up by its text alone.

use crate::digits::{
    all_digits, decimal, is_digit, lemma_decimal, lemma_decimal_injective, render_decimal,
};
use vstd::prelude::*;
use vstd::string::*;

verus! {

/// One of the three stacks of layers of an agent: the actor's, and the two
/// value estimators of the critic.
#[derive(Clone, Copy, Debug, PartialEq, Eq, Structural)]
pub enum Branch {
    Actor,
    Q1,
    Q2,
}

/// One of the four values saved for a layer.
#[derive(Clone, Copy, Debug, PartialEq, Eq, Structural)]
pub enum Field {
    WeightShape,
    WeightData,
    BiasShape,
    BiasData,
}

/// A key of the layout.
#[derive(Clone, Copy, Debug, PartialEq, Eq, Structural)]
pub enum Key {
    /// The bound on the actor's output.
    MaxAction,
    /// The number of layers of a branch.
    Count(Branch),
    /// A value of one layer of a branch, layers counted from zero.
    Layer(Branch, usize, Field),
}

/// The text before the index in the key of a layer.
pub open spec fn branch_prefix(branch: Branch) -> Seq<char> {
    match branch {
        Branch::Actor => "layer_"@,
        Branch::Q1 => "q1_layer_"@,
        Branch::Q2 => "q2_layer_"@,
    }
}

/// The text after the index in the key of a layer.
pub open spec fn field_suffix(field: Field) -> Seq<char> {
    match field {
        Field::WeightShape => "_tensor_weight_shape"@,
        Field::WeightData => "_tensor_weight_data"@,
        Field::BiasShape => "_tensor_bias_shape"@,
        Field::BiasData => "_tensor_bias_data"@,
    }
}

/// The key under which the number of layers of a branch is saved.
pub open spec fn count_text(branch: Branch) -> Seq<char> {
    match branch {
        Branch::Actor => "num_layers"@,
        Branch::Q1 => "num_q1_layers"@,
        Branch::Q2 => "num_q2_layers"@,
    }
}

impl Key {
    /// The text of the key, as it stands in a saved agent.
    pub open spec fn text(self) -> Seq<char> {
        match self {
            Key::MaxAction => "max_action"@,
            Key::Count(branch) => count_text(branch),
            Key::Layer(branch, index, field) => branch_prefix(branch) + decimal(index as nat)
                + field_suffix(field),
        }
    }

    /// The text of the key.
    pub fn render(&self) -> (r: String)
        ensures
            r@ == self.text(),
    {
        match *self {
            Key::MaxAction => String::from_str("max_action"),
            Key::Count(branch) => match branch {
                Branch::Actor => String::from_str("num_layers"),
                Branch::Q1 => String::from_str("num_q1_layers"),
                Branch::Q2 => String::from_str("num_q2_layers"),
            },
            Key::Layer(branch, index, field) => {
                let mut r = match branch {
                    Branch::Actor => String::from_str("layer_"),
                    Branch::Q1 => String::from_str("q1_layer_"),
                    Branch::Q2 => String::from_str("q2_layer_"),
                };
                let digits = render_decimal(index);
                r.append(digits.as_str());
                match field {
                    Field::WeightShape => r.append("_tensor_weight_shape"),
                    Field::WeightData => r.append("_tensor_weight_data"),
                    Field::BiasShape => r.append("_tensor_bias_shape"),
                    Field::BiasData => r.append("_tensor_bias_data"),
                }
                r
            },
        }
    }
}

proof fn lemma_literals()
    ensures
        "max_action"@.len() == 10 && "max_action"@[0] == 'm',
        "num_layers"@.len() == 10 && "num_layers"@[0] == 'n',
        "num_q1_layers"@.len() == 13 && "num_q1_layers"@[0] == 'n' && "num_q1_layers"@[5] == '1',
        "num_q2_layers"@.len() == 13 && "num_q2_layers"@[0] == 'n' && "num_q2_layers"@[5] == '2',
        "layer_"@.len() == 6 && "layer_"@[0] == 'l',
        "q1_layer_"@.len() == 9 && "q1_layer_"@[0] == 'q' && "q1_layer_"@[1] == '1',
        "q2_layer_"@.len() == 9 && "q2_layer_"@[0] == 'q' && "q2_layer_"@[1] == '2',
        "_tensor_weight_shape"@.len() == 20 && "_tensor_weight_shape"@[0] == '_',
        "_tensor_weight_data"@.len() == 19 && "_tensor_weight_data"@[0] == '_',
        "_tensor_bias_shape"@.len() == 18 && "_tensor_bias_shape"@[0] == '_',
        "_tensor_bias_data"@.len() == 17 && "_tensor_bias_data"@[0] == '_',
{
    reveal_strlit("max_action");
    reveal_strlit("num_layers");
    reveal_strlit("num_q1_layers");
    reveal_strlit("num_q2_layers");
    reveal_strlit("layer_");
    reveal_strlit("q1_layer_");
    reveal_strlit("q2_layer_");
    reveal_strlit("_tensor_weight_shape");
    reveal_strlit("_tensor_weight_data");
    reveal_strlit("_tensor_bias_shape");
    reveal_strlit("_tensor_bias_data");
}

/// A numeral followed by text that starts with an underscore can be split in
/// one way only.
proof fn lemma_split(d1: Seq<char>, s1: Seq<char>, d2: Seq<char>, s2: Seq<char>)
    requires
        all_digits(d1),
        all_digits(d2),
        s1.len() > 0 && s1[0] == '_',
        s2.len() > 0 && s2[0] == '_',
        d1 + s1 == d2 + s2,
    ensures
        d1 == d2,
        s1 == s2,
{
    let t1 = d1 + s1;
    let t2 = d2 + s2;
    if d1.len() < d2.len() {
        assert(t1[d1.len() as int] == '_');
        assert(is_digit(d2[d1.len() as int]));
        assert(t2[d1.len() as int] == d2[d1.len() as int]);
        assert(false);
    }
    if d2.len() < d1.len() {
        assert(t2[d2.len() as int] == '_');
        assert(is_digit(d1[d2.len() as int]));
        assert(t1[d2.len() as int] == d1[d2.len() as int]);
        assert(false);
    }
    assert(d1 =~= t1.subrange(0, d1.len() as int));
    assert(d2 =~= t2.subrange(0, d1.len() as int));
    assert(s1 =~= t1.subrange(d1.len() as int, t1.len() as int));
    assert(s2 =~= t2.subrange(d1.len() as int, t2.len() as int));
}

/// The first characters of the key of a layer, by its branch.
proof fn lemma_layer_text(branch: Branch, index: usize, field: Field)
    ensures
        ({
            let t = Key::Layer(branch, index, field).text();
            &&& t.len() >= 2
            &&& branch == Branch::Actor ==> t[0] == 'l'
            &&& branch == Branch::Q1 ==> t[0] == 'q' && t[1] == '1'
            &&& branch == Branch::Q2 ==> t[0] == 'q' && t[1] == '2'
        }),
{
    lemma_literals();
    lemma_decimal(index as nat);
    let p = branch_prefix(branch);
    let t = Key::Layer(branch, index, field).text();
    assert(t[0] == p[0]);
    assert(t[1] == p[1]);
}

/// No two keys share a text.
pub proof fn lemma_text_injective(a: Key, b: Key)
    requires
        a.text() == b.text(),
    ensures
        a == b,
{
    lemma_literals();
    match (a, b) {
        (Key::Layer(ba, ia, fa), Key::Layer(bb, ib, fb)) => {
            lemma_layer_text(ba, ia, fa);
            lemma_layer_text(bb, ib, fb);
            assert(ba == bb);
            let p = branch_prefix(ba);
            let ta = decimal(ia as nat) + field_suffix(fa);
            let tb = decimal(ib as nat) + field_suffix(fb);
            assert(a.text() =~= p + ta);
            assert(b.text() =~= p + tb);
            assert(ta =~= (p + ta).subrange(p.len() as int, (p + ta).len() as int));
            assert(tb =~= (p + tb).subrange(p.len() as int, (p + tb).len() as int));
            lemma_decimal(ia as nat);
            lemma_decimal(ib as nat);
            lemma_split(
                decimal(ia as nat),
                field_suffix(fa),
                decimal(ib as nat),
                field_suffix(fb),
            );
            lemma_decimal_injective(ia as nat, ib as nat);
            assert(fa == fb);
        },
        (Key::Layer(ba, ia, fa), _) => {
            lemma_layer_text(ba, ia, fa);
        },
        (_, Key::Layer(bb, ib, fb)) => {
            lemma_layer_text(bb, ib, fb);
        },
        _ => {},
    }
}

} // verus!
