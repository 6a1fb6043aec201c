//! The flat list of entries that a saved agent is made of.

use vstd::prelude::*;

verus! {

/// One entry of a saved agent: a key and the value under it, both text.
#[derive(Clone, Debug, PartialEq, Eq)]
pub struct Entry {
    pub key: String,
    pub value: String,
}

/// The entries as pairs of key and value.
pub open spec fn pairs(entries: Seq<Entry>) -> Seq<(Seq<char>, Seq<char>)> {
    entries.map_values(|e: Entry| (e.key@, e.value@))
}

/// The value of the first entry with the given key.
pub open spec fn lookup(pairs: Seq<(Seq<char>, Seq<char>)>, key: Seq<char>) -> Option<Seq<char>>
    decreases pairs.len(),
{
    if pairs.len() == 0 {
        None
    } else if pairs[0].0 == key {
        Some(pairs[0].1)
    } else {
        lookup(pairs.drop_first(), key)
    }
}

/// Looking a key up in two lists, one after the other, finds what the first
/// list has under it, and else what the second has.
pub proof fn lemma_lookup_concat(
    a: Seq<(Seq<char>, Seq<char>)>,
    b: Seq<(Seq<char>, Seq<char>)>,
    key: Seq<char>,
)
    ensures
        lookup(a + b, key) == match lookup(a, key) {
            Some(v) => Some(v),
            None => lookup(b, key),
        },
    decreases a.len(),
{
    if a.len() == 0 {
        assert(a + b =~= b);
    } else {
        assert((a + b)[0] == a[0]);
        assert((a + b).drop_first() =~= a.drop_first() + b);
        lemma_lookup_concat(a.drop_first(), b, key);
    }
}

/// The value of the first entry with the given key, if there is one.
pub fn find<'a>(entries: &'a Vec<Entry>, key: &String) -> (r: Option<&'a String>)
    ensures
        match r {
            Some(value) => lookup(pairs(entries@), key@) == Some(value@),
            None => lookup(pairs(entries@), key@) is None,
        },
{
    let n: usize = entries.len();
    let mut i: usize = 0;
    assert(pairs(entries@).skip(0) =~= pairs(entries@));
    while i < n
        invariant
            0 <= i <= n,
            n == entries@.len(),
            lookup(pairs(entries@), key@) == lookup(pairs(entries@).skip(i as int), key@),
        decreases n - i,
    {
        let ghost rest = pairs(entries@).skip(i as int);
        assert(rest[0] == (entries@[i as int].key@, entries@[i as int].value@));
        assert(rest.drop_first() =~= pairs(entries@).skip(i + 1));
        if entries[i].key == *key {
            return Some(&entries[i].value);
        }
        i += 1;
    }
    None
}

} // verus!
