//! The JSON text of the values of a saved agent, read and written by
//! `serde_json`.
//!
//! Nothing in this module is proved: each function makes one call into
//! `serde_json`, and its contract says what is relied on about that call.

use crate::digits::decimal;
use crate::entry::{pairs, Entry};
use vstd::prelude::*;

verus! {

#[verifier::external_type_specification]
#[verifier::external_body]
pub struct ExJsonError(serde_json::Error);

/// What `serde_json::from_str` reads a text as when asked for a list of
/// 64-bit signed integers, and `None` where it reports an error.
pub uninterp spec fn json_i64_list(text: Seq<char>) -> Option<Seq<i64>>;

/// How many numbers `serde_json::from_str` reads a text as when asked for a
/// list of JSON numbers, and `None` where it reports an error.
pub uninterp spec fn json_number_count(text: Seq<char>) -> Option<nat>;

/// Whether `serde_json::from_str` reads a text as one JSON number.
pub uninterp spec fn json_is_number(text: Seq<char>) -> bool;

/// The text that `serde_json::to_string` gives for a map from the given keys
/// to the given values, all strings.
pub uninterp spec fn json_of_object(entries: Seq<(Seq<char>, Seq<char>)>) -> Seq<char>;

/// The keys and values that `serde_json::from_str` reads a text as when asked
/// for an object whose values are strings, in the order of the keys, and `None`
/// where it reports an error.
pub uninterp spec fn json_object(text: Seq<char>) -> Option<Seq<(Seq<char>, Seq<char>)>>;

/// The decimal numeral of an integer, with a minus sign where it is negative.
pub open spec fn signed_decimal(v: int) -> Seq<char> {
    if v < 0 {
        seq!['-'] + decimal((-v) as nat)
    } else {
        decimal(v as nat)
    }
}

/// The numerals of a list of integers with a comma between each two.
pub open spec fn comma_separated(list: Seq<i64>) -> Seq<char>
    decreases list.len(),
{
    if list.len() == 0 {
        Seq::empty()
    } else if list.len() == 1 {
        signed_decimal(list[0] as int)
    } else {
        comma_separated(list.drop_last()) + seq![','] + signed_decimal(list.last() as int)
    }
}

/// The compact JSON text of a list of integers, such as `[256,4]`.
pub open spec fn i64_list_text(list: Seq<i64>) -> Seq<char> {
    seq!['['] + comma_separated(list) + seq![']']
}

/// Calls `serde_json::from_str` for a `Vec<i64>`. The contract only names the
/// outcome: the same text is always read the same way.
#[verifier::external_body]
pub(crate) fn parse_i64_list(text: &str) -> (r: Result<Vec<i64>, serde_json::Error>)
    ensures
        match r {
            Ok(list) => json_i64_list(text@) == Some(list@),
            Err(_) => json_i64_list(text@) is None,
        },
{
    serde_json::from_str::<Vec<i64>>(text)
}

/// Calls `serde_json::to_string` on a list of integers. Relied on: the call
/// succeeds, and the text is the compact form, an opening bracket, the decimal
/// numerals separated by commas, and a closing bracket.
#[verifier::external_body]
pub(crate) fn render_i64_list(list: &Vec<i64>) -> (r: Result<String, serde_json::Error>)
    ensures
        r is Ok,
        r matches Ok(text) ==> text@ == i64_list_text(list@),
{
    serde_json::to_string(list)
}

/// Calls `serde_json::from_str` for a list of `serde_json::Number` and gives
/// the length of the list. The contract only names the outcome.
#[verifier::external_body]
pub(crate) fn count_numbers(text: &str) -> (r: Result<usize, serde_json::Error>)
    ensures
        match r {
            Ok(n) => json_number_count(text@) == Some(n as nat),
            Err(_) => json_number_count(text@) is None,
        },
{
    serde_json::from_str::<Vec<serde_json::Number>>(text).map(|numbers| numbers.len())
}

/// Calls `serde_json::from_str` for one `serde_json::Number` and says whether
/// it succeeded. The contract only names the outcome.
#[verifier::external_body]
pub(crate) fn is_number(text: &str) -> (r: bool)
    ensures
        r == json_is_number(text@),
{
    serde_json::from_str::<serde_json::Number>(text).is_ok()
}

/// Calls `serde_json::to_string` on a map from the keys to the values of the
/// entries, which it writes in the order of the keys. Relied on: the call
/// succeeds, as it does for every map whose keys are strings. The text is only
/// named.
#[verifier::external_body]
pub(crate) fn render_object(entries: &Vec<Entry>) -> (r: Result<String, serde_json::Error>)
    ensures
        r is Ok,
        r matches Ok(text) ==> text@ == json_of_object(pairs(entries@)),
{
    let map: std::collections::BTreeMap<&str, &str> = entries.iter().map(
        |e| (e.key.as_str(), e.value.as_str()),
    ).collect();
    serde_json::to_string(&map)
}

/// Calls `serde_json::from_str` for a map from strings to strings and gives
/// its entries in the order of the keys. The contract only names the outcome.
#[verifier::external_body]
pub(crate) fn parse_object(text: &str) -> (r: Result<Vec<Entry>, serde_json::Error>)
    ensures
        match r {
            Ok(entries) => json_object(text@) == Some(pairs(entries@)),
            Err(_) => json_object(text@) is None,
        },
{
    serde_json::from_str::<std::collections::BTreeMap<String, String>>(text).map(
        |map| map.into_iter().map(|(key, value)| Entry { key, value }).collect(),
    )
}

} // verus!
