//! JSON documents, through `serde_json`.
//!
//! A document is an opaque `serde_json::Value`. The trainer reads numbers and lists of numbers out
//! of its members, writes such members and turns the document back into text; the names below
//! speak of just that, and of the text of every member, whatever it holds.
use crate::numerals::{decimal, is_digit};
use crate::text::join;
use serde_json::Value;
use vstd::prelude::*;

verus! {

#[verifier::external_type_specification]
#[verifier::external_body]
pub struct ExValue(serde_json::Value);

#[verifier::external_type_specification]
#[verifier::external_body]
pub struct ExJsonError(serde_json::Error);

/// The members of a JSON object, each with what `Value::as_u64` gives of it; where it is an array,
/// what `Value::as_u64` gives of each element; and the text that `Value`'s `Display` gives of it. A
/// document that is no object has no members.
pub uninterp spec fn json_fields(v: serde_json::Value) -> Map<
    Seq<char>,
    (Option<u64>, Option<Seq<Option<u64>>>, Seq<char>),
>;

/// How deeply arrays and objects are nested in a document; a scalar has depth 0.
pub uninterp spec fn json_depth(v: serde_json::Value) -> nat;

/// The members of the document that `serde_json::from_str` reads out of a text; none where the text
/// is refused.
pub uninterp spec fn json_text(text: Seq<char>) -> Option<
    Map<Seq<char>, (Option<u64>, Option<Seq<Option<u64>>>, Seq<char>)>,
>;

/// The text that `serde_json::to_string_pretty` writes of a document that has these members.
pub uninterp spec fn json_pretty(
    members: Map<Seq<char>, (Option<u64>, Option<Seq<Option<u64>>>, Seq<char>)>,
) -> Seq<char>;

/// The members of a document: of each, the number that it is, the list of numbers that it is, and its
/// text.
pub type Members = Map<Seq<char>, (Option<u64>, Option<Seq<Option<u64>>>, Seq<char>)>;

/// The text of a list of numbers.
pub open spec fn list_text(items: Seq<u64>) -> Seq<char> {
    "["@ + join(items.map_values(|n: u64| decimal(n as nat)), ","@) + "]"@
}

/// The text of a value holds a number that is a fraction: outside quotes stands a point, or an `e`
/// behind a digit. `quoted` says whether the text begins within quotes.
pub open spec fn holds_fraction(text: Seq<char>, quoted: bool) -> bool
    decreases text.len(),
{
    if text.len() == 0 {
        false
    } else if quoted {
        if text[0] == '\\' && text.len() > 1 {
            holds_fraction(text.skip(2), true)
        } else {
            holds_fraction(text.skip(1), text[0] != '"')
        }
    } else {
        text[0] == '.' || (is_digit(text[0]) && text.len() > 1 && text[1] == 'e') || holds_fraction(
            text.skip(1),
            text[0] == '"',
        )
    }
}

/// What is read has the members `m`: the same keys, the same numbers and lists of numbers, and the same
/// texts. Only the text of a member that holds a fraction may differ: a fraction that was written
/// exactly can be read as a neighbour of it.
pub open spec fn reads_as(read: Option<Members>, m: Members) -> bool {
    &&& read is Some
    &&& read->0.dom() == m.dom()
    &&& forall|k: Seq<char>| #[trigger]
        m.contains_key(k) ==> read->0[k].0 == m[k].0 && read->0[k].1 == m[k].1 && (holds_fraction(
            m[k].2,
            false,
        ) || read->0[k].2 == m[k].2)
}

/// The number at `key`.
pub open spec fn number_at(m: Members, key: Seq<char>) -> Option<u64> {
    if m.contains_key(key) {
        m[key].0
    } else {
        None
    }
}

/// The elements of the list at `key`, each as a number where it is one.
pub open spec fn list_at(m: Members, key: Seq<char>) -> Option<Seq<Option<u64>>> {
    if m.contains_key(key) {
        m[key].1
    } else {
        None
    }
}

/// The elements of the list at `key`; none where there is no list.
pub open spec fn list_or_empty(m: Members, key: Seq<char>) -> Seq<Option<u64>> {
    match list_at(m, key) {
        Some(items) => items,
        None => Seq::empty(),
    }
}

/// The deepest nesting that `serde_json::from_str` reads.
pub open spec fn max_depth() -> nat {
    127
}

/// `serde_json::from_str::<Value>`: which texts are refused and which members the others hold is
/// named `json_text`. The reader refuses what is nested more deeply than 127 levels.
#[verifier::external_body]
pub(crate) fn read_json(text: &str) -> (r: Result<Value, serde_json::Error>)
    ensures
        r is Ok <==> json_text(text@) is Some,
        r matches Ok(v) ==> json_text(text@) == Some(json_fields(v)) && json_depth(v) <= max_depth(),
{
    serde_json::from_str(text)
}

/// `Value`'s index by a key and `Value::as_u64`: the member `key` as an unsigned integer, or nothing
/// where there is no such member or it is anything else.
#[verifier::external_body]
pub(crate) fn json_number(v: &Value, key: &str) -> (r: Option<u64>)
    ensures
        r == number_at(json_fields(*v), key@),
{
    v[key].as_u64()
}

/// `Value`'s index by a key and `Value::as_array`: how many elements the array at `key` has, or
/// nothing where there is no array.
#[verifier::external_body]
pub(crate) fn json_list_len(v: &Value, key: &str) -> (r: Option<usize>)
    ensures
        r is Some <==> list_at(json_fields(*v), key@) is Some,
        r matches Some(n) ==> n == list_or_empty(json_fields(*v), key@).len(),
{
    match v[key].as_array() {
        Some(items) => Some(items.len()),
        None => None,
    }
}

/// `Value`'s index by a key and by a position, and `Value::as_u64`: the element `i` of the array at
/// `key` as an unsigned integer, or nothing where it is anything else.
#[verifier::external_body]
pub(crate) fn json_list_item(v: &Value, key: &str, i: usize) -> (r: Option<u64>)
    requires
        i < list_or_empty(json_fields(*v), key@).len(),
    ensures
        r == list_or_empty(json_fields(*v), key@)[i as int],
{
    v[key][i].as_u64()
}

/// `Value`'s mutable index by a key, with `Value::from(u64)`: the member `key` becomes the number
/// `n`, the others stay. Indexing panics on a document that is neither an object nor null, so the
/// document must be an object that has a member.
#[verifier::external_body]
pub(crate) fn json_set_number(v: &mut Value, key: &str, n: u64)
    requires
        exists|k: Seq<char>| json_fields(*old(v)).contains_key(k),
    ensures
        json_fields(*final(v)) == json_fields(*old(v)).insert(
            key@,
            (Some(n), None, decimal(n as nat)),
        ),
        json_depth(*final(v)) <= json_depth(*old(v)),
{
    v[key] = Value::from(n);
}

/// `Value`'s mutable index by a key, with `Value::from(Vec<u64>)`: the member `key` becomes the list
/// of the numbers `items`, the others stay. Indexing panics on a document that is neither an object
/// nor null, so the document must be an object that has a member.
#[verifier::external_body]
pub(crate) fn json_set_list(v: &mut Value, key: &str, items: Vec<u64>)
    requires
        exists|k: Seq<char>| json_fields(*old(v)).contains_key(k),
    ensures
        json_fields(*final(v)) == json_fields(*old(v)).insert(
            key@,
            (None, Some(items@.map_values(|n: u64| Some(n))), list_text(items@)),
        ),
        json_depth(*final(v)) <= json_depth(*old(v)) || json_depth(*final(v)) <= 2,
{
    v[key] = Value::from(items);
}

/// `serde_json::to_string_pretty` of a `Value`: it does not fail, since the document's keys are
/// strings, and reading the text gives the document's members back, but for the last digit of
/// fractions. The text of an object, whose keys are written in their order, depends on its members
/// alone and is named `json_pretty`; nothing is said of the text of other documents. Deeper documents
/// than the reader takes are left out.
#[verifier::external_body]
pub(crate) fn write_json(v: &Value) -> (r: Result<String, serde_json::Error>)
    requires
        json_depth(*v) <= max_depth(),
    ensures
        r is Ok,
        r matches Ok(text) ==> reads_as(json_text(text@), json_fields(*v)),
        r matches Ok(text) ==> ((exists|k: Seq<char>| json_fields(*v).contains_key(k)) ==> text@
            == json_pretty(json_fields(*v))),
{
    serde_json::to_string_pretty(v)
}

} // verus!
