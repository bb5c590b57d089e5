//! The JSON reader and writer: text to tree and tree to text by
//! `serde_json`, and the conversion between its trees and those of this
//! library.

use vstd::prelude::*;
use crate::json::{
    items_view, lemma_view_array, lemma_view_object, members_view, Json, JsonMember, JsonModel,
    JsonNumber,
};

verus! {

/// The error type of the JSON reader and writer, carried through as it is.
#[verifier::external_type_specification]
#[verifier::external_body]
pub struct ExJsonError(serde_json::Error);

/// The tree type of the JSON reader and writer.
#[verifier::external_type_specification]
#[verifier::external_body]
pub struct ExJsonValue(serde_json::Value);

/// The tree that a value of the JSON reader holds.
pub uninterp spec fn tree_of(value: serde_json::Value) -> JsonModel;

/// The tree that the JSON reader reads from a text, if it reads one.
pub uninterp spec fn parsed(text: Seq<char>) -> Option<JsonModel>;

/// The tree that the JSON reader reads from bytes, if it reads one.
pub uninterp spec fn parsed_bytes(bytes: Seq<u8>) -> Option<JsonModel>;

/// The compact text that the JSON writer writes for a tree.
pub uninterp spec fn printed(tree: JsonModel) -> Seq<char>;

/// The indented text that the JSON writer writes for a tree.
pub uninterp spec fn printed_pretty(tree: JsonModel) -> Seq<char>;

/// The trees that a run of values of the JSON reader hold, one for one.
pub open spec fn trees_of(values: Seq<serde_json::Value>) -> Seq<JsonModel> {
    Seq::new(values.len(), |i: int| tree_of(values[i]))
}

/// The names and trees that a run of borrowed object members hold, one for
/// one.
pub open spec fn members_of(members: Seq<(&String, &serde_json::Value)>) -> Seq<
    (Seq<char>, JsonModel),
> {
    Seq::new(members.len(), |i: int| (members[i].0@, tree_of(*members[i].1)))
}

/// One level of a value of the JSON reader: what it is, with its parts still
/// in the reader's own type.
pub enum Level<'a> {
    Null,
    Bool(bool),
    Number(JsonNumber),
    String(&'a String),
    Array(&'a Vec<serde_json::Value>),
    Object(Vec<(&'a String, &'a serde_json::Value)>),
}

impl<'a> Level<'a> {
    /// The tree that this level stands for.
    pub open spec fn tree(self) -> JsonModel {
        match self {
            Level::Null => JsonModel::Null,
            Level::Bool(b) => JsonModel::Bool(b),
            Level::Number(n) => n@,
            Level::String(s) => JsonModel::String(s@),
            Level::Array(items) => JsonModel::Array(trees_of(items@)),
            Level::Object(members) => JsonModel::Object(members_of(members@)),
        }
    }
}

/// Takes a value of the JSON reader apart by one level, by matching on
/// `serde_json::Value`: the result stands for the tree that the value holds.
/// An integer comes as `as_u64` or `as_i64` give it, any other number as the
/// text that its `Display` writes; the members of an object come in the order
/// of `Map::iter`.
#[verifier::external_body]
fn level_of<'a>(value: &'a serde_json::Value) -> (r: Level<'a>)
    ensures
        r.tree() == tree_of(*value),
{
    match value {
        serde_json::Value::Null => Level::Null,
        serde_json::Value::Bool(b) => Level::Bool(*b),
        serde_json::Value::Number(n) => Level::Number(
            match (n.as_u64(), n.as_i64()) {
                (Some(u), _) => JsonNumber::PosInt(u),
                (_, Some(i)) => JsonNumber::NegInt(i),
                _ => JsonNumber::Float(n.to_string()),
            },
        ),
        serde_json::Value::String(s) => Level::String(s),
        serde_json::Value::Array(items) => Level::Array(items),
        serde_json::Value::Object(members) => Level::Object(members.iter().collect()),
    }
}

/// Copies a value of the JSON reader into a tree of this library.
pub fn tree_from_value(value: &serde_json::Value) -> (r: Json)
    ensures
        r@ == tree_of(*value),
    decreases tree_of(*value),
{
    match level_of(value) {
        Level::Null => Json::Null,
        Level::Bool(b) => Json::Bool(b),
        Level::Number(n) => Json::Number(n),
        Level::String(s) => Json::String(s.clone()),
        Level::Array(items) => {
            let ghost whole = tree_of(*value);
            let mut out: Vec<Json> = Vec::with_capacity(items.len());
            let mut i: usize = 0;
            while i < items.len()
                invariant
                    i <= items@.len(),
                    out@.len() == i,
                    whole == JsonModel::Array(trees_of(items@)),
                    whole == tree_of(*value),
                    forall|j: int| 0 <= j < i ==> (#[trigger] out@[j])@ == tree_of(items@[j]),
                decreases items@.len() - i,
            {
                proof {
                    assert(trees_of(items@)[i as int] == tree_of(items@[i as int]));
                    assert(decreases_to!(whole => whole->Array_0));
                    assert(decreases_to!(whole->Array_0 => whole->Array_0[i as int]));
                }
                out.push(tree_from_value(&items[i]));
                i += 1;
            }
            proof {
                lemma_view_array(out);
                assert(items_view(out@) =~= trees_of(items@));
            }
            Json::Array(out)
        },
        Level::Object(members) => {
            let ghost whole = tree_of(*value);
            let mut out: Vec<JsonMember> = Vec::with_capacity(members.len());
            let mut i: usize = 0;
            while i < members.len()
                invariant
                    i <= members@.len(),
                    out@.len() == i,
                    whole == JsonModel::Object(members_of(members@)),
                    whole == tree_of(*value),
                    forall|j: int|
                        0 <= j < i ==> (#[trigger] out@[j]).name@ == members@[j].0@
                            && out@[j].value@ == tree_of(*members@[j].1),
                decreases members@.len() - i,
            {
                proof {
                    assert(members_of(members@)[i as int].1 == tree_of(*members@[i as int].1));
                    assert(decreases_to!(whole => whole->Object_0));
                    assert(decreases_to!(whole->Object_0 => whole->Object_0[i as int]));
                    assert(decreases_to!(whole->Object_0[i as int] => whole->Object_0[i as int].1));
                }
                let name = members[i].0.clone();
                let tree = tree_from_value(members[i].1);
                out.push(JsonMember { name, value: tree });
                i += 1;
            }
            proof {
                lemma_view_object(out);
                assert(members_view(out@) =~= members_of(members@));
            }
            Json::Object(out)
        },
    }
}

/// Reads a text with `serde_json::from_str`: the value holds the tree that
/// the reader reads from the text, and there is an error exactly where it
/// reads none.
#[verifier::external_body]
pub(crate) fn parse_text(text: &str) -> (r: Result<serde_json::Value, serde_json::Error>)
    ensures
        match r {
            Ok(value) => parsed(text@) == Some(tree_of(value)),
            Err(_) => parsed(text@) is None,
        },
{
    serde_json::from_str(text)
}

/// Reads bytes with `serde_json::from_slice`: the value holds the tree that
/// the reader reads from the bytes, and there is an error exactly where it
/// reads none.
#[verifier::external_body]
pub(crate) fn parse_bytes(bytes: &[u8]) -> (r: Result<serde_json::Value, serde_json::Error>)
    ensures
        match r {
            Ok(value) => parsed_bytes(bytes@) == Some(tree_of(value)),
            Err(_) => parsed_bytes(bytes@) is None,
        },
{
    serde_json::from_slice(bytes)
}

/// Writes a value with `serde_json::to_string`. Writing a `Value` to memory
/// has no failing step: its keys are strings, its numbers are finite, and
/// the buffer takes every byte. So the result is `Ok`, and the text is the
/// compact text of the tree that the value holds.
#[verifier::external_body]
pub(crate) fn print(value: &serde_json::Value) -> (r: Result<String, serde_json::Error>)
    ensures
        r is Ok,
        r matches Ok(text) ==> text@ == printed(tree_of(*value)),
{
    serde_json::to_string(value)
}

/// Writes a value with `serde_json::to_string_pretty`. As for the compact
/// text, no step of it can fail for a `Value`: the result is `Ok`, and the
/// text is the indented text of the tree that the value holds.
#[verifier::external_body]
pub(crate) fn print_pretty(value: &serde_json::Value) -> (r: Result<String, serde_json::Error>)
    ensures
        r is Ok,
        r matches Ok(text) ==> text@ == printed_pretty(tree_of(*value)),
{
    serde_json::to_string_pretty(value)
}

/// Writes a value with `serde_json::to_vec`. No step of it can fail for a
/// `Value`: the result is `Ok`, and the bytes are those of the text that
/// `serde_json::to_string` writes, which is made of them.
#[verifier::external_body]
pub(crate) fn print_bytes(value: &serde_json::Value) -> (r: Result<Vec<u8>, serde_json::Error>)
    ensures
        r is Ok,
        r matches Ok(bytes) ==> bytes@ == vstd::utf8::encode_utf8(printed(tree_of(*value))),
{
    serde_json::to_vec(value)
}

/// Writes a value with `serde_json::to_vec_pretty`. No step of it can fail
/// for a `Value`: the result is `Ok`, and the bytes are those of the text
/// that `serde_json::to_string_pretty` writes, which is made of them.
#[verifier::external_body]
pub(crate) fn print_pretty_bytes(value: &serde_json::Value) -> (r: Result<
    Vec<u8>,
    serde_json::Error,
>)
    ensures
        r is Ok,
        r matches Ok(bytes) ==> bytes@ == vstd::utf8::encode_utf8(
            printed_pretty(tree_of(*value)),
        ),
{
    serde_json::to_vec_pretty(value)
}

/// The value `serde_json::Value::Null`, which holds `null`.
#[verifier::external_body]
fn value_null() -> (r: serde_json::Value)
    ensures
        tree_of(r) == JsonModel::Null,
{
    serde_json::Value::Null
}

/// The value `serde_json::Value::Bool(b)`, which holds the boolean `b`.
#[verifier::external_body]
fn value_bool(b: bool) -> (r: serde_json::Value)
    ensures
        tree_of(r) == JsonModel::Bool(b),
{
    serde_json::Value::Bool(b)
}

/// The value `serde_json::Value::String(s)`, which holds the string `s`.
#[verifier::external_body]
fn value_string(s: String) -> (r: serde_json::Value)
    ensures
        tree_of(r) == JsonModel::String(s@),
{
    serde_json::Value::String(s)
}

/// The value `serde_json::Value::Array(items)`, which holds the array of the
/// trees that the items hold.
#[verifier::external_body]
fn value_array(items: Vec<serde_json::Value>) -> (r: serde_json::Value)
    ensures
        tree_of(r) == JsonModel::Array(trees_of(items@)),
{
    serde_json::Value::Array(items)
}

/// The names and trees that a run of object members hold, one for one.
pub open spec fn named_trees(members: Seq<(String, serde_json::Value)>) -> Seq<
    (Seq<char>, JsonModel),
> {
    Seq::new(members.len(), |i: int| (members[i].0@, tree_of(members[i].1)))
}

/// Whether no two members of a run have the same name.
pub open spec fn distinct_names(members: Seq<(Seq<char>, JsonModel)>) -> bool {
    forall|i: int, j: int|
        0 <= i < j < members.len() ==> (#[trigger] members[i]).0 != (#[trigger] members[j]).0
}

/// The value `serde_json::Value::Object` of the map collected from `members`.
/// With its feature `preserve_order`, which this crate asks for, the map
/// keeps the order of insertion; no insertion meets an earlier name, so the
/// value holds the members as they stand.
#[verifier::external_body]
fn value_object(members: Vec<(String, serde_json::Value)>) -> (r: serde_json::Value)
    requires
        distinct_names(named_trees(members@)),
    ensures
        tree_of(r) == JsonModel::Object(named_trees(members@)),
{
    serde_json::Value::Object(members.into_iter().collect())
}

impl JsonModel {
    /// Whether this tree is one that this library writes: it holds no number,
    /// and no object in it has two members of one name.
    pub open spec fn writable(self) -> bool
        decreases self,
    {
        match self {
            JsonModel::Int(_) => false,
            JsonModel::Float(_) => false,
            JsonModel::Array(items) => forall|i: int|
                0 <= i < items.len() ==> (#[trigger] items[i]).writable(),
            JsonModel::Object(members) => distinct_names(members) && forall|i: int|
                0 <= i < members.len() ==> (#[trigger] members[i]).1.writable(),
            _ => true,
        }
    }
}

/// Copies a tree of this library into a value of the JSON writer.
pub(crate) fn value_from_tree(tree: &Json) -> (r: serde_json::Value)
    requires
        tree@.writable(),
    ensures
        tree_of(r) == tree@,
    decreases tree, 1nat,
{
    match tree {
        Json::Null => value_null(),
        Json::Bool(b) => value_bool(*b),
        Json::Number(_) => {
            // A writable tree holds no number, so this case does not arise.
            proof {
                assert(!tree@.writable());
            }
            value_null()
        },
        Json::String(s) => value_string(s.clone()),
        Json::Array(items) => {
            proof {
                lemma_view_array(*items);
                let views = tree@->Array_0;
                assert(views == items_view(items@));
                assert forall|j: int| 0 <= j < items@.len() implies
                    (#[trigger] items@[j])@.writable() by {
                    assert(views[j].writable());
                }
            }
            value_array(values_from_items(items))
        },
        Json::Object(members) => {
            proof {
                lemma_view_object(*members);
                assert forall|j: int| 0 <= j < members@.len() implies
                    (#[trigger] members@[j]).value@.writable() by {
                    assert(members_view(members@)[j].1.writable());
                }
            }
            let out = values_from_members(members);
            value_object(out)
        },
    }
}

/// Copies the items of an array, one for one.
fn values_from_items(items: &Vec<Json>) -> (r: Vec<serde_json::Value>)
    requires
        forall|j: int| 0 <= j < items@.len() ==> (#[trigger] items@[j])@.writable(),
    ensures
        trees_of(r@) == items_view(items@),
    decreases items, 0nat,
{
    let mut out: Vec<serde_json::Value> = Vec::with_capacity(items.len());
    let mut i: usize = 0;
    while i < items.len()
        invariant
            i <= items@.len(),
            out@.len() == i,
            forall|j: int| 0 <= j < items@.len() ==> (#[trigger] items@[j])@.writable(),
            forall|j: int| 0 <= j < i ==> tree_of(#[trigger] out@[j]) == items@[j]@,
        decreases items@.len() - i,
    {
        out.push(value_from_tree(&items[i]));
        i += 1;
    }
    proof {
        assert(trees_of(out@) =~= items_view(items@));
    }
    out
}

/// Copies the members of an object, one for one.
fn values_from_members(members: &Vec<JsonMember>) -> (r: Vec<(String, serde_json::Value)>)
    requires
        forall|j: int| 0 <= j < members@.len() ==> (#[trigger] members@[j]).value@.writable(),
    ensures
        named_trees(r@) == members_view(members@),
    decreases members, 0nat,
{
    let mut out: Vec<(String, serde_json::Value)> = Vec::with_capacity(members.len());
    let mut i: usize = 0;
    while i < members.len()
        invariant
            i <= members@.len(),
            out@.len() == i,
            forall|j: int| 0 <= j < members@.len() ==> (#[trigger] members@[j]).value@.writable(),
            forall|j: int|
                0 <= j < i ==> (#[trigger] out@[j]).0@ == members@[j].name@ && tree_of(out@[j].1)
                    == members@[j].value@,
        decreases members@.len() - i,
    {
        let name = members[i].name.clone();
        let value = value_from_tree(&members[i].value);
        out.push((name, value));
        i += 1;
    }
    proof {
        assert(named_trees(out@) =~= members_view(members@));
    }
    out
}

} // verus!
