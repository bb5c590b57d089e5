//! A codec between plain JSON and the Cadence value model.
//!
//! The value model is a closed set of kinds ([`CadenceValue`]). The
//! structural transcoder ([`conversion`]) turns JSON trees ([`Json`]) into
//! values and back. The binding layer ([`ToCadenceValue`],
//! [`FromCadenceValue`], [`impls`], [`record`]) turns values into native
//! values and back. The fallback bridge ([`bridge`]) builds the tree from
//! which a native type without a binding is materialized. What each function
//! gives is stated over the mathematical values of the types, and proved.

use vstd::prelude::*;

pub mod text;
pub mod results;
pub mod order;
pub mod json;
pub mod kind;
pub mod wire;
pub mod error;
pub mod types;
pub mod value;
pub mod descriptor;
pub mod transcode;
pub mod conversion;
pub mod bridge;
pub mod impls;
pub mod record;
pub mod laws;

pub use crate::error::{CadenceError, Expected, Name};
pub use crate::impls::from_cadence_dictionary;
pub use crate::json::{Json, JsonMember, JsonNumber};
pub use crate::kind::Kind;
pub use crate::types::{Authorization, CadenceType, Entitlement, FieldType, ParameterType};
pub use crate::value::{
    CadenceValue, CapabilityValue, CompositeField, CompositeValue, DictionaryEntry,
    FunctionValue, PathDomain, PathValue, RangeValue, TypeValue,
};

verus! {

use crate::conversion::{cadence_value_to_value, value_to_cadence_value};
use crate::error::{outcome, ErrorModel};
use crate::impls::{each_encodes_to, encode_all, encode_pairs, pairs_encode_to, pointed_at};
use crate::json::JsonModel;
use crate::laws::lemma_encode_writable;
use crate::transcode::{decode, encode};
use crate::value::{lemma_view_array, ValueModel};
use crate::wire::{
    parse_bytes, parse_text, parsed, parsed_bytes, print, print_bytes, print_pretty,
    print_pretty_bytes, printed, printed_pretty, tree_from_value, value_from_tree,
};

/// A native type that can be encoded as a value of the value model.
pub trait ToCadenceValue {
    /// Whether `r` is an outcome that encoding this native value may have.
    /// A binding that says nothing of itself may have any outcome.
    open spec fn encodes_to(&self, r: Result<ValueModel, ErrorModel>) -> bool {
        true
    }

    /// Encodes this native value.
    fn to_cadence_value(&self) -> (r: Result<CadenceValue, CadenceError>)
        ensures
            self.encodes_to(outcome(r)),
    ;
}

/// A native type that can be decoded from a value of the value model.
pub trait FromCadenceValue: Sized {
    /// Whether `r` is an outcome that decoding `value` to this native type may
    /// have. A binding that says nothing of itself may have any outcome.
    open spec fn decodes_to(value: ValueModel, r: Result<Self, ErrorModel>) -> bool {
        true
    }

    /// Decodes `value` to this native type.
    fn from_cadence_value(value: &CadenceValue) -> (r: Result<Self, CadenceError>)
        ensures
            Self::decodes_to(value@, decoded(r)),
    ;
}

/// The outcome of a decoding: the native value as it is, or the value of the
/// error.
pub open spec fn decoded<T>(r: Result<T, CadenceError>) -> Result<T, ErrorModel> {
    match r {
        Ok(x) => Ok(x),
        Err(e) => Err(e@),
    }
}

/// Wraps the text of `value` as a `String` value.
pub fn to_cadence_string<T: std::fmt::Display>(value: T) -> (r: CadenceValue)
    ensures
        r matches CadenceValue::String { value: s }
            && vstd::string::to_string_from_display_ensures::<T>(&value, s),
{
    CadenceValue::String { value: value.to_string() }
}

/// Wraps a boolean as a `Bool` value.
pub fn to_cadence_bool(value: bool) -> (r: CadenceValue)
    ensures
        r@ == ValueModel::Bool(value),
{
    CadenceValue::Bool { value }
}

/// Whether `r` is an outcome that encoding a native value and then writing
/// the encoding as a tree may have: the tree of an encoding, the error of the
/// native value's own encoder, or the error of an encoding that has no tree.
pub open spec fn encodes_to_tree<T: ToCadenceValue>(value: T, r: Result<JsonModel, ErrorModel>)
    -> bool {
    match r {
        Ok(tree) => exists|v: ValueModel|
            #[trigger] value.encodes_to(Ok::<ValueModel, ErrorModel>(v)) && encode(v) == Ok::<
                JsonModel,
                ErrorModel,
            >(tree),
        Err(e) => value.encodes_to(Err::<ValueModel, ErrorModel>(e)) || exists|v: ValueModel|
            #[trigger] value.encodes_to(Ok::<ValueModel, ErrorModel>(v)) && encode(v) == Err::<
                JsonModel,
                ErrorModel,
            >(e),
    }
}

/// Whether `r` is an outcome that decoding a tree and then binding the value
/// to the native type `T` may have: the error of the decoding where it fails,
/// and else what binding the decoded value gives.
pub open spec fn decodes_from_tree<T: FromCadenceValue>(tree: JsonModel, r: Result<T, ErrorModel>)
    -> bool {
    match decode(tree) {
        Ok(v) => T::decodes_to(v, r),
        Err(e) => r == Err::<T, ErrorModel>(e),
    }
}

/// Whether `r` is an outcome that writing a native value as text may have:
/// the text of the tree that the value encodes to, or the error of the
/// encoding. Writing the tree as text does not fail.
pub open spec fn writes_as<T: ToCadenceValue>(
    value: T,
    text_of: spec_fn(JsonModel) -> Seq<char>,
    r: Result<Seq<char>, ErrorModel>,
) -> bool {
    match r {
        Ok(text) => exists|tree: JsonModel|
            #[trigger] encodes_to_tree(value, Ok::<JsonModel, ErrorModel>(tree)) && text
                == text_of(tree),
        Err(e) => encodes_to_tree(value, Err::<JsonModel, ErrorModel>(e)),
    }
}

/// Encodes a native value and writes the encoding as a JSON tree.
pub fn to_value<T: ToCadenceValue>(value: &T) -> (r: Result<Json, CadenceError>)
    ensures
        encodes_to_tree(*value, outcome(r)),
        r matches Ok(tree) ==> tree@.writable(),
{
    let cadence_value = match value.to_cadence_value() {
        Ok(v) => v,
        Err(e) => {
            return Err(e);
        },
    };
    proof {
        lemma_encode_writable(cadence_value@);
    }
    let r = cadence_value_to_value(&cadence_value);
    proof {
        assert(value.encodes_to(Ok::<ValueModel, ErrorModel>(cadence_value@)));
    }
    r
}

/// Decodes a JSON tree and binds the decoded value to the native type `T`.
pub fn from_value<T: FromCadenceValue>(tree: &Json) -> (r: Result<T, CadenceError>)
    ensures
        decodes_from_tree::<T>(tree@, decoded(r)),
{
    match value_to_cadence_value(tree) {
        Ok(cadence_value) => T::from_cadence_value(&cadence_value),
        Err(e) => Err(e),
    }
}

/// Writes a native value as compact Cadence-JSON text.
pub fn to_string<T: ToCadenceValue>(value: &T) -> (r: Result<String, CadenceError>)
    ensures
        writes_as(
            *value,
            |tree: JsonModel| printed(tree),
            match r {
                Ok(text) => Ok(text@),
                Err(e) => Err(e@),
            },
        ),
{
    let tree = match to_value(value) {
        Ok(tree) => tree,
        Err(e) => {
            return Err(e);
        },
    };
    proof {
        assert(encodes_to_tree(*value, Ok::<JsonModel, ErrorModel>(tree@)));
    }
    match print(&value_from_tree(&tree)) {
        Ok(text) => Ok(text),
        Err(e) => Err(CadenceError::from(e)),
    }
}

/// Writes a native value as indented Cadence-JSON text.
pub fn to_string_pretty<T: ToCadenceValue>(value: &T) -> (r: Result<String, CadenceError>)
    ensures
        writes_as(
            *value,
            |tree: JsonModel| printed_pretty(tree),
            match r {
                Ok(text) => Ok(text@),
                Err(e) => Err(e@),
            },
        ),
{
    let tree = match to_value(value) {
        Ok(tree) => tree,
        Err(e) => {
            return Err(e);
        },
    };
    proof {
        assert(encodes_to_tree(*value, Ok::<JsonModel, ErrorModel>(tree@)));
    }
    match print_pretty(&value_from_tree(&tree)) {
        Ok(text) => Ok(text),
        Err(e) => Err(CadenceError::from(e)),
    }
}

/// Whether `r` is an outcome that writing a native value as bytes may have:
/// the bytes of a text that the value may be written as, or an error that
/// writing it as text may have.
pub open spec fn writes_as_bytes<T: ToCadenceValue>(
    value: T,
    text_of: spec_fn(JsonModel) -> Seq<char>,
    r: Result<Seq<u8>, ErrorModel>,
) -> bool {
    match r {
        Ok(bytes) => exists|text: Seq<char>|
            #[trigger] writes_as(value, text_of, Ok::<Seq<char>, ErrorModel>(text)) && bytes
                == vstd::utf8::encode_utf8(text),
        Err(e) => writes_as(value, text_of, Err::<Seq<char>, ErrorModel>(e)),
    }
}

/// Writes a native value as the bytes of compact Cadence-JSON text.
pub fn to_vec<T: ToCadenceValue>(value: &T) -> (r: Result<Vec<u8>, CadenceError>)
    ensures
        writes_as_bytes(
            *value,
            |tree: JsonModel| printed(tree),
            match r {
                Ok(bytes) => Ok(bytes@),
                Err(e) => Err(e@),
            },
        ),
{
    let tree = match to_value(value) {
        Ok(tree) => tree,
        Err(e) => {
            return Err(e);
        },
    };
    proof {
        assert(encodes_to_tree(*value, Ok::<JsonModel, ErrorModel>(tree@)));
    }
    match print_bytes(&value_from_tree(&tree)) {
        Ok(bytes) => {
            proof {
                let text_of = |tree: JsonModel| printed(tree);
                assert(writes_as(*value, text_of, Ok::<Seq<char>, ErrorModel>(text_of(tree@))));
            }
            Ok(bytes)
        },
        Err(e) => Err(CadenceError::from(e)),
    }
}

/// Writes a native value as the bytes of indented Cadence-JSON text.
pub fn to_vec_pretty<T: ToCadenceValue>(value: &T) -> (r: Result<Vec<u8>, CadenceError>)
    ensures
        writes_as_bytes(
            *value,
            |tree: JsonModel| printed_pretty(tree),
            match r {
                Ok(bytes) => Ok(bytes@),
                Err(e) => Err(e@),
            },
        ),
{
    let tree = match to_value(value) {
        Ok(tree) => tree,
        Err(e) => {
            return Err(e);
        },
    };
    proof {
        assert(encodes_to_tree(*value, Ok::<JsonModel, ErrorModel>(tree@)));
    }
    match print_pretty_bytes(&value_from_tree(&tree)) {
        Ok(bytes) => {
            proof {
                let text_of = |tree: JsonModel| printed_pretty(tree);
                assert(writes_as(*value, text_of, Ok::<Seq<char>, ErrorModel>(text_of(tree@))));
            }
            Ok(bytes)
        },
        Err(e) => Err(CadenceError::from(e)),
    }
}

/// Reads Cadence-JSON text and binds what it holds to the native type `T`:
/// a text that the JSON reader refuses is an error of the reader, and any
/// other is decoded and bound.
pub fn from_str<T: FromCadenceValue>(s: &str) -> (r: Result<T, CadenceError>)
    ensures
        match parsed(s@) {
            Some(tree) => decodes_from_tree::<T>(tree, decoded(r)),
            None => r matches Err(e) && e@ == ErrorModel::Syntax,
        },
{
    match parse_text(s) {
        Ok(value) => from_value::<T>(&tree_from_value(&value)),
        Err(e) => Err(CadenceError::from(e)),
    }
}

/// Reads the bytes of Cadence-JSON text and binds what they hold to the
/// native type `T`: bytes that the JSON reader refuses are an error of the
/// reader, and any others are decoded and bound.
pub fn from_slice<T: FromCadenceValue>(v: &[u8]) -> (r: Result<T, CadenceError>)
    ensures
        match parsed_bytes(v@) {
            Some(tree) => decodes_from_tree::<T>(tree, decoded(r)),
            None => r matches Err(e) && e@ == ErrorModel::Syntax,
        },
{
    match parse_bytes(v) {
        Ok(value) => from_value::<T>(&tree_from_value(&value)),
        Err(e) => Err(CadenceError::from(e)),
    }
}

/// Wraps an optional native value as an `Optional` value.
pub fn to_cadence_optional<T: ToCadenceValue>(value: Option<T>) -> (r: Result<
    CadenceValue,
    CadenceError,
>)
    ensures
        value.encodes_to(outcome(r)),
{
    value.to_cadence_value()
}

/// Wraps a run of native values as an `Array` value, each item encoded in
/// turn, up to the first that fails.
pub fn to_cadence_array<T: ToCadenceValue>(values: &[T]) -> (r: Result<CadenceValue, CadenceError>)
    ensures
        match outcome(r) {
            Ok(ValueModel::Array(items)) => each_encodes_to(
                values@,
                Ok::<Seq<ValueModel>, ErrorModel>(items),
            ),
            Ok(_) => false,
            Err(e) => each_encodes_to(values@, Err::<Seq<ValueModel>, ErrorModel>(e)),
        },
{
    match encode_all(values) {
        Ok(items) => {
            proof {
                lemma_view_array(items);
            }
            Ok(CadenceValue::Array { value: items })
        },
        Err(e) => Err(e),
    }
}

/// Wraps a run of pairs as a `Dictionary` value with one entry for each pair,
/// in the order of the run, the key of each encoded before its value, up to
/// the first that fails.
pub fn to_cadence_dictionary<K: ToCadenceValue, V: ToCadenceValue>(map: &Vec<(K, V)>) -> (r: Result<
    CadenceValue,
    CadenceError,
>)
    ensures
        pairs_encode_to(map@, outcome(r)),
{
    let mut pairs: Vec<(&K, &V)> = Vec::with_capacity(map.len());
    let mut i: usize = 0;
    while i < map.len()
        invariant
            i <= map@.len(),
            pairs@.len() == i,
            forall|j: int|
                0 <= j < i ==> *(#[trigger] pairs@[j]).0 == map@[j].0 && *pairs@[j].1 == map@[j].1,
        decreases map@.len() - i,
    {
        pairs.push((&map[i].0, &map[i].1));
        i += 1;
    }
    proof {
        assert(pointed_at(pairs@) =~= map@);
    }
    encode_pairs(&pairs)
}

} // verus!
