//! What decoding a JSON tree and encoding a value give: the definitions that
//! the transcoder is proved against.

use vstd::prelude::*;
use crate::descriptor::{string_member, type_member};
use crate::error::{ErrorModel, Expected, Name};
use crate::json::{find, JsonModel};
use crate::kind::Kind;
use crate::results::collect;
use crate::text::decimal;
use crate::value::{PathDomain, ValueModel};

verus! {

/// The envelope that the wire format puts round every value: an object with
/// the kind's discriminator under `"type"` and the payload under `"value"`.
pub open spec fn envelope(kind: Kind, payload: JsonModel) -> JsonModel {
    JsonModel::Object(seq![("type"@, JsonModel::String(kind.text())), ("value"@, payload)])
}

/// A shape error of an envelope of kind `kind`.
pub open spec fn shape_error<T>(kind: Kind, expected: Expected) -> Result<T, ErrorModel> {
    Err(ErrorModel::DecodeShapeError(kind, expected))
}

/// The value that a JSON tree decodes to, or the error that stops the
/// decoding.
///
/// An object with a string under `"type"` and any member `"value"` is an
/// envelope and is decoded by its kind. Any other object is a dictionary
/// with one entry for each member, keyed by the member's name. An array is
/// decoded item by item. A bare scalar is decoded by what it is: `null` as the
/// empty optional, a boolean as `Bool`, a string as `String`, an integer as
/// `Int`, any other number as `Fix64`.
pub open spec fn decode(tree: JsonModel) -> Result<ValueModel, ErrorModel>
    decreases tree, 0nat,
{
    match tree {
        JsonModel::Null => Ok(ValueModel::Optional(None)),
        JsonModel::Bool(b) => Ok(ValueModel::Bool(b)),
        JsonModel::Int(n) => Ok(ValueModel::Text(Kind::Int, decimal(n))),
        JsonModel::Float(text) => Ok(ValueModel::Text(Kind::Fix64, text)),
        JsonModel::String(s) => Ok(ValueModel::Text(Kind::String, s)),
        JsonModel::Array(items) => decode_array(items),
        JsonModel::Object(members) => match (find(members, "type"@), find(members, "value"@)) {
            (Some(t), Some(v)) => if 0 <= t < members.len() && 0 <= v < members.len() {
                match members[t].1 {
                    JsonModel::String(tag) => decode_tagged(tag, members[v].1),
                    _ => decode_implicit(members),
                }
            } else {
                decode_implicit(members)
            },
            _ => decode_implicit(members),
        },
    }
}

/// Each item of an array, decoded on its own.
pub open spec fn decode_each(items: Seq<JsonModel>) -> Seq<Result<ValueModel, ErrorModel>>
    decreases items, 0nat,
{
    Seq::new(
        items.len(),
        |i: int|
            if 0 <= i < items.len() {
                decode(items[i])
            } else {
                arbitrary()
            },
    )
}

/// An array decoded item by item, in order, up to the first item that fails.
pub open spec fn decode_array(items: Seq<JsonModel>) -> Result<ValueModel, ErrorModel>
    decreases items, 1nat,
{
    match collect(decode_each(items)) {
        Ok(values) => Ok(ValueModel::Array(values)),
        Err(e) => Err(e),
    }
}

/// Each member of an object that is no envelope, decoded as a dictionary
/// entry under the member's name.
pub open spec fn decode_each_member(members: Seq<(Seq<char>, JsonModel)>) -> Seq<
    Result<(ValueModel, ValueModel), ErrorModel>,
>
    decreases members, 0nat,
{
    Seq::new(
        members.len(),
        |i: int|
            if 0 <= i < members.len() {
                match decode(members[i].1) {
                    Ok(v) => Ok((ValueModel::Text(Kind::String, members[i].0), v)),
                    Err(e) => Err(e),
                }
            } else {
                arbitrary()
            },
    )
}

/// An object that is no envelope, decoded as a dictionary in the order of its
/// members.
pub open spec fn decode_implicit(members: Seq<(Seq<char>, JsonModel)>) -> Result<
    ValueModel,
    ErrorModel,
>
    decreases members, 1nat,
{
    match collect(decode_each_member(members)) {
        Ok(entries) => Ok(ValueModel::Dictionary(entries)),
        Err(e) => Err(e),
    }
}

/// The payload of an envelope whose `"type"` is `tag`, decoded: an unknown
/// discriminator is an error, a known one decides what the payload must be.
pub open spec fn decode_tagged(tag: Seq<char>, payload: JsonModel) -> Result<
    ValueModel,
    ErrorModel,
>
    decreases payload, 2nat,
{
    match Kind::named(tag) {
        None => Err(ErrorModel::UnknownKind(tag)),
        Some(kind) => decode_payload(kind, payload),
    }
}

/// The payload of an envelope of kind `kind`, decoded.
pub open spec fn decode_payload(kind: Kind, payload: JsonModel) -> Result<ValueModel, ErrorModel>
    decreases payload, 1nat,
{
    if kind == Kind::Void {
        Ok(ValueModel::Void)
    } else if kind == Kind::Optional {
        if payload is Null {
            Ok(ValueModel::Optional(None))
        } else {
            match decode(payload) {
                Ok(inner) => Ok(ValueModel::Optional(Some(Box::new(inner)))),
                Err(e) => Err(e),
            }
        }
    } else if kind == Kind::Bool {
        match payload {
            JsonModel::Bool(b) => Ok(ValueModel::Bool(b)),
            _ => shape_error(kind, Expected::BooleanPayload),
        }
    } else if kind.is_text() {
        match payload {
            JsonModel::String(s) => Ok(ValueModel::Text(kind, s)),
            _ => shape_error(kind, Expected::StringPayload),
        }
    } else if kind == Kind::Array {
        match payload {
            JsonModel::Array(items) => decode_array(items),
            _ => shape_error(kind, Expected::ArrayPayload),
        }
    } else if kind == Kind::Dictionary {
        match payload {
            JsonModel::Array(entries) => match collect(decode_each_entry(entries)) {
                Ok(pairs) => Ok(ValueModel::Dictionary(pairs)),
                Err(e) => Err(e),
            },
            _ => shape_error(kind, Expected::ArrayPayload),
        }
    } else if kind.is_composite() {
        match payload {
            JsonModel::Object(members) => decode_composite(kind, members),
            _ => shape_error(kind, Expected::ObjectPayload),
        }
    } else {
        match payload {
            JsonModel::Object(members) => decode_descriptor(kind, members),
            _ => shape_error(kind, Expected::ObjectPayload),
        }
    }
}

/// The path domain that `name` names, if it names one.
pub open spec fn path_domain(name: Seq<char>) -> Option<PathDomain> {
    if name == "storage"@ {
        Some(PathDomain::Storage)
    } else if name == "private"@ {
        Some(PathDomain::Private)
    } else if name == "public"@ {
        Some(PathDomain::Public)
    } else {
        None
    }
}

/// The value under `name`, decoded.
pub open spec fn value_member(kind: Kind, members: Seq<(Seq<char>, JsonModel)>, name: Name)
    -> Result<ValueModel, ErrorModel>
    decreases members, 0nat,
{
    match find(members, name.text()) {
        None => shape_error(kind, Expected::Member(name)),
        Some(i) => if 0 <= i < members.len() {
            decode(members[i].1)
        } else {
            arbitrary()
        },
    }
}

/// The payload of an envelope of a kind of the type-descriptor family,
/// decoded from the members of its object: a path from `"domain"` and
/// `"identifier"`; a type from `"static_type"`; a range from `"start"`,
/// `"end"` and `"step"`; a capability from `"id"`, `"address"` and
/// `"borrow_type"`; a function from `"function_type"`.
pub open spec fn decode_descriptor(kind: Kind, members: Seq<(Seq<char>, JsonModel)>) -> Result<
    ValueModel,
    ErrorModel,
>
    decreases members, 1nat,
{
    if kind == Kind::Path {
        match string_member(kind, members, Name::Domain) {
            Err(e) => Err(e),
            Ok(name) => match path_domain(name) {
                None => shape_error(kind, Expected::PathDomain),
                Some(domain) => match string_member(kind, members, Name::Identifier) {
                    Err(e) => Err(e),
                    Ok(identifier) => Ok(ValueModel::Path(domain, identifier)),
                },
            },
        }
    } else if kind == Kind::Type {
        match type_member(kind, members, Name::StaticType) {
            Err(e) => Err(e),
            Ok(static_type) => Ok(ValueModel::Type(static_type)),
        }
    } else if kind == Kind::InclusiveRange {
        match value_member(kind, members, Name::Start) {
            Err(e) => Err(e),
            Ok(start) => match value_member(kind, members, Name::End) {
                Err(e) => Err(e),
                Ok(end) => match value_member(kind, members, Name::Step) {
                    Err(e) => Err(e),
                    Ok(step) => Ok(
                        ValueModel::InclusiveRange(Box::new(start), Box::new(end), Box::new(step)),
                    ),
                },
            },
        }
    } else if kind == Kind::Capability {
        match string_member(kind, members, Name::Id) {
            Err(e) => Err(e),
            Ok(id) => match string_member(kind, members, Name::Address) {
                Err(e) => Err(e),
                Ok(address) => match type_member(kind, members, Name::BorrowType) {
                    Err(e) => Err(e),
                    Ok(borrow_type) => Ok(ValueModel::Capability(id, address, borrow_type)),
                },
            },
        }
    } else {
        match type_member(kind, members, Name::FunctionType) {
            Err(e) => Err(e),
            Ok(function_type) => Ok(ValueModel::Function(function_type)),
        }
    }
}

/// Each entry of a dictionary payload, decoded on its own.
pub open spec fn decode_each_entry(entries: Seq<JsonModel>) -> Seq<
    Result<(ValueModel, ValueModel), ErrorModel>,
>
    decreases entries, 0nat,
{
    Seq::new(
        entries.len(),
        |i: int|
            if 0 <= i < entries.len() {
                decode_entry(entries[i])
            } else {
                arbitrary()
            },
    )
}

/// One entry of a dictionary payload, decoded: an object with a `"key"` and a
/// `"value"`, the key decoded before the value.
pub open spec fn decode_entry(entry: JsonModel) -> Result<(ValueModel, ValueModel), ErrorModel>
    decreases entry, 1nat,
{
    match entry {
        JsonModel::Object(members) => match find(members, "key"@) {
            None => shape_error(Kind::Dictionary, Expected::EntryKey),
            Some(k) => match find(members, "value"@) {
                None => shape_error(Kind::Dictionary, Expected::EntryValue),
                Some(v) => if 0 <= k < members.len() && 0 <= v < members.len() {
                    match decode(members[k].1) {
                        Err(e) => Err(e),
                        Ok(key) => match decode(members[v].1) {
                            Err(e) => Err(e),
                            Ok(value) => Ok((key, value)),
                        },
                    }
                } else {
                    arbitrary()
                },
            },
        },
        _ => shape_error(Kind::Dictionary, Expected::EntryObject),
    }
}

/// The payload of a composite of kind `kind`, decoded: an object with a string
/// `"id"` and an array `"fields"`.
pub open spec fn decode_composite(kind: Kind, members: Seq<(Seq<char>, JsonModel)>) -> Result<
    ValueModel,
    ErrorModel,
>
    decreases members, 2nat,
{
    match find(members, "id"@) {
        None => shape_error(kind, Expected::Id),
        Some(i) => if 0 <= i < members.len() {
            match members[i].1 {
                JsonModel::String(id) => match find(members, "fields"@) {
                    None => shape_error(kind, Expected::Fields),
                    Some(f) => if 0 <= f < members.len() {
                        match members[f].1 {
                            JsonModel::Array(fields) => match collect(
                                decode_each_field(kind, fields),
                            ) {
                                Ok(decoded) => Ok(ValueModel::Composite(kind, id, decoded)),
                                Err(e) => Err(e),
                            },
                            _ => shape_error(kind, Expected::FieldsArray),
                        }
                    } else {
                        arbitrary()
                    },
                },
                _ => shape_error(kind, Expected::IdString),
            }
        } else {
            arbitrary()
        },
    }
}

/// Each field of a composite payload, decoded on its own.
pub open spec fn decode_each_field(kind: Kind, fields: Seq<JsonModel>) -> Seq<
    Result<(Seq<char>, ValueModel), ErrorModel>,
>
    decreases fields, 0nat,
{
    Seq::new(
        fields.len(),
        |i: int|
            if 0 <= i < fields.len() {
                decode_field(kind, fields[i])
            } else {
                arbitrary()
            },
    )
}

/// One field of a composite payload, decoded: an object with a string
/// `"name"` and a `"value"`.
pub open spec fn decode_field(kind: Kind, field: JsonModel) -> Result<
    (Seq<char>, ValueModel),
    ErrorModel,
>
    decreases field, 1nat,
{
    match field {
        JsonModel::Object(members) => match find(members, "name"@) {
            None => shape_error(kind, Expected::FieldName),
            Some(n) => if 0 <= n < members.len() {
                match members[n].1 {
                    JsonModel::String(name) => match find(members, "value"@) {
                        None => shape_error(kind, Expected::FieldValue),
                        Some(v) => if 0 <= v < members.len() {
                            match decode(members[v].1) {
                                Ok(value) => Ok((name, value)),
                                Err(e) => Err(e),
                            }
                        } else {
                            arbitrary()
                        },
                    },
                    _ => shape_error(kind, Expected::FieldNameString),
                }
            } else {
                arbitrary()
            },
        },
        _ => shape_error(kind, Expected::FieldObject),
    }
}

/// The JSON tree that a value encodes to, or the error that stops the
/// encoding.
///
/// Every value is put in its envelope. The payload of `Void` and of the empty
/// optional is `null`; of a full optional, the encoded inner value; of `Bool`,
/// the boolean; of a string-carrying kind, the string; of an array, the array
/// of the encoded items; of a dictionary, an array of objects with `"key"`
/// and `"value"`; of a composite, an object with `"id"` and `"fields"`, each
/// field an object with `"name"` and `"value"`. A value of the type-descriptor
/// family has no encoding.
pub open spec fn encode(value: ValueModel) -> Result<JsonModel, ErrorModel>
    decreases value, 1nat,
{
    match value {
        ValueModel::Void => Ok(envelope(Kind::Void, JsonModel::Null)),
        ValueModel::Optional(None) => Ok(envelope(Kind::Optional, JsonModel::Null)),
        ValueModel::Optional(Some(inner)) => match encode(*inner) {
            Ok(tree) => Ok(envelope(Kind::Optional, tree)),
            Err(e) => Err(e),
        },
        ValueModel::Bool(b) => Ok(envelope(Kind::Bool, JsonModel::Bool(b))),
        ValueModel::Text(kind, s) => Ok(envelope(kind, JsonModel::String(s))),
        ValueModel::Array(items) => match collect(encode_each(items)) {
            Ok(trees) => Ok(envelope(Kind::Array, JsonModel::Array(trees))),
            Err(e) => Err(e),
        },
        ValueModel::Dictionary(entries) => match collect(encode_each_entry(entries)) {
            Ok(trees) => Ok(envelope(Kind::Dictionary, JsonModel::Array(trees))),
            Err(e) => Err(e),
        },
        ValueModel::Composite(kind, id, fields) => match collect(encode_each_field(fields)) {
            Ok(trees) => Ok(envelope(kind, composite_payload(id, trees))),
            Err(e) => Err(e),
        },
        _ => Err(ErrorModel::UnsupportedType(value.kind())),
    }
}

/// The payload of a composite: its type's name under `"id"`, its encoded
/// fields under `"fields"`.
pub open spec fn composite_payload(id: Seq<char>, fields: Seq<JsonModel>) -> JsonModel {
    JsonModel::Object(seq![("id"@, JsonModel::String(id)), ("fields"@, JsonModel::Array(fields))])
}

/// The object that stands for a dictionary entry.
pub open spec fn entry_object(key: JsonModel, value: JsonModel) -> JsonModel {
    JsonModel::Object(seq![("key"@, key), ("value"@, value)])
}

/// The object that stands for a field of a composite.
pub open spec fn field_object(name: Seq<char>, value: JsonModel) -> JsonModel {
    JsonModel::Object(seq![("name"@, JsonModel::String(name)), ("value"@, value)])
}

/// Each item of an array, encoded on its own.
pub open spec fn encode_each(items: Seq<ValueModel>) -> Seq<Result<JsonModel, ErrorModel>>
    decreases items, 0nat,
{
    Seq::new(
        items.len(),
        |i: int|
            if 0 <= i < items.len() {
                encode(items[i])
            } else {
                arbitrary()
            },
    )
}

/// Each entry of a dictionary, encoded on its own: the key before the value.
pub open spec fn encode_each_entry(entries: Seq<(ValueModel, ValueModel)>) -> Seq<
    Result<JsonModel, ErrorModel>,
>
    decreases entries, 0nat,
{
    Seq::new(
        entries.len(),
        |i: int|
            if 0 <= i < entries.len() {
                match encode(entries[i].0) {
                    Err(e) => Err(e),
                    Ok(key) => match encode(entries[i].1) {
                        Err(e) => Err(e),
                        Ok(value) => Ok(entry_object(key, value)),
                    },
                }
            } else {
                arbitrary()
            },
    )
}

/// Each field of a composite, encoded on its own.
pub open spec fn encode_each_field(fields: Seq<(Seq<char>, ValueModel)>) -> Seq<
    Result<JsonModel, ErrorModel>,
>
    decreases fields, 0nat,
{
    Seq::new(
        fields.len(),
        |i: int|
            if 0 <= i < fields.len() {
                match encode(fields[i].1) {
                    Err(e) => Err(e),
                    Ok(value) => Ok(field_object(fields[i].0, value)),
                }
            } else {
                arbitrary()
            },
    )
}

} // verus!
