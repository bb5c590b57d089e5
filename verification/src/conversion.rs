//! The structural transcoder: JSON tree to value, and value to JSON tree.

use vstd::prelude::*;
use vstd::string::StringExecFns;
use crate::descriptor::{read_string, read_type};
use crate::error::{outcome, CadenceError, ErrorModel, Expected, Name};
use crate::json::{
    find_member, items_view, lemma_view_array, lemma_view_object, members_view, Json, JsonMember,
    JsonModel, JsonNumber,
};
use crate::kind::Kind;
use crate::results::{collect, lemma_collect_err, lemma_collect_ok};
use crate::text::{format_signed, format_unsigned, str_eq};
use crate::transcode::{
    decode, decode_array, decode_composite, decode_descriptor, decode_each, decode_each_entry,
    decode_each_field, decode_each_member, decode_entry, decode_field, decode_implicit,
    decode_payload, decode_tagged, encode, encode_each, encode_each_entry, encode_each_field,
    envelope, path_domain, value_member,
};
use crate::value::{
    composite_view, entries_view, fields_view, values_view, CadenceValue, CapabilityValue,
    CompositeField, CompositeValue, DictionaryEntry, FunctionValue, PathDomain, PathValue,
    RangeValue, TypeValue, ValueModel,
};

verus! {

/// Decodes a JSON tree to a value of the value model.
///
/// An envelope is decoded by its kind; any other object as a dictionary keyed
/// by its members' names; an array item by item; a bare scalar by what it is.
pub fn value_to_cadence_value(value: &Json) -> (r: Result<CadenceValue, CadenceError>)
    ensures
        outcome(r) == decode(value@),
    decreases value, 0nat,
{
    match value {
        Json::Null => Ok(CadenceValue::Optional { value: None }),
        Json::Bool(b) => Ok(CadenceValue::Bool { value: *b }),
        Json::Number(n) => match n {
            JsonNumber::PosInt(u) => Ok(CadenceValue::Int { value: format_unsigned(*u as u128) }),
            JsonNumber::NegInt(i) => Ok(CadenceValue::Int { value: format_signed(*i as i128) }),
            JsonNumber::Float(text) => Ok(CadenceValue::Fix64 { value: text.clone() }),
        },
        Json::String(s) => Ok(CadenceValue::String { value: s.clone() }),
        Json::Array(items) => {
            proof {
                lemma_view_array(*items);
            }
            decode_items(items)
        },
        Json::Object(members) => {
            proof {
                lemma_view_object(*members);
            }
            match find_member(members, "type") {
                Some(t) => match find_member(members, "value") {
                    Some(v) => match &members[t].value {
                        Json::String(tag) => parse_structured_cadence_value(
                            tag.as_str(),
                            &members[v].value,
                        ),
                        _ => decode_members(members),
                    },
                    None => decode_members(members),
                },
                None => decode_members(members),
            }
        },
    }
}

/// Decodes the items of an array, in order, up to the first that fails.
fn decode_items(items: &Vec<Json>) -> (r: Result<CadenceValue, CadenceError>)
    ensures
        outcome(r) == decode_array(items_view(items@)),
    decreases items, 1nat,
{
    let ghost rs = decode_each(items_view(items@));
    let mut out: Vec<CadenceValue> = Vec::with_capacity(items.len());
    let mut i: usize = 0;
    while i < items.len()
        invariant
            i <= items@.len(),
            out@.len() == i,
            rs == decode_each(items_view(items@)),
            forall|j: int|
                0 <= j < i ==> (#[trigger] rs[j]) == Ok::<ValueModel, ErrorModel>(out@[j]@),
        decreases items@.len() - i,
    {
        match value_to_cadence_value(&items[i]) {
            Ok(v) => {
                out.push(v);
            },
            Err(e) => {
                proof {
                    lemma_collect_err(rs, i as int);
                }
                return Err(e);
            },
        }
        i += 1;
    }
    proof {
        lemma_collect_ok(rs);
        assert(collect(rs)->Ok_0 =~= values_view(out@));
        crate::value::lemma_view_array(out);
    }
    Ok(CadenceValue::Array { value: out })
}

/// Decodes an object that is no envelope as a dictionary, one entry for each
/// member and keyed by its name, in the order of the members.
fn decode_members(members: &Vec<JsonMember>) -> (r: Result<CadenceValue, CadenceError>)
    ensures
        outcome(r) == decode_implicit(members_view(members@)),
    decreases members, 1nat,
{
    let ghost rs = decode_each_member(members_view(members@));
    let mut out: Vec<DictionaryEntry> = Vec::new();
    let mut i: usize = 0;
    while i < members.len()
        invariant
            i <= members@.len(),
            out@.len() == i,
            rs == decode_each_member(members_view(members@)),
            forall|j: int|
                0 <= j < i ==> (#[trigger] rs[j]) == Ok::<(ValueModel, ValueModel), ErrorModel>(
                    (out@[j].key@, out@[j].value@),
                ),
        decreases members@.len() - i,
    {
        match value_to_cadence_value(&members[i].value) {
            Ok(v) => {
                out.push(
                    DictionaryEntry {
                        key: CadenceValue::String { value: members[i].name.clone() },
                        value: v,
                    },
                );
            },
            Err(e) => {
                proof {
                    lemma_collect_err(rs, i as int);
                }
                return Err(e);
            },
        }
        i += 1;
    }
    proof {
        lemma_collect_ok(rs);
        assert(collect(rs)->Ok_0 =~= entries_view(out@));
        crate::value::lemma_view_dictionary(out);
    }
    Ok(CadenceValue::Dictionary { value: out })
}

/// Decodes the payload of an envelope whose `"type"` is `tag`.
///
/// A discriminator that names no kind is an error. Otherwise the kind decides
/// what the payload must be: anything for `Void`; `null` or a value for
/// `Optional`; a boolean for `Bool`; a string for `String`, `Address` and the
/// number kinds; an array of items for `Array`, of entries for `Dictionary`;
/// an object with `"id"` and `"fields"` for a composite; an object with the
/// parts of the kind for a value of the type-descriptor family.
pub fn parse_structured_cadence_value(tag: &str, value: &Json) -> (r: Result<
    CadenceValue,
    CadenceError,
>)
    ensures
        outcome(r) == decode_tagged(tag@, value@),
    decreases value, 2nat,
{
    match Kind::from_name(tag) {
        None => Err(CadenceError::UnknownKind(String::from_str(tag))),
        Some(kind) => decode_of_kind(kind, value),
    }
}

/// Decodes the payload of an envelope of kind `kind`.
fn decode_of_kind(kind: Kind, value: &Json) -> (r: Result<CadenceValue, CadenceError>)
    ensures
        outcome(r) == decode_payload(kind, value@),
    decreases value, 1nat,
{
    if kind == Kind::Void {
        Ok(CadenceValue::Void {  })
    } else if kind == Kind::Optional {
        match value {
            Json::Null => Ok(CadenceValue::Optional { value: None }),
            _ => match value_to_cadence_value(value) {
                Ok(inner) => Ok(CadenceValue::Optional { value: Some(Box::new(inner)) }),
                Err(e) => Err(e),
            },
        }
    } else if kind == Kind::Bool {
        match value {
            Json::Bool(b) => Ok(CadenceValue::Bool { value: *b }),
            _ => Err(CadenceError::DecodeShapeError { kind, expected: Expected::BooleanPayload }),
        }
    } else if kind.carries_text() {
        match value {
            Json::String(s) => Ok(CadenceValue::text(kind, s.clone())),
            _ => Err(CadenceError::DecodeShapeError { kind, expected: Expected::StringPayload }),
        }
    } else if kind == Kind::Array {
        match value {
            Json::Array(items) => {
                proof {
                    lemma_view_array(*items);
                }
                decode_items(items)
            },
            _ => Err(CadenceError::DecodeShapeError { kind, expected: Expected::ArrayPayload }),
        }
    } else if kind == Kind::Dictionary {
        match value {
            Json::Array(entries) => {
                proof {
                    lemma_view_array(*entries);
                }
                decode_entries(entries)
            },
            _ => Err(CadenceError::DecodeShapeError { kind, expected: Expected::ArrayPayload }),
        }
    } else if kind.composite() {
        match value {
            Json::Object(members) => {
                proof {
                    lemma_view_object(*members);
                }
                match decode_composite_payload(kind, members) {
                    Ok(payload) => Ok(CadenceValue::composite(kind, payload)),
                    Err(e) => Err(e),
                }
            },
            _ => Err(CadenceError::DecodeShapeError { kind, expected: Expected::ObjectPayload }),
        }
    } else {
        match value {
            Json::Object(members) => {
                proof {
                    lemma_view_object(*members);
                }
                decode_descriptor_payload(kind, members)
            },
            _ => Err(CadenceError::DecodeShapeError { kind, expected: Expected::ObjectPayload }),
        }
    }
}

/// Gives the path domain that `name` names, if it names one.
fn path_domain_of(name: &str) -> (r: Option<PathDomain>)
    ensures
        r == path_domain(name@),
{
    if str_eq(name, "storage") {
        Some(PathDomain::Storage)
    } else if str_eq(name, "private") {
        Some(PathDomain::Private)
    } else if str_eq(name, "public") {
        Some(PathDomain::Public)
    } else {
        None
    }
}

/// Decodes the value under `name`.
fn read_value(kind: Kind, members: &Vec<JsonMember>, name: Name) -> (r: Result<
    CadenceValue,
    CadenceError,
>)
    ensures
        outcome(r) == value_member(kind, members_view(members@), name),
    decreases members, 0nat,
{
    match find_member(members, name.name()) {
        None => Err(CadenceError::DecodeShapeError { kind, expected: Expected::Member(name) }),
        Some(i) => value_to_cadence_value(&members[i].value),
    }
}

/// Decodes the payload of an envelope of a kind of the type-descriptor
/// family from the members of its object.
fn decode_descriptor_payload(kind: Kind, members: &Vec<JsonMember>) -> (r: Result<
    CadenceValue,
    CadenceError,
>)
    ensures
        outcome(r) == decode_descriptor(kind, members_view(members@)),
    decreases members, 1nat,
{
    if kind == Kind::Path {
        let name = match read_string(kind, members, Name::Domain) {
            Ok(name) => name,
            Err(e) => {
                return Err(e);
            },
        };
        let domain = match path_domain_of(name.as_str()) {
            Some(domain) => domain,
            None => {
                return Err(
                    CadenceError::DecodeShapeError { kind, expected: Expected::PathDomain },
                );
            },
        };
        match read_string(kind, members, Name::Identifier) {
            Ok(identifier) => Ok(CadenceValue::Path { value: PathValue { domain, identifier } }),
            Err(e) => Err(e),
        }
    } else if kind == Kind::Type {
        match read_type(kind, members, Name::StaticType) {
            Ok(static_type) => Ok(CadenceValue::Type { value: TypeValue { static_type } }),
            Err(e) => Err(e),
        }
    } else if kind == Kind::InclusiveRange {
        let start = match read_value(kind, members, Name::Start) {
            Ok(start) => start,
            Err(e) => {
                return Err(e);
            },
        };
        let end = match read_value(kind, members, Name::End) {
            Ok(end) => end,
            Err(e) => {
                return Err(e);
            },
        };
        match read_value(kind, members, Name::Step) {
            Ok(step) => Ok(
                CadenceValue::InclusiveRange {
                    value: RangeValue {
                        start: Box::new(start),
                        end: Box::new(end),
                        step: Box::new(step),
                    },
                },
            ),
            Err(e) => Err(e),
        }
    } else if kind == Kind::Capability {
        let id = match read_string(kind, members, Name::Id) {
            Ok(id) => id,
            Err(e) => {
                return Err(e);
            },
        };
        let address = match read_string(kind, members, Name::Address) {
            Ok(address) => address,
            Err(e) => {
                return Err(e);
            },
        };
        match read_type(kind, members, Name::BorrowType) {
            Ok(borrow_type) => Ok(
                CadenceValue::Capability { value: CapabilityValue { id, address, borrow_type } },
            ),
            Err(e) => Err(e),
        }
    } else {
        match read_type(kind, members, Name::FunctionType) {
            Ok(function_type) => Ok(
                CadenceValue::Function { value: FunctionValue { function_type } },
            ),
            Err(e) => Err(e),
        }
    }
}

/// Decodes the entries of a dictionary payload, in order, up to the first
/// that fails.
fn decode_entries(entries: &Vec<Json>) -> (r: Result<CadenceValue, CadenceError>)
    ensures
        match r {
            Ok(v) => collect(decode_each_entry(items_view(entries@)))
                == Ok::<_, ErrorModel>(v@->Dictionary_0) && v@ is Dictionary,
            Err(e) => collect(decode_each_entry(items_view(entries@)))
                == Err::<Seq<(ValueModel, ValueModel)>, ErrorModel>(e@),
        },
    decreases entries, 1nat,
{
    let ghost rs = decode_each_entry(items_view(entries@));
    let mut out: Vec<DictionaryEntry> = Vec::with_capacity(entries.len());
    let mut i: usize = 0;
    while i < entries.len()
        invariant
            i <= entries@.len(),
            out@.len() == i,
            rs == decode_each_entry(items_view(entries@)),
            forall|j: int|
                0 <= j < i ==> (#[trigger] rs[j]) == Ok::<(ValueModel, ValueModel), ErrorModel>(
                    (out@[j].key@, out@[j].value@),
                ),
        decreases entries@.len() - i,
    {
        match decode_one_entry(&entries[i]) {
            Ok(entry) => {
                out.push(entry);
            },
            Err(e) => {
                proof {
                    lemma_collect_err(rs, i as int);
                }
                return Err(e);
            },
        }
        i += 1;
    }
    proof {
        lemma_collect_ok(rs);
        assert(collect(rs)->Ok_0 =~= entries_view(out@));
        crate::value::lemma_view_dictionary(out);
    }
    Ok(CadenceValue::Dictionary { value: out })
}

/// Decodes one entry of a dictionary payload.
fn decode_one_entry(entry: &Json) -> (r: Result<DictionaryEntry, CadenceError>)
    ensures
        match r {
            Ok(d) => decode_entry(entry@) == Ok::<_, ErrorModel>((d.key@, d.value@)),
            Err(e) => decode_entry(entry@) == Err::<(ValueModel, ValueModel), ErrorModel>(e@),
        },
    decreases entry, 1nat,
{
    match entry {
        Json::Object(members) => {
            proof {
                lemma_view_object(*members);
            }
            let k = match find_member(members, "key") {
                Some(k) => k,
                None => {
                    return Err(
                        CadenceError::DecodeShapeError {
                            kind: Kind::Dictionary,
                            expected: Expected::EntryKey,
                        },
                    );
                },
            };
            let v = match find_member(members, "value") {
                Some(v) => v,
                None => {
                    return Err(
                        CadenceError::DecodeShapeError {
                            kind: Kind::Dictionary,
                            expected: Expected::EntryValue,
                        },
                    );
                },
            };
            let key = match value_to_cadence_value(&members[k].value) {
                Ok(key) => key,
                Err(e) => {
                    return Err(e);
                },
            };
            let value = match value_to_cadence_value(&members[v].value) {
                Ok(value) => value,
                Err(e) => {
                    return Err(e);
                },
            };
            Ok(DictionaryEntry { key, value })
        },
        _ => Err(
            CadenceError::DecodeShapeError {
                kind: Kind::Dictionary,
                expected: Expected::EntryObject,
            },
        ),
    }
}

/// Decodes the payload of a composite of kind `kind`.
fn decode_composite_payload(kind: Kind, members: &Vec<JsonMember>) -> (r: Result<
    CompositeValue,
    CadenceError,
>)
    ensures
        match r {
            Ok(c) => decode_composite(kind, members_view(members@))
                == Ok::<_, ErrorModel>(composite_view(kind, c)),
            Err(e) => decode_composite(kind, members_view(members@))
                == Err::<ValueModel, ErrorModel>(e@),
        },
    decreases members, 2nat,
{
    let i = match find_member(members, "id") {
        Some(i) => i,
        None => {
            return Err(CadenceError::DecodeShapeError { kind, expected: Expected::Id });
        },
    };
    let id = match &members[i].value {
        Json::String(s) => s.clone(),
        _ => {
            return Err(CadenceError::DecodeShapeError { kind, expected: Expected::IdString });
        },
    };
    let f = match find_member(members, "fields") {
        Some(f) => f,
        None => {
            return Err(CadenceError::DecodeShapeError { kind, expected: Expected::Fields });
        },
    };
    match &members[f].value {
        Json::Array(fields) => {
            proof {
                lemma_view_array(*fields);
            }
            match decode_fields(kind, fields) {
                Ok(decoded) => Ok(CompositeValue { id, fields: decoded }),
                Err(e) => Err(e),
            }
        },
        _ => Err(CadenceError::DecodeShapeError { kind, expected: Expected::FieldsArray }),
    }
}

/// Decodes the fields of a composite payload, in order, up to the first that
/// fails.
fn decode_fields(kind: Kind, fields: &Vec<Json>) -> (r: Result<Vec<CompositeField>, CadenceError>)
    ensures
        match r {
            Ok(fs) => collect(decode_each_field(kind, items_view(fields@)))
                == Ok::<_, ErrorModel>(fields_view(fs@)),
            Err(e) => collect(decode_each_field(kind, items_view(fields@)))
                == Err::<Seq<(Seq<char>, ValueModel)>, ErrorModel>(e@),
        },
    decreases fields, 1nat,
{
    let ghost rs = decode_each_field(kind, items_view(fields@));
    let mut out: Vec<CompositeField> = Vec::with_capacity(fields.len());
    let mut i: usize = 0;
    while i < fields.len()
        invariant
            i <= fields@.len(),
            out@.len() == i,
            rs == decode_each_field(kind, items_view(fields@)),
            forall|j: int|
                0 <= j < i ==> (#[trigger] rs[j]) == Ok::<(Seq<char>, ValueModel), ErrorModel>(
                    (out@[j].name@, out@[j].value@),
                ),
        decreases fields@.len() - i,
    {
        match decode_one_field(kind, &fields[i]) {
            Ok(field) => {
                out.push(field);
            },
            Err(e) => {
                proof {
                    lemma_collect_err(rs, i as int);
                }
                return Err(e);
            },
        }
        i += 1;
    }
    proof {
        lemma_collect_ok(rs);
        assert(collect(rs)->Ok_0 =~= fields_view(out@));
    }
    Ok(out)
}

/// Decodes one field of a composite payload.
fn decode_one_field(kind: Kind, field: &Json) -> (r: Result<CompositeField, CadenceError>)
    ensures
        match r {
            Ok(f) => decode_field(kind, field@) == Ok::<_, ErrorModel>((f.name@, f.value@)),
            Err(e) => decode_field(kind, field@) == Err::<(Seq<char>, ValueModel), ErrorModel>(e@),
        },
    decreases field, 1nat,
{
    match field {
        Json::Object(members) => {
            proof {
                lemma_view_object(*members);
            }
            let n = match find_member(members, "name") {
                Some(n) => n,
                None => {
                    return Err(
                        CadenceError::DecodeShapeError { kind, expected: Expected::FieldName },
                    );
                },
            };
            let name = match &members[n].value {
                Json::String(s) => s.clone(),
                _ => {
                    return Err(
                        CadenceError::DecodeShapeError {
                            kind,
                            expected: Expected::FieldNameString,
                        },
                    );
                },
            };
            let v = match find_member(members, "value") {
                Some(v) => v,
                None => {
                    return Err(
                        CadenceError::DecodeShapeError { kind, expected: Expected::FieldValue },
                    );
                },
            };
            match value_to_cadence_value(&members[v].value) {
                Ok(value) => Ok(CompositeField { name, value }),
                Err(e) => Err(e),
            }
        },
        _ => Err(CadenceError::DecodeShapeError { kind, expected: Expected::FieldObject }),
    }
}

/// Builds the object with the two members `first` and `second`, in that
/// order.
fn object_of_two(first: &str, a: Json, second: &str, b: Json) -> (r: Json)
    ensures
        r@ == JsonModel::Object(seq![(first@, a@), (second@, b@)]),
{
    let mut members: Vec<JsonMember> = Vec::with_capacity(2);
    members.push(JsonMember { name: String::from_str(first), value: a });
    members.push(JsonMember { name: String::from_str(second), value: b });
    proof {
        lemma_view_object(members);
        assert(members_view(members@) =~= seq![(first@, a@), (second@, b@)]);
    }
    Json::Object(members)
}

/// Puts `payload` in the envelope of kind `kind`.
fn enveloped(kind: Kind, payload: Json) -> (r: Json)
    ensures
        r@ == envelope(kind, payload@),
{
    object_of_two("type", Json::String(String::from_str(kind.name())), "value", payload)
}

/// Encodes a value of the value model as a JSON tree: the exact inverse of
/// decoding, kind by kind. A value of the type-descriptor family has no
/// encoding and is refused.
pub fn cadence_value_to_value(cadence_value: &CadenceValue) -> (r: Result<Json, CadenceError>)
    ensures
        outcome(r) == encode(cadence_value@),
    decreases cadence_value, 1nat,
{
    match cadence_value {
        CadenceValue::Void {  } => Ok(enveloped(Kind::Void, Json::Null)),
        CadenceValue::Optional { value } => match value {
            Some(inner) => match cadence_value_to_value(inner) {
                Ok(tree) => Ok(enveloped(Kind::Optional, tree)),
                Err(e) => Err(e),
            },
            None => Ok(enveloped(Kind::Optional, Json::Null)),
        },
        CadenceValue::Bool { value } => Ok(enveloped(Kind::Bool, Json::Bool(*value))),
        CadenceValue::String { value }
        | CadenceValue::Address { value }
        | CadenceValue::Int { value }
        | CadenceValue::Int8 { value }
        | CadenceValue::Int16 { value }
        | CadenceValue::Int32 { value }
        | CadenceValue::Int64 { value }
        | CadenceValue::Int128 { value }
        | CadenceValue::Int256 { value }
        | CadenceValue::UInt { value }
        | CadenceValue::UInt8 { value }
        | CadenceValue::UInt16 { value }
        | CadenceValue::UInt32 { value }
        | CadenceValue::UInt64 { value }
        | CadenceValue::UInt128 { value }
        | CadenceValue::UInt256 { value }
        | CadenceValue::Word8 { value }
        | CadenceValue::Word16 { value }
        | CadenceValue::Word32 { value }
        | CadenceValue::Word64 { value }
        | CadenceValue::Word128 { value }
        | CadenceValue::Word256 { value }
        | CadenceValue::Fix64 { value }
        | CadenceValue::UFix64 { value } => Ok(
            enveloped(cadence_value.kind(), Json::String(value.clone())),
        ),
        CadenceValue::Array { value } => {
            proof {
                crate::value::lemma_view_array(*value);
            }
            match encode_items(value) {
                Ok(trees) => {
                    proof {
                        lemma_view_array(trees);
                    }
                    Ok(enveloped(Kind::Array, Json::Array(trees)))
                },
                Err(e) => Err(e),
            }
        },
        CadenceValue::Dictionary { value } => {
            proof {
                crate::value::lemma_view_dictionary(*value);
            }
            match encode_entries(value) {
                Ok(trees) => {
                    proof {
                        lemma_view_array(trees);
                    }
                    Ok(enveloped(Kind::Dictionary, Json::Array(trees)))
                },
                Err(e) => Err(e),
            }
        },
        CadenceValue::Struct { value }
        | CadenceValue::Resource { value }
        | CadenceValue::Event { value }
        | CadenceValue::Contract { value }
        | CadenceValue::Enum { value } => {
            proof {
                crate::value::lemma_view_composite(*value);
            }
            match encode_fields(&value.fields) {
                Ok(trees) => {
                    proof {
                        lemma_view_array(trees);
                    }
                    Ok(
                        enveloped(
                            cadence_value.kind(),
                            object_of_two(
                                "id",
                                Json::String(value.id.clone()),
                                "fields",
                                Json::Array(trees),
                            ),
                        ),
                    )
                },
                Err(e) => Err(e),
            }
        },
        _ => Err(CadenceError::UnsupportedType(cadence_value.kind())),
    }
}

/// Encodes the items of an array, in order, up to the first that fails.
fn encode_items(items: &Vec<CadenceValue>) -> (r: Result<Vec<Json>, CadenceError>)
    ensures
        match r {
            Ok(trees) => collect(encode_each(values_view(items@))) == Ok::<_, ErrorModel>(
                items_view(trees@),
            ),
            Err(e) => collect(encode_each(values_view(items@))) == Err::<Seq<JsonModel>, _>(e@),
        },
    decreases items, 0nat,
{
    let ghost rs = encode_each(values_view(items@));
    let mut out: Vec<Json> = Vec::with_capacity(items.len());
    let mut i: usize = 0;
    while i < items.len()
        invariant
            i <= items@.len(),
            out@.len() == i,
            rs == encode_each(values_view(items@)),
            forall|j: int| 0 <= j < i ==> (#[trigger] rs[j]) is Ok && rs[j]->Ok_0 == out@[j]@,
        decreases items@.len() - i,
    {
        match cadence_value_to_value(&items[i]) {
            Ok(tree) => {
                out.push(tree);
            },
            Err(e) => {
                proof {
                    lemma_collect_err(rs, i as int);
                }
                return Err(e);
            },
        }
        i += 1;
    }
    proof {
        lemma_collect_ok(rs);
        assert(collect(rs)->Ok_0 =~= items_view(out@));
    }
    Ok(out)
}

/// Encodes the entries of a dictionary, in order, up to the first that fails.
fn encode_entries(entries: &Vec<DictionaryEntry>) -> (r: Result<Vec<Json>, CadenceError>)
    ensures
        match r {
            Ok(trees) => collect(encode_each_entry(entries_view(entries@))) == Ok::<
                _,
                ErrorModel,
            >(items_view(trees@)),
            Err(e) => collect(encode_each_entry(entries_view(entries@))) == Err::<
                Seq<JsonModel>,
                _,
            >(e@),
        },
    decreases entries, 0nat,
{
    let ghost rs = encode_each_entry(entries_view(entries@));
    let mut out: Vec<Json> = Vec::with_capacity(entries.len());
    let mut i: usize = 0;
    while i < entries.len()
        invariant
            i <= entries@.len(),
            out@.len() == i,
            rs == encode_each_entry(entries_view(entries@)),
            forall|j: int| 0 <= j < i ==> (#[trigger] rs[j]) is Ok && rs[j]->Ok_0 == out@[j]@,
        decreases entries@.len() - i,
    {
        let key = match cadence_value_to_value(&entries[i].key) {
            Ok(key) => key,
            Err(e) => {
                proof {
                    lemma_collect_err(rs, i as int);
                }
                return Err(e);
            },
        };
        let value = match cadence_value_to_value(&entries[i].value) {
            Ok(value) => value,
            Err(e) => {
                proof {
                    lemma_collect_err(rs, i as int);
                }
                return Err(e);
            },
        };
        out.push(object_of_two("key", key, "value", value));
        i += 1;
    }
    proof {
        lemma_collect_ok(rs);
        assert(collect(rs)->Ok_0 =~= items_view(out@));
    }
    Ok(out)
}

/// Encodes the fields of a composite, in order, up to the first that fails.
fn encode_fields(fields: &Vec<CompositeField>) -> (r: Result<Vec<Json>, CadenceError>)
    ensures
        match r {
            Ok(trees) => collect(encode_each_field(fields_view(fields@))) == Ok::<_, ErrorModel>(
                items_view(trees@),
            ),
            Err(e) => collect(encode_each_field(fields_view(fields@))) == Err::<
                Seq<JsonModel>,
                _,
            >(e@),
        },
    decreases fields, 0nat,
{
    let ghost rs = encode_each_field(fields_view(fields@));
    let mut out: Vec<Json> = Vec::with_capacity(fields.len());
    let mut i: usize = 0;
    while i < fields.len()
        invariant
            i <= fields@.len(),
            out@.len() == i,
            rs == encode_each_field(fields_view(fields@)),
            forall|j: int| 0 <= j < i ==> (#[trigger] rs[j]) is Ok && rs[j]->Ok_0 == out@[j]@,
        decreases fields@.len() - i,
    {
        match cadence_value_to_value(&fields[i].value) {
            Ok(value) => {
                out.push(
                    object_of_two(
                        "name",
                        Json::String(fields[i].name.clone()),
                        "value",
                        value,
                    ),
                );
            },
            Err(e) => {
                proof {
                    lemma_collect_err(rs, i as int);
                }
                return Err(e);
            },
        }
        i += 1;
    }
    proof {
        lemma_collect_ok(rs);
        assert(collect(rs)->Ok_0 =~= items_view(out@));
    }
    Ok(out)
}

} // verus!
