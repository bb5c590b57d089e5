//! The fallback bridge: numeric widening, primitive unwrapping, and the
//! tree from which a native type without a binding of its own is
//! materialized.

use vstd::prelude::*;
use vstd::string::StringExecFns;
use crate::conversion::cadence_value_to_value;
use crate::error::{outcome, CadenceError, ErrorModel};
use crate::json::{
    clone_members, find, find_from, find_member, items_view, lemma_find_from, lemma_view_array,
    lemma_view_object, members_view, Json, JsonMember, JsonModel, JsonNumber,
};
use crate::kind::Kind;
use crate::laws::lemma_encode_writable;
use crate::text::{
    contains, is_fixed_numeral, parse_bounded, parse_integer, starts_with, str_eq, text_contains,
    text_is_fixed_numeral, text_starts_with,
};
use crate::transcode::encode;
use crate::value::{
    entries_view, fields_view, lemma_view_composite, lemma_view_dictionary, CadenceValue,
    CompositeField, DictionaryEntry, ValueModel,
};
use crate::wire::{print, printed, value_from_tree};

verus! {

/// The members of an object with the value of the member at `at` replaced.
pub open spec fn with_value(members: Seq<(Seq<char>, JsonModel)>, at: int, value: JsonModel) -> Seq<
    (Seq<char>, JsonModel),
> {
    members.update(at, (members[at].0, value))
}

/// The number that the decimal string of an integer kind widens to, if it
/// writes one that a native integer holds: one of 64 bits, signed for the
/// signed kinds and unsigned for the others.
pub open spec fn native_integer(kind: Kind, s: Seq<char>) -> Option<int> {
    if kind.is_signed_integer() {
        parse_bounded(s, true, -0x8000_0000_0000_0000, 0x7fff_ffff_ffff_ffff)
    } else {
        parse_bounded(s, false, 0, 0xffff_ffff_ffff_ffff)
    }
}

/// A tree with its numbers widened.
///
/// In every envelope of an integer kind whose payload is a decimal string
/// that a native integer holds, the string is replaced by the number; in
/// every envelope of a fixed-point kind whose payload is written as the wire
/// format writes fixed-point numbers, by the number with that text. The
/// widening reaches through arrays, through the items of an `Array`
/// envelope, the keys and values of a `Dictionary` envelope, the field values
/// of a composite envelope, the payload of any other envelope, and every
/// member but `"type"` of an object that is no envelope. All else stays as
/// it is.
pub open spec fn widen(tree: JsonModel) -> JsonModel
    decreases tree, 0nat,
{
    match tree {
        JsonModel::Array(items) => JsonModel::Array(widen_each(items)),
        JsonModel::Object(members) => match (find(members, "type"@), find(members, "value"@)) {
            (Some(t), Some(v)) => if 0 <= t < members.len() && 0 <= v < members.len() {
                match members[t].1 {
                    JsonModel::String(tag) => JsonModel::Object(
                        with_value(members, v, widen_payload(tag, members[v].1)),
                    ),
                    _ => JsonModel::Object(widen_members(members)),
                }
            } else {
                JsonModel::Object(widen_members(members))
            },
            _ => JsonModel::Object(widen_members(members)),
        },
        _ => tree,
    }
}

/// Each item of an array, widened.
pub open spec fn widen_each(items: Seq<JsonModel>) -> Seq<JsonModel>
    decreases items, 0nat,
{
    Seq::new(
        items.len(),
        |i: int|
            if 0 <= i < items.len() {
                widen(items[i])
            } else {
                arbitrary()
            },
    )
}

/// The members of an object that is no envelope, each but `"type"` widened.
pub open spec fn widen_members(members: Seq<(Seq<char>, JsonModel)>) -> Seq<
    (Seq<char>, JsonModel),
>
    decreases members, 0nat,
{
    Seq::new(
        members.len(),
        |i: int|
            if 0 <= i < members.len() {
                if members[i].0 == "type"@ {
                    members[i]
                } else {
                    (members[i].0, widen(members[i].1))
                }
            } else {
                arbitrary()
            },
    )
}

/// The payload of an envelope whose `"type"` is `tag`, widened.
pub open spec fn widen_payload(tag: Seq<char>, payload: JsonModel) -> JsonModel
    decreases payload, 1nat,
{
    match Kind::named(tag) {
        None => widen(payload),
        Some(kind) => if kind.is_integer() {
            match payload {
                JsonModel::String(s) => match native_integer(kind, s) {
                    Some(n) => JsonModel::Int(n),
                    None => payload,
                },
                _ => payload,
            }
        } else if kind.is_fixed_point() {
            match payload {
                JsonModel::String(s) => if is_fixed_numeral(s) {
                    JsonModel::Float(s)
                } else {
                    payload
                },
                _ => payload,
            }
        } else if kind.is_composite() {
            match payload {
                JsonModel::Object(inner) => match find(inner, "fields"@) {
                    Some(f) => if 0 <= f < inner.len() {
                        match inner[f].1 {
                            JsonModel::Array(fields) => JsonModel::Object(
                                with_value(inner, f, JsonModel::Array(widen_each_field(fields))),
                            ),
                            _ => payload,
                        }
                    } else {
                        payload
                    },
                    None => payload,
                },
                _ => payload,
            }
        } else if kind == Kind::Array {
            match payload {
                JsonModel::Array(items) => JsonModel::Array(widen_each(items)),
                _ => payload,
            }
        } else if kind == Kind::Dictionary {
            match payload {
                JsonModel::Array(entries) => JsonModel::Array(widen_each_entry(entries)),
                _ => payload,
            }
        } else {
            widen(payload)
        },
    }
}

/// Each field of a composite payload, with the value of its `"value"`
/// member widened.
pub open spec fn widen_each_field(fields: Seq<JsonModel>) -> Seq<JsonModel>
    decreases fields, 0nat,
{
    Seq::new(
        fields.len(),
        |i: int|
            if 0 <= i < fields.len() {
                match fields[i] {
                    JsonModel::Object(members) => match find(members, "value"@) {
                        Some(v) => if 0 <= v < members.len() {
                            JsonModel::Object(with_value(members, v, widen(members[v].1)))
                        } else {
                            fields[i]
                        },
                        None => fields[i],
                    },
                    _ => fields[i],
                }
            } else {
                arbitrary()
            },
    )
}

/// Each entry of a dictionary payload, with the values of its `"key"` and
/// `"value"` members widened.
pub open spec fn widen_each_entry(entries: Seq<JsonModel>) -> Seq<JsonModel>
    decreases entries, 0nat,
{
    Seq::new(
        entries.len(),
        |i: int|
            if 0 <= i < entries.len() {
                match entries[i] {
                    JsonModel::Object(members) => {
                        let keyed = match find(members, "key"@) {
                            Some(k) => if 0 <= k < members.len() {
                                with_value(members, k, widen(members[k].1))
                            } else {
                                members
                            },
                            None => members,
                        };
                        match find(members, "value"@) {
                            Some(v) => if 0 <= v < members.len() {
                                JsonModel::Object(with_value(keyed, v, widen(members[v].1)))
                            } else {
                                JsonModel::Object(keyed)
                            },
                            None => JsonModel::Object(keyed),
                        }
                    },
                    _ => entries[i],
                }
            } else {
                arbitrary()
            },
    )
}

/// A tree with a primitive payload unwrapped: an envelope whose payload is a
/// string, a number, a boolean or `null` gives way to that payload; every
/// other tree stays as it is.
pub open spec fn unwrap_primitive(tree: JsonModel) -> JsonModel {
    match tree {
        JsonModel::Object(members) => match (find(members, "type"@), find(members, "value"@)) {
            (Some(t), Some(v)) => if members[t].1 is String && members[v].1.is_primitive() {
                members[v].1
            } else {
                tree
            },
            _ => tree,
        },
        _ => tree,
    }
}

/// Copies the members of an object, with the value of the member at `at`
/// replaced by `value`.
fn replace_value(members: &Vec<JsonMember>, at: usize, value: Json) -> (r: Vec<JsonMember>)
    requires
        at < members@.len(),
    ensures
        members_view(r@) == with_value(members_view(members@), at as int, value@),
        r@.len() == members@.len(),
{
    let mut out: Vec<JsonMember> = Vec::with_capacity(members.len());
    let mut i: usize = 0;
    while i < at
        invariant
            i <= at < members@.len(),
            out@.len() == i,
            forall|j: int|
                0 <= j < i ==> (#[trigger] out@[j]).name@ == members@[j].name@ && out@[j].value@
                    == members@[j].value@,
        decreases at - i,
    {
        out.push(members[i].clone());
        i += 1;
    }
    out.push(JsonMember { name: members[at].name.clone(), value });
    i += 1;
    while i < members.len()
        invariant
            at < i <= members@.len(),
            out@.len() == i,
            out@[at as int].name@ == members@[at as int].name@,
            out@[at as int].value@ == value@,
            forall|j: int|
                0 <= j < i && j != at ==> (#[trigger] out@[j]).name@ == members@[j].name@
                    && out@[j].value@ == members@[j].value@,
        decreases members@.len() - i,
    {
        out.push(members[i].clone());
        i += 1;
    }
    proof {
        assert(members_view(out@) =~= with_value(members_view(members@), at as int, value@));
    }
    out
}

/// Widens the numbers of a tree.
///
/// A decimal string under an envelope of an integer kind becomes the number
/// it writes, where a native integer of 64 bits holds it; one under an
/// envelope of a fixed-point kind becomes the number with that text, where
/// it is written as the wire format writes fixed-point numbers. The widening
/// reaches through arrays, dictionaries and composites; all else is copied
/// as it is.
pub fn process_numeric_values(value: &Json) -> (r: Json)
    ensures
        r@ == widen(value@),
    decreases value, 0nat,
{
    match value {
        Json::Array(items) => {
            let out = widen_items(items);
            proof {
                lemma_view_array(*items);
                lemma_view_array(out);
            }
            Json::Array(out)
        },
        Json::Object(members) => {
            proof {
                lemma_view_object(*members);
            }
            let out = match find_member(members, "type") {
                Some(t) => match find_member(members, "value") {
                    Some(v) => match &members[t].value {
                        Json::String(tag) => {
                            let payload = widen_tagged(tag.as_str(), &members[v].value);
                            replace_value(members, v, payload)
                        },
                        _ => widen_plain_members(members),
                    },
                    None => widen_plain_members(members),
                },
                None => widen_plain_members(members),
            };
            proof {
                lemma_view_object(out);
            }
            Json::Object(out)
        },
        _ => value.clone(),
    }
}

/// Widens each item of an array.
fn widen_items(items: &Vec<Json>) -> (r: Vec<Json>)
    ensures
        items_view(r@) == widen_each(items_view(items@)),
    decreases items, 0nat,
{
    let mut out: Vec<Json> = Vec::with_capacity(items.len());
    let mut i: usize = 0;
    while i < items.len()
        invariant
            i <= items@.len(),
            out@.len() == i,
            forall|j: int| 0 <= j < i ==> (#[trigger] out@[j])@ == widen(items@[j]@),
        decreases items@.len() - i,
    {
        out.push(process_numeric_values(&items[i]));
        i += 1;
    }
    proof {
        assert(items_view(out@) =~= widen_each(items_view(items@)));
    }
    out
}

/// Widens each member but `"type"` of an object that is no envelope.
fn widen_plain_members(members: &Vec<JsonMember>) -> (r: Vec<JsonMember>)
    ensures
        members_view(r@) == widen_members(members_view(members@)),
    decreases members, 0nat,
{
    let mut out: Vec<JsonMember> = Vec::with_capacity(members.len());
    let mut i: usize = 0;
    while i < members.len()
        invariant
            i <= members@.len(),
            out@.len() == i,
            forall|j: int|
                0 <= j < i ==> (#[trigger] out@[j]).name@ == members@[j].name@ && out@[j].value@
                    == widen_members(members_view(members@))[j].1,
        decreases members@.len() - i,
    {
        let name = members[i].name.clone();
        let payload = if str_eq(name.as_str(), "type") {
            members[i].value.clone()
        } else {
            process_numeric_values(&members[i].value)
        };
        out.push(JsonMember { name, value: payload });
        i += 1;
    }
    proof {
        assert(members_view(out@) =~= widen_members(members_view(members@)));
    }
    out
}

/// The number that a native integer of the width for `kind` reads from `s`,
/// if it reads one.
fn read_native_integer(kind: Kind, s: &str) -> (r: Option<JsonNumber>)
    ensures
        match r {
            Some(n) => n@ is Int && native_integer(kind, s@) == Some(n@->Int_0),
            None => native_integer(kind, s@) is None,
        },
{
    if kind.signed_integer() {
        match parse_integer(s, true, -0x8000_0000_0000_0000, 0x7fff_ffff_ffff_ffff) {
            Some(n) => if n >= 0 {
                Some(JsonNumber::PosInt(n as u64))
            } else {
                Some(JsonNumber::NegInt(n as i64))
            },
            None => None,
        }
    } else {
        match parse_integer(s, false, 0, 0xffff_ffff_ffff_ffff) {
            Some(n) => Some(JsonNumber::PosInt(n as u64)),
            None => None,
        }
    }
}

/// Widens the payload of an envelope whose `"type"` is `tag`.
fn widen_tagged(tag: &str, payload: &Json) -> (r: Json)
    ensures
        r@ == widen_payload(tag@, payload@),
    decreases payload, 1nat,
{
    let kind = match Kind::from_name(tag) {
        Some(kind) => kind,
        None => {
            return process_numeric_values(payload);
        },
    };
    if kind.integer() {
        match payload {
            Json::String(s) => match read_native_integer(kind, s.as_str()) {
                Some(n) => Json::Number(n),
                None => payload.clone(),
            },
            _ => payload.clone(),
        }
    } else if kind.fixed_point() {
        match payload {
            Json::String(s) => if text_is_fixed_numeral(s.as_str()) {
                Json::Number(JsonNumber::Float(s.clone()))
            } else {
                payload.clone()
            },
            _ => payload.clone(),
        }
    } else if kind.composite() {
        match payload {
            Json::Object(inner) => {
                proof {
                    lemma_view_object(*inner);
                }
                match find_member(inner, "fields") {
                    Some(f) => match &inner[f].value {
                        Json::Array(fields) => {
                            let widened = widen_fields(fields);
                            proof {
                                lemma_view_array(*fields);
                                lemma_view_array(widened);
                            }
                            let out = replace_value(inner, f, Json::Array(widened));
                            proof {
                                lemma_view_object(out);
                            }
                            Json::Object(out)
                        },
                        _ => payload.clone(),
                    },
                    None => payload.clone(),
                }
            },
            _ => payload.clone(),
        }
    } else if kind == Kind::Array {
        match payload {
            Json::Array(items) => {
                let out = widen_items(items);
                proof {
                    lemma_view_array(*items);
                    lemma_view_array(out);
                }
                Json::Array(out)
            },
            _ => payload.clone(),
        }
    } else if kind == Kind::Dictionary {
        match payload {
            Json::Array(entries) => {
                let out = widen_entries(entries);
                proof {
                    lemma_view_array(*entries);
                    lemma_view_array(out);
                }
                Json::Array(out)
            },
            _ => payload.clone(),
        }
    } else {
        process_numeric_values(payload)
    }
}

/// Widens the value of each field of a composite payload.
fn widen_fields(fields: &Vec<Json>) -> (r: Vec<Json>)
    ensures
        items_view(r@) == widen_each_field(items_view(fields@)),
    decreases fields, 1nat,
{
    let mut out: Vec<Json> = Vec::with_capacity(fields.len());
    let mut i: usize = 0;
    while i < fields.len()
        invariant
            i <= fields@.len(),
            out@.len() == i,
            forall|j: int|
                0 <= j < i ==> (#[trigger] out@[j])@ == widen_each_field(items_view(fields@))[j],
        decreases fields@.len() - i,
    {
        out.push(widen_field(&fields[i]));
        i += 1;
    }
    proof {
        assert(items_view(out@) =~= widen_each_field(items_view(fields@)));
    }
    out
}

/// Widens the value of one field of a composite payload.
fn widen_field(field: &Json) -> (r: Json)
    ensures
        r@ == widen_each_field(seq![field@])[0],
    decreases field, 0nat,
{
    match field {
        Json::Object(members) => {
            proof {
                lemma_view_object(*members);
            }
            match find_member(members, "value") {
                Some(v) => {
                    let widened = process_numeric_values(&members[v].value);
                    let out = replace_value(members, v, widened);
                    proof {
                        lemma_view_object(out);
                    }
                    Json::Object(out)
                },
                None => field.clone(),
            }
        },
        _ => field.clone(),
    }
}

/// Widens the key and the value of each entry of a dictionary payload.
fn widen_entries(entries: &Vec<Json>) -> (r: Vec<Json>)
    ensures
        items_view(r@) == widen_each_entry(items_view(entries@)),
    decreases entries, 1nat,
{
    let mut out: Vec<Json> = Vec::with_capacity(entries.len());
    let mut i: usize = 0;
    while i < entries.len()
        invariant
            i <= entries@.len(),
            out@.len() == i,
            forall|j: int|
                0 <= j < i ==> (#[trigger] out@[j])@ == widen_each_entry(items_view(entries@))[j],
        decreases entries@.len() - i,
    {
        out.push(widen_entry(&entries[i]));
        i += 1;
    }
    proof {
        assert(items_view(out@) =~= widen_each_entry(items_view(entries@)));
    }
    out
}

/// Widens the key and the value of one entry of a dictionary payload.
fn widen_entry(entry: &Json) -> (r: Json)
    ensures
        r@ == widen_each_entry(seq![entry@])[0],
    decreases entry, 0nat,
{
    match entry {
        Json::Object(members) => {
            proof {
                lemma_view_object(*members);
            }
            let keyed = match find_member(members, "key") {
                Some(k) => {
                    let widened = process_numeric_values(&members[k].value);
                    replace_value(members, k, widened)
                },
                None => clone_members(members),
            };
            let out = match find_member(members, "value") {
                Some(v) => {
                    let widened = process_numeric_values(&members[v].value);
                    replace_value(&keyed, v, widened)
                },
                None => keyed,
            };
            proof {
                lemma_view_object(out);
            }
            Json::Object(out)
        },
        _ => entry.clone(),
    }
}

/// Unwraps a primitive payload: an envelope whose payload is a string, a
/// number, a boolean or `null` gives way to a copy of that payload; every
/// other tree is copied as it is.
pub fn extract_primitive_value(value: &Json) -> (r: Json)
    ensures
        r@ == unwrap_primitive(value@),
{
    match value {
        Json::Object(members) => {
            proof {
                lemma_view_object(*members);
            }
            match find_member(members, "type") {
                Some(t) => match find_member(members, "value") {
                    Some(v) => match &members[t].value {
                        Json::String(_) => match &members[v].value {
                            Json::String(_) | Json::Number(_) | Json::Bool(_) | Json::Null => {
                                members[v].value.clone()
                            },
                            _ => value.clone(),
                        },
                        _ => value.clone(),
                    },
                    None => value.clone(),
                },
                None => value.clone(),
            }
        },
        _ => value.clone(),
    }
}

/// What the fallback bridge knows of the native type that a value is to be
/// materialized as.
#[derive(Debug, Clone, Copy, PartialEq, Eq)]
pub struct Target {
    /// The type is a native map.
    pub map: bool,
    /// The type is a native integer: the one that this kind stands for.
    pub integer: Option<Kind>,
    /// The type is taken for a record: its name holds `::` and does not begin
    /// with `std::`. Only a struct is handed to it field by field.
    pub record: bool,
}

impl Target {
    /// What the name of a native type tells of it: a name that holds
    /// `HashMap` or `BTreeMap` is a map's; one of the names of the native
    /// integers is that integer's; one that holds `::` and does not begin
    /// with `std::` is a record's.
    pub open spec fn named(name: Seq<char>) -> Target {
        Target {
            map: contains(name, "HashMap"@) || contains(name, "BTreeMap"@),
            integer: if name == "i8"@ {
                Some(Kind::Int8)
            } else if name == "i16"@ {
                Some(Kind::Int16)
            } else if name == "i32"@ {
                Some(Kind::Int32)
            } else if name == "i64"@ {
                Some(Kind::Int64)
            } else if name == "i128"@ {
                Some(Kind::Int128)
            } else if name == "u8"@ {
                Some(Kind::UInt8)
            } else if name == "u16"@ {
                Some(Kind::UInt16)
            } else if name == "u32"@ {
                Some(Kind::UInt32)
            } else if name == "u64"@ {
                Some(Kind::UInt64)
            } else if name == "u128"@ {
                Some(Kind::UInt128)
            } else {
                None
            },
            record: contains(name, "::"@) && !starts_with(name, "std::"@),
        }
    }

    /// Reads from the name of a native type what the bridge needs to know of
    /// it.
    pub fn of_name(name: &str) -> (r: Target)
        ensures
            r == Target::named(name@),
    {
        let integer = if str_eq(name, "i8") {
            Some(Kind::Int8)
        } else if str_eq(name, "i16") {
            Some(Kind::Int16)
        } else if str_eq(name, "i32") {
            Some(Kind::Int32)
        } else if str_eq(name, "i64") {
            Some(Kind::Int64)
        } else if str_eq(name, "i128") {
            Some(Kind::Int128)
        } else if str_eq(name, "u8") {
            Some(Kind::UInt8)
        } else if str_eq(name, "u16") {
            Some(Kind::UInt16)
        } else if str_eq(name, "u32") {
            Some(Kind::UInt32)
        } else if str_eq(name, "u64") {
            Some(Kind::UInt64)
        } else if str_eq(name, "u128") {
            Some(Kind::UInt128)
        } else {
            None
        };
        Target {
            map: text_contains(name, "HashMap") || text_contains(name, "BTreeMap"),
            integer,
            record: text_contains(name, "::") && !text_starts_with(name, "std::"),
        }
    }
}

/// The least and the greatest value of the native integer that `kind` stands
/// for, where it stands for one.
pub open spec fn native_range(kind: Kind) -> Option<(int, int)> {
    match kind {
        Kind::Int8 => Some((-0x80int, 0x7fint)),
        Kind::Int16 => Some((-0x8000int, 0x7fffint)),
        Kind::Int32 => Some((-0x8000_0000int, 0x7fff_ffffint)),
        Kind::Int64 => Some((-0x8000_0000_0000_0000int, 0x7fff_ffff_ffff_ffffint)),
        Kind::Int128 => Some(
            (
                -0x8000_0000_0000_0000_0000_0000_0000_0000int,
                0x7fff_ffff_ffff_ffff_ffff_ffff_ffff_ffffint,
            ),
        ),
        Kind::UInt8 => Some((0int, 0xffint)),
        Kind::UInt16 => Some((0int, 0xffffint)),
        Kind::UInt32 => Some((0int, 0xffff_ffffint)),
        Kind::UInt64 => Some((0int, 0xffff_ffff_ffff_ffffint)),
        Kind::UInt128 => Some((0int, 0xffff_ffff_ffff_ffff_ffff_ffff_ffff_ffffint)),
        _ => None,
    }
}

/// Whether the native integer that `target` stands for holds `n`. A kind
/// that stands for no native integer sets no bound.
pub open spec fn holds_number(target: Kind, n: int) -> bool {
    match native_range(target) {
        Some((lo, hi)) => lo <= n <= hi,
        None => true,
    }
}

/// Tells whether the native integer that `target` stands for holds the
/// integer `n`.
fn holds_integer(target: Kind, n: &JsonNumber) -> (r: bool)
    requires
        n@ is Int,
    ensures
        r == holds_number(target, n@->Int_0),
{
    let v: i128 = match n {
        JsonNumber::PosInt(u) => *u as i128,
        JsonNumber::NegInt(i) => *i as i128,
        JsonNumber::Float(_) => 0,
    };
    match target {
        Kind::Int8 => -0x80 <= v && v <= 0x7f,
        Kind::Int16 => -0x8000 <= v && v <= 0x7fff,
        Kind::Int32 => -0x8000_0000 <= v && v <= 0x7fff_ffff,
        Kind::Int64 => -0x8000_0000_0000_0000 <= v && v <= 0x7fff_ffff_ffff_ffff,
        Kind::Int128 => true,
        Kind::UInt8 => 0 <= v && v <= 0xff,
        Kind::UInt16 => 0 <= v && v <= 0xffff,
        Kind::UInt32 => 0 <= v && v <= 0xffff_ffff,
        Kind::UInt64 => 0 <= v && v <= 0xffff_ffff_ffff_ffff,
        Kind::UInt128 => v >= 0,
        _ => true,
    }
}

/// The members of an object after `value` is put under `name`: in the place
/// of the first member of that name, or at the end where there is none.
pub open spec fn put(members: Seq<(Seq<char>, JsonModel)>, name: Seq<char>, value: JsonModel)
    -> Seq<(Seq<char>, JsonModel)> {
    match find(members, name) {
        Some(i) => with_value(members, i, value),
        None => members.push((name, value)),
    }
}

/// The number that a value of an integer kind stands for, if its decimal
/// string writes one that a native integer of 64 bits holds: a signed one for
/// `Int` and the sized signed kinds, an unsigned one for `UInt` and the sized
/// unsigned kinds.
pub open spec fn native_number(value: ValueModel) -> Option<int> {
    match value {
        ValueModel::Text(kind, s) => if kind.is_signed_integer() || kind.is_unsigned_integer() {
            native_integer(kind, s)
        } else {
            None
        },
        _ => None,
    }
}

/// The tree that a value is handed on as after encoding, widening and
/// unwrapping.
pub open spec fn plain_tree(value: ValueModel) -> Result<JsonModel, ErrorModel> {
    match encode(value) {
        Ok(tree) => Ok(unwrap_primitive(widen(tree))),
        Err(e) => Err(e),
    }
}

/// The member name that a dictionary key gives: of a `String` key, its
/// string; of any other key, its payload after encoding where that is
/// primitive (a string as it is, a boolean or `null` as JSON writes it), and
/// else the compact JSON text of the encoded key.
pub open spec fn key_name(key: ValueModel) -> Result<Seq<char>, ErrorModel> {
    match key {
        ValueModel::Text(Kind::String, s) => Ok(s),
        _ => match encode(key) {
            Err(e) => Err(e),
            Ok(tree) => Ok(
                match unwrap_primitive(tree) {
                    JsonModel::String(s) => s,
                    JsonModel::Bool(true) => "true"@,
                    JsonModel::Bool(false) => "false"@,
                    JsonModel::Null => "null"@,
                    _ => printed(tree),
                },
            ),
        },
    }
}

/// The members that the first `n` entries of a dictionary give for a native
/// map: each entry is put under the name of its key, after the entries
/// before it, with its value encoded, widened and unwrapped.
pub open spec fn map_members(entries: Seq<(ValueModel, ValueModel)>, n: int) -> Result<
    Seq<(Seq<char>, JsonModel)>,
    ErrorModel,
>
    decreases n,
{
    if n <= 0 {
        Ok(Seq::empty())
    } else {
        match map_members(entries, n - 1) {
            Err(e) => Err(e),
            Ok(members) => match key_name(entries[n - 1].0) {
                Err(e) => Err(e),
                Ok(name) => match plain_tree(entries[n - 1].1) {
                    Err(e) => Err(e),
                    Ok(tree) => Ok(put(members, name, tree)),
                },
            },
        }
    }
}

/// The members that the first `n` fields of a struct give for a native
/// record: each field is put under its name, after the fields before it, with
/// its value encoded, widened and unwrapped.
pub open spec fn record_members(fields: Seq<(Seq<char>, ValueModel)>, n: int) -> Result<
    Seq<(Seq<char>, JsonModel)>,
    ErrorModel,
>
    decreases n,
{
    if n <= 0 {
        Ok(Seq::empty())
    } else {
        match record_members(fields, n - 1) {
            Err(e) => Err(e),
            Ok(members) => match plain_tree(fields[n - 1].1) {
                Err(e) => Err(e),
                Ok(tree) => Ok(put(members, fields[n - 1].0, tree)),
            },
        }
    }
}

/// The tree that the fallback bridge hands to a structural materializer for
/// `value` and a native type of which `target` is known.
///
/// A dictionary for a map becomes an object with one member for each entry.
/// An integer value for a native integer becomes its number, where a native
/// integer of 64 bits reads it; a number that the integer asked for does not
/// hold is refused, not cut short. A struct for a record becomes an object
/// with one member for each field. In every other case the value is encoded,
/// widened and unwrapped, so that a value with a primitive payload is handed
/// on bare.
pub open spec fn bridged(value: ValueModel, target: Target) -> Result<JsonModel, ErrorModel> {
    if target.map && value is Dictionary {
        match map_members(value->Dictionary_0, value->Dictionary_0.len() as int) {
            Ok(members) => Ok(JsonModel::Object(members)),
            Err(e) => Err(e),
        }
    } else if target.integer is Some && native_number(value) is Some {
        if holds_number(target.integer->Some_0, native_number(value)->Some_0) {
            Ok(JsonModel::Int(native_number(value)->Some_0))
        } else {
            Err(ErrorModel::NumericParseError(target.integer->Some_0, value->Text_1))
        }
    } else {
        match value {
            ValueModel::Composite(Kind::Struct, _, fields) => if target.record {
                match record_members(fields, fields.len() as int) {
                    Ok(members) => Ok(JsonModel::Object(members)),
                    Err(e) => Err(e),
                }
            } else {
                plain_tree(value)
            },
            _ => plain_tree(value),
        }
    }
}

/// Puts `value` under `name`: in the place of the first member of that name,
/// or at the end where there is none.
fn put_member(members: &mut Vec<JsonMember>, name: String, value: Json)
    ensures
        members_view(final(members)@) == put(members_view(old(members)@), name@, value@),
{
    match find_member(members, name.as_str()) {
        Some(i) => {
            let ghost before = members@;
            members.set(i, JsonMember { name, value });
            proof {
                lemma_find_from(members_view(before), name@, 0);
                assert(members_view(members@) =~= with_value(
                    members_view(before),
                    i as int,
                    value@,
                ));
            }
        },
        None => {
            let ghost before = members@;
            members.push(JsonMember { name, value });
            proof {
                assert(members_view(members@) =~= members_view(before).push((name@, value@)));
            }
        },
    }
}

/// Encodes, widens and unwraps a value.
fn plain_tree_of(value: &CadenceValue) -> (r: Result<Json, CadenceError>)
    ensures
        outcome(r) == plain_tree(value@),
{
    match cadence_value_to_value(value) {
        Ok(tree) => Ok(extract_primitive_value(&process_numeric_values(&tree))),
        Err(e) => Err(e),
    }
}

/// Gives the member name of a dictionary key.
fn key_name_of(key: &CadenceValue) -> (r: Result<String, CadenceError>)
    ensures
        match r {
            Ok(name) => key_name(key@) == Ok::<Seq<char>, ErrorModel>(name@),
            Err(e) => key_name(key@) == Err::<Seq<char>, ErrorModel>(e@),
        },
{
    match key {
        CadenceValue::String { value } => Ok(value.clone()),
        _ => {
            let tree = match cadence_value_to_value(key) {
                Ok(tree) => tree,
                Err(e) => {
                    return Err(e);
                },
            };
            match extract_primitive_value(&tree) {
                Json::String(s) => Ok(s),
                Json::Bool(true) => Ok(String::from_str("true")),
                Json::Bool(false) => Ok(String::from_str("false")),
                Json::Null => Ok(String::from_str("null")),
                _ => {
                    proof {
                        lemma_encode_writable(key@);
                    }
                    match print(&value_from_tree(&tree)) {
                        Ok(text) => Ok(text),
                        Err(e) => Err(CadenceError::from(e)),
                    }
                },
            }
        },
    }
}

/// Builds the tree that a structural materializer is handed for a value and
/// a native type that has no binding of its own.
///
/// What the tree is depends on what `target` tells of the native type: a
/// dictionary for a map becomes an object keyed by its keys' names; an
/// integer value for a native integer becomes its number; a struct for a
/// record becomes an object of its fields; every other value is encoded,
/// widened and unwrapped.
pub fn from_cadence_value(cadence_value: &CadenceValue, target: Target) -> (r: Result<
    Json,
    CadenceError,
>)
    ensures
        outcome(r) == bridged(cadence_value@, target),
{
    if target.map {
        if let CadenceValue::Dictionary { value: entries } = cadence_value {
            proof {
                lemma_view_dictionary(*entries);
            }
            return match map_members_of(entries) {
                Ok(members) => {
                    proof {
                        lemma_view_object(members);
                    }
                    Ok(Json::Object(members))
                },
                Err(e) => Err(e),
            };
        }
    }
    if let Some(native) = target.integer {
        let kind = cadence_value.kind();
        if kind.signed_integer() || kind.unsigned_integer() {
            if let Some(s) = cadence_value.text_payload() {
                if let Some(n) = read_native_integer(kind, s.as_str()) {
                    if holds_integer(native, &n) {
                        return Ok(Json::Number(n));
                    }
                    return Err(
                        CadenceError::NumericParseError { target: native, text: s.clone() },
                    );
                }
            }
        }
    }
    if target.record {
        if let CadenceValue::Struct { value } = cadence_value {
            proof {
                lemma_view_composite(*value);
            }
            return match record_members_of(&value.fields) {
                Ok(members) => {
                    proof {
                        lemma_view_object(members);
                    }
                    Ok(Json::Object(members))
                },
                Err(e) => Err(e),
            };
        }
    }
    plain_tree_of(cadence_value)
}

/// Builds the members that the entries of a dictionary give for a native
/// map.
fn map_members_of(entries: &Vec<DictionaryEntry>) -> (r: Result<Vec<JsonMember>, CadenceError>)
    ensures
        match r {
            Ok(members) => map_members(entries_view(entries@), entries@.len() as int) == Ok::<
                Seq<(Seq<char>, JsonModel)>,
                ErrorModel,
            >(members_view(members@)),
            Err(e) => map_members(entries_view(entries@), entries@.len() as int) == Err::<
                Seq<(Seq<char>, JsonModel)>,
                ErrorModel,
            >(e@),
        },
{
    let ghost ev = entries_view(entries@);
    let mut members: Vec<JsonMember> = Vec::new();
    let mut i: usize = 0;
    proof {
        assert(members_view(members@) =~= Seq::empty());
    }
    while i < entries.len()
        invariant
            i <= entries@.len(),
            ev == entries_view(entries@),
            map_members(ev, i as int) == Ok::<Seq<(Seq<char>, JsonModel)>, ErrorModel>(
                members_view(members@),
            ),
        decreases entries@.len() - i,
    {
        let name = match key_name_of(&entries[i].key) {
            Ok(name) => name,
            Err(e) => {
                proof {
                    lemma_map_members_err(ev, i + 1, entries@.len() as int);
                }
                return Err(e);
            },
        };
        let tree = match plain_tree_of(&entries[i].value) {
            Ok(tree) => tree,
            Err(e) => {
                proof {
                    lemma_map_members_err(ev, i + 1, entries@.len() as int);
                }
                return Err(e);
            },
        };
        put_member(&mut members, name, tree);
        i += 1;
    }
    Ok(members)
}

/// Once the members of the first `n` entries fail, those of every longer run
/// fail in the same way.
proof fn lemma_map_members_err(entries: Seq<(ValueModel, ValueModel)>, n: int, m: int)
    requires
        0 <= n <= m,
        map_members(entries, n) is Err,
    ensures
        map_members(entries, m) == map_members(entries, n),
    decreases m - n,
{
    if n < m {
        lemma_map_members_err(entries, n, m - 1);
    }
}

/// Builds the members that the fields of a struct give for a native record.
fn record_members_of(fields: &Vec<CompositeField>) -> (r: Result<Vec<JsonMember>, CadenceError>)
    ensures
        match r {
            Ok(members) => record_members(fields_view(fields@), fields@.len() as int) == Ok::<
                Seq<(Seq<char>, JsonModel)>,
                ErrorModel,
            >(members_view(members@)),
            Err(e) => record_members(fields_view(fields@), fields@.len() as int) == Err::<
                Seq<(Seq<char>, JsonModel)>,
                ErrorModel,
            >(e@),
        },
{
    let ghost fv = fields_view(fields@);
    let mut members: Vec<JsonMember> = Vec::new();
    let mut i: usize = 0;
    proof {
        assert(members_view(members@) =~= Seq::empty());
    }
    while i < fields.len()
        invariant
            i <= fields@.len(),
            fv == fields_view(fields@),
            record_members(fv, i as int) == Ok::<Seq<(Seq<char>, JsonModel)>, ErrorModel>(
                members_view(members@),
            ),
        decreases fields@.len() - i,
    {
        let tree = match plain_tree_of(&fields[i].value) {
            Ok(tree) => tree,
            Err(e) => {
                proof {
                    lemma_record_members_err(fv, i + 1, fields@.len() as int);
                }
                return Err(e);
            },
        };
        put_member(&mut members, fields[i].name.clone(), tree);
        i += 1;
    }
    Ok(members)
}

/// Once the members of the first `n` fields fail, those of every longer run
/// fail in the same way.
proof fn lemma_record_members_err(fields: Seq<(Seq<char>, ValueModel)>, n: int, m: int)
    requires
        0 <= n <= m,
        record_members(fields, n) is Err,
    ensures
        record_members(fields, m) == record_members(fields, n),
    decreases m - n,
{
    if n < m {
        lemma_record_members_err(fields, n, m - 1);
    }
}

/// Two runs of members with the same names, one for one, are searched alike.
proof fn lemma_find_same_names(
    a: Seq<(Seq<char>, JsonModel)>,
    b: Seq<(Seq<char>, JsonModel)>,
    name: Seq<char>,
    start: int,
)
    requires
        a.len() == b.len(),
        forall|i: int| 0 <= i < a.len() ==> (#[trigger] a[i]).0 == b[i].0,
    ensures
        find_from(a, name, start) == find_from(b, name, start),
    decreases a.len() - start,
{
    if 0 <= start < a.len() {
        assert(a[start].0 == b[start].0);
        if a[start].0 != name {
            lemma_find_same_names(a, b, name, start + 1);
        }
    }
}

/// Replacing the value of a member changes no search by name.
proof fn lemma_find_with_value(
    members: Seq<(Seq<char>, JsonModel)>,
    at: int,
    value: JsonModel,
    name: Seq<char>,
)
    requires
        0 <= at < members.len(),
    ensures
        find(with_value(members, at, value), name) == find(members, name),
{
    lemma_find_same_names(with_value(members, at, value), members, name, 0);
}

/// The field of a composite payload that has been widened stays as it is
/// when it is widened again.
proof fn lemma_field_twice(field: JsonModel)
    ensures
        widen_each_field(seq![widen_each_field(seq![field])[0]])[0] == widen_each_field(
            seq![field],
        )[0],
    decreases field, 0nat,
{
    match field {
        JsonModel::Object(members) => {
            match find(members, "value"@) {
                Some(v) => {
                    lemma_find_from(members, "value"@, 0);
                    let once = with_value(members, v, widen(members[v].1));
                    lemma_find_with_value(members, v, widen(members[v].1), "value"@);
                    widening_twice_is_widening_once(members[v].1);
                    assert(with_value(once, v, widen(once[v].1)) =~= once);
                },
                None => {},
            }
        },
        _ => {},
    }
}

/// The entry of a dictionary payload that has been widened stays as it is
/// when it is widened again.
proof fn lemma_entry_twice(entry: JsonModel)
    ensures
        widen_each_entry(seq![widen_each_entry(seq![entry])[0]])[0] == widen_each_entry(
            seq![entry],
        )[0],
    decreases entry, 0nat,
{
    match entry {
        JsonModel::Object(members) => {
            let key = find(members, "key"@);
            let val = find(members, "value"@);
            lemma_find_from(members, "key"@, 0);
            lemma_find_from(members, "value"@, 0);
            lemma_names_differ();
            let keyed = match key {
                Some(k) => with_value(members, k, widen(members[k].1)),
                None => members,
            };
            let once = match val {
                Some(v) => with_value(keyed, v, widen(members[v].1)),
                None => keyed,
            };
            assert(once.len() == members.len());
            assert forall|i: int| 0 <= i < once.len() implies (#[trigger] once[i]).0
                == members[i].0 by {}
            lemma_find_same_names(once, members, "key"@, 0);
            lemma_find_same_names(once, members, "value"@, 0);
            if key is Some {
                widening_twice_is_widening_once(members[key->Some_0].1);
            }
            if val is Some {
                widening_twice_is_widening_once(members[val->Some_0].1);
            }
            let keyed_again = match key {
                Some(k) => with_value(once, k, widen(once[k].1)),
                None => once,
            };
            assert(keyed_again =~= once);
            let twice = match val {
                Some(v) => with_value(keyed_again, v, widen(once[v].1)),
                None => keyed_again,
            };
            assert(twice =~= once);
        },
        _ => {},
    }
}

/// The name `"value"` differs from `"key"` and from `"type"`.
proof fn lemma_names_differ()
    ensures
        "key"@ != "value"@,
        "type"@ != "value"@,
{
    reveal_strlit("key");
    reveal_strlit("value");
    reveal_strlit("type");
    assert("key"@.len() == 3 && "value"@.len() == 5 && "type"@.len() == 4);
}

/// The payload of an envelope that has been widened stays as it is when it
/// is widened again.
proof fn lemma_payload_twice(tag: Seq<char>, payload: JsonModel)
    ensures
        widen_payload(tag, widen_payload(tag, payload)) == widen_payload(tag, payload),
    decreases payload, 1nat,
{
    match Kind::named(tag) {
        None => {
            widening_twice_is_widening_once(payload);
        },
        Some(kind) => {
            if kind.is_integer() || kind.is_fixed_point() {
            } else if kind.is_composite() {
                match payload {
                    JsonModel::Object(inner) => {
                        match find(inner, "fields"@) {
                            Some(f) => {
                                lemma_find_from(inner, "fields"@, 0);
                                match inner[f].1 {
                                    JsonModel::Array(fields) => {
                                        let once = widen_each_field(fields);
                                        let again = widen_each_field(once);
                                        assert forall|i: int| 0 <= i < once.len() implies
                                            #[trigger] again[i] == once[i] by {
                                            lemma_field_twice(fields[i]);
                                            assert(once[i] == widen_each_field(seq![fields[i]])[0]);
                                            assert(again[i] == widen_each_field(seq![once[i]])[0]);
                                        }
                                        assert(again =~= once);
                                        let first = with_value(inner, f, JsonModel::Array(once));
                                        lemma_find_with_value(
                                            inner,
                                            f,
                                            JsonModel::Array(once),
                                            "fields"@,
                                        );
                                        assert(with_value(first, f, JsonModel::Array(again))
                                            =~= first);
                                    },
                                    _ => {},
                                }
                            },
                            None => {},
                        }
                    },
                    _ => {},
                }
            } else if kind == Kind::Array {
                match payload {
                    JsonModel::Array(items) => {
                        lemma_each_twice(items);
                    },
                    _ => {},
                }
            } else if kind == Kind::Dictionary {
                match payload {
                    JsonModel::Array(entries) => {
                        let once = widen_each_entry(entries);
                        let again = widen_each_entry(once);
                        assert forall|i: int| 0 <= i < once.len() implies #[trigger] again[i]
                            == once[i] by {
                            lemma_entry_twice(entries[i]);
                            assert(once[i] == widen_each_entry(seq![entries[i]])[0]);
                            assert(again[i] == widen_each_entry(seq![once[i]])[0]);
                        }
                        assert(again =~= once);
                    },
                    _ => {},
                }
            } else {
                widening_twice_is_widening_once(payload);
            }
        },
    }
}

/// The items of an array that have been widened stay as they are when they
/// are widened again.
proof fn lemma_each_twice(items: Seq<JsonModel>)
    ensures
        widen_each(widen_each(items)) == widen_each(items),
    decreases items, 0nat,
{
    let once = widen_each(items);
    let again = widen_each(once);
    assert forall|i: int| 0 <= i < once.len() implies #[trigger] again[i] == once[i] by {
        widening_twice_is_widening_once(items[i]);
    }
    assert(again =~= once);
}

/// Widening twice is widening once: a tree that has been widened stays as it
/// is when it is widened again.
pub proof fn widening_twice_is_widening_once(tree: JsonModel)
    ensures
        widen(widen(tree)) == widen(tree),
    decreases tree, 0nat,
{
    match tree {
        JsonModel::Array(items) => {
            lemma_each_twice(items);
        },
        JsonModel::Object(members) => {
            lemma_names_differ();
            lemma_find_from(members, "type"@, 0);
            lemma_find_from(members, "value"@, 0);
            let t = find(members, "type"@);
            let v = find(members, "value"@);
            if t is Some && v is Some && members[t->Some_0].1 is String {
                let tag = members[t->Some_0].1->String_0;
                let once = with_value(members, v->Some_0, widen_payload(tag, members[v->Some_0].1));
                lemma_find_with_value(
                    members,
                    v->Some_0,
                    widen_payload(tag, members[v->Some_0].1),
                    "type"@,
                );
                lemma_find_with_value(
                    members,
                    v->Some_0,
                    widen_payload(tag, members[v->Some_0].1),
                    "value"@,
                );
                lemma_payload_twice(tag, members[v->Some_0].1);
                assert(with_value(once, v->Some_0, widen_payload(tag, once[v->Some_0].1))
                    =~= once);
            } else {
                let once = widen_members(members);
                assert forall|i: int| 0 <= i < once.len() implies (#[trigger] once[i]).0
                    == members[i].0 by {}
                lemma_find_same_names(once, members, "type"@, 0);
                lemma_find_same_names(once, members, "value"@, 0);
                let again = widen_members(once);
                assert forall|i: int| 0 <= i < once.len() implies #[trigger] again[i]
                    == once[i] by {
                    if members[i].0 != "type"@ {
                        widening_twice_is_widening_once(members[i].1);
                    }
                }
                assert(again =~= once);
            }
        },
        _ => {},
    }
}

/// Where no member at or after `start` has the name, a member of that name
/// that is added at the end is the first at or after `start` that has it.
proof fn lemma_find_from_push(
    members: Seq<(Seq<char>, JsonModel)>,
    name: Seq<char>,
    value: JsonModel,
    start: int,
)
    requires
        0 <= start <= members.len(),
        find_from(members, name, start) is None,
    ensures
        find_from(members.push((name, value)), name, start) == Some(members.len() as int),
    decreases members.len() - start,
{
    let after = members.push((name, value));
    if start < members.len() {
        assert(after[start] == members[start]);
        lemma_find_from_push(members, name, value, start + 1);
    }
}

/// What is put under a name is what the name finds, and of two values put
/// under one name the later one stays, in one member.
pub proof fn last_put_stays(
    members: Seq<(Seq<char>, JsonModel)>,
    name: Seq<char>,
    first: JsonModel,
    second: JsonModel,
)
    ensures
        JsonModel::Object(put(members, name, second)).get(name) == Some(second),
        put(put(members, name, first), name, second) == put(members, name, second),
        put(members, name, second).len() == if find(members, name) is Some {
            members.len()
        } else {
            members.len() + 1
        },
{
    lemma_find_from(members, name, 0);
    match find(members, name) {
        Some(i) => {
            lemma_find_with_value(members, i, first, name);
            lemma_find_with_value(members, i, second, name);
            assert(with_value(with_value(members, i, first), i, second) =~= with_value(
                members,
                i,
                second,
            ));
        },
        None => {
            lemma_find_from_push(members, name, first, 0);
            lemma_find_from_push(members, name, second, 0);
            let n = members.len() as int;
            assert(with_value(members.push((name, first)), n, second) =~= members.push(
                (name, second),
            ));
        },
    }
}

} // verus!
