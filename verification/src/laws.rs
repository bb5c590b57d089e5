//! Laws of the codec: what holds of encoding and decoding taken together.

use std::collections::{BTreeMap, HashMap};
use vstd::prelude::*;
use vstd::std_specs::btree::increasing_seq;
use vstd::std_specs::hash::obeys_key_model;
use crate::{FromCadenceValue, ToCadenceValue};
use crate::bridge::{
    bridged, holds_number, key_name, unwrap_primitive, widen, widen_payload, with_value, Target,
};
use crate::error::ErrorModel;
use crate::impls::{
    dictionary_decodes_to, entries_decode_to, inserted, integer_decodes, keys_of, lists,
    pairs_encode_to,
};
use crate::order::keys_ordered;
use crate::writes_as;
use crate::json::{find, find_from, JsonModel};
use crate::kind::{lemma_named_text, Kind};
use crate::results::{collect, lemma_collect, lemma_collect_ok};
use crate::text::{decimal, is_digit, lemma_digits, lemma_parse_decimal_of_decimal};
use crate::transcode::{
    composite_payload, decode, decode_composite, decode_each, decode_each_entry, decode_each_field,
    decode_entry, decode_field, decode_payload, encode, encode_each, encode_each_entry,
    encode_each_field, entry_object, envelope, field_object,
};
use crate::value::{CadenceValue, ValueModel};

verus! {

/// The member names of the wire format that stand side by side in one object
/// differ from each other.
pub proof fn lemma_member_names()
    ensures
        "type"@ != "value"@,
        "key"@ != "value"@,
        "name"@ != "value"@,
        "id"@ != "fields"@,
{
    reveal_strlit("type");
    reveal_strlit("value");
    reveal_strlit("key");
    reveal_strlit("name");
    reveal_strlit("id");
    reveal_strlit("fields");
    assert("type"@.len() == 4 && "value"@.len() == 5 && "key"@.len() == 3 && "name"@.len() == 4
        && "id"@.len() == 2 && "fields"@.len() == 6);
}

/// In an object of two members with different names, each name finds its own
/// member.
pub proof fn lemma_find_two(a: Seq<char>, x: JsonModel, b: Seq<char>, y: JsonModel)
    requires
        a != b,
    ensures
        find(seq![(a, x), (b, y)], a) == Some(0int),
        find(seq![(a, x), (b, y)], b) == Some(1int),
{
    reveal_with_fuel(find_from, 3);
}

/// Decoding an envelope is decoding its payload by its kind.
pub proof fn lemma_decode_envelope(kind: Kind, payload: JsonModel)
    ensures
        decode(envelope(kind, payload)) == decode_payload(kind, payload),
{
    lemma_member_names();
    lemma_find_two("type"@, JsonModel::String(kind.text()), "value"@, payload);
    lemma_named_text(kind);
}

/// Whatever encodes, encodes to an object.
pub proof fn lemma_encode_object(value: ValueModel)
    ensures
        encode(value) is Ok ==> encode(value)->Ok_0 is Object,
{
}

/// The value of every `CadenceValue` is well formed.
pub proof fn lemma_well_formed(value: CadenceValue)
    ensures
        value@.well_formed(),
    decreases value,
{
    match value {
        CadenceValue::Optional { value: Some(inner) } => {
            lemma_well_formed(*inner);
        },
        CadenceValue::Array { value: items } => {
            crate::value::lemma_view_array(items);
            assert forall|i: int| 0 <= i < items@.len() implies
                (#[trigger] value@->Array_0[i]).well_formed() by {
                lemma_well_formed(items@[i]);
            }
        },
        CadenceValue::Dictionary { value: entries } => {
            crate::value::lemma_view_dictionary(entries);
            assert forall|i: int| 0 <= i < entries@.len() implies
                (#[trigger] value@->Dictionary_0[i]).0.well_formed()
                && value@->Dictionary_0[i].1.well_formed() by {
                lemma_well_formed(entries@[i].key);
                lemma_well_formed(entries@[i].value);
            }
        },
        CadenceValue::Struct { value: c }
        | CadenceValue::Resource { value: c }
        | CadenceValue::Event { value: c }
        | CadenceValue::Contract { value: c }
        | CadenceValue::Enum { value: c } => {
            crate::value::lemma_view_composite(c);
            assert forall|i: int| 0 <= i < c.fields@.len() implies
                (#[trigger] value@->Composite_2[i]).1.well_formed() by {
                lemma_well_formed(c.fields@[i].value);
            }
        },
        CadenceValue::InclusiveRange { value: range } => {
            lemma_well_formed(*range.start);
            lemma_well_formed(*range.end);
            lemma_well_formed(*range.step);
        },
        _ => {},
    }
}

/// Where each item of an array comes back from its encoding, so does the
/// array.
proof fn lemma_round_trip_array(items: Seq<ValueModel>)
    requires
        collect(encode_each(items)) is Ok,
        forall|i: int|
            0 <= i < items.len() && encode(#[trigger] items[i]) is Ok ==> decode(
                encode(items[i])->Ok_0,
            ) == Ok::<ValueModel, ErrorModel>(items[i]),
    ensures
        decode_payload(Kind::Array, JsonModel::Array(collect(encode_each(items))->Ok_0)) == Ok::<
            ValueModel,
            ErrorModel,
        >(ValueModel::Array(items)),
{
    let encoded = encode_each(items);
    lemma_collect(encoded);
    let trees = collect(encoded)->Ok_0;
    let decoded = decode_each(trees);
    assert forall|i: int| 0 <= i < trees.len() implies (#[trigger] decoded[i]) == Ok::<
        ValueModel,
        ErrorModel,
    >(items[i]) by {
        assert(encoded[i] == Ok::<JsonModel, ErrorModel>(trees[i]));
    }
    lemma_collect_ok(decoded);
    assert(collect(decoded)->Ok_0 =~= items);
}

/// An entry object decodes to the pair that its key and its value decode
/// to.
proof fn lemma_decode_entry_object(
    key_tree: JsonModel,
    value_tree: JsonModel,
    key: ValueModel,
    value: ValueModel,
)
    requires
        decode(key_tree) == Ok::<ValueModel, ErrorModel>(key),
        decode(value_tree) == Ok::<ValueModel, ErrorModel>(value),
    ensures
        decode_entry(entry_object(key_tree, value_tree)) == Ok::<
            (ValueModel, ValueModel),
            ErrorModel,
        >((key, value)),
{
    lemma_member_names();
    lemma_find_two("key"@, key_tree, "value"@, value_tree);
}

/// The entries that a dictionary encodes to decode to the dictionary's
/// entries, where each key and value comes back from its encoding.
proof fn lemma_round_trip_entries(entries: Seq<(ValueModel, ValueModel)>)
    requires
        collect(encode_each_entry(entries)) is Ok,
        forall|i: int|
            0 <= i < entries.len() && encode((#[trigger] entries[i]).0) is Ok ==> decode(
                encode(entries[i].0)->Ok_0,
            ) == Ok::<ValueModel, ErrorModel>(entries[i].0),
        forall|i: int|
            0 <= i < entries.len() && encode((#[trigger] entries[i]).1) is Ok ==> decode(
                encode(entries[i].1)->Ok_0,
            ) == Ok::<ValueModel, ErrorModel>(entries[i].1),
    ensures
        collect(decode_each_entry(collect(encode_each_entry(entries))->Ok_0)) == Ok::<
            Seq<(ValueModel, ValueModel)>,
            ErrorModel,
        >(entries),
{
    let encoded = encode_each_entry(entries);
    lemma_collect(encoded);
    let trees = collect(encoded)->Ok_0;
    let decoded = decode_each_entry(trees);
    assert forall|i: int| 0 <= i < trees.len() implies (#[trigger] decoded[i]) == Ok::<
        (ValueModel, ValueModel),
        ErrorModel,
    >(entries[i]) by {
        assert(encoded[i] == Ok::<JsonModel, ErrorModel>(trees[i]));
        let key = encode(entries[i].0)->Ok_0;
        let val = encode(entries[i].1)->Ok_0;
        assert(trees[i] == entry_object(key, val));
        lemma_decode_entry_object(key, val, entries[i].0, entries[i].1);
    }
    lemma_collect_ok(decoded);
    assert(collect(decoded)->Ok_0 =~= entries);
}

/// Where each key and value of a dictionary comes back from its encoding, so
/// does the dictionary.
proof fn lemma_round_trip_dictionary(entries: Seq<(ValueModel, ValueModel)>)
    requires
        collect(encode_each_entry(entries)) is Ok,
        forall|i: int|
            0 <= i < entries.len() && encode((#[trigger] entries[i]).0) is Ok ==> decode(
                encode(entries[i].0)->Ok_0,
            ) == Ok::<ValueModel, ErrorModel>(entries[i].0),
        forall|i: int|
            0 <= i < entries.len() && encode((#[trigger] entries[i]).1) is Ok ==> decode(
                encode(entries[i].1)->Ok_0,
            ) == Ok::<ValueModel, ErrorModel>(entries[i].1),
    ensures
        decode_payload(
            Kind::Dictionary,
            JsonModel::Array(collect(encode_each_entry(entries))->Ok_0),
        ) == Ok::<ValueModel, ErrorModel>(ValueModel::Dictionary(entries)),
{
    lemma_round_trip_entries(entries);
}

/// A field object decodes to the name it holds and the value that its value
/// decodes to.
proof fn lemma_decode_field_object(
    kind: Kind,
    name: Seq<char>,
    value_tree: JsonModel,
    value: ValueModel,
)
    requires
        decode(value_tree) == Ok::<ValueModel, ErrorModel>(value),
    ensures
        decode_field(kind, field_object(name, value_tree)) == Ok::<
            (Seq<char>, ValueModel),
            ErrorModel,
        >((name, value)),
{
    lemma_member_names();
    lemma_find_two("name"@, JsonModel::String(name), "value"@, value_tree);
}

/// The fields that a composite encodes to decode to the composite's fields,
/// where the value of each comes back from its encoding.
proof fn lemma_round_trip_fields(kind: Kind, fields: Seq<(Seq<char>, ValueModel)>)
    requires
        collect(encode_each_field(fields)) is Ok,
        forall|i: int|
            0 <= i < fields.len() && encode((#[trigger] fields[i]).1) is Ok ==> decode(
                encode(fields[i].1)->Ok_0,
            ) == Ok::<ValueModel, ErrorModel>(fields[i].1),
    ensures
        collect(decode_each_field(kind, collect(encode_each_field(fields))->Ok_0)) == Ok::<
            Seq<(Seq<char>, ValueModel)>,
            ErrorModel,
        >(fields),
{
    let encoded = encode_each_field(fields);
    lemma_collect(encoded);
    let trees = collect(encoded)->Ok_0;
    let decoded = decode_each_field(kind, trees);
    assert forall|i: int| 0 <= i < trees.len() implies (#[trigger] decoded[i]) == Ok::<
        (Seq<char>, ValueModel),
        ErrorModel,
    >(fields[i]) by {
        assert(encoded[i] == Ok::<JsonModel, ErrorModel>(trees[i]));
        let val = encode(fields[i].1)->Ok_0;
        assert(trees[i] == field_object(fields[i].0, val));
        lemma_decode_field_object(kind, fields[i].0, val, fields[i].1);
    }
    lemma_collect_ok(decoded);
    assert(collect(decoded)->Ok_0 =~= fields);
}

/// Where the value of each field of a composite comes back from its encoding,
/// so does the composite.
proof fn lemma_round_trip_composite(kind: Kind, id: Seq<char>, fields: Seq<(Seq<char>, ValueModel)>)
    requires
        kind.is_composite(),
        collect(encode_each_field(fields)) is Ok,
        forall|i: int|
            0 <= i < fields.len() && encode((#[trigger] fields[i]).1) is Ok ==> decode(
                encode(fields[i].1)->Ok_0,
            ) == Ok::<ValueModel, ErrorModel>(fields[i].1),
    ensures
        decode_payload(kind, composite_payload(id, collect(encode_each_field(fields))->Ok_0))
            == Ok::<ValueModel, ErrorModel>(ValueModel::Composite(kind, id, fields)),
{
    lemma_member_names();
    lemma_round_trip_fields(kind, fields);
    let trees = collect(encode_each_field(fields))->Ok_0;
    let payload = composite_payload(id, trees);
    lemma_find_two("id"@, JsonModel::String(id), "fields"@, JsonModel::Array(trees));
    assert(decode_composite(kind, payload->Object_0) == Ok::<ValueModel, ErrorModel>(
        ValueModel::Composite(kind, id, fields),
    ));
}

/// Decoding what a well-formed value encodes to gives the value back.
pub proof fn lemma_round_trip(value: ValueModel)
    requires
        value.well_formed(),
        encode(value) is Ok,
    ensures
        decode(encode(value)->Ok_0) == Ok::<ValueModel, ErrorModel>(value),
    decreases value,
{
    match value {
        ValueModel::Void => {
            lemma_decode_envelope(Kind::Void, JsonModel::Null);
        },
        ValueModel::Optional(None) => {
            lemma_decode_envelope(Kind::Optional, JsonModel::Null);
        },
        ValueModel::Optional(Some(inner)) => {
            let tree = encode(*inner)->Ok_0;
            lemma_round_trip(*inner);
            lemma_encode_object(*inner);
            lemma_decode_envelope(Kind::Optional, tree);
        },
        ValueModel::Bool(b) => {
            lemma_decode_envelope(Kind::Bool, JsonModel::Bool(b));
        },
        ValueModel::Text(kind, s) => {
            lemma_decode_envelope(kind, JsonModel::String(s));
        },
        ValueModel::Array(items) => {
            assert forall|i: int|
                0 <= i < items.len() && encode(#[trigger] items[i]) is Ok implies decode(
                encode(items[i])->Ok_0,
            ) == Ok::<ValueModel, ErrorModel>(items[i]) by {
                lemma_round_trip(items[i]);
            }
            lemma_round_trip_array(items);
            lemma_decode_envelope(Kind::Array, JsonModel::Array(collect(encode_each(items))->Ok_0));
        },
        ValueModel::Dictionary(entries) => {
            assert forall|i: int|
                0 <= i < entries.len() && encode((#[trigger] entries[i]).0) is Ok implies decode(
                encode(entries[i].0)->Ok_0,
            ) == Ok::<ValueModel, ErrorModel>(entries[i].0) by {
                lemma_round_trip(entries[i].0);
            }
            assert forall|i: int|
                0 <= i < entries.len() && encode((#[trigger] entries[i]).1) is Ok implies decode(
                encode(entries[i].1)->Ok_0,
            ) == Ok::<ValueModel, ErrorModel>(entries[i].1) by {
                lemma_round_trip(entries[i].1);
            }
            lemma_round_trip_dictionary(entries);
            lemma_decode_envelope(
                Kind::Dictionary,
                JsonModel::Array(collect(encode_each_entry(entries))->Ok_0),
            );
        },
        ValueModel::Composite(kind, id, fields) => {
            assert forall|i: int|
                0 <= i < fields.len() && encode((#[trigger] fields[i]).1) is Ok implies decode(
                encode(fields[i].1)->Ok_0,
            ) == Ok::<ValueModel, ErrorModel>(fields[i].1) by {
                lemma_round_trip(fields[i].1);
            }
            lemma_round_trip_composite(kind, id, fields);
            lemma_decode_envelope(
                kind,
                composite_payload(id, collect(encode_each_field(fields))->Ok_0),
            );
        },
        _ => {},
    }
}

/// Encoding succeeds exactly for the values that have no part of the
/// type-descriptor family, and where it fails it names the kind of such a
/// part.
pub proof fn encode_total_where_encodable(value: ValueModel)
    ensures
        encode(value) is Ok <==> value.encodable(),
        encode(value) matches Err(e) ==> e matches ErrorModel::UnsupportedType(kind)
            && kind.is_descriptor(),
    decreases value,
{
    match value {
        ValueModel::Optional(Some(inner)) => {
            encode_total_where_encodable(*inner);
        },
        ValueModel::Array(items) => {
            let encoded = encode_each(items);
            lemma_collect(encoded);
            assert forall|i: int| 0 <= i < items.len() implies ((#[trigger] encoded[i]) is Ok
                <==> items[i].encodable()) && (encoded[i] matches Err(e)
                ==> e matches ErrorModel::UnsupportedType(kind) && kind.is_descriptor()) by {
                encode_total_where_encodable(items[i]);
            }
            if collect(encoded) is Ok {
                assert forall|i: int| 0 <= i < items.len() implies (#[trigger] items[i]).encodable() by {
                    assert(encoded[i] is Ok);
                }
            } else {
                let i = choose|i: int|
                    0 <= i < encoded.len() && (#[trigger] encoded[i]) == Err::<
                        JsonModel,
                        ErrorModel,
                    >(collect(encoded)->Err_0);
                assert(!items[i].encodable());
            }
        },
        ValueModel::Dictionary(entries) => {
            let encoded = encode_each_entry(entries);
            lemma_collect(encoded);
            assert forall|i: int| 0 <= i < entries.len() implies ((#[trigger] encoded[i]) is Ok
                <==> entries[i].0.encodable() && entries[i].1.encodable()) && (
            encoded[i] matches Err(e) ==> e matches ErrorModel::UnsupportedType(kind)
                && kind.is_descriptor()) by {
                encode_total_where_encodable(entries[i].0);
                encode_total_where_encodable(entries[i].1);
            }
            if collect(encoded) is Ok {
                assert forall|i: int| 0 <= i < entries.len() implies
                    (#[trigger] entries[i]).0.encodable() && entries[i].1.encodable() by {
                    assert(encoded[i] is Ok);
                }
            } else {
                let i = choose|i: int|
                    0 <= i < encoded.len() && (#[trigger] encoded[i]) == Err::<
                        JsonModel,
                        ErrorModel,
                    >(collect(encoded)->Err_0);
                assert(!(entries[i].0.encodable() && entries[i].1.encodable()));
            }
        },
        ValueModel::Composite(kind, id, fields) => {
            let encoded = encode_each_field(fields);
            lemma_collect(encoded);
            assert forall|i: int| 0 <= i < fields.len() implies ((#[trigger] encoded[i]) is Ok
                <==> fields[i].1.encodable()) && (encoded[i] matches Err(e)
                ==> e matches ErrorModel::UnsupportedType(kind) && kind.is_descriptor()) by {
                encode_total_where_encodable(fields[i].1);
            }
            if collect(encoded) is Ok {
                assert forall|i: int| 0 <= i < fields.len() implies
                    (#[trigger] fields[i]).1.encodable() by {
                    assert(encoded[i] is Ok);
                }
            } else {
                let i = choose|i: int|
                    0 <= i < encoded.len() && (#[trigger] encoded[i]) == Err::<
                        JsonModel,
                        ErrorModel,
                    >(collect(encoded)->Err_0);
                assert(!fields[i].1.encodable());
            }
        },
        _ => {},
    }
}

/// Decoding the tree that a value encodes to gives the value back, for every
/// value that has an encoding: every value without a part of the
/// type-descriptor family.
pub proof fn round_trip(value: CadenceValue)
    requires
        value@.encodable(),
    ensures
        encode(value@) is Ok,
        decode(encode(value@)->Ok_0) == Ok::<ValueModel, ErrorModel>(value@),
{
    encode_total_where_encodable(value@);
    lemma_well_formed(value);
    lemma_round_trip(value@);
}

/// An object of two writable members with different names is writable.
proof fn lemma_two_writable(a: Seq<char>, x: JsonModel, b: Seq<char>, y: JsonModel)
    requires
        a != b,
        x.writable(),
        y.writable(),
    ensures
        JsonModel::Object(seq![(a, x), (b, y)]).writable(),
{
    let members = seq![(a, x), (b, y)];
    assert(members[0] == (a, x) && members[1] == (b, y));
}

/// An array of writable trees is writable.
proof fn lemma_array_writable(trees: Seq<JsonModel>)
    requires
        forall|i: int| 0 <= i < trees.len() ==> (#[trigger] trees[i]).writable(),
    ensures
        JsonModel::Array(trees).writable(),
{
}

/// Every tree that encoding gives is one that this library writes: it holds
/// no number, and the members of each of its objects differ in name.
pub proof fn lemma_encode_writable(value: ValueModel)
    ensures
        encode(value) is Ok ==> encode(value)->Ok_0.writable(),
    decreases value,
{
    lemma_member_names();
    if encode(value) is Ok {
        let tag = JsonModel::String(value.kind().text());
        match value {
            ValueModel::Void => {
                lemma_two_writable("type"@, tag, "value"@, JsonModel::Null);
            },
            ValueModel::Optional(None) => {
                lemma_two_writable("type"@, tag, "value"@, JsonModel::Null);
            },
            ValueModel::Optional(Some(inner)) => {
                lemma_encode_writable(*inner);
                lemma_two_writable("type"@, tag, "value"@, encode(*inner)->Ok_0);
            },
            ValueModel::Bool(b) => {
                lemma_two_writable("type"@, tag, "value"@, JsonModel::Bool(b));
            },
            ValueModel::Text(kind, s) => {
                lemma_two_writable("type"@, tag, "value"@, JsonModel::String(s));
            },
            ValueModel::Array(items) => {
                let encoded = encode_each(items);
                lemma_collect(encoded);
                let trees = collect(encoded)->Ok_0;
                assert forall|i: int| 0 <= i < trees.len() implies
                    (#[trigger] trees[i]).writable() by {
                    assert(encoded[i] == Ok::<JsonModel, ErrorModel>(trees[i]));
                    lemma_encode_writable(items[i]);
                }
                lemma_array_writable(trees);
                lemma_two_writable("type"@, tag, "value"@, JsonModel::Array(trees));
            },
            ValueModel::Dictionary(entries) => {
                let encoded = encode_each_entry(entries);
                lemma_collect(encoded);
                let trees = collect(encoded)->Ok_0;
                assert forall|i: int| 0 <= i < trees.len() implies
                    (#[trigger] trees[i]).writable() by {
                    assert(encoded[i] == Ok::<JsonModel, ErrorModel>(trees[i]));
                    lemma_encode_writable(entries[i].0);
                    lemma_encode_writable(entries[i].1);
                    lemma_two_writable(
                        "key"@,
                        encode(entries[i].0)->Ok_0,
                        "value"@,
                        encode(entries[i].1)->Ok_0,
                    );
                }
                lemma_array_writable(trees);
                lemma_two_writable("type"@, tag, "value"@, JsonModel::Array(trees));
            },
            ValueModel::Composite(kind, id, fields) => {
                let encoded = encode_each_field(fields);
                lemma_collect(encoded);
                let trees = collect(encoded)->Ok_0;
                assert forall|i: int| 0 <= i < trees.len() implies
                    (#[trigger] trees[i]).writable() by {
                    assert(encoded[i] == Ok::<JsonModel, ErrorModel>(trees[i]));
                    lemma_encode_writable(fields[i].1);
                    lemma_two_writable(
                        "name"@,
                        JsonModel::String(fields[i].0),
                        "value"@,
                        encode(fields[i].1)->Ok_0,
                    );
                }
                lemma_array_writable(trees);
                lemma_two_writable("id"@, JsonModel::String(id), "fields"@, JsonModel::Array(trees));
                lemma_two_writable("type"@, tag, "value"@, composite_payload(id, trees));
            },
            _ => {},
        }
    }
}

/// A string comes back from its encoding: encoding it cannot fail, and
/// decoding what it encodes to gives a string of the same characters.
pub proof fn string_round_trip(x: String, m: ValueModel, r: Result<String, ErrorModel>)
    requires
        x.encodes_to(Ok::<ValueModel, ErrorModel>(m)),
        String::decodes_to(m, r),
    ensures
        r matches Ok(y) && y@ == x@,
        forall|e: ErrorModel| !x.encodes_to(Err::<ValueModel, ErrorModel>(e)),
{
}

/// A boolean comes back from its encoding: encoding it cannot fail, and
/// decoding what it encodes to gives the boolean.
pub proof fn bool_round_trip(x: bool, m: ValueModel, r: Result<bool, ErrorModel>)
    requires
        x.encodes_to(Ok::<ValueModel, ErrorModel>(m)),
        bool::decodes_to(m, r),
    ensures
        r == Ok::<bool, ErrorModel>(x),
        forall|e: ErrorModel| !x.encodes_to(Err::<ValueModel, ErrorModel>(e)),
{
}

/// An integer comes back from its decimal text under its own kind: decoding
/// the text of `n` to an integer type that holds `n` gives `n`.
pub proof fn integer_round_trip(target: Kind, signed: bool, lo: int, hi: int, n: int)
    requires
        lo <= n <= hi,
        signed || 0 <= lo,
    ensures
        integer_decodes(target, signed, lo, hi, ValueModel::Text(target, decimal(n))) == Ok::<
            int,
            ErrorModel,
        >(n),
{
    lemma_parse_decimal_of_decimal(n, signed);
}

/// A `u8` comes back from its encoding: encoding it cannot fail, and
/// decoding what it encodes to gives the same number.
pub proof fn u8_round_trip(x: u8, m: ValueModel, r: Result<u8, ErrorModel>)
    requires
        x.encodes_to(Ok::<ValueModel, ErrorModel>(m)),
        u8::decodes_to(m, r),
    ensures
        r == Ok::<u8, ErrorModel>(x),
        forall|e: ErrorModel| !x.encodes_to(Err::<ValueModel, ErrorModel>(e)),
{
    integer_round_trip(Kind::UInt8, false, 0, 0xff, x as int);
}

/// A `u16` comes back from its encoding: encoding it cannot fail, and
/// decoding what it encodes to gives the same number.
pub proof fn u16_round_trip(x: u16, m: ValueModel, r: Result<u16, ErrorModel>)
    requires
        x.encodes_to(Ok::<ValueModel, ErrorModel>(m)),
        u16::decodes_to(m, r),
    ensures
        r == Ok::<u16, ErrorModel>(x),
        forall|e: ErrorModel| !x.encodes_to(Err::<ValueModel, ErrorModel>(e)),
{
    integer_round_trip(Kind::UInt16, false, 0, 0xffff, x as int);
}

/// A `u32` comes back from its encoding: encoding it cannot fail, and
/// decoding what it encodes to gives the same number.
pub proof fn u32_round_trip(x: u32, m: ValueModel, r: Result<u32, ErrorModel>)
    requires
        x.encodes_to(Ok::<ValueModel, ErrorModel>(m)),
        u32::decodes_to(m, r),
    ensures
        r == Ok::<u32, ErrorModel>(x),
        forall|e: ErrorModel| !x.encodes_to(Err::<ValueModel, ErrorModel>(e)),
{
    integer_round_trip(Kind::UInt32, false, 0, 0xffff_ffff, x as int);
}

/// A `u64` comes back from its encoding: encoding it cannot fail, and
/// decoding what it encodes to gives the same number.
pub proof fn u64_round_trip(x: u64, m: ValueModel, r: Result<u64, ErrorModel>)
    requires
        x.encodes_to(Ok::<ValueModel, ErrorModel>(m)),
        u64::decodes_to(m, r),
    ensures
        r == Ok::<u64, ErrorModel>(x),
        forall|e: ErrorModel| !x.encodes_to(Err::<ValueModel, ErrorModel>(e)),
{
    integer_round_trip(Kind::UInt64, false, 0, 0xffff_ffff_ffff_ffff, x as int);
}

/// A `i8` comes back from its encoding: encoding it cannot fail, and
/// decoding what it encodes to gives the same number.
pub proof fn i8_round_trip(x: i8, m: ValueModel, r: Result<i8, ErrorModel>)
    requires
        x.encodes_to(Ok::<ValueModel, ErrorModel>(m)),
        i8::decodes_to(m, r),
    ensures
        r == Ok::<i8, ErrorModel>(x),
        forall|e: ErrorModel| !x.encodes_to(Err::<ValueModel, ErrorModel>(e)),
{
    integer_round_trip(Kind::Int8, true, -0x80, 0x7f, x as int);
}

/// A `i16` comes back from its encoding: encoding it cannot fail, and
/// decoding what it encodes to gives the same number.
pub proof fn i16_round_trip(x: i16, m: ValueModel, r: Result<i16, ErrorModel>)
    requires
        x.encodes_to(Ok::<ValueModel, ErrorModel>(m)),
        i16::decodes_to(m, r),
    ensures
        r == Ok::<i16, ErrorModel>(x),
        forall|e: ErrorModel| !x.encodes_to(Err::<ValueModel, ErrorModel>(e)),
{
    integer_round_trip(Kind::Int16, true, -0x8000, 0x7fff, x as int);
}

/// A `i32` comes back from its encoding: encoding it cannot fail, and
/// decoding what it encodes to gives the same number.
pub proof fn i32_round_trip(x: i32, m: ValueModel, r: Result<i32, ErrorModel>)
    requires
        x.encodes_to(Ok::<ValueModel, ErrorModel>(m)),
        i32::decodes_to(m, r),
    ensures
        r == Ok::<i32, ErrorModel>(x),
        forall|e: ErrorModel| !x.encodes_to(Err::<ValueModel, ErrorModel>(e)),
{
    integer_round_trip(Kind::Int32, true, -0x8000_0000, 0x7fff_ffff, x as int);
}

/// A `i64` comes back from its encoding: encoding it cannot fail, and
/// decoding what it encodes to gives the same number.
pub proof fn i64_round_trip(x: i64, m: ValueModel, r: Result<i64, ErrorModel>)
    requires
        x.encodes_to(Ok::<ValueModel, ErrorModel>(m)),
        i64::decodes_to(m, r),
    ensures
        r == Ok::<i64, ErrorModel>(x),
        forall|e: ErrorModel| !x.encodes_to(Err::<ValueModel, ErrorModel>(e)),
{
    integer_round_trip(Kind::Int64, true, -0x8000_0000_0000_0000, 0x7fff_ffff_ffff_ffff, x as int);
}

/// A key is in the map that a run of pairs builds exactly where a pair of
/// the run has it.
pub proof fn inserted_keys<K, V>(pairs: Seq<(K, V)>, key: K)
    ensures
        inserted(pairs).contains_key(key) <==> exists|i: int|
            0 <= i < pairs.len() && (#[trigger] pairs[i]).0 == key,
    decreases pairs.len(),
{
    if pairs.len() > 0 {
        let front = pairs.drop_last();
        inserted_keys(front, key);
        if inserted(pairs).contains_key(key) {
            if pairs.last().0 == key {
                assert(pairs[pairs.len() - 1].0 == key);
            } else {
                let i = choose|i: int| 0 <= i < front.len() && (#[trigger] front[i]).0 == key;
                assert(pairs[i].0 == key);
            }
        }
        if exists|i: int| 0 <= i < pairs.len() && (#[trigger] pairs[i]).0 == key {
            let i = choose|i: int| 0 <= i < pairs.len() && (#[trigger] pairs[i]).0 == key;
            if i < front.len() {
                assert(front[i].0 == key);
            }
        }
    }
}

/// Of the pairs that share a key, the last one stays: the map that a run of
/// pairs builds holds, under the key of a pair that no later pair shares its
/// key with, the value of that pair.
pub proof fn last_write_wins<K, V>(pairs: Seq<(K, V)>, i: int)
    requires
        0 <= i < pairs.len(),
        forall|j: int| i < j < pairs.len() ==> (#[trigger] pairs[j]).0 != pairs[i].0,
    ensures
        inserted(pairs).contains_key(pairs[i].0),
        inserted(pairs)[pairs[i].0] == pairs[i].1,
    decreases pairs.len(),
{
    let front = pairs.drop_last();
    if i < pairs.len() - 1 {
        assert(front[i] == pairs[i]);
        assert forall|j: int| i < j < front.len() implies (#[trigger] front[j]).0 != front[i].0 by {
            assert(front[j] == pairs[j]);
        }
        last_write_wins(front, i);
        assert(pairs[pairs.len() - 1].0 != pairs[i].0);
    }
}

/// An envelope whose `"type"` names no kind is refused with that name,
/// whatever its payload is.
pub proof fn unknown_kind_refused(tag: Seq<char>, payload: JsonModel)
    requires
        Kind::named(tag) is None,
    ensures
        decode(JsonModel::Object(seq![("type"@, JsonModel::String(tag)), ("value"@, payload)]))
            == Err::<ValueModel, ErrorModel>(ErrorModel::UnknownKind(tag)),
{
    lemma_member_names();
    lemma_find_two("type"@, JsonModel::String(tag), "value"@, payload);
}

/// An integer that the type does not hold is refused, not wrapped round or
/// cut short: decoding the decimal text of `n` to an integer type whose
/// values lie between `lo` and `hi` fails with the text, where `n` lies
/// outside.
pub proof fn integer_out_of_range(target: Kind, signed: bool, lo: int, hi: int, n: int)
    requires
        n < lo || hi < n,
    ensures
        integer_decodes(target, signed, lo, hi, ValueModel::Text(target, decimal(n))) == Err::<
            int,
            ErrorModel,
        >(ErrorModel::NumericParseError(target, decimal(n))),
{
    if signed || 0 <= n {
        lemma_parse_decimal_of_decimal(n, signed);
    } else {
        lemma_digits((-n) as nat);
        let s = decimal(n);
        assert(s[0] == '-');
        assert(!is_digit(s[0]));
    }
}

/// An array that does not have exactly two items is refused by a pair with
/// an arity mismatch that tells both lengths.
pub proof fn pair_needs_two_items<T1: FromCadenceValue, T2: FromCadenceValue>(
    items: Seq<ValueModel>,
    r: Result<(T1, T2), ErrorModel>,
)
    requires
        items.len() != 2,
        <(T1, T2)>::decodes_to(ValueModel::Array(items), r),
    ensures
        r == Err::<(T1, T2), ErrorModel>(ErrorModel::ArityMismatch(2, items.len())),
{
}

/// The order of the entries does not matter where no two share a key: two
/// runs of pairs that hold the same pairs, each with keys that differ from
/// each other, build the same map.
pub proof fn order_does_not_matter<K, V>(p: Seq<(K, V)>, q: Seq<(K, V)>)
    requires
        forall|i: int, j: int| 0 <= i < j < p.len() ==> (#[trigger] p[i]).0 != (#[trigger] p[j]).0,
        forall|i: int, j: int| 0 <= i < j < q.len() ==> (#[trigger] q[i]).0 != (#[trigger] q[j]).0,
        p.to_set() == q.to_set(),
    ensures
        inserted(p) == inserted(q),
{
    let a = inserted(p);
    let b = inserted(q);
    assert forall|key: K| #[trigger] a.contains_key(key) implies b.contains_key(key) && a[key]
        == b[key] by {
        inserted_keys(p, key);
        let i = choose|i: int| 0 <= i < p.len() && (#[trigger] p[i]).0 == key;
        last_write_wins(p, i);
        assert(p.to_set().contains(p[i]));
        assert(q.contains(p[i]));
        let j = choose|j: int| 0 <= j < q.len() && q[j] == p[i];
        last_write_wins(q, j);
    }
    assert forall|key: K| #[trigger] b.contains_key(key) implies a.contains_key(key) by {
        inserted_keys(q, key);
        let j = choose|j: int| 0 <= j < q.len() && (#[trigger] q[j]).0 == key;
        assert(q.to_set().contains(q[j]));
        assert(p.contains(q[j]));
        let i = choose|i: int| 0 <= i < p.len() && p[i] == q[j];
        last_write_wins(p, i);
    }
    assert forall|key: K| a.dom().contains(key) == b.dom().contains(key) by {
        assert(a.contains_key(key) ==> b.contains_key(key));
        assert(b.contains_key(key) ==> a.contains_key(key));
    }
    assert(a.dom() =~= b.dom());
    assert forall|key: K| a.dom().contains(key) implies #[trigger] a[key] == b[key] by {
        assert(a.contains_key(key));
    }
    assert(a =~= b);
}

/// Writing a value of the value model owes its text: where the value has an
/// encoding, the outcome is the text of the encoded tree and nothing else,
/// and where it has none, the outcome is the error of the encoding.
pub proof fn value_is_written_exactly(
    value: CadenceValue,
    text_of: spec_fn(JsonModel) -> Seq<char>,
    r: Result<Seq<char>, ErrorModel>,
)
    requires
        writes_as(value, text_of, r),
    ensures
        match encode(value@) {
            Ok(tree) => r == Ok::<Seq<char>, ErrorModel>(text_of(tree)),
            Err(e) => r == Err::<Seq<char>, ErrorModel>(e),
        },
{
}

/// Whether decoding to `T` gives one native value at most for each value of
/// the value model.
pub open spec fn decodes_to_one<T: FromCadenceValue>() -> bool {
    forall|v: ValueModel, x: T, y: T|
        #![trigger
            T::decodes_to(v, Ok::<T, ErrorModel>(x)),
            T::decodes_to(v, Ok::<T, ErrorModel>(y)),
        ]
        T::decodes_to(v, Ok::<T, ErrorModel>(x)) && T::decodes_to(v, Ok::<T, ErrorModel>(y)) ==> x
            == y
}

/// Whether a `T` comes back from its encoding: whether decoding what a native
/// value encodes to gives that value and no other.
pub open spec fn comes_back<T: ToCadenceValue + FromCadenceValue>() -> bool {
    forall|x: T, v: ValueModel, y: T|
        #![trigger
            x.encodes_to(Ok::<ValueModel, ErrorModel>(v)),
            T::decodes_to(v, Ok::<T, ErrorModel>(y)),
        ]
        x.encodes_to(Ok::<ValueModel, ErrorModel>(v)) && T::decodes_to(v, Ok::<T, ErrorModel>(y))
            ==> y == x
}

/// Whether no two entries of a run have keys that decode to one native key.
pub open spec fn keys_decode_apart<K: FromCadenceValue>(entries: Seq<(ValueModel, ValueModel)>)
    -> bool {
    forall|i: int, j: int, x: K|
        #![trigger K::decodes_to(entries[i].0, Ok::<K, ErrorModel>(x)), entries[j]]
        0 <= i < j < entries.len() && K::decodes_to(entries[i].0, Ok::<K, ErrorModel>(x))
            ==> !K::decodes_to(entries[j].0, Ok::<K, ErrorModel>(x))
}

/// The pairs that two runs of entries decode to are the same pairs, where the
/// runs hold the same entries and each key and value decodes to one native
/// value at most. Where, besides, no two entries have keys that decode to
/// one native key, the pairs build the same map, in whatever order the
/// entries stand.
pub proof fn decoded_pairs_ignore_order<K: FromCadenceValue, V: FromCadenceValue>(
    first: Seq<(ValueModel, ValueModel)>,
    second: Seq<(ValueModel, ValueModel)>,
    p: Seq<(K, V)>,
    q: Seq<(K, V)>,
)
    requires
        first.to_set() == second.to_set(),
        decodes_to_one::<K>(),
        decodes_to_one::<V>(),
        entries_decode_to::<K, V>(first, Ok::<Seq<(K, V)>, ErrorModel>(p)),
        entries_decode_to::<K, V>(second, Ok::<Seq<(K, V)>, ErrorModel>(q)),
    ensures
        p.to_set() == q.to_set(),
        keys_decode_apart::<K>(first) && keys_decode_apart::<K>(second) ==> inserted(p)
            == inserted(q),
{
    assert forall|pair: (K, V)| p.contains(pair) implies q.contains(pair) by {
        let i = choose|i: int| 0 <= i < p.len() && p[i] == pair;
        lemma_decoded_pair_found::<K, V>(first, second, p, q, i);
    }
    assert forall|pair: (K, V)| q.contains(pair) implies p.contains(pair) by {
        let i = choose|i: int| 0 <= i < q.len() && q[i] == pair;
        lemma_decoded_pair_found::<K, V>(second, first, q, p, i);
    }
    assert(p.to_set() =~= q.to_set());
    if keys_decode_apart::<K>(first) && keys_decode_apart::<K>(second) {
        assert forall|i: int, j: int| 0 <= i < j < p.len() implies (#[trigger] p[i]).0 != (
        #[trigger] p[j]).0 by {
            assert(K::decodes_to(first[i].0, Ok::<K, ErrorModel>(p[i].0)));
            assert(K::decodes_to(first[j].0, Ok::<K, ErrorModel>(p[j].0)));
        }
        assert forall|i: int, j: int| 0 <= i < j < q.len() implies (#[trigger] q[i]).0 != (
        #[trigger] q[j]).0 by {
            assert(K::decodes_to(second[i].0, Ok::<K, ErrorModel>(q[i].0)));
            assert(K::decodes_to(second[j].0, Ok::<K, ErrorModel>(q[j].0)));
        }
        order_does_not_matter(p, q);
    }
}

/// The pair that the entry at `i` of one run decodes to is among the pairs
/// that another run with the same entries decodes to.
proof fn lemma_decoded_pair_found<K: FromCadenceValue, V: FromCadenceValue>(
    first: Seq<(ValueModel, ValueModel)>,
    second: Seq<(ValueModel, ValueModel)>,
    p: Seq<(K, V)>,
    q: Seq<(K, V)>,
    i: int,
)
    requires
        first.to_set() == second.to_set(),
        decodes_to_one::<K>(),
        decodes_to_one::<V>(),
        entries_decode_to::<K, V>(first, Ok::<Seq<(K, V)>, ErrorModel>(p)),
        entries_decode_to::<K, V>(second, Ok::<Seq<(K, V)>, ErrorModel>(q)),
        0 <= i < p.len(),
    ensures
        q.contains(p[i]),
{
    assert(first.to_set().contains(first[i]));
    assert(second.contains(first[i]));
    let j = choose|j: int| 0 <= j < second.len() && second[j] == first[i];
    assert(K::decodes_to(first[i].0, Ok::<K, ErrorModel>(p[i].0)));
    assert(K::decodes_to(second[j].0, Ok::<K, ErrorModel>(q[j].0)));
    assert(V::decodes_to(first[i].1, Ok::<V, ErrorModel>(p[i].1)));
    assert(V::decodes_to(second[j].1, Ok::<V, ErrorModel>(q[j].1)));
    assert(q[j] == p[i]);
}

/// The map that a dictionary decodes to does not depend on the order of its
/// entries: two dictionaries that hold the same entries, no two of them with
/// keys that decode to one native key, decode to maps that hold the same.
pub proof fn decoded_map_ignores_order<
    K: FromCadenceValue + Eq + std::hash::Hash,
    V: FromCadenceValue,
>(
    first: Seq<(ValueModel, ValueModel)>,
    second: Seq<(ValueModel, ValueModel)>,
    m: HashMap<K, V>,
    n: HashMap<K, V>,
)
    requires
        obeys_key_model::<K>(),
        first.to_set() == second.to_set(),
        decodes_to_one::<K>(),
        decodes_to_one::<V>(),
        keys_decode_apart::<K>(first),
        keys_decode_apart::<K>(second),
        HashMap::<K, V>::decodes_to(
            ValueModel::Dictionary(first),
            Ok::<HashMap<K, V>, ErrorModel>(m),
        ),
        HashMap::<K, V>::decodes_to(
            ValueModel::Dictionary(second),
            Ok::<HashMap<K, V>, ErrorModel>(n),
        ),
    ensures
        m@ == n@,
{
    let p = choose|p: Seq<(K, V)>|
        #[trigger] dictionary_decodes_to::<K, V>(
            ValueModel::Dictionary(first),
            Ok::<Seq<(K, V)>, ErrorModel>(p),
        ) && (obeys_key_model::<K>() ==> m@ == inserted(p));
    let q = choose|q: Seq<(K, V)>|
        #[trigger] dictionary_decodes_to::<K, V>(
            ValueModel::Dictionary(second),
            Ok::<Seq<(K, V)>, ErrorModel>(q),
        ) && (obeys_key_model::<K>() ==> n@ == inserted(q));
    decoded_pairs_ignore_order::<K, V>(first, second, p, q);
}

/// The map that a run of pairs builds is the map that the pairs list.
pub proof fn listed_pairs_build_the_map<K, V>(map: Map<K, V>, pairs: Seq<(K, V)>)
    requires
        lists(map, pairs),
    ensures
        inserted(pairs) == map,
{
    assert forall|i: int, j: int| 0 <= i < j < pairs.len() implies (#[trigger] pairs[i]).0 != (
    #[trigger] pairs[j]).0 by {
        assert(pairs.to_set().contains(pairs[i]));
        assert(pairs.to_set().contains(pairs[j]));
        assert(map.kv_pairs().contains(pairs[i]));
        assert(map.kv_pairs().contains(pairs[j]));
        if pairs[i].0 == pairs[j].0 {
            assert(pairs[i] == pairs[j]);
        }
    }
    let built = inserted(pairs);
    assert forall|key: K| #[trigger] map.contains_key(key) implies built.contains_key(key)
        && built[key] == map[key] by {
        assert(map.kv_pairs().contains((key, map[key])));
        assert(pairs.contains((key, map[key])));
        let i = choose|i: int| 0 <= i < pairs.len() && pairs[i] == (key, map[key]);
        last_write_wins(pairs, i);
    }
    assert forall|key: K| #[trigger] built.contains_key(key) implies map.contains_key(key) by {
        inserted_keys(pairs, key);
        let i = choose|i: int| 0 <= i < pairs.len() && (#[trigger] pairs[i]).0 == key;
        assert(pairs.to_set().contains(pairs[i]));
        assert(map.kv_pairs().contains(pairs[i]));
    }
    assert forall|key: K| built.dom().contains(key) == map.dom().contains(key) by {
        assert(map.contains_key(key) ==> built.contains_key(key));
        assert(built.contains_key(key) ==> map.contains_key(key));
    }
    assert(built.dom() =~= map.dom());
    assert(built =~= map);
}

/// A map comes back from its encoding, in whatever order the encoding lists
/// its entries: where keys and values come back from theirs, decoding the
/// dictionary that a map encodes to gives a map that holds the same.
pub proof fn map_round_trip<
    K: ToCadenceValue + FromCadenceValue + Eq + std::hash::Hash,
    V: ToCadenceValue + FromCadenceValue,
>(m: HashMap<K, V>, d: ValueModel, n: HashMap<K, V>)
    requires
        obeys_key_model::<K>(),
        comes_back::<K>(),
        comes_back::<V>(),
        m.encodes_to(Ok::<ValueModel, ErrorModel>(d)),
        HashMap::<K, V>::decodes_to(d, Ok::<HashMap<K, V>, ErrorModel>(n)),
    ensures
        n@ == m@,
{
    let pairs = choose|pairs: Seq<(K, V)>|
        #[trigger] pairs_encode_to(pairs, Ok::<ValueModel, ErrorModel>(d)) && (
        obeys_key_model::<K>() ==> lists(m@, pairs));
    let q = choose|q: Seq<(K, V)>|
        #[trigger] dictionary_decodes_to::<K, V>(d, Ok::<Seq<(K, V)>, ErrorModel>(q)) && (
        obeys_key_model::<K>() ==> n@ == inserted(q));
    let entries = d->Dictionary_0;
    assert forall|i: int| 0 <= i < pairs.len() implies q[i] == pairs[i] by {
        assert(pairs[i].0.encodes_to(Ok::<ValueModel, ErrorModel>(entries[i].0)));
        assert(pairs[i].1.encodes_to(Ok::<ValueModel, ErrorModel>(entries[i].1)));
        assert(K::decodes_to(entries[i].0, Ok::<K, ErrorModel>(q[i].0)));
        assert(V::decodes_to(entries[i].1, Ok::<V, ErrorModel>(q[i].1)));
    }
    assert(q =~= pairs);
    listed_pairs_build_the_map(m@, pairs);
}

/// The ordered map that a dictionary decodes to does not depend on the order
/// of its entries: two dictionaries that hold the same entries, no two of them with
/// keys that decode to one native key, decode to maps that hold the same.
pub proof fn decoded_ordered_map_ignores_order<
    K: FromCadenceValue + Ord,
    V: FromCadenceValue,
>(
    first: Seq<(ValueModel, ValueModel)>,
    second: Seq<(ValueModel, ValueModel)>,
    m: BTreeMap<K, V>,
    n: BTreeMap<K, V>,
)
    requires
        keys_ordered::<K>(),
        first.to_set() == second.to_set(),
        decodes_to_one::<K>(),
        decodes_to_one::<V>(),
        keys_decode_apart::<K>(first),
        keys_decode_apart::<K>(second),
        BTreeMap::<K, V>::decodes_to(
            ValueModel::Dictionary(first),
            Ok::<BTreeMap<K, V>, ErrorModel>(m),
        ),
        BTreeMap::<K, V>::decodes_to(
            ValueModel::Dictionary(second),
            Ok::<BTreeMap<K, V>, ErrorModel>(n),
        ),
    ensures
        m@ == n@,
{
    let p = choose|p: Seq<(K, V)>|
        #[trigger] dictionary_decodes_to::<K, V>(
            ValueModel::Dictionary(first),
            Ok::<Seq<(K, V)>, ErrorModel>(p),
        ) && (keys_ordered::<K>() ==> m@ == inserted(p));
    let q = choose|q: Seq<(K, V)>|
        #[trigger] dictionary_decodes_to::<K, V>(
            ValueModel::Dictionary(second),
            Ok::<Seq<(K, V)>, ErrorModel>(q),
        ) && (keys_ordered::<K>() ==> n@ == inserted(q));
    decoded_pairs_ignore_order::<K, V>(first, second, p, q);
}

/// An ordered map comes back from its encoding: where keys and values come back from theirs, decoding the
/// dictionary that a map encodes to gives a map that holds the same.
pub proof fn ordered_map_round_trip<
    K: ToCadenceValue + FromCadenceValue + Ord,
    V: ToCadenceValue + FromCadenceValue,
>(m: BTreeMap<K, V>, d: ValueModel, n: BTreeMap<K, V>)
    requires
        keys_ordered::<K>(),
        vstd::std_specs::btree::key_obeys_cmp_spec::<K>(),
        comes_back::<K>(),
        comes_back::<V>(),
        m.encodes_to(Ok::<ValueModel, ErrorModel>(d)),
        BTreeMap::<K, V>::decodes_to(d, Ok::<BTreeMap<K, V>, ErrorModel>(n)),
    ensures
        n@ == m@,
{
    let pairs = choose|pairs: Seq<(K, V)>|
        #[trigger] pairs_encode_to(pairs, Ok::<ValueModel, ErrorModel>(d)) && (
        vstd::std_specs::btree::key_obeys_cmp_spec::<K>() ==> lists(m@, pairs)
            && increasing_seq(keys_of(pairs)));
    let q = choose|q: Seq<(K, V)>|
        #[trigger] dictionary_decodes_to::<K, V>(d, Ok::<Seq<(K, V)>, ErrorModel>(q)) && (
        keys_ordered::<K>() ==> n@ == inserted(q));
    let entries = d->Dictionary_0;
    assert forall|i: int| 0 <= i < pairs.len() implies q[i] == pairs[i] by {
        assert(pairs[i].0.encodes_to(Ok::<ValueModel, ErrorModel>(entries[i].0)));
        assert(pairs[i].1.encodes_to(Ok::<ValueModel, ErrorModel>(entries[i].1)));
        assert(K::decodes_to(entries[i].0, Ok::<K, ErrorModel>(q[i].0)));
        assert(V::decodes_to(entries[i].1, Ok::<V, ErrorModel>(q[i].1)));
    }
    assert(q =~= pairs);
    listed_pairs_build_the_map(m@, pairs);
}

/// The booleans and the native integers are keys and values of which the
/// laws of maps hold: each comes back from its encoding, and each value of
/// the value model decodes to one of them at most.
pub proof fn primitives_come_back()
    ensures
        comes_back::<bool>(),
        decodes_to_one::<bool>(),
        comes_back::<u8>(),
        decodes_to_one::<u8>(),
        comes_back::<u16>(),
        decodes_to_one::<u16>(),
        comes_back::<u32>(),
        decodes_to_one::<u32>(),
        comes_back::<u64>(),
        decodes_to_one::<u64>(),
        comes_back::<i8>(),
        decodes_to_one::<i8>(),
        comes_back::<i16>(),
        decodes_to_one::<i16>(),
        comes_back::<i32>(),
        decodes_to_one::<i32>(),
        comes_back::<i64>(),
        decodes_to_one::<i64>(),
{
    assert forall|x: bool, v: ValueModel, y: bool|
        x.encodes_to(Ok::<ValueModel, ErrorModel>(v)) && bool::decodes_to(
            v,
            Ok::<bool, ErrorModel>(y),
        ) implies y == x by {
        bool_round_trip(x, v, Ok::<bool, ErrorModel>(y));
    }
    assert forall|x: u8, v: ValueModel, y: u8|
        x.encodes_to(Ok::<ValueModel, ErrorModel>(v)) && u8::decodes_to(
            v,
            Ok::<u8, ErrorModel>(y),
        ) implies y == x by {
        u8_round_trip(x, v, Ok::<u8, ErrorModel>(y));
    }
    assert forall|x: u16, v: ValueModel, y: u16|
        x.encodes_to(Ok::<ValueModel, ErrorModel>(v)) && u16::decodes_to(
            v,
            Ok::<u16, ErrorModel>(y),
        ) implies y == x by {
        u16_round_trip(x, v, Ok::<u16, ErrorModel>(y));
    }
    assert forall|x: u32, v: ValueModel, y: u32|
        x.encodes_to(Ok::<ValueModel, ErrorModel>(v)) && u32::decodes_to(
            v,
            Ok::<u32, ErrorModel>(y),
        ) implies y == x by {
        u32_round_trip(x, v, Ok::<u32, ErrorModel>(y));
    }
    assert forall|x: u64, v: ValueModel, y: u64|
        x.encodes_to(Ok::<ValueModel, ErrorModel>(v)) && u64::decodes_to(
            v,
            Ok::<u64, ErrorModel>(y),
        ) implies y == x by {
        u64_round_trip(x, v, Ok::<u64, ErrorModel>(y));
    }
    assert forall|x: i8, v: ValueModel, y: i8|
        x.encodes_to(Ok::<ValueModel, ErrorModel>(v)) && i8::decodes_to(
            v,
            Ok::<i8, ErrorModel>(y),
        ) implies y == x by {
        i8_round_trip(x, v, Ok::<i8, ErrorModel>(y));
    }
    assert forall|x: i16, v: ValueModel, y: i16|
        x.encodes_to(Ok::<ValueModel, ErrorModel>(v)) && i16::decodes_to(
            v,
            Ok::<i16, ErrorModel>(y),
        ) implies y == x by {
        i16_round_trip(x, v, Ok::<i16, ErrorModel>(y));
    }
    assert forall|x: i32, v: ValueModel, y: i32|
        x.encodes_to(Ok::<ValueModel, ErrorModel>(v)) && i32::decodes_to(
            v,
            Ok::<i32, ErrorModel>(y),
        ) implies y == x by {
        i32_round_trip(x, v, Ok::<i32, ErrorModel>(y));
    }
    assert forall|x: i64, v: ValueModel, y: i64|
        x.encodes_to(Ok::<ValueModel, ErrorModel>(v)) && i64::decodes_to(
            v,
            Ok::<i64, ErrorModel>(y),
        ) implies y == x by {
        i64_round_trip(x, v, Ok::<i64, ErrorModel>(y));
    }
}

/// An envelope whose payload is a string, a number, a boolean or `null`
/// unwraps to that payload.
pub proof fn envelope_unwraps(kind: Kind, payload: JsonModel)
    requires
        payload.is_primitive(),
    ensures
        unwrap_primitive(envelope(kind, payload)) == payload,
{
    lemma_member_names();
    lemma_find_two("type"@, JsonModel::String(kind.text()), "value"@, payload);
}

/// A key of a kind that carries a string gives that string as its member
/// name, whichever such kind it is: the name of an `Address` key is the
/// address.
pub proof fn text_key_names_itself(kind: Kind, s: Seq<char>)
    requires
        kind.is_text(),
    ensures
        key_name(ValueModel::Text(kind, s)) == Ok::<Seq<char>, ErrorModel>(s),
{
    envelope_unwraps(kind, JsonModel::String(s));
}

/// A `String` or an `Address` is handed on bare, whatever is known of the
/// native type: the envelope gives way to the string.
pub proof fn string_is_handed_on_bare(kind: Kind, s: Seq<char>, target: Target)
    requires
        kind == Kind::String || kind == Kind::Address,
    ensures
        bridged(ValueModel::Text(kind, s), target) == Ok::<JsonModel, ErrorModel>(
            JsonModel::String(s),
        ),
{
    lemma_member_names();
    let payload = JsonModel::String(s);
    let members = seq![("type"@, JsonModel::String(kind.text())), ("value"@, payload)];
    lemma_find_two("type"@, JsonModel::String(kind.text()), "value"@, payload);
    lemma_named_text(kind);
    assert(widen_payload(kind.text(), payload) == payload);
    assert(with_value(members, 1, payload) =~= members);
    assert(widen(envelope(kind, payload)) == envelope(kind, payload));
    envelope_unwraps(kind, payload);
}

/// An integer for a native integer is handed on as its number where the
/// integer holds it, and is refused with its text where it does not: there
/// is no wrapping round and no cutting short on this way either.
pub proof fn integer_is_handed_on_as_its_number(kind: Kind, n: int, native: Kind, target: Target)
    requires
        target.integer == Some(native),
        (kind.is_signed_integer() && -0x8000_0000_0000_0000 <= n <= 0x7fff_ffff_ffff_ffff) || (
        kind.is_unsigned_integer() && 0 <= n <= 0xffff_ffff_ffff_ffff),
    ensures
        bridged(ValueModel::Text(kind, decimal(n)), target) == if holds_number(native, n) {
            Ok::<JsonModel, ErrorModel>(JsonModel::Int(n))
        } else {
            Err::<JsonModel, ErrorModel>(ErrorModel::NumericParseError(native, decimal(n)))
        },
{
    lemma_parse_decimal_of_decimal(n, kind.is_signed_integer());
}

} // verus!
