//! Bindings of records: a struct value built from named members and read
//! back member by member, with names that may be mapped.

use vstd::prelude::*;
use vstd::string::StringExecFns;
use crate::{decoded, FromCadenceValue, ToCadenceValue};
use crate::error::{CadenceError, ErrorModel};
use crate::kind::Kind;
use crate::text::str_eq;
use crate::value::{
    composite_view, fields_view, lemma_view_composite, CadenceValue, CompositeField,
    CompositeValue, ValueModel,
};

verus! {

/// The name under which a record member stands on the wire: the name it is
/// mapped to where there is a mapping, and else the name it is declared with.
pub open spec fn wire_name_of(declared: Seq<char>, rename: Option<Seq<char>>) -> Seq<char> {
    match rename {
        Some(mapped) => mapped,
        None => declared,
    }
}

/// The place of the first field called `name` at or after `start`, if there
/// is one.
pub open spec fn field_from(fields: Seq<(Seq<char>, ValueModel)>, name: Seq<char>, start: int)
    -> Option<int>
    decreases fields.len() - start,
{
    if start < 0 || start >= fields.len() {
        None
    } else if fields[start].0 == name {
        Some(start)
    } else {
        field_from(fields, name, start + 1)
    }
}

/// The value of the first field called `name`, if there is one.
pub open spec fn field_value(fields: Seq<(Seq<char>, ValueModel)>, name: Seq<char>) -> Option<
    ValueModel,
> {
    match field_from(fields, name, 0) {
        Some(i) => Some(fields[i].1),
        None => None,
    }
}

/// Whether `r` is an outcome that decoding the member that stands under
/// `name` may have: a missing field where no field has the name, and else
/// what decoding the first such field's value gives.
pub open spec fn member_decodes_to<T: FromCadenceValue>(
    fields: Seq<(Seq<char>, ValueModel)>,
    name: Seq<char>,
    r: Result<T, ErrorModel>,
) -> bool {
    match field_value(fields, name) {
        Some(v) => T::decodes_to(v, r),
        None => r == Err::<T, ErrorModel>(ErrorModel::FieldMissing(name)),
    }
}

/// Whether `r` is an outcome that encoding a member under `name` and adding
/// it to `before` may have: the fields with the new one at the end, or the
/// error of the member's encoder.
pub open spec fn member_encodes_to<T: ToCadenceValue>(
    before: Seq<(Seq<char>, ValueModel)>,
    name: Seq<char>,
    member: T,
    r: Result<Seq<(Seq<char>, ValueModel)>, ErrorModel>,
) -> bool {
    match r {
        Ok(after) => exists|v: ValueModel|
            #[trigger] member.encodes_to(Ok::<ValueModel, ErrorModel>(v)) && after == before.push(
                (name, v),
            ),
        Err(e) => member.encodes_to(Err::<ValueModel, ErrorModel>(e)),
    }
}

/// Gives the name under which a record member stands on the wire.
pub fn wire_name(declared: &str, rename: Option<&str>) -> (r: String)
    ensures
        r@ == wire_name_of(
            declared@,
            match rename {
                Some(mapped) => Some(mapped@),
                None => None,
            },
        ),
{
    match rename {
        Some(mapped) => String::from_str(mapped),
        None => String::from_str(declared),
    }
}

/// Looks for the first field called `name`.
pub fn find_field<'a>(fields: &'a Vec<CompositeField>, name: &str) -> (r: Option<
    &'a CompositeField,
>)
    ensures
        match r {
            Some(field) => field.name@ == name@ && field_value(fields_view(fields@), name@) == Some(
                field.value@,
            ),
            None => field_value(fields_view(fields@), name@) is None,
        },
{
    let mut i: usize = 0;
    while i < fields.len()
        invariant
            i <= fields@.len(),
            field_from(fields_view(fields@), name@, 0) == field_from(
                fields_view(fields@),
                name@,
                i as int,
            ),
        decreases fields@.len() - i,
    {
        if str_eq(fields[i].name.as_str(), name) {
            return Some(&fields[i]);
        }
        i += 1;
    }
    None
}

/// Gives the payload of a `Struct`; any other value is a mismatch.
pub fn struct_payload(value: &CadenceValue) -> (r: Result<&CompositeValue, CadenceError>)
    ensures
        match r {
            Ok(payload) => value@ == composite_view(Kind::Struct, *payload),
            Err(e) => value@.kind() != Kind::Struct && e@ == ErrorModel::TypeMismatch(
                Kind::Struct,
                value@.kind(),
            ),
        },
{
    match value {
        CadenceValue::Struct { value: payload } => {
            proof {
                lemma_view_composite(*payload);
            }
            Ok(payload)
        },
        _ => Err(CadenceError::TypeMismatch { expected: Kind::Struct, got: value.kind() }),
    }
}

/// Decodes the record member that stands under `name` in the fields of a
/// composite: the first field of that name is decoded by the member's own
/// binding, and a composite without such a field is refused.
pub fn decode_member<T: FromCadenceValue>(payload: &CompositeValue, name: &str) -> (r: Result<
    T,
    CadenceError,
>)
    ensures
        member_decodes_to::<T>(fields_view(payload.fields@), name@, decoded(r)),
{
    match find_field(&payload.fields, name) {
        Some(field) => T::from_cadence_value(&field.value),
        None => Err(CadenceError::FieldMissing(String::from_str(name))),
    }
}

/// Encodes a record member by its own binding and adds it under `name` at
/// the end of `fields`. Where the member's encoder fails, `fields` stays as
/// it was.
pub fn encode_member<T: ToCadenceValue>(fields: &mut Vec<CompositeField>, name: &str, member: &T)
    -> (r: Result<(), CadenceError>)
    ensures
        member_encodes_to(
            fields_view(old(fields)@),
            name@,
            *member,
            match r {
                Ok(_) => Ok(fields_view(final(fields)@)),
                Err(e) => Err(e@),
            },
        ),
        r is Err ==> final(fields)@ == old(fields)@,
{
    match member.to_cadence_value() {
        Ok(value) => {
            let ghost before = fields@;
            fields.push(CompositeField { name: String::from_str(name), value });
            proof {
                assert(fields_view(fields@) =~= fields_view(before).push((name@, value@)));
                assert(member.encodes_to(Ok::<ValueModel, ErrorModel>(value@)));
            }
            Ok(())
        },
        Err(e) => Err(e),
    }
}

/// Builds the `Struct` that stands for a record: its identifier is the
/// record's own name, and its fields are the encoded members in the order in
/// which they were added.
pub fn struct_value(id: &str, fields: Vec<CompositeField>) -> (r: CadenceValue)
    ensures
        r@ == ValueModel::Composite(Kind::Struct, id@, fields_view(fields@)),
{
    let payload = CompositeValue { id: String::from_str(id), fields };
    proof {
        lemma_view_composite(payload);
    }
    CadenceValue::Struct { value: payload }
}

/// A field that is added to the end of a field list is the one that its name
/// finds, where no field before it has that name.
pub proof fn lemma_added_field_found(
    fields: Seq<(Seq<char>, ValueModel)>,
    name: Seq<char>,
    value: ValueModel,
)
    requires
        field_value(fields, name) is None,
    ensures
        field_value(fields.push((name, value)), name) == Some(value),
{
    lemma_field_from_push(fields, name, value, 0);
}

/// Where no field at or after `start` has the name, the added field is the
/// first at or after `start` that has it.
proof fn lemma_field_from_push(
    fields: Seq<(Seq<char>, ValueModel)>,
    name: Seq<char>,
    value: ValueModel,
    start: int,
)
    requires
        0 <= start <= fields.len(),
        field_from(fields, name, start) is None,
    ensures
        field_from(fields.push((name, value)), name, start) == Some(fields.len() as int),
    decreases fields.len() - start,
{
    let after = fields.push((name, value));
    if start < fields.len() {
        assert(after[start] == fields[start]);
        lemma_field_from_push(fields, name, value, start + 1);
    }
}

/// The first field of a name at or after `start` is the field at `i`, where
/// `i` is not before `start` and no field from `start` up to `i` has the name
/// of the field at `i`.
proof fn lemma_field_from_at(fields: Seq<(Seq<char>, ValueModel)>, i: int, start: int)
    requires
        0 <= start <= i < fields.len(),
        forall|j: int| start <= j < i ==> (#[trigger] fields[j]).0 != fields[i].0,
    ensures
        field_from(fields, fields[i].0, start) == Some(i),
    decreases i - start,
{
    if start < i {
        lemma_field_from_at(fields, i, start + 1);
    }
}

/// In a record whose members stand under names that differ from each other,
/// each member is decoded from its own field: the name of a field finds that
/// field, wherever it stands among the others.
pub proof fn distinct_fields_found(fields: Seq<(Seq<char>, ValueModel)>, i: int)
    requires
        0 <= i < fields.len(),
        forall|j: int, k: int|
            0 <= j < k < fields.len() ==> (#[trigger] fields[j]).0 != (#[trigger] fields[k]).0,
    ensures
        field_value(fields, fields[i].0) == Some(fields[i].1),
{
    lemma_field_from_at(fields, i, 0);
}

/// A record member that is mapped to another name stands on the wire under
/// the mapped name, and decoding the member under that mapping finds the
/// value that was encoded: where the fields before it hold no field of the
/// mapped name, the field added for the member is the one that the member is
/// decoded from.
pub proof fn renamed_member_round_trip<T: FromCadenceValue>(
    before: Seq<(Seq<char>, ValueModel)>,
    declared: Seq<char>,
    mapped: Seq<char>,
    value: ValueModel,
    r: Result<T, ErrorModel>,
)
    requires
        field_value(before, mapped) is None,
    ensures
        ({
            let name = wire_name_of(declared, Some(mapped));
            let after = before.push((name, value));
            &&& after.last().0 == mapped
            &&& member_decodes_to::<T>(after, name, r) == T::decodes_to(value, r)
        }),
{
    lemma_added_field_found(before, mapped, value);
}

} // verus!
