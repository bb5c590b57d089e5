//! Bindings of the native types: strings, booleans, integers, sequences,
//! optionals, maps and pairs.

use std::collections::{BTreeMap, HashMap};
use vstd::prelude::*;
use vstd::std_specs::btree::increasing_seq;
use vstd::std_specs::hash::obeys_key_model;
use vstd::string::StringExecFns;
use crate::{FromCadenceValue, ToCadenceValue};
use crate::error::{outcome, CadenceError, ErrorModel};
use crate::kind::Kind;
use crate::order::keys_ordered;
use crate::text::{decimal, format_signed, format_unsigned, parse_bounded, parse_integer};
use crate::value::{
    entries_view, lemma_view_array, lemma_view_dictionary, values_view, CadenceValue,
    DictionaryEntry, ValueModel,
};

verus! {

/// The error of asking a native value of kind `expected` of `value`.
pub open spec fn mismatch<T>(expected: Kind, value: ValueModel) -> Result<T, ErrorModel> {
    Err(ErrorModel::TypeMismatch(expected, value.kind()))
}

impl FromCadenceValue for CadenceValue {
    /// A value decodes to a copy of itself.
    open spec fn decodes_to(value: ValueModel, r: Result<Self, ErrorModel>) -> bool {
        r matches Ok(x) && x@ == value
    }

    fn from_cadence_value(value: &CadenceValue) -> (r: Result<Self, CadenceError>) {
        Ok(value.clone())
    }
}

impl ToCadenceValue for CadenceValue {
    /// A value encodes to a copy of itself.
    open spec fn encodes_to(&self, r: Result<ValueModel, ErrorModel>) -> bool {
        r == Ok::<ValueModel, ErrorModel>(self@)
    }

    fn to_cadence_value(&self) -> (r: Result<CadenceValue, CadenceError>) {
        Ok(self.clone())
    }
}

impl ToCadenceValue for String {
    open spec fn encodes_to(&self, r: Result<ValueModel, ErrorModel>) -> bool {
        r == Ok::<ValueModel, ErrorModel>(ValueModel::Text(Kind::String, self@))
    }

    fn to_cadence_value(&self) -> (r: Result<CadenceValue, CadenceError>) {
        Ok(CadenceValue::String { value: self.clone() })
    }
}

impl ToCadenceValue for &str {
    open spec fn encodes_to(&self, r: Result<ValueModel, ErrorModel>) -> bool {
        r == Ok::<ValueModel, ErrorModel>(ValueModel::Text(Kind::String, self@))
    }

    fn to_cadence_value(&self) -> (r: Result<CadenceValue, CadenceError>) {
        Ok(CadenceValue::String { value: String::from_str(self) })
    }
}

impl FromCadenceValue for String {
    open spec fn decodes_to(value: ValueModel, r: Result<Self, ErrorModel>) -> bool {
        match value {
            ValueModel::Text(Kind::String, s) => r matches Ok(x) && x@ == s,
            _ => r == mismatch::<String>(Kind::String, value),
        }
    }

    fn from_cadence_value(value: &CadenceValue) -> (r: Result<Self, CadenceError>) {
        match value {
            CadenceValue::String { value } => Ok(value.clone()),
            _ => Err(CadenceError::TypeMismatch { expected: Kind::String, got: value.kind() }),
        }
    }
}

impl ToCadenceValue for bool {
    open spec fn encodes_to(&self, r: Result<ValueModel, ErrorModel>) -> bool {
        r == Ok::<ValueModel, ErrorModel>(ValueModel::Bool(*self))
    }

    fn to_cadence_value(&self) -> (r: Result<CadenceValue, CadenceError>) {
        Ok(CadenceValue::Bool { value: *self })
    }
}

impl FromCadenceValue for bool {
    open spec fn decodes_to(value: ValueModel, r: Result<Self, ErrorModel>) -> bool {
        match value {
            ValueModel::Bool(b) => r == Ok::<bool, ErrorModel>(b),
            _ => r == mismatch::<bool>(Kind::Bool, value),
        }
    }

    fn from_cadence_value(value: &CadenceValue) -> (r: Result<Self, CadenceError>) {
        match value {
            CadenceValue::Bool { value } => Ok(*value),
            _ => Err(CadenceError::TypeMismatch { expected: Kind::Bool, got: value.kind() }),
        }
    }
}


/// The decimal string of a fixed-point value: of `Fix64` or of `UFix64`,
/// whichever it is. Any other kind is a mismatch.
pub fn fixed_point_text(value: &CadenceValue) -> (r: Result<&String, CadenceError>)
    ensures
        match r {
            Ok(s) => value@ == ValueModel::Text(value@.kind(), s@) && value@.kind().is_fixed_point(),
            Err(e) => !value@.kind().is_fixed_point() && e@ == ErrorModel::TypeMismatch(
                Kind::Fix64,
                value@.kind(),
            ),
        },
{
    match value {
        CadenceValue::Fix64 { value: s } => Ok(s),
        CadenceValue::UFix64 { value: s } => Ok(s),
        _ => Err(CadenceError::TypeMismatch { expected: Kind::Fix64, got: value.kind() }),
    }
}

/// What decoding `value` to an integer type gives: `target` is the kind that
/// stands for the type, `lo` and `hi` are its least and greatest value, and
/// `signed` says whether its text may begin with `-`.
///
/// The value must be of kind `target` or of the unsized kinds `Int` and
/// `UInt`, and its decimal string must write an integer of the type.
pub open spec fn integer_decodes(target: Kind, signed: bool, lo: int, hi: int, value: ValueModel)
    -> Result<int, ErrorModel> {
    match value {
        ValueModel::Text(kind, s) => if kind == target || kind == Kind::Int || kind == Kind::UInt {
            match parse_bounded(s, signed, lo, hi) {
                Some(n) => Ok(n),
                None => Err(ErrorModel::NumericParseError(target, s)),
            }
        } else {
            mismatch(target, value)
        },
        _ => mismatch(target, value),
    }
}

/// Decodes `value` to an integer between `lo` and `hi`.
fn integer_from(value: &CadenceValue, target: Kind, signed: bool, lo: i128, hi: i128) -> (r: Result<
    i128,
    CadenceError,
>)
    requires
        -0x1_0000_0000_0000_0000 <= lo <= 0 <= hi <= 0x1_0000_0000_0000_0000,
    ensures
        match r {
            Ok(n) => integer_decodes(target, signed, lo as int, hi as int, value@) == Ok::<
                int,
                ErrorModel,
            >(n as int) && lo <= n <= hi,
            Err(e) => integer_decodes(target, signed, lo as int, hi as int, value@) == Err::<
                int,
                ErrorModel,
            >(e@),
        },
{
    let kind = value.kind();
    if kind == target || kind == Kind::Int || kind == Kind::UInt {
        match value.text_payload() {
            Some(s) => match parse_integer(s.as_str(), signed, lo, hi) {
                Some(n) => Ok(n),
                None => Err(CadenceError::NumericParseError { target, text: s.clone() }),
            },
            None => Err(CadenceError::TypeMismatch { expected: target, got: kind }),
        }
    } else {
        Err(CadenceError::TypeMismatch { expected: target, got: kind })
    }
}

impl ToCadenceValue for u8 {
    open spec fn encodes_to(&self, r: Result<ValueModel, ErrorModel>) -> bool {
        r == Ok::<ValueModel, ErrorModel>(ValueModel::Text(Kind::UInt8, decimal(*self as int)))
    }

    fn to_cadence_value(&self) -> (r: Result<CadenceValue, CadenceError>) {
        Ok(CadenceValue::UInt8 { value: format_unsigned(*self as u128) })
    }
}

impl FromCadenceValue for u8 {
    open spec fn decodes_to(value: ValueModel, r: Result<Self, ErrorModel>) -> bool {
        match integer_decodes(Kind::UInt8, false, 0, 0xff, value) {
            Ok(n) => r == Ok::<u8, ErrorModel>(n as u8),
            Err(e) => r == Err::<u8, ErrorModel>(e),
        }
    }

    fn from_cadence_value(value: &CadenceValue) -> (r: Result<Self, CadenceError>) {
        match integer_from(value, Kind::UInt8, false, 0, 0xff) {
            Ok(n) => Ok(n as u8),
            Err(e) => Err(e),
        }
    }
}

impl ToCadenceValue for u16 {
    open spec fn encodes_to(&self, r: Result<ValueModel, ErrorModel>) -> bool {
        r == Ok::<ValueModel, ErrorModel>(ValueModel::Text(Kind::UInt16, decimal(*self as int)))
    }

    fn to_cadence_value(&self) -> (r: Result<CadenceValue, CadenceError>) {
        Ok(CadenceValue::UInt16 { value: format_unsigned(*self as u128) })
    }
}

impl FromCadenceValue for u16 {
    open spec fn decodes_to(value: ValueModel, r: Result<Self, ErrorModel>) -> bool {
        match integer_decodes(Kind::UInt16, false, 0, 0xffff, value) {
            Ok(n) => r == Ok::<u16, ErrorModel>(n as u16),
            Err(e) => r == Err::<u16, ErrorModel>(e),
        }
    }

    fn from_cadence_value(value: &CadenceValue) -> (r: Result<Self, CadenceError>) {
        match integer_from(value, Kind::UInt16, false, 0, 0xffff) {
            Ok(n) => Ok(n as u16),
            Err(e) => Err(e),
        }
    }
}

impl ToCadenceValue for u32 {
    open spec fn encodes_to(&self, r: Result<ValueModel, ErrorModel>) -> bool {
        r == Ok::<ValueModel, ErrorModel>(ValueModel::Text(Kind::UInt32, decimal(*self as int)))
    }

    fn to_cadence_value(&self) -> (r: Result<CadenceValue, CadenceError>) {
        Ok(CadenceValue::UInt32 { value: format_unsigned(*self as u128) })
    }
}

impl FromCadenceValue for u32 {
    open spec fn decodes_to(value: ValueModel, r: Result<Self, ErrorModel>) -> bool {
        match integer_decodes(Kind::UInt32, false, 0, 0xffff_ffff, value) {
            Ok(n) => r == Ok::<u32, ErrorModel>(n as u32),
            Err(e) => r == Err::<u32, ErrorModel>(e),
        }
    }

    fn from_cadence_value(value: &CadenceValue) -> (r: Result<Self, CadenceError>) {
        match integer_from(value, Kind::UInt32, false, 0, 0xffff_ffff) {
            Ok(n) => Ok(n as u32),
            Err(e) => Err(e),
        }
    }
}

impl ToCadenceValue for u64 {
    open spec fn encodes_to(&self, r: Result<ValueModel, ErrorModel>) -> bool {
        r == Ok::<ValueModel, ErrorModel>(ValueModel::Text(Kind::UInt64, decimal(*self as int)))
    }

    fn to_cadence_value(&self) -> (r: Result<CadenceValue, CadenceError>) {
        Ok(CadenceValue::UInt64 { value: format_unsigned(*self as u128) })
    }
}

impl FromCadenceValue for u64 {
    open spec fn decodes_to(value: ValueModel, r: Result<Self, ErrorModel>) -> bool {
        match integer_decodes(Kind::UInt64, false, 0, 0xffff_ffff_ffff_ffff, value) {
            Ok(n) => r == Ok::<u64, ErrorModel>(n as u64),
            Err(e) => r == Err::<u64, ErrorModel>(e),
        }
    }

    fn from_cadence_value(value: &CadenceValue) -> (r: Result<Self, CadenceError>) {
        match integer_from(value, Kind::UInt64, false, 0, 0xffff_ffff_ffff_ffff) {
            Ok(n) => Ok(n as u64),
            Err(e) => Err(e),
        }
    }
}

impl ToCadenceValue for i8 {
    open spec fn encodes_to(&self, r: Result<ValueModel, ErrorModel>) -> bool {
        r == Ok::<ValueModel, ErrorModel>(ValueModel::Text(Kind::Int8, decimal(*self as int)))
    }

    fn to_cadence_value(&self) -> (r: Result<CadenceValue, CadenceError>) {
        Ok(CadenceValue::Int8 { value: format_signed(*self as i128) })
    }
}

impl FromCadenceValue for i8 {
    open spec fn decodes_to(value: ValueModel, r: Result<Self, ErrorModel>) -> bool {
        match integer_decodes(Kind::Int8, true, -0x80, 0x7f, value) {
            Ok(n) => r == Ok::<i8, ErrorModel>(n as i8),
            Err(e) => r == Err::<i8, ErrorModel>(e),
        }
    }

    fn from_cadence_value(value: &CadenceValue) -> (r: Result<Self, CadenceError>) {
        match integer_from(value, Kind::Int8, true, -0x80, 0x7f) {
            Ok(n) => Ok(n as i8),
            Err(e) => Err(e),
        }
    }
}

impl ToCadenceValue for i16 {
    open spec fn encodes_to(&self, r: Result<ValueModel, ErrorModel>) -> bool {
        r == Ok::<ValueModel, ErrorModel>(ValueModel::Text(Kind::Int16, decimal(*self as int)))
    }

    fn to_cadence_value(&self) -> (r: Result<CadenceValue, CadenceError>) {
        Ok(CadenceValue::Int16 { value: format_signed(*self as i128) })
    }
}

impl FromCadenceValue for i16 {
    open spec fn decodes_to(value: ValueModel, r: Result<Self, ErrorModel>) -> bool {
        match integer_decodes(Kind::Int16, true, -0x8000, 0x7fff, value) {
            Ok(n) => r == Ok::<i16, ErrorModel>(n as i16),
            Err(e) => r == Err::<i16, ErrorModel>(e),
        }
    }

    fn from_cadence_value(value: &CadenceValue) -> (r: Result<Self, CadenceError>) {
        match integer_from(value, Kind::Int16, true, -0x8000, 0x7fff) {
            Ok(n) => Ok(n as i16),
            Err(e) => Err(e),
        }
    }
}

impl ToCadenceValue for i32 {
    open spec fn encodes_to(&self, r: Result<ValueModel, ErrorModel>) -> bool {
        r == Ok::<ValueModel, ErrorModel>(ValueModel::Text(Kind::Int32, decimal(*self as int)))
    }

    fn to_cadence_value(&self) -> (r: Result<CadenceValue, CadenceError>) {
        Ok(CadenceValue::Int32 { value: format_signed(*self as i128) })
    }
}

impl FromCadenceValue for i32 {
    open spec fn decodes_to(value: ValueModel, r: Result<Self, ErrorModel>) -> bool {
        match integer_decodes(Kind::Int32, true, -0x8000_0000, 0x7fff_ffff, value) {
            Ok(n) => r == Ok::<i32, ErrorModel>(n as i32),
            Err(e) => r == Err::<i32, ErrorModel>(e),
        }
    }

    fn from_cadence_value(value: &CadenceValue) -> (r: Result<Self, CadenceError>) {
        match integer_from(value, Kind::Int32, true, -0x8000_0000, 0x7fff_ffff) {
            Ok(n) => Ok(n as i32),
            Err(e) => Err(e),
        }
    }
}

impl ToCadenceValue for i64 {
    open spec fn encodes_to(&self, r: Result<ValueModel, ErrorModel>) -> bool {
        r == Ok::<ValueModel, ErrorModel>(ValueModel::Text(Kind::Int64, decimal(*self as int)))
    }

    fn to_cadence_value(&self) -> (r: Result<CadenceValue, CadenceError>) {
        Ok(CadenceValue::Int64 { value: format_signed(*self as i128) })
    }
}

impl FromCadenceValue for i64 {
    open spec fn decodes_to(value: ValueModel, r: Result<Self, ErrorModel>) -> bool {
        match integer_decodes(Kind::Int64, true, -0x8000_0000_0000_0000, 0x7fff_ffff_ffff_ffff, value) {
            Ok(n) => r == Ok::<i64, ErrorModel>(n as i64),
            Err(e) => r == Err::<i64, ErrorModel>(e),
        }
    }

    fn from_cadence_value(value: &CadenceValue) -> (r: Result<Self, CadenceError>) {
        match integer_from(value, Kind::Int64, true, -0x8000_0000_0000_0000, 0x7fff_ffff_ffff_ffff) {
            Ok(n) => Ok(n as i64),
            Err(e) => Err(e),
        }
    }
}

/// Whether encoding `x` may succeed.
pub open spec fn may_encode<T: ToCadenceValue>(x: T) -> bool {
    exists|v: ValueModel| x.encodes_to(Ok::<ValueModel, ErrorModel>(v))
}

/// Whether decoding `value` to a `T` may succeed.
pub open spec fn may_decode<T: FromCadenceValue>(value: ValueModel) -> bool {
    exists|x: T| T::decodes_to(value, Ok::<T, ErrorModel>(x))
}

/// Whether `r` is an outcome that encoding the items of `items` in order, up
/// to the first that fails, may have.
pub open spec fn each_encodes_to<T: ToCadenceValue>(
    items: Seq<T>,
    r: Result<Seq<ValueModel>, ErrorModel>,
) -> bool {
    match r {
        Ok(values) => values.len() == items.len() && forall|i: int|
            0 <= i < items.len() ==> (#[trigger] items[i]).encodes_to(
                Ok::<ValueModel, ErrorModel>(values[i]),
            ),
        Err(e) => exists|i: int|
            0 <= i < items.len() && (#[trigger] items[i]).encodes_to(
                Err::<ValueModel, ErrorModel>(e),
            ) && forall|j: int| 0 <= j < i ==> may_encode(#[trigger] items[j]),
    }
}

/// Whether `r` is an outcome that decoding each of `values` in order, up to
/// the first that fails, may have.
pub open spec fn each_decodes_to<T: FromCadenceValue>(
    values: Seq<ValueModel>,
    r: Result<Seq<T>, ErrorModel>,
) -> bool {
    match r {
        Ok(items) => items.len() == values.len() && forall|i: int|
            0 <= i < values.len() ==> T::decodes_to(
                #[trigger] values[i],
                Ok::<T, ErrorModel>(items[i]),
            ),
        Err(e) => exists|i: int|
            0 <= i < values.len() && T::decodes_to(#[trigger] values[i], Err::<T, ErrorModel>(e))
                && forall|j: int| 0 <= j < i ==> may_decode::<T>(#[trigger] values[j]),
    }
}

/// Encodes the items of `items`, in order, up to the first that fails.
pub(crate) fn encode_all<T: ToCadenceValue>(items: &[T]) -> (r: Result<
    Vec<CadenceValue>,
    CadenceError,
>)
    ensures
        each_encodes_to(
            items@,
            match r {
                Ok(values) => Ok(values_view(values@)),
                Err(e) => Err(e@),
            },
        ),
{
    let mut out: Vec<CadenceValue> = Vec::with_capacity(items.len());
    let mut i: usize = 0;
    while i < items.len()
        invariant
            i <= items@.len(),
            out@.len() == i,
            forall|j: int|
                0 <= j < i ==> (#[trigger] items@[j]).encodes_to(
                    Ok::<ValueModel, ErrorModel>(out@[j]@),
                ),
        decreases items@.len() - i,
    {
        match items[i].to_cadence_value() {
            Ok(v) => {
                out.push(v);
            },
            Err(e) => {
                proof {
                    assert forall|j: int| 0 <= j < i implies may_encode(#[trigger] items@[j]) by {
                        assert(items@[j].encodes_to(Ok::<ValueModel, ErrorModel>(out@[j]@)));
                    }
                    assert(items@[i as int].encodes_to(Err::<ValueModel, ErrorModel>(e@)));
                }
                return Err(e);
            },
        }
        i += 1;
    }
    Ok(out)
}

/// Decodes each of `values`, in order, up to the first that fails.
fn decode_all<T: FromCadenceValue>(values: &Vec<CadenceValue>) -> (r: Result<Vec<T>, CadenceError>)
    ensures
        each_decodes_to::<T>(
            values_view(values@),
            match r {
                Ok(items) => Ok(items@),
                Err(e) => Err(e@),
            },
        ),
{
    let mut out: Vec<T> = Vec::with_capacity(values.len());
    let mut i: usize = 0;
    while i < values.len()
        invariant
            i <= values@.len(),
            out@.len() == i,
            forall|j: int|
                0 <= j < i ==> T::decodes_to(
                    #[trigger] values_view(values@)[j],
                    Ok::<T, ErrorModel>(out@[j]),
                ),
        decreases values@.len() - i,
    {
        match T::from_cadence_value(&values[i]) {
            Ok(x) => {
                out.push(x);
            },
            Err(e) => {
                proof {
                    let vs = values_view(values@);
                    assert forall|j: int| 0 <= j < i implies may_decode::<T>(#[trigger] vs[j]) by {
                        assert(T::decodes_to(vs[j], Ok::<T, ErrorModel>(out@[j])));
                    }
                    assert(T::decodes_to(vs[i as int], Err::<T, ErrorModel>(e@)));
                }
                return Err(e);
            },
        }
        i += 1;
    }
    Ok(out)
}

impl<T: ToCadenceValue> ToCadenceValue for Vec<T> {
    /// An `Array` of the encoded items, in order; or the error of the first
    /// item that fails.
    open spec fn encodes_to(&self, r: Result<ValueModel, ErrorModel>) -> bool {
        match r {
            Ok(ValueModel::Array(values)) => each_encodes_to(
                self@,
                Ok::<Seq<ValueModel>, ErrorModel>(values),
            ),
            Ok(_) => false,
            Err(e) => each_encodes_to(self@, Err::<Seq<ValueModel>, ErrorModel>(e)),
        }
    }

    fn to_cadence_value(&self) -> (r: Result<CadenceValue, CadenceError>) {
        match encode_all(self.as_slice()) {
            Ok(values) => {
                proof {
                    lemma_view_array(values);
                }
                Ok(CadenceValue::Array { value: values })
            },
            Err(e) => Err(e),
        }
    }
}

impl<T: FromCadenceValue> FromCadenceValue for Vec<T> {
    /// The decoded items of an `Array`, in order; or the error of the first
    /// item that fails. Any other kind is a mismatch.
    open spec fn decodes_to(value: ValueModel, r: Result<Self, ErrorModel>) -> bool {
        match value {
            ValueModel::Array(values) => each_decodes_to::<T>(
                values,
                match r {
                    Ok(items) => Ok(items@),
                    Err(e) => Err(e),
                },
            ),
            _ => r == mismatch::<Vec<T>>(Kind::Array, value),
        }
    }

    fn from_cadence_value(value: &CadenceValue) -> (r: Result<Self, CadenceError>) {
        match value {
            CadenceValue::Array { value: values } => {
                proof {
                    lemma_view_array(*values);
                }
                decode_all::<T>(values)
            },
            _ => Err(CadenceError::TypeMismatch { expected: Kind::Array, got: value.kind() }),
        }
    }
}

impl<T: ToCadenceValue> ToCadenceValue for Option<T> {
    /// `None` is the empty optional. `Some(x)` is the optional that holds the
    /// encoding of `x`, and fails as `x` fails.
    open spec fn encodes_to(&self, r: Result<ValueModel, ErrorModel>) -> bool {
        match self {
            Some(x) => match r {
                Ok(ValueModel::Optional(Some(inner))) => x.encodes_to(
                    Ok::<ValueModel, ErrorModel>(*inner),
                ),
                Ok(_) => false,
                Err(e) => x.encodes_to(Err::<ValueModel, ErrorModel>(e)),
            },
            None => r == Ok::<ValueModel, ErrorModel>(ValueModel::Optional(None)),
        }
    }

    fn to_cadence_value(&self) -> (r: Result<CadenceValue, CadenceError>) {
        match self {
            Some(x) => match x.to_cadence_value() {
                Ok(inner) => Ok(CadenceValue::Optional { value: Some(Box::new(inner)) }),
                Err(e) => Err(e),
            },
            None => Ok(CadenceValue::Optional { value: None }),
        }
    }
}

impl<T: FromCadenceValue> FromCadenceValue for Option<T> {
    /// The empty optional is `None`. A full one is `Some` of what its inner
    /// value decodes to, and fails as that fails. Any other kind is a
    /// mismatch.
    open spec fn decodes_to(value: ValueModel, r: Result<Self, ErrorModel>) -> bool {
        match value {
            ValueModel::Optional(None) => r == Ok::<Option<T>, ErrorModel>(None),
            ValueModel::Optional(Some(inner)) => match r {
                Ok(Some(x)) => T::decodes_to(*inner, Ok::<T, ErrorModel>(x)),
                Ok(None) => false,
                Err(e) => T::decodes_to(*inner, Err::<T, ErrorModel>(e)),
            },
            _ => r == mismatch::<Option<T>>(Kind::Optional, value),
        }
    }

    fn from_cadence_value(value: &CadenceValue) -> (r: Result<Self, CadenceError>) {
        match value {
            CadenceValue::Optional { value: inner } => match inner {
                Some(v) => match T::from_cadence_value(v) {
                    Ok(x) => Ok(Some(x)),
                    Err(e) => Err(e),
                },
                None => Ok(None),
            },
            _ => Err(CadenceError::TypeMismatch { expected: Kind::Optional, got: value.kind() }),
        }
    }
}

impl<T1: ToCadenceValue, T2: ToCadenceValue> ToCadenceValue for (T1, T2) {
    /// An `Array` of the two encoded parts; or the error of the first part
    /// that fails.
    open spec fn encodes_to(&self, r: Result<ValueModel, ErrorModel>) -> bool {
        match r {
            Ok(ValueModel::Array(values)) => values.len() == 2 && self.0.encodes_to(
                Ok::<ValueModel, ErrorModel>(values[0]),
            ) && self.1.encodes_to(Ok::<ValueModel, ErrorModel>(values[1])),
            Ok(_) => false,
            Err(e) => self.0.encodes_to(Err::<ValueModel, ErrorModel>(e)) || (may_encode(self.0)
                && self.1.encodes_to(Err::<ValueModel, ErrorModel>(e))),
        }
    }

    fn to_cadence_value(&self) -> (r: Result<CadenceValue, CadenceError>) {
        let first = match self.0.to_cadence_value() {
            Ok(v) => v,
            Err(e) => {
                return Err(e);
            },
        };
        let second = match self.1.to_cadence_value() {
            Ok(v) => v,
            Err(e) => {
                return Err(e);
            },
        };
        let mut values: Vec<CadenceValue> = Vec::with_capacity(2);
        values.push(first);
        values.push(second);
        proof {
            lemma_view_array(values);
        }
        Ok(CadenceValue::Array { value: values })
    }
}

impl<T1: FromCadenceValue, T2: FromCadenceValue> FromCadenceValue for (T1, T2) {
    /// The two decoded items of an `Array` of exactly two; or the error of the
    /// first that fails. An array of another length is an arity mismatch, any
    /// other kind a type mismatch.
    open spec fn decodes_to(value: ValueModel, r: Result<Self, ErrorModel>) -> bool {
        match value {
            ValueModel::Array(values) => if values.len() != 2 {
                r == Err::<(T1, T2), ErrorModel>(ErrorModel::ArityMismatch(2, values.len()))
            } else {
                match r {
                    Ok(pair) => T1::decodes_to(values[0], Ok::<T1, ErrorModel>(pair.0))
                        && T2::decodes_to(values[1], Ok::<T2, ErrorModel>(pair.1)),
                    Err(e) => T1::decodes_to(values[0], Err::<T1, ErrorModel>(e)) || (
                    may_decode::<T1>(values[0]) && T2::decodes_to(
                        values[1],
                        Err::<T2, ErrorModel>(e),
                    )),
                }
            },
            _ => r == mismatch::<(T1, T2)>(Kind::Array, value),
        }
    }

    fn from_cadence_value(value: &CadenceValue) -> (r: Result<Self, CadenceError>) {
        match value {
            CadenceValue::Array { value: values } => {
                proof {
                    lemma_view_array(*values);
                }
                if values.len() != 2 {
                    return Err(CadenceError::ArityMismatch { expected: 2, got: values.len() });
                }
                let first = match T1::from_cadence_value(&values[0]) {
                    Ok(x) => x,
                    Err(e) => {
                        return Err(e);
                    },
                };
                let second = match T2::from_cadence_value(&values[1]) {
                    Ok(x) => x,
                    Err(e) => {
                        return Err(e);
                    },
                };
                Ok((first, second))
            },
            _ => Err(CadenceError::TypeMismatch { expected: Kind::Array, got: value.kind() }),
        }
    }
}

/// The map that a run of pairs builds when each is inserted in turn: of two
/// pairs with one key, the later one stays.
pub open spec fn inserted<K, V>(pairs: Seq<(K, V)>) -> Map<K, V>
    decreases pairs.len(),
{
    if pairs.len() == 0 {
        Map::empty()
    } else {
        inserted(pairs.drop_last()).insert(pairs.last().0, pairs.last().1)
    }
}

/// Whether decoding `entry` to a key and a value, the key first, may fail
/// with `e`.
pub open spec fn entry_fails<K: FromCadenceValue, V: FromCadenceValue>(
    entry: (ValueModel, ValueModel),
    e: ErrorModel,
) -> bool {
    K::decodes_to(entry.0, Err::<K, ErrorModel>(e)) || (may_decode::<K>(entry.0) && V::decodes_to(
        entry.1,
        Err::<V, ErrorModel>(e),
    ))
}

/// Whether `r` is an outcome that decoding the entries of a dictionary to
/// pairs of a key and a value, in order and up to the first failure, may
/// have.
pub open spec fn entries_decode_to<K: FromCadenceValue, V: FromCadenceValue>(
    entries: Seq<(ValueModel, ValueModel)>,
    r: Result<Seq<(K, V)>, ErrorModel>,
) -> bool {
    match r {
        Ok(pairs) => pairs.len() == entries.len() && forall|i: int|
            0 <= i < entries.len() ==> K::decodes_to(
                (#[trigger] entries[i]).0,
                Ok::<K, ErrorModel>(pairs[i].0),
            ) && V::decodes_to(entries[i].1, Ok::<V, ErrorModel>(pairs[i].1)),
        Err(e) => exists|i: int|
            0 <= i < entries.len() && entry_fails::<K, V>(#[trigger] entries[i], e) && forall|
                j: int,
            |
                0 <= j < i ==> may_decode::<K>((#[trigger] entries[j]).0) && may_decode::<V>(
                    entries[j].1,
                ),
    }
}

/// Whether `r` is an outcome that decoding `value` to a run of pairs may have:
/// the decoded entries of a `Dictionary`, in their order and with every
/// entry kept; or the error of the first key or value that fails. Any other
/// kind is a mismatch.
pub open spec fn dictionary_decodes_to<K: FromCadenceValue, V: FromCadenceValue>(
    value: ValueModel,
    r: Result<Seq<(K, V)>, ErrorModel>,
) -> bool {
    match value {
        ValueModel::Dictionary(entries) => entries_decode_to::<K, V>(entries, r),
        _ => r == mismatch::<Seq<(K, V)>>(Kind::Dictionary, value),
    }
}

/// Decodes a `Dictionary` to the run of its pairs: each entry gives one
/// pair, in the order of the entries, and entries with one key all stay.
/// The key of an entry is decoded before its value, and the first failure
/// stops the decoding.
pub fn from_cadence_dictionary<K: FromCadenceValue, V: FromCadenceValue>(
    value: &CadenceValue,
) -> (r: Result<Vec<(K, V)>, CadenceError>)
    ensures
        dictionary_decodes_to::<K, V>(
            value@,
            match r {
                Ok(pairs) => Ok(pairs@),
                Err(e) => Err(e@),
            },
        ),
{
    match value {
        CadenceValue::Dictionary { value: entries } => {
            proof {
                lemma_view_dictionary(*entries);
            }
            let ghost ev = entries_view(entries@);
            let mut pairs: Vec<(K, V)> = Vec::with_capacity(entries.len());
            let mut i: usize = 0;
            while i < entries.len()
                invariant
                    i <= entries@.len(),
                    ev == entries_view(entries@),
                    value@ == ValueModel::Dictionary(ev),
                    pairs@.len() == i,
                    forall|j: int|
                        0 <= j < i ==> K::decodes_to(
                            (#[trigger] ev[j]).0,
                            Ok::<K, ErrorModel>(pairs@[j].0),
                        ) && V::decodes_to(ev[j].1, Ok::<V, ErrorModel>(pairs@[j].1)),
                decreases entries@.len() - i,
            {
                let key = match K::from_cadence_value(&entries[i].key) {
                    Ok(key) => key,
                    Err(e) => {
                        proof {
                            lemma_entry_fails::<K, V>(ev, pairs@, i as int, e@);
                        }
                        return Err(e);
                    },
                };
                let val = match V::from_cadence_value(&entries[i].value) {
                    Ok(val) => val,
                    Err(e) => {
                        proof {
                            assert(may_decode::<K>(ev[i as int].0));
                            lemma_entry_fails::<K, V>(ev, pairs@, i as int, e@);
                        }
                        return Err(e);
                    },
                };
                pairs.push((key, val));
                i += 1;
            }
            proof {
                assert(value@->Dictionary_0 == ev);
                assert(entries_decode_to::<K, V>(ev, Ok::<Seq<(K, V)>, ErrorModel>(pairs@)));
            }
            Ok(pairs)
        },
        _ => Err(CadenceError::TypeMismatch { expected: Kind::Dictionary, got: value.kind() }),
    }
}

/// Inserts the pairs of a run into a new hash map, in their order.
fn hash_map_of<K: Eq + std::hash::Hash, V>(pairs: Vec<(K, V)>) -> (map: HashMap<K, V>)
    ensures
        obeys_key_model::<K>() ==> map@ == inserted(pairs@),
{
    let mut map: HashMap<K, V> = HashMap::with_capacity(pairs.len());
    let ghost all = pairs@;
    for pair in it: pairs
        invariant
            it.seq() == all,
            obeys_key_model::<K>() ==> map@ == inserted(all.take(it.index() as int)),
    {
        proof {
            let next = all.take(it.index() + 1);
            assert(next.drop_last() =~= all.take(it.index() as int));
            assert(next.last() == all[it.index() as int]);
        }
        map.insert(pair.0, pair.1);
    }
    proof {
        assert(all.take(all.len() as int) =~= all);
    }
    map
}

/// Inserts the pairs of a run into a new ordered map, in their order.
fn btree_map_of<K: Ord, V>(pairs: Vec<(K, V)>) -> (map: BTreeMap<K, V>)
    ensures
        keys_ordered::<K>() ==> map@ == inserted(pairs@),
{
    let mut map: BTreeMap<K, V> = BTreeMap::new();
    let ghost all = pairs@;
    for pair in it: pairs
        invariant
            it.seq() == all,
            keys_ordered::<K>() ==> map@ == inserted(all.take(it.index() as int)),
    {
        proof {
            let next = all.take(it.index() + 1);
            assert(next.drop_last() =~= all.take(it.index() as int));
            assert(next.last() == all[it.index() as int]);
        }
        map.insert(pair.0, pair.1);
    }
    proof {
        assert(all.take(all.len() as int) =~= all);
    }
    map
}

impl<K: FromCadenceValue + Eq + std::hash::Hash, V: FromCadenceValue> FromCadenceValue for HashMap<
    K,
    V,
> {
    /// The map built from the decoded entries of a `Dictionary`, inserted in
    /// the order of the entries, so that the last of several entries with one
    /// key stays; or the error of the first key or value that fails. Any
    /// other kind is a mismatch.
    ///
    /// What the map holds is stated where the keys hash and compare as a
    /// hash map needs.
    open spec fn decodes_to(value: ValueModel, r: Result<Self, ErrorModel>) -> bool {
        match r {
            Ok(map) => exists|pairs: Seq<(K, V)>|
                #[trigger] dictionary_decodes_to::<K, V>(
                    value,
                    Ok::<Seq<(K, V)>, ErrorModel>(pairs),
                ) && (obeys_key_model::<K>() ==> map@ == inserted(pairs)),
            Err(e) => dictionary_decodes_to::<K, V>(value, Err::<Seq<(K, V)>, ErrorModel>(e)),
        }
    }

    fn from_cadence_value(value: &CadenceValue) -> (r: Result<Self, CadenceError>) {
        match from_cadence_dictionary::<K, V>(value) {
            Ok(pairs) => {
                let ghost decoded = pairs@;
                let map = hash_map_of(pairs);
                proof {
                    assert(dictionary_decodes_to::<K, V>(
                        value@,
                        Ok::<Seq<(K, V)>, ErrorModel>(decoded),
                    ));
                }
                Ok(map)
            },
            Err(e) => Err(e),
        }
    }
}

impl<K: FromCadenceValue + Ord, V: FromCadenceValue> FromCadenceValue for BTreeMap<K, V> {
    /// The map built from the decoded entries of a `Dictionary`, inserted in
    /// the order of the entries, so that the last of several entries with one
    /// key stays; or the error of the first key or value that fails. Any
    /// other kind is a mismatch.
    ///
    /// What the map holds is stated where the keys compare as an ordered map
    /// needs.
    open spec fn decodes_to(value: ValueModel, r: Result<Self, ErrorModel>) -> bool {
        match r {
            Ok(map) => exists|pairs: Seq<(K, V)>|
                #[trigger] dictionary_decodes_to::<K, V>(
                    value,
                    Ok::<Seq<(K, V)>, ErrorModel>(pairs),
                ) && (keys_ordered::<K>() ==> map@ == inserted(pairs)),
            Err(e) => dictionary_decodes_to::<K, V>(value, Err::<Seq<(K, V)>, ErrorModel>(e)),
        }
    }

    fn from_cadence_value(value: &CadenceValue) -> (r: Result<Self, CadenceError>) {
        match from_cadence_dictionary::<K, V>(value) {
            Ok(pairs) => {
                let ghost decoded = pairs@;
                let map = btree_map_of(pairs);
                proof {
                    assert(dictionary_decodes_to::<K, V>(
                        value@,
                        Ok::<Seq<(K, V)>, ErrorModel>(decoded),
                    ));
                }
                Ok(map)
            },
            Err(e) => Err(e),
        }
    }
}

/// Where every entry before `i` decoded and the entry at `i` fails with `e`,
/// decoding the entries fails with `e`.
proof fn lemma_entry_fails<K: FromCadenceValue, V: FromCadenceValue>(
    entries: Seq<(ValueModel, ValueModel)>,
    pairs: Seq<(K, V)>,
    i: int,
    e: ErrorModel,
)
    requires
        0 <= i < entries.len(),
        pairs.len() == i,
        forall|j: int|
            0 <= j < i ==> K::decodes_to((#[trigger] entries[j]).0, Ok::<K, ErrorModel>(pairs[j].0))
                && V::decodes_to(entries[j].1, Ok::<V, ErrorModel>(pairs[j].1)),
        entry_fails::<K, V>(entries[i], e),
    ensures
        entries_decode_to::<K, V>(entries, Err::<Seq<(K, V)>, ErrorModel>(e)),
{
    assert forall|j: int| 0 <= j < i implies may_decode::<K>((#[trigger] entries[j]).0)
        && may_decode::<V>(entries[j].1) by {
        assert(K::decodes_to(entries[j].0, Ok::<K, ErrorModel>(pairs[j].0)));
        assert(V::decodes_to(entries[j].1, Ok::<V, ErrorModel>(pairs[j].1)));
    }
}

/// Whether `pairs` lists what `map` holds: each key with its value, once.
pub open spec fn lists<K, V>(map: Map<K, V>, pairs: Seq<(K, V)>) -> bool {
    pairs.no_duplicates() && pairs.to_set() == map.kv_pairs()
}

/// The pairs that a run of borrowed pairs points at, one for one.
pub open spec fn pointed_at<K, V>(pairs: Seq<(&K, &V)>) -> Seq<(K, V)> {
    Seq::new(pairs.len(), |i: int| (*pairs[i].0, *pairs[i].1))
}

/// Whether encoding `pair`, the key first, may fail with `e`.
pub open spec fn pair_fails<K: ToCadenceValue, V: ToCadenceValue>(pair: (K, V), e: ErrorModel)
    -> bool {
    pair.0.encodes_to(Err::<ValueModel, ErrorModel>(e)) || (may_encode(pair.0)
        && pair.1.encodes_to(Err::<ValueModel, ErrorModel>(e)))
}

/// Whether `r` is an outcome that encoding `pairs` as the entries of a
/// dictionary, in order and up to the first failure, may have.
pub open spec fn pairs_encode_to<K: ToCadenceValue, V: ToCadenceValue>(
    pairs: Seq<(K, V)>,
    r: Result<ValueModel, ErrorModel>,
) -> bool {
    match r {
        Ok(ValueModel::Dictionary(entries)) => entries.len() == pairs.len() && forall|i: int|
            0 <= i < pairs.len() ==> (#[trigger] pairs[i]).0.encodes_to(
                Ok::<ValueModel, ErrorModel>(entries[i].0),
            ) && pairs[i].1.encodes_to(Ok::<ValueModel, ErrorModel>(entries[i].1)),
        Ok(_) => false,
        Err(e) => exists|i: int|
            0 <= i < pairs.len() && pair_fails(#[trigger] pairs[i], e) && forall|j: int|
                0 <= j < i ==> may_encode((#[trigger] pairs[j]).0) && may_encode(pairs[j].1),
    }
}

/// Encodes borrowed pairs as the entries of a dictionary, in order, the key
/// of each before its value, up to the first failure.
pub(crate) fn encode_pairs<K: ToCadenceValue, V: ToCadenceValue>(pairs: &Vec<(&K, &V)>) -> (r:
    Result<CadenceValue, CadenceError>)
    ensures
        pairs_encode_to(pointed_at(pairs@), outcome(r)),
{
    let ghost ps = pointed_at(pairs@);
    let mut entries: Vec<DictionaryEntry> = Vec::with_capacity(pairs.len());
    let mut i: usize = 0;
    while i < pairs.len()
        invariant
            i <= pairs@.len(),
            ps == pointed_at(pairs@),
            entries@.len() == i,
            forall|j: int|
                0 <= j < i ==> (#[trigger] ps[j]).0.encodes_to(
                    Ok::<ValueModel, ErrorModel>(entries@[j].key@),
                ) && ps[j].1.encodes_to(Ok::<ValueModel, ErrorModel>(entries@[j].value@)),
        decreases pairs@.len() - i,
    {
        let key = match pairs[i].0.to_cadence_value() {
            Ok(key) => key,
            Err(e) => {
                proof {
                    lemma_pair_fails(ps, entries_view(entries@), i as int, e@);
                }
                return Err(e);
            },
        };
        let value = match pairs[i].1.to_cadence_value() {
            Ok(value) => value,
            Err(e) => {
                proof {
                    assert(may_encode(ps[i as int].0));
                    lemma_pair_fails(ps, entries_view(entries@), i as int, e@);
                }
                return Err(e);
            },
        };
        entries.push(DictionaryEntry { key, value });
        i += 1;
    }
    proof {
        lemma_view_dictionary(entries);
    }
    Ok(CadenceValue::Dictionary { value: entries })
}

/// Where every pair before `i` encoded and the pair at `i` fails with `e`,
/// encoding the pairs fails with `e`.
proof fn lemma_pair_fails<K: ToCadenceValue, V: ToCadenceValue>(
    pairs: Seq<(K, V)>,
    entries: Seq<(ValueModel, ValueModel)>,
    i: int,
    e: ErrorModel,
)
    requires
        0 <= i < pairs.len(),
        entries.len() == i,
        forall|j: int|
            0 <= j < i ==> (#[trigger] pairs[j]).0.encodes_to(
                Ok::<ValueModel, ErrorModel>(entries[j].0),
            ) && pairs[j].1.encodes_to(Ok::<ValueModel, ErrorModel>(entries[j].1)),
        pair_fails(pairs[i], e),
    ensures
        pairs_encode_to(pairs, Err::<ValueModel, ErrorModel>(e)),
{
    assert forall|j: int| 0 <= j < i implies may_encode((#[trigger] pairs[j]).0) && may_encode(
        pairs[j].1,
    ) by {
        assert(pairs[j].0.encodes_to(Ok::<ValueModel, ErrorModel>(entries[j].0)));
        assert(pairs[j].1.encodes_to(Ok::<ValueModel, ErrorModel>(entries[j].1)));
    }
}

/// Hands out the pairs of a hash map by `HashMap::iter`, in the order in
/// which the map walks them: each key of the map comes once, with its value.
#[verifier::external_body]
fn hash_map_pairs<'a, K, V>(map: &'a HashMap<K, V>) -> (r: Vec<(&'a K, &'a V)>)
    ensures
        obeys_key_model::<K>() ==> lists(map@, pointed_at(r@)),
{
    map.iter().collect()
}

/// The keys of a run of pairs, one for one.
pub open spec fn keys_of<K, V>(pairs: Seq<(K, V)>) -> Seq<K> {
    Seq::new(pairs.len(), |i: int| pairs[i].0)
}

/// Hands out the pairs of an ordered map by `BTreeMap::iter`: each key of the
/// map comes once, with its value, and the keys come in increasing order.
#[verifier::external_body]
fn btree_map_pairs<'a, K, V>(map: &'a BTreeMap<K, V>) -> (r: Vec<(&'a K, &'a V)>)
    ensures
        vstd::std_specs::btree::key_obeys_cmp_spec::<K>() ==> lists(map@, pointed_at(r@)),
        vstd::std_specs::btree::key_obeys_cmp_spec::<K>() ==> increasing_seq(
            keys_of(pointed_at(r@)),
        ),
{
    map.iter().collect()
}

impl<K: ToCadenceValue, V: ToCadenceValue> ToCadenceValue for HashMap<K, V> {
    /// A `Dictionary` with one entry for each pair of the map, in the order in
    /// which the map hands them out; or the error of the first key or value
    /// that fails.
    ///
    /// That the pairs are those of the map is stated where the keys hash and
    /// compare as a hash map needs.
    open spec fn encodes_to(&self, r: Result<ValueModel, ErrorModel>) -> bool {
        exists|pairs: Seq<(K, V)>|
            #[trigger] pairs_encode_to(pairs, r) && (obeys_key_model::<K>() ==> lists(
                self@,
                pairs,
            ))
    }

    fn to_cadence_value(&self) -> (r: Result<CadenceValue, CadenceError>) {
        let pairs = hash_map_pairs(self);
        let r = encode_pairs(&pairs);
        proof {
            assert(pairs_encode_to(pointed_at(pairs@), outcome(r)));
        }
        r
    }
}

impl<K: ToCadenceValue, V: ToCadenceValue> ToCadenceValue for BTreeMap<K, V> {
    /// A `Dictionary` with one entry for each pair of the map, in the
    /// increasing order of the keys; or the error of the first key or value
    /// that fails.
    ///
    /// That the pairs are those of the map, and that their keys increase, is
    /// stated where the keys compare as an ordered map needs.
    open spec fn encodes_to(&self, r: Result<ValueModel, ErrorModel>) -> bool {
        exists|pairs: Seq<(K, V)>|
            #[trigger] pairs_encode_to(pairs, r) && (
            vstd::std_specs::btree::key_obeys_cmp_spec::<K>() ==> lists(self@, pairs)
                && increasing_seq(keys_of(pairs)))
    }

    fn to_cadence_value(&self) -> (r: Result<CadenceValue, CadenceError>) {
        let pairs = btree_map_pairs(self);
        let r = encode_pairs(&pairs);
        proof {
            assert(pairs_encode_to(pointed_at(pairs@), outcome(r)));
        }
        r
    }
}

} // verus!
