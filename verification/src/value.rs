//! The value model: one case for each kind, and its mathematical value.

use vstd::prelude::*;
use crate::kind::Kind;
use crate::types::{CadenceType, TypeModel};

verus! {

/// A value of the closed value model, one case for each kind. Numbers are kept
/// as the decimal strings that the wire carries.
#[derive(Debug)]
pub enum CadenceValue {
    Void {  },
    Optional { value: Option<Box<CadenceValue>> },
    Bool { value: bool },
    String { value: String },
    Address { value: String },
    Int { value: String },
    Int8 { value: String },
    Int16 { value: String },
    Int32 { value: String },
    Int64 { value: String },
    Int128 { value: String },
    Int256 { value: String },
    UInt { value: String },
    UInt8 { value: String },
    UInt16 { value: String },
    UInt32 { value: String },
    UInt64 { value: String },
    UInt128 { value: String },
    UInt256 { value: String },
    Word8 { value: String },
    Word16 { value: String },
    Word32 { value: String },
    Word64 { value: String },
    Word128 { value: String },
    Word256 { value: String },
    Fix64 { value: String },
    UFix64 { value: String },
    Array { value: Vec<CadenceValue> },
    Dictionary { value: Vec<DictionaryEntry> },
    Struct { value: CompositeValue },
    Resource { value: CompositeValue },
    Event { value: CompositeValue },
    Contract { value: CompositeValue },
    Enum { value: CompositeValue },
    Path { value: PathValue },
    Type { value: TypeValue },
    InclusiveRange { value: RangeValue },
    Capability { value: CapabilityValue },
    Function { value: FunctionValue },
}

/// One entry of a dictionary.
#[derive(Debug)]
pub struct DictionaryEntry {
    pub key: CadenceValue,
    pub value: CadenceValue,
}

/// One named field of a composite.
#[derive(Debug)]
pub struct CompositeField {
    pub name: String,
    pub value: CadenceValue,
}

/// The payload of a composite: the fully qualified name of its type, and its
/// fields in the order in which they were given.
#[derive(Debug)]
pub struct CompositeValue {
    pub id: String,
    pub fields: Vec<CompositeField>,
}

/// The payload of a path.
#[derive(Debug)]
pub struct PathValue {
    pub domain: PathDomain,
    pub identifier: String,
}

/// The domain of a path.
#[derive(Debug, Clone, Copy, PartialEq, Eq, Structural)]
pub enum PathDomain {
    Storage,
    Private,
    Public,
}

/// The payload of a type value.
#[derive(Debug)]
pub struct TypeValue {
    pub static_type: CadenceType,
}

/// The payload of an inclusive range.
#[derive(Debug)]
pub struct RangeValue {
    pub start: Box<CadenceValue>,
    pub end: Box<CadenceValue>,
    pub step: Box<CadenceValue>,
}

/// The payload of a capability.
#[derive(Debug)]
pub struct CapabilityValue {
    pub id: String,
    pub address: String,
    pub borrow_type: CadenceType,
}

/// The payload of a function value.
#[derive(Debug)]
pub struct FunctionValue {
    pub function_type: CadenceType,
}

/// The mathematical value of a `CadenceValue`. The kinds whose payload is a
/// string share one case, and so do the five composite kinds; the kind tells
/// them apart.
pub enum ValueModel {
    Void,
    Optional(Option<Box<ValueModel>>),
    Bool(bool),
    Text(Kind, Seq<char>),
    Array(Seq<ValueModel>),
    Dictionary(Seq<(ValueModel, ValueModel)>),
    Composite(Kind, Seq<char>, Seq<(Seq<char>, ValueModel)>),
    Path(PathDomain, Seq<char>),
    Type(TypeModel),
    InclusiveRange(Box<ValueModel>, Box<ValueModel>, Box<ValueModel>),
    Capability(Seq<char>, Seq<char>, TypeModel),
    Function(TypeModel),
}

impl ValueModel {
    /// The kind of this value.
    pub open spec fn kind(self) -> Kind {
        match self {
            ValueModel::Void => Kind::Void,
            ValueModel::Optional(_) => Kind::Optional,
            ValueModel::Bool(_) => Kind::Bool,
            ValueModel::Text(kind, _) => kind,
            ValueModel::Array(_) => Kind::Array,
            ValueModel::Dictionary(_) => Kind::Dictionary,
            ValueModel::Composite(kind, _, _) => kind,
            ValueModel::Path(_, _) => Kind::Path,
            ValueModel::Type(_) => Kind::Type,
            ValueModel::InclusiveRange(_, _, _) => Kind::InclusiveRange,
            ValueModel::Capability(_, _, _) => Kind::Capability,
            ValueModel::Function(_) => Kind::Function,
        }
    }

    /// Whether every part of this value that carries a kind carries one of the
    /// right family: a string-carrying kind with a string, a composite kind
    /// with a composite. The value of every `CadenceValue` is so formed.
    pub open spec fn well_formed(self) -> bool
        decreases self,
    {
        match self {
            ValueModel::Optional(Some(inner)) => inner.well_formed(),
            ValueModel::Text(kind, _) => kind.is_text(),
            ValueModel::Array(items) => forall|i: int|
                0 <= i < items.len() ==> (#[trigger] items[i]).well_formed(),
            ValueModel::Dictionary(entries) => forall|i: int|
                0 <= i < entries.len() ==> (#[trigger] entries[i]).0.well_formed()
                    && entries[i].1.well_formed(),
            ValueModel::Composite(kind, _, fields) => kind.is_composite() && forall|i: int|
                0 <= i < fields.len() ==> (#[trigger] fields[i]).1.well_formed(),
            ValueModel::InclusiveRange(start, end, step) => start.well_formed()
                && end.well_formed() && step.well_formed(),
            _ => true,
        }
    }
}

impl ValueModel {
    /// Whether this value has an encoding: whether no part of it belongs to
    /// the type-descriptor family.
    pub open spec fn encodable(self) -> bool
        decreases self,
    {
        match self {
            ValueModel::Optional(Some(inner)) => inner.encodable(),
            ValueModel::Array(items) => forall|i: int|
                0 <= i < items.len() ==> (#[trigger] items[i]).encodable(),
            ValueModel::Dictionary(entries) => forall|i: int|
                0 <= i < entries.len() ==> (#[trigger] entries[i]).0.encodable()
                    && entries[i].1.encodable(),
            ValueModel::Composite(_, _, fields) => forall|i: int|
                0 <= i < fields.len() ==> (#[trigger] fields[i]).1.encodable(),
            ValueModel::Path(_, _) => false,
            ValueModel::Type(_) => false,
            ValueModel::InclusiveRange(_, _, _) => false,
            ValueModel::Capability(_, _, _) => false,
            ValueModel::Function(_) => false,
            _ => true,
        }
    }
}

impl CadenceValue {
    /// The value of this `CadenceValue`.
    pub open spec fn model(&self) -> ValueModel
        decreases self,
    {
        match self {
            CadenceValue::Void {  } => ValueModel::Void,
            CadenceValue::Optional { value } => match value {
                Some(inner) => ValueModel::Optional(Some(Box::new(inner.model()))),
                None => ValueModel::Optional(None),
            },
            CadenceValue::Bool { value } => ValueModel::Bool(*value),
            CadenceValue::String { value } => ValueModel::Text(Kind::String, value@),
            CadenceValue::Address { value } => ValueModel::Text(Kind::Address, value@),
            CadenceValue::Int { value } => ValueModel::Text(Kind::Int, value@),
            CadenceValue::Int8 { value } => ValueModel::Text(Kind::Int8, value@),
            CadenceValue::Int16 { value } => ValueModel::Text(Kind::Int16, value@),
            CadenceValue::Int32 { value } => ValueModel::Text(Kind::Int32, value@),
            CadenceValue::Int64 { value } => ValueModel::Text(Kind::Int64, value@),
            CadenceValue::Int128 { value } => ValueModel::Text(Kind::Int128, value@),
            CadenceValue::Int256 { value } => ValueModel::Text(Kind::Int256, value@),
            CadenceValue::UInt { value } => ValueModel::Text(Kind::UInt, value@),
            CadenceValue::UInt8 { value } => ValueModel::Text(Kind::UInt8, value@),
            CadenceValue::UInt16 { value } => ValueModel::Text(Kind::UInt16, value@),
            CadenceValue::UInt32 { value } => ValueModel::Text(Kind::UInt32, value@),
            CadenceValue::UInt64 { value } => ValueModel::Text(Kind::UInt64, value@),
            CadenceValue::UInt128 { value } => ValueModel::Text(Kind::UInt128, value@),
            CadenceValue::UInt256 { value } => ValueModel::Text(Kind::UInt256, value@),
            CadenceValue::Word8 { value } => ValueModel::Text(Kind::Word8, value@),
            CadenceValue::Word16 { value } => ValueModel::Text(Kind::Word16, value@),
            CadenceValue::Word32 { value } => ValueModel::Text(Kind::Word32, value@),
            CadenceValue::Word64 { value } => ValueModel::Text(Kind::Word64, value@),
            CadenceValue::Word128 { value } => ValueModel::Text(Kind::Word128, value@),
            CadenceValue::Word256 { value } => ValueModel::Text(Kind::Word256, value@),
            CadenceValue::Fix64 { value } => ValueModel::Text(Kind::Fix64, value@),
            CadenceValue::UFix64 { value } => ValueModel::Text(Kind::UFix64, value@),
            CadenceValue::Array { value } => ValueModel::Array(
                Seq::new(
                    value@.len(),
                    |i: int|
                        if 0 <= i < value@.len() {
                            value@[i].model()
                        } else {
                            arbitrary()
                        },
                ),
            ),
            CadenceValue::Dictionary { value } => ValueModel::Dictionary(
                Seq::new(
                    value@.len(),
                    |i: int|
                        if 0 <= i < value@.len() {
                            (value@[i].key.model(), value@[i].value.model())
                        } else {
                            arbitrary()
                        },
                ),
            ),
            CadenceValue::Struct { value } => ValueModel::Composite(
                Kind::Struct,
                value.id@,
                Seq::new(
                    value.fields@.len(),
                    |i: int|
                        if 0 <= i < value.fields@.len() {
                            (value.fields@[i].name@, value.fields@[i].value.model())
                        } else {
                            arbitrary()
                        },
                ),
            ),
            CadenceValue::Resource { value } => ValueModel::Composite(
                Kind::Resource,
                value.id@,
                Seq::new(
                    value.fields@.len(),
                    |i: int|
                        if 0 <= i < value.fields@.len() {
                            (value.fields@[i].name@, value.fields@[i].value.model())
                        } else {
                            arbitrary()
                        },
                ),
            ),
            CadenceValue::Event { value } => ValueModel::Composite(
                Kind::Event,
                value.id@,
                Seq::new(
                    value.fields@.len(),
                    |i: int|
                        if 0 <= i < value.fields@.len() {
                            (value.fields@[i].name@, value.fields@[i].value.model())
                        } else {
                            arbitrary()
                        },
                ),
            ),
            CadenceValue::Contract { value } => ValueModel::Composite(
                Kind::Contract,
                value.id@,
                Seq::new(
                    value.fields@.len(),
                    |i: int|
                        if 0 <= i < value.fields@.len() {
                            (value.fields@[i].name@, value.fields@[i].value.model())
                        } else {
                            arbitrary()
                        },
                ),
            ),
            CadenceValue::Enum { value } => ValueModel::Composite(
                Kind::Enum,
                value.id@,
                Seq::new(
                    value.fields@.len(),
                    |i: int|
                        if 0 <= i < value.fields@.len() {
                            (value.fields@[i].name@, value.fields@[i].value.model())
                        } else {
                            arbitrary()
                        },
                ),
            ),
            CadenceValue::Path { value } => ValueModel::Path(value.domain, value.identifier@),
            CadenceValue::Type { value } => ValueModel::Type(value.static_type@),
            CadenceValue::InclusiveRange { value } => ValueModel::InclusiveRange(
                Box::new(value.start.model()),
                Box::new(value.end.model()),
                Box::new(value.step.model()),
            ),
            CadenceValue::Capability { value } => ValueModel::Capability(
                value.id@,
                value.address@,
                value.borrow_type@,
            ),
            CadenceValue::Function { value } => ValueModel::Function(value.function_type@),
        }
    }
}

impl View for CadenceValue {
    type V = ValueModel;

    open spec fn view(&self) -> ValueModel {
        self.model()
    }
}

/// The values of a run of `CadenceValue`s, one for one.
pub open spec fn values_view(values: Seq<CadenceValue>) -> Seq<ValueModel> {
    Seq::new(values.len(), |i: int| values[i]@)
}

/// The keys and values of a run of dictionary entries, one for one.
pub open spec fn entries_view(entries: Seq<DictionaryEntry>) -> Seq<(ValueModel, ValueModel)> {
    Seq::new(entries.len(), |i: int| (entries[i].key@, entries[i].value@))
}

/// The names and values of a run of composite fields, one for one.
pub open spec fn fields_view(fields: Seq<CompositeField>) -> Seq<(Seq<char>, ValueModel)> {
    Seq::new(fields.len(), |i: int| (fields[i].name@, fields[i].value@))
}

/// The value of an array is the array of its items' values.
pub proof fn lemma_view_array(value: Vec<CadenceValue>)
    ensures
        (CadenceValue::Array { value })@ == ValueModel::Array(values_view(value@)),
{
    assert((CadenceValue::Array { value })@->Array_0 =~= values_view(value@));
}

/// The value of a dictionary is the run of its entries' keys and values.
pub proof fn lemma_view_dictionary(value: Vec<DictionaryEntry>)
    ensures
        (CadenceValue::Dictionary { value })@ == ValueModel::Dictionary(entries_view(value@)),
{
    assert((CadenceValue::Dictionary { value })@->Dictionary_0 =~= entries_view(value@));
}

/// The value of a composite of kind `kind`.
pub open spec fn composite_view(kind: Kind, value: CompositeValue) -> ValueModel {
    ValueModel::Composite(kind, value.id@, fields_view(value.fields@))
}

/// The value of a composite holds its kind, its type's name, and the run of
/// its fields' names and values.
pub proof fn lemma_view_composite(value: CompositeValue)
    ensures
        (CadenceValue::Struct { value })@ == composite_view(Kind::Struct, value),
        (CadenceValue::Resource { value })@ == composite_view(Kind::Resource, value),
        (CadenceValue::Event { value })@ == composite_view(Kind::Event, value),
        (CadenceValue::Contract { value })@ == composite_view(Kind::Contract, value),
        (CadenceValue::Enum { value })@ == composite_view(Kind::Enum, value),
{
    assert((CadenceValue::Struct { value })@->Composite_2 =~= fields_view(value.fields@));
    assert((CadenceValue::Resource { value })@->Composite_2 =~= fields_view(value.fields@));
    assert((CadenceValue::Event { value })@->Composite_2 =~= fields_view(value.fields@));
    assert((CadenceValue::Contract { value })@->Composite_2 =~= fields_view(value.fields@));
    assert((CadenceValue::Enum { value })@->Composite_2 =~= fields_view(value.fields@));
}

impl CadenceValue {
    /// The kind of this value.
    pub fn kind(&self) -> (r: Kind)
        ensures
            r == self@.kind(),
    {
        match self {
            CadenceValue::Void { .. } => Kind::Void,
            CadenceValue::Optional { .. } => Kind::Optional,
            CadenceValue::Bool { .. } => Kind::Bool,
            CadenceValue::String { .. } => Kind::String,
            CadenceValue::Address { .. } => Kind::Address,
            CadenceValue::Int { .. } => Kind::Int,
            CadenceValue::Int8 { .. } => Kind::Int8,
            CadenceValue::Int16 { .. } => Kind::Int16,
            CadenceValue::Int32 { .. } => Kind::Int32,
            CadenceValue::Int64 { .. } => Kind::Int64,
            CadenceValue::Int128 { .. } => Kind::Int128,
            CadenceValue::Int256 { .. } => Kind::Int256,
            CadenceValue::UInt { .. } => Kind::UInt,
            CadenceValue::UInt8 { .. } => Kind::UInt8,
            CadenceValue::UInt16 { .. } => Kind::UInt16,
            CadenceValue::UInt32 { .. } => Kind::UInt32,
            CadenceValue::UInt64 { .. } => Kind::UInt64,
            CadenceValue::UInt128 { .. } => Kind::UInt128,
            CadenceValue::UInt256 { .. } => Kind::UInt256,
            CadenceValue::Word8 { .. } => Kind::Word8,
            CadenceValue::Word16 { .. } => Kind::Word16,
            CadenceValue::Word32 { .. } => Kind::Word32,
            CadenceValue::Word64 { .. } => Kind::Word64,
            CadenceValue::Word128 { .. } => Kind::Word128,
            CadenceValue::Word256 { .. } => Kind::Word256,
            CadenceValue::Fix64 { .. } => Kind::Fix64,
            CadenceValue::UFix64 { .. } => Kind::UFix64,
            CadenceValue::Array { .. } => Kind::Array,
            CadenceValue::Dictionary { .. } => Kind::Dictionary,
            CadenceValue::Struct { .. } => Kind::Struct,
            CadenceValue::Resource { .. } => Kind::Resource,
            CadenceValue::Event { .. } => Kind::Event,
            CadenceValue::Contract { .. } => Kind::Contract,
            CadenceValue::Enum { .. } => Kind::Enum,
            CadenceValue::Path { .. } => Kind::Path,
            CadenceValue::Type { .. } => Kind::Type,
            CadenceValue::InclusiveRange { .. } => Kind::InclusiveRange,
            CadenceValue::Capability { .. } => Kind::Capability,
            CadenceValue::Function { .. } => Kind::Function,
        }
    }

    /// The value of kind `kind` that carries the string `value`.
    pub(crate) fn text(kind: Kind, value: String) -> (r: CadenceValue)
        requires
            kind.is_text(),
        ensures
            r@ == ValueModel::Text(kind, value@),
    {
        match kind {
            Kind::String => CadenceValue::String { value },
            Kind::Address => CadenceValue::Address { value },
            Kind::Int => CadenceValue::Int { value },
            Kind::Int8 => CadenceValue::Int8 { value },
            Kind::Int16 => CadenceValue::Int16 { value },
            Kind::Int32 => CadenceValue::Int32 { value },
            Kind::Int64 => CadenceValue::Int64 { value },
            Kind::Int128 => CadenceValue::Int128 { value },
            Kind::Int256 => CadenceValue::Int256 { value },
            Kind::UInt => CadenceValue::UInt { value },
            Kind::UInt8 => CadenceValue::UInt8 { value },
            Kind::UInt16 => CadenceValue::UInt16 { value },
            Kind::UInt32 => CadenceValue::UInt32 { value },
            Kind::UInt64 => CadenceValue::UInt64 { value },
            Kind::UInt128 => CadenceValue::UInt128 { value },
            Kind::UInt256 => CadenceValue::UInt256 { value },
            Kind::Word8 => CadenceValue::Word8 { value },
            Kind::Word16 => CadenceValue::Word16 { value },
            Kind::Word32 => CadenceValue::Word32 { value },
            Kind::Word64 => CadenceValue::Word64 { value },
            Kind::Word128 => CadenceValue::Word128 { value },
            Kind::Word256 => CadenceValue::Word256 { value },
            Kind::Fix64 => CadenceValue::Fix64 { value },
            _ => CadenceValue::UFix64 { value },
        }
    }

    /// The string that this value carries, where its kind is one that carries
    /// a string.
    pub fn text_payload(&self) -> (r: Option<&String>)
        ensures
            match r {
                Some(s) => self@ == ValueModel::Text(self@.kind(), s@) && self@.kind().is_text(),
                None => !(self@ is Text),
            },
    {
        match self {
            CadenceValue::String { value }
            | CadenceValue::Address { value }
            | CadenceValue::Int { value }
            | CadenceValue::Int8 { value }
            | CadenceValue::Int16 { value }
            | CadenceValue::Int32 { value }
            | CadenceValue::Int64 { value }
            | CadenceValue::Int128 { value }
            | CadenceValue::Int256 { value }
            | CadenceValue::UInt { value }
            | CadenceValue::UInt8 { value }
            | CadenceValue::UInt16 { value }
            | CadenceValue::UInt32 { value }
            | CadenceValue::UInt64 { value }
            | CadenceValue::UInt128 { value }
            | CadenceValue::UInt256 { value }
            | CadenceValue::Word8 { value }
            | CadenceValue::Word16 { value }
            | CadenceValue::Word32 { value }
            | CadenceValue::Word64 { value }
            | CadenceValue::Word128 { value }
            | CadenceValue::Word256 { value }
            | CadenceValue::Fix64 { value }
            | CadenceValue::UFix64 { value } => Some(value),
            _ => None,
        }
    }

    /// The composite of kind `kind` with the payload `value`.
    pub(crate) fn composite(kind: Kind, value: CompositeValue) -> (r: CadenceValue)
        requires
            kind.is_composite(),
        ensures
            r@ == composite_view(kind, value),
    {
        proof {
            lemma_view_composite(value);
        }
        match kind {
            Kind::Struct => CadenceValue::Struct { value },
            Kind::Resource => CadenceValue::Resource { value },
            Kind::Event => CadenceValue::Event { value },
            Kind::Contract => CadenceValue::Contract { value },
            _ => CadenceValue::Enum { value },
        }
    }
}

/// Copies a run of values.
fn clone_values(values: &Vec<CadenceValue>) -> (r: Vec<CadenceValue>)
    ensures
        values_view(r@) == values_view(values@),
    decreases values, 0nat,
{
    let mut out: Vec<CadenceValue> = Vec::with_capacity(values.len());
    let mut i: usize = 0;
    while i < values.len()
        invariant
            i <= values@.len(),
            out@.len() == i,
            forall|j: int| 0 <= j < i ==> (#[trigger] out@[j])@ == values@[j]@,
        decreases values@.len() - i,
    {
        out.push(values[i].clone());
        i += 1;
    }
    proof {
        assert(values_view(out@) =~= values_view(values@));
    }
    out
}

/// Copies a run of dictionary entries.
fn clone_entries(entries: &Vec<DictionaryEntry>) -> (r: Vec<DictionaryEntry>)
    ensures
        entries_view(r@) == entries_view(entries@),
    decreases entries, 0nat,
{
    let mut out: Vec<DictionaryEntry> = Vec::with_capacity(entries.len());
    let mut i: usize = 0;
    while i < entries.len()
        invariant
            i <= entries@.len(),
            out@.len() == i,
            forall|j: int|
                0 <= j < i ==> (#[trigger] out@[j]).key@ == entries@[j].key@ && out@[j].value@
                    == entries@[j].value@,
        decreases entries@.len() - i,
    {
        out.push(DictionaryEntry { key: entries[i].key.clone(), value: entries[i].value.clone() });
        i += 1;
    }
    proof {
        assert(entries_view(out@) =~= entries_view(entries@));
    }
    out
}

/// Copies the payload of a composite.
fn clone_composite(payload: &CompositeValue) -> (r: CompositeValue)
    ensures
        r.id@ == payload.id@,
        fields_view(r.fields@) == fields_view(payload.fields@),
    decreases payload, 0nat,
{
    let mut out: Vec<CompositeField> = Vec::with_capacity(payload.fields.len());
    let mut i: usize = 0;
    while i < payload.fields.len()
        invariant
            i <= payload.fields@.len(),
            out@.len() == i,
            forall|j: int|
                0 <= j < i ==> (#[trigger] out@[j]).name@ == payload.fields@[j].name@
                    && out@[j].value@ == payload.fields@[j].value@,
        decreases payload.fields@.len() - i,
    {
        out.push(
            CompositeField {
                name: payload.fields[i].name.clone(),
                value: payload.fields[i].value.clone(),
            },
        );
        i += 1;
    }
    proof {
        assert(fields_view(out@) =~= fields_view(payload.fields@));
    }
    CompositeValue { id: payload.id.clone(), fields: out }
}

impl Clone for CadenceValue {
    fn clone(&self) -> (r: Self)
        ensures
            r@ == self@,
        decreases self, 1nat,
    {
        match self {
            CadenceValue::Void {  } => CadenceValue::Void {  },
            CadenceValue::Optional { value } => match value {
                Some(inner) => CadenceValue::Optional { value: Some(Box::new((**inner).clone())) },
                None => CadenceValue::Optional { value: None },
            },
            CadenceValue::Bool { value } => CadenceValue::Bool { value: *value },
            CadenceValue::String { value } => CadenceValue::String { value: value.clone() },
            CadenceValue::Address { value } => CadenceValue::Address { value: value.clone() },
            CadenceValue::Int { value } => CadenceValue::Int { value: value.clone() },
            CadenceValue::Int8 { value } => CadenceValue::Int8 { value: value.clone() },
            CadenceValue::Int16 { value } => CadenceValue::Int16 { value: value.clone() },
            CadenceValue::Int32 { value } => CadenceValue::Int32 { value: value.clone() },
            CadenceValue::Int64 { value } => CadenceValue::Int64 { value: value.clone() },
            CadenceValue::Int128 { value } => CadenceValue::Int128 { value: value.clone() },
            CadenceValue::Int256 { value } => CadenceValue::Int256 { value: value.clone() },
            CadenceValue::UInt { value } => CadenceValue::UInt { value: value.clone() },
            CadenceValue::UInt8 { value } => CadenceValue::UInt8 { value: value.clone() },
            CadenceValue::UInt16 { value } => CadenceValue::UInt16 { value: value.clone() },
            CadenceValue::UInt32 { value } => CadenceValue::UInt32 { value: value.clone() },
            CadenceValue::UInt64 { value } => CadenceValue::UInt64 { value: value.clone() },
            CadenceValue::UInt128 { value } => CadenceValue::UInt128 { value: value.clone() },
            CadenceValue::UInt256 { value } => CadenceValue::UInt256 { value: value.clone() },
            CadenceValue::Word8 { value } => CadenceValue::Word8 { value: value.clone() },
            CadenceValue::Word16 { value } => CadenceValue::Word16 { value: value.clone() },
            CadenceValue::Word32 { value } => CadenceValue::Word32 { value: value.clone() },
            CadenceValue::Word64 { value } => CadenceValue::Word64 { value: value.clone() },
            CadenceValue::Word128 { value } => CadenceValue::Word128 { value: value.clone() },
            CadenceValue::Word256 { value } => CadenceValue::Word256 { value: value.clone() },
            CadenceValue::Fix64 { value } => CadenceValue::Fix64 { value: value.clone() },
            CadenceValue::UFix64 { value } => CadenceValue::UFix64 { value: value.clone() },
            CadenceValue::Array { value } => {
                let out = clone_values(value);
                proof {
                    lemma_view_array(*value);
                    lemma_view_array(out);
                }
                CadenceValue::Array { value: out }
            },
            CadenceValue::Dictionary { value } => {
                let out = clone_entries(value);
                proof {
                    lemma_view_dictionary(*value);
                    lemma_view_dictionary(out);
                }
                CadenceValue::Dictionary { value: out }
            },
            CadenceValue::Struct { value } => {
                let out = clone_composite(value);
                proof {
                    lemma_view_composite(*value);
                    lemma_view_composite(out);
                }
                CadenceValue::Struct { value: out }
            },
            CadenceValue::Resource { value } => {
                let out = clone_composite(value);
                proof {
                    lemma_view_composite(*value);
                    lemma_view_composite(out);
                }
                CadenceValue::Resource { value: out }
            },
            CadenceValue::Event { value } => {
                let out = clone_composite(value);
                proof {
                    lemma_view_composite(*value);
                    lemma_view_composite(out);
                }
                CadenceValue::Event { value: out }
            },
            CadenceValue::Contract { value } => {
                let out = clone_composite(value);
                proof {
                    lemma_view_composite(*value);
                    lemma_view_composite(out);
                }
                CadenceValue::Contract { value: out }
            },
            CadenceValue::Enum { value } => {
                let out = clone_composite(value);
                proof {
                    lemma_view_composite(*value);
                    lemma_view_composite(out);
                }
                CadenceValue::Enum { value: out }
            },
            CadenceValue::Path { value } => CadenceValue::Path {
                value: PathValue { domain: value.domain, identifier: value.identifier.clone() },
            },
            CadenceValue::Type { value } => CadenceValue::Type {
                value: TypeValue { static_type: value.static_type.clone() },
            },
            CadenceValue::InclusiveRange { value } => CadenceValue::InclusiveRange {
                value: RangeValue {
                    start: Box::new((*value.start).clone()),
                    end: Box::new((*value.end).clone()),
                    step: Box::new((*value.step).clone()),
                },
            },
            CadenceValue::Capability { value } => CadenceValue::Capability {
                value: CapabilityValue {
                    id: value.id.clone(),
                    address: value.address.clone(),
                    borrow_type: value.borrow_type.clone(),
                },
            },
            CadenceValue::Function { value } => CadenceValue::Function {
                value: FunctionValue { function_type: value.function_type.clone() },
            },
        }
    }
}

impl Clone for DictionaryEntry {
    fn clone(&self) -> (r: Self)
        ensures
            r.key@ == self.key@,
            r.value@ == self.value@,
    {
        DictionaryEntry { key: self.key.clone(), value: self.value.clone() }
    }
}

impl Clone for CompositeField {
    fn clone(&self) -> (r: Self)
        ensures
            r.name@ == self.name@,
            r.value@ == self.value@,
    {
        CompositeField { name: self.name.clone(), value: self.value.clone() }
    }
}

impl Clone for CompositeValue {
    fn clone(&self) -> (r: Self)
        ensures
            r.id@ == self.id@,
            fields_view(r.fields@) == fields_view(self.fields@),
    {
        clone_composite(self)
    }
}

impl Clone for PathValue {
    fn clone(&self) -> (r: Self)
        ensures
            r.domain == self.domain,
            r.identifier@ == self.identifier@,
    {
        PathValue { domain: self.domain, identifier: self.identifier.clone() }
    }
}

impl Clone for TypeValue {
    fn clone(&self) -> (r: Self)
        ensures
            r.static_type@ == self.static_type@,
    {
        TypeValue { static_type: self.static_type.clone() }
    }
}

impl Clone for RangeValue {
    fn clone(&self) -> (r: Self)
        ensures
            r.start@ == self.start@,
            r.end@ == self.end@,
            r.step@ == self.step@,
    {
        RangeValue {
            start: Box::new((*self.start).clone()),
            end: Box::new((*self.end).clone()),
            step: Box::new((*self.step).clone()),
        }
    }
}

impl Clone for CapabilityValue {
    fn clone(&self) -> (r: Self)
        ensures
            r.id@ == self.id@,
            r.address@ == self.address@,
            r.borrow_type@ == self.borrow_type@,
    {
        CapabilityValue {
            id: self.id.clone(),
            address: self.address.clone(),
            borrow_type: self.borrow_type.clone(),
        }
    }
}

impl Clone for FunctionValue {
    fn clone(&self) -> (r: Self)
        ensures
            r.function_type@ == self.function_type@,
    {
        FunctionValue { function_type: self.function_type.clone() }
    }
}

} // verus!
