//! Errors, their mathematical value, and their messages.

use vstd::prelude::*;
use vstd::std_specs::convert::FromSpecImpl;
use vstd::string::StringExecFns;
use crate::kind::Kind;
use crate::text::{decimal, format_unsigned};

verus! {

/// The name of a member of the payload of a value of the type-descriptor
/// family, or of a static type.
#[derive(Debug, Clone, Copy, PartialEq, Eq, Structural)]
pub enum Name {
    Domain,
    Identifier,
    StaticType,
    Start,
    End,
    Step,
    Id,
    Address,
    BorrowType,
    FunctionType,
    Kind,
    Type,
    InnerType,
    TypeId,
    Size,
    Key,
    Value,
    Initializers,
    Fields,
    Parameters,
    Purity,
    Return,
    Authorization,
    Types,
    Element,
    Entitlements,
    Label,
}

impl Name {
    /// The member name as the wire writes it.
    pub open spec fn text(self) -> Seq<char> {
        match self {
            Name::Domain => "domain"@,
            Name::Identifier => "identifier"@,
            Name::StaticType => "static_type"@,
            Name::Start => "start"@,
            Name::End => "end"@,
            Name::Step => "step"@,
            Name::Id => "id"@,
            Name::Address => "address"@,
            Name::BorrowType => "borrow_type"@,
            Name::FunctionType => "function_type"@,
            Name::Kind => "kind"@,
            Name::Type => "type"@,
            Name::InnerType => "type_"@,
            Name::TypeId => "type_id"@,
            Name::Size => "size"@,
            Name::Key => "key"@,
            Name::Value => "value"@,
            Name::Initializers => "initializers"@,
            Name::Fields => "fields"@,
            Name::Parameters => "parameters"@,
            Name::Purity => "purity"@,
            Name::Return => "return_"@,
            Name::Authorization => "authorization"@,
            Name::Types => "types"@,
            Name::Element => "element"@,
            Name::Entitlements => "entitlements"@,
            Name::Label => "label"@,
        }
    }

    /// The member name as the wire writes it.
    pub fn name(self) -> (r: &'static str)
        ensures
            r@ == self.text(),
    {
        match self {
            Name::Domain => "domain",
            Name::Identifier => "identifier",
            Name::StaticType => "static_type",
            Name::Start => "start",
            Name::End => "end",
            Name::Step => "step",
            Name::Id => "id",
            Name::Address => "address",
            Name::BorrowType => "borrow_type",
            Name::FunctionType => "function_type",
            Name::Kind => "kind",
            Name::Type => "type",
            Name::InnerType => "type_",
            Name::TypeId => "type_id",
            Name::Size => "size",
            Name::Key => "key",
            Name::Value => "value",
            Name::Initializers => "initializers",
            Name::Fields => "fields",
            Name::Parameters => "parameters",
            Name::Purity => "purity",
            Name::Return => "return_",
            Name::Authorization => "authorization",
            Name::Types => "types",
            Name::Element => "element",
            Name::Entitlements => "entitlements",
            Name::Label => "label",
        }
    }
}

/// What a decoder looked for in a payload and did not find.
#[derive(Debug, Clone, Copy, PartialEq, Eq, Structural)]
pub enum Expected {
    /// The payload must be a boolean.
    BooleanPayload,
    /// The payload must be a string.
    StringPayload,
    /// The payload must be an array.
    ArrayPayload,
    /// The payload must be an object.
    ObjectPayload,
    /// A dictionary entry must be an object.
    EntryObject,
    /// A dictionary entry must have a `"key"` member.
    EntryKey,
    /// A dictionary entry must have a `"value"` member.
    EntryValue,
    /// A composite must have an `"id"` member.
    Id,
    /// The `"id"` of a composite must be a string.
    IdString,
    /// A composite must have a `"fields"` member.
    Fields,
    /// The `"fields"` of a composite must be an array.
    FieldsArray,
    /// A field of a composite must be an object.
    FieldObject,
    /// A field must have a `"name"` member.
    FieldName,
    /// The `"name"` of a field must be a string.
    FieldNameString,
    /// A field must have a `"value"` member.
    FieldValue,
    /// The payload must have a member of this name.
    Member(Name),
    /// The member of this name must be a string.
    StringMember(Name),
    /// The member of this name must be an array.
    ArrayMember(Name),
    /// The member of this name must be a number that counts.
    CountMember(Name),
    /// A static type, a parameter, a declared field, an authorization or an
    /// entitlement must be an object.
    DescriptorObject,
    /// The `"kind"` of a static type, an authorization or an entitlement must
    /// be a known one.
    DescriptorKind,
    /// The `"domain"` of a path must be `storage`, `private` or `public`.
    PathDomain,
}

/// Why a conversion failed.
#[derive(Debug)]
pub enum CadenceError {
    /// The JSON reader or writer reported an error.
    SerdeJson(serde_json::Error),
    /// The `"type"` of an envelope is no known discriminator.
    UnknownKind(String),
    /// The payload of an envelope of kind `kind` has the wrong shape.
    DecodeShapeError { kind: Kind, expected: Expected },
    /// A native value was asked of a value of the wrong kind.
    TypeMismatch { expected: Kind, got: Kind },
    /// A record member has no field of its name in the composite.
    FieldMissing(String),
    /// An array does not have as many items as the tuple asked of it.
    ArityMismatch { expected: usize, got: usize },
    /// The decimal string `text` is no integer of the width of `target`.
    NumericParseError { target: Kind, text: String },
    /// Values of this kind have no encoder.
    UnsupportedType(Kind),
    /// An error that a binding outside this library reports.
    Custom(String),
}

/// The mathematical value of a `CadenceError`. Of an error of the JSON reader or
/// writer it keeps only that there was one.
pub enum ErrorModel {
    Syntax,
    UnknownKind(Seq<char>),
    DecodeShapeError(Kind, Expected),
    TypeMismatch(Kind, Kind),
    FieldMissing(Seq<char>),
    ArityMismatch(nat, nat),
    NumericParseError(Kind, Seq<char>),
    UnsupportedType(Kind),
    Custom(Seq<char>),
}

impl View for CadenceError {
    type V = ErrorModel;

    open spec fn view(&self) -> ErrorModel {
        match self {
            CadenceError::SerdeJson(_) => ErrorModel::Syntax,
            CadenceError::UnknownKind(tag) => ErrorModel::UnknownKind(tag@),
            CadenceError::DecodeShapeError { kind, expected } => ErrorModel::DecodeShapeError(
                *kind,
                *expected,
            ),
            CadenceError::TypeMismatch { expected, got } => ErrorModel::TypeMismatch(*expected, *got),
            CadenceError::FieldMissing(name) => ErrorModel::FieldMissing(name@),
            CadenceError::ArityMismatch { expected, got } => ErrorModel::ArityMismatch(
                *expected as nat,
                *got as nat,
            ),
            CadenceError::NumericParseError { target, text } => ErrorModel::NumericParseError(
                *target,
                text@,
            ),
            CadenceError::UnsupportedType(kind) => ErrorModel::UnsupportedType(*kind),
            CadenceError::Custom(message) => ErrorModel::Custom(message@),
        }
    }
}

impl From<serde_json::Error> for CadenceError {
    fn from(err: serde_json::Error) -> (r: CadenceError) {
        CadenceError::SerdeJson(err)
    }
}

impl FromSpecImpl<serde_json::Error> for CadenceError {
    open spec fn obeys_from_spec() -> bool {
        true
    }

    open spec fn from_spec(err: serde_json::Error) -> CadenceError {
        CadenceError::SerdeJson(err)
    }
}

/// The value of a result: the value of what it holds, on either side.
pub open spec fn outcome<T: View>(r: Result<T, CadenceError>) -> Result<T::V, ErrorModel> {
    match r {
        Ok(v) => Ok(v@),
        Err(e) => Err(e@),
    }
}

impl Expected {
    /// The words that say what was expected.
    pub open spec fn text(self) -> Seq<char> {
        match self {
            Expected::BooleanPayload => "value must be a boolean"@,
            Expected::StringPayload => "value must be a string"@,
            Expected::ArrayPayload => "value must be an array"@,
            Expected::ObjectPayload => "value must be an object"@,
            Expected::EntryObject => "entry must be an object"@,
            Expected::EntryKey => "entry missing key"@,
            Expected::EntryValue => "entry missing value"@,
            Expected::Id => "value missing id"@,
            Expected::IdString => "id must be a string"@,
            Expected::Fields => "value missing fields"@,
            Expected::FieldsArray => "fields must be an array"@,
            Expected::FieldObject => "field must be an object"@,
            Expected::FieldName => "field missing name"@,
            Expected::FieldNameString => "field name must be a string"@,
            Expected::FieldValue => "field missing value"@,
            Expected::Member(name) => "value missing "@ + name.text(),
            Expected::StringMember(name) => name.text() + " must be a string"@,
            Expected::ArrayMember(name) => name.text() + " must be an array"@,
            Expected::CountMember(name) => name.text() + " must be a count"@,
            Expected::DescriptorObject => "descriptor must be an object"@,
            Expected::DescriptorKind => "descriptor kind is unknown"@,
            Expected::PathDomain => "path domain is unknown"@,
        }
    }

    /// The words that say what was expected.
    pub fn describe(self) -> (r: String)
        ensures
            r@ == self.text(),
    {
        match self {
            Expected::BooleanPayload => String::from_str("value must be a boolean"),
            Expected::StringPayload => String::from_str("value must be a string"),
            Expected::ArrayPayload => String::from_str("value must be an array"),
            Expected::ObjectPayload => String::from_str("value must be an object"),
            Expected::EntryObject => String::from_str("entry must be an object"),
            Expected::EntryKey => String::from_str("entry missing key"),
            Expected::EntryValue => String::from_str("entry missing value"),
            Expected::Id => String::from_str("value missing id"),
            Expected::IdString => String::from_str("id must be a string"),
            Expected::Fields => String::from_str("value missing fields"),
            Expected::FieldsArray => String::from_str("fields must be an array"),
            Expected::FieldObject => String::from_str("field must be an object"),
            Expected::FieldName => String::from_str("field missing name"),
            Expected::FieldNameString => String::from_str("field name must be a string"),
            Expected::FieldValue => String::from_str("field missing value"),
            Expected::Member(name) => String::from_str("value missing ").concat(name.name()),
            Expected::StringMember(name) => String::from_str(name.name()).concat(
                " must be a string",
            ),
            Expected::ArrayMember(name) => String::from_str(name.name()).concat(
                " must be an array",
            ),
            Expected::CountMember(name) => String::from_str(name.name()).concat(
                " must be a count",
            ),
            Expected::DescriptorObject => String::from_str("descriptor must be an object"),
            Expected::DescriptorKind => String::from_str("descriptor kind is unknown"),
            Expected::PathDomain => String::from_str("path domain is unknown"),
        }
    }
}

impl ErrorModel {
    /// The message of an error that this library raises itself. An error of
    /// the JSON reader or writer brings its own words, which follow
    /// `"JSON error: "`.
    pub open spec fn message(self) -> Seq<char> {
        match self {
            ErrorModel::Syntax => "JSON error: "@,
            ErrorModel::UnknownKind(tag) => "Unknown kind: "@ + tag,
            ErrorModel::DecodeShapeError(kind, expected) => "Invalid Cadence value: "@
                + kind.text() + " "@ + expected.text(),
            ErrorModel::TypeMismatch(expected, got) => "Type mismatch: expected "@
                + expected.text() + ", got "@ + got.text(),
            ErrorModel::FieldMissing(name) => "Field "@ + name + " not found in Cadence value"@,
            ErrorModel::ArityMismatch(expected, got) => "Expected array of length "@ + decimal(
                expected as int,
            ) + " for tuple, got "@ + decimal(got as int),
            ErrorModel::NumericParseError(target, text) => "Failed to parse "@ + target.text()
                + ": "@ + text,
            ErrorModel::UnsupportedType(kind) => "Unsupported type: "@ + kind.text(),
            ErrorModel::Custom(message) => message,
        }
    }
}

/// Writes an error of the JSON reader or writer with its `Display`.
#[verifier::external_body]
fn json_error_text(err: &serde_json::Error) -> (r: String) {
    err.to_string()
}

impl CadenceError {
    /// The message of this error, as it is shown to a reader. The message of
    /// an error of the JSON reader or writer is `"JSON error: "` and then that
    /// error's own words.
    pub fn message(&self) -> (r: String)
        ensures
            match self@ {
                ErrorModel::Syntax => exists|words: Seq<char>| r@ == self@.message() + words,
                _ => r@ == self@.message(),
            },
    {
        match self {
            CadenceError::SerdeJson(err) => {
                let words = json_error_text(err);
                let r = String::from_str("JSON error: ").concat(words.as_str());
                assert(r@ == self@.message() + words@);
                r
            },
            CadenceError::UnknownKind(tag) => String::from_str("Unknown kind: ").concat(
                tag.as_str(),
            ),
            CadenceError::DecodeShapeError { kind, expected } => String::from_str(
                "Invalid Cadence value: ",
            ).concat(kind.name()).concat(" ").concat(expected.describe().as_str()),
            CadenceError::TypeMismatch { expected, got } => String::from_str(
                "Type mismatch: expected ",
            ).concat(expected.name()).concat(", got ").concat(got.name()),
            CadenceError::FieldMissing(name) => String::from_str("Field ").concat(
                name.as_str(),
            ).concat(" not found in Cadence value"),
            CadenceError::ArityMismatch { expected, got } => String::from_str(
                "Expected array of length ",
            ).concat(format_unsigned(*expected as u128).as_str()).concat(
                " for tuple, got ",
            ).concat(format_unsigned(*got as u128).as_str()),
            CadenceError::NumericParseError { target, text } => String::from_str(
                "Failed to parse ",
            ).concat(target.name()).concat(": ").concat(text.as_str()),
            CadenceError::UnsupportedType(kind) => String::from_str("Unsupported type: ").concat(
                kind.name(),
            ),
            CadenceError::Custom(message) => message.clone(),
        }
    }
}

} // verus!
