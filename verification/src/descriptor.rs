//! Decoding of static types from JSON trees.

use vstd::prelude::*;
use crate::error::{CadenceError, ErrorModel, Expected, Name};
use crate::json::{
    find, find_member, items_view, lemma_view_array, lemma_view_object, members_view, Json,
    JsonMember, JsonModel, JsonNumber,
};
use crate::kind::Kind;
use crate::results::{collect, lemma_collect_err, lemma_collect_ok};
use crate::text::str_eq;
use crate::types::{
    entitlements_view, field_types_view, initializers_view, lemma_model_enum, lemma_model_function,
    lemma_model_intersection, lemma_model_nominal, parameters_view, types_view, Authorization,
    AuthorizationModel, CadenceType, Entitlement, FieldModel, FieldType, ParameterModel,
    ParameterType, TypeModel,
};

verus! {

/// A shape error of a payload that belongs to an envelope of kind `kind`.
pub open spec fn bad<T>(kind: Kind, expected: Expected) -> Result<T, ErrorModel> {
    Err(ErrorModel::DecodeShapeError(kind, expected))
}

/// The string under `name`: the member must be there and be a string.
pub open spec fn string_member(kind: Kind, members: Seq<(Seq<char>, JsonModel)>, name: Name)
    -> Result<Seq<char>, ErrorModel> {
    match find(members, name.text()) {
        None => bad(kind, Expected::Member(name)),
        Some(i) => match members[i].1 {
            JsonModel::String(s) => Ok(s),
            _ => bad(kind, Expected::StringMember(name)),
        },
    }
}

/// The array under `name`: the member must be there and be an array.
pub open spec fn array_member(kind: Kind, members: Seq<(Seq<char>, JsonModel)>, name: Name)
    -> Result<Seq<JsonModel>, ErrorModel> {
    match find(members, name.text()) {
        None => bad(kind, Expected::Member(name)),
        Some(i) => match members[i].1 {
            JsonModel::Array(items) => Ok(items),
            _ => bad(kind, Expected::ArrayMember(name)),
        },
    }
}

/// The count under `name`: the member must be there and be an integer that
/// is not negative and that a native size holds.
pub open spec fn count_member(kind: Kind, members: Seq<(Seq<char>, JsonModel)>, name: Name)
    -> Result<nat, ErrorModel> {
    match find(members, name.text()) {
        None => bad(kind, Expected::Member(name)),
        Some(i) => match members[i].1 {
            JsonModel::Int(n) => if 0 <= n <= usize::MAX {
                Ok(n as nat)
            } else {
                bad(kind, Expected::CountMember(name))
            },
            _ => bad(kind, Expected::CountMember(name)),
        },
    }
}

/// The optional string under `name`: a member that is missing or `null` is
/// none, and any other must be a string.
pub open spec fn optional_string_member(
    kind: Kind,
    members: Seq<(Seq<char>, JsonModel)>,
    name: Name,
) -> Result<Option<Seq<char>>, ErrorModel> {
    match find(members, name.text()) {
        None => Ok(None),
        Some(i) => match members[i].1 {
            JsonModel::Null => Ok(None),
            JsonModel::String(s) => Ok(Some(s)),
            _ => bad(kind, Expected::StringMember(name)),
        },
    }
}

/// Whether `name` names a static type without parts.
pub open spec fn is_simple_type(name: Seq<char>) -> bool {
    name == "Account"@
    || name == "AccountCapabilityController"@
    || name == "AccountKey"@
    || name == "Address"@
    || name == "AnyResource"@
    || name == "AnyResourceAttachment"@
    || name == "AnyStruct"@
    || name == "AnyStructAttachment"@
    || name == "Block"@
    || name == "Bool"@
    || name == "CapabilityPath"@
    || name == "Character"@
    || name == "DeployedContract"@
    || name == "DeploymentResult"@
    || name == "Fix64"@
    || name == "FixedPoint"@
    || name == "FixedSizeUnsignedInteger"@
    || name == "HashAlgorithm"@
    || name == "HashableStruct"@
    || name == "Int"@
    || name == "Int8"@
    || name == "Int16"@
    || name == "Int32"@
    || name == "Int64"@
    || name == "Int128"@
    || name == "Int256"@
    || name == "Integer"@
    || name == "Never"@
    || name == "Number"@
    || name == "Path"@
    || name == "PrivatePath"@
    || name == "PublicKey"@
    || name == "PublicPath"@
    || name == "SignatureAlgorithm"@
    || name == "SignedFixedPoint"@
    || name == "SignedInteger"@
    || name == "SignedNumber"@
    || name == "StorageCapabilityController"@
    || name == "StoragePath"@
    || name == "String"@
    || name == "Type"@
    || name == "UFix64"@
    || name == "UInt"@
    || name == "UInt8"@
    || name == "UInt16"@
    || name == "UInt32"@
    || name == "UInt64"@
    || name == "UInt128"@
    || name == "UInt256"@
    || name == "Void"@
    || name == "Word8"@
    || name == "Word16"@
    || name == "Word32"@
    || name == "Word64"@
    || name == "Word128"@
    || name == "Word256"@
}

/// Whether `name` names one of the seven declaration kinds that share one
/// shape.
pub open spec fn is_nominal_type(name: Seq<char>) -> bool {
    name == "Struct"@
    || name == "Resource"@
    || name == "Event"@
    || name == "Contract"@
    || name == "StructInterface"@
    || name == "ResourceInterface"@
    || name == "ContractInterface"@
}

/// The static type that a tree describes: an object whose `"kind"` names the
/// kind of type and whose other members are the parts that the kind has.
pub open spec fn decode_type(kind: Kind, tree: JsonModel) -> Result<TypeModel, ErrorModel>
    decreases tree, 0nat,
{
    match tree {
        JsonModel::Object(members) => match string_member(kind, members, Name::Kind) {
            Err(e) => Err(e),
            Ok(tag) => decode_type_of(kind, tag, members),
        },
        _ => bad(kind, Expected::DescriptorObject),
    }
}

/// The static type under `name`.
pub open spec fn type_member(kind: Kind, members: Seq<(Seq<char>, JsonModel)>, name: Name)
    -> Result<TypeModel, ErrorModel>
    decreases members, 1nat,
{
    match find(members, name.text()) {
        None => bad(kind, Expected::Member(name)),
        Some(i) => if 0 <= i < members.len() {
            decode_type(kind, members[i].1)
        } else {
            arbitrary()
        },
    }
}

/// Each static type of a run, on its own.
pub open spec fn decode_each_type(kind: Kind, items: Seq<JsonModel>) -> Seq<
    Result<TypeModel, ErrorModel>,
>
    decreases items, 0nat,
{
    Seq::new(
        items.len(),
        |i: int|
            if 0 <= i < items.len() {
                decode_type(kind, items[i])
            } else {
                arbitrary()
            },
    )
}

/// The static types under `name`, an array, up to the first that fails.
pub open spec fn types_member(kind: Kind, members: Seq<(Seq<char>, JsonModel)>, name: Name)
    -> Result<Seq<TypeModel>, ErrorModel>
    decreases members, 1nat,
{
    match find(members, name.text()) {
        None => bad(kind, Expected::Member(name)),
        Some(i) => if 0 <= i < members.len() {
            match members[i].1 {
                JsonModel::Array(items) => collect(decode_each_type(kind, items)),
                _ => bad(kind, Expected::ArrayMember(name)),
            }
        } else {
            arbitrary()
        },
    }
}

/// A parameter: an object with the strings `"label"` and `"id"` and the type
/// `"type_"`.
pub open spec fn decode_parameter(kind: Kind, tree: JsonModel) -> Result<
    ParameterModel,
    ErrorModel,
>
    decreases tree, 0nat,
{
    match tree {
        JsonModel::Object(members) => match string_member(kind, members, Name::Label) {
            Err(e) => Err(e),
            Ok(label) => match string_member(kind, members, Name::Id) {
                Err(e) => Err(e),
                Ok(id) => match type_member(kind, members, Name::InnerType) {
                    Err(e) => Err(e),
                    Ok(type_) => Ok(ParameterModel { label, id, type_ }),
                },
            },
        },
        _ => bad(kind, Expected::DescriptorObject),
    }
}

/// Each parameter of a run, on its own.
pub open spec fn decode_each_parameter(kind: Kind, items: Seq<JsonModel>) -> Seq<
    Result<ParameterModel, ErrorModel>,
>
    decreases items, 0nat,
{
    Seq::new(
        items.len(),
        |i: int|
            if 0 <= i < items.len() {
                decode_parameter(kind, items[i])
            } else {
                arbitrary()
            },
    )
}

/// The parameters under `name`, an array, up to the first that fails.
pub open spec fn parameters_member(kind: Kind, members: Seq<(Seq<char>, JsonModel)>, name: Name)
    -> Result<Seq<ParameterModel>, ErrorModel>
    decreases members, 1nat,
{
    match find(members, name.text()) {
        None => bad(kind, Expected::Member(name)),
        Some(i) => if 0 <= i < members.len() {
            match members[i].1 {
                JsonModel::Array(items) => collect(decode_each_parameter(kind, items)),
                _ => bad(kind, Expected::ArrayMember(name)),
            }
        } else {
            arbitrary()
        },
    }
}

/// Each initializer of a run, on its own: an array of parameters.
pub open spec fn decode_each_initializer(kind: Kind, items: Seq<JsonModel>) -> Seq<
    Result<Seq<ParameterModel>, ErrorModel>,
>
    decreases items, 0nat,
{
    Seq::new(
        items.len(),
        |i: int|
            if 0 <= i < items.len() {
                match items[i] {
                    JsonModel::Array(parameters) => collect(
                        decode_each_parameter(kind, parameters),
                    ),
                    _ => bad(kind, Expected::ArrayMember(Name::Initializers)),
                }
            } else {
                arbitrary()
            },
    )
}

/// The initializers under `"initializers"`, an array of arrays of
/// parameters, up to the first that fails.
pub open spec fn initializers_member(kind: Kind, members: Seq<(Seq<char>, JsonModel)>) -> Result<
    Seq<Seq<ParameterModel>>,
    ErrorModel,
>
    decreases members, 1nat,
{
    match find(members, Name::Initializers.text()) {
        None => bad(kind, Expected::Member(Name::Initializers)),
        Some(i) => if 0 <= i < members.len() {
            match members[i].1 {
                JsonModel::Array(items) => collect(decode_each_initializer(kind, items)),
                _ => bad(kind, Expected::ArrayMember(Name::Initializers)),
            }
        } else {
            arbitrary()
        },
    }
}

/// A declared field: an object with the string `"id"` and the type
/// `"type_"`.
pub open spec fn decode_declared_field(kind: Kind, tree: JsonModel) -> Result<
    FieldModel,
    ErrorModel,
>
    decreases tree, 0nat,
{
    match tree {
        JsonModel::Object(members) => match string_member(kind, members, Name::Id) {
            Err(e) => Err(e),
            Ok(id) => match type_member(kind, members, Name::InnerType) {
                Err(e) => Err(e),
                Ok(type_) => Ok(FieldModel { id, type_ }),
            },
        },
        _ => bad(kind, Expected::DescriptorObject),
    }
}

/// Each declared field of a run, on its own.
pub open spec fn decode_each_declared_field(kind: Kind, items: Seq<JsonModel>) -> Seq<
    Result<FieldModel, ErrorModel>,
>
    decreases items, 0nat,
{
    Seq::new(
        items.len(),
        |i: int|
            if 0 <= i < items.len() {
                decode_declared_field(kind, items[i])
            } else {
                arbitrary()
            },
    )
}

/// The declared fields under `"fields"`, an array, up to the first that
/// fails.
pub open spec fn fields_member(kind: Kind, members: Seq<(Seq<char>, JsonModel)>) -> Result<
    Seq<FieldModel>,
    ErrorModel,
>
    decreases members, 1nat,
{
    match find(members, Name::Fields.text()) {
        None => bad(kind, Expected::Member(Name::Fields)),
        Some(i) => if 0 <= i < members.len() {
            match members[i].1 {
                JsonModel::Array(items) => collect(decode_each_declared_field(kind, items)),
                _ => bad(kind, Expected::ArrayMember(Name::Fields)),
            }
        } else {
            arbitrary()
        },
    }
}

/// An entitlement: an object of kind `EntitlementMap` with the string
/// `"type_id"`.
pub open spec fn decode_entitlement(kind: Kind, tree: JsonModel) -> Result<Seq<char>, ErrorModel> {
    match tree {
        JsonModel::Object(members) => match string_member(kind, members, Name::Kind) {
            Err(e) => Err(e),
            Ok(tag) => if tag == "EntitlementMap"@ {
                string_member(kind, members, Name::TypeId)
            } else {
                bad(kind, Expected::DescriptorKind)
            },
        },
        _ => bad(kind, Expected::DescriptorObject),
    }
}

/// Each entitlement of a run, on its own.
pub open spec fn decode_each_entitlement(kind: Kind, items: Seq<JsonModel>) -> Seq<
    Result<Seq<char>, ErrorModel>,
> {
    Seq::new(items.len(), |i: int| decode_entitlement(kind, items[i]))
}

/// An authorization: an object whose `"kind"` names it, with its
/// entitlements under `"entitlements"`. Those of `Unauthorized` may be
/// missing or `null`.
pub open spec fn decode_authorization(kind: Kind, tree: JsonModel) -> Result<
    AuthorizationModel,
    ErrorModel,
> {
    match tree {
        JsonModel::Object(members) => match string_member(kind, members, Name::Kind) {
            Err(e) => Err(e),
            Ok(tag) => if tag == "Unauthorized"@ {
                match find(members, Name::Entitlements.text()) {
                    None => Ok(AuthorizationModel::Unauthorized(None)),
                    Some(i) => match members[i].1 {
                        JsonModel::Null => Ok(AuthorizationModel::Unauthorized(None)),
                        JsonModel::Array(items) => match collect(
                            decode_each_entitlement(kind, items),
                        ) {
                            Ok(list) => Ok(AuthorizationModel::Unauthorized(Some(list))),
                            Err(e) => Err(e),
                        },
                        _ => bad(kind, Expected::ArrayMember(Name::Entitlements)),
                    },
                }
            } else if tag == "EntitlementMapAuthorization"@ || tag == "EntitlementConjunctionSet"@
                || tag == "EntitlementDisjunctionSet"@ {
                match array_member(kind, members, Name::Entitlements) {
                    Err(e) => Err(e),
                    Ok(items) => match collect(decode_each_entitlement(kind, items)) {
                        Err(e) => Err(e),
                        Ok(list) => Ok(
                            if tag == "EntitlementMapAuthorization"@ {
                                AuthorizationModel::EntitlementMapAuthorization(list)
                            } else if tag == "EntitlementConjunctionSet"@ {
                                AuthorizationModel::EntitlementConjunctionSet(list)
                            } else {
                                AuthorizationModel::EntitlementDisjunctionSet(list)
                            },
                        ),
                    },
                }
            } else {
                bad(kind, Expected::DescriptorKind)
            },
        },
        _ => bad(kind, Expected::DescriptorObject),
    }
}

/// The authorization under `"authorization"`.
pub open spec fn authorization_member(kind: Kind, members: Seq<(Seq<char>, JsonModel)>) -> Result<
    AuthorizationModel,
    ErrorModel,
> {
    match find(members, Name::Authorization.text()) {
        None => bad(kind, Expected::Member(Name::Authorization)),
        Some(i) => decode_authorization(kind, members[i].1),
    }
}

/// The static type of the kind that `tag` names, read from the members of
/// its object.
pub open spec fn decode_type_of(kind: Kind, tag: Seq<char>, members: Seq<(Seq<char>, JsonModel)>)
    -> Result<TypeModel, ErrorModel>
    decreases members, 2nat,
{
    if is_simple_type(tag) {
        Ok(TypeModel::Simple(tag))
    } else if tag == "Capability"@ || tag == "Optional"@ || tag == "VariableSizedArray"@ {
        match type_member(kind, members, Name::InnerType) {
            Err(e) => Err(e),
            Ok(inner) => Ok(
                if tag == "Capability"@ {
                    TypeModel::Capability(Box::new(inner))
                } else if tag == "Optional"@ {
                    TypeModel::Optional(Box::new(inner))
                } else {
                    TypeModel::VariableSizedArray(Box::new(inner))
                },
            ),
        }
    } else if tag == "ConstantSizedArray"@ {
        match type_member(kind, members, Name::InnerType) {
            Err(e) => Err(e),
            Ok(inner) => match count_member(kind, members, Name::Size) {
                Err(e) => Err(e),
                Ok(size) => Ok(TypeModel::ConstantSizedArray(Box::new(inner), size)),
            },
        }
    } else if tag == "Dictionary"@ {
        match type_member(kind, members, Name::Key) {
            Err(e) => Err(e),
            Ok(key) => match type_member(kind, members, Name::Value) {
                Err(e) => Err(e),
                Ok(value) => Ok(TypeModel::Dictionary(Box::new(key), Box::new(value))),
            },
        }
    } else if is_nominal_type(tag) {
        match string_member(kind, members, Name::Type) {
            Err(e) => Err(e),
            Ok(type_) => match string_member(kind, members, Name::TypeId) {
                Err(e) => Err(e),
                Ok(type_id) => match initializers_member(kind, members) {
                    Err(e) => Err(e),
                    Ok(initializers) => match fields_member(kind, members) {
                        Err(e) => Err(e),
                        Ok(fields) => Ok(
                            TypeModel::Nominal(tag, type_, type_id, initializers, fields),
                        ),
                    },
                },
            },
        }
    } else if tag == "Function"@ {
        match string_member(kind, members, Name::TypeId) {
            Err(e) => Err(e),
            Ok(type_id) => match parameters_member(kind, members, Name::Parameters) {
                Err(e) => Err(e),
                Ok(parameters) => match optional_string_member(kind, members, Name::Purity) {
                    Err(e) => Err(e),
                    Ok(purity) => match type_member(kind, members, Name::Return) {
                        Err(e) => Err(e),
                        Ok(return_) => Ok(
                            TypeModel::Function(type_id, parameters, purity, Box::new(return_)),
                        ),
                    },
                },
            },
        }
    } else if tag == "Reference"@ {
        match authorization_member(kind, members) {
            Err(e) => Err(e),
            Ok(authorization) => match type_member(kind, members, Name::InnerType) {
                Err(e) => Err(e),
                Ok(inner) => Ok(TypeModel::Reference(authorization, Box::new(inner))),
            },
        }
    } else if tag == "Intersection"@ {
        match string_member(kind, members, Name::TypeId) {
            Err(e) => Err(e),
            Ok(type_id) => match types_member(kind, members, Name::Types) {
                Err(e) => Err(e),
                Ok(types) => Ok(TypeModel::Intersection(type_id, types)),
            },
        }
    } else if tag == "Enum"@ {
        match type_member(kind, members, Name::Type) {
            Err(e) => Err(e),
            Ok(raw) => match string_member(kind, members, Name::TypeId) {
                Err(e) => Err(e),
                Ok(type_id) => match initializers_member(kind, members) {
                    Err(e) => Err(e),
                    Ok(initializers) => match fields_member(kind, members) {
                        Err(e) => Err(e),
                        Ok(fields) => Ok(
                            TypeModel::Enum(Box::new(raw), type_id, initializers, fields),
                        ),
                    },
                },
            },
        }
    } else if tag == "InclusiveRange"@ {
        match type_member(kind, members, Name::Element) {
            Err(e) => Err(e),
            Ok(element) => Ok(TypeModel::InclusiveRange(Box::new(element))),
        }
    } else {
        bad(kind, Expected::DescriptorKind)
    }
}

/// The error of a payload that belongs to an envelope of kind `kind`.
fn shape_error(kind: Kind, expected: Expected) -> (r: CadenceError)
    ensures
        r@ == ErrorModel::DecodeShapeError(kind, expected),
{
    CadenceError::DecodeShapeError { kind, expected }
}

/// Reads the string under `name`.
pub(crate) fn read_string(kind: Kind, members: &Vec<JsonMember>, name: Name) -> (r: Result<
    String,
    CadenceError,
>)
    ensures
        match r {
            Ok(s) => string_member(kind, members_view(members@), name) == Ok::<
                Seq<char>,
                ErrorModel,
            >(s@),
            Err(e) => string_member(kind, members_view(members@), name) == Err::<
                Seq<char>,
                ErrorModel,
            >(e@),
        },
{
    match find_member(members, name.name()) {
        None => Err(shape_error(kind, Expected::Member(name))),
        Some(i) => match &members[i].value {
            Json::String(s) => Ok(s.clone()),
            _ => Err(shape_error(kind, Expected::StringMember(name))),
        },
    }
}

/// Reads the array under `name`.
fn read_array<'a>(kind: Kind, members: &'a Vec<JsonMember>, name: Name) -> (r: Result<
    &'a Vec<Json>,
    CadenceError,
>)
    ensures
        match r {
            Ok(items) => array_member(kind, members_view(members@), name) == Ok::<
                Seq<JsonModel>,
                ErrorModel,
            >(items_view(items@)),
            Err(e) => array_member(kind, members_view(members@), name) == Err::<
                Seq<JsonModel>,
                ErrorModel,
            >(e@),
        },
{
    match find_member(members, name.name()) {
        None => Err(shape_error(kind, Expected::Member(name))),
        Some(i) => match &members[i].value {
            Json::Array(items) => {
                proof {
                    lemma_view_array(*items);
                }
                Ok(items)
            },
            _ => Err(shape_error(kind, Expected::ArrayMember(name))),
        },
    }
}

/// Reads the count under `name`.
fn read_count(kind: Kind, members: &Vec<JsonMember>, name: Name) -> (r: Result<
    usize,
    CadenceError,
>)
    ensures
        match r {
            Ok(n) => count_member(kind, members_view(members@), name) == Ok::<nat, ErrorModel>(
                n as nat,
            ),
            Err(e) => count_member(kind, members_view(members@), name) == Err::<nat, ErrorModel>(
                e@,
            ),
        },
{
    match find_member(members, name.name()) {
        None => Err(shape_error(kind, Expected::Member(name))),
        Some(i) => match &members[i].value {
            Json::Number(JsonNumber::PosInt(n)) => if *n <= usize::MAX as u64 {
                Ok(*n as usize)
            } else {
                Err(shape_error(kind, Expected::CountMember(name)))
            },
            Json::Number(JsonNumber::NegInt(n)) => if *n >= 0 && *n as u64 <= usize::MAX as u64 {
                Ok(*n as usize)
            } else {
                Err(shape_error(kind, Expected::CountMember(name)))
            },
            _ => Err(shape_error(kind, Expected::CountMember(name))),
        },
    }
}

/// Reads the optional string under `name`.
fn read_optional_string(kind: Kind, members: &Vec<JsonMember>, name: Name) -> (r: Result<
    Option<String>,
    CadenceError,
>)
    ensures
        match r {
            Ok(Some(s)) => optional_string_member(kind, members_view(members@), name) == Ok::<
                Option<Seq<char>>,
                ErrorModel,
            >(Some(s@)),
            Ok(None) => optional_string_member(kind, members_view(members@), name) == Ok::<
                Option<Seq<char>>,
                ErrorModel,
            >(None),
            Err(e) => optional_string_member(kind, members_view(members@), name) == Err::<
                Option<Seq<char>>,
                ErrorModel,
            >(e@),
        },
{
    match find_member(members, name.name()) {
        None => Ok(None),
        Some(i) => match &members[i].value {
            Json::Null => Ok(None),
            Json::String(s) => Ok(Some(s.clone())),
            _ => Err(shape_error(kind, Expected::StringMember(name))),
        },
    }
}

/// Gives the static type without parts that `name` names, if it names one.
fn simple_type(name: &str) -> (r: Option<CadenceType>)
    ensures
        match r {
            Some(t) => is_simple_type(name@) && t@ == TypeModel::Simple(name@),
            None => !is_simple_type(name@),
        },
{
    if str_eq(name, "Account") {
        return Some(CadenceType::Account);
    }
    if str_eq(name, "AccountCapabilityController") {
        return Some(CadenceType::AccountCapabilityController);
    }
    if str_eq(name, "AccountKey") {
        return Some(CadenceType::AccountKey);
    }
    if str_eq(name, "Address") {
        return Some(CadenceType::Address);
    }
    if str_eq(name, "AnyResource") {
        return Some(CadenceType::AnyResource);
    }
    if str_eq(name, "AnyResourceAttachment") {
        return Some(CadenceType::AnyResourceAttachment);
    }
    if str_eq(name, "AnyStruct") {
        return Some(CadenceType::AnyStruct);
    }
    if str_eq(name, "AnyStructAttachment") {
        return Some(CadenceType::AnyStructAttachment);
    }
    if str_eq(name, "Block") {
        return Some(CadenceType::Block);
    }
    if str_eq(name, "Bool") {
        return Some(CadenceType::Bool);
    }
    if str_eq(name, "CapabilityPath") {
        return Some(CadenceType::CapabilityPath);
    }
    if str_eq(name, "Character") {
        return Some(CadenceType::Character);
    }
    if str_eq(name, "DeployedContract") {
        return Some(CadenceType::DeployedContract);
    }
    if str_eq(name, "DeploymentResult") {
        return Some(CadenceType::DeploymentResult);
    }
    if str_eq(name, "Fix64") {
        return Some(CadenceType::Fix64);
    }
    if str_eq(name, "FixedPoint") {
        return Some(CadenceType::FixedPoint);
    }
    if str_eq(name, "FixedSizeUnsignedInteger") {
        return Some(CadenceType::FixedSizeUnsignedInteger);
    }
    if str_eq(name, "HashAlgorithm") {
        return Some(CadenceType::HashAlgorithm);
    }
    if str_eq(name, "HashableStruct") {
        return Some(CadenceType::HashableStruct);
    }
    if str_eq(name, "Int") {
        return Some(CadenceType::Int);
    }
    if str_eq(name, "Int8") {
        return Some(CadenceType::Int8);
    }
    if str_eq(name, "Int16") {
        return Some(CadenceType::Int16);
    }
    if str_eq(name, "Int32") {
        return Some(CadenceType::Int32);
    }
    if str_eq(name, "Int64") {
        return Some(CadenceType::Int64);
    }
    if str_eq(name, "Int128") {
        return Some(CadenceType::Int128);
    }
    if str_eq(name, "Int256") {
        return Some(CadenceType::Int256);
    }
    if str_eq(name, "Integer") {
        return Some(CadenceType::Integer);
    }
    if str_eq(name, "Never") {
        return Some(CadenceType::Never);
    }
    if str_eq(name, "Number") {
        return Some(CadenceType::Number);
    }
    if str_eq(name, "Path") {
        return Some(CadenceType::Path);
    }
    if str_eq(name, "PrivatePath") {
        return Some(CadenceType::PrivatePath);
    }
    if str_eq(name, "PublicKey") {
        return Some(CadenceType::PublicKey);
    }
    if str_eq(name, "PublicPath") {
        return Some(CadenceType::PublicPath);
    }
    if str_eq(name, "SignatureAlgorithm") {
        return Some(CadenceType::SignatureAlgorithm);
    }
    if str_eq(name, "SignedFixedPoint") {
        return Some(CadenceType::SignedFixedPoint);
    }
    if str_eq(name, "SignedInteger") {
        return Some(CadenceType::SignedInteger);
    }
    if str_eq(name, "SignedNumber") {
        return Some(CadenceType::SignedNumber);
    }
    if str_eq(name, "StorageCapabilityController") {
        return Some(CadenceType::StorageCapabilityController);
    }
    if str_eq(name, "StoragePath") {
        return Some(CadenceType::StoragePath);
    }
    if str_eq(name, "String") {
        return Some(CadenceType::String);
    }
    if str_eq(name, "Type") {
        return Some(CadenceType::Type);
    }
    if str_eq(name, "UFix64") {
        return Some(CadenceType::UFix64);
    }
    if str_eq(name, "UInt") {
        return Some(CadenceType::UInt);
    }
    if str_eq(name, "UInt8") {
        return Some(CadenceType::UInt8);
    }
    if str_eq(name, "UInt16") {
        return Some(CadenceType::UInt16);
    }
    if str_eq(name, "UInt32") {
        return Some(CadenceType::UInt32);
    }
    if str_eq(name, "UInt64") {
        return Some(CadenceType::UInt64);
    }
    if str_eq(name, "UInt128") {
        return Some(CadenceType::UInt128);
    }
    if str_eq(name, "UInt256") {
        return Some(CadenceType::UInt256);
    }
    if str_eq(name, "Void") {
        return Some(CadenceType::Void);
    }
    if str_eq(name, "Word8") {
        return Some(CadenceType::Word8);
    }
    if str_eq(name, "Word16") {
        return Some(CadenceType::Word16);
    }
    if str_eq(name, "Word32") {
        return Some(CadenceType::Word32);
    }
    if str_eq(name, "Word64") {
        return Some(CadenceType::Word64);
    }
    if str_eq(name, "Word128") {
        return Some(CadenceType::Word128);
    }
    if str_eq(name, "Word256") {
        return Some(CadenceType::Word256);
    }
    None
}

/// Tells whether `name` names one of the seven declaration kinds.
fn nominal_tag(name: &str) -> (r: bool)
    ensures
        r == is_nominal_type(name@),
{
    str_eq(name, "Struct") || str_eq(name, "Resource") || str_eq(name, "Event") || str_eq(
        name,
        "Contract",
    ) || str_eq(name, "StructInterface") || str_eq(name, "ResourceInterface") || str_eq(
        name,
        "ContractInterface",
    )
}

/// Builds the declaration kind that `tag` names from its parts.
fn nominal_type(
    tag: &str,
    type_: String,
    type_id: String,
    initializers: Vec<Vec<ParameterType>>,
    fields: Vec<FieldType>,
) -> (r: CadenceType)
    requires
        is_nominal_type(tag@),
    ensures
        r@ == TypeModel::Nominal(
            tag@,
            type_@,
            type_id@,
            initializers_view(initializers@),
            field_types_view(fields@),
        ),
{
    proof {
        lemma_model_nominal(type_, type_id, initializers, fields);
    }
    if str_eq(tag, "Struct") {
        return CadenceType::Struct { type_, type_id, initializers, fields };
    }
    if str_eq(tag, "Resource") {
        return CadenceType::Resource { type_, type_id, initializers, fields };
    }
    if str_eq(tag, "Event") {
        return CadenceType::Event { type_, type_id, initializers, fields };
    }
    if str_eq(tag, "Contract") {
        return CadenceType::Contract { type_, type_id, initializers, fields };
    }
    if str_eq(tag, "StructInterface") {
        return CadenceType::StructInterface { type_, type_id, initializers, fields };
    }
    if str_eq(tag, "ResourceInterface") {
        return CadenceType::ResourceInterface { type_, type_id, initializers, fields };
    }
    CadenceType::ContractInterface { type_, type_id, initializers, fields }
}

/// Decodes a static type.
pub fn decode_static_type(kind: Kind, tree: &Json) -> (r: Result<CadenceType, CadenceError>)
    ensures
        match r {
            Ok(t) => decode_type(kind, tree@) == Ok::<TypeModel, ErrorModel>(t@),
            Err(e) => decode_type(kind, tree@) == Err::<TypeModel, ErrorModel>(e@),
        },
    decreases tree, 0nat,
{
    match tree {
        Json::Object(members) => {
            proof {
                lemma_view_object(*members);
            }
            match read_string(kind, members, Name::Kind) {
                Ok(tag) => read_type_of(kind, tag.as_str(), members),
                Err(e) => Err(e),
            }
        },
        _ => Err(shape_error(kind, Expected::DescriptorObject)),
    }
}

/// Reads the static type under `name`.
pub(crate) fn read_type(kind: Kind, members: &Vec<JsonMember>, name: Name) -> (r: Result<
    CadenceType,
    CadenceError,
>)
    ensures
        match r {
            Ok(t) => type_member(kind, members_view(members@), name) == Ok::<
                TypeModel,
                ErrorModel,
            >(t@),
            Err(e) => type_member(kind, members_view(members@), name) == Err::<
                TypeModel,
                ErrorModel,
            >(e@),
        },
    decreases members, 1nat,
{
    match find_member(members, name.name()) {
        None => Err(shape_error(kind, Expected::Member(name))),
        Some(i) => decode_static_type(kind, &members[i].value),
    }
}

/// Decodes each static type of a run, up to the first that fails.
fn read_type_list(kind: Kind, items: &Vec<Json>) -> (r: Result<Vec<CadenceType>, CadenceError>)
    ensures
        match r {
            Ok(ts) => collect(decode_each_type(kind, items_view(items@))) == Ok::<
                Seq<TypeModel>,
                ErrorModel,
            >(types_view(ts@)),
            Err(e) => collect(decode_each_type(kind, items_view(items@))) == Err::<
                Seq<TypeModel>,
                ErrorModel,
            >(e@),
        },
    decreases items, 0nat,
{
    let ghost rs = decode_each_type(kind, items_view(items@));
    let mut out: Vec<CadenceType> = Vec::with_capacity(items.len());
    let mut i: usize = 0;
    while i < items.len()
        invariant
            i <= items@.len(),
            out@.len() == i,
            rs == decode_each_type(kind, items_view(items@)),
            forall|j: int| 0 <= j < i ==> (#[trigger] rs[j]) is Ok && rs[j]->Ok_0 == out@[j]@,
        decreases items@.len() - i,
    {
        match decode_static_type(kind, &items[i]) {
            Ok(t) => {
                out.push(t);
            },
            Err(e) => {
                proof {
                    lemma_collect_err(rs, i as int);
                }
                return Err(e);
            },
        }
        i += 1;
    }
    proof {
        lemma_collect_ok(rs);
        assert(collect(rs)->Ok_0 =~= types_view(out@));
    }
    Ok(out)
}

/// Reads the static types under `name`.
fn read_types(kind: Kind, members: &Vec<JsonMember>, name: Name) -> (r: Result<
    Vec<CadenceType>,
    CadenceError,
>)
    ensures
        match r {
            Ok(ts) => types_member(kind, members_view(members@), name) == Ok::<
                Seq<TypeModel>,
                ErrorModel,
            >(types_view(ts@)),
            Err(e) => types_member(kind, members_view(members@), name) == Err::<
                Seq<TypeModel>,
                ErrorModel,
            >(e@),
        },
    decreases members, 1nat,
{
    match find_member(members, name.name()) {
        None => Err(shape_error(kind, Expected::Member(name))),
        Some(i) => match &members[i].value {
            Json::Array(items) => {
                proof {
                    lemma_view_array(*items);
                }
                read_type_list(kind, items)
            },
            _ => Err(shape_error(kind, Expected::ArrayMember(name))),
        },
    }
}

/// Decodes a parameter.
fn read_parameter(kind: Kind, tree: &Json) -> (r: Result<ParameterType, CadenceError>)
    ensures
        match r {
            Ok(p) => decode_parameter(kind, tree@) == Ok::<ParameterModel, ErrorModel>(p@),
            Err(e) => decode_parameter(kind, tree@) == Err::<ParameterModel, ErrorModel>(e@),
        },
    decreases tree, 0nat,
{
    match tree {
        Json::Object(members) => {
            proof {
                lemma_view_object(*members);
            }
            let label = match read_string(kind, members, Name::Label) {
                Ok(label) => label,
                Err(e) => {
                    return Err(e);
                },
            };
            let id = match read_string(kind, members, Name::Id) {
                Ok(id) => id,
                Err(e) => {
                    return Err(e);
                },
            };
            match read_type(kind, members, Name::InnerType) {
                Ok(type_) => Ok(ParameterType { label, id, type_ }),
                Err(e) => Err(e),
            }
        },
        _ => Err(shape_error(kind, Expected::DescriptorObject)),
    }
}

/// Decodes each parameter of a run, up to the first that fails.
fn read_parameter_list(kind: Kind, items: &Vec<Json>) -> (r: Result<
    Vec<ParameterType>,
    CadenceError,
>)
    ensures
        match r {
            Ok(ps) => collect(decode_each_parameter(kind, items_view(items@))) == Ok::<
                Seq<ParameterModel>,
                ErrorModel,
            >(parameters_view(ps@)),
            Err(e) => collect(decode_each_parameter(kind, items_view(items@))) == Err::<
                Seq<ParameterModel>,
                ErrorModel,
            >(e@),
        },
    decreases items, 1nat,
{
    let ghost rs = decode_each_parameter(kind, items_view(items@));
    let mut out: Vec<ParameterType> = Vec::with_capacity(items.len());
    let mut i: usize = 0;
    while i < items.len()
        invariant
            i <= items@.len(),
            out@.len() == i,
            rs == decode_each_parameter(kind, items_view(items@)),
            forall|j: int| 0 <= j < i ==> (#[trigger] rs[j]) is Ok && rs[j]->Ok_0 == out@[j]@,
        decreases items@.len() - i,
    {
        match read_parameter(kind, &items[i]) {
            Ok(p) => {
                out.push(p);
            },
            Err(e) => {
                proof {
                    lemma_collect_err(rs, i as int);
                }
                return Err(e);
            },
        }
        i += 1;
    }
    proof {
        lemma_collect_ok(rs);
        assert(collect(rs)->Ok_0 =~= parameters_view(out@));
    }
    Ok(out)
}

/// Reads the parameters under `name`.
fn read_parameters(kind: Kind, members: &Vec<JsonMember>, name: Name) -> (r: Result<
    Vec<ParameterType>,
    CadenceError,
>)
    ensures
        match r {
            Ok(ps) => parameters_member(kind, members_view(members@), name) == Ok::<
                Seq<ParameterModel>,
                ErrorModel,
            >(parameters_view(ps@)),
            Err(e) => parameters_member(kind, members_view(members@), name) == Err::<
                Seq<ParameterModel>,
                ErrorModel,
            >(e@),
        },
    decreases members, 1nat,
{
    match find_member(members, name.name()) {
        None => Err(shape_error(kind, Expected::Member(name))),
        Some(i) => match &members[i].value {
            Json::Array(items) => {
                proof {
                    lemma_view_array(*items);
                }
                read_parameter_list(kind, items)
            },
            _ => Err(shape_error(kind, Expected::ArrayMember(name))),
        },
    }
}

/// Decodes one initializer: an array of parameters.
fn read_initializer(kind: Kind, tree: &Json) -> (r: Result<Vec<ParameterType>, CadenceError>)
    ensures
        match r {
            Ok(ps) => decode_each_initializer(kind, seq![tree@])[0] == Ok::<
                Seq<ParameterModel>,
                ErrorModel,
            >(parameters_view(ps@)),
            Err(e) => decode_each_initializer(kind, seq![tree@])[0] == Err::<
                Seq<ParameterModel>,
                ErrorModel,
            >(e@),
        },
    decreases tree, 0nat,
{
    match tree {
        Json::Array(parameters) => {
            proof {
                lemma_view_array(*parameters);
            }
            read_parameter_list(kind, parameters)
        },
        _ => Err(shape_error(kind, Expected::ArrayMember(Name::Initializers))),
    }
}

/// Decodes each initializer of a run, up to the first that fails.
fn read_initializer_list(kind: Kind, items: &Vec<Json>) -> (r: Result<
    Vec<Vec<ParameterType>>,
    CadenceError,
>)
    ensures
        match r {
            Ok(is) => collect(decode_each_initializer(kind, items_view(items@))) == Ok::<
                Seq<Seq<ParameterModel>>,
                ErrorModel,
            >(initializers_view(is@)),
            Err(e) => collect(decode_each_initializer(kind, items_view(items@))) == Err::<
                Seq<Seq<ParameterModel>>,
                ErrorModel,
            >(e@),
        },
    decreases items, 1nat,
{
    let ghost rs = decode_each_initializer(kind, items_view(items@));
    let mut out: Vec<Vec<ParameterType>> = Vec::with_capacity(items.len());
    let mut i: usize = 0;
    while i < items.len()
        invariant
            i <= items@.len(),
            out@.len() == i,
            rs == decode_each_initializer(kind, items_view(items@)),
            forall|j: int|
                0 <= j < i ==> (#[trigger] rs[j]) is Ok && rs[j]->Ok_0 == parameters_view(
                    out@[j]@,
                ),
        decreases items@.len() - i,
    {
        match read_initializer(kind, &items[i]) {
            Ok(ps) => {
                out.push(ps);
            },
            Err(e) => {
                proof {
                    lemma_collect_err(rs, i as int);
                }
                return Err(e);
            },
        }
        i += 1;
    }
    proof {
        lemma_collect_ok(rs);
        assert(collect(rs)->Ok_0 =~= initializers_view(out@));
    }
    Ok(out)
}

/// Reads the initializers under `"initializers"`.
fn read_initializers(kind: Kind, members: &Vec<JsonMember>) -> (r: Result<
    Vec<Vec<ParameterType>>,
    CadenceError,
>)
    ensures
        match r {
            Ok(is) => initializers_member(kind, members_view(members@)) == Ok::<
                Seq<Seq<ParameterModel>>,
                ErrorModel,
            >(initializers_view(is@)),
            Err(e) => initializers_member(kind, members_view(members@)) == Err::<
                Seq<Seq<ParameterModel>>,
                ErrorModel,
            >(e@),
        },
    decreases members, 1nat,
{
    match find_member(members, Name::Initializers.name()) {
        None => Err(shape_error(kind, Expected::Member(Name::Initializers))),
        Some(i) => match &members[i].value {
            Json::Array(items) => {
                proof {
                    lemma_view_array(*items);
                }
                read_initializer_list(kind, items)
            },
            _ => Err(shape_error(kind, Expected::ArrayMember(Name::Initializers))),
        },
    }
}

/// Decodes a declared field.
fn read_declared_field(kind: Kind, tree: &Json) -> (r: Result<FieldType, CadenceError>)
    ensures
        match r {
            Ok(f) => decode_declared_field(kind, tree@) == Ok::<FieldModel, ErrorModel>(f@),
            Err(e) => decode_declared_field(kind, tree@) == Err::<FieldModel, ErrorModel>(e@),
        },
    decreases tree, 0nat,
{
    match tree {
        Json::Object(members) => {
            proof {
                lemma_view_object(*members);
            }
            let id = match read_string(kind, members, Name::Id) {
                Ok(id) => id,
                Err(e) => {
                    return Err(e);
                },
            };
            match read_type(kind, members, Name::InnerType) {
                Ok(type_) => Ok(FieldType { id, type_ }),
                Err(e) => Err(e),
            }
        },
        _ => Err(shape_error(kind, Expected::DescriptorObject)),
    }
}

/// Decodes each declared field of a run, up to the first that fails.
fn read_declared_field_list(kind: Kind, items: &Vec<Json>) -> (r: Result<
    Vec<FieldType>,
    CadenceError,
>)
    ensures
        match r {
            Ok(fs) => collect(decode_each_declared_field(kind, items_view(items@))) == Ok::<
                Seq<FieldModel>,
                ErrorModel,
            >(field_types_view(fs@)),
            Err(e) => collect(decode_each_declared_field(kind, items_view(items@))) == Err::<
                Seq<FieldModel>,
                ErrorModel,
            >(e@),
        },
    decreases items, 0nat,
{
    let ghost rs = decode_each_declared_field(kind, items_view(items@));
    let mut out: Vec<FieldType> = Vec::with_capacity(items.len());
    let mut i: usize = 0;
    while i < items.len()
        invariant
            i <= items@.len(),
            out@.len() == i,
            rs == decode_each_declared_field(kind, items_view(items@)),
            forall|j: int| 0 <= j < i ==> (#[trigger] rs[j]) is Ok && rs[j]->Ok_0 == out@[j]@,
        decreases items@.len() - i,
    {
        match read_declared_field(kind, &items[i]) {
            Ok(f) => {
                out.push(f);
            },
            Err(e) => {
                proof {
                    lemma_collect_err(rs, i as int);
                }
                return Err(e);
            },
        }
        i += 1;
    }
    proof {
        lemma_collect_ok(rs);
        assert(collect(rs)->Ok_0 =~= field_types_view(out@));
    }
    Ok(out)
}

/// Reads the declared fields under `"fields"`.
fn read_declared_fields(kind: Kind, members: &Vec<JsonMember>) -> (r: Result<
    Vec<FieldType>,
    CadenceError,
>)
    ensures
        match r {
            Ok(fs) => fields_member(kind, members_view(members@)) == Ok::<
                Seq<FieldModel>,
                ErrorModel,
            >(field_types_view(fs@)),
            Err(e) => fields_member(kind, members_view(members@)) == Err::<
                Seq<FieldModel>,
                ErrorModel,
            >(e@),
        },
    decreases members, 1nat,
{
    match find_member(members, Name::Fields.name()) {
        None => Err(shape_error(kind, Expected::Member(Name::Fields))),
        Some(i) => match &members[i].value {
            Json::Array(items) => {
                proof {
                    lemma_view_array(*items);
                }
                read_declared_field_list(kind, items)
            },
            _ => Err(shape_error(kind, Expected::ArrayMember(Name::Fields))),
        },
    }
}

/// Decodes an entitlement.
fn read_entitlement(kind: Kind, tree: &Json) -> (r: Result<Entitlement, CadenceError>)
    ensures
        match r {
            Ok(x) => decode_entitlement(kind, tree@) == Ok::<Seq<char>, ErrorModel>(x@),
            Err(e) => decode_entitlement(kind, tree@) == Err::<Seq<char>, ErrorModel>(e@),
        },
{
    match tree {
        Json::Object(members) => {
            proof {
                lemma_view_object(*members);
            }
            let tag = match read_string(kind, members, Name::Kind) {
                Ok(tag) => tag,
                Err(e) => {
                    return Err(e);
                },
            };
            if !str_eq(tag.as_str(), "EntitlementMap") {
                return Err(shape_error(kind, Expected::DescriptorKind));
            }
            match read_string(kind, members, Name::TypeId) {
                Ok(type_id) => Ok(Entitlement::EntitlementMap { type_id }),
                Err(e) => Err(e),
            }
        },
        _ => Err(shape_error(kind, Expected::DescriptorObject)),
    }
}

/// Decodes each entitlement of a run, up to the first that fails.
fn read_entitlement_list(kind: Kind, items: &Vec<Json>) -> (r: Result<
    Vec<Entitlement>,
    CadenceError,
>)
    ensures
        match r {
            Ok(xs) => collect(decode_each_entitlement(kind, items_view(items@))) == Ok::<
                Seq<Seq<char>>,
                ErrorModel,
            >(entitlements_view(xs@)),
            Err(e) => collect(decode_each_entitlement(kind, items_view(items@))) == Err::<
                Seq<Seq<char>>,
                ErrorModel,
            >(e@),
        },
{
    let ghost rs = decode_each_entitlement(kind, items_view(items@));
    let mut out: Vec<Entitlement> = Vec::with_capacity(items.len());
    let mut i: usize = 0;
    while i < items.len()
        invariant
            i <= items@.len(),
            out@.len() == i,
            rs == decode_each_entitlement(kind, items_view(items@)),
            forall|j: int| 0 <= j < i ==> (#[trigger] rs[j]) is Ok && rs[j]->Ok_0 == out@[j]@,
        decreases items@.len() - i,
    {
        match read_entitlement(kind, &items[i]) {
            Ok(x) => {
                out.push(x);
            },
            Err(e) => {
                proof {
                    lemma_collect_err(rs, i as int);
                }
                return Err(e);
            },
        }
        i += 1;
    }
    proof {
        lemma_collect_ok(rs);
        assert(collect(rs)->Ok_0 =~= entitlements_view(out@));
    }
    Ok(out)
}

/// Decodes an authorization.
fn read_authorization(kind: Kind, tree: &Json) -> (r: Result<Authorization, CadenceError>)
    ensures
        match r {
            Ok(a) => decode_authorization(kind, tree@) == Ok::<AuthorizationModel, ErrorModel>(
                a@,
            ),
            Err(e) => decode_authorization(kind, tree@) == Err::<AuthorizationModel, ErrorModel>(
                e@,
            ),
        },
{
    let members = match tree {
        Json::Object(members) => members,
        _ => {
            return Err(shape_error(kind, Expected::DescriptorObject));
        },
    };
    proof {
        lemma_view_object(*members);
    }
    let tag = match read_string(kind, members, Name::Kind) {
        Ok(tag) => tag,
        Err(e) => {
            return Err(e);
        },
    };
    if str_eq(tag.as_str(), "Unauthorized") {
        match find_member(members, Name::Entitlements.name()) {
            None => Ok(Authorization::Unauthorized { entitlements: None }),
            Some(i) => match &members[i].value {
                Json::Null => Ok(Authorization::Unauthorized { entitlements: None }),
                Json::Array(items) => {
                    proof {
                        lemma_view_array(*items);
                    }
                    match read_entitlement_list(kind, items) {
                        Ok(list) => Ok(Authorization::Unauthorized { entitlements: Some(list) }),
                        Err(e) => Err(e),
                    }
                },
                _ => Err(shape_error(kind, Expected::ArrayMember(Name::Entitlements))),
            },
        }
    } else if str_eq(tag.as_str(), "EntitlementMapAuthorization") || str_eq(
        tag.as_str(),
        "EntitlementConjunctionSet",
    ) || str_eq(tag.as_str(), "EntitlementDisjunctionSet") {
        let items = match read_array(kind, members, Name::Entitlements) {
            Ok(items) => items,
            Err(e) => {
                return Err(e);
            },
        };
        let entitlements = match read_entitlement_list(kind, items) {
            Ok(list) => list,
            Err(e) => {
                return Err(e);
            },
        };
        if str_eq(tag.as_str(), "EntitlementMapAuthorization") {
            Ok(Authorization::EntitlementMapAuthorization { entitlements })
        } else if str_eq(tag.as_str(), "EntitlementConjunctionSet") {
            Ok(Authorization::EntitlementConjunctionSet { entitlements })
        } else {
            Ok(Authorization::EntitlementDisjunctionSet { entitlements })
        }
    } else {
        Err(shape_error(kind, Expected::DescriptorKind))
    }
}

/// Reads the authorization under `"authorization"`.
fn read_authorization_member(kind: Kind, members: &Vec<JsonMember>) -> (r: Result<
    Authorization,
    CadenceError,
>)
    ensures
        match r {
            Ok(a) => authorization_member(kind, members_view(members@)) == Ok::<
                AuthorizationModel,
                ErrorModel,
            >(a@),
            Err(e) => authorization_member(kind, members_view(members@)) == Err::<
                AuthorizationModel,
                ErrorModel,
            >(e@),
        },
{
    match find_member(members, Name::Authorization.name()) {
        None => Err(shape_error(kind, Expected::Member(Name::Authorization))),
        Some(i) => read_authorization(kind, &members[i].value),
    }
}

/// Reads the static type of the kind that `tag` names from the members of
/// its object.
fn read_type_of(kind: Kind, tag: &str, members: &Vec<JsonMember>) -> (r: Result<
    CadenceType,
    CadenceError,
>)
    ensures
        match r {
            Ok(t) => decode_type_of(kind, tag@, members_view(members@)) == Ok::<
                TypeModel,
                ErrorModel,
            >(t@),
            Err(e) => decode_type_of(kind, tag@, members_view(members@)) == Err::<
                TypeModel,
                ErrorModel,
            >(e@),
        },
    decreases members, 2nat,
{
    if let Some(t) = simple_type(tag) {
        return Ok(t);
    }
    if str_eq(tag, "Capability") || str_eq(tag, "Optional") || str_eq(tag, "VariableSizedArray") {
        let inner = match read_type(kind, members, Name::InnerType) {
            Ok(inner) => Box::new(inner),
            Err(e) => {
                return Err(e);
            },
        };
        if str_eq(tag, "Capability") {
            Ok(CadenceType::Capability { type_: inner })
        } else if str_eq(tag, "Optional") {
            Ok(CadenceType::Optional { type_: inner })
        } else {
            Ok(CadenceType::VariableSizedArray { type_: inner })
        }
    } else if str_eq(tag, "ConstantSizedArray") {
        let inner = match read_type(kind, members, Name::InnerType) {
            Ok(inner) => Box::new(inner),
            Err(e) => {
                return Err(e);
            },
        };
        match read_count(kind, members, Name::Size) {
            Ok(size) => Ok(CadenceType::ConstantSizedArray { type_: inner, size }),
            Err(e) => Err(e),
        }
    } else if str_eq(tag, "Dictionary") {
        let key = match read_type(kind, members, Name::Key) {
            Ok(key) => Box::new(key),
            Err(e) => {
                return Err(e);
            },
        };
        match read_type(kind, members, Name::Value) {
            Ok(value) => Ok(CadenceType::Dictionary { key, value: Box::new(value) }),
            Err(e) => Err(e),
        }
    } else if nominal_tag(tag) {
        let type_ = match read_string(kind, members, Name::Type) {
            Ok(type_) => type_,
            Err(e) => {
                return Err(e);
            },
        };
        let type_id = match read_string(kind, members, Name::TypeId) {
            Ok(type_id) => type_id,
            Err(e) => {
                return Err(e);
            },
        };
        let initializers = match read_initializers(kind, members) {
            Ok(initializers) => initializers,
            Err(e) => {
                return Err(e);
            },
        };
        match read_declared_fields(kind, members) {
            Ok(fields) => Ok(nominal_type(tag, type_, type_id, initializers, fields)),
            Err(e) => Err(e),
        }
    } else if str_eq(tag, "Function") {
        let type_id = match read_string(kind, members, Name::TypeId) {
            Ok(type_id) => type_id,
            Err(e) => {
                return Err(e);
            },
        };
        let parameters = match read_parameters(kind, members, Name::Parameters) {
            Ok(parameters) => parameters,
            Err(e) => {
                return Err(e);
            },
        };
        let purity = match read_optional_string(kind, members, Name::Purity) {
            Ok(purity) => purity,
            Err(e) => {
                return Err(e);
            },
        };
        match read_type(kind, members, Name::Return) {
            Ok(return_) => {
                let return_ = Box::new(return_);
                proof {
                    lemma_model_function(type_id, parameters, purity, return_);
                }
                Ok(CadenceType::Function { type_id, parameters, purity, return_ })
            },
            Err(e) => Err(e),
        }
    } else if str_eq(tag, "Reference") {
        let authorization = match read_authorization_member(kind, members) {
            Ok(authorization) => authorization,
            Err(e) => {
                return Err(e);
            },
        };
        match read_type(kind, members, Name::InnerType) {
            Ok(inner) => Ok(CadenceType::Reference { authorization, type_: Box::new(inner) }),
            Err(e) => Err(e),
        }
    } else if str_eq(tag, "Intersection") {
        let type_id = match read_string(kind, members, Name::TypeId) {
            Ok(type_id) => type_id,
            Err(e) => {
                return Err(e);
            },
        };
        match read_types(kind, members, Name::Types) {
            Ok(types) => {
                proof {
                    lemma_model_intersection(type_id, types);
                }
                Ok(CadenceType::Intersection { type_id, types })
            },
            Err(e) => Err(e),
        }
    } else if str_eq(tag, "Enum") {
        let raw = match read_type(kind, members, Name::Type) {
            Ok(raw) => Box::new(raw),
            Err(e) => {
                return Err(e);
            },
        };
        let type_id = match read_string(kind, members, Name::TypeId) {
            Ok(type_id) => type_id,
            Err(e) => {
                return Err(e);
            },
        };
        let initializers = match read_initializers(kind, members) {
            Ok(initializers) => initializers,
            Err(e) => {
                return Err(e);
            },
        };
        match read_declared_fields(kind, members) {
            Ok(fields) => {
                proof {
                    lemma_model_enum(raw, type_id, initializers, fields);
                }
                Ok(CadenceType::Enum { type_: raw, type_id, initializers, fields })
            },
            Err(e) => Err(e),
        }
    } else if str_eq(tag, "InclusiveRange") {
        match read_type(kind, members, Name::Element) {
            Ok(element) => Ok(CadenceType::InclusiveRange { element: Box::new(element) }),
            Err(e) => Err(e),
        }
    } else {
        Err(shape_error(kind, Expected::DescriptorKind))
    }
}

} // verus!
