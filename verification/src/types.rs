//! Static types: the descriptors that type values, capabilities and
//! function values carry.

use vstd::prelude::*;

verus! {

/// A static type, as the wire format describes it under `"kind"`.
#[derive(Debug)]
pub enum CadenceType {
    Account,
    AccountCapabilityController,
    AccountKey,
    Address,
    AnyResource,
    AnyResourceAttachment,
    AnyStruct,
    AnyStructAttachment,
    Block,
    Bool,
    Capability { type_: Box<CadenceType> },
    CapabilityPath,
    Character,
    DeployedContract,
    DeploymentResult,
    Fix64,
    FixedPoint,
    FixedSizeUnsignedInteger,
    HashAlgorithm,
    HashableStruct,
    Int,
    Int8,
    Int16,
    Int32,
    Int64,
    Int128,
    Int256,
    Integer,
    Never,
    Number,
    Path,
    PrivatePath,
    PublicKey,
    PublicPath,
    SignatureAlgorithm,
    SignedFixedPoint,
    SignedInteger,
    SignedNumber,
    StorageCapabilityController,
    StoragePath,
    String,
    Type,
    UFix64,
    UInt,
    UInt8,
    UInt16,
    UInt32,
    UInt64,
    UInt128,
    UInt256,
    Void,
    Word8,
    Word16,
    Word32,
    Word64,
    Word128,
    Word256,
    Optional { type_: Box<CadenceType> },
    VariableSizedArray { type_: Box<CadenceType> },
    ConstantSizedArray { type_: Box<CadenceType>, size: usize },
    Dictionary { key: Box<CadenceType>, value: Box<CadenceType> },
    Struct {
        type_: String,
        type_id: String,
        initializers: Vec<Vec<ParameterType>>,
        fields: Vec<FieldType>,
    },
    Resource {
        type_: String,
        type_id: String,
        initializers: Vec<Vec<ParameterType>>,
        fields: Vec<FieldType>,
    },
    Event {
        type_: String,
        type_id: String,
        initializers: Vec<Vec<ParameterType>>,
        fields: Vec<FieldType>,
    },
    Contract {
        type_: String,
        type_id: String,
        initializers: Vec<Vec<ParameterType>>,
        fields: Vec<FieldType>,
    },
    StructInterface {
        type_: String,
        type_id: String,
        initializers: Vec<Vec<ParameterType>>,
        fields: Vec<FieldType>,
    },
    ResourceInterface {
        type_: String,
        type_id: String,
        initializers: Vec<Vec<ParameterType>>,
        fields: Vec<FieldType>,
    },
    ContractInterface {
        type_: String,
        type_id: String,
        initializers: Vec<Vec<ParameterType>>,
        fields: Vec<FieldType>,
    },
    Function {
        type_id: String,
        parameters: Vec<ParameterType>,
        purity: Option<String>,
        return_: Box<CadenceType>,
    },
    Reference { authorization: Authorization, type_: Box<CadenceType> },
    Intersection { type_id: String, types: Vec<CadenceType> },
    Enum {
        type_: Box<CadenceType>,
        type_id: String,
        initializers: Vec<Vec<ParameterType>>,
        fields: Vec<FieldType>,
    },
    InclusiveRange { element: Box<CadenceType> },
}

/// A declared field of a nominal type: its name and its type.
#[derive(Debug)]
pub struct FieldType {
    pub id: String,
    pub type_: CadenceType,
}

/// One parameter of an initializer or of a function type.
#[derive(Debug)]
pub struct ParameterType {
    pub label: String,
    pub id: String,
    pub type_: CadenceType,
}

/// The access that a reference type grants.
#[derive(Debug)]
pub enum Authorization {
    Unauthorized { entitlements: Option<Vec<Entitlement>> },
    EntitlementMapAuthorization { entitlements: Vec<Entitlement> },
    EntitlementConjunctionSet { entitlements: Vec<Entitlement> },
    EntitlementDisjunctionSet { entitlements: Vec<Entitlement> },
}

/// A reference to an entitlement.
#[derive(Debug)]
pub enum Entitlement {
    EntitlementMap { type_id: String },
}

/// The mathematical value of a static type. A kind without parts is known by
/// its name; the seven declaration kinds that share one shape are told apart by
/// theirs.
pub enum TypeModel {
    Simple(Seq<char>),
    Optional(Box<TypeModel>),
    VariableSizedArray(Box<TypeModel>),
    ConstantSizedArray(Box<TypeModel>, nat),
    Dictionary(Box<TypeModel>, Box<TypeModel>),
    Capability(Box<TypeModel>),
    InclusiveRange(Box<TypeModel>),
    Nominal(Seq<char>, Seq<char>, Seq<char>, Seq<Seq<ParameterModel>>, Seq<FieldModel>),
    Enum(Box<TypeModel>, Seq<char>, Seq<Seq<ParameterModel>>, Seq<FieldModel>),
    Function(Seq<char>, Seq<ParameterModel>, Option<Seq<char>>, Box<TypeModel>),
    Reference(AuthorizationModel, Box<TypeModel>),
    Intersection(Seq<char>, Seq<TypeModel>),
}

/// The value of a declared field: its name and its type.
pub struct FieldModel {
    pub id: Seq<char>,
    pub type_: TypeModel,
}

/// The value of a parameter: its label, its name and its type.
pub struct ParameterModel {
    pub label: Seq<char>,
    pub id: Seq<char>,
    pub type_: TypeModel,
}

/// The value of an authorization: its entitlements, each known by its type
/// identifier.
pub enum AuthorizationModel {
    Unauthorized(Option<Seq<Seq<char>>>),
    EntitlementMapAuthorization(Seq<Seq<char>>),
    EntitlementConjunctionSet(Seq<Seq<char>>),
    EntitlementDisjunctionSet(Seq<Seq<char>>),
}

impl View for Entitlement {
    type V = Seq<char>;

    open spec fn view(&self) -> Seq<char> {
        match self {
            Entitlement::EntitlementMap { type_id } => type_id@,
        }
    }
}

/// The values of a run of entitlements, one for one.
pub open spec fn entitlements_view(entitlements: Seq<Entitlement>) -> Seq<Seq<char>> {
    Seq::new(entitlements.len(), |i: int| entitlements[i]@)
}

impl View for Authorization {
    type V = AuthorizationModel;

    open spec fn view(&self) -> AuthorizationModel {
        match self {
            Authorization::Unauthorized { entitlements } => AuthorizationModel::Unauthorized(
                match entitlements {
                    Some(list) => Some(entitlements_view(list@)),
                    None => None,
                },
            ),
            Authorization::EntitlementMapAuthorization {
                entitlements,
            } => AuthorizationModel::EntitlementMapAuthorization(entitlements_view(entitlements@)),
            Authorization::EntitlementConjunctionSet {
                entitlements,
            } => AuthorizationModel::EntitlementConjunctionSet(entitlements_view(entitlements@)),
            Authorization::EntitlementDisjunctionSet {
                entitlements,
            } => AuthorizationModel::EntitlementDisjunctionSet(entitlements_view(entitlements@)),
        }
    }
}

impl CadenceType {
    /// The value of this type.
    pub open spec fn model(&self) -> TypeModel
        decreases self,
    {
        match self {
            CadenceType::Account => TypeModel::Simple("Account"@),
            CadenceType::AccountCapabilityController => TypeModel::Simple("AccountCapabilityController"@),
            CadenceType::AccountKey => TypeModel::Simple("AccountKey"@),
            CadenceType::Address => TypeModel::Simple("Address"@),
            CadenceType::AnyResource => TypeModel::Simple("AnyResource"@),
            CadenceType::AnyResourceAttachment => TypeModel::Simple("AnyResourceAttachment"@),
            CadenceType::AnyStruct => TypeModel::Simple("AnyStruct"@),
            CadenceType::AnyStructAttachment => TypeModel::Simple("AnyStructAttachment"@),
            CadenceType::Block => TypeModel::Simple("Block"@),
            CadenceType::Bool => TypeModel::Simple("Bool"@),
            CadenceType::CapabilityPath => TypeModel::Simple("CapabilityPath"@),
            CadenceType::Character => TypeModel::Simple("Character"@),
            CadenceType::DeployedContract => TypeModel::Simple("DeployedContract"@),
            CadenceType::DeploymentResult => TypeModel::Simple("DeploymentResult"@),
            CadenceType::Fix64 => TypeModel::Simple("Fix64"@),
            CadenceType::FixedPoint => TypeModel::Simple("FixedPoint"@),
            CadenceType::FixedSizeUnsignedInteger => TypeModel::Simple("FixedSizeUnsignedInteger"@),
            CadenceType::HashAlgorithm => TypeModel::Simple("HashAlgorithm"@),
            CadenceType::HashableStruct => TypeModel::Simple("HashableStruct"@),
            CadenceType::Int => TypeModel::Simple("Int"@),
            CadenceType::Int8 => TypeModel::Simple("Int8"@),
            CadenceType::Int16 => TypeModel::Simple("Int16"@),
            CadenceType::Int32 => TypeModel::Simple("Int32"@),
            CadenceType::Int64 => TypeModel::Simple("Int64"@),
            CadenceType::Int128 => TypeModel::Simple("Int128"@),
            CadenceType::Int256 => TypeModel::Simple("Int256"@),
            CadenceType::Integer => TypeModel::Simple("Integer"@),
            CadenceType::Never => TypeModel::Simple("Never"@),
            CadenceType::Number => TypeModel::Simple("Number"@),
            CadenceType::Path => TypeModel::Simple("Path"@),
            CadenceType::PrivatePath => TypeModel::Simple("PrivatePath"@),
            CadenceType::PublicKey => TypeModel::Simple("PublicKey"@),
            CadenceType::PublicPath => TypeModel::Simple("PublicPath"@),
            CadenceType::SignatureAlgorithm => TypeModel::Simple("SignatureAlgorithm"@),
            CadenceType::SignedFixedPoint => TypeModel::Simple("SignedFixedPoint"@),
            CadenceType::SignedInteger => TypeModel::Simple("SignedInteger"@),
            CadenceType::SignedNumber => TypeModel::Simple("SignedNumber"@),
            CadenceType::StorageCapabilityController => TypeModel::Simple("StorageCapabilityController"@),
            CadenceType::StoragePath => TypeModel::Simple("StoragePath"@),
            CadenceType::String => TypeModel::Simple("String"@),
            CadenceType::Type => TypeModel::Simple("Type"@),
            CadenceType::UFix64 => TypeModel::Simple("UFix64"@),
            CadenceType::UInt => TypeModel::Simple("UInt"@),
            CadenceType::UInt8 => TypeModel::Simple("UInt8"@),
            CadenceType::UInt16 => TypeModel::Simple("UInt16"@),
            CadenceType::UInt32 => TypeModel::Simple("UInt32"@),
            CadenceType::UInt64 => TypeModel::Simple("UInt64"@),
            CadenceType::UInt128 => TypeModel::Simple("UInt128"@),
            CadenceType::UInt256 => TypeModel::Simple("UInt256"@),
            CadenceType::Void => TypeModel::Simple("Void"@),
            CadenceType::Word8 => TypeModel::Simple("Word8"@),
            CadenceType::Word16 => TypeModel::Simple("Word16"@),
            CadenceType::Word32 => TypeModel::Simple("Word32"@),
            CadenceType::Word64 => TypeModel::Simple("Word64"@),
            CadenceType::Word128 => TypeModel::Simple("Word128"@),
            CadenceType::Word256 => TypeModel::Simple("Word256"@),
            CadenceType::Capability { type_ } => TypeModel::Capability(Box::new(type_.model())),
            CadenceType::Optional { type_ } => TypeModel::Optional(Box::new(type_.model())),
            CadenceType::VariableSizedArray { type_ } => TypeModel::VariableSizedArray(Box::new(type_.model())),
            CadenceType::ConstantSizedArray { type_, size } => TypeModel::ConstantSizedArray(
                Box::new(type_.model()),
                *size as nat,
            ),
            CadenceType::Dictionary { key, value } => TypeModel::Dictionary(
                Box::new(key.model()),
                Box::new(value.model()),
            ),
            CadenceType::Struct { type_, type_id, initializers, fields } => TypeModel::Nominal(
                "Struct"@,
                type_@,
                type_id@,
                Seq::new(
                    initializers@.len(),
                    |i: int|
                        if 0 <= i < initializers@.len() {
                            Seq::new(
                                initializers@[i]@.len(),
                                |j: int|
                                    if 0 <= j < initializers@[i]@.len() {
                                        ParameterModel {
                                            label: initializers@[i]@[j].label@,
                                            id: initializers@[i]@[j].id@,
                                            type_: initializers@[i]@[j].type_.model(),
                                        }
                                    } else {
                                        arbitrary()
                                    },
                            )
                        } else {
                            arbitrary()
                        },
                ),
                Seq::new(
                    fields@.len(),
                    |i: int|
                        if 0 <= i < fields@.len() {
                            FieldModel { id: fields@[i].id@, type_: fields@[i].type_.model() }
                        } else {
                            arbitrary()
                        },
                ),
            ),
            CadenceType::Resource { type_, type_id, initializers, fields } => TypeModel::Nominal(
                "Resource"@,
                type_@,
                type_id@,
                Seq::new(
                    initializers@.len(),
                    |i: int|
                        if 0 <= i < initializers@.len() {
                            Seq::new(
                                initializers@[i]@.len(),
                                |j: int|
                                    if 0 <= j < initializers@[i]@.len() {
                                        ParameterModel {
                                            label: initializers@[i]@[j].label@,
                                            id: initializers@[i]@[j].id@,
                                            type_: initializers@[i]@[j].type_.model(),
                                        }
                                    } else {
                                        arbitrary()
                                    },
                            )
                        } else {
                            arbitrary()
                        },
                ),
                Seq::new(
                    fields@.len(),
                    |i: int|
                        if 0 <= i < fields@.len() {
                            FieldModel { id: fields@[i].id@, type_: fields@[i].type_.model() }
                        } else {
                            arbitrary()
                        },
                ),
            ),
            CadenceType::Event { type_, type_id, initializers, fields } => TypeModel::Nominal(
                "Event"@,
                type_@,
                type_id@,
                Seq::new(
                    initializers@.len(),
                    |i: int|
                        if 0 <= i < initializers@.len() {
                            Seq::new(
                                initializers@[i]@.len(),
                                |j: int|
                                    if 0 <= j < initializers@[i]@.len() {
                                        ParameterModel {
                                            label: initializers@[i]@[j].label@,
                                            id: initializers@[i]@[j].id@,
                                            type_: initializers@[i]@[j].type_.model(),
                                        }
                                    } else {
                                        arbitrary()
                                    },
                            )
                        } else {
                            arbitrary()
                        },
                ),
                Seq::new(
                    fields@.len(),
                    |i: int|
                        if 0 <= i < fields@.len() {
                            FieldModel { id: fields@[i].id@, type_: fields@[i].type_.model() }
                        } else {
                            arbitrary()
                        },
                ),
            ),
            CadenceType::Contract { type_, type_id, initializers, fields } => TypeModel::Nominal(
                "Contract"@,
                type_@,
                type_id@,
                Seq::new(
                    initializers@.len(),
                    |i: int|
                        if 0 <= i < initializers@.len() {
                            Seq::new(
                                initializers@[i]@.len(),
                                |j: int|
                                    if 0 <= j < initializers@[i]@.len() {
                                        ParameterModel {
                                            label: initializers@[i]@[j].label@,
                                            id: initializers@[i]@[j].id@,
                                            type_: initializers@[i]@[j].type_.model(),
                                        }
                                    } else {
                                        arbitrary()
                                    },
                            )
                        } else {
                            arbitrary()
                        },
                ),
                Seq::new(
                    fields@.len(),
                    |i: int|
                        if 0 <= i < fields@.len() {
                            FieldModel { id: fields@[i].id@, type_: fields@[i].type_.model() }
                        } else {
                            arbitrary()
                        },
                ),
            ),
            CadenceType::StructInterface { type_, type_id, initializers, fields } => TypeModel::Nominal(
                "StructInterface"@,
                type_@,
                type_id@,
                Seq::new(
                    initializers@.len(),
                    |i: int|
                        if 0 <= i < initializers@.len() {
                            Seq::new(
                                initializers@[i]@.len(),
                                |j: int|
                                    if 0 <= j < initializers@[i]@.len() {
                                        ParameterModel {
                                            label: initializers@[i]@[j].label@,
                                            id: initializers@[i]@[j].id@,
                                            type_: initializers@[i]@[j].type_.model(),
                                        }
                                    } else {
                                        arbitrary()
                                    },
                            )
                        } else {
                            arbitrary()
                        },
                ),
                Seq::new(
                    fields@.len(),
                    |i: int|
                        if 0 <= i < fields@.len() {
                            FieldModel { id: fields@[i].id@, type_: fields@[i].type_.model() }
                        } else {
                            arbitrary()
                        },
                ),
            ),
            CadenceType::ResourceInterface { type_, type_id, initializers, fields } => TypeModel::Nominal(
                "ResourceInterface"@,
                type_@,
                type_id@,
                Seq::new(
                    initializers@.len(),
                    |i: int|
                        if 0 <= i < initializers@.len() {
                            Seq::new(
                                initializers@[i]@.len(),
                                |j: int|
                                    if 0 <= j < initializers@[i]@.len() {
                                        ParameterModel {
                                            label: initializers@[i]@[j].label@,
                                            id: initializers@[i]@[j].id@,
                                            type_: initializers@[i]@[j].type_.model(),
                                        }
                                    } else {
                                        arbitrary()
                                    },
                            )
                        } else {
                            arbitrary()
                        },
                ),
                Seq::new(
                    fields@.len(),
                    |i: int|
                        if 0 <= i < fields@.len() {
                            FieldModel { id: fields@[i].id@, type_: fields@[i].type_.model() }
                        } else {
                            arbitrary()
                        },
                ),
            ),
            CadenceType::ContractInterface { type_, type_id, initializers, fields } => TypeModel::Nominal(
                "ContractInterface"@,
                type_@,
                type_id@,
                Seq::new(
                    initializers@.len(),
                    |i: int|
                        if 0 <= i < initializers@.len() {
                            Seq::new(
                                initializers@[i]@.len(),
                                |j: int|
                                    if 0 <= j < initializers@[i]@.len() {
                                        ParameterModel {
                                            label: initializers@[i]@[j].label@,
                                            id: initializers@[i]@[j].id@,
                                            type_: initializers@[i]@[j].type_.model(),
                                        }
                                    } else {
                                        arbitrary()
                                    },
                            )
                        } else {
                            arbitrary()
                        },
                ),
                Seq::new(
                    fields@.len(),
                    |i: int|
                        if 0 <= i < fields@.len() {
                            FieldModel { id: fields@[i].id@, type_: fields@[i].type_.model() }
                        } else {
                            arbitrary()
                        },
                ),
            ),
            CadenceType::Function { type_id, parameters, purity, return_ } => TypeModel::Function(
                type_id@,
                Seq::new(
                    parameters@.len(),
                    |i: int|
                        if 0 <= i < parameters@.len() {
                            ParameterModel {
                                label: parameters@[i].label@,
                                id: parameters@[i].id@,
                                type_: parameters@[i].type_.model(),
                            }
                        } else {
                            arbitrary()
                        },
                ),
                match purity {
                    Some(p) => Some(p@),
                    None => None,
                },
                Box::new(return_.model()),
            ),
            CadenceType::Reference { authorization, type_ } => TypeModel::Reference(
                authorization@,
                Box::new(type_.model()),
            ),
            CadenceType::Intersection { type_id, types } => TypeModel::Intersection(
                type_id@,
                Seq::new(
                    types@.len(),
                    |i: int|
                        if 0 <= i < types@.len() {
                            types@[i].model()
                        } else {
                            arbitrary()
                        },
                ),
            ),
            CadenceType::Enum { type_, type_id, initializers, fields } => TypeModel::Enum(
                Box::new(type_.model()),
                type_id@,
                Seq::new(
                    initializers@.len(),
                    |i: int|
                        if 0 <= i < initializers@.len() {
                            Seq::new(
                                initializers@[i]@.len(),
                                |j: int|
                                    if 0 <= j < initializers@[i]@.len() {
                                        ParameterModel {
                                            label: initializers@[i]@[j].label@,
                                            id: initializers@[i]@[j].id@,
                                            type_: initializers@[i]@[j].type_.model(),
                                        }
                                    } else {
                                        arbitrary()
                                    },
                            )
                        } else {
                            arbitrary()
                        },
                ),
                Seq::new(
                    fields@.len(),
                    |i: int|
                        if 0 <= i < fields@.len() {
                            FieldModel { id: fields@[i].id@, type_: fields@[i].type_.model() }
                        } else {
                            arbitrary()
                        },
                ),
            ),
            CadenceType::InclusiveRange { element } => TypeModel::InclusiveRange(
                Box::new(element.model()),
            ),
        }
    }
}

impl View for CadenceType {
    type V = TypeModel;

    open spec fn view(&self) -> TypeModel {
        self.model()
    }
}

impl View for FieldType {
    type V = FieldModel;

    open spec fn view(&self) -> FieldModel {
        FieldModel { id: self.id@, type_: self.type_@ }
    }
}

impl View for ParameterType {
    type V = ParameterModel;

    open spec fn view(&self) -> ParameterModel {
        ParameterModel { label: self.label@, id: self.id@, type_: self.type_@ }
    }
}

/// The values of a run of parameters, one for one.
pub open spec fn parameters_view(parameters: Seq<ParameterType>) -> Seq<ParameterModel> {
    Seq::new(parameters.len(), |i: int| parameters[i]@)
}

/// The values of a run of initializers, one for one.
pub open spec fn initializers_view(initializers: Seq<Vec<ParameterType>>) -> Seq<
    Seq<ParameterModel>,
> {
    Seq::new(initializers.len(), |i: int| parameters_view(initializers[i]@))
}

/// The values of a run of declared fields, one for one.
pub open spec fn field_types_view(fields: Seq<FieldType>) -> Seq<FieldModel> {
    Seq::new(fields.len(), |i: int| fields[i]@)
}

/// The values of a run of types, one for one.
pub open spec fn types_view(types: Seq<CadenceType>) -> Seq<TypeModel> {
    Seq::new(types.len(), |i: int| types[i]@)
}

/// The value of a declaration kind holds its name, its identifiers, and the
/// values of its initializers and fields.
pub proof fn lemma_model_nominal(
    type_: String,
    type_id: String,
    initializers: Vec<Vec<ParameterType>>,
    fields: Vec<FieldType>,
)
    ensures
        (CadenceType::Struct { type_, type_id, initializers, fields })@ == TypeModel::Nominal(
            "Struct"@,
            type_@,
            type_id@,
            initializers_view(initializers@),
            field_types_view(fields@),
        ),
        (CadenceType::Resource { type_, type_id, initializers, fields })@ == TypeModel::Nominal(
            "Resource"@,
            type_@,
            type_id@,
            initializers_view(initializers@),
            field_types_view(fields@),
        ),
        (CadenceType::Event { type_, type_id, initializers, fields })@ == TypeModel::Nominal(
            "Event"@,
            type_@,
            type_id@,
            initializers_view(initializers@),
            field_types_view(fields@),
        ),
        (CadenceType::Contract { type_, type_id, initializers, fields })@ == TypeModel::Nominal(
            "Contract"@,
            type_@,
            type_id@,
            initializers_view(initializers@),
            field_types_view(fields@),
        ),
        (CadenceType::StructInterface { type_, type_id, initializers, fields })@ == TypeModel::Nominal(
            "StructInterface"@,
            type_@,
            type_id@,
            initializers_view(initializers@),
            field_types_view(fields@),
        ),
        (CadenceType::ResourceInterface { type_, type_id, initializers, fields })@ == TypeModel::Nominal(
            "ResourceInterface"@,
            type_@,
            type_id@,
            initializers_view(initializers@),
            field_types_view(fields@),
        ),
        (CadenceType::ContractInterface { type_, type_id, initializers, fields })@ == TypeModel::Nominal(
            "ContractInterface"@,
            type_@,
            type_id@,
            initializers_view(initializers@),
            field_types_view(fields@),
        ),
{
    let i = initializers_view(initializers@);
    let f = field_types_view(fields@);
    {
        let t = CadenceType::Struct { type_, type_id, initializers, fields };
        assert(t@->Nominal_3.len() == i.len());
        assert forall|k: int| 0 <= k < i.len() implies t@->Nominal_3[k] =~= i[k] by {}
        assert(t@->Nominal_3 =~= i);
        assert(t@->Nominal_4 =~= f);
    }
    {
        let t = CadenceType::Resource { type_, type_id, initializers, fields };
        assert(t@->Nominal_3.len() == i.len());
        assert forall|k: int| 0 <= k < i.len() implies t@->Nominal_3[k] =~= i[k] by {}
        assert(t@->Nominal_3 =~= i);
        assert(t@->Nominal_4 =~= f);
    }
    {
        let t = CadenceType::Event { type_, type_id, initializers, fields };
        assert(t@->Nominal_3.len() == i.len());
        assert forall|k: int| 0 <= k < i.len() implies t@->Nominal_3[k] =~= i[k] by {}
        assert(t@->Nominal_3 =~= i);
        assert(t@->Nominal_4 =~= f);
    }
    {
        let t = CadenceType::Contract { type_, type_id, initializers, fields };
        assert(t@->Nominal_3.len() == i.len());
        assert forall|k: int| 0 <= k < i.len() implies t@->Nominal_3[k] =~= i[k] by {}
        assert(t@->Nominal_3 =~= i);
        assert(t@->Nominal_4 =~= f);
    }
    {
        let t = CadenceType::StructInterface { type_, type_id, initializers, fields };
        assert(t@->Nominal_3.len() == i.len());
        assert forall|k: int| 0 <= k < i.len() implies t@->Nominal_3[k] =~= i[k] by {}
        assert(t@->Nominal_3 =~= i);
        assert(t@->Nominal_4 =~= f);
    }
    {
        let t = CadenceType::ResourceInterface { type_, type_id, initializers, fields };
        assert(t@->Nominal_3.len() == i.len());
        assert forall|k: int| 0 <= k < i.len() implies t@->Nominal_3[k] =~= i[k] by {}
        assert(t@->Nominal_3 =~= i);
        assert(t@->Nominal_4 =~= f);
    }
    {
        let t = CadenceType::ContractInterface { type_, type_id, initializers, fields };
        assert(t@->Nominal_3.len() == i.len());
        assert forall|k: int| 0 <= k < i.len() implies t@->Nominal_3[k] =~= i[k] by {}
        assert(t@->Nominal_3 =~= i);
        assert(t@->Nominal_4 =~= f);
    }
}

/// The value of an enum type holds the value of its raw type, its
/// identifier, and the values of its initializers and fields.
pub proof fn lemma_model_enum(
    type_: Box<CadenceType>,
    type_id: String,
    initializers: Vec<Vec<ParameterType>>,
    fields: Vec<FieldType>,
)
    ensures
        (CadenceType::Enum { type_, type_id, initializers, fields })@ == TypeModel::Enum(
            Box::new(type_@),
            type_id@,
            initializers_view(initializers@),
            field_types_view(fields@),
        ),
{
    let t = CadenceType::Enum { type_, type_id, initializers, fields };
    let i = initializers_view(initializers@);
    assert(t@->Enum_2.len() == i.len());
    assert forall|k: int| 0 <= k < i.len() implies t@->Enum_2[k] =~= i[k] by {}
    assert(t@->Enum_2 =~= i);
    assert(t@->Enum_3 =~= field_types_view(fields@));
}

/// The value of a function type holds its identifier, the values of its
/// parameters, its purity, and the value of its return type.
pub proof fn lemma_model_function(
    type_id: String,
    parameters: Vec<ParameterType>,
    purity: Option<String>,
    return_: Box<CadenceType>,
)
    ensures
        (CadenceType::Function { type_id, parameters, purity, return_ })@ == TypeModel::Function(
            type_id@,
            parameters_view(parameters@),
            match purity {
                Some(p) => Some(p@),
                None => None,
            },
            Box::new(return_@),
        ),
{
    let t = CadenceType::Function { type_id, parameters, purity, return_ };
    assert(t@->Function_1 =~= parameters_view(parameters@));
}

/// The value of an intersection type holds its identifier and the values of
/// its types.
pub proof fn lemma_model_intersection(type_id: String, types: Vec<CadenceType>)
    ensures
        (CadenceType::Intersection { type_id, types })@ == TypeModel::Intersection(
            type_id@,
            types_view(types@),
        ),
{
    let t = CadenceType::Intersection { type_id, types };
    assert(t@->Intersection_1 =~= types_view(types@));
}

impl Clone for Entitlement {
    fn clone(&self) -> (r: Self)
        ensures
            r@ == self@,
    {
        match self {
            Entitlement::EntitlementMap { type_id } => Entitlement::EntitlementMap {
                type_id: type_id.clone(),
            },
        }
    }
}

/// Copies a run of entitlements.
fn clone_entitlements(entitlements: &Vec<Entitlement>) -> (r: Vec<Entitlement>)
    ensures
        entitlements_view(r@) == entitlements_view(entitlements@),
{
    let mut out: Vec<Entitlement> = Vec::with_capacity(entitlements.len());
    let mut i: usize = 0;
    while i < entitlements.len()
        invariant
            i <= entitlements@.len(),
            out@.len() == i,
            forall|j: int| 0 <= j < i ==> (#[trigger] out@[j])@ == entitlements@[j]@,
        decreases entitlements@.len() - i,
    {
        out.push(entitlements[i].clone());
        i += 1;
    }
    proof {
        assert(entitlements_view(out@) =~= entitlements_view(entitlements@));
    }
    out
}

impl Clone for Authorization {
    fn clone(&self) -> (r: Self)
        ensures
            r@ == self@,
    {
        match self {
            Authorization::Unauthorized { entitlements } => Authorization::Unauthorized {
                entitlements: match entitlements {
                    Some(list) => Some(clone_entitlements(list)),
                    None => None,
                },
            },
            Authorization::EntitlementMapAuthorization {
                entitlements,
            } => Authorization::EntitlementMapAuthorization {
                entitlements: clone_entitlements(entitlements),
            },
            Authorization::EntitlementConjunctionSet {
                entitlements,
            } => Authorization::EntitlementConjunctionSet {
                entitlements: clone_entitlements(entitlements),
            },
            Authorization::EntitlementDisjunctionSet {
                entitlements,
            } => Authorization::EntitlementDisjunctionSet {
                entitlements: clone_entitlements(entitlements),
            },
        }
    }
}

/// Copies a run of types.
fn clone_types(types: &Vec<CadenceType>) -> (r: Vec<CadenceType>)
    ensures
        types_view(r@) == types_view(types@),
    decreases types, 0nat,
{
    let mut out: Vec<CadenceType> = Vec::with_capacity(types.len());
    let mut i: usize = 0;
    while i < types.len()
        invariant
            i <= types@.len(),
            out@.len() == i,
            forall|j: int| 0 <= j < i ==> (#[trigger] out@[j])@ == types@[j]@,
        decreases types@.len() - i,
    {
        out.push(types[i].clone());
        i += 1;
    }
    proof {
        assert(types_view(out@) =~= types_view(types@));
    }
    out
}

/// Copies a run of parameters.
fn clone_parameters(parameters: &Vec<ParameterType>) -> (r: Vec<ParameterType>)
    ensures
        parameters_view(r@) == parameters_view(parameters@),
    decreases parameters, 0nat,
{
    let mut out: Vec<ParameterType> = Vec::with_capacity(parameters.len());
    let mut i: usize = 0;
    while i < parameters.len()
        invariant
            i <= parameters@.len(),
            out@.len() == i,
            forall|j: int| 0 <= j < i ==> (#[trigger] out@[j])@ == parameters@[j]@,
        decreases parameters@.len() - i,
    {
        out.push(
            ParameterType {
                label: parameters[i].label.clone(),
                id: parameters[i].id.clone(),
                type_: parameters[i].type_.clone(),
            },
        );
        i += 1;
    }
    proof {
        assert(parameters_view(out@) =~= parameters_view(parameters@));
    }
    out
}

/// Copies a run of initializers.
fn clone_initializers(initializers: &Vec<Vec<ParameterType>>) -> (r: Vec<Vec<ParameterType>>)
    ensures
        initializers_view(r@) == initializers_view(initializers@),
    decreases initializers, 1nat,
{
    let mut out: Vec<Vec<ParameterType>> = Vec::with_capacity(initializers.len());
    let mut i: usize = 0;
    while i < initializers.len()
        invariant
            i <= initializers@.len(),
            out@.len() == i,
            forall|j: int|
                0 <= j < i ==> parameters_view((#[trigger] out@[j])@) == parameters_view(
                    initializers@[j]@,
                ),
        decreases initializers@.len() - i,
    {
        out.push(clone_parameters(&initializers[i]));
        i += 1;
    }
    proof {
        assert(initializers_view(out@) =~= initializers_view(initializers@));
    }
    out
}

/// Copies a run of declared fields.
fn clone_fields(fields: &Vec<FieldType>) -> (r: Vec<FieldType>)
    ensures
        field_types_view(r@) == field_types_view(fields@),
    decreases fields, 0nat,
{
    let mut out: Vec<FieldType> = Vec::with_capacity(fields.len());
    let mut i: usize = 0;
    while i < fields.len()
        invariant
            i <= fields@.len(),
            out@.len() == i,
            forall|j: int| 0 <= j < i ==> (#[trigger] out@[j])@ == fields@[j]@,
        decreases fields@.len() - i,
    {
        out.push(FieldType { id: fields[i].id.clone(), type_: fields[i].type_.clone() });
        i += 1;
    }
    proof {
        assert(field_types_view(out@) =~= field_types_view(fields@));
    }
    out
}

impl Clone for CadenceType {
    fn clone(&self) -> (r: Self)
        ensures
            r@ == self@,
        decreases self, 2nat,
    {
        match self {
            CadenceType::Account => CadenceType::Account,
            CadenceType::AccountCapabilityController => CadenceType::AccountCapabilityController,
            CadenceType::AccountKey => CadenceType::AccountKey,
            CadenceType::Address => CadenceType::Address,
            CadenceType::AnyResource => CadenceType::AnyResource,
            CadenceType::AnyResourceAttachment => CadenceType::AnyResourceAttachment,
            CadenceType::AnyStruct => CadenceType::AnyStruct,
            CadenceType::AnyStructAttachment => CadenceType::AnyStructAttachment,
            CadenceType::Block => CadenceType::Block,
            CadenceType::Bool => CadenceType::Bool,
            CadenceType::CapabilityPath => CadenceType::CapabilityPath,
            CadenceType::Character => CadenceType::Character,
            CadenceType::DeployedContract => CadenceType::DeployedContract,
            CadenceType::DeploymentResult => CadenceType::DeploymentResult,
            CadenceType::Fix64 => CadenceType::Fix64,
            CadenceType::FixedPoint => CadenceType::FixedPoint,
            CadenceType::FixedSizeUnsignedInteger => CadenceType::FixedSizeUnsignedInteger,
            CadenceType::HashAlgorithm => CadenceType::HashAlgorithm,
            CadenceType::HashableStruct => CadenceType::HashableStruct,
            CadenceType::Int => CadenceType::Int,
            CadenceType::Int8 => CadenceType::Int8,
            CadenceType::Int16 => CadenceType::Int16,
            CadenceType::Int32 => CadenceType::Int32,
            CadenceType::Int64 => CadenceType::Int64,
            CadenceType::Int128 => CadenceType::Int128,
            CadenceType::Int256 => CadenceType::Int256,
            CadenceType::Integer => CadenceType::Integer,
            CadenceType::Never => CadenceType::Never,
            CadenceType::Number => CadenceType::Number,
            CadenceType::Path => CadenceType::Path,
            CadenceType::PrivatePath => CadenceType::PrivatePath,
            CadenceType::PublicKey => CadenceType::PublicKey,
            CadenceType::PublicPath => CadenceType::PublicPath,
            CadenceType::SignatureAlgorithm => CadenceType::SignatureAlgorithm,
            CadenceType::SignedFixedPoint => CadenceType::SignedFixedPoint,
            CadenceType::SignedInteger => CadenceType::SignedInteger,
            CadenceType::SignedNumber => CadenceType::SignedNumber,
            CadenceType::StorageCapabilityController => CadenceType::StorageCapabilityController,
            CadenceType::StoragePath => CadenceType::StoragePath,
            CadenceType::String => CadenceType::String,
            CadenceType::Type => CadenceType::Type,
            CadenceType::UFix64 => CadenceType::UFix64,
            CadenceType::UInt => CadenceType::UInt,
            CadenceType::UInt8 => CadenceType::UInt8,
            CadenceType::UInt16 => CadenceType::UInt16,
            CadenceType::UInt32 => CadenceType::UInt32,
            CadenceType::UInt64 => CadenceType::UInt64,
            CadenceType::UInt128 => CadenceType::UInt128,
            CadenceType::UInt256 => CadenceType::UInt256,
            CadenceType::Void => CadenceType::Void,
            CadenceType::Word8 => CadenceType::Word8,
            CadenceType::Word16 => CadenceType::Word16,
            CadenceType::Word32 => CadenceType::Word32,
            CadenceType::Word64 => CadenceType::Word64,
            CadenceType::Word128 => CadenceType::Word128,
            CadenceType::Word256 => CadenceType::Word256,
            CadenceType::Capability { type_ } => CadenceType::Capability {
                type_: Box::new((**type_).clone()),
            },
            CadenceType::Optional { type_ } => CadenceType::Optional {
                type_: Box::new((**type_).clone()),
            },
            CadenceType::VariableSizedArray { type_ } => CadenceType::VariableSizedArray {
                type_: Box::new((**type_).clone()),
            },
            CadenceType::ConstantSizedArray { type_, size } => CadenceType::ConstantSizedArray {
                type_: Box::new((**type_).clone()),
                size: *size,
            },
            CadenceType::Dictionary { key, value } => CadenceType::Dictionary {
                key: Box::new((**key).clone()),
                value: Box::new((**value).clone()),
            },
            CadenceType::Struct { type_, type_id, initializers, fields } => {
                let i = clone_initializers(initializers);
                let f = clone_fields(fields);
                proof {
                    lemma_model_nominal(*type_, *type_id, *initializers, *fields);
                    lemma_model_nominal(*type_, *type_id, i, f);
                }
                CadenceType::Struct {
                    type_: type_.clone(),
                    type_id: type_id.clone(),
                    initializers: i,
                    fields: f,
                }
            },
            CadenceType::Resource { type_, type_id, initializers, fields } => {
                let i = clone_initializers(initializers);
                let f = clone_fields(fields);
                proof {
                    lemma_model_nominal(*type_, *type_id, *initializers, *fields);
                    lemma_model_nominal(*type_, *type_id, i, f);
                }
                CadenceType::Resource {
                    type_: type_.clone(),
                    type_id: type_id.clone(),
                    initializers: i,
                    fields: f,
                }
            },
            CadenceType::Event { type_, type_id, initializers, fields } => {
                let i = clone_initializers(initializers);
                let f = clone_fields(fields);
                proof {
                    lemma_model_nominal(*type_, *type_id, *initializers, *fields);
                    lemma_model_nominal(*type_, *type_id, i, f);
                }
                CadenceType::Event {
                    type_: type_.clone(),
                    type_id: type_id.clone(),
                    initializers: i,
                    fields: f,
                }
            },
            CadenceType::Contract { type_, type_id, initializers, fields } => {
                let i = clone_initializers(initializers);
                let f = clone_fields(fields);
                proof {
                    lemma_model_nominal(*type_, *type_id, *initializers, *fields);
                    lemma_model_nominal(*type_, *type_id, i, f);
                }
                CadenceType::Contract {
                    type_: type_.clone(),
                    type_id: type_id.clone(),
                    initializers: i,
                    fields: f,
                }
            },
            CadenceType::StructInterface { type_, type_id, initializers, fields } => {
                let i = clone_initializers(initializers);
                let f = clone_fields(fields);
                proof {
                    lemma_model_nominal(*type_, *type_id, *initializers, *fields);
                    lemma_model_nominal(*type_, *type_id, i, f);
                }
                CadenceType::StructInterface {
                    type_: type_.clone(),
                    type_id: type_id.clone(),
                    initializers: i,
                    fields: f,
                }
            },
            CadenceType::ResourceInterface { type_, type_id, initializers, fields } => {
                let i = clone_initializers(initializers);
                let f = clone_fields(fields);
                proof {
                    lemma_model_nominal(*type_, *type_id, *initializers, *fields);
                    lemma_model_nominal(*type_, *type_id, i, f);
                }
                CadenceType::ResourceInterface {
                    type_: type_.clone(),
                    type_id: type_id.clone(),
                    initializers: i,
                    fields: f,
                }
            },
            CadenceType::ContractInterface { type_, type_id, initializers, fields } => {
                let i = clone_initializers(initializers);
                let f = clone_fields(fields);
                proof {
                    lemma_model_nominal(*type_, *type_id, *initializers, *fields);
                    lemma_model_nominal(*type_, *type_id, i, f);
                }
                CadenceType::ContractInterface {
                    type_: type_.clone(),
                    type_id: type_id.clone(),
                    initializers: i,
                    fields: f,
                }
            },
            CadenceType::Function { type_id, parameters, purity, return_ } => {
                let p = clone_parameters(parameters);
                let b = Box::new((**return_).clone());
                let q = match purity {
                    Some(text) => Some(text.clone()),
                    None => None,
                };
                proof {
                    lemma_model_function(*type_id, *parameters, *purity, *return_);
                    lemma_model_function(*type_id, p, q, b);
                }
                CadenceType::Function { type_id: type_id.clone(), parameters: p, purity: q, return_: b }
            },
            CadenceType::Reference { authorization, type_ } => CadenceType::Reference {
                authorization: authorization.clone(),
                type_: Box::new((**type_).clone()),
            },
            CadenceType::Intersection { type_id, types } => {
                let t = clone_types(types);
                proof {
                    lemma_model_intersection(*type_id, *types);
                    lemma_model_intersection(*type_id, t);
                }
                CadenceType::Intersection { type_id: type_id.clone(), types: t }
            },
            CadenceType::Enum { type_, type_id, initializers, fields } => {
                let b = Box::new((**type_).clone());
                let i = clone_initializers(initializers);
                let f = clone_fields(fields);
                proof {
                    lemma_model_enum(*type_, *type_id, *initializers, *fields);
                    lemma_model_enum(b, *type_id, i, f);
                }
                CadenceType::Enum { type_: b, type_id: type_id.clone(), initializers: i, fields: f }
            },
            CadenceType::InclusiveRange { element } => CadenceType::InclusiveRange {
                element: Box::new((**element).clone()),
            },
        }
    }
}

impl Clone for FieldType {
    fn clone(&self) -> (r: Self)
        ensures
            r@ == self@,
    {
        FieldType { id: self.id.clone(), type_: self.type_.clone() }
    }
}

impl Clone for ParameterType {
    fn clone(&self) -> (r: Self)
        ensures
            r@ == self@,
    {
        ParameterType {
            label: self.label.clone(),
            id: self.id.clone(),
            type_: self.type_.clone(),
        }
    }
}

} // verus!
