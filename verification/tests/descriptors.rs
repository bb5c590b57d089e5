use cadence_json::conversion::{cadence_value_to_value, value_to_cadence_value};
use cadence_json::descriptor::decode_static_type;
use cadence_json::{
    from_str, Authorization, CadenceError, CadenceType, CadenceValue, CapabilityValue,
    Entitlement, Expected, FieldType, FunctionValue, Json, JsonMember, JsonNumber, Kind, Name,
    ParameterType, PathDomain, PathValue, RangeValue, TypeValue,
};

fn show<T: std::fmt::Debug>(value: &T) -> String {
    format!("{:?}", value)
}

fn object(members: Vec<(&str, Json)>) -> Json {
    Json::Object(
        members.into_iter().map(|(n, v)| JsonMember { name: n.to_string(), value: v }).collect(),
    )
}

fn text(s: &str) -> Json {
    Json::String(s.to_string())
}

fn envelope(kind: &str, payload: Json) -> Json {
    object(vec![("type", text(kind)), ("value", payload)])
}

fn simple(kind: &str) -> Json {
    object(vec![("kind", text(kind))])
}

fn shape_error(tree: &Json) -> (Kind, Expected) {
    match value_to_cadence_value(tree) {
        Err(CadenceError::DecodeShapeError { kind, expected }) => (kind, expected),
        other => panic!("no shape error: {:?}", other),
    }
}

fn type_error(tree: &Json) -> Expected {
    match decode_static_type(Kind::Type, tree) {
        Err(CadenceError::DecodeShapeError { kind: Kind::Type, expected }) => expected,
        other => panic!("no shape error: {:?}", other),
    }
}

#[test]
fn path_decodes() {
    let tree = envelope("Path", object(vec![("domain", text("storage")), ("identifier", text("vault"))]));
    let expected = CadenceValue::Path {
        value: PathValue { domain: PathDomain::Storage, identifier: "vault".to_string() },
    };
    assert_eq!(show(&value_to_cadence_value(&tree).unwrap()), show(&expected));
    for (name, domain) in [("private", PathDomain::Private), ("public", PathDomain::Public)] {
        let tree = envelope("Path", object(vec![("identifier", text("p")), ("domain", text(name))]));
        match value_to_cadence_value(&tree).unwrap() {
            CadenceValue::Path { value } => assert_eq!(value.domain, domain),
            other => panic!("unexpected: {:?}", other),
        }
    }
}

#[test]
fn path_of_the_wrong_shape_is_refused() {
    assert_eq!(shape_error(&envelope("Path", text("/storage/x"))), (Kind::Path, Expected::ObjectPayload));
    assert_eq!(
        shape_error(&envelope("Path", object(vec![("identifier", text("x"))]))),
        (Kind::Path, Expected::Member(Name::Domain))
    );
    assert_eq!(
        shape_error(&envelope("Path", object(vec![("domain", Json::Null)]))),
        (Kind::Path, Expected::StringMember(Name::Domain))
    );
    assert_eq!(
        shape_error(&envelope("Path", object(vec![("domain", text("Storage")), ("identifier", text("x"))]))),
        (Kind::Path, Expected::PathDomain)
    );
    assert_eq!(
        shape_error(&envelope("Path", object(vec![("domain", text("public"))]))),
        (Kind::Path, Expected::Member(Name::Identifier))
    );
}

#[test]
fn type_value_decodes() {
    let tree = envelope("Type", object(vec![("static_type", simple("UInt8"))]));
    assert_eq!(
        show(&value_to_cadence_value(&tree).unwrap()),
        show(&CadenceValue::Type { value: TypeValue { static_type: CadenceType::UInt8 } })
    );
    assert_eq!(
        shape_error(&envelope("Type", object(vec![]))),
        (Kind::Type, Expected::Member(Name::StaticType))
    );
    assert_eq!(
        shape_error(&envelope("Type", object(vec![("static_type", text("Int"))]))),
        (Kind::Type, Expected::DescriptorObject)
    );
}

#[test]
fn range_decodes_its_three_values() {
    let tree = envelope(
        "InclusiveRange",
        object(vec![
            ("start", envelope("Int", text("1"))),
            ("end", envelope("Int", text("9"))),
            ("step", envelope("Int", text("2"))),
        ]),
    );
    let int = |s: &str| Box::new(CadenceValue::Int { value: s.to_string() });
    let expected = CadenceValue::InclusiveRange {
        value: RangeValue { start: int("1"), end: int("9"), step: int("2") },
    };
    assert_eq!(show(&value_to_cadence_value(&tree).unwrap()), show(&expected));
    let broken = envelope(
        "InclusiveRange",
        object(vec![("start", envelope("Int", text("1"))), ("end", envelope("Nope", Json::Null))]),
    );
    assert!(matches!(value_to_cadence_value(&broken), Err(CadenceError::UnknownKind(_))));
    let short = envelope("InclusiveRange", object(vec![("start", Json::Null), ("end", Json::Null)]));
    assert_eq!(shape_error(&short), (Kind::InclusiveRange, Expected::Member(Name::Step)));
}

#[test]
fn capability_and_function_decode() {
    let tree = envelope(
        "Capability",
        object(vec![
            ("id", text("1")),
            ("address", text("0x1")),
            ("borrow_type", object(vec![("kind", text("Optional")), ("type_", simple("Int"))])),
        ]),
    );
    let expected = CadenceValue::Capability {
        value: CapabilityValue {
            id: "1".to_string(),
            address: "0x1".to_string(),
            borrow_type: CadenceType::Optional { type_: Box::new(CadenceType::Int) },
        },
    };
    assert_eq!(show(&value_to_cadence_value(&tree).unwrap()), show(&expected));
    let function = envelope("Function", object(vec![("function_type", simple("Never"))]));
    assert_eq!(
        show(&value_to_cadence_value(&function).unwrap()),
        show(&CadenceValue::Function { value: FunctionValue { function_type: CadenceType::Never } })
    );
    assert_eq!(
        shape_error(&envelope("Function", Json::Array(vec![]))),
        (Kind::Function, Expected::ObjectPayload)
    );
    assert_eq!(
        shape_error(&envelope("Capability", object(vec![("id", text("1")), ("address", Json::Bool(true))]))),
        (Kind::Capability, Expected::StringMember(Name::Address))
    );
}

#[test]
fn every_simple_type_is_known_by_its_name() {
    for name in [
        "Account", "AccountCapabilityController", "AccountKey", "Address", "AnyResource",
        "AnyResourceAttachment", "AnyStruct", "AnyStructAttachment", "Block", "Bool",
        "CapabilityPath", "Character", "DeployedContract", "DeploymentResult", "Fix64",
        "FixedPoint", "FixedSizeUnsignedInteger", "HashAlgorithm", "HashableStruct", "Int",
        "Int8", "Int16", "Int32", "Int64", "Int128", "Int256", "Integer", "Never", "Number",
        "Path", "PrivatePath", "PublicKey", "PublicPath", "SignatureAlgorithm",
        "SignedFixedPoint", "SignedInteger", "SignedNumber", "StorageCapabilityController",
        "StoragePath", "String", "Type", "UFix64", "UInt", "UInt8", "UInt16", "UInt32",
        "UInt64", "UInt128", "UInt256", "Void", "Word8", "Word16", "Word32", "Word64",
        "Word128", "Word256",
    ] {
        let decoded = decode_static_type(Kind::Type, &simple(name)).unwrap();
        assert_eq!(show(&decoded), name);
    }
    assert_eq!(type_error(&simple("int")), Expected::DescriptorKind);
    assert_eq!(type_error(&object(vec![])), Expected::Member(Name::Kind));
    assert_eq!(type_error(&object(vec![("kind", Json::Null)])), Expected::StringMember(Name::Kind));
    assert_eq!(type_error(&Json::Array(vec![])), Expected::DescriptorObject);
}

#[test]
fn parametrized_types_decode() {
    let count = |n: u64| Json::Number(JsonNumber::PosInt(n));
    let tree = object(vec![
        ("kind", text("Dictionary")),
        ("key", simple("String")),
        (
            "value",
            object(vec![
                ("kind", text("ConstantSizedArray")),
                ("size", count(3)),
                ("type_", object(vec![("kind", text("VariableSizedArray")), ("type_", simple("Bool"))])),
            ]),
        ),
    ]);
    let expected = CadenceType::Dictionary {
        key: Box::new(CadenceType::String),
        value: Box::new(CadenceType::ConstantSizedArray {
            type_: Box::new(CadenceType::VariableSizedArray { type_: Box::new(CadenceType::Bool) }),
            size: 3,
        }),
    };
    assert_eq!(show(&decode_static_type(Kind::Type, &tree).unwrap()), show(&expected));
    let capability = object(vec![("kind", text("Capability")), ("type_", simple("AnyStruct"))]);
    assert_eq!(
        show(&decode_static_type(Kind::Type, &capability).unwrap()),
        show(&CadenceType::Capability { type_: Box::new(CadenceType::AnyStruct) })
    );
    let range = object(vec![("kind", text("InclusiveRange")), ("element", simple("Int"))]);
    assert_eq!(
        show(&decode_static_type(Kind::Type, &range).unwrap()),
        show(&CadenceType::InclusiveRange { element: Box::new(CadenceType::Int) })
    );
    let no_size = object(vec![("kind", text("ConstantSizedArray")), ("type_", simple("Int"))]);
    assert_eq!(type_error(&no_size), Expected::Member(Name::Size));
    for size in [Json::Number(JsonNumber::NegInt(-1)), text("3"), Json::Number(JsonNumber::Float("3.0".to_string()))] {
        let bad = object(vec![("kind", text("ConstantSizedArray")), ("type_", simple("Int")), ("size", size)]);
        assert_eq!(type_error(&bad), Expected::CountMember(Name::Size));
    }
    assert_eq!(type_error(&object(vec![("kind", text("Optional"))])), Expected::Member(Name::InnerType));
}

#[test]
fn declaration_types_decode() {
    let parameter = object(vec![("label", text("to")), ("id", text("recipient")), ("type_", simple("Address"))]);
    let field = object(vec![("id", text("balance")), ("type_", simple("UFix64"))]);
    let tree = object(vec![
        ("kind", text("Resource")),
        ("type", text("")),
        ("type_id", text("A.01.Vault")),
        ("initializers", Json::Array(vec![Json::Array(vec![parameter.clone()]), Json::Array(vec![])])),
        ("fields", Json::Array(vec![field.clone()])),
    ]);
    let expected = CadenceType::Resource {
        type_: String::new(),
        type_id: "A.01.Vault".to_string(),
        initializers: vec![
            vec![ParameterType {
                label: "to".to_string(),
                id: "recipient".to_string(),
                type_: CadenceType::Address,
            }],
            vec![],
        ],
        fields: vec![FieldType { id: "balance".to_string(), type_: CadenceType::UFix64 }],
    };
    assert_eq!(show(&decode_static_type(Kind::Type, &tree).unwrap()), show(&expected));
    for kind in ["Struct", "Event", "Contract", "StructInterface", "ResourceInterface", "ContractInterface"] {
        let tree = object(vec![
            ("kind", text(kind)),
            ("type", text("t")),
            ("type_id", text("id")),
            ("initializers", Json::Array(vec![])),
            ("fields", Json::Array(vec![])),
        ]);
        let shown = show(&decode_static_type(Kind::Type, &tree).unwrap());
        assert!(shown.starts_with(&format!("{} {{", kind)), "{}", shown);
    }
    let an_enum = object(vec![
        ("kind", text("Enum")),
        ("type", simple("UInt8")),
        ("type_id", text("Color")),
        ("initializers", Json::Array(vec![])),
        ("fields", Json::Array(vec![field])),
    ]);
    let expected = CadenceType::Enum {
        type_: Box::new(CadenceType::UInt8),
        type_id: "Color".to_string(),
        initializers: vec![],
        fields: vec![FieldType { id: "balance".to_string(), type_: CadenceType::UFix64 }],
    };
    assert_eq!(show(&decode_static_type(Kind::Type, &an_enum).unwrap()), show(&expected));
    let missing = object(vec![("kind", text("Struct")), ("type", text("t")), ("type_id", text("id"))]);
    assert_eq!(type_error(&missing), Expected::Member(Name::Initializers));
    let flat = object(vec![
        ("kind", text("Struct")),
        ("type", text("t")),
        ("type_id", text("id")),
        ("initializers", Json::Array(vec![parameter])),
        ("fields", Json::Array(vec![])),
    ]);
    assert_eq!(type_error(&flat), Expected::ArrayMember(Name::Initializers));
    let no_fields = object(vec![
        ("kind", text("Struct")),
        ("type", text("t")),
        ("type_id", text("id")),
        ("initializers", Json::Array(vec![])),
        ("fields", Json::Null),
    ]);
    assert_eq!(type_error(&no_fields), Expected::ArrayMember(Name::Fields));
}

#[test]
fn function_reference_and_intersection_types_decode() {
    let function = |purity: Option<Json>| {
        let mut members = vec![
            ("kind", text("Function")),
            ("type_id", text("fun(): Void")),
            ("parameters", Json::Array(vec![])),
            ("return_", simple("Void")),
        ];
        if let Some(p) = purity {
            members.push(("purity", p));
        }
        object(members)
    };
    let expected = |purity: Option<&str>| CadenceType::Function {
        type_id: "fun(): Void".to_string(),
        parameters: vec![],
        purity: purity.map(|p| p.to_string()),
        return_: Box::new(CadenceType::Void),
    };
    assert_eq!(show(&decode_static_type(Kind::Type, &function(None)).unwrap()), show(&expected(None)));
    assert_eq!(
        show(&decode_static_type(Kind::Type, &function(Some(Json::Null))).unwrap()),
        show(&expected(None))
    );
    assert_eq!(
        show(&decode_static_type(Kind::Type, &function(Some(text("view")))).unwrap()),
        show(&expected(Some("view")))
    );
    assert_eq!(type_error(&function(Some(Json::Bool(true)))), Expected::StringMember(Name::Purity));

    let entitlement = object(vec![("kind", text("EntitlementMap")), ("type_id", text("E"))]);
    let reference = |authorization: Json| {
        object(vec![("kind", text("Reference")), ("authorization", authorization), ("type_", simple("Int"))])
    };
    let authorized = reference(object(vec![
        ("kind", text("EntitlementConjunctionSet")),
        ("entitlements", Json::Array(vec![entitlement.clone()])),
    ]));
    let expected = CadenceType::Reference {
        authorization: Authorization::EntitlementConjunctionSet {
            entitlements: vec![Entitlement::EntitlementMap { type_id: "E".to_string() }],
        },
        type_: Box::new(CadenceType::Int),
    };
    assert_eq!(show(&decode_static_type(Kind::Type, &authorized).unwrap()), show(&expected));
    let unauthorized = reference(object(vec![("kind", text("Unauthorized"))]));
    assert_eq!(
        show(&decode_static_type(Kind::Type, &unauthorized).unwrap()),
        show(&CadenceType::Reference {
            authorization: Authorization::Unauthorized { entitlements: None },
            type_: Box::new(CadenceType::Int),
        })
    );
    let with_list = reference(object(vec![
        ("kind", text("Unauthorized")),
        ("entitlements", Json::Array(vec![entitlement])),
    ]));
    assert_eq!(
        show(&decode_static_type(Kind::Type, &with_list).unwrap()),
        show(&CadenceType::Reference {
            authorization: Authorization::Unauthorized {
                entitlements: Some(vec![Entitlement::EntitlementMap { type_id: "E".to_string() }]),
            },
            type_: Box::new(CadenceType::Int),
        })
    );
    for kind in ["EntitlementMapAuthorization", "EntitlementDisjunctionSet"] {
        let tree = reference(object(vec![("kind", text(kind)), ("entitlements", Json::Array(vec![]))]));
        let shown = show(&decode_static_type(Kind::Type, &tree).unwrap());
        assert!(shown.contains(kind), "{}", shown);
    }
    assert_eq!(
        type_error(&reference(object(vec![("kind", text("EntitlementMapAuthorization"))]))),
        Expected::Member(Name::Entitlements)
    );
    assert_eq!(type_error(&reference(object(vec![("kind", text("Owner"))]))), Expected::DescriptorKind);
    assert_eq!(type_error(&reference(Json::Null)), Expected::DescriptorObject);
    let wrong_entitlement = reference(object(vec![
        ("kind", text("EntitlementConjunctionSet")),
        ("entitlements", Json::Array(vec![object(vec![("kind", text("Other"))])])),
    ]));
    assert_eq!(type_error(&wrong_entitlement), Expected::DescriptorKind);

    let intersection = object(vec![
        ("kind", text("Intersection")),
        ("type_id", text("{A, B}")),
        ("types", Json::Array(vec![simple("AnyStruct"), simple("AnyResource")])),
    ]);
    assert_eq!(
        show(&decode_static_type(Kind::Type, &intersection).unwrap()),
        show(&CadenceType::Intersection {
            type_id: "{A, B}".to_string(),
            types: vec![CadenceType::AnyStruct, CadenceType::AnyResource],
        })
    );
    let broken = object(vec![
        ("kind", text("Intersection")),
        ("type_id", text("x")),
        ("types", Json::Array(vec![simple("AnyStruct"), simple("Nope"), Json::Null])),
    ]);
    assert_eq!(type_error(&broken), Expected::DescriptorKind);
}

#[test]
fn descriptors_read_from_text_and_do_not_encode() {
    let value = from_str::<CadenceValue>(
        r#"{"type":"Path","value":{"domain":"public","identifier":"receiver"}}"#,
    )
    .unwrap();
    match &value {
        CadenceValue::Path { value } => {
            assert_eq!(value.domain, PathDomain::Public);
            assert_eq!(value.identifier, "receiver");
        },
        other => panic!("unexpected: {:?}", other),
    }
    assert!(matches!(
        cadence_value_to_value(&value),
        Err(CadenceError::UnsupportedType(Kind::Path))
    ));
    assert_eq!(show(&value.clone()), show(&value));
}

#[test]
fn descriptor_error_messages() {
    let missing = CadenceError::DecodeShapeError {
        kind: Kind::Path,
        expected: Expected::Member(Name::Domain),
    };
    assert_eq!(missing.message(), "Invalid Cadence value: Path value missing domain");
    let wrong = CadenceError::DecodeShapeError {
        kind: Kind::Type,
        expected: Expected::StringMember(Name::TypeId),
    };
    assert_eq!(wrong.message(), "Invalid Cadence value: Type type_id must be a string");
    assert_eq!(Name::InnerType.name(), "type_");
    assert_eq!(Name::Return.name(), "return_");
}
