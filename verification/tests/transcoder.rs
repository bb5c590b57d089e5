use cadence_json::conversion::{
    cadence_value_to_value, parse_structured_cadence_value, value_to_cadence_value,
};
use cadence_json::{
    CadenceError, CadenceType, CadenceValue, CompositeField, CompositeValue, DictionaryEntry,
    Expected, Json, JsonMember, JsonNumber, Kind, PathDomain, PathValue, TypeValue,
};

fn member(name: &str, value: Json) -> JsonMember {
    JsonMember { name: name.to_string(), value }
}

fn object(members: Vec<(&str, Json)>) -> Json {
    Json::Object(members.into_iter().map(|(n, v)| member(n, v)).collect())
}

fn text(s: &str) -> Json {
    Json::String(s.to_string())
}

fn envelope(kind: &str, payload: Json) -> Json {
    object(vec![("type", text(kind)), ("value", payload)])
}

fn show<T: std::fmt::Debug>(value: &T) -> String {
    format!("{:?}", value)
}

fn string_value(s: &str) -> CadenceValue {
    CadenceValue::String { value: s.to_string() }
}

fn shape_error(tree: &Json) -> (Kind, Expected) {
    match value_to_cadence_value(tree) {
        Err(CadenceError::DecodeShapeError { kind, expected }) => (kind, expected),
        other => panic!("no shape error: {:?}", other),
    }
}

#[test]
fn unknown_kind_is_rejected() {
    let tree = envelope("Frobnicate", Json::Null);
    match value_to_cadence_value(&tree) {
        Err(CadenceError::UnknownKind(tag)) => assert_eq!(tag, "Frobnicate"),
        other => panic!("unexpected: {:?}", other),
    }
}

#[test]
fn unknown_kind_by_tag_alone() {
    match parse_structured_cadence_value("frobnicate", &Json::Bool(true)) {
        Err(CadenceError::UnknownKind(tag)) => assert_eq!(tag, "frobnicate"),
        other => panic!("unexpected: {:?}", other),
    }
}

#[test]
fn discriminators_are_case_sensitive() {
    assert!(matches!(
        value_to_cadence_value(&envelope("bool", Json::Bool(true))),
        Err(CadenceError::UnknownKind(_))
    ));
}

#[test]
fn bare_scalars_decode_by_inference() {
    assert_eq!(
        show(&value_to_cadence_value(&Json::Null).unwrap()),
        show(&CadenceValue::Optional { value: None })
    );
    assert_eq!(
        show(&value_to_cadence_value(&Json::Bool(false)).unwrap()),
        show(&CadenceValue::Bool { value: false })
    );
    assert_eq!(show(&value_to_cadence_value(&text("hi")).unwrap()), show(&string_value("hi")));
    assert_eq!(
        show(&value_to_cadence_value(&Json::Number(JsonNumber::PosInt(42))).unwrap()),
        show(&CadenceValue::Int { value: "42".to_string() })
    );
    assert_eq!(
        show(&value_to_cadence_value(&Json::Number(JsonNumber::NegInt(-7))).unwrap()),
        show(&CadenceValue::Int { value: "-7".to_string() })
    );
    assert_eq!(
        show(&value_to_cadence_value(&Json::Number(JsonNumber::Float("1.5".to_string()))).unwrap()),
        show(&CadenceValue::Fix64 { value: "1.5".to_string() })
    );
}

#[test]
fn largest_integers_decode_exactly() {
    assert_eq!(
        show(&value_to_cadence_value(&Json::Number(JsonNumber::PosInt(u64::MAX))).unwrap()),
        show(&CadenceValue::Int { value: "18446744073709551615".to_string() })
    );
    assert_eq!(
        show(&value_to_cadence_value(&Json::Number(JsonNumber::NegInt(i64::MIN))).unwrap()),
        show(&CadenceValue::Int { value: "-9223372036854775808".to_string() })
    );
    assert_eq!(
        show(&value_to_cadence_value(&Json::Number(JsonNumber::PosInt(0))).unwrap()),
        show(&CadenceValue::Int { value: "0".to_string() })
    );
}

#[test]
fn bare_array_decodes_in_order() {
    let tree = Json::Array(vec![text("a"), Json::Bool(true), Json::Null]);
    let expected = CadenceValue::Array {
        value: vec![
            string_value("a"),
            CadenceValue::Bool { value: true },
            CadenceValue::Optional { value: None },
        ],
    };
    assert_eq!(show(&value_to_cadence_value(&tree).unwrap()), show(&expected));
}

#[test]
fn object_without_envelope_is_a_dictionary() {
    let tree = object(vec![("b", Json::Bool(true)), ("a", text("x"))]);
    let expected = CadenceValue::Dictionary {
        value: vec![
            DictionaryEntry { key: string_value("b"), value: CadenceValue::Bool { value: true } },
            DictionaryEntry { key: string_value("a"), value: string_value("x") },
        ],
    };
    assert_eq!(show(&value_to_cadence_value(&tree).unwrap()), show(&expected));
}

#[test]
fn type_without_value_is_a_dictionary() {
    let tree = object(vec![("type", text("Bool"))]);
    let expected = CadenceValue::Dictionary {
        value: vec![DictionaryEntry { key: string_value("type"), value: string_value("Bool") }],
    };
    assert_eq!(show(&value_to_cadence_value(&tree).unwrap()), show(&expected));
}

#[test]
fn type_that_is_no_string_is_a_dictionary() {
    let tree = object(vec![("type", Json::Bool(true)), ("value", text("x"))]);
    let expected = CadenceValue::Dictionary {
        value: vec![
            DictionaryEntry { key: string_value("type"), value: CadenceValue::Bool { value: true } },
            DictionaryEntry { key: string_value("value"), value: string_value("x") },
        ],
    };
    assert_eq!(show(&value_to_cadence_value(&tree).unwrap()), show(&expected));
}

#[test]
fn envelope_with_further_members_is_still_an_envelope() {
    let tree = object(vec![("extra", Json::Null), ("value", Json::Bool(true)), ("type", text("Bool"))]);
    assert_eq!(
        show(&value_to_cadence_value(&tree).unwrap()),
        show(&CadenceValue::Bool { value: true })
    );
}

#[test]
fn void_ignores_its_payload() {
    assert_eq!(
        show(&value_to_cadence_value(&envelope("Void", text("anything"))).unwrap()),
        show(&CadenceValue::Void {})
    );
}

#[test]
fn optional_decodes_null_and_inner() {
    assert_eq!(
        show(&value_to_cadence_value(&envelope("Optional", Json::Null)).unwrap()),
        show(&CadenceValue::Optional { value: None })
    );
    let inner = envelope("Optional", envelope("Optional", Json::Null));
    let expected = CadenceValue::Optional {
        value: Some(Box::new(CadenceValue::Optional { value: None })),
    };
    assert_eq!(show(&value_to_cadence_value(&inner).unwrap()), show(&expected));
}

#[test]
fn numeric_kinds_keep_their_strings() {
    let big = "115792089237316195423570985008687907853269984665640564039457584007913129639935";
    assert_eq!(
        show(&value_to_cadence_value(&envelope("UInt256", text(big))).unwrap()),
        show(&CadenceValue::UInt256 { value: big.to_string() })
    );
    assert_eq!(
        show(&value_to_cadence_value(&envelope("Word8", text("not a number"))).unwrap()),
        show(&CadenceValue::Word8 { value: "not a number".to_string() })
    );
    assert_eq!(
        show(&value_to_cadence_value(&envelope("UFix64", text("1.00000000"))).unwrap()),
        show(&CadenceValue::UFix64 { value: "1.00000000".to_string() })
    );
    assert_eq!(
        show(&value_to_cadence_value(&envelope("Address", text("0x1"))).unwrap()),
        show(&CadenceValue::Address { value: "0x1".to_string() })
    );
}

#[test]
fn payload_of_the_wrong_shape_is_refused() {
    assert_eq!(
        shape_error(&envelope("Bool", text("true"))),
        (Kind::Bool, Expected::BooleanPayload)
    );
    assert_eq!(
        shape_error(&envelope("String", Json::Bool(true))),
        (Kind::String, Expected::StringPayload)
    );
    assert_eq!(
        shape_error(&envelope("Int64", Json::Number(JsonNumber::PosInt(1)))),
        (Kind::Int64, Expected::StringPayload)
    );
    assert_eq!(shape_error(&envelope("Array", Json::Null)), (Kind::Array, Expected::ArrayPayload));
    assert_eq!(
        shape_error(&envelope("Dictionary", object(vec![]))),
        (Kind::Dictionary, Expected::ArrayPayload)
    );
    assert_eq!(
        shape_error(&envelope("Struct", Json::Array(vec![]))),
        (Kind::Struct, Expected::ObjectPayload)
    );
}

#[test]
fn dictionary_entry_of_the_wrong_shape_is_refused() {
    let dict = |entry: Json| envelope("Dictionary", Json::Array(vec![entry]));
    assert_eq!(shape_error(&dict(text("x"))), (Kind::Dictionary, Expected::EntryObject));
    assert_eq!(
        shape_error(&dict(object(vec![("value", Json::Null)]))),
        (Kind::Dictionary, Expected::EntryKey)
    );
    assert_eq!(
        shape_error(&dict(object(vec![("key", Json::Null)]))),
        (Kind::Dictionary, Expected::EntryValue)
    );
}

#[test]
fn composite_of_the_wrong_shape_is_refused() {
    let composite = |members: Vec<(&str, Json)>| envelope("Event", object(members));
    assert_eq!(shape_error(&composite(vec![])), (Kind::Event, Expected::Id));
    assert_eq!(
        shape_error(&composite(vec![("id", Json::Null)])),
        (Kind::Event, Expected::IdString)
    );
    assert_eq!(shape_error(&composite(vec![("id", text("E"))])), (Kind::Event, Expected::Fields));
    assert_eq!(
        shape_error(&composite(vec![("id", text("E")), ("fields", Json::Null)])),
        (Kind::Event, Expected::FieldsArray)
    );
    let with_field = |field: Json| {
        composite(vec![("id", text("E")), ("fields", Json::Array(vec![field]))])
    };
    assert_eq!(shape_error(&with_field(Json::Null)), (Kind::Event, Expected::FieldObject));
    assert_eq!(shape_error(&with_field(object(vec![]))), (Kind::Event, Expected::FieldName));
    assert_eq!(
        shape_error(&with_field(object(vec![("name", Json::Bool(true))]))),
        (Kind::Event, Expected::FieldNameString)
    );
    assert_eq!(
        shape_error(&with_field(object(vec![("name", text("n"))]))),
        (Kind::Event, Expected::FieldValue)
    );
}

#[test]
fn decoding_stops_at_the_first_failure() {
    let tree = Json::Array(vec![
        text("fine"),
        envelope("Nope", Json::Null),
        envelope("Bool", text("wrong shape")),
    ]);
    match value_to_cadence_value(&tree) {
        Err(CadenceError::UnknownKind(tag)) => assert_eq!(tag, "Nope"),
        other => panic!("unexpected: {:?}", other),
    }
}

#[test]
fn encode_emits_the_envelope() {
    let value = CadenceValue::UInt8 { value: "30".to_string() };
    let tree = cadence_value_to_value(&value).unwrap();
    assert_eq!(show(&tree), show(&envelope("UInt8", text("30"))));
}

#[test]
fn encode_void_has_null_payload() {
    let tree = cadence_value_to_value(&CadenceValue::Void {}).unwrap();
    assert_eq!(show(&tree), show(&envelope("Void", Json::Null)));
}

#[test]
fn encode_composite_and_dictionary_payloads() {
    let value = CadenceValue::Resource {
        value: CompositeValue {
            id: "A.01.Vault".to_string(),
            fields: vec![CompositeField {
                name: "balances".to_string(),
                value: CadenceValue::Dictionary {
                    value: vec![DictionaryEntry {
                        key: string_value("k"),
                        value: CadenceValue::Optional {
                            value: Some(Box::new(CadenceValue::Bool { value: true })),
                        },
                    }],
                },
            }],
        },
    };
    let expected = envelope(
        "Resource",
        object(vec![
            ("id", text("A.01.Vault")),
            (
                "fields",
                Json::Array(vec![object(vec![
                    ("name", text("balances")),
                    (
                        "value",
                        envelope(
                            "Dictionary",
                            Json::Array(vec![object(vec![
                                ("key", envelope("String", text("k"))),
                                ("value", envelope("Optional", envelope("Bool", Json::Bool(true)))),
                            ])]),
                        ),
                    ),
                ])]),
            ),
        ]),
    );
    assert_eq!(show(&cadence_value_to_value(&value).unwrap()), show(&expected));
}

#[test]
fn encode_refuses_the_descriptor_family() {
    let path = CadenceValue::Path {
        value: PathValue { domain: PathDomain::Storage, identifier: "vault".to_string() },
    };
    assert!(matches!(
        cadence_value_to_value(&path),
        Err(CadenceError::UnsupportedType(Kind::Path))
    ));
    let nested = CadenceValue::Array {
        value: vec![
            string_value("ok"),
            CadenceValue::Type { value: TypeValue { static_type: CadenceType::Int } },
            path,
        ],
    };
    assert!(matches!(
        cadence_value_to_value(&nested),
        Err(CadenceError::UnsupportedType(Kind::Type))
    ));
}

fn sample_values() -> Vec<CadenceValue> {
    vec![
        CadenceValue::Void {},
        CadenceValue::Optional { value: None },
        CadenceValue::Optional { value: Some(Box::new(CadenceValue::Void {})) },
        CadenceValue::Bool { value: true },
        string_value(""),
        string_value("type"),
        CadenceValue::Address { value: "0x1234567890abcdef".to_string() },
        CadenceValue::Int { value: "-12".to_string() },
        CadenceValue::Int256 { value: "1".to_string() },
        CadenceValue::UInt128 { value: "340282366920938463463374607431768211455".to_string() },
        CadenceValue::Word64 { value: "7".to_string() },
        CadenceValue::Fix64 { value: "-1.50000000".to_string() },
        CadenceValue::UFix64 { value: "0.00000001".to_string() },
        CadenceValue::Array { value: vec![] },
        CadenceValue::Array {
            value: vec![string_value("a"), CadenceValue::Array { value: vec![string_value("b")] }],
        },
        CadenceValue::Dictionary { value: vec![] },
        CadenceValue::Dictionary {
            value: vec![
                DictionaryEntry { key: string_value("k"), value: string_value("1") },
                DictionaryEntry { key: string_value("k"), value: string_value("2") },
            ],
        },
        CadenceValue::Enum {
            value: CompositeValue {
                id: "Color".to_string(),
                fields: vec![
                    CompositeField {
                        name: "rawValue".to_string(),
                        value: CadenceValue::UInt8 { value: "2".to_string() },
                    },
                    CompositeField { name: "rawValue".to_string(), value: string_value("twice") },
                ],
            },
        },
        CadenceValue::Contract { value: CompositeValue { id: "C".to_string(), fields: vec![] } },
    ]
}

#[test]
fn decode_after_encode_gives_the_value_back() {
    for value in sample_values() {
        let tree = cadence_value_to_value(&value).unwrap();
        let back = value_to_cadence_value(&tree).unwrap();
        assert_eq!(show(&back), show(&value));
    }
}

#[test]
fn duplicate_dictionary_keys_survive_the_transcoder() {
    let tree = envelope(
        "Dictionary",
        Json::Array(vec![
            object(vec![("key", envelope("String", text("k"))), ("value", envelope("Bool", Json::Bool(true)))]),
            object(vec![("key", envelope("String", text("k"))), ("value", envelope("Bool", Json::Bool(false)))]),
        ]),
    );
    match value_to_cadence_value(&tree).unwrap() {
        CadenceValue::Dictionary { value } => assert_eq!(value.len(), 2),
        other => panic!("unexpected: {:?}", other),
    }
}

#[test]
fn kind_names_match_the_wire() {
    assert_eq!(Kind::InclusiveRange.name(), "InclusiveRange");
    assert_eq!(Kind::from_name("UFix64"), Some(Kind::UFix64));
    assert_eq!(Kind::from_name("UFix6"), None);
    assert_eq!(Kind::from_name(""), None);
    assert_eq!(CadenceValue::Word256 { value: String::new() }.kind(), Kind::Word256);
    assert!(Kind::Word8.integer() && !Kind::Fix64.integer() && Kind::Fix64.carries_text());
    assert!(Kind::Event.composite() && !Kind::Array.composite());
    assert!(Kind::Capability.descriptor() && !Kind::Struct.descriptor());
}

#[test]
fn json_lookup_finds_the_first_member() {
    let tree = object(vec![("a", Json::Bool(true)), ("b", Json::Null), ("a", Json::Bool(false))]);
    assert!(matches!(tree.get("a"), Some(Json::Bool(true))));
    assert!(matches!(tree.get("b"), Some(Json::Null)));
    assert!(tree.get("c").is_none());
    assert!(Json::Null.get("a").is_none());
}

#[test]
fn clone_copies_the_whole_tree() {
    for value in sample_values() {
        assert_eq!(show(&value.clone()), show(&value));
    }
    let tree = cadence_value_to_value(&sample_values()[17]).unwrap();
    assert_eq!(show(&tree.clone()), show(&tree));
}
