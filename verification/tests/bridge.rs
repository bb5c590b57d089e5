use cadence_json::bridge::{
    extract_primitive_value, from_cadence_value, process_numeric_values, Target,
};
use cadence_json::text::{text_contains, text_is_fixed_numeral, text_starts_with};
use cadence_json::{
    CadenceError, CadenceValue, CompositeField, CompositeValue, DictionaryEntry, Json,
    JsonMember, JsonNumber, Kind, PathDomain, PathValue,
};

fn show<T: std::fmt::Debug>(value: &T) -> String {
    format!("{:?}", value)
}

fn object(members: Vec<(&str, Json)>) -> Json {
    Json::Object(
        members.into_iter().map(|(n, v)| JsonMember { name: n.to_string(), value: v }).collect(),
    )
}

fn text(s: &str) -> Json {
    Json::String(s.to_string())
}

fn number(n: i64) -> Json {
    if n >= 0 {
        Json::Number(JsonNumber::PosInt(n as u64))
    } else {
        Json::Number(JsonNumber::NegInt(n))
    }
}

fn envelope(kind: &str, payload: Json) -> Json {
    object(vec![("type", text(kind)), ("value", payload)])
}

fn string_value(s: &str) -> CadenceValue {
    CadenceValue::String { value: s.to_string() }
}

const OTHER: Target = Target { map: false, integer: None, record: false };
const MAP: Target = Target { map: true, integer: None, record: false };
const INTEGER: Target = Target { map: false, integer: Some(Kind::Int64), record: false };
const RECORD: Target = Target { map: false, integer: None, record: true };

fn integer(kind: Kind) -> Target {
    Target { map: false, integer: Some(kind), record: false }
}

#[test]
fn integers_widen_to_numbers() {
    assert_eq!(
        show(&process_numeric_values(&envelope("Int", text("-12")))),
        show(&envelope("Int", number(-12)))
    );
    assert_eq!(
        show(&process_numeric_values(&envelope("UInt", text("18446744073709551615")))),
        show(&envelope("UInt", Json::Number(JsonNumber::PosInt(u64::MAX))))
    );
    assert_eq!(
        show(&process_numeric_values(&envelope("Int8", text("5")))),
        show(&envelope("Int8", number(5)))
    );
    assert_eq!(
        show(&process_numeric_values(&envelope("Word64", text("0")))),
        show(&envelope("Word64", number(0)))
    );
    assert_eq!(
        show(&process_numeric_values(&envelope("Int64", text("-9223372036854775808")))),
        show(&envelope("Int64", Json::Number(JsonNumber::NegInt(i64::MIN))))
    );
}

#[test]
fn integers_that_no_native_integer_holds_stay_strings() {
    for (kind, s) in [
        ("Int", "9223372036854775808"),
        ("Int256", "-9223372036854775809"),
        ("UInt", "18446744073709551616"),
        ("UInt8", "-1"),
        ("Word8", "-0"),
        ("Int", "12abc"),
        ("Int", ""),
    ] {
        let tree = envelope(kind, text(s));
        assert_eq!(show(&process_numeric_values(&tree)), show(&tree), "{} {:?}", kind, s);
    }
    let not_a_string = envelope("Int", Json::Bool(true));
    assert_eq!(show(&process_numeric_values(&not_a_string)), show(&not_a_string));
}

#[test]
fn fixed_point_widens_where_it_is_written_as_on_the_wire() {
    let float = |s: &str| Json::Number(JsonNumber::Float(s.to_string()));
    assert_eq!(
        show(&process_numeric_values(&envelope("Fix64", text("-1.50000000")))),
        show(&envelope("Fix64", float("-1.50000000")))
    );
    assert_eq!(
        show(&process_numeric_values(&envelope("UFix64", text("0.1")))),
        show(&envelope("UFix64", float("0.1")))
    );
    for s in ["1", "1.", ".5", "1.5e3", "1.2.3", "", "-", "+.", "abc", "1,5", " 1.5", "--1.5"] {
        let tree = envelope("Fix64", text(s));
        assert_eq!(show(&process_numeric_values(&tree)), show(&tree), "{:?}", s);
    }
}

#[test]
fn fixed_numerals() {
    for s in ["0.0", "1.5", "+1.5", "-1.5", "123.00000000", "0.00000001"] {
        assert!(text_is_fixed_numeral(s), "{:?}", s);
    }
    for s in ["", "1", ".", "1.", ".1", "+", "-.1", "1.1.", "1.a", "a.1", "1 .1", "1e1", "++1.0"] {
        assert!(!text_is_fixed_numeral(s), "{:?}", s);
    }
}

#[test]
fn widening_reaches_through_containers() {
    let tree = envelope(
        "Array",
        Json::Array(vec![
            envelope("Int", text("1")),
            envelope("Optional", envelope("UInt8", text("2"))),
            envelope(
                "Dictionary",
                Json::Array(vec![object(vec![
                    ("key", envelope("Int", text("3"))),
                    ("value", envelope("String", text("4"))),
                ])]),
            ),
            envelope(
                "Struct",
                object(vec![
                    ("id", text("S")),
                    (
                        "fields",
                        Json::Array(vec![object(vec![
                            ("name", text("n")),
                            ("value", envelope("Int", text("5"))),
                        ])]),
                    ),
                ]),
            ),
        ]),
    );
    let expected = envelope(
        "Array",
        Json::Array(vec![
            envelope("Int", number(1)),
            envelope("Optional", envelope("UInt8", number(2))),
            envelope(
                "Dictionary",
                Json::Array(vec![object(vec![
                    ("key", envelope("Int", number(3))),
                    ("value", envelope("String", text("4"))),
                ])]),
            ),
            envelope(
                "Struct",
                object(vec![
                    ("id", text("S")),
                    (
                        "fields",
                        Json::Array(vec![object(vec![
                            ("name", text("n")),
                            ("value", envelope("Int", number(5))),
                        ])]),
                    ),
                ]),
            ),
        ]),
    );
    assert_eq!(show(&process_numeric_values(&tree)), show(&expected));
}

#[test]
fn widening_of_plain_trees() {
    let tree = Json::Array(vec![
        envelope("Int", text("1")),
        object(vec![("type", Json::Bool(true)), ("n", envelope("Int", text("2")))]),
        text("3"),
        Json::Null,
    ]);
    let expected = Json::Array(vec![
        envelope("Int", number(1)),
        object(vec![("type", Json::Bool(true)), ("n", envelope("Int", number(2)))]),
        text("3"),
        Json::Null,
    ]);
    assert_eq!(show(&process_numeric_values(&tree)), show(&expected));
    let unknown = envelope("Mystery", envelope("Int", text("7")));
    assert_eq!(
        show(&process_numeric_values(&unknown)),
        show(&envelope("Mystery", envelope("Int", number(7))))
    );
}

#[test]
fn primitive_payloads_unwrap() {
    assert_eq!(show(&extract_primitive_value(&envelope("String", text("x")))), show(&text("x")));
    assert_eq!(show(&extract_primitive_value(&envelope("Int", number(3)))), show(&number(3)));
    assert_eq!(
        show(&extract_primitive_value(&envelope("Bool", Json::Bool(true)))),
        show(&Json::Bool(true))
    );
    assert_eq!(show(&extract_primitive_value(&envelope("Void", Json::Null))), show(&Json::Null));
    let array = envelope("Array", Json::Array(vec![]));
    assert_eq!(show(&extract_primitive_value(&array)), show(&array));
    let nested = envelope("Optional", envelope("Bool", Json::Bool(true)));
    assert_eq!(show(&extract_primitive_value(&nested)), show(&nested));
    let no_envelope = object(vec![("value", text("x"))]);
    assert_eq!(show(&extract_primitive_value(&no_envelope)), show(&no_envelope));
    assert_eq!(show(&extract_primitive_value(&text("bare"))), show(&text("bare")));
}

#[test]
fn target_is_read_from_the_name() {
    let map = Target::of_name("std::collections::hash::map::HashMap<alloc::string::String, i32>");
    assert_eq!(map, Target { map: true, integer: None, record: false });
    let btree = Target::of_name("alloc::collections::btree::map::BTreeMap<u8, bool>");
    assert_eq!(btree, Target { map: true, integer: None, record: true });
    assert_eq!(Target::of_name("u8"), integer(Kind::UInt8));
    assert_eq!(Target::of_name("u16"), integer(Kind::UInt16));
    assert_eq!(Target::of_name("u32"), integer(Kind::UInt32));
    assert_eq!(Target::of_name("u64"), integer(Kind::UInt64));
    assert_eq!(Target::of_name("u128"), integer(Kind::UInt128));
    assert_eq!(Target::of_name("i8"), integer(Kind::Int8));
    assert_eq!(Target::of_name("i16"), integer(Kind::Int16));
    assert_eq!(Target::of_name("i32"), integer(Kind::Int32));
    assert_eq!(Target::of_name("i64"), integer(Kind::Int64));
    assert_eq!(Target::of_name("i128"), integer(Kind::Int128));
    assert_eq!(Target::of_name("f64"), OTHER);
    assert_eq!(Target::of_name("u9"), OTHER);
    assert_eq!(Target::of_name("bool"), OTHER);
    assert_eq!(Target::of_name("my_crate::Person"), RECORD);
    assert_eq!(Target::of_name("alloc::string::String"), RECORD);
    assert_eq!(Target::of_name("alloc::vec::Vec<u8>"), RECORD);
    assert_eq!(Target::of_name("std::path::PathBuf"), OTHER);
    assert_eq!(Target::of_name(""), OTHER);
}

#[test]
fn a_string_for_a_string_is_handed_on_bare() {
    let target = Target::of_name("alloc::string::String");
    assert_eq!(show(&from_cadence_value(&string_value("hi"), target).unwrap()), show(&text("hi")));
    let optional = Target::of_name("core::option::Option<bool>");
    assert_eq!(
        show(&from_cadence_value(&CadenceValue::Bool { value: true }, optional).unwrap()),
        show(&Json::Bool(true))
    );
}

#[test]
fn text_search() {
    assert!(text_contains("abcabd", "abd"));
    assert!(text_contains("abc", ""));
    assert!(text_contains("", ""));
    assert!(text_contains("héllo", "llo"));
    assert!(!text_contains("abc", "abcd"));
    assert!(!text_contains("aab", "aba"));
    assert!(text_starts_with("std::x", "std::"));
    assert!(!text_starts_with("ststd::", "std::"));
    assert!(!text_starts_with("st", "std::"));
}

#[test]
fn plain_values_are_encoded_widened_and_unwrapped() {
    assert_eq!(show(&from_cadence_value(&string_value("x"), OTHER).unwrap()), show(&text("x")));
    assert_eq!(
        show(&from_cadence_value(&CadenceValue::Int8 { value: "-3".to_string() }, OTHER).unwrap()),
        show(&number(-3))
    );
    assert_eq!(
        show(&from_cadence_value(&CadenceValue::Bool { value: true }, OTHER).unwrap()),
        show(&Json::Bool(true))
    );
    assert_eq!(
        show(&from_cadence_value(&CadenceValue::Optional { value: None }, OTHER).unwrap()),
        show(&Json::Null)
    );
    let big = CadenceValue::UInt256 { value: "99999999999999999999999".to_string() };
    assert_eq!(
        show(&from_cadence_value(&big, OTHER).unwrap()),
        show(&text("99999999999999999999999"))
    );
    let array = CadenceValue::Array { value: vec![CadenceValue::Int { value: "1".to_string() }] };
    assert_eq!(
        show(&from_cadence_value(&array, OTHER).unwrap()),
        show(&envelope("Array", Json::Array(vec![envelope("Int", number(1))])))
    );
}

#[test]
fn integer_targets_get_the_number() {
    let int = CadenceValue::Int256 { value: "-40".to_string() };
    assert_eq!(show(&from_cadence_value(&int, INTEGER).unwrap()), show(&number(-40)));
    let uint = CadenceValue::UInt { value: "18446744073709551615".to_string() };
    assert_eq!(
        show(&from_cadence_value(&uint, integer(Kind::UInt64)).unwrap()),
        show(&Json::Number(JsonNumber::PosInt(u64::MAX)))
    );
    let too_big = CadenceValue::Int { value: "9223372036854775808".to_string() };
    assert_eq!(
        show(&from_cadence_value(&too_big, INTEGER).unwrap()),
        show(&text("9223372036854775808"))
    );
    assert_eq!(show(&from_cadence_value(&string_value("7"), INTEGER).unwrap()), show(&text("7")));
}

#[test]
fn a_number_that_the_integer_does_not_hold_is_refused() {
    let value = CadenceValue::UInt8 { value: "300".to_string() };
    match from_cadence_value(&value, Target::of_name("u8")) {
        Err(CadenceError::NumericParseError { target, text }) => {
            assert_eq!(target, Kind::UInt8);
            assert_eq!(text, "300");
        },
        other => panic!("unexpected: {:?}", other),
    }
    let int = |s: &str| CadenceValue::Int { value: s.to_string() };
    assert_eq!(show(&from_cadence_value(&int("255"), integer(Kind::UInt8)).unwrap()), show(&number(255)));
    assert!(matches!(
        from_cadence_value(&int("256"), integer(Kind::UInt8)),
        Err(CadenceError::NumericParseError { target: Kind::UInt8, .. })
    ));
    assert!(matches!(
        from_cadence_value(&int("-1"), integer(Kind::UInt128)),
        Err(CadenceError::NumericParseError { target: Kind::UInt128, .. })
    ));
    assert_eq!(show(&from_cadence_value(&int("-128"), integer(Kind::Int8)).unwrap()), show(&number(-128)));
    assert!(matches!(
        from_cadence_value(&int("-129"), integer(Kind::Int8)),
        Err(CadenceError::NumericParseError { target: Kind::Int8, .. })
    ));
    assert!(matches!(
        from_cadence_value(&int("32768"), integer(Kind::Int16)),
        Err(CadenceError::NumericParseError { target: Kind::Int16, .. })
    ));
    assert!(matches!(
        from_cadence_value(&int("4294967296"), integer(Kind::UInt32)),
        Err(CadenceError::NumericParseError { target: Kind::UInt32, .. })
    ));
    assert!(matches!(
        from_cadence_value(&int("-2147483649"), integer(Kind::Int32)),
        Err(CadenceError::NumericParseError { target: Kind::Int32, .. })
    ));
    let big = CadenceValue::UInt64 { value: "18446744073709551615".to_string() };
    assert!(matches!(
        from_cadence_value(&big, integer(Kind::Int64)),
        Err(CadenceError::NumericParseError { target: Kind::Int64, .. })
    ));
    assert_eq!(
        show(&from_cadence_value(&big, integer(Kind::Int128)).unwrap()),
        show(&Json::Number(JsonNumber::PosInt(u64::MAX)))
    );
    assert_eq!(show(&from_cadence_value(&int("-5"), integer(Kind::Int128)).unwrap()), show(&number(-5)));
    assert!(matches!(
        from_cadence_value(&int("65536"), integer(Kind::UInt16)),
        Err(CadenceError::NumericParseError { target: Kind::UInt16, .. })
    ));
    assert_eq!(
        show(&from_cadence_value(&big, integer(Kind::UInt64)).unwrap()),
        show(&Json::Number(JsonNumber::PosInt(u64::MAX)))
    );
}

fn entry(key: CadenceValue, value: CadenceValue) -> DictionaryEntry {
    DictionaryEntry { key, value }
}

#[test]
fn dictionaries_for_maps_become_objects() {
    let value = CadenceValue::Dictionary {
        value: vec![
            entry(string_value("banana"), CadenceValue::Int { value: "10".to_string() }),
            entry(CadenceValue::Address { value: "0x1".to_string() }, string_value("Alice")),
            entry(CadenceValue::Bool { value: true }, CadenceValue::Optional { value: None }),
            entry(CadenceValue::Void {}, CadenceValue::Array { value: vec![] }),
            entry(string_value("banana"), CadenceValue::Int { value: "11".to_string() }),
        ],
    };
    let expected = object(vec![
        ("banana", number(11)),
        ("0x1", text("Alice")),
        ("true", Json::Null),
        ("null", envelope("Array", Json::Array(vec![]))),
    ]);
    assert_eq!(show(&from_cadence_value(&value, MAP).unwrap()), show(&expected));
}

#[test]
fn keys_that_are_no_primitives_are_named_by_their_json_text() {
    let key = CadenceValue::Array { value: vec![CadenceValue::Bool { value: true }] };
    let value = CadenceValue::Dictionary { value: vec![entry(key, string_value("v"))] };
    let expected = object(vec![(
        r#"{"type":"Array","value":[{"type":"Bool","value":true}]}"#,
        text("v"),
    )]);
    assert_eq!(show(&from_cadence_value(&value, MAP).unwrap()), show(&expected));
}

#[test]
fn string_keys_never_meet_the_json_writer() {
    let address = CadenceValue::Dictionary {
        value: vec![entry(CadenceValue::Address { value: "0x1".to_string() }, string_value("Alice"))],
    };
    assert_eq!(
        show(&from_cadence_value(&address, MAP).unwrap()),
        show(&object(vec![("0x1", text("Alice"))]))
    );
    let twice = CadenceValue::Dictionary {
        value: vec![
            entry(string_value("k"), CadenceValue::Int { value: "1".to_string() }),
            entry(string_value("k"), CadenceValue::Int { value: "2".to_string() }),
        ],
    };
    assert_eq!(show(&from_cadence_value(&twice, MAP).unwrap()), show(&object(vec![("k", number(2))])));
}

#[test]
fn map_targets_only_change_dictionaries() {
    assert_eq!(show(&from_cadence_value(&string_value("x"), MAP).unwrap()), show(&text("x")));
}

#[test]
fn structs_for_records_become_objects_of_their_fields() {
    let field = |name: &str, value: CadenceValue| CompositeField { name: name.to_string(), value };
    let person = CadenceValue::Struct {
        value: CompositeValue {
            id: "Person".to_string(),
            fields: vec![
                field("name", string_value("Alice")),
                field("age", CadenceValue::UInt8 { value: "30".to_string() }),
                field("balance", CadenceValue::UFix64 { value: "1.50000000".to_string() }),
                field("name", string_value("Alicia")),
            ],
        },
    };
    let expected = object(vec![
        ("name", text("Alicia")),
        ("age", number(30)),
        ("balance", Json::Number(JsonNumber::Float("1.50000000".to_string()))),
    ]);
    assert_eq!(show(&from_cadence_value(&person, RECORD).unwrap()), show(&expected));
    let event = CadenceValue::Event {
        value: CompositeValue {
            id: "E".to_string(),
            fields: vec![field("n", CadenceValue::Int { value: "1".to_string() })],
        },
    };
    let widened = envelope(
        "Event",
        object(vec![
            ("id", text("E")),
            (
                "fields",
                Json::Array(vec![object(vec![("name", text("n")), ("value", envelope("Int", number(1)))])]),
            ),
        ]),
    );
    assert_eq!(show(&from_cadence_value(&event, RECORD).unwrap()), show(&widened));
    assert_eq!(
        show(&from_cadence_value(&CadenceValue::Int { value: "4".to_string() }, RECORD).unwrap()),
        show(&number(4))
    );
    assert_eq!(show(&from_cadence_value(&string_value("hi"), RECORD).unwrap()), show(&text("hi")));
}

#[test]
fn the_bridge_refuses_what_has_no_encoder() {
    let path = CadenceValue::Path {
        value: PathValue { domain: PathDomain::Private, identifier: "p".to_string() },
    };
    for target in [OTHER, MAP, INTEGER, RECORD] {
        assert!(matches!(
            from_cadence_value(&path, target),
            Err(CadenceError::UnsupportedType(Kind::Path))
        ));
    }
    let as_key = CadenceValue::Dictionary {
        value: vec![entry(path.clone(), string_value("v"))],
    };
    assert!(matches!(
        from_cadence_value(&as_key, MAP),
        Err(CadenceError::UnsupportedType(Kind::Path))
    ));
    let as_value = CadenceValue::Dictionary { value: vec![entry(string_value("k"), path)] };
    assert!(matches!(
        from_cadence_value(&as_value, MAP),
        Err(CadenceError::UnsupportedType(Kind::Path))
    ));
}
