use cadence_json::{
    from_cadence_dictionary, to_cadence_array, to_cadence_bool, to_cadence_dictionary, to_cadence_optional,
    to_cadence_string, CadenceError, CadenceValue, DictionaryEntry, FromCadenceValue, Kind,
    ToCadenceValue,
};
use std::collections::{BTreeMap, HashMap};

fn show<T: std::fmt::Debug>(value: &T) -> String {
    format!("{:?}", value)
}

fn string_value(s: &str) -> CadenceValue {
    CadenceValue::String { value: s.to_string() }
}

fn int_value(s: &str) -> CadenceValue {
    CadenceValue::Int { value: s.to_string() }
}

fn entry(key: CadenceValue, value: CadenceValue) -> DictionaryEntry {
    DictionaryEntry { key, value }
}

#[test]
fn string_binding_round_trip() {
    let native = "héllo wörld".to_string();
    let value = native.to_cadence_value().unwrap();
    assert_eq!(show(&value), show(&string_value("héllo wörld")));
    assert_eq!(String::from_cadence_value(&value).unwrap(), native);
    assert_eq!(show(&"abc".to_cadence_value().unwrap()), show(&string_value("abc")));
}

#[test]
fn string_needs_the_exact_kind() {
    let address = CadenceValue::Address { value: "0x1".to_string() };
    assert!(matches!(
        String::from_cadence_value(&address),
        Err(CadenceError::TypeMismatch { expected: Kind::String, got: Kind::Address })
    ));
}

#[test]
fn bool_binding_round_trip() {
    for native in [true, false] {
        let value = native.to_cadence_value().unwrap();
        assert_eq!(show(&value), show(&CadenceValue::Bool { value: native }));
        assert_eq!(bool::from_cadence_value(&value).unwrap(), native);
    }
    assert!(matches!(
        bool::from_cadence_value(&string_value("true")),
        Err(CadenceError::TypeMismatch { expected: Kind::Bool, got: Kind::String })
    ));
}

#[test]
fn integer_bindings_write_their_own_kind() {
    assert_eq!(show(&0u8.to_cadence_value().unwrap()), show(&CadenceValue::UInt8 { value: "0".to_string() }));
    assert_eq!(show(&65535u16.to_cadence_value().unwrap()), show(&CadenceValue::UInt16 { value: "65535".to_string() }));
    assert_eq!(show(&7u32.to_cadence_value().unwrap()), show(&CadenceValue::UInt32 { value: "7".to_string() }));
    assert_eq!(
        show(&u64::MAX.to_cadence_value().unwrap()),
        show(&CadenceValue::UInt64 { value: "18446744073709551615".to_string() })
    );
    assert_eq!(show(&(-128i8).to_cadence_value().unwrap()), show(&CadenceValue::Int8 { value: "-128".to_string() }));
    assert_eq!(show(&(-1i16).to_cadence_value().unwrap()), show(&CadenceValue::Int16 { value: "-1".to_string() }));
    assert_eq!(show(&100i32.to_cadence_value().unwrap()), show(&CadenceValue::Int32 { value: "100".to_string() }));
    assert_eq!(
        show(&i64::MIN.to_cadence_value().unwrap()),
        show(&CadenceValue::Int64 { value: "-9223372036854775808".to_string() })
    );
}

#[test]
fn integer_bindings_round_trip_at_their_bounds() {
    for x in [u8::MIN, 1, 9, 10, 99, 100, u8::MAX] {
        assert_eq!(u8::from_cadence_value(&x.to_cadence_value().unwrap()).unwrap(), x);
    }
    for x in [u16::MIN, u16::MAX] {
        assert_eq!(u16::from_cadence_value(&x.to_cadence_value().unwrap()).unwrap(), x);
    }
    for x in [u32::MIN, u32::MAX] {
        assert_eq!(u32::from_cadence_value(&x.to_cadence_value().unwrap()).unwrap(), x);
    }
    for x in [u64::MIN, u64::MAX] {
        assert_eq!(u64::from_cadence_value(&x.to_cadence_value().unwrap()).unwrap(), x);
    }
    for x in [i8::MIN, -1, 0, i8::MAX] {
        assert_eq!(i8::from_cadence_value(&x.to_cadence_value().unwrap()).unwrap(), x);
    }
    for x in [i16::MIN, i16::MAX] {
        assert_eq!(i16::from_cadence_value(&x.to_cadence_value().unwrap()).unwrap(), x);
    }
    for x in [i32::MIN, i32::MAX] {
        assert_eq!(i32::from_cadence_value(&x.to_cadence_value().unwrap()).unwrap(), x);
    }
    for x in [i64::MIN, -1, 0, i64::MAX] {
        assert_eq!(i64::from_cadence_value(&x.to_cadence_value().unwrap()).unwrap(), x);
    }
}

#[test]
fn uint8_300_is_a_numeric_parse_error() {
    let value = CadenceValue::UInt8 { value: "300".to_string() };
    match u8::from_cadence_value(&value) {
        Err(CadenceError::NumericParseError { target, text }) => {
            assert_eq!(target, Kind::UInt8);
            assert_eq!(text, "300");
        },
        other => panic!("unexpected: {:?}", other),
    }
}

#[test]
fn integers_accept_the_unsized_kinds() {
    assert_eq!(u8::from_cadence_value(&int_value("200")).unwrap(), 200);
    assert_eq!(i32::from_cadence_value(&CadenceValue::UInt { value: "5".to_string() }).unwrap(), 5);
    assert_eq!(i64::from_cadence_value(&int_value("-5")).unwrap(), -5);
    assert!(matches!(
        u8::from_cadence_value(&CadenceValue::UInt16 { value: "5".to_string() }),
        Err(CadenceError::TypeMismatch { expected: Kind::UInt8, got: Kind::UInt16 })
    ));
    assert!(matches!(
        i8::from_cadence_value(&CadenceValue::Bool { value: true }),
        Err(CadenceError::TypeMismatch { expected: Kind::Int8, got: Kind::Bool })
    ));
}

#[test]
fn integer_text_is_read_strictly() {
    let parse_i8 = |s: &str| i8::from_cadence_value(&CadenceValue::Int8 { value: s.to_string() });
    let parse_u8 = |s: &str| u8::from_cadence_value(&CadenceValue::UInt8 { value: s.to_string() });
    assert_eq!(parse_i8("+5").unwrap(), 5);
    assert_eq!(parse_i8("-0").unwrap(), 0);
    assert_eq!(parse_i8("007").unwrap(), 7);
    assert_eq!(parse_i8("-128").unwrap(), -128);
    assert_eq!(parse_u8("+255").unwrap(), 255);
    assert_eq!(parse_u8("000000000000000000000000000000255").unwrap(), 255);
    for bad in ["", "+", "-", "128", "-129", "1 ", " 1", "1.0", "0x10", "1e2", "--1", "+-1", "٣"] {
        assert!(
            matches!(parse_i8(bad), Err(CadenceError::NumericParseError { .. })),
            "{:?} should not parse",
            bad
        );
    }
    for bad in ["-1", "-0", "256", "99999999999999999999999999999999999999999", "12a"] {
        assert!(
            matches!(parse_u8(bad), Err(CadenceError::NumericParseError { .. })),
            "{:?} should not parse",
            bad
        );
    }
}

#[test]
fn integer_text_agrees_with_the_standard_reader() {
    for s in ["0", "+0", "-0", "42", "-42", "+42", "0042", "255", "256", "-128", "-129", "", "+", "-", "4 2", "9223372036854775807", "9223372036854775808", "-9223372036854775808", "-9223372036854775809", "18446744073709551615", "18446744073709551616"] {
        let as_int = int_value(s);
        assert_eq!(u8::from_cadence_value(&as_int).ok(), s.parse::<u8>().ok(), "u8 {:?}", s);
        assert_eq!(i8::from_cadence_value(&as_int).ok(), s.parse::<i8>().ok(), "i8 {:?}", s);
        assert_eq!(u64::from_cadence_value(&as_int).ok(), s.parse::<u64>().ok(), "u64 {:?}", s);
        assert_eq!(i64::from_cadence_value(&as_int).ok(), s.parse::<i64>().ok(), "i64 {:?}", s);
        assert_eq!(u16::from_cadence_value(&as_int).ok(), s.parse::<u16>().ok(), "u16 {:?}", s);
        assert_eq!(i32::from_cadence_value(&as_int).ok(), s.parse::<i32>().ok(), "i32 {:?}", s);
    }
}

#[test]
fn formatted_integers_agree_with_the_standard_writer() {
    for x in [0i64, 1, -1, 9, 10, -10, 12345, i64::MAX, i64::MIN] {
        match x.to_cadence_value().unwrap() {
            CadenceValue::Int64 { value } => assert_eq!(value, x.to_string()),
            other => panic!("unexpected: {:?}", other),
        }
    }
}

#[test]
fn vec_binding_keeps_order() {
    let native = vec![3u8, 1, 2];
    let value = native.to_cadence_value().unwrap();
    let expected = CadenceValue::Array {
        value: vec![
            CadenceValue::UInt8 { value: "3".to_string() },
            CadenceValue::UInt8 { value: "1".to_string() },
            CadenceValue::UInt8 { value: "2".to_string() },
        ],
    };
    assert_eq!(show(&value), show(&expected));
    assert_eq!(Vec::<u8>::from_cadence_value(&value).unwrap(), native);
    assert_eq!(Vec::<u8>::from_cadence_value(&CadenceValue::Array { value: vec![] }).unwrap(), Vec::<u8>::new());
}

#[test]
fn vec_decoding_stops_at_the_first_failure() {
    let value = CadenceValue::Array {
        value: vec![
            CadenceValue::UInt8 { value: "1".to_string() },
            CadenceValue::UInt8 { value: "256".to_string() },
            CadenceValue::Bool { value: true },
        ],
    };
    assert!(matches!(
        Vec::<u8>::from_cadence_value(&value),
        Err(CadenceError::NumericParseError { target: Kind::UInt8, .. })
    ));
    assert!(matches!(
        Vec::<u8>::from_cadence_value(&string_value("x")),
        Err(CadenceError::TypeMismatch { expected: Kind::Array, got: Kind::String })
    ));
}

#[test]
fn option_binding_round_trip() {
    let some = Some("x".to_string());
    let value = some.to_cadence_value().unwrap();
    assert_eq!(
        show(&value),
        show(&CadenceValue::Optional { value: Some(Box::new(string_value("x"))) })
    );
    assert_eq!(Option::<String>::from_cadence_value(&value).unwrap(), some);
    let none: Option<String> = None;
    let value = none.to_cadence_value().unwrap();
    assert_eq!(show(&value), show(&CadenceValue::Optional { value: None }));
    assert_eq!(Option::<String>::from_cadence_value(&value).unwrap(), None);
    assert!(matches!(
        Option::<String>::from_cadence_value(&string_value("x")),
        Err(CadenceError::TypeMismatch { expected: Kind::Optional, got: Kind::String })
    ));
    let wrong_inner = CadenceValue::Optional { value: Some(Box::new(CadenceValue::Void {})) };
    assert!(matches!(
        Option::<bool>::from_cadence_value(&wrong_inner),
        Err(CadenceError::TypeMismatch { expected: Kind::Bool, got: Kind::Void })
    ));
}

#[test]
fn tuple_binding_round_trip() {
    let native = ("a".to_string(), 7i16);
    let value = native.to_cadence_value().unwrap();
    let expected = CadenceValue::Array {
        value: vec![string_value("a"), CadenceValue::Int16 { value: "7".to_string() }],
    };
    assert_eq!(show(&value), show(&expected));
    assert_eq!(<(String, i16)>::from_cadence_value(&value).unwrap(), native);
}

#[test]
fn three_items_do_not_fit_a_pair() {
    let value = CadenceValue::Array {
        value: vec![string_value("a"), string_value("b"), string_value("c")],
    };
    assert!(matches!(
        <(String, String)>::from_cadence_value(&value),
        Err(CadenceError::ArityMismatch { expected: 2, got: 3 })
    ));
    let short = CadenceValue::Array { value: vec![string_value("a")] };
    assert!(matches!(
        <(String, String)>::from_cadence_value(&short),
        Err(CadenceError::ArityMismatch { expected: 2, got: 1 })
    ));
    assert!(matches!(
        <(String, String)>::from_cadence_value(&CadenceValue::Void {}),
        Err(CadenceError::TypeMismatch { expected: Kind::Array, got: Kind::Void })
    ));
}

#[test]
fn duplicate_keys_resolve_to_the_last_pair() {
    let value = CadenceValue::Dictionary {
        value: vec![
            entry(string_value("k"), int_value("1")),
            entry(string_value("k"), int_value("2")),
        ],
    };
    let hash = HashMap::<String, i32>::from_cadence_value(&value).unwrap();
    assert_eq!(hash.len(), 1);
    assert_eq!(hash.get("k"), Some(&2));
    let tree = BTreeMap::<String, i32>::from_cadence_value(&value).unwrap();
    assert_eq!(tree.len(), 1);
    assert_eq!(tree.get("k"), Some(&2));
}

#[test]
fn fruit_dictionary_decodes_whatever_the_order() {
    let in_order = |names: [(&str, &str); 3]| CadenceValue::Dictionary {
        value: names.iter().map(|(k, v)| entry(string_value(k), int_value(v))).collect(),
    };
    let mut expected = HashMap::new();
    expected.insert("banana".to_string(), 10);
    expected.insert("cherry".to_string(), 15);
    expected.insert("apple".to_string(), 5);
    let first = in_order([("banana", "10"), ("cherry", "15"), ("apple", "5")]);
    let second = in_order([("apple", "5"), ("banana", "10"), ("cherry", "15")]);
    let decoded = HashMap::<String, i32>::from_cadence_value(&first).unwrap();
    assert_eq!(decoded, expected);
    assert_eq!(HashMap::<String, i32>::from_cadence_value(&second).unwrap(), expected);
    let again = HashMap::<String, i32>::from_cadence_value(&decoded.to_cadence_value().unwrap());
    assert_eq!(again.unwrap(), expected);
}

#[test]
fn map_encoding_has_one_entry_for_each_pair() {
    let mut native = BTreeMap::new();
    native.insert("b".to_string(), true);
    native.insert("a".to_string(), false);
    match native.to_cadence_value().unwrap() {
        CadenceValue::Dictionary { value } => {
            assert_eq!(value.len(), 2);
            assert_eq!(show(&value[0].key), show(&string_value("a")));
            assert_eq!(show(&value[0].value), show(&CadenceValue::Bool { value: false }));
            assert_eq!(show(&value[1].key), show(&string_value("b")));
        },
        other => panic!("unexpected: {:?}", other),
    }
    let mut hash = HashMap::new();
    hash.insert(1u8, "one".to_string());
    hash.insert(2u8, "two".to_string());
    let value = hash.to_cadence_value().unwrap();
    match &value {
        CadenceValue::Dictionary { value } => assert_eq!(value.len(), 2),
        other => panic!("unexpected: {:?}", other),
    }
    assert_eq!(HashMap::<u8, String>::from_cadence_value(&value).unwrap(), hash);
}

#[test]
fn map_decoding_reports_key_before_value() {
    let value = CadenceValue::Dictionary {
        value: vec![entry(CadenceValue::Bool { value: true }, CadenceValue::Void {})],
    };
    assert!(matches!(
        HashMap::<String, String>::from_cadence_value(&value),
        Err(CadenceError::TypeMismatch { expected: Kind::String, got: Kind::Bool })
    ));
    assert!(matches!(
        BTreeMap::<bool, String>::from_cadence_value(&value),
        Err(CadenceError::TypeMismatch { expected: Kind::String, got: Kind::Void })
    ));
    assert!(matches!(
        HashMap::<String, String>::from_cadence_value(&CadenceValue::Array { value: vec![] }),
        Err(CadenceError::TypeMismatch { expected: Kind::Dictionary, got: Kind::Array })
    ));
}

#[test]
fn a_value_decodes_to_itself() {
    let value = CadenceValue::Array { value: vec![string_value("a"), CadenceValue::Void {}] };
    assert_eq!(show(&CadenceValue::from_cadence_value(&value).unwrap()), show(&value));
}

#[test]
fn helper_constructors() {
    assert_eq!(show(&to_cadence_bool(true)), show(&CadenceValue::Bool { value: true }));
    assert_eq!(show(&to_cadence_string("abc")), show(&string_value("abc")));
    assert_eq!(show(&to_cadence_string(42)), show(&string_value("42")));
    assert_eq!(
        show(&to_cadence_optional(Some(true)).unwrap()),
        show(&CadenceValue::Optional { value: Some(Box::new(CadenceValue::Bool { value: true })) })
    );
    assert_eq!(
        show(&to_cadence_optional::<bool>(None).unwrap()),
        show(&CadenceValue::Optional { value: None })
    );
    assert_eq!(
        show(&to_cadence_array(&vec![true, false]).unwrap()),
        show(&CadenceValue::Array {
            value: vec![CadenceValue::Bool { value: true }, CadenceValue::Bool { value: false }],
        })
    );
    let pairs = vec![("b".to_string(), 1u8), ("a".to_string(), 2u8), ("b".to_string(), 3u8)];
    let expected = CadenceValue::Dictionary {
        value: vec![
            entry(string_value("b"), CadenceValue::UInt8 { value: "1".to_string() }),
            entry(string_value("a"), CadenceValue::UInt8 { value: "2".to_string() }),
            entry(string_value("b"), CadenceValue::UInt8 { value: "3".to_string() }),
        ],
    };
    assert_eq!(show(&to_cadence_dictionary(&pairs).unwrap()), show(&expected));
}

struct Failing;

impl ToCadenceValue for Failing {
    fn to_cadence_value(&self) -> Result<CadenceValue, CadenceError> {
        Err(CadenceError::Custom("no encoding".to_string()))
    }
}

#[test]
fn encoding_stops_at_the_first_failure() {
    assert!(matches!(vec![Failing, Failing].to_cadence_value(), Err(CadenceError::Custom(_))));
    assert!(matches!(Some(Failing).to_cadence_value(), Err(CadenceError::Custom(_))));
    assert!(matches!((true, Failing).to_cadence_value(), Err(CadenceError::Custom(_))));
    assert!(matches!(
        to_cadence_dictionary(&vec![("k".to_string(), Failing)]),
        Err(CadenceError::Custom(_))
    ));
}

#[test]
fn error_messages() {
    let mismatch = CadenceError::TypeMismatch { expected: Kind::String, got: Kind::Bool };
    assert_eq!(mismatch.message(), "Type mismatch: expected String, got Bool");
    assert_eq!(CadenceError::UnknownKind("Frobnicate".to_string()).message(), "Unknown kind: Frobnicate");
    assert_eq!(
        CadenceError::DecodeShapeError {
            kind: Kind::Bool,
            expected: cadence_json::Expected::BooleanPayload,
        }
        .message(),
        "Invalid Cadence value: Bool value must be a boolean"
    );
    assert_eq!(
        CadenceError::FieldMissing("age".to_string()).message(),
        "Field age not found in Cadence value"
    );
    assert_eq!(
        CadenceError::ArityMismatch { expected: 2, got: 3 }.message(),
        "Expected array of length 2 for tuple, got 3"
    );
    assert_eq!(
        CadenceError::NumericParseError { target: Kind::UInt8, text: "300".to_string() }.message(),
        "Failed to parse UInt8: 300"
    );
    assert_eq!(CadenceError::UnsupportedType(Kind::Path).message(), "Unsupported type: Path");
    assert_eq!(CadenceError::Custom("as it is".to_string()).message(), "as it is");
}

#[test]
fn an_ordered_map_encodes_in_the_order_of_its_keys() {
    let mut native = BTreeMap::new();
    native.insert("banana".to_string(), 10i32);
    native.insert("cherry".to_string(), 15);
    native.insert("apple".to_string(), 5);
    let int32 = |n: &str| CadenceValue::Int32 { value: n.to_string() };
    let expected = CadenceValue::Dictionary {
        value: vec![
            entry(string_value("apple"), int32("5")),
            entry(string_value("banana"), int32("10")),
            entry(string_value("cherry"), int32("15")),
        ],
    };
    assert_eq!(show(&native.to_cadence_value().unwrap()), show(&expected));
    let mut numbers = BTreeMap::new();
    for key in [30u8, 10, 20] {
        numbers.insert(key, true);
    }
    match numbers.to_cadence_value().unwrap() {
        CadenceValue::Dictionary { value } => {
            let keys: Vec<u8> = value.iter().map(|e| u8::from_cadence_value(&e.key).unwrap()).collect();
            assert_eq!(keys, vec![10, 20, 30]);
        },
        other => panic!("unexpected: {:?}", other),
    }
}

#[test]
fn a_dictionary_decodes_to_its_pairs_in_order() {
    let value = CadenceValue::Dictionary {
        value: vec![
            entry(string_value("k"), int_value("1")),
            entry(string_value("a"), int_value("2")),
            entry(string_value("k"), int_value("3")),
        ],
    };
    let pairs = from_cadence_dictionary::<String, i32>(&value).unwrap();
    assert_eq!(
        pairs,
        vec![("k".to_string(), 1), ("a".to_string(), 2), ("k".to_string(), 3)]
    );
    assert_eq!(show(&to_cadence_dictionary(&pairs).unwrap()).len() > 0, true);
    let empty = CadenceValue::Dictionary { value: vec![] };
    assert_eq!(from_cadence_dictionary::<String, i32>(&empty).unwrap(), vec![]);
    assert!(matches!(
        from_cadence_dictionary::<String, i32>(&CadenceValue::Void {}),
        Err(CadenceError::TypeMismatch { expected: Kind::Dictionary, got: Kind::Void })
    ));
    let bad = CadenceValue::Dictionary {
        value: vec![
            entry(string_value("k"), int_value("1")),
            entry(CadenceValue::Void {}, CadenceValue::Void {}),
            entry(string_value("k"), string_value("not a number")),
        ],
    };
    assert!(matches!(
        from_cadence_dictionary::<String, i32>(&bad),
        Err(CadenceError::TypeMismatch { expected: Kind::String, got: Kind::Void })
    ));
}

#[test]
fn a_map_comes_back_from_its_encoding() {
    let mut native = HashMap::new();
    for key in 0u64..40 {
        native.insert(key, key % 3 == 0);
    }
    let value = native.to_cadence_value().unwrap();
    assert_eq!(HashMap::<u64, bool>::from_cadence_value(&value).unwrap(), native);
    let empty: HashMap<u64, bool> = HashMap::new();
    let value = empty.to_cadence_value().unwrap();
    assert_eq!(HashMap::<u64, bool>::from_cadence_value(&value).unwrap(), empty);
    let entries = |keys: [&str; 3]| CadenceValue::Dictionary {
        value: keys.iter().map(|k| entry(int_value(k), string_value(k))).collect(),
    };
    let first = BTreeMap::<u8, String>::from_cadence_value(&entries(["1", "2", "3"])).unwrap();
    let second = BTreeMap::<u8, String>::from_cadence_value(&entries(["3", "1", "2"])).unwrap();
    assert_eq!(first, second);
}

#[test]
fn a_value_encodes_to_itself_and_is_written_exactly() {
    let value = CadenceValue::Array { value: vec![string_value("a"), CadenceValue::Void {}] };
    assert_eq!(show(&value.to_cadence_value().unwrap()), show(&value));
    assert_eq!(
        cadence_json::to_string(&value).unwrap(),
        r#"{"type":"Array","value":[{"type":"String","value":"a"},{"type":"Void","value":null}]}"#
    );
}
