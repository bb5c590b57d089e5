use cadence_json::record::{
    decode_member, encode_member, find_field, struct_payload, struct_value, wire_name,
};
use cadence_json::{
    from_slice, from_str, from_value, to_string, to_string_pretty, to_value, to_vec,
    to_vec_pretty, CadenceError, CadenceValue, CompositeField, FromCadenceValue, Json,
    JsonMember, Kind, ToCadenceValue,
};
use std::collections::HashMap;

fn show<T: std::fmt::Debug>(value: &T) -> String {
    format!("{:?}", value)
}

#[derive(Debug, PartialEq)]
struct Person {
    name: String,
    age: u8,
}

impl ToCadenceValue for Person {
    fn to_cadence_value(&self) -> Result<CadenceValue, CadenceError> {
        let mut fields = Vec::new();
        encode_member(&mut fields, &wire_name("name", None), &self.name)?;
        encode_member(&mut fields, &wire_name("age", None), &self.age)?;
        Ok(struct_value("Person", fields))
    }
}

impl FromCadenceValue for Person {
    fn from_cadence_value(value: &CadenceValue) -> Result<Self, CadenceError> {
        let payload = struct_payload(value)?;
        Ok(Person {
            name: decode_member(payload, &wire_name("name", None))?,
            age: decode_member(payload, &wire_name("age", None))?,
        })
    }
}

#[derive(Debug, PartialEq)]
struct Account {
    is_active: bool,
    tags: Vec<String>,
}

impl ToCadenceValue for Account {
    fn to_cadence_value(&self) -> Result<CadenceValue, CadenceError> {
        let mut fields = Vec::new();
        encode_member(&mut fields, &wire_name("is_active", Some("isActive")), &self.is_active)?;
        encode_member(&mut fields, &wire_name("tags", None), &self.tags)?;
        Ok(struct_value("Account", fields))
    }
}

impl FromCadenceValue for Account {
    fn from_cadence_value(value: &CadenceValue) -> Result<Self, CadenceError> {
        let payload = struct_payload(value)?;
        Ok(Account {
            is_active: decode_member(payload, &wire_name("is_active", Some("isActive")))?,
            tags: decode_member(payload, &wire_name("tags", None))?,
        })
    }
}

const ALICE: &str = r#"{"type":"Struct","value":{"id":"Person","fields":[{"name":"name","value":{"type":"String","value":"Alice"}},{"name":"age","value":{"type":"UInt8","value":"30"}}]}}"#;

#[test]
fn person_end_to_end() {
    let alice = Person { name: "Alice".to_string(), age: 30 };
    let text = to_string(&alice).unwrap();
    assert_eq!(text, ALICE);
    assert_eq!(from_str::<Person>(&text).unwrap(), alice);
}

#[test]
fn person_as_bytes() {
    let alice = Person { name: "Alice".to_string(), age: 30 };
    let bytes = to_vec(&alice).unwrap();
    assert_eq!(bytes, ALICE.as_bytes());
    assert_eq!(from_slice::<Person>(&bytes).unwrap(), alice);
}

#[test]
fn pretty_text_is_indented_and_reads_back() {
    let text = to_string_pretty(&true).unwrap();
    assert_eq!(text, "{\n  \"type\": \"Bool\",\n  \"value\": true\n}");
    assert_eq!(to_vec_pretty(&true).unwrap(), text.as_bytes());
    assert!(from_str::<bool>(&text).unwrap());
    let alice = Person { name: "Alice".to_string(), age: 30 };
    assert_eq!(from_str::<Person>(&to_string_pretty(&alice).unwrap()).unwrap(), alice);
}

#[test]
fn written_text_is_what_the_json_writer_writes() {
    let value = vec![Some("a\"b\\c\n".to_string()), None];
    let text = to_string(&value).unwrap();
    let parsed: serde_json::Value = serde_json::from_str(&text).unwrap();
    assert_eq!(serde_json::to_string(&parsed).unwrap(), text);
    assert_eq!(
        text,
        r#"{"type":"Array","value":[{"type":"Optional","value":{"type":"String","value":"a\"b\\c\n"}},{"type":"Optional","value":null}]}"#
    );
}

#[test]
fn member_order_on_the_wire_is_not_significant() {
    let text = r#"{"value":[{"key":{"value":"banana","type":"String"},"value":{"value":"10","type":"Int"}},{"key":{"value":"cherry","type":"String"},"value":{"value":"15","type":"Int"}},{"key":{"value":"apple","type":"String"},"value":{"value":"5","type":"Int"}}],"type":"Dictionary"}"#;
    let inventory = from_str::<HashMap<String, i32>>(text).unwrap();
    assert_eq!(inventory.len(), 3);
    assert_eq!(inventory["banana"], 10);
    assert_eq!(inventory["cherry"], 15);
    assert_eq!(inventory["apple"], 5);
    let again = from_str::<HashMap<String, i32>>(&to_string_pretty(&inventory).unwrap()).unwrap();
    assert_eq!(again, inventory);
}

#[test]
fn address_keys_decode_as_their_strings_are_refused_by_the_exact_kind() {
    let text = r#"{"type":"Dictionary","value":[{"key":{"type":"Address","value":"0x1"},"value":{"type":"String","value":"Alice"}}]}"#;
    assert!(matches!(
        from_str::<HashMap<String, String>>(text),
        Err(CadenceError::TypeMismatch { expected: Kind::String, got: Kind::Address })
    ));
}

#[test]
fn text_that_is_no_json_is_refused_by_the_reader() {
    for bad in ["", "{", "{\"type\":}", "tru", "[1,]", "{\"a\":1} x"] {
        match from_str::<bool>(bad) {
            Err(CadenceError::SerdeJson(e)) => assert!(!e.to_string().is_empty()),
            other => panic!("{:?} gave {:?}", bad, other),
        }
    }
    assert!(matches!(from_slice::<bool>(b"\xff\xfe"), Err(CadenceError::SerdeJson(_))));
    assert!(matches!(from_slice::<String>(b"\"\xff\""), Err(CadenceError::SerdeJson(_))));
}

#[test]
fn reader_errors_carry_their_words() {
    match from_str::<bool>("{") {
        Err(e) => {
            let message = e.message();
            assert!(message.starts_with("JSON error: "));
            assert!(message.len() > "JSON error: ".len());
        },
        Ok(_) => panic!("read a value"),
    }
}

#[test]
fn loose_json_reads_by_inference() {
    assert!(from_str::<bool>("true").unwrap());
    assert_eq!(from_str::<String>("\"plain\"").unwrap(), "plain");
    assert_eq!(from_str::<i64>("-12").unwrap(), -12);
    assert_eq!(from_str::<u64>("18446744073709551615").unwrap(), u64::MAX);
    assert_eq!(from_str::<Vec<u8>>("[1, 2, 3]").unwrap(), vec![1, 2, 3]);
    assert_eq!(from_str::<Option<bool>>("null").unwrap(), None);
    let map = from_str::<HashMap<String, bool>>(r#"{"b": true, "a": false}"#).unwrap();
    assert_eq!(map.len(), 2);
    assert!(map["b"] && !map["a"]);
}

#[test]
fn fractions_read_as_fix64() {
    match from_str::<CadenceValue>("1.5").unwrap() {
        CadenceValue::Fix64 { value } => assert_eq!(value, "1.5"),
        other => panic!("unexpected: {:?}", other),
    }
    match from_str::<CadenceValue>("-0.0").unwrap() {
        CadenceValue::Fix64 { value } => assert_eq!(value, "-0.0"),
        other => panic!("unexpected: {:?}", other),
    }
    match from_str::<CadenceValue>("1e3").unwrap() {
        CadenceValue::Fix64 { value } => assert_eq!(value, "1000.0"),
        other => panic!("unexpected: {:?}", other),
    }
}

#[test]
fn objects_read_in_their_own_member_order() {
    match from_str::<CadenceValue>(r#"{"zeta": 1, "alpha": 2, "mid": 3}"#).unwrap() {
        CadenceValue::Dictionary { value } => {
            let keys: Vec<String> = value.iter().map(|e| show(&e.key)).collect();
            assert_eq!(
                keys,
                vec![
                    show(&CadenceValue::String { value: "zeta".to_string() }),
                    show(&CadenceValue::String { value: "alpha".to_string() }),
                    show(&CadenceValue::String { value: "mid".to_string() }),
                ]
            );
        },
        other => panic!("unexpected: {:?}", other),
    }
}

#[test]
fn unknown_kind_in_text() {
    match from_str::<CadenceValue>(r#"{"type":"Frobnicate","value":1}"#) {
        Err(CadenceError::UnknownKind(tag)) => assert_eq!(tag, "Frobnicate"),
        other => panic!("unexpected: {:?}", other),
    }
}

#[test]
fn uint8_300_in_text() {
    assert!(matches!(
        from_str::<u8>(r#"{"type":"UInt8","value":"300"}"#),
        Err(CadenceError::NumericParseError { target: Kind::UInt8, .. })
    ));
}

#[test]
fn trees_go_both_ways() {
    let alice = Person { name: "Alice".to_string(), age: 30 };
    let tree = to_value(&alice).unwrap();
    assert!(matches!(tree.get("type"), Some(Json::String(s)) if s == "Struct"));
    assert_eq!(from_value::<Person>(&tree).unwrap(), alice);
    let loose = Json::Array(vec![Json::Bool(true), Json::Bool(false)]);
    assert_eq!(from_value::<Vec<bool>>(&loose).unwrap(), vec![true, false]);
    let bad = Json::Object(vec![
        JsonMember { name: "type".to_string(), value: Json::String("Nope".to_string()) },
        JsonMember { name: "value".to_string(), value: Json::Null },
    ]);
    assert!(matches!(from_value::<bool>(&bad), Err(CadenceError::UnknownKind(_))));
}

#[test]
fn renamed_member_stands_under_the_mapped_name() {
    let account = Account { is_active: true, tags: vec!["developer".to_string()] };
    let value = account.to_cadence_value().unwrap();
    let payload = struct_payload(&value).unwrap();
    assert_eq!(payload.id, "Account");
    assert_eq!(payload.fields.len(), 2);
    assert_eq!(payload.fields[0].name, "isActive");
    assert_eq!(payload.fields[1].name, "tags");
    assert!(find_field(&payload.fields, "is_active").is_none());
    assert!(to_string(&account).unwrap().contains(r#"{"name":"isActive","value":{"type":"Bool","value":true}}"#));
    assert_eq!(Account::from_cadence_value(&value).unwrap(), account);
    assert_eq!(from_str::<Account>(&to_string(&account).unwrap()).unwrap(), account);
}

#[test]
fn wire_names() {
    assert_eq!(wire_name("is_active", Some("isActive")), "isActive");
    assert_eq!(wire_name("is_active", None), "is_active");
    assert_eq!(wire_name("", Some("")), "");
}

#[test]
fn missing_member_is_reported_by_name() {
    let value = struct_value(
        "Person",
        vec![CompositeField {
            name: "name".to_string(),
            value: CadenceValue::String { value: "Bob".to_string() },
        }],
    );
    match Person::from_cadence_value(&value) {
        Err(CadenceError::FieldMissing(name)) => assert_eq!(name, "age"),
        other => panic!("unexpected: {:?}", other),
    }
}

#[test]
fn malformed_member_aborts_the_record() {
    let value = struct_value(
        "Person",
        vec![
            CompositeField {
                name: "age".to_string(),
                value: CadenceValue::UInt8 { value: "300".to_string() },
            },
            CompositeField {
                name: "name".to_string(),
                value: CadenceValue::String { value: "Bob".to_string() },
            },
        ],
    );
    assert!(matches!(
        Person::from_cadence_value(&value),
        Err(CadenceError::NumericParseError { target: Kind::UInt8, .. })
    ));
}

#[test]
fn members_are_found_whatever_their_order_and_the_first_match_counts() {
    let field = |name: &str, value: CadenceValue| CompositeField { name: name.to_string(), value };
    let value = struct_value(
        "Person",
        vec![
            field("age", CadenceValue::UInt8 { value: "41".to_string() }),
            field("extra", CadenceValue::Void {}),
            field("name", CadenceValue::String { value: "Bob".to_string() }),
            field("age", CadenceValue::UInt8 { value: "42".to_string() }),
        ],
    );
    assert_eq!(
        Person::from_cadence_value(&value).unwrap(),
        Person { name: "Bob".to_string(), age: 41 }
    );
}

#[test]
fn only_a_struct_binds_to_a_record() {
    let resource = CadenceValue::Resource {
        value: cadence_json::CompositeValue { id: "Person".to_string(), fields: vec![] },
    };
    assert!(matches!(
        Person::from_cadence_value(&resource),
        Err(CadenceError::TypeMismatch { expected: Kind::Struct, got: Kind::Resource })
    ));
    assert!(matches!(
        struct_payload(&CadenceValue::Void {}),
        Err(CadenceError::TypeMismatch { expected: Kind::Struct, got: Kind::Void })
    ));
}

struct Failing;

impl ToCadenceValue for Failing {
    fn to_cadence_value(&self) -> Result<CadenceValue, CadenceError> {
        Err(CadenceError::Custom("no encoding".to_string()))
    }
}

#[test]
fn a_member_that_fails_leaves_the_fields_alone() {
    let mut fields = Vec::new();
    encode_member(&mut fields, "a", &true).unwrap();
    assert!(matches!(encode_member(&mut fields, "b", &Failing), Err(CadenceError::Custom(_))));
    assert_eq!(fields.len(), 1);
    assert_eq!(show(&fields[0].value), show(&CadenceValue::Bool { value: true }));
    assert!(matches!(to_string(&Failing), Err(CadenceError::Custom(_))));
    assert!(matches!(to_vec(&Failing), Err(CadenceError::Custom(_))));
}

#[test]
fn values_without_an_encoder_do_not_write() {
    let path = CadenceValue::Path {
        value: cadence_json::PathValue {
            domain: cadence_json::PathDomain::Public,
            identifier: "x".to_string(),
        },
    };
    struct Holder(CadenceValue);
    impl ToCadenceValue for Holder {
        fn to_cadence_value(&self) -> Result<CadenceValue, CadenceError> {
            Ok(self.0.clone())
        }
    }
    assert!(matches!(
        to_string(&Holder(path.clone())),
        Err(CadenceError::UnsupportedType(Kind::Path))
    ));
    assert!(matches!(
        to_string_pretty(&Holder(path.clone())),
        Err(CadenceError::UnsupportedType(Kind::Path))
    ));
    assert!(matches!(to_vec_pretty(&Holder(path)), Err(CadenceError::UnsupportedType(Kind::Path))));
}
