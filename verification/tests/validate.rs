use serde_json::Value;
use ttipc::json::{render, Json};
use ttipc::validate::{args_definition, contract_text_of, verdict, ValidationError, Validator, ValidatorError};

// The exported contract of a two-command set: `greet(name: String)` and
// `sum(values: Vec<u32>)`, each command's arguments under `TtipcArgs{index}`.
const DOCUMENT: &str = r#"{
  "$schema": "http://json-schema.org/draft-07/schema#",
  "definitions": {
    "TtipcArgs0": {
      "type": "object",
      "properties": { "name": { "type": "string" } },
      "required": ["name"]
    },
    "TtipcArgs1": {
      "type": "object",
      "properties": { "values": { "type": "array", "items": { "type": "integer", "minimum": 0 } } },
      "required": ["values"]
    }
  }
}"#;

fn to_json(value: &Value) -> Json {
    match value {
        Value::Null => Json::Null,
        Value::Bool(b) => Json::Bool(*b),
        Value::Number(n) => Json::Number(n.to_string()),
        Value::String(s) => Json::Str(s.clone()),
        Value::Array(items) => Json::Array(items.iter().map(to_json).collect()),
        Value::Object(members) => Json::Object(members.iter().map(|(k, v)| (k.clone(), to_json(v))).collect()),
    }
}

fn json(text: &str) -> Json {
    to_json(&serde_json::from_str::<Value>(text).expect("test JSON parses"))
}

fn validator() -> Validator {
    Validator::new()
        .register(None, &vec![String::from("greet"), String::from("sum")], &json(DOCUMENT))
        .ok()
        .expect("fixture validator builds")
}

#[test]
fn accepts_well_typed_payloads() {
    let v = validator();
    assert!(v.validate("greet", &json(r#"{ "name": "world" }"#)).is_ok());
    assert!(v.validate("sum", &json(r#"{ "values": [1, 2, 3] }"#)).is_ok());
}

#[test]
fn rejects_a_wrong_typed_primitive_argument() {
    let v = validator();
    let err = v.validate("greet", &json(r#"{ "name": 5 }"#)).err().expect("a number is not a string");
    assert_eq!(err.command, "greet");
    // The schema's own first violation, not the generic fallback.
    assert!(err.message.contains("string"));
    assert_ne!(err.message, "does not match the schema");
}

#[test]
fn rejects_a_wrong_typed_container_element() {
    let v = validator();
    assert!(v.validate("sum", &json(r#"{ "values": ["x"] }"#)).is_err());
}

#[test]
fn rejects_a_missing_required_argument() {
    let v = validator();
    assert!(v.validate("greet", &json("{}")).is_err());
}

#[test]
fn passes_unknown_commands_through() {
    let v = validator();
    assert!(v.validate("not_registered", &json("{}")).is_ok());
}

#[test]
fn an_empty_validator_passes_everything() {
    let v = Validator::new();
    assert!(!v.covers("greet"));
    assert!(v.validate("greet", &json(r#"{ "name": 5 }"#)).is_ok());
    assert!(!Validator::default().covers("greet"));
}

#[test]
fn a_namespaced_set_is_keyed_by_its_wire_names() {
    let v = Validator::new()
        .register(Some("api"), &vec![String::from("greet"), String::from("sum")], &json(DOCUMENT))
        .ok()
        .expect("fixture validator builds");
    assert!(v.covers("api.greet"));
    assert!(v.covers("api.sum"));
    assert!(!v.covers("greet"));
    assert!(v.validate("greet", &json(r#"{ "name": 5 }"#)).is_ok());
    assert!(v.validate("api.greet", &json(r#"{ "name": 5 }"#)).is_err());
}

#[test]
fn each_contract_refers_to_its_own_arguments() {
    assert_eq!(
        contract_text_of(1, "{}"),
        r##"{"$schema":"http://json-schema.org/draft-07/schema#","$ref":"#/definitions/TtipcArgs1","definitions":{}}"##
    );
    // With the fixture, `sum`'s contract is `TtipcArgs1`: a payload that only
    // satisfies `greet`'s arguments is refused for `sum`, and the reverse.
    let v = validator();
    assert!(v.validate("sum", &json(r#"{ "name": "world" }"#)).is_err());
    assert!(v.validate("greet", &json(r#"{ "values": [1] }"#)).is_err());
}

#[test]
fn json_renders_compactly_with_escapes() {
    let value = json(r#"{ "a": [1, -2.5, true, null], "b": "q\"\\\n\u0001" }"#);
    assert_eq!(render(&value), r#"{"a":[1,-2.5,true,null],"b":"q\"\\\u000a\u0001"}"#);
    let back: Value = serde_json::from_str(&render(&value)).expect("rendered JSON parses");
    assert_eq!(back, serde_json::from_str::<Value>(r#"{ "a": [1, -2.5, true, null], "b": "q\"\\\n\u0001" }"#).unwrap());
}

#[test]
fn bad_definitions_stop_registration() {
    let bad = r#"{ "definitions": { "TtipcArgs0": { "type": "object" }, "TtipcArgs1": { "type": 5 } } }"#;
    let err = Validator::new()
        .register(None, &vec![String::from("greet"), String::from("sum")], &json(bad))
        .err()
        .expect("the contracts do not compile");
    assert!(matches!(err, ValidatorError::Compile(_)));
}

#[test]
fn a_contract_that_does_not_compile_is_a_compile_error() {
    let bad = r#"{ "definitions": { "TtipcArgs0": { "type": 5 } } }"#;
    let err = Validator::new()
        .register(None, &vec![String::from("greet")], &json(bad))
        .err()
        .expect("the contract does not compile");
    assert!(matches!(err, ValidatorError::Compile(_)));
    assert!(err.message().starts_with("compiling the validator failed: "));
}

#[test]
fn validator_error_texts() {
    assert_eq!(
        ValidatorError::Schema(String::from("boom")).message(),
        "building the JSON Schema contract failed: boom"
    );
    assert_eq!(ValidatorError::Compile(String::from("bad")).message(), "compiling the validator failed: bad");
}

#[test]
fn validation_error_text_quotes_the_command() {
    let e = ValidationError { command: String::from("greet"), message: String::from("5 is not of type \"string\"") };
    assert_eq!(e.to_message(), "invalid payload for \"greet\": 5 is not of type \"string\"");
    let e = ValidationError { command: String::from("a\"b"), message: String::from("m") };
    assert_eq!(e.to_message(), "invalid payload for \"a\\\"b\": m");
}

#[test]
fn verdict_follows_the_schema() {
    assert!(verdict("greet", true, None).is_ok());
    let e = verdict("greet", false, Some(String::from("first"))).err().expect("rejected");
    assert_eq!(e.command, "greet");
    assert_eq!(e.message, "first");
    let e = verdict("greet", false, None).err().expect("rejected");
    assert_eq!(e.message, "does not match the schema");
}

#[test]
fn argument_definitions_are_numbered() {
    assert_eq!(args_definition(0), "TtipcArgs0");
    assert_eq!(args_definition(7), "TtipcArgs7");
    assert_eq!(args_definition(10), "TtipcArgs10");
    assert_eq!(args_definition(1234), "TtipcArgs1234");
    assert_ne!(args_definition(1), args_definition(11));
}

#[test]
fn a_contract_text_that_does_not_parse_is_a_schema_error() {
    // A number whose text is not JSON renders into definitions that no parser
    // accepts, so the contract cannot be built.
    let definitions = Json::Object(vec![(
        String::from("TtipcArgs0"),
        Json::Object(vec![(String::from("minimum"), Json::Number(String::from("not a number")))]),
    )]);
    let document = Json::Object(vec![(String::from("definitions"), definitions)]);
    let err = Validator::new()
        .register(None, &vec![String::from("greet")], &document)
        .err()
        .expect("the contract text does not parse");
    let text = match &document {
        Json::Object(members) => contract_text_of(0, &render(&members[0].1)),
        _ => unreachable!(),
    };
    let expected = serde_json::from_str::<Value>(&text).err().expect("invalid").to_string();
    match &err {
        ValidatorError::Schema(m) => assert_eq!(*m, expected),
        ValidatorError::Compile(_) => panic!("expected a schema error"),
    }
    assert!(err.message().starts_with("building the JSON Schema contract failed: "));
}

#[test]
fn arguments_whose_text_does_not_parse_are_rejected_with_the_parser_message() {
    let v = validator();
    let err = v.validate("greet", &Json::Number(String::from("oops"))).err().expect("not JSON");
    let expected = serde_json::from_str::<Value>("oops").err().expect("invalid").to_string();
    assert_eq!(err.command, "greet");
    assert_eq!(err.message, expected);
}
