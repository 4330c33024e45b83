use serde_json::Value;
use ttipc::invoke::{settle, DispatchError, Outcome, Settlement};
use ttipc::validate::ValidationError;

fn serde_error() -> serde_json::Error {
    serde_json::from_str::<Value>("{").err().expect("truncated JSON fails")
}

#[test]
fn dispatch_error_texts() {
    assert_eq!(DispatchError::UnknownProcedure(String::from("nope")).message(), "unknown procedure: nope");
    assert_eq!(DispatchError::RawBody.message(), "procedures take JSON arguments, not a raw body");
    assert_eq!(DispatchError::MissingInjection("tauri::AppHandle").message(), "missing injectable value: tauri::AppHandle");
    assert_eq!(
        DispatchError::MissingState("app::Hits").message(),
        "state not managed: app::Hits -- did the app call `.manage()` for it?"
    );
    assert_eq!(DispatchError::MissingChannel("ttipc::Channel<Progress>").message(), "no channel factory: ttipc::Channel<Progress>");
    let serde_text = serde_error().to_string();
    assert_eq!(DispatchError::Deserialize(serde_error()).message(), format!("invalid arguments: {serde_text}"));
    assert_eq!(DispatchError::Serialize(serde_error()).message(), format!("response serialization failed: {serde_text}"));
    let invalid = ValidationError { command: String::from("greet"), message: String::from("bad") };
    assert_eq!(DispatchError::Invalid(invalid).message(), "invalid payload for \"greet\": bad");
}

#[test]
fn settle_resolves_rejects_typed_errors_and_rejects_failures_as_text() {
    let value: Value = serde_json::from_str(r#""Hello, world!""#).expect("json");
    match settle(Ok(Outcome::Resolve(value.clone()))) {
        Settlement::Resolve(v) => assert_eq!(v, value),
        _ => panic!("a resolved outcome resolves"),
    }
    let error: Value = serde_json::from_str(r#"{ "type": "locked", "message": "locked" }"#).expect("json");
    match settle(Ok(Outcome::Reject(error.clone()))) {
        Settlement::Reject(v) => assert_eq!(v, error),
        _ => panic!("a typed error rejects as-is"),
    }
    match settle(Err(DispatchError::UnknownProcedure(String::from("nope")))) {
        Settlement::RejectText(t) => assert_eq!(t, "unknown procedure: nope"),
        _ => panic!("a wire-level failure rejects with its text"),
    }
}
