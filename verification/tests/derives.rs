use ttipc::derives::{plan_error, plan_event, DeriveError, DeriveShape, FieldsShape, VariantShape};

fn variant(name: &str, fields: FieldsShape) -> VariantShape {
    VariantShape { name: String::from(name), fields }
}

#[test]
fn error_rejects() {
    // `struct S;`
    let not_enum = DeriveShape { name: String::from("S"), generic: false, variants: None };
    let err = plan_error(&not_enum).err().expect("input should be rejected");
    assert_eq!(err.message(), "Error can only be derived for enums");
    // `enum E<T> { A(T) }`
    let generic = DeriveShape {
        name: String::from("E"),
        generic: true,
        variants: Some(vec![variant("A", FieldsShape::Unnamed(vec![0]))]),
    };
    let err = plan_error(&generic).err().expect("input should be rejected");
    assert_eq!(err.message(), "generic error enums are not supported");
}

#[test]
fn event_rejects() {
    // `struct S;`
    let not_enum = DeriveShape { name: String::from("S"), generic: false, variants: None };
    let err = plan_event(&not_enum).err().expect("input should be rejected");
    assert_eq!(err.message(), "Event can only be derived for enums");
    // `enum E { Tick(u8, u8) }`
    let tuple = DeriveShape {
        name: String::from("E"),
        generic: false,
        variants: Some(vec![variant("Tick", FieldsShape::Unnamed(vec![0, 0]))]),
    };
    let err = plan_event(&tuple).err().expect("input should be rejected");
    assert_eq!(err.message(), "tuple event variants need exactly one field (the payload type)");
    assert!(err == DeriveError::TupleEvent(0));
    // `enum E<T> { Tick { value: T } }`
    let generic = DeriveShape {
        name: String::from("E"),
        generic: true,
        variants: Some(vec![variant("Tick", FieldsShape::Named(vec![(String::from("value"), 0)]))]),
    };
    let err = plan_event(&generic).err().expect("input should be rejected");
    assert_eq!(err.message(), "generic event enums are not supported");
}

#[test]
fn error_tags_are_lower_camel_variants() {
    // `enum SaveError { Io(std::io::Error), Locked }`
    let save = DeriveShape {
        name: String::from("SaveError"),
        generic: false,
        variants: Some(vec![
            variant("Io", FieldsShape::Unnamed(vec![0])),
            variant("Locked", FieldsShape::Unit),
        ]),
    };
    let plan = plan_error(&save).ok().expect("an enum derives");
    assert_eq!(plan.name, "SaveError");
    assert_eq!(plan.tags, vec![String::from("io"), String::from("locked")]);
}

#[test]
fn fader_event_is_named_under_its_group() {
    // `enum FaderEvent { Changed { channel: u16, value: u8 } }`
    let fader = DeriveShape {
        name: String::from("FaderEvent"),
        generic: false,
        variants: Some(vec![variant(
            "Changed",
            FieldsShape::Named(vec![(String::from("channel"), 1), (String::from("value"), 2)]),
        )]),
    };
    let plan = plan_event(&fader).ok().expect("an enum derives");
    assert_eq!(plan.group, "fader");
    assert_eq!(plan.variants.len(), 1);
    let v = &plan.variants[0];
    assert_eq!(v.discriminant, "changed");
    assert_eq!(v.wire_name, "fader:changed");
    assert_eq!(v.fields, vec![(String::from("channel"), 1), (String::from("value"), 2)]);
    assert_eq!(v.data, None);
}

#[test]
fn single_tuple_event_carries_its_payload_as_data() {
    // `enum Telemetry { Sample(Reading), Idle }`
    let telemetry = DeriveShape {
        name: String::from("Telemetry"),
        generic: false,
        variants: Some(vec![
            variant("Sample", FieldsShape::Unnamed(vec![7])),
            variant("Idle", FieldsShape::Unit),
        ]),
    };
    let plan = plan_event(&telemetry).ok().expect("an enum derives");
    assert_eq!(plan.group, "telemetry");
    assert_eq!(plan.variants[0].wire_name, "telemetry:sample");
    assert_eq!(plan.variants[0].data, Some(7));
    assert!(plan.variants[0].fields.is_empty());
    assert_eq!(plan.variants[1].wire_name, "telemetry:idle");
    assert_eq!(plan.variants[1].data, None);
}
