use ttipc::arms::{arm_steps_of, body_fields_of, descriptor_entry, ArmStep};
use ttipc::signature::{
    parse_namespace, plan_method, plan_trait, MethodShape, NamespaceArg, NamespaceError, ParamRole, ParamShape,
    ReceiverShape, TraitItemShape, TraitShape, TypeShape,
};

// Type ids: 0 String, 1 AppHandle, 2 u16, 3 u8, 4 Hits, 5 State<Hits>, 6 u32,
// 7 Progress, 8 Channel<Progress>, 9 SaveError, 10 Result<(), SaveError>, 11 ().

fn path(last: &str, args: Vec<usize>) -> TypeShape {
    TypeShape::Path { last: String::from(last), type_args: args }
}

fn param(name: &str, ty: TypeShape, ty_id: usize) -> ParamShape {
    ParamShape { name: Some(String::from(name)), ty, ty_id }
}

fn method(name: &str, params: Vec<ParamShape>, is_async: bool, output: Option<(TypeShape, usize)>) -> MethodShape {
    MethodShape {
        name: String::from(name),
        generic: false,
        receiver: ReceiverShape::SharedRef,
        params,
        is_async,
        output,
    }
}

fn one_method_trait(m: MethodShape) -> TraitShape {
    TraitShape { name: String::from("T"), generic: false, items: vec![TraitItemShape::Method(m)] }
}

fn rejection(t: TraitShape) -> &'static str {
    plan_trait(&t, None).err().expect("input should be rejected").message()
}

#[test]
fn procedures_rejects() {
    // `trait T { fn a(self); }`
    let by_value = MethodShape { receiver: ReceiverShape::Other, ..method("a", vec![], false, None) };
    assert_eq!(
        rejection(one_method_trait(by_value)),
        "procedures take &self (shared access to the procedure set's state)"
    );
    // `trait T { fn a(&self, s: &str); }`
    let borrowed = method("a", vec![param("s", TypeShape::Reference, 0)], false, None);
    assert_eq!(
        rejection(one_method_trait(borrowed)),
        "procedure arguments must be owned types (they are deserialized off the wire)"
    );
    // `trait T { const N: u8; }`
    let constant = TraitShape { name: String::from("T"), generic: false, items: vec![TraitItemShape::Other] };
    assert_eq!(rejection(constant), "only methods are allowed in a procedure trait");
    // `trait T { fn a(&self, app: tauri::AppHandle, other: AppHandle); }`
    let twice = method(
        "a",
        vec![param("app", path("AppHandle", vec![]), 1), param("other", path("AppHandle", vec![]), 1)],
        false,
        None,
    );
    assert_eq!(
        rejection(one_method_trait(twice)),
        "duplicate injected parameter: only one AppHandle per procedure"
    );
    // `trait T { fn a(&self, c: ttipc::Channel); }`
    let bare_channel = method("a", vec![param("c", path("Channel", vec![]), 8)], false, None);
    assert_eq!(
        rejection(one_method_trait(bare_channel)),
        "Channel parameters need a type argument, e.g. Channel<T>"
    );
}

#[test]
fn other_rejections_carry_their_messages() {
    let generic_trait = TraitShape { name: String::from("T"), generic: true, items: vec![] };
    assert_eq!(rejection(generic_trait), "generic procedure traits are not supported");
    let generic_method = MethodShape { generic: true, ..method("a", vec![], false, None) };
    assert_eq!(rejection(one_method_trait(generic_method)), "generic procedures are not supported");
    let pattern = method("a", vec![ParamShape { name: None, ty: path("u8", vec![]), ty_id: 3 }], false, None);
    assert_eq!(
        rejection(one_method_trait(pattern)),
        "procedure arguments must be plain identifiers (they name the wire fields)"
    );
    let bare_state = method("a", vec![param("s", path("State", vec![]), 5)], false, None);
    assert_eq!(
        rejection(one_method_trait(bare_state)),
        "State parameters need a type argument, e.g. State<'_, T>"
    );
}

#[test]
fn greet_plans_one_wire_argument() {
    // `trait Greeter { fn greet(&self, name: String) -> String; }`
    let greeter = TraitShape {
        name: String::from("Greeter"),
        generic: false,
        items: vec![TraitItemShape::Method(method(
            "greet",
            vec![param("name", path("String", vec![]), 0)],
            false,
            Some((path("String", vec![]), 0)),
        ))],
    };
    let plan = plan_trait(&greeter, None).ok().expect("greeter plans");
    assert_eq!(plan.object, "greeter");
    assert_eq!(plan.namespace, None);
    assert_eq!(plan.wire_names, vec![String::from("greet")]);
    assert!(!plan.has_async);
    assert_eq!(plan.dispatch_trait, "GreeterDispatch");
    assert_eq!(plan.descriptor, "GreeterProcedures");
    let p = &plan.procedures[0];
    assert!(p.params[0].role == ParamRole::Wire);
    assert_eq!(arm_steps_of(p), vec![ArmStep::Deserialize, ArmStep::Call { splits_result: false }]);
    assert_eq!(body_fields_of(p), vec![0]);
    let d = descriptor_entry(p);
    assert_eq!(d.name, "greet");
    assert_eq!(d.args, vec![(String::from("name"), 0)]);
    assert!(d.channels.is_empty());
    assert_eq!(d.output, Some(0));
    assert_eq!(d.error, None);
}

#[test]
fn injected_handle_splits_off_the_wire_arguments() {
    // `fn set(&self, app: tauri::AppHandle, channel: u16, value: u8);`
    let set = method(
        "set",
        vec![
            param("app", path("AppHandle", vec![]), 1),
            param("channel", path("u16", vec![]), 2),
            param("value", path("u8", vec![]), 3),
        ],
        false,
        None,
    );
    let p = plan_method(&set).ok().expect("set plans");
    assert!(p.params[0].role == ParamRole::Injected);
    assert!(p.params[1].role == ParamRole::Wire);
    assert!(p.params[2].role == ParamRole::Wire);
    assert_eq!(
        arm_steps_of(&p),
        vec![ArmStep::Deserialize, ArmStep::Extract(0), ArmStep::Call { splits_result: false }]
    );
    assert_eq!(body_fields_of(&p), vec![1, 2]);
    let d = descriptor_entry(&p);
    assert_eq!(d.args, vec![(String::from("channel"), 2), (String::from("value"), 3)]);
    assert_eq!(d.output, None);
}

#[test]
fn state_resolves_by_its_inner_type() {
    // `fn hits(&self, state: tauri::State<'_, Hits>) -> u32;`
    let hits = method("hits", vec![param("state", path("State", vec![4]), 5)], false, Some((path("u32", vec![]), 6)));
    let p = plan_method(&hits).ok().expect("hits plans");
    assert!(p.params[0].role == ParamRole::State(4));
    assert_eq!(
        arm_steps_of(&p),
        vec![ArmStep::Deserialize, ArmStep::ResolveState(0), ArmStep::Call { splits_result: false }]
    );
    assert!(body_fields_of(&p).is_empty());
    assert!(descriptor_entry(&p).args.is_empty());
}

#[test]
fn async_result_procedure_spawns_and_splits_its_result() {
    // `trait Backup { fn last(&self) -> String; async fn save(&self, path: String) -> Result<(), SaveError>; }`
    let backup = TraitShape {
        name: String::from("Backup"),
        generic: false,
        items: vec![
            TraitItemShape::Method(method("last", vec![], false, Some((path("String", vec![]), 0)))),
            TraitItemShape::Method(method(
                "save",
                vec![param("path", path("String", vec![]), 0)],
                true,
                Some((path("Result", vec![11, 9]), 10)),
            )),
        ],
    };
    let plan = plan_trait(&backup, None).ok().expect("backup plans");
    assert!(plan.has_async);
    let save = &plan.procedures[1];
    assert_eq!(save.result_ok, Some(11));
    assert_eq!(save.result_err, Some(9));
    assert_eq!(
        arm_steps_of(save),
        vec![ArmStep::Deserialize, ArmStep::Spawn, ArmStep::Call { splits_result: true }]
    );
    let d = descriptor_entry(save);
    assert_eq!(d.output, Some(11));
    assert_eq!(d.error, Some(9));
    assert_eq!(arm_steps_of(&plan.procedures[0]), vec![ArmStep::Deserialize, ArmStep::Call { splits_result: false }]);
}

#[test]
fn channels_ride_the_wire_and_are_built_server_side() {
    // `fn track(&self, progress: ttipc::Channel<Progress>);` and its async twin.
    let track = method("track", vec![param("progress", path("Channel", vec![7]), 8)], false, None);
    let p = plan_method(&track).ok().expect("track plans");
    assert!(p.params[0].role == ParamRole::Channel(7));
    assert_eq!(
        arm_steps_of(&p),
        vec![ArmStep::Deserialize, ArmStep::BuildChannel(0), ArmStep::Call { splits_result: false }]
    );
    assert_eq!(body_fields_of(&p), vec![0]);
    let d = descriptor_entry(&p);
    assert!(d.args.is_empty());
    assert_eq!(d.channels, vec![(String::from("progress"), 7)]);
    let track_async = method("track_async", vec![param("progress", path("Channel", vec![7]), 8)], true, None);
    let q = plan_method(&track_async).ok().expect("track_async plans");
    assert_eq!(
        arm_steps_of(&q),
        vec![ArmStep::Deserialize, ArmStep::BuildChannel(0), ArmStep::Spawn, ArmStep::Call { splits_result: false }]
    );
}

#[test]
fn async_injection_resolves_state_inside_the_future() {
    // `async fn store(&self, app: tauri::AppHandle, hits: tauri::State<'_, Hits>, label: String) -> u32;`
    let store = method(
        "store",
        vec![
            param("app", path("AppHandle", vec![]), 1),
            param("hits", path("State", vec![4]), 5),
            param("label", path("String", vec![]), 0),
        ],
        true,
        Some((path("u32", vec![]), 6)),
    );
    let p = plan_method(&store).ok().expect("store plans");
    assert_eq!(
        arm_steps_of(&p),
        vec![
            ArmStep::Deserialize,
            ArmStep::Extract(0),
            ArmStep::TakeStateManager(1),
            ArmStep::Spawn,
            ArmStep::ResolveState(1),
            ArmStep::Call { splits_result: false },
        ]
    );
    assert_eq!(body_fields_of(&p), vec![2]);
}

#[test]
fn namespace_prefixes_every_wire_command() {
    let faders = TraitShape {
        name: String::from("Faders"),
        generic: false,
        items: vec![
            TraitItemShape::Method(method("set", vec![], false, None)),
            TraitItemShape::Method(method("get", vec![], false, None)),
        ],
    };
    let plan = plan_trait(&faders, Some(String::from("mixer"))).ok().expect("faders plans");
    assert_eq!(plan.object, "mixer");
    assert_eq!(plan.wire_names, vec![String::from("mixer.set"), String::from("mixer.get")]);
}

#[test]
fn namespace_argument_is_checked() {
    let arg = |key: Option<&str>, value: Option<&str>| NamespaceArg {
        key: key.map(String::from),
        value: value.map(String::from),
    };
    assert_eq!(parse_namespace(None).ok(), Some(None));
    assert_eq!(parse_namespace(Some(arg(Some("namespace"), Some("api")))).ok(), Some(Some(String::from("api"))));
    assert_eq!(parse_namespace(Some(arg(Some("path"), Some("api")))).ok(), Some(Some(String::from("api"))));
    let unknown = parse_namespace(Some(arg(Some("name"), Some("api")))).err().expect("unknown key");
    assert!(unknown == NamespaceError::UnknownKey);
    assert_eq!(unknown.message(), "#[procedures] only accepts `namespace = \"...\"` (alias `path`)");
    let not_lit = parse_namespace(Some(arg(Some("namespace"), None))).err().expect("not a literal");
    assert_eq!(not_lit.message(), "namespace must be a string literal");
    let dotted = parse_namespace(Some(arg(Some("namespace"), Some("a.b")))).err().expect("dotted");
    assert_eq!(dotted.message(), "namespace must be non-empty and contain no `.`");
    let empty = parse_namespace(Some(arg(Some("namespace"), Some("")))).err().expect("empty");
    assert!(empty == NamespaceError::BadValue);
}
