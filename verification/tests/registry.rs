use ttipc::registry::{payload_enum, EmitPlan, EventLift, EventMethodShape, EventRegistry, FileFacts, TraitEvents};

fn strings(parts: &[&str]) -> Vec<String> {
    parts.iter().map(|p| String::from(*p)).collect()
}

fn method(name: &str, params: &[(&str, &str)]) -> EventMethodShape {
    EventMethodShape {
        name: String::from(name),
        params: params.iter().map(|(n, t)| (Some(String::from(*n)), Some(String::from(*t)))).collect(),
    }
}

fn events(trait_name: &str, namespace: Option<&str>, trigger: Option<&str>, methods: Vec<EventMethodShape>) -> TraitEvents {
    TraitEvents {
        trait_name: String::from(trait_name),
        namespace: namespace.map(String::from),
        custom_trigger: trigger.map(String::from),
        event_methods: methods,
    }
}

fn file(enums: &[&str], factories: &[&str], traits: Vec<TraitEvents>) -> FileFacts {
    FileFacts { enums: strings(enums), router_factories: strings(factories), traits }
}

#[test]
fn lifted_events_resolve_across_files() {
    // cmd.rs declares the trait with a custom trigger; channels.rs emits.
    let cmd = file(
        &[],
        &[],
        vec![events(
            "Cmd",
            Some("cmd"),
            Some("CmdBus"),
            vec![method("state_changed", &[("h", "AppHandle"), ("level", "u8")]), method("ping", &[])],
        )],
    );
    let channels = file(&[], &["build"], vec![]);
    let registry = EventRegistry::from_files(&vec![channels, cmd]);
    assert!(registry.has_triggers());
    assert!(registry.has_trigger("CmdBus"));
    assert!(!registry.has_trigger("TauRpcCmdEventTrigger"));
    assert!(registry.is_router_factory("build"));
    assert!(!registry.is_router_factory("run"));
    match registry.emit_plan("CmdBus", "state_changed", 2) {
        Some(EmitPlan::Variant { enum_name, variant, fields }) => {
            assert_eq!(enum_name, "CmdEvent");
            assert_eq!(variant, "StateChanged");
            // The injected handle is a named parameter too, so it names a field.
            assert_eq!(fields, strings(&["h", "level"]));
        }
        _ => panic!("a registered event method plans a variant"),
    }
    match registry.emit_plan("CmdBus", "ping", 0) {
        Some(EmitPlan::Variant { variant, fields, .. }) => {
            assert_eq!(variant, "Ping");
            assert!(fields.is_empty());
        }
        _ => panic!("a unit event plans a unit variant"),
    }
    // Arity must match, and the method must be registered.
    assert!(registry.emit_plan("CmdBus", "ping", 1).is_none());
    assert!(registry.emit_plan("CmdBus", "nope", 0).is_none());
    assert!(registry.emit_plan("OtherBus", "ping", 0).is_none());
}

#[test]
fn derives_event_on_an_in_file_payload_enum() {
    let api = events("Api", Some("app"), None, vec![method("event", &[("h", "AppHandle"), ("event", "AppEvent")])]);
    assert_eq!(payload_enum(&api), Some((String::from("event"), String::from("AppEvent"))));
    let registry = EventRegistry::from_files(&vec![file(&["AppEvent"], &[], vec![api])]);
    assert!(registry.derives_event("AppEvent"));
    assert!(registry.has_trigger("TauRpcApiEventTrigger"));
    assert!(matches!(registry.emit_plan("TauRpcApiEventTrigger", "event", 1), Some(EmitPlan::Payload)));
    assert!(registry.emit_plan("TauRpcApiEventTrigger", "event", 2).is_none());
    let again = events("Api", Some("app"), None, vec![method("event", &[("event", "AppEvent")])]);
    assert!(matches!(registry.event_lift(&again), EventLift::PayloadInFile));
}

#[test]
fn flags_an_external_payload_enum() {
    let api = events("Api", Some("app"), None, vec![method("event", &[("event", "AppEvent")])]);
    let registry = EventRegistry::from_files(&vec![file(&["Unrelated"], &[], vec![api])]);
    assert!(!registry.derives_event("AppEvent"));
    let again = events("Api", Some("app"), None, vec![method("event", &[("event", "AppEvent")])]);
    assert!(matches!(registry.event_lift(&again), EventLift::PayloadExternal));
}

#[test]
fn lifts_events_into_an_enum_named_for_the_namespace() {
    let registry = EventRegistry::new();
    let ui = events("UiApi", Some("ui"), None, vec![method("tick", &[])]);
    match registry.event_lift(&ui) {
        EventLift::Lift { enum_name, multi_level } => {
            assert_eq!(enum_name, "UiEvent");
            assert!(!multi_level);
        }
        _ => panic!("methods are lifted"),
    }
    let deep = events("UiApi", Some("api.ui"), None, vec![method("tick", &[])]);
    match registry.event_lift(&deep) {
        EventLift::Lift { enum_name, multi_level } => {
            assert_eq!(enum_name, "UiApiEvent");
            assert!(multi_level);
        }
        _ => panic!("methods are lifted"),
    }
    let none = events("UiApi", Some("ui"), None, vec![]);
    assert!(matches!(registry.event_lift(&none), EventLift::NoEvents));
}

#[test]
fn payload_pattern_needs_a_single_matching_payload() {
    // Multi-level namespace, two methods, or a mismatched enum: no payload pattern.
    assert_eq!(payload_enum(&events("Api", Some("a.b"), None, vec![method("event", &[("e", "BEvent")])])), None);
    assert_eq!(
        payload_enum(&events("Api", Some("app"), None, vec![method("a", &[("e", "AppEvent")]), method("b", &[])])),
        None
    );
    assert_eq!(payload_enum(&events("Api", Some("app"), None, vec![method("event", &[("e", "Other")])])), None);
    assert_eq!(payload_enum(&events("Api", None, None, vec![method("event", &[("e", "AppEvent")])])), None);
    assert_eq!(
        payload_enum(&events("Api", Some("state_sync"), None, vec![method("event", &[("e", "State_syncEvent")])])),
        Some((String::from("event"), String::from("State_syncEvent")))
    );
    // The payload enum is the one whose event group is the namespace itself.
    assert_eq!(payload_enum(&events("Api", Some("state_sync"), None, vec![method("event", &[("e", "StateSyncEvent")])])), None);
}

#[test]
fn enums_and_factories_accumulate() {
    let mut registry = EventRegistry::new();
    registry.add_enums(&strings(&["A", "B"]));
    registry.add_router_factories(&strings(&["build"]));
    registry.add_enum(String::from("C"));
    registry.add_router_factory(String::from("routes"));
    assert!(registry.is_router_factory("build"));
    assert!(registry.is_router_factory("routes"));
    assert!(!registry.has_triggers());
    registry.extract_events(&vec![events("Api", Some("app"), None, vec![method("event", &[("e", "AppEvent")])])]);
    assert!(!registry.derives_event("AppEvent"));
    assert!(registry.has_trigger("TauRpcApiEventTrigger"));
}

#[test]
fn an_event_lift_notes_its_findings() {
    let mut f = ttipc::findings::Findings::none();
    ttipc::registry::note_event_lift(&mut f, &EventLift::NoEvents);
    assert!(!f.events_lifted && !f.events_payload_enum && !f.event_payload_external && !f.multi_level_event);
    ttipc::registry::note_event_lift(&mut f, &EventLift::PayloadExternal);
    assert!(f.event_payload_external && !f.events_payload_enum);
    let mut g = ttipc::findings::Findings::none();
    ttipc::registry::note_event_lift(&mut g, &EventLift::Lift { enum_name: String::from("AppEvent"), multi_level: false });
    assert!(g.events_lifted && !g.multi_level_event);
    ttipc::registry::note_event_lift(&mut g, &EventLift::Lift { enum_name: String::from("AppEvent"), multi_level: true });
    assert!(g.events_lifted && g.multi_level_event);
    let mut h = ttipc::findings::Findings::none();
    ttipc::registry::note_event_lift(&mut h, &EventLift::PayloadInFile);
    assert!(h.events_payload_enum && !h.transformed);
}
