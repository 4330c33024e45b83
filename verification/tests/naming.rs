use ttipc::naming::{command_wire_name, event_enum_name, event_group, event_wire_name, lower_camel, pascal_case, private_serde};

#[test]
fn lower_camel_lowers_only_the_first_character() {
    assert_eq!(lower_camel("Faders"), "faders");
    assert_eq!(lower_camel("VolumeUp"), "volumeUp");
    assert_eq!(lower_camel(""), "");
}

#[test]
fn pascal_case_joins_snake_words() {
    assert_eq!(pascal_case("state_changed"), "StateChanged");
    assert_eq!(pascal_case("ev"), "Ev");
    assert_eq!(pascal_case("__a__b_"), "AB");
    assert_eq!(pascal_case(""), "");
}

#[test]
fn event_group_strips_a_trailing_event() {
    assert_eq!(event_group("FaderEvent"), "fader");
    assert_eq!(event_group("Telemetry"), "telemetry");
    assert_eq!(event_group("Event"), "event");
}

#[test]
fn wire_names_join_their_parts() {
    assert_eq!(event_wire_name("fader", "changed"), "fader:changed");
    assert_eq!(command_wire_name(Some("api"), "greet"), "api.greet");
    assert_eq!(command_wire_name(None, "greet"), "greet");
}

#[test]
fn event_enum_name_follows_a_single_level_namespace() {
    assert_eq!(event_enum_name("UiApi", Some("ui")), "UiEvent");
    assert_eq!(event_enum_name("UiApi", Some("api.ui")), "UiApiEvent");
    assert_eq!(event_enum_name("UiApi", None), "UiApiEvent");
    assert_eq!(event_enum_name("Api", Some("state_sync")), "State_syncEvent");
    assert_eq!(event_enum_name("Api", Some("myApp")), "MyAppEvent");
}

#[test]
fn private_serde_points_into_the_crate() {
    assert_eq!(private_serde("ttipc"), "::ttipc::__private::serde");
}

#[test]
fn lifted_enum_groups_as_its_single_level_namespace() {
    // The law the migration picks enum names by: group(name) == namespace.
    for ns in ["ui", "player", "api", "my_app", "state_sync", "stateSync", "v2"] {
        assert_eq!(event_group(&event_enum_name("Whatever", Some(ns))), ns);
    }
}

#[test]
fn crate_ident_falls_back_to_the_canonical_name() {
    assert_eq!(ttipc::naming::crate_ident(Some(String::from("ttipc"))), "ttipc");
    assert_eq!(ttipc::naming::crate_ident(None), "tauri_typed_ipc");
}

#[test]
fn trigger_name_defaults_to_taurpcs_convention() {
    assert_eq!(ttipc::naming::trigger_name("Api", None), "TauRpcApiEventTrigger");
    assert_eq!(ttipc::naming::trigger_name("Api", Some(String::from("Bus"))), "Bus");
    assert_eq!(ttipc::naming::affixed("TauRpc", "Api", "EventTrigger"), "TauRpcApiEventTrigger");
}

#[test]
fn pascal_case_is_idempotent_on_ascii() {
    for s in ["state_changed", "ev", "__a__b", "already_Pascal", "x1_y2", ""] {
        let once = pascal_case(s);
        assert_eq!(pascal_case(&once), once);
    }
}

#[test]
fn lower_camel_undoes_pascal_case() {
    for s in ["faders", "volumeUp", "greet", "x", ""] {
        assert_eq!(lower_camel(&pascal_case(s)), s);
    }
}
