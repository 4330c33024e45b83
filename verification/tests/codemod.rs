use ttipc::codemod::{plan_struct_attrs, StructAttrAction};
use ttipc::codemod::{
    custom_trigger_of, has_injected_param, has_taurpc_attr, is_injected_ty, is_item_level, is_namespace_arg,
    is_router_new, is_taurpc_attr, is_taurpc_helper, namespace_of, receiver_fix, trigger_of_new, type_rewrite, ArgValue,
    AttrArg, AttrShape, FirstInput, ItemShape, ReceiverFix, TypeRewrite,
};
use ttipc::registry::{EventMethodShape, EventRegistry, FileFacts, TraitEvents};

fn strings(parts: &[&str]) -> Vec<String> {
    parts.iter().map(|p| String::from(*p)).collect()
}

fn attr(path: &[&str], args: Option<Vec<AttrArg>>) -> AttrShape {
    AttrShape {
        segments: strings(path),
        plain_ident: if path.len() == 1 { Some(String::from(path[0])) } else { None },
        args,
    }
}

fn kv(key: &str, value: ArgValue) -> AttrArg {
    AttrArg { key: Some(String::from(key)), name_value: true, value }
}

fn flag(key: &str) -> AttrArg {
    AttrArg { key: Some(String::from(key)), name_value: false, value: ArgValue::Other }
}

#[test]
fn taurpc_attributes_are_rooted_or_bare() {
    assert!(is_taurpc_attr(&attr(&["taurpc", "procedures"], None), "procedures"));
    assert!(is_taurpc_attr(&attr(&["procedures"], None), "procedures"));
    assert!(!is_taurpc_attr(&attr(&["other", "procedures"], None), "procedures"));
    assert!(!is_taurpc_attr(&attr(&["taurpc", "resolvers"], None), "procedures"));
    assert!(!is_taurpc_attr(&attr(&[], None), "procedures"));
    let attrs = vec![attr(&["derive"], None), attr(&["taurpc", "resolvers"], None)];
    assert!(has_taurpc_attr(&attrs, "resolvers"));
    assert!(!has_taurpc_attr(&attrs, "procedures"));
}

#[test]
fn attr_keeps_only_the_namespace() {
    let args = vec![
        kv("export_to", ArgValue::Str(String::from("../bindings.ts"))),
        kv("path", ArgValue::Str(String::from("api.ui"))),
        kv("event_trigger", ArgValue::Path(Some(String::from("UiBus")))),
    ];
    assert!(!is_namespace_arg(&args[0]));
    assert!(is_namespace_arg(&args[1]));
    assert!(!is_namespace_arg(&args[2]));
    assert_eq!(namespace_of(&args), Some(String::from("api.ui")));
    assert_eq!(custom_trigger_of(&args), Some(String::from("UiBus")));
    assert_eq!(namespace_of(&vec![kv("namespace", ArgValue::Other)]), None);
    assert_eq!(custom_trigger_of(&vec![kv("event_trigger", ArgValue::Str(String::from("X")))]), None);
}

#[test]
fn helper_attributes_name_their_flag() {
    let event = attr(&["taurpc"], Some(vec![flag("event")]));
    let alias = attr(&["taurpc"], Some(vec![kv("alias", ArgValue::Str(String::from("x")))]));
    assert!(is_taurpc_helper(&event, "event"));
    assert!(!is_taurpc_helper(&event, "alias"));
    assert!(is_taurpc_helper(&alias, "alias"));
    assert!(!is_taurpc_helper(&attr(&["taurpc", "event"], Some(vec![flag("event")])), "event"));
    assert!(!is_taurpc_helper(&attr(&["taurpc"], None), "event"));
}

#[test]
fn receivers_become_shared_references() {
    assert_eq!(receiver_fix(FirstInput::Nothing), ReceiverFix::Insert);
    assert_eq!(receiver_fix(FirstInput::Typed), ReceiverFix::Insert);
    assert_eq!(receiver_fix(FirstInput::SelfByValue), ReceiverFix::Replace);
    assert_eq!(receiver_fix(FirstInput::SelfByRef), ReceiverFix::Keep);
}

#[test]
fn bares_window_params_and_handles() {
    assert_eq!(type_rewrite(Some("AppHandle")), TypeRewrite::BareHandle);
    assert_eq!(type_rewrite(Some("Window")), TypeRewrite::BareWindow);
    assert_eq!(type_rewrite(Some("WebviewWindow")), TypeRewrite::BareWindow);
    assert_eq!(type_rewrite(Some("Channel")), TypeRewrite::WrapChannel);
    assert_eq!(type_rewrite(Some("String")), TypeRewrite::Keep);
    assert_eq!(type_rewrite(None), TypeRewrite::Keep);
}

#[test]
fn injected_types_and_async_injection() {
    for t in ["AppHandle", "State", "Window", "WebviewWindow"] {
        assert!(is_injected_ty(Some(t)));
    }
    assert!(!is_injected_ty(Some("Channel")));
    assert!(!is_injected_ty(None));
    assert!(has_injected_param(&vec![None, Some(String::from("State"))]));
    assert!(!has_injected_param(&vec![Some(String::from("Window")), None]));
}

#[test]
fn triggers_and_routers_by_their_paths() {
    assert_eq!(trigger_of_new(&strings(&["TauRpcApiEventTrigger", "new"])), Some(String::from("TauRpcApiEventTrigger")));
    assert_eq!(trigger_of_new(&strings(&["crate", "Bus", "new"])), Some(String::from("Bus")));
    assert_eq!(trigger_of_new(&strings(&["new"])), None);
    assert_eq!(trigger_of_new(&strings(&["Bus", "build"])), None);
    assert!(is_router_new(&strings(&["taurpc", "Router", "new"])));
    assert!(is_router_new(&strings(&["Router", "new"])));
    assert!(!is_router_new(&strings(&["Router"])));
    assert!(!is_router_new(&strings(&["Other", "new"])));
}

#[test]
fn item_level_items_are_re_emitted_whole() {
    let payload = TraitEvents {
        trait_name: String::from("Api"),
        namespace: Some(String::from("app")),
        custom_trigger: None,
        event_methods: vec![EventMethodShape {
            name: String::from("event"),
            params: vec![(Some(String::from("event")), Some(String::from("AppEvent")))],
        }],
    };
    let registry = EventRegistry::from_files(&vec![FileFacts {
        enums: strings(&["AppEvent"]),
        router_factories: vec![],
        traits: vec![payload],
    }]);
    let procedures = ItemShape::Trait { attrs: vec![attr(&["taurpc", "procedures"], None)] };
    let plain_trait = ItemShape::Trait { attrs: vec![] };
    let resolvers = ItemShape::Impl { attrs: vec![attr(&["taurpc", "resolvers"], None)] };
    let dto = ItemShape::Struct { attrs: vec![attr(&["taurpc", "ipc_type"], None)] };
    assert!(is_item_level(&procedures, &registry));
    assert!(!is_item_level(&plain_trait, &registry));
    assert!(is_item_level(&resolvers, &registry));
    assert!(is_item_level(&dto, &registry));
    assert!(is_item_level(&ItemShape::Enum { name: String::from("AppEvent") }, &registry));
    assert!(!is_item_level(&ItemShape::Enum { name: String::from("Other") }, &registry));
    assert!(is_item_level(&ItemShape::Fn { has_mount: true }, &registry));
    assert!(!is_item_level(&ItemShape::Fn { has_mount: false }, &registry));
    assert!(!is_item_level(&ItemShape::Other, &registry));
}

fn sig(name: &str, is_async: bool, has_generics: bool, returns_result: bool, first: FirstInput, types: &[Option<&str>]) -> ttipc::codemod::SigShape {
    ttipc::codemod::SigShape {
        name: String::from(name),
        is_async,
        has_generics,
        returns_result,
        first,
        param_types: types.iter().map(|t| t.map(String::from)).collect(),
    }
}

#[test]
fn trait_signature_transform() {
    // `async fn greet<R: Runtime>(app: AppHandle<R>, name: String) -> Result<String, E>;`
    let mut f = ttipc::findings::Findings::none();
    let s = sig("greet", true, true, true, FirstInput::Typed, &[Some("AppHandle"), Some("String")]);
    let plan = ttipc::codemod::rewrite_signature(&s, &vec![String::from("greet")], &mut f);
    assert_eq!(plan.receiver, ReceiverFix::Insert);
    assert_eq!(plan.types, vec![TypeRewrite::BareHandle, TypeRewrite::Keep]);
    assert!(plan.make_sync);
    assert!(f.dropped_generics && f.result_returns && f.deasynced);
    assert!(!f.async_injection && !f.window_param && !f.channels && !f.transformed);
}

#[test]
fn flags_async_procedure_that_keeps_apphandle() {
    // A resolver `async fn save(self, app: AppHandle, w: Window, c: Channel<u8>)` that stays async.
    let mut f = ttipc::findings::Findings::none();
    let s = sig(
        "save",
        true,
        false,
        false,
        FirstInput::SelfByValue,
        &[Some("AppHandle"), Some("Window"), Some("Channel"), None],
    );
    let plan = ttipc::codemod::rewrite_signature(&s, &vec![String::from("other")], &mut f);
    assert_eq!(plan.receiver, ReceiverFix::Replace);
    assert_eq!(
        plan.types,
        vec![TypeRewrite::BareHandle, TypeRewrite::BareWindow, TypeRewrite::WrapChannel, TypeRewrite::Keep]
    );
    assert!(!plan.make_sync);
    assert!(f.async_injection && f.window_param && f.channels);
    assert!(!f.deasynced && !f.dropped_generics && !f.result_returns);
}

#[test]
fn a_sync_method_is_left_sync_and_unflagged() {
    let mut f = ttipc::findings::Findings { transformed: true, ..ttipc::findings::Findings::none() };
    let s = sig("get", false, false, false, FirstInput::SelfByRef, &[Some("State")]);
    let plan = ttipc::codemod::rewrite_signature(&s, &vec![String::from("get")], &mut f);
    assert_eq!(plan.receiver, ReceiverFix::Keep);
    assert!(!plan.make_sync);
    assert!(f == ttipc::findings::Findings { transformed: true, ..ttipc::findings::Findings::none() });
}

#[test]
fn struct_ipc_type_is_converted_or_dropped() {
    let attrs = vec![attr(&["derive"], None), attr(&["taurpc", "ipc_type"], None), attr(&["doc"], None)];
    let (actions, converted) = plan_struct_attrs(false, &attrs);
    assert!(converted);
    assert!(matches!(actions[..], [StructAttrAction::Keep, StructAttrAction::Derive, StructAttrAction::Keep]));
    let (actions, converted) = plan_struct_attrs(true, &attrs);
    assert!(!converted);
    assert!(matches!(actions[..], [StructAttrAction::Keep, StructAttrAction::Drop, StructAttrAction::Keep]));
    let (actions, converted) = plan_struct_attrs(false, &vec![attr(&["derive"], None)]);
    assert!(!converted && matches!(actions[..], [StructAttrAction::Keep]));
}
