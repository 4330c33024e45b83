use ttipc::mount::{
    chain_applies, chain_step, factory_applies, factory_step, handler_applies, handler_step, is_mount, roots_in_router_new,
    MountExpr,
};

fn call(path: &[&str], args: Vec<MountExpr>) -> MountExpr {
    MountExpr::Call { path: path.iter().map(|p| String::from(*p)).collect(), args, callee: 0 }
}

fn method(receiver: MountExpr, name: &str, args: Vec<MountExpr>) -> MountExpr {
    MountExpr::Method { receiver: Box::new(receiver), method: String::from(name), args }
}

fn router_new() -> MountExpr {
    call(&["taurpc", "Router", "new"], vec![])
}

fn describe(e: &MountExpr) -> String {
    match e {
        MountExpr::Call { path, args, .. } => {
            format!("{}({})", path.join("::"), args.iter().map(describe).collect::<Vec<_>>().join(", "))
        }
        MountExpr::Method { receiver, method, args } => {
            format!("{}.{}({})", describe(receiver), method, args.iter().map(describe).collect::<Vec<_>>().join(", "))
        }
        MountExpr::Handler(inner) => format!("ttipc::handler({})", describe(inner)),
        MountExpr::Opaque(id) => format!("#{id}"),
    }
}

/// Applies a step to every node, children first, as the rewrite's visit does.
fn bottom_up(e: MountExpr, step: &dyn Fn(MountExpr) -> MountExpr) -> MountExpr {
    let rebuilt = match e {
        MountExpr::Call { path, args, callee } => MountExpr::Call {
            path,
            callee,
            args: args.into_iter().map(|a| bottom_up(a, step)).collect(),
        },
        MountExpr::Method { receiver, method, args } => MountExpr::Method {
            receiver: Box::new(bottom_up(*receiver, step)),
            method,
            args: args.into_iter().map(|a| bottom_up(a, step)).collect(),
        },
        MountExpr::Handler(inner) => MountExpr::Handler(Box::new(bottom_up(*inner, step))),
        other => other,
    };
    step(rebuilt)
}

fn rewrite_mount(e: MountExpr) -> MountExpr {
    let chained = bottom_up(e, &chain_step);
    bottom_up(chained, &handler_step)
}

#[test]
fn rewrites_router_mount() {
    // Router::new().export_config(cfg).merge(Api.into_handler()).merge(Ui.into_handler()).into_handler()
    let chain = method(
        method(
            method(
                method(router_new(), "export_config", vec![MountExpr::Opaque(0)]),
                "merge",
                vec![method(MountExpr::Opaque(1), "into_handler", vec![])],
            ),
            "merge",
            vec![method(MountExpr::Opaque(2), "into_handler", vec![])],
        ),
        "into_handler",
        vec![],
    );
    assert!(roots_in_router_new(&chain));
    let out = rewrite_mount(chain);
    assert_eq!(describe(&out), "ttipc::handler(#1.into_procedures().merge(#2.into_procedures()))");
}

#[test]
fn rewrites_create_ipc_handler() {
    let mount = call(&["taurpc", "create_ipc_handler"], vec![method(MountExpr::Opaque(1), "into_handler", vec![])]);
    assert!(is_mount(&mount));
    assert_eq!(describe(&rewrite_mount(mount)), "ttipc::handler(#1.into_procedures())");
}

#[test]
fn leaves_non_taurpc_calls_alone() {
    let other = method(call(&["Other", "new"], vec![]), "merge", vec![MountExpr::Opaque(3)]);
    assert!(!is_mount(&other));
    assert!(!roots_in_router_new(&other));
    assert_eq!(describe(&chain_step(other)), "Other::new().merge(#3)");
    assert!(is_mount(&router_new()));
    assert!(!is_mount(&MountExpr::Opaque(0)));
}

#[test]
fn rewrites_cross_file_factory_consumer() {
    let factories = vec![String::from("build")];
    let consumer = method(call(&["router", "build"], vec![]), "into_handler", vec![]);
    assert_eq!(describe(&factory_step(consumer, &factories)), "ttipc::handler(router::build())");
    let unrelated = method(call(&["other"], vec![]), "into_handler", vec![]);
    assert_eq!(describe(&factory_step(unrelated, &factories)), "other().into_handler()");
    let not_a_call = method(MountExpr::Opaque(4), "into_handler", vec![]);
    assert_eq!(describe(&factory_step(not_a_call, &factories)), "#4.into_handler()");
}

#[test]
fn router_factory_with_builder_methods_collapses_to_its_merges() {
    // Router::new().dangerously_cast_bigints_to_number().merge(A.into_handler())
    let body = method(
        method(router_new(), "dangerously_cast_bigints_to_number", vec![]),
        "merge",
        vec![method(MountExpr::Opaque(1), "into_handler", vec![])],
    );
    assert_eq!(describe(&rewrite_mount(body)), "#1.into_procedures()");
}

#[test]
fn only_mount_nodes_are_rewritten() {
    let merge_on_router = method(router_new(), "merge", vec![MountExpr::Opaque(1)]);
    assert!(chain_applies(&merge_on_router));
    let plain_merge = method(MountExpr::Opaque(0), "merge", vec![MountExpr::Opaque(1)]);
    assert!(!chain_applies(&plain_merge));
    let renamed_merge = method(MountExpr::Opaque(0), "merge", vec![method(MountExpr::Opaque(1), "into_handler", vec![])]);
    assert!(chain_applies(&renamed_merge));
    let builder = method(router_new(), "export_config", vec![MountExpr::Opaque(2)]);
    assert!(chain_applies(&builder));
    let procedures = method(router_new(), "into_procedures", vec![]);
    assert!(!chain_applies(&procedures));
    assert!(chain_applies(&call(&["create_ipc_handler"], vec![MountExpr::Opaque(0)])));
    assert!(!chain_applies(&call(&["create_ipc_handler"], vec![])));
    assert!(handler_applies(&method(MountExpr::Opaque(0), "into_handler", vec![])));
    assert!(!handler_applies(&method(MountExpr::Opaque(0), "into_procedures", vec![])));
    let factories = vec![String::from("build")];
    assert!(factory_applies(&method(call(&["build"], vec![]), "into_handler", vec![]), &factories));
    assert!(!factory_applies(&method(call(&["other"], vec![]), "into_handler", vec![]), &factories));
}
