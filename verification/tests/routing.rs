use ttipc::invoke::{invoke_step, InvokeStep};
use ttipc::routing::Procedures;

#[test]
fn a_new_set_routes_every_call_to_its_dispatcher() {
    let set = Procedures::new(&["greet", "hits"], "greeter");
    assert_eq!(set.names(), &["greet", "hits"]);
    assert!(set.contains("greet"));
    assert!(!set.contains("nope"));
    assert_eq!(*set.route("greet"), "greeter");
    assert_eq!(*set.route("nope"), "greeter");
}

#[test]
fn merged_sets_answer_to_both_and_route_by_owner() {
    let a = Procedures::new(&["greet", "hits"], "a");
    let b = Procedures::new(&["save", "api.greet"], "b");
    assert_eq!(a.shared_name(&b), None);
    let merged = a.merge(b);
    assert_eq!(merged.names(), &["greet", "hits", "save", "api.greet"]);
    assert_eq!(*merged.route("greet"), "a");
    assert_eq!(*merged.route("hits"), "a");
    assert_eq!(*merged.route("save"), "b");
    assert_eq!(*merged.route("api.greet"), "b");
    // An unknown name reaches the last set, which answers it as unknown.
    assert_eq!(*merged.route("nope"), "b");
}

#[test]
fn three_sets_merge_left_to_right() {
    let merged = Procedures::new(&["a"], 1)
        .merge(Procedures::new(&["b"], 2))
        .merge(Procedures::new(&["c"], 3));
    assert_eq!(merged.names(), &["a", "b", "c"]);
    assert_eq!(*merged.route("a"), 1);
    assert_eq!(*merged.route("b"), 2);
    assert_eq!(*merged.route("c"), 3);
    assert_eq!(*merged.route("d"), 3);
}

#[test]
fn a_shared_name_is_found_before_merging() {
    let a = Procedures::new(&["greet", "hits"], ());
    let b = Procedures::new(&["save", "hits", "greet"], ());
    assert_eq!(a.shared_name(&b), Some("hits"));
}

#[test]
fn the_handler_falls_back_refuses_raw_bodies_and_dispatches() {
    let set = Procedures::new(&["greet"], ());
    assert_eq!(invoke_step(&set, "raw_command", true), InvokeStep::Fallback);
    assert_eq!(invoke_step(&set, "raw_command", false), InvokeStep::Fallback);
    assert_eq!(invoke_step(&set, "greet", false), InvokeStep::RejectRawBody);
    assert_eq!(invoke_step(&set, "greet", true), InvokeStep::Dispatch);
}
