use ttipc::deasync::{classify_await, deasyncable, self_call_method, strips_await, AsyncMethod, AwaitBase};

fn m(name: &str, blocking: bool, awaited: &[&str]) -> AsyncMethod {
    AsyncMethod {
        name: String::from(name),
        blocking,
        awaited: awaited.iter().map(|a| String::from(*a)).collect(),
    }
}

fn sorted(mut v: Vec<String>) -> Vec<String> {
    v.sort();
    v
}

#[test]
fn deasyncs_methods_without_await() {
    let ms = vec![m("ping", false, &[]), m("fetch", true, &[])];
    assert_eq!(deasyncable(&ms), vec![String::from("ping")]);
}

#[test]
fn deasync_is_transitive_through_sibling_awaits() {
    // `outer` awaits `inner`, which does no real async work: both go sync.
    let ms = vec![m("outer", false, &["inner"]), m("inner", false, &[])];
    assert_eq!(sorted(deasyncable(&ms)), vec![String::from("inner"), String::from("outer")]);
}

#[test]
fn a_blocking_sibling_keeps_its_callers_async() {
    // `a` awaits `b` awaits `c`, and `c` blocks: none goes sync; `d` does.
    let ms = vec![m("a", false, &["b"]), m("b", false, &["c"]), m("c", true, &[]), m("d", false, &[])];
    assert_eq!(deasyncable(&ms), vec![String::from("d")]);
}

#[test]
fn awaiting_an_unknown_method_keeps_a_method_async() {
    let ms = vec![m("a", false, &["elsewhere"])];
    assert!(deasyncable(&ms).is_empty());
}

#[test]
fn mutually_awaiting_methods_go_sync_together() {
    let ms = vec![m("a", false, &["b"]), m("b", false, &["a"])];
    assert_eq!(sorted(deasyncable(&ms)), vec![String::from("a"), String::from("b")]);
    assert!(deasyncable(&Vec::new()).is_empty());
}


fn on(receiver: Option<&str>, method: &str) -> AwaitBase {
    AwaitBase::MethodOnPath { receiver_last: receiver.map(String::from), method: String::from(method) }
}

#[test]
fn awaits_on_self_or_the_own_type_name_a_sibling() {
    assert_eq!(self_call_method(&on(Some("self"), "sync_buffer"), None), Some(String::from("sync_buffer")));
    assert_eq!(self_call_method(&on(Some("Endpoint"), "sync_buffer"), Some("Endpoint")), Some(String::from("sync_buffer")));
    assert_eq!(self_call_method(&on(Some("client"), "fetch"), Some("Endpoint")), None);
    assert_eq!(self_call_method(&on(None, "fetch"), None), None);
    assert_eq!(self_call_method(&AwaitBase::Other, Some("Endpoint")), None);
}

#[test]
fn deasync_is_transitive_and_strips_sibling_awaits() {
    let siblings = vec![String::from("inner"), String::from("outer")];
    assert_eq!(classify_await(&on(Some("self"), "inner"), None, &siblings), Some(String::from("inner")));
    // A call on another value, or to a non-sibling, is a real future.
    assert_eq!(classify_await(&on(Some("other"), "inner"), None, &siblings), None);
    assert_eq!(classify_await(&on(Some("self"), "helper"), None, &siblings), None);
    let made_sync = vec![String::from("inner")];
    assert!(strips_await(&on(Some("self"), "inner"), None, &made_sync));
    assert!(!strips_await(&on(Some("self"), "outer"), None, &made_sync));
    assert!(!strips_await(&AwaitBase::Other, None, &made_sync));
}
