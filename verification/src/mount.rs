//! Rewriting a TauRPC mount into ttipc's: the `Router::new()` builder chain
//! collapses to the merged procedure sets, `create_ipc_handler(..)` and every
//! leftover `.into_handler()` become `ttipc::handler(..)`, and a call of a
//! known Router factory followed by `.into_handler()` becomes
//! `ttipc::handler(factory(..))`. Expressions are read into the shape below;
//! each rewrite step applies to one node whose children were already
//! rewritten, as a bottom-up visit does.

use vstd::prelude::*;
use crate::codemod::is_router_new;
use crate::text::{owned, same_text};

verus! {

/// An expression, as far as the mount rewrite reads it.
pub enum MountExpr {
    /// A call whose callee is a path: the identifiers of the path's segments,
    /// the arguments, and the callee itself by an id into the caller's own
    /// table (carried through unchanged).
    Call { path: Vec<String>, args: Vec<MountExpr>, callee: usize },
    /// `receiver.method(args)`.
    Method { receiver: Box<MountExpr>, method: String, args: Vec<MountExpr> },
    /// `ttipc::handler(inner)`, as the rewrite produces it.
    Handler(Box<MountExpr>),
    /// Any other expression, by an id into the caller's own table; left as
    /// it is.
    Opaque(usize),
}

/// Whether a path's segments end in `Router::new`.
pub open spec fn router_new_path(path: Seq<String>) -> bool {
    path.len() >= 2 && path.last()@ == "new"@ && path[path.len() - 2]@ == "Router"@
}

/// A `<..>::Router::new(..)` call, the TauRPC router constructor.
pub open spec fn is_router_new_expr(e: MountExpr) -> bool {
    match e {
        MountExpr::Call { path, .. } => router_new_path(path@),
        _ => false,
    }
}

/// Whether the receiver chain of `e` roots in `Router::new()`
/// (`Router::new().a().b()` does).
pub open spec fn roots_in_router_new_spec(e: MountExpr) -> bool
    decreases e,
{
    if is_router_new_expr(e) {
        true
    } else {
        match e {
            MountExpr::Method { receiver, .. } => roots_in_router_new_spec(*receiver),
            _ => false,
        }
    }
}

/// A call of a path whose last segment is `name`.
pub open spec fn calls_path_ending(e: MountExpr, name: Seq<char>) -> bool {
    match e {
        MountExpr::Call { path, .. } => path@.len() > 0 && path@.last()@ == name,
        _ => false,
    }
}

/// A method call named `name`.
pub open spec fn method_named(e: MountExpr, name: Seq<char>) -> bool {
    match e {
        MountExpr::Method { method, .. } => method@ == name,
        _ => false,
    }
}

/// `b` is the method call `a` under the name `name`: same receiver, same
/// arguments.
pub open spec fn renamed_call(a: MountExpr, b: MountExpr, name: Seq<char>) -> bool {
    match (a, b) {
        (MountExpr::Method { receiver: r1, args: a1, .. }, MountExpr::Method { receiver: r2, method: m2, args: a2 }) =>
            r1 == r2 && a1 == a2 && m2@ == name,
        _ => false,
    }
}

/// `out` is `args` with a leading `X.into_handler()` renamed
/// `X.into_procedures()`; any other argument list is kept.
pub open spec fn renamed_first_ok(args: Seq<MountExpr>, out: Seq<MountExpr>) -> bool {
    if args.len() > 0 && method_named(args[0], "into_handler"@) {
        &&& out.len() == args.len()
        &&& out.skip(1) == args.skip(1)
        &&& renamed_call(args[0], out[0], "into_procedures"@)
    } else {
        out == args
    }
}

/// Whether a node is a TauRPC mount: a `Router::new()` call or a
/// `create_ipc_handler(..)` call.
pub open spec fn is_mount_spec(e: MountExpr) -> bool {
    is_router_new_expr(e) || calls_path_ending(e, "create_ipc_handler"@)
}

/// One step of the chain pass on a node whose children are rewritten:
/// `Router::new().merge(X.into_handler())` becomes `X.into_procedures()`, a
/// later `.merge(Y.into_handler())` becomes `.merge(Y.into_procedures())`,
/// any other builder method on a `Router::new()` chain (but `into_handler` and
/// `into_procedures`) is dropped, and `create_ipc_handler(X.into_handler())`
/// becomes `ttipc::handler(X.into_procedures())`.
pub open spec fn chain_step_ok(e: MountExpr, r: MountExpr) -> bool {
    match e {
        MountExpr::Method { receiver, method, args } => if method@ == "merge"@ {
            exists|a2: Seq<MountExpr>| #[trigger] renamed_first_ok(args@, a2) && if is_router_new_expr(*receiver) && a2.len() > 0 {
                r == a2[0]
            } else {
                r matches MountExpr::Method { receiver: r2, method: m2, args: ra } && r2 == receiver && m2 == method && ra@ == a2
            }
        } else if roots_in_router_new_spec(*receiver) && method@ != "into_handler"@ && method@ != "into_procedures"@ {
            r == *receiver
        } else {
            r == e
        },
        MountExpr::Call { path, args, callee } => if path@.len() > 0 && path@.last()@ == "create_ipc_handler"@ {
            exists|a2: Seq<MountExpr>| #[trigger] renamed_first_ok(args@, a2) && if a2.len() > 0 {
                r matches MountExpr::Handler(h) && *h == a2[0]
            } else {
                r matches MountExpr::Call { path: p2, args: ra, callee: c2 } && p2 == path && c2 == callee && ra@ == a2
            }
        } else {
            r == e
        },
        _ => r == e,
    }
}

/// Whether the chain pass rewrites a node (any other node is left as it
/// is): a `merge` whose first argument is an `.into_handler()` or whose
/// receiver is `Router::new()`, any other method on a `Router::new()` chain
/// but `into_handler` and `into_procedures`, and a `create_ipc_handler` call
/// with an argument.
pub open spec fn chain_applies_spec(e: MountExpr) -> bool {
    match e {
        MountExpr::Method { receiver, method, args } => if method@ == "merge"@ {
            args@.len() > 0 && (method_named(args@[0], "into_handler"@) || is_router_new_expr(*receiver))
        } else {
            roots_in_router_new_spec(*receiver) && method@ != "into_handler"@ && method@ != "into_procedures"@
        },
        MountExpr::Call { path, args, .. } => path@.len() > 0 && path@.last()@ == "create_ipc_handler"@ && args@.len() > 0,
        _ => false,
    }
}

/// One step of the handler pass: a leftover `<router>.into_handler()`
/// becomes `ttipc::handler(<router>)`.
pub open spec fn handler_step_ok(e: MountExpr, r: MountExpr) -> bool {
    match e {
        MountExpr::Method { receiver, method, .. } => if method@ == "into_handler"@ {
            r matches MountExpr::Handler(h) && *h == *receiver
        } else {
            r == e
        },
        _ => r == e,
    }
}

/// One step of the factory-consumer rewrite: `factory(..).into_handler()`
/// for a known Router factory becomes `ttipc::handler(factory(..))`.
pub open spec fn factory_step_ok(e: MountExpr, factories: Set<Seq<char>>, r: MountExpr) -> bool {
    match e {
        MountExpr::Method { receiver, method, .. } => if method@ == "into_handler"@ && (match *receiver {
            MountExpr::Call { path, .. } => path@.len() > 0 && factories.contains(path@.last()@),
            _ => false,
        }) {
            r matches MountExpr::Handler(h) && *h == *receiver
        } else {
            r == e
        },
        _ => r == e,
    }
}

/// Whether a node is a `Router::new()` call.
pub fn is_router_call(e: &MountExpr) -> (r: bool)
    ensures
        r == is_router_new_expr(*e),
{
    match e {
        MountExpr::Call { path, .. } => is_router_new(path),
        _ => false,
    }
}

/// Whether the last segment of a call's path is `name`.
fn path_ends_with(path: &Vec<String>, name: &str) -> (r: bool)
    ensures
        r == (path@.len() > 0 && path@.last()@ == name@),
{
    path.len() > 0 && same_text(path[path.len() - 1].as_str(), name)
}

/// Whether the receiver chain of `e` roots in `Router::new()`.
pub fn roots_in_router_new(e: &MountExpr) -> (r: bool)
    ensures
        r == roots_in_router_new_spec(*e),
    decreases e,
{
    if is_router_call(e) {
        return true;
    }
    match e {
        MountExpr::Method { receiver, .. } => roots_in_router_new(receiver),
        _ => false,
    }
}

/// Whether a node is a TauRPC mount (a `Router::new()` or
/// `create_ipc_handler(..)` call); a file is rewritten only when it holds one.
pub fn is_mount(e: &MountExpr) -> (r: bool)
    ensures
        r == is_mount_spec(*e),
{
    if is_router_call(e) {
        return true;
    }
    match e {
        MountExpr::Call { path, .. } => path_ends_with(path, "create_ipc_handler"),
        _ => false,
    }
}

/// Whether a node is a method call named `name`.
fn is_method_named(e: &MountExpr, name: &str) -> (r: bool)
    ensures
        r == method_named(*e, name@),
{
    match e {
        MountExpr::Method { method, .. } => same_text(method.as_str(), name),
        _ => false,
    }
}

/// Renames a leading `X.into_handler()` argument to `X.into_procedures()`.
fn rename_first(args: Vec<MountExpr>) -> (out: Vec<MountExpr>)
    ensures
        renamed_first_ok(args@, out@),
{
    if args.len() > 0 && is_method_named(&args[0], "into_handler") {
        let mut out = args;
        let first = out.remove(0);
        let renamed = match first {
            MountExpr::Method { receiver, method: _, args: a } => MountExpr::Method {
                receiver,
                method: owned("into_procedures"),
                args: a,
            },
            other => other,
        };
        out.insert(0, renamed);
        assert(out@.skip(1) =~= args@.skip(1));
        out
    } else {
        args
    }
}

/// The chain pass on one node whose children are already rewritten.
pub fn chain_step(e: MountExpr) -> (r: MountExpr)
    ensures
        chain_step_ok(e, r),
{
    match e {
        MountExpr::Method { receiver, method, args } => {
            if same_text(method.as_str(), "merge") {
                let ghost old_args = args@;
                let args2 = rename_first(args);
                let ghost a2 = args2@;
                assert(renamed_first_ok(old_args, a2));
                if is_router_call(&receiver) && args2.len() > 0 {
                    let mut rest = args2;
                    rest.remove(0)
                } else {
                    MountExpr::Method { receiver, method, args: args2 }
                }
            } else if roots_in_router_new(&receiver) && !same_text(method.as_str(), "into_handler")
                && !same_text(method.as_str(), "into_procedures") {
                *receiver
            } else {
                MountExpr::Method { receiver, method, args }
            }
        },
        MountExpr::Call { path, args, callee } => {
            if path_ends_with(&path, "create_ipc_handler") {
                let ghost old_args = args@;
                let args2 = rename_first(args);
                let ghost a2 = args2@;
                assert(renamed_first_ok(old_args, a2));
                if args2.len() > 0 {
                    let mut rest = args2;
                    let first = rest.remove(0);
                    MountExpr::Handler(Box::new(first))
                } else {
                    MountExpr::Call { path, args: args2, callee }
                }
            } else {
                MountExpr::Call { path, args, callee }
            }
        },
        other => other,
    }
}

/// Whether the chain pass rewrites this node.
pub fn chain_applies(e: &MountExpr) -> (r: bool)
    ensures
        r == chain_applies_spec(*e),
{
    match e {
        MountExpr::Method { receiver, method, args } => if same_text(method.as_str(), "merge") {
            args.len() > 0 && (is_method_named(&args[0], "into_handler") || is_router_call(receiver))
        } else {
            roots_in_router_new(receiver) && !same_text(method.as_str(), "into_handler")
                && !same_text(method.as_str(), "into_procedures")
        },
        MountExpr::Call { path, args, .. } => path_ends_with(path, "create_ipc_handler") && args.len() > 0,
        _ => false,
    }
}

/// Whether the handler pass rewrites this node: a method call named
/// `into_handler`.
pub fn handler_applies(e: &MountExpr) -> (r: bool)
    ensures
        r == method_named(*e, "into_handler"@),
{
    is_method_named(e, "into_handler")
}

/// The handler pass on one node: a leftover `.into_handler()` becomes
/// `ttipc::handler(..)` of its receiver.
pub fn handler_step(e: MountExpr) -> (r: MountExpr)
    ensures
        handler_step_ok(e, r),
{
    match e {
        MountExpr::Method { receiver, method, args } => {
            if same_text(method.as_str(), "into_handler") {
                MountExpr::Handler(receiver)
            } else {
                MountExpr::Method { receiver, method, args }
            }
        },
        other => other,
    }
}

/// Whether `name` is among `names`.
fn listed(names: &Vec<String>, name: &str) -> (r: bool)
    ensures
        r == names@.map_values(|s: String| s@).contains(name@),
{
    let mut i: usize = 0;
    while i < names.len()
        invariant
            i <= names@.len(),
            forall|k: int| 0 <= k < i ==> names@[k]@ != name@,
        decreases names.len() - i,
    {
        if same_text(names[i].as_str(), name) {
            assert(names@.map_values(|s: String| s@)[i as int] == name@);
            return true;
        }
        i += 1;
    }
    false
}

/// Whether the factory-consumer rewrite applies to this node:
/// `factory(..).into_handler()` for a factory among `factories`.
pub fn factory_applies(e: &MountExpr, factories: &Vec<String>) -> (r: bool)
    ensures
        r == (method_named(*e, "into_handler"@) && match *e {
            MountExpr::Method { receiver, .. } => match *receiver {
                MountExpr::Call { path, .. } => path@.len() > 0
                    && factories@.map_values(|s: String| s@).to_set().contains(path@.last()@),
                _ => false,
            },
            _ => false,
        }),
{
    match e {
        MountExpr::Method { receiver, method, .. } => {
            let known = match &**receiver {
                MountExpr::Call { path, .. } => path.len() > 0 && listed(factories, path[path.len() - 1].as_str()),
                _ => false,
            };
            same_text(method.as_str(), "into_handler") && known
        },
        _ => false,
    }
}

/// The factory-consumer rewrite on one node: `factory(..).into_handler()`,
/// for a factory among `factories`, becomes `ttipc::handler(factory(..))`.
pub fn factory_step(e: MountExpr, factories: &Vec<String>) -> (r: MountExpr)
    ensures
        factory_step_ok(e, factories@.map_values(|s: String| s@).to_set(), r),
{
    match e {
        MountExpr::Method { receiver, method, args } => {
            let known = match &*receiver {
                MountExpr::Call { path, .. } => path.len() > 0 && listed(factories, path[path.len() - 1].as_str()),
                _ => false,
            };
            if same_text(method.as_str(), "into_handler") && known {
                MountExpr::Handler(receiver)
            } else {
                MountExpr::Method { receiver, method, args }
            }
        },
        other => other,
    }
}

} // verus!
