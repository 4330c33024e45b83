//! The syntactic decisions of the TauRPC migration: which attributes are
//! TauRPC's, what their arguments name, how a resolver signature is
//! rewritten, and which expressions are TauRPC mounts and triggers. The
//! syntax tree is read into the plain shapes below; the tree itself is
//! rewritten by the caller along these decisions.

use vstd::prelude::*;
use crate::text::{same_text, string_views};
use crate::registry::EventRegistry;
use crate::findings::Findings;

verus! {

/// One argument of an attribute list, `key = value` or a bare path.
pub struct AttrArg {
    /// The argument's path when it is a single plain identifier.
    pub key: Option<String>,
    /// Whether the argument is `key = value`.
    pub name_value: bool,
    pub value: ArgValue,
}

/// The value of a `key = value` argument.
pub enum ArgValue {
    /// A string literal.
    Str(String),
    /// A path expression; the identifier of its last segment.
    Path(Option<String>),
    Other,
}

/// An attribute.
pub struct AttrShape {
    /// The identifiers of the attribute path's segments.
    pub segments: Vec<String>,
    /// The path when it is a single plain identifier.
    pub plain_ident: Option<String>,
    /// The parsed argument list; `None` when the attribute has no list or the
    /// list does not parse as comma-separated meta items.
    pub args: Option<Vec<AttrArg>>,
}

/// Whether an optional identifier is `word`.
pub open spec fn ident_is(o: Option<String>, word: Seq<char>) -> bool {
    match o {
        Some(s) => s@ == word,
        None => false,
    }
}

fn opt_is(o: &Option<String>, word: &str) -> (r: bool)
    ensures
        r == ident_is(*o, word@),
{
    match o {
        Some(s) => same_text(s.as_str(), word),
        None => false,
    }
}

/// A `#[taurpc::<name>(..)]` attribute, or a bare imported `#[<name>(..)]`:
/// its last segment is `name`, and it is rooted in `taurpc` or has a single
/// segment.
pub open spec fn taurpc_attr_spec(segments: Seq<Seq<char>>, name: Seq<char>) -> bool {
    &&& segments.len() > 0
    &&& segments.last() == name
    &&& (segments[0] == "taurpc"@ || segments.len() == 1)
}

/// Whether the attribute is TauRPC's `name` attribute.
pub fn is_taurpc_attr(attr: &AttrShape, name: &str) -> (r: bool)
    ensures
        r == taurpc_attr_spec(string_views(attr.segments@), name@),
{
    let n: usize = attr.segments.len();
    if n == 0 {
        return false;
    }
    let last_matches = same_text(attr.segments[n - 1].as_str(), name);
    let rooted = same_text(attr.segments[0].as_str(), "taurpc");
    last_matches && (rooted || n == 1)
}

/// Whether an argument key is `path` or `namespace` (the namespace knob,
/// under taurpc's and this crate's spelling).
pub open spec fn namespace_key(key: Option<String>) -> bool {
    ident_is(key, "path"@) || ident_is(key, "namespace"@)
}

/// Whether an argument is the namespace knob; the migrated attribute keeps
/// only these.
pub fn is_namespace_arg(arg: &AttrArg) -> (r: bool)
    ensures
        r == namespace_key(arg.key),
{
    opt_is(&arg.key, "path") || opt_is(&arg.key, "namespace")
}

/// Whether `arg` names a namespace: `path`/`namespace` set to a string.
pub open spec fn names_namespace(arg: AttrArg) -> bool {
    arg.name_value && namespace_key(arg.key) && arg.value is Str
}

/// The namespace string of a `#[taurpc::procedures(..)]` argument list: the
/// first `path`/`namespace` argument set to a string literal.
pub fn namespace_of(args: &Vec<AttrArg>) -> (r: Option<String>)
    ensures
        match r {
            Some(ns) => exists|i: int| 0 <= i < args@.len() && names_namespace(args@[i])
                && args@[i].value == ArgValue::Str(ns)
                && forall|j: int| 0 <= j < i ==> !names_namespace(#[trigger] args@[j]),
            None => forall|i: int| 0 <= i < args@.len() ==> !names_namespace(#[trigger] args@[i]),
        },
{
    let mut i: usize = 0;
    while i < args.len()
        invariant
            i <= args@.len(),
            forall|j: int| 0 <= j < i ==> !names_namespace(#[trigger] args@[j]),
        decreases args.len() - i,
    {
        let a = &args[i];
        if a.name_value && is_namespace_arg(a) {
            if let ArgValue::Str(s) = &a.value {
                return Some(s.clone());
            }
        }
        i += 1;
    }
    None
}

/// Whether `arg` names a custom event trigger: `event_trigger` set to a path.
pub open spec fn names_trigger(arg: AttrArg) -> bool {
    arg.name_value && ident_is(arg.key, "event_trigger"@) && (arg.value matches ArgValue::Path(Some(_)))
}

/// The custom `event_trigger = X` of a `#[taurpc::procedures(..)]` argument
/// list: the last segment of the first such path argument.
pub fn custom_trigger_of(args: &Vec<AttrArg>) -> (r: Option<String>)
    ensures
        match r {
            Some(t) => exists|i: int| 0 <= i < args@.len() && names_trigger(args@[i])
                && args@[i].value == ArgValue::Path(Some(t))
                && forall|j: int| 0 <= j < i ==> !names_trigger(#[trigger] args@[j]),
            None => forall|i: int| 0 <= i < args@.len() ==> !names_trigger(#[trigger] args@[i]),
        },
{
    let mut i: usize = 0;
    while i < args.len()
        invariant
            i <= args@.len(),
            forall|j: int| 0 <= j < i ==> !names_trigger(#[trigger] args@[j]),
        decreases args.len() - i,
    {
        let a = &args[i];
        if a.name_value && opt_is(&a.key, "event_trigger") {
            if let ArgValue::Path(Some(t)) = &a.value {
                return Some(t.clone());
            }
        }
        i += 1;
    }
    None
}

/// Whether a `#[taurpc(..)]` helper attribute (the path is exactly `taurpc`)
/// lists an argument whose path is exactly `flag` (`event`, `alias`).
pub open spec fn helper_flag_spec(attr: AttrShape, flag: Seq<char>) -> bool {
    &&& ident_is(attr.plain_ident, "taurpc"@)
    &&& attr.args matches Some(args)
    &&& exists|i: int| 0 <= i < args@.len() && ident_is(args@[i].key, flag)
}

/// Whether the attribute is `#[taurpc(event)]` (flag `event`) or
/// `#[taurpc(alias = "..")]` (flag `alias`).
pub fn is_taurpc_helper(attr: &AttrShape, flag: &str) -> (r: bool)
    ensures
        r == helper_flag_spec(*attr, flag@),
{
    if !opt_is(&attr.plain_ident, "taurpc") {
        return false;
    }
    match &attr.args {
        None => false,
        Some(args) => {
            let mut i: usize = 0;
            while i < args.len()
                invariant
                    ident_is(attr.plain_ident, "taurpc"@),
                    attr.args == Some(*args),
                    i <= args@.len(),
                    forall|j: int| 0 <= j < i ==> !ident_is(args@[j].key, flag@),
                decreases args.len() - i,
            {
                if opt_is(&args[i].key, flag) {
                    return true;
                }
                i += 1;
            }
            false
        },
    }
}

/// The first input of a method signature.
#[derive(PartialEq, Eq, Structural, Clone, Copy, Debug)]
pub enum FirstInput {
    /// No inputs at all.
    Nothing,
    /// A typed argument (the trait definition omits the receiver).
    Typed,
    /// `self` by value.
    SelfByValue,
    /// `&self` or `&mut self`.
    SelfByRef,
}

/// How the receiver is rewritten.
#[derive(PartialEq, Eq, Structural, Clone, Copy, Debug)]
pub enum ReceiverFix {
    /// Insert `&self` before the first input.
    Insert,
    /// Replace the by-value `self` with `&self`.
    Replace,
    /// Leave the receiver as it is.
    Keep,
}

/// ttipc wants a `&self` receiver: the trait definition omits it (insert
/// one), the resolver impl takes `self` by value (replace it), and a
/// borrowed receiver stays.
pub fn receiver_fix(first: FirstInput) -> (r: ReceiverFix)
    ensures
        r == match first {
            FirstInput::Nothing | FirstInput::Typed => ReceiverFix::Insert,
            FirstInput::SelfByValue => ReceiverFix::Replace,
            FirstInput::SelfByRef => ReceiverFix::Keep,
        },
{
    match first {
        FirstInput::Nothing | FirstInput::Typed => ReceiverFix::Insert,
        FirstInput::SelfByValue => ReceiverFix::Replace,
        FirstInput::SelfByRef => ReceiverFix::Keep,
    }
}

/// How a parameter type is rewritten.
#[derive(PartialEq, Eq, Structural, Clone, Copy, Debug)]
pub enum TypeRewrite {
    /// `AppHandle<R>` becomes a bare `AppHandle` (injected by type).
    BareHandle,
    /// `Window<R>`/`WebviewWindow<R>` lose their `<R>`; flagged, as they are
    /// not injected.
    BareWindow,
    /// `Channel<T>` becomes `ttipc::Channel<T>`.
    WrapChannel,
    /// Left as it is.
    Keep,
}

/// The rewrite of a parameter type, by the last segment of its path (`None`
/// for a type that is not a path).
pub fn type_rewrite(last: Option<&str>) -> (r: TypeRewrite)
    ensures
        r == match last {
            Some(s) => if s@ == "AppHandle"@ {
                TypeRewrite::BareHandle
            } else if s@ == "Window"@ || s@ == "WebviewWindow"@ {
                TypeRewrite::BareWindow
            } else if s@ == "Channel"@ {
                TypeRewrite::WrapChannel
            } else {
                TypeRewrite::Keep
            },
            None => TypeRewrite::Keep,
        },
{
    match last {
        Some(s) => if same_text(s, "AppHandle") {
            TypeRewrite::BareHandle
        } else if same_text(s, "Window") || same_text(s, "WebviewWindow") {
            TypeRewrite::BareWindow
        } else if same_text(s, "Channel") {
            TypeRewrite::WrapChannel
        } else {
            TypeRewrite::Keep
        },
        None => TypeRewrite::Keep,
    }
}

/// Whether a type, by its last path segment, is one ttipc supplies rather
/// than carries as payload: `AppHandle`, `State`, `Window`, `WebviewWindow`.
pub open spec fn injected_spec(last: Option<Seq<char>>) -> bool {
    match last {
        Some(s) => s == "AppHandle"@ || s == "State"@ || s == "Window"@ || s == "WebviewWindow"@,
        None => false,
    }
}

/// Whether a type, by its last path segment, is supplied by ttipc.
pub fn is_injected_ty(last: Option<&str>) -> (r: bool)
    ensures
        r == injected_spec(match last {
            Some(s) => Some(s@),
            None => None,
        }),
{
    match last {
        Some(s) => same_text(s, "AppHandle") || same_text(s, "State") || same_text(s, "Window")
            || same_text(s, "WebviewWindow"),
        None => false,
    }
}

/// Whether a signature, by the last path segments of its parameter types,
/// takes an injected `AppHandle` or managed `State<T>`: a pair ttipc rejects
/// on an `async` procedure.
pub fn has_injected_param(params: &Vec<Option<String>>) -> (r: bool)
    ensures
        r == exists|i: int| 0 <= i < params@.len() && (ident_is(params@[i], "AppHandle"@) || ident_is(params@[i], "State"@)),
{
    let mut i: usize = 0;
    while i < params.len()
        invariant
            i <= params@.len(),
            forall|j: int| 0 <= j < i ==> !(ident_is(params@[j], "AppHandle"@) || ident_is(params@[j], "State"@)),
        decreases params.len() - i,
    {
        if opt_is(&params[i], "AppHandle") || opt_is(&params[i], "State") {
            return true;
        }
        i += 1;
    }
    false
}

/// A `<..>::<Trigger>::new(<handle>)` call, by the identifiers of the called
/// path: the trigger type is the segment before a final `new`.
pub fn trigger_of_new(segments: &Vec<String>) -> (r: Option<String>)
    ensures
        match r {
            Some(t) => segments@.len() >= 2 && segments@.last()@ == "new"@ && t == segments@[segments@.len() - 2],
            None => !(segments@.len() >= 2 && segments@.last()@ == "new"@),
        },
{
    let n: usize = segments.len();
    if n < 2 || !same_text(segments[n - 1].as_str(), "new") {
        return None;
    }
    Some(segments[n - 2].clone())
}

/// A `<..>::Router::new()` call (the TauRPC router constructor), by the
/// identifiers of the called path.
pub fn is_router_new(segments: &Vec<String>) -> (r: bool)
    ensures
        r == (segments@.len() >= 2 && segments@.last()@ == "new"@ && segments@[segments@.len() - 2]@ == "Router"@),
{
    let n: usize = segments.len();
    n >= 2 && same_text(segments[n - 1].as_str(), "new") && same_text(segments[n - 2].as_str(), "Router")
}

/// Whether some attribute is TauRPC's `name` attribute.
pub open spec fn any_taurpc_attr_spec(attrs: Seq<AttrShape>, name: Seq<char>) -> bool {
    exists|i: int| 0 <= i < attrs.len() && taurpc_attr_spec(string_views(#[trigger] attrs[i].segments@), name)
}

/// Whether some attribute is TauRPC's `name` attribute (`procedures` on a
/// trait, `resolvers` on an impl, `ipc_type` on a struct).
pub fn has_taurpc_attr(attrs: &Vec<AttrShape>, name: &str) -> (r: bool)
    ensures
        r == any_taurpc_attr_spec(attrs@, name@),
{
    let mut i: usize = 0;
    while i < attrs.len()
        invariant
            i <= attrs@.len(),
            forall|j: int| 0 <= j < i ==> !taurpc_attr_spec(string_views(#[trigger] attrs@[j].segments@), name@),
        decreases attrs.len() - i,
    {
        if is_taurpc_attr(&attrs[i], name) {
            return true;
        }
        i += 1;
    }
    false
}

/// A top-level item, as far as the surgical migration reads it.
pub enum ItemShape {
    Trait { attrs: Vec<AttrShape> },
    Impl { attrs: Vec<AttrShape> },
    Struct { attrs: Vec<AttrShape> },
    Enum { name: String },
    /// A function, and whether its body constructs a TauRPC mount.
    Fn { has_mount: bool },
    Other,
}

/// Whether an item is re-emitted whole by the surgical migration (rather than
/// left verbatim with only its emit sites changed): a TauRPC procedures trait,
/// a resolvers impl, an `ipc_type` struct, a payload enum that gains the
/// event derive, and a function holding the mount.
pub open spec fn item_level_spec(item: ItemShape, derive_on: Seq<Seq<char>>) -> bool {
    match item {
        ItemShape::Trait { attrs } => any_taurpc_attr_spec(attrs@, "procedures"@),
        ItemShape::Impl { attrs } => any_taurpc_attr_spec(attrs@, "resolvers"@),
        ItemShape::Struct { attrs } => any_taurpc_attr_spec(attrs@, "ipc_type"@),
        ItemShape::Enum { name } => derive_on.contains(name@),
        ItemShape::Fn { has_mount } => has_mount,
        ItemShape::Other => false,
    }
}

/// Whether an item is re-emitted whole by the surgical migration.
pub fn is_item_level(item: &ItemShape, registry: &EventRegistry) -> (r: bool)
    ensures
        r == item_level_spec(*item, registry.derive_targets()),
{
    match item {
        ItemShape::Trait { attrs } => has_taurpc_attr(attrs, "procedures"),
        ItemShape::Impl { attrs } => has_taurpc_attr(attrs, "resolvers"),
        ItemShape::Struct { attrs } => has_taurpc_attr(attrs, "ipc_type"),
        ItemShape::Enum { name } => registry.derives_event(name.as_str()),
        ItemShape::Fn { has_mount } => *has_mount,
        ItemShape::Other => false,
    }
}

/// A method signature of a procedures trait or resolver impl, as far as the
/// migration rewrites it.
pub struct SigShape {
    pub name: String,
    pub is_async: bool,
    /// Whether the signature has generic parameters (the `<R: Runtime>`).
    pub has_generics: bool,
    /// Whether the return type is a path whose last segment is `Result`.
    pub returns_result: bool,
    pub first: FirstInput,
    /// The last path segment of each typed parameter's type (`None` for a
    /// type that is not a path).
    pub param_types: Vec<Option<String>>,
}

/// How a signature is rewritten.
pub struct SigRewrite {
    /// The receiver fix.
    pub receiver: ReceiverFix,
    /// The rewrite of each typed parameter's type, in order.
    pub types: Vec<TypeRewrite>,
    /// Whether the method is made sync.
    pub make_sync: bool,
}

/// The rewrite of a parameter type, by the last segment of its path.
pub open spec fn type_rewrite_spec(last: Option<String>) -> TypeRewrite {
    match last {
        Some(s) => if s@ == "AppHandle"@ {
            TypeRewrite::BareHandle
        } else if s@ == "Window"@ || s@ == "WebviewWindow"@ {
            TypeRewrite::BareWindow
        } else if s@ == "Channel"@ {
            TypeRewrite::WrapChannel
        } else {
            TypeRewrite::Keep
        },
        None => TypeRewrite::Keep,
    }
}

/// Whether some parameter type is rewritten as `r`.
pub open spec fn any_rewrite(types: Seq<Option<String>>, r: TypeRewrite) -> bool {
    exists|i: int| 0 <= i < types.len() && type_rewrite_spec(#[trigger] types[i]) == r
}

/// Whether some parameter type is an injected `AppHandle` or `State`.
pub open spec fn any_handle_or_state(types: Seq<Option<String>>) -> bool {
    exists|i: int| 0 <= i < types.len() && (ident_is(#[trigger] types[i], "AppHandle"@) || ident_is(types[i], "State"@))
}

/// The findings after rewriting a signature: the dropped generics, a
/// `Result` return, a bared window, a wrapped channel, a method made sync, and
/// an `async` method left taking an injected handle or state are flagged.
pub open spec fn sig_findings(f: Findings, sig: SigShape, make_sync: bool) -> Findings {
    Findings {
        dropped_generics: f.dropped_generics || sig.has_generics,
        result_returns: f.result_returns || sig.returns_result,
        window_param: f.window_param || any_rewrite(sig.param_types@, TypeRewrite::BareWindow),
        channels: f.channels || any_rewrite(sig.param_types@, TypeRewrite::WrapChannel),
        deasynced: f.deasynced || make_sync,
        async_injection: f.async_injection || (sig.is_async && !make_sync && any_handle_or_state(sig.param_types@)),
        ..f
    }
}

/// Whether `name` is among `names`.
fn listed_name(names: &Vec<String>, name: &str) -> (r: bool)
    ensures
        r == string_views(names@).contains(name@),
{
    let mut i: usize = 0;
    while i < names.len()
        invariant
            i <= names@.len(),
            forall|k: int| 0 <= k < i ==> names@[k]@ != name@,
        decreases names.len() - i,
    {
        if same_text(names[i].as_str(), name) {
            assert(string_views(names@)[i as int] == name@);
            return true;
        }
        i += 1;
    }
    false
}

/// Rewrites one method signature for ttipc: drops the `<R: Runtime>`
/// generics, gives it a `&self` receiver, bares `AppHandle`/`Window` types
/// and wraps `Channel`, makes it sync when it is among the de-asyncable
/// methods of its trait, and records what needs a follow-up.
pub fn rewrite_signature(sig: &SigShape, deasyncable: &Vec<String>, findings: &mut Findings) -> (r: SigRewrite)
    ensures
        r.receiver == match sig.first {
            FirstInput::Nothing | FirstInput::Typed => ReceiverFix::Insert,
            FirstInput::SelfByValue => ReceiverFix::Replace,
            FirstInput::SelfByRef => ReceiverFix::Keep,
        },
        r.types@.len() == sig.param_types@.len(),
        forall|i: int| 0 <= i < r.types@.len() ==> #[trigger] r.types@[i] == type_rewrite_spec(sig.param_types@[i]),
        r.make_sync == (sig.is_async && string_views(deasyncable@).contains(sig.name@)),
        *final(findings) == sig_findings(*old(findings), *sig, r.make_sync),
{
    let receiver = receiver_fix(sig.first);
    let mut types: Vec<TypeRewrite> = Vec::new();
    let mut window = false;
    let mut channel = false;
    let mut injected = false;
    let mut i: usize = 0;
    while i < sig.param_types.len()
        invariant
            i <= sig.param_types@.len(),
            types@.len() == i,
            forall|k: int| 0 <= k < i ==> #[trigger] types@[k] == type_rewrite_spec(sig.param_types@[k]),
            window == exists|k: int| 0 <= k < i && type_rewrite_spec(#[trigger] sig.param_types@[k]) == TypeRewrite::BareWindow,
            channel == exists|k: int| 0 <= k < i && type_rewrite_spec(#[trigger] sig.param_types@[k]) == TypeRewrite::WrapChannel,
            injected == exists|k: int| 0 <= k < i && (ident_is(#[trigger] sig.param_types@[k], "AppHandle"@) || ident_is(sig.param_types@[k], "State"@)),
        decreases sig.param_types.len() - i,
    {
        let last = match &sig.param_types[i] {
            Some(s) => Some(s.as_str()),
            None => None,
        };
        let t = type_rewrite(last);
        types.push(t);
        window = window || t == TypeRewrite::BareWindow;
        channel = channel || t == TypeRewrite::WrapChannel;
        injected = injected || opt_is(&sig.param_types[i], "AppHandle") || opt_is(&sig.param_types[i], "State");
        i += 1;
    }
    let make_sync = sig.is_async && listed_name(deasyncable, sig.name.as_str());
    let f = *findings;
    *findings = Findings {
        dropped_generics: f.dropped_generics || sig.has_generics,
        result_returns: f.result_returns || sig.returns_result,
        window_param: f.window_param || window,
        channels: f.channels || channel,
        deasynced: f.deasynced || make_sync,
        async_injection: f.async_injection || (sig.is_async && !make_sync && injected),
        ..f
    };
    SigRewrite { receiver, types, make_sync }
}

/// What the migration does with one attribute of a struct.
pub enum StructAttrAction {
    /// The attribute stays as it is.
    Keep,
    /// TauRPC's `ipc_type` on a resolver struct: a handler, not a wire type,
    /// so the attribute is dropped.
    Drop,
    /// TauRPC's `ipc_type` on a wire type: it becomes
    /// `#[derive(serde::Serialize, serde::Deserialize, specta::Type, Clone)]`.
    Derive,
}

/// The action for one attribute of a struct that is, or is not, a resolver.
pub open spec fn struct_attr_action_spec(is_resolver: bool, attr: AttrShape) -> StructAttrAction {
    if taurpc_attr_spec(string_views(attr.segments@), "ipc_type"@) {
        if is_resolver { StructAttrAction::Drop } else { StructAttrAction::Derive }
    } else {
        StructAttrAction::Keep
    }
}

/// The action for each attribute of a struct, in order, and whether any
/// `ipc_type` is converted into derives (a follow-up the header flags).
pub fn plan_struct_attrs(is_resolver: bool, attrs: &Vec<AttrShape>) -> (r: (Vec<StructAttrAction>, bool))
    ensures
        r.0@.len() == attrs@.len(),
        forall|i: int| 0 <= i < attrs@.len() ==> #[trigger] r.0@[i] == struct_attr_action_spec(is_resolver, attrs@[i]),
        r.1 == (!is_resolver && any_taurpc_attr_spec(attrs@, "ipc_type"@)),
{
    let mut actions: Vec<StructAttrAction> = Vec::new();
    let mut converted = false;
    let mut i: usize = 0;
    while i < attrs.len()
        invariant
            i <= attrs@.len(),
            actions@.len() == i,
            forall|k: int| 0 <= k < i ==> #[trigger] actions@[k] == struct_attr_action_spec(is_resolver, attrs@[k]),
            converted == (!is_resolver && exists|k: int| 0 <= k < i
                && taurpc_attr_spec(string_views(#[trigger] attrs@[k].segments@), "ipc_type"@)),
        decreases attrs.len() - i,
    {
        if is_taurpc_attr(&attrs[i], "ipc_type") {
            if is_resolver {
                actions.push(StructAttrAction::Drop);
            } else {
                actions.push(StructAttrAction::Derive);
                converted = true;
            }
        } else {
            actions.push(StructAttrAction::Keep);
        }
        i += 1;
    }
    (actions, converted)
}

} // verus!
