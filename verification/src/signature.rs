//! Planning a `#[procedures]` trait: which parameters cross the wire, which
//! are injected by type, which stream, what the binding descriptor renders,
//! and which shapes are rejected, with the exact message each rejection
//! carries. The token-level input is read into the plain shapes below; the
//! plan is what code generation follows.

use vstd::prelude::*;
use crate::naming::{command_wire_name, lower_camel, lower_camel_spec, affixed};
use crate::text::{owned, same_text, has_char};

verus! {

/// The shape of a Rust type, as far as procedure planning reads it.
pub enum TypeShape {
    /// A path type: the identifier of its last segment, and the type arguments
    /// in that segment's angle brackets (ids into the caller's own table of
    /// types; empty when the segment has none).
    Path { last: String, type_args: Vec<usize> },
    /// A borrowed type, `&T` or `&mut T`.
    Reference,
    /// Any other type (tuple, slice, array, `impl Trait`, ...).
    Other,
}

/// One typed parameter of a method (the receiver excluded).
pub struct ParamShape {
    /// The binding's identifier when the pattern is a plain identifier.
    pub name: Option<String>,
    /// The parameter's type.
    pub ty: TypeShape,
    /// The parameter's type, as an id into the caller's table of types.
    pub ty_id: usize,
}

/// The receiver of a method.
#[derive(PartialEq, Eq, Structural, Clone, Copy, Debug)]
pub enum ReceiverShape {
    /// `&self` (or `&'a self`).
    SharedRef,
    /// Any other receiver: `self`, `&mut self`, `self: Box<Self>`, ...
    Other,
    /// No receiver at all.
    Missing,
}

/// A method of a procedure trait.
pub struct MethodShape {
    pub name: String,
    /// Whether the method has generic parameters or a `where` clause.
    pub generic: bool,
    pub receiver: ReceiverShape,
    pub params: Vec<ParamShape>,
    pub is_async: bool,
    /// The declared return type and its id; `None` for no return (`()`).
    pub output: Option<(TypeShape, usize)>,
}

/// An item of a procedure trait.
pub enum TraitItemShape {
    Method(MethodShape),
    /// A constant, type, macro or any other non-method item.
    Other,
}

/// A procedure trait.
pub struct TraitShape {
    pub name: String,
    /// Whether the trait has generic parameters or a `where` clause.
    pub generic: bool,
    pub items: Vec<TraitItemShape>,
}

/// How a parameter reaches the procedure.
#[derive(PartialEq, Eq, Structural, Clone, Copy, Debug)]
pub enum ParamRole {
    /// Deserialized from the named-argument JSON body.
    Wire,
    /// Injected by type from the dispatch context (`AppHandle`).
    Injected,
    /// Managed state `State<'_, T>`; carries the id of `T`.
    State(usize),
    /// A streaming `Channel<T>`; carries the id of `T`. Its id crosses the
    /// wire, the channel itself is built server-side.
    Channel(usize),
}

/// One planned parameter.
pub struct ParamPlan {
    pub name: String,
    pub role: ParamRole,
    pub ty_id: usize,
}

/// One planned procedure.
pub struct ProcedurePlan {
    /// The method identifier (the bare wire name).
    pub name: String,
    /// Every parameter in declaration order, with its role.
    pub params: Vec<ParamPlan>,
    pub is_async: bool,
    /// The declared return type; `None` for `()`.
    pub output: Option<usize>,
    /// `T` of a `Result<T, E>` return: what the call resolves with and what
    /// the binding renders as the output.
    pub result_ok: Option<usize>,
    /// `E` of a `Result<T, E>` return: what the call rejects with.
    pub result_err: Option<usize>,
}

/// A planned procedure, as a mathematical value.
pub struct ProcedureSpec {
    pub name: String,
    pub params: Seq<ParamPlan>,
    pub is_async: bool,
    pub output: Option<usize>,
    pub result_ok: Option<usize>,
    pub result_err: Option<usize>,
}

impl View for ProcedurePlan {
    type V = ProcedureSpec;

    open spec fn view(&self) -> ProcedureSpec {
        ProcedureSpec {
            name: self.name,
            params: self.params@,
            is_async: self.is_async,
            output: self.output,
            result_ok: self.result_ok,
            result_err: self.result_err,
        }
    }
}

/// A rejected procedure signature. Indices count the typed parameters (the
/// receiver excluded) or the trait's items, from zero.
#[derive(PartialEq, Eq, Structural, Clone, Copy, Debug)]
pub enum SignatureError {
    GenericProcedure,
    Receiver,
    ArgPattern(usize),
    BorrowedArg(usize),
    StateWithoutType(usize),
    ChannelWithoutType(usize),
    DuplicateInjection(usize),
}

/// A rejected procedure trait.
#[derive(PartialEq, Eq, Structural, Clone, Copy, Debug)]
pub enum TraitError {
    GenericTrait,
    NonMethodItem(usize),
    /// The method at this item index has a rejected signature.
    Method(usize, SignatureError),
}

/// The compile error text of each rejection.
pub open spec fn signature_message(e: SignatureError) -> Seq<char> {
    match e {
        SignatureError::GenericProcedure => "generic procedures are not supported"@,
        SignatureError::Receiver => "procedures take &self (shared access to the procedure set's state)"@,
        SignatureError::ArgPattern(_) => "procedure arguments must be plain identifiers (they name the wire fields)"@,
        SignatureError::BorrowedArg(_) => "procedure arguments must be owned types (they are deserialized off the wire)"@,
        SignatureError::StateWithoutType(_) => "State parameters need a type argument, e.g. State<'_, T>"@,
        SignatureError::ChannelWithoutType(_) => "Channel parameters need a type argument, e.g. Channel<T>"@,
        SignatureError::DuplicateInjection(_) => "duplicate injected parameter: only one AppHandle per procedure"@,
    }
}

impl SignatureError {
    /// The compile error text of this rejection.
    pub fn message(&self) -> (m: &'static str)
        ensures
            m@ == signature_message(*self),
    {
        match self {
            SignatureError::GenericProcedure => "generic procedures are not supported",
            SignatureError::Receiver => "procedures take &self (shared access to the procedure set's state)",
            SignatureError::ArgPattern(_) => "procedure arguments must be plain identifiers (they name the wire fields)",
            SignatureError::BorrowedArg(_) => "procedure arguments must be owned types (they are deserialized off the wire)",
            SignatureError::StateWithoutType(_) => "State parameters need a type argument, e.g. State<'_, T>",
            SignatureError::ChannelWithoutType(_) => "Channel parameters need a type argument, e.g. Channel<T>",
            SignatureError::DuplicateInjection(_) => "duplicate injected parameter: only one AppHandle per procedure",
        }
    }
}

/// The compile error text of a trait rejection.
pub open spec fn trait_message(e: TraitError) -> Seq<char> {
    match e {
        TraitError::GenericTrait => "generic procedure traits are not supported"@,
        TraitError::NonMethodItem(_) => "only methods are allowed in a procedure trait"@,
        TraitError::Method(_, s) => signature_message(s),
    }
}

impl TraitError {
    /// The compile error text of this rejection.
    pub fn message(&self) -> (m: &'static str)
        ensures
            m@ == trait_message(*self),
    {
        match self {
            TraitError::GenericTrait => "generic procedure traits are not supported",
            TraitError::NonMethodItem(_) => "only methods are allowed in a procedure trait",
            TraitError::Method(_, s) => s.message(),
        }
    }
}

/// Whether a type is a path whose last segment is `word`.
pub open spec fn last_is(ty: TypeShape, word: Seq<char>) -> bool {
    match ty {
        TypeShape::Path { last, .. } => last@ == word,
        _ => false,
    }
}

/// The `n`th type argument of a path type's last segment.
pub open spec fn type_arg(ty: TypeShape, n: int) -> Option<usize> {
    match ty {
        TypeShape::Path { type_args, .. } => if 0 <= n < type_args@.len() {
            Some(type_args@[n])
        } else {
            None
        },
        _ => None,
    }
}

/// The `n`th type argument of a `Result<..>` return; `None` for any other type.
pub open spec fn result_arg(ty: TypeShape, n: int) -> Option<usize> {
    if last_is(ty, "Result"@) {
        type_arg(ty, n)
    } else {
        None
    }
}

/// Whether a planned parameter list already holds an injected parameter.
pub open spec fn has_injected(done: Seq<ParamPlan>) -> bool {
    exists|k: int| 0 <= k < done.len() && done[k].role == ParamRole::Injected
}

/// The plan of one parameter at `index`, given whether an injected parameter
/// came before it. Checks run in this order: plain identifier, owned type,
/// `State`, `Channel`, `AppHandle`; anything else is a wire argument.
pub open spec fn plan_param(p: ParamShape, index: usize, injected_seen: bool) -> Result<ParamPlan, SignatureError> {
    match p.name {
        None => Err(SignatureError::ArgPattern(index)),
        Some(name) => if p.ty is Reference {
            Err(SignatureError::BorrowedArg(index))
        } else if last_is(p.ty, "State"@) {
            match type_arg(p.ty, 0) {
                None => Err(SignatureError::StateWithoutType(index)),
                Some(t) => Ok(ParamPlan { name, role: ParamRole::State(t), ty_id: p.ty_id }),
            }
        } else if last_is(p.ty, "Channel"@) {
            match type_arg(p.ty, 0) {
                None => Err(SignatureError::ChannelWithoutType(index)),
                Some(t) => Ok(ParamPlan { name, role: ParamRole::Channel(t), ty_id: p.ty_id }),
            }
        } else if last_is(p.ty, "AppHandle"@) {
            if injected_seen {
                Err(SignatureError::DuplicateInjection(index))
            } else {
                Ok(ParamPlan { name, role: ParamRole::Injected, ty_id: p.ty_id })
            }
        } else {
            Ok(ParamPlan { name, role: ParamRole::Wire, ty_id: p.ty_id })
        },
    }
}

/// The plan of the first `n` parameters: the first rejection among them, or
/// every one planned in order.
pub open spec fn plan_params(ps: Seq<ParamShape>, n: nat) -> Result<Seq<ParamPlan>, SignatureError>
    decreases n,
{
    if n == 0 {
        Ok(Seq::empty())
    } else {
        match plan_params(ps, (n - 1) as nat) {
            Err(e) => Err(e),
            Ok(done) => match plan_param(ps[n - 1], (n - 1) as usize, has_injected(done)) {
                Err(e) => Err(e),
                Ok(p) => Ok(done.push(p)),
            },
        }
    }
}

/// The plan of one procedure method.
pub open spec fn plan_method_spec(m: MethodShape) -> Result<ProcedureSpec, SignatureError> {
    if m.generic {
        Err(SignatureError::GenericProcedure)
    } else if m.receiver != ReceiverShape::SharedRef {
        Err(SignatureError::Receiver)
    } else {
        match plan_params(m.params@, m.params@.len()) {
            Err(e) => Err(e),
            Ok(ps) => Ok(ProcedureSpec {
                name: m.name,
                params: ps,
                is_async: m.is_async,
                output: match m.output {
                    Some((_, id)) => Some(id),
                    None => None,
                },
                result_ok: match m.output {
                    Some((ty, _)) => result_arg(ty, 0),
                    None => None,
                },
                result_err: match m.output {
                    Some((ty, _)) => result_arg(ty, 1),
                    None => None,
                },
            }),
        }
    }
}

/// Whether a type is a path whose last segment is `word`.
fn last_segment_is(ty: &TypeShape, word: &str) -> (r: bool)
    ensures
        r == last_is(*ty, word@),
{
    match ty {
        TypeShape::Path { last, .. } => same_text(last.as_str(), word),
        _ => false,
    }
}

/// The first type argument of a path type's last segment.
fn first_type_arg(ty: &TypeShape) -> (r: Option<usize>)
    ensures
        r == type_arg(*ty, 0),
{
    match ty {
        TypeShape::Path { type_args, .. } => if type_args.len() > 0 {
            Some(type_args[0])
        } else {
            None
        },
        _ => None,
    }
}

/// The `n`th type argument of a `Result<T, E>` type (0 = `T`, 1 = `E`),
/// recognized by the last path segment so `Result<..>` and
/// `std::result::Result<..>` both qualify; `None` for any other type.
pub fn result_type_arg(ty: &TypeShape, n: usize) -> (r: Option<usize>)
    ensures
        r == result_arg(*ty, n as int),
{
    if !last_segment_is(ty, "Result") {
        return None;
    }
    match ty {
        TypeShape::Path { type_args, .. } => if n < type_args.len() {
            Some(type_args[n])
        } else {
            None
        },
        _ => None,
    }
}

/// Plans one parameter.
fn plan_one_param(p: &ParamShape, index: usize, injected_seen: bool) -> (r: Result<ParamPlan, SignatureError>)
    ensures
        r == plan_param(*p, index, injected_seen),
{
    let name = match &p.name {
        None => return Err(SignatureError::ArgPattern(index)),
        Some(name) => name.clone(),
    };
    if let TypeShape::Reference = &p.ty {
        return Err(SignatureError::BorrowedArg(index));
    }
    if last_segment_is(&p.ty, "State") {
        match first_type_arg(&p.ty) {
            None => Err(SignatureError::StateWithoutType(index)),
            Some(t) => Ok(ParamPlan { name, role: ParamRole::State(t), ty_id: p.ty_id }),
        }
    } else if last_segment_is(&p.ty, "Channel") {
        match first_type_arg(&p.ty) {
            None => Err(SignatureError::ChannelWithoutType(index)),
            Some(t) => Ok(ParamPlan { name, role: ParamRole::Channel(t), ty_id: p.ty_id }),
        }
    } else if last_segment_is(&p.ty, "AppHandle") {
        if injected_seen {
            Err(SignatureError::DuplicateInjection(index))
        } else {
            Ok(ParamPlan { name, role: ParamRole::Injected, ty_id: p.ty_id })
        }
    } else {
        Ok(ParamPlan { name, role: ParamRole::Wire, ty_id: p.ty_id })
    }
}

/// Plans one procedure method: rejects generics, any receiver but `&self`,
/// non-identifier patterns, borrowed parameters, type-less `State` and
/// `Channel`, and a second `AppHandle`; otherwise splits the parameters into
/// wire, injected, state and channel ones, and reads a `Result` return's
/// success and error types.
pub fn plan_method(m: &MethodShape) -> (r: Result<ProcedurePlan, SignatureError>)
    ensures
        match (r, plan_method_spec(*m)) {
            (Ok(p), Ok(s)) => p@ == s,
            (Err(e), Err(f)) => e == f,
            _ => false,
        },
{
    if m.generic {
        return Err(SignatureError::GenericProcedure);
    }
    if m.receiver != ReceiverShape::SharedRef {
        return Err(SignatureError::Receiver);
    }
    let mut params: Vec<ParamPlan> = Vec::new();
    let mut injected_seen = false;
    let mut i: usize = 0;
    while i < m.params.len()
        invariant
            !m.generic,
            m.receiver == ReceiverShape::SharedRef,
            i <= m.params.len(),
            plan_params(m.params@, i as nat) == Ok::<Seq<ParamPlan>, SignatureError>(params@),
            injected_seen == has_injected(params@),
        decreases m.params.len() - i,
    {
        match plan_one_param(&m.params[i], i, injected_seen) {
            Err(e) => {
                assert(plan_params(m.params@, (i + 1) as nat) == Err::<Seq<ParamPlan>, SignatureError>(e));
                proof {
                    lemma_plan_params_err_sticks(m.params@, (i + 1) as nat, m.params@.len(), e);
                    assert(plan_params(m.params@, m.params@.len()) == Err::<Seq<ParamPlan>, SignatureError>(e));
                    assert(plan_method_spec(*m) == Err::<ProcedureSpec, SignatureError>(e));
                }
                return Err(e);
            },
            Ok(p) => {
                let ghost before = params@;
                let is_inj = p.role == ParamRole::Injected;
                params.push(p);
                assert(plan_params(m.params@, (i + 1) as nat) == Ok::<Seq<ParamPlan>, SignatureError>(params@));
                proof {
                    if is_inj {
                        assert(params@[params@.len() - 1].role == ParamRole::Injected);
                    } else if !injected_seen {
                        assert forall|k: int| 0 <= k < params@.len() implies params@[k].role != ParamRole::Injected by {
                            if k < before.len() {
                                assert(params@[k] == before[k]);
                            }
                        }
                    } else {
                        let k0 = choose|k: int| 0 <= k < before.len() && before[k].role == ParamRole::Injected;
                        assert(params@[k0] == before[k0]);
                    }
                }
                injected_seen = injected_seen || is_inj;
            },
        }
        i += 1;
    }
    let (output, result_ok, result_err) = match &m.output {
        Some((ty, id)) => (Some(*id), result_type_arg(ty, 0), result_type_arg(ty, 1)),
        None => (None, None, None),
    };
    Ok(ProcedurePlan { name: m.name.clone(), params, is_async: m.is_async, output, result_ok, result_err })
}

/// Once the first `k` parameters are rejected, every longer prefix is
/// rejected with the same error.
proof fn lemma_plan_params_err_sticks(ps: Seq<ParamShape>, k: nat, n: nat, e: SignatureError)
    requires
        k <= n,
        plan_params(ps, k) == Err::<Seq<ParamPlan>, SignatureError>(e),
    ensures
        plan_params(ps, n) == Err::<Seq<ParamPlan>, SignatureError>(e),
    decreases n - k,
{
    if k < n {
        lemma_plan_params_err_sticks(ps, k, (n - 1) as nat, e);
    }
}

/// A planned procedure trait: what `#[procedures]` generates from.
pub struct TraitPlan {
    /// The client object name: the namespace when given, the lower-camel trait
    /// name otherwise.
    pub object: String,
    pub namespace: Option<String>,
    pub procedures: Vec<ProcedurePlan>,
    /// Each procedure's wire command, in procedure order.
    pub wire_names: Vec<String>,
    /// Whether any procedure is `async` (the dispatch receiver is then owned).
    pub has_async: bool,
    /// `{Trait}Dispatch`, the generated extension trait.
    pub dispatch_trait: String,
    /// `{Trait}Procedures`, the generated binding descriptor.
    pub descriptor: String,
}

/// A planned procedure trait, as a mathematical value.
pub struct TraitSpec {
    pub object: Seq<char>,
    pub namespace: Option<Seq<char>>,
    pub procedures: Seq<ProcedureSpec>,
    pub wire_names: Seq<Seq<char>>,
    pub has_async: bool,
    pub dispatch_trait: Seq<char>,
    pub descriptor: Seq<char>,
}

/// The view of an optional string.
pub open spec fn opt_view(o: Option<String>) -> Option<Seq<char>> {
    match o {
        Some(s) => Some(s@),
        None => None,
    }
}

impl View for TraitPlan {
    type V = TraitSpec;

    open spec fn view(&self) -> TraitSpec {
        TraitSpec {
            object: self.object@,
            namespace: opt_view(self.namespace),
            procedures: self.procedures@.map_values(|p: ProcedurePlan| p@),
            wire_names: self.wire_names@.map_values(|w: String| w@),
            has_async: self.has_async,
            dispatch_trait: self.dispatch_trait@,
            descriptor: self.descriptor@,
        }
    }
}

/// A procedure's wire command under an optional namespace.
pub open spec fn wire_name_spec(namespace: Option<Seq<char>>, name: Seq<char>) -> Seq<char> {
    match namespace {
        Some(ns) => ns + seq!['.'] + name,
        None => name,
    }
}

/// The plan of the first `n` trait items: the first rejection among them,
/// or every method planned in order.
pub open spec fn plan_items(items: Seq<TraitItemShape>, n: nat) -> Result<Seq<ProcedureSpec>, TraitError>
    decreases n,
{
    if n == 0 {
        Ok(Seq::empty())
    } else {
        match plan_items(items, (n - 1) as nat) {
            Err(e) => Err(e),
            Ok(done) => match items[n - 1] {
                TraitItemShape::Other => Err(TraitError::NonMethodItem((n - 1) as usize)),
                TraitItemShape::Method(m) => match plan_method_spec(m) {
                    Err(e) => Err(TraitError::Method((n - 1) as usize, e)),
                    Ok(p) => Ok(done.push(p)),
                },
            },
        }
    }
}

/// The plan of a procedure trait under an optional namespace.
pub open spec fn plan_trait_spec(t: TraitShape, namespace: Option<Seq<char>>) -> Result<TraitSpec, TraitError> {
    if t.generic {
        Err(TraitError::GenericTrait)
    } else {
        match plan_items(t.items@, t.items@.len()) {
            Err(e) => Err(e),
            Ok(procs) => Ok(TraitSpec {
                object: match namespace {
                    Some(ns) => ns,
                    None => lower_camel_spec(t.name@),
                },
                namespace,
                procedures: procs,
                wire_names: Seq::new(procs.len(), |i: int| wire_name_spec(namespace, procs[i].name@)),
                has_async: exists|i: int| 0 <= i < procs.len() && procs[i].is_async,
                dispatch_trait: t.name@ + "Dispatch"@,
                descriptor: t.name@ + "Procedures"@,
            }),
        }
    }
}

proof fn lemma_plan_items_err_sticks(items: Seq<TraitItemShape>, k: nat, n: nat, e: TraitError)
    requires
        k <= n,
        plan_items(items, k) == Err::<Seq<ProcedureSpec>, TraitError>(e),
    ensures
        plan_items(items, n) == Err::<Seq<ProcedureSpec>, TraitError>(e),
    decreases n - k,
{
    if k < n {
        lemma_plan_items_err_sticks(items, k, (n - 1) as nat, e);
    }
}

/// An accepted prefix of trait items is all methods, each planned under its
/// own name, in order.
proof fn lemma_plan_items_names(items: Seq<TraitItemShape>, n: nat)
    requires
        n <= items.len(),
        plan_items(items, n) is Ok,
    ensures
        plan_items(items, n)->Ok_0.len() == n,
        forall|i: int| 0 <= i < n ==> (#[trigger] items[i] matches TraitItemShape::Method(m)
            && plan_items(items, n)->Ok_0[i].name == m.name),
    decreases n,
{
    if n > 0 {
        lemma_plan_items_names(items, (n - 1) as nat);
    }
}

/// For an accepted trait, every item is a method and the wire commands are
/// the methods' names in declaration order, each prefixed by `ns.` under a
/// namespace; the client object is the namespace, or the lower-camel trait
/// name without one.
pub proof fn lemma_wire_names_follow_methods(t: TraitShape, namespace: Option<Seq<char>>)
    requires
        plan_trait_spec(t, namespace) is Ok,
    ensures
        plan_trait_spec(t, namespace)->Ok_0.wire_names.len() == t.items@.len(),
        forall|i: int| 0 <= i < t.items@.len() ==> (#[trigger] t.items@[i] matches TraitItemShape::Method(m)
            && plan_trait_spec(t, namespace)->Ok_0.wire_names[i] == wire_name_spec(namespace, m.name@)),
        plan_trait_spec(t, namespace)->Ok_0.object == match namespace {
            Some(ns) => ns,
            None => lower_camel_spec(t.name@),
        },
{
    lemma_plan_items_names(t.items@, t.items@.len());
}

/// Plans a whole procedure trait: rejects a generic trait and any non-method
/// item, plans each method, names each wire command (`ns.method` under a
/// namespace, the bare method otherwise), the client object, and the two
/// generated items.
pub fn plan_trait(t: &TraitShape, namespace: Option<String>) -> (r: Result<TraitPlan, TraitError>)
    ensures
        match (r, plan_trait_spec(*t, opt_view(namespace))) {
            (Ok(p), Ok(s)) => p@ == s,
            (Err(e), Err(f)) => e == f,
            _ => false,
        },
{
    if t.generic {
        return Err(TraitError::GenericTrait);
    }
    let mut procs: Vec<ProcedurePlan> = Vec::new();
    let mut i: usize = 0;
    assert(procs@.map_values(|p: ProcedurePlan| p@) =~= Seq::<ProcedureSpec>::empty());
    while i < t.items.len()
        invariant
            !t.generic,
            i <= t.items.len(),
            plan_items(t.items@, i as nat) == Ok::<Seq<ProcedureSpec>, TraitError>(procs@.map_values(|p: ProcedurePlan| p@)),
        decreases t.items.len() - i,
    {
        match &t.items[i] {
            TraitItemShape::Other => {
                proof {
                    lemma_plan_items_err_sticks(t.items@, (i + 1) as nat, t.items@.len(), TraitError::NonMethodItem(i));
                }
                return Err(TraitError::NonMethodItem(i));
            },
            TraitItemShape::Method(m) => match plan_method(m) {
                Err(e) => {
                    proof {
                        lemma_plan_items_err_sticks(t.items@, (i + 1) as nat, t.items@.len(), TraitError::Method(i, e));
                    }
                    return Err(TraitError::Method(i, e));
                },
                Ok(p) => {
                    let ghost before = procs@;
                    procs.push(p);
                    assert(procs@.map_values(|p: ProcedurePlan| p@) =~= before.map_values(|p: ProcedurePlan| p@).push(p@));
                },
            },
        }
        i += 1;
    }
    let ghost specs = procs@.map_values(|p: ProcedurePlan| p@);
    let mut wire_names: Vec<String> = Vec::new();
    let mut has_async = false;
    let mut j: usize = 0;
    while j < procs.len()
        invariant
            j <= procs.len(),
            specs == procs@.map_values(|p: ProcedurePlan| p@),
            !t.generic,
            plan_items(t.items@, t.items@.len()) == Ok::<Seq<ProcedureSpec>, TraitError>(specs),
            wire_names@.len() == j,
            forall|k: int| 0 <= k < j ==> #[trigger] wire_names@[k]@ == wire_name_spec(opt_view(namespace), procs@[k].name@),
            has_async == exists|k: int| 0 <= k < j && procs@[k].is_async,
        decreases procs.len() - j,
    {
        let ns = match &namespace {
            Some(ns) => Some(ns.as_str()),
            None => None,
        };
        let w = command_wire_name(ns, procs[j].name.as_str());
        wire_names.push(w);
        has_async = has_async || procs[j].is_async;
        j += 1;
    }
    let object = match &namespace {
        Some(ns) => ns.clone(),
        None => lower_camel(t.name.as_str()),
    };
    let plan = TraitPlan {
        object,
        namespace,
        procedures: procs,
        wire_names,
        has_async,
        dispatch_trait: affixed("", t.name.as_str(), "Dispatch"),
        descriptor: affixed("", t.name.as_str(), "Procedures"),
    };
    proof {
        assert(""@ + t.name@ + "Dispatch"@ == t.name@ + "Dispatch"@) by {
            reveal_strlit("");
        }
        assert(""@ + t.name@ + "Procedures"@ == t.name@ + "Procedures"@) by {
            reveal_strlit("");
        }
        assert(plan@.wire_names =~= Seq::new(specs.len(), |i: int| wire_name_spec(opt_view(namespace), specs[i].name@)));
        assert(plan@.procedures == specs);
        assert(has_async == exists|k: int| 0 <= k < specs.len() && specs[k].is_async) by {
            if has_async {
                let k = choose|k: int| 0 <= k < procs@.len() && procs@[k].is_async;
                assert(specs[k].is_async);
            }
            if exists|k: int| 0 <= k < specs.len() && specs[k].is_async {
                let k = choose|k: int| 0 <= k < specs.len() && specs[k].is_async;
                assert(procs@[k]@ == specs[k]);
            }
        }
    }
    Ok(plan)
}

/// The argument of `#[procedures(...)]`, as far as planning reads it.
pub struct NamespaceArg {
    /// The key when it is a single identifier (`namespace`, `path`, ...).
    pub key: Option<String>,
    /// The value when it is a string literal.
    pub value: Option<String>,
}

/// A rejected `#[procedures(...)]` argument.
#[derive(PartialEq, Eq, Structural, Clone, Copy, Debug)]
pub enum NamespaceError {
    /// The key is neither `namespace` nor `path`.
    UnknownKey,
    /// The value is not a string literal.
    NotLiteral,
    /// The value is empty or contains a `.`.
    BadValue,
}

/// The compile error text of a rejected namespace argument.
pub open spec fn namespace_message(e: NamespaceError) -> Seq<char> {
    match e {
        NamespaceError::UnknownKey => "#[procedures] only accepts `namespace = \"...\"` (alias `path`)"@,
        NamespaceError::NotLiteral => "namespace must be a string literal"@,
        NamespaceError::BadValue => "namespace must be non-empty and contain no `.`"@,
    }
}

impl NamespaceError {
    /// The compile error text of this rejection.
    pub fn message(&self) -> (m: &'static str)
        ensures
            m@ == namespace_message(*self),
    {
        match self {
            NamespaceError::UnknownKey => "#[procedures] only accepts `namespace = \"...\"` (alias `path`)",
            NamespaceError::NotLiteral => "namespace must be a string literal",
            NamespaceError::BadValue => "namespace must be non-empty and contain no `.`",
        }
    }
}

/// The namespace an attribute argument names. No argument: no namespace. The
/// key must be `namespace` (or taurpc's `path`), the value a string literal,
/// non-empty and free of `.`.
pub open spec fn namespace_spec(arg: Option<NamespaceArg>) -> Result<Option<Seq<char>>, NamespaceError> {
    match arg {
        None => Ok(None),
        Some(a) => {
            let key_ok = match a.key {
                Some(k) => k@ == "namespace"@ || k@ == "path"@,
                None => false,
            };
            if !key_ok {
                Err(NamespaceError::UnknownKey)
            } else {
                match a.value {
                    None => Err(NamespaceError::NotLiteral),
                    Some(v) => if v@.len() == 0 || v@.contains('.') {
                        Err(NamespaceError::BadValue)
                    } else {
                        Ok(Some(v@))
                    },
                }
            }
        },
    }
}

/// Parses the optional `#[procedures(namespace = "...")]` argument (or its
/// taurpc spelling `path = "..."`): the knob that prefixes every wire command
/// (`ns.method`) and names the client object.
pub fn parse_namespace(arg: Option<NamespaceArg>) -> (r: Result<Option<String>, NamespaceError>)
    ensures
        match (r, namespace_spec(arg)) {
            (Ok(v), Ok(w)) => opt_view(v) == w,
            (Err(e), Err(f)) => e == f,
            _ => false,
        },
{
    match arg {
        None => Ok(None),
        Some(a) => {
            let key_ok = match &a.key {
                Some(k) => same_text(k.as_str(), "namespace") || same_text(k.as_str(), "path"),
                None => false,
            };
            if !key_ok {
                return Err(NamespaceError::UnknownKey);
            }
            match a.value {
                None => Err(NamespaceError::NotLiteral),
                Some(v) => {
                    let cs = crate::text::chars_of(v.as_str());
                    if cs.len() == 0 || has_char(v.as_str(), '.') {
                        Err(NamespaceError::BadValue)
                    } else {
                        Ok(Some(v))
                    }
                },
            }
        },
    }
}

/// Parameters are recognized by type, never by name: two named parameters of
/// the same type, in the same place, are planned alike.
pub proof fn lemma_role_by_type_not_name(p: ParamShape, q: ParamShape, index: usize, injected_seen: bool)
    requires
        p.name is Some,
        q.name is Some,
        p.ty == q.ty,
        p.ty_id == q.ty_id,
    ensures
        match (plan_param(p, index, injected_seen), plan_param(q, index, injected_seen)) {
            (Ok(a), Ok(b)) => a.role == b.role && a.ty_id == b.ty_id,
            (Err(e), Err(f)) => e == f,
            _ => false,
        },
{
}


/// What an accepted prefix of parameters and a rejection among them say of
/// the parameters themselves: a parameter is planned as injected only when its
/// type is an `AppHandle`; and a duplicate injection is reported only at an
/// `AppHandle` parameter that follows an earlier `AppHandle` parameter.
proof fn lemma_plan_params_injection(ps: Seq<ParamShape>, n: nat)
    requires
        n <= ps.len(),
        n <= usize::MAX,
    ensures
        plan_params(ps, n) matches Ok(done) ==> done.len() == n
            && forall|k: int| 0 <= k < n && #[trigger] done[k].role == ParamRole::Injected
                ==> last_is(ps[k].ty, "AppHandle"@),
        plan_params(ps, n) matches Err(SignatureError::DuplicateInjection(i)) ==> i < n
            && last_is(ps[i as int].ty, "AppHandle"@)
            && exists|j: int| 0 <= j < i && #[trigger] last_is(ps[j].ty, "AppHandle"@),
    decreases n,
{
    if n > 0 {
        lemma_plan_params_injection(ps, (n - 1) as nat);
        match plan_params(ps, (n - 1) as nat) {
            Err(e0) => {
                assert(plan_params(ps, n) == Err::<Seq<ParamPlan>, SignatureError>(e0));
            },
            Ok(done) => {
                let p = ps[n - 1];
                match plan_param(p, (n - 1) as usize, has_injected(done)) {
                    Err(e) => {
                        if e is DuplicateInjection {
                            assert(e == SignatureError::DuplicateInjection((n - 1) as usize));
                            assert(last_is(p.ty, "AppHandle"@));
                            assert(has_injected(done));
                            let k = choose|k: int| 0 <= k < done.len() && done[k].role == ParamRole::Injected;
                            assert(done.len() == n - 1);
                            assert(last_is(ps[k].ty, "AppHandle"@));
                            assert(plan_params(ps, n) == Err::<Seq<ParamPlan>, SignatureError>(e));
                        }
                    },
                    Ok(q) => {
                        let all = done.push(q);
                        assert forall|k: int| 0 <= k < n && #[trigger] all[k].role == ParamRole::Injected
                            implies last_is(ps[k].ty, "AppHandle"@) by {
                            if k < n - 1 {
                                assert(all[k] == done[k]);
                            }
                        }
                    },
                }
            },
        }
    }
}

/// A procedure is rejected for a duplicate injected parameter only at an
/// `AppHandle` parameter with an earlier `AppHandle` parameter before it: a
/// `State` (or any other) parameter never counts as an injection already
/// taken, so `(&self, state: State<'_, T>, app: AppHandle)` plans with roles
/// `[State(T), Injected]`. (A parameter list's length fits in `usize`, as
/// every `Vec`'s does.)
pub proof fn lemma_duplicate_injection_needs_an_earlier_app_handle(m: MethodShape, i: usize)
    requires
        m.params@.len() <= usize::MAX,
        plan_method_spec(m) == Err::<ProcedureSpec, SignatureError>(SignatureError::DuplicateInjection(i)),
    ensures
        i < m.params@.len(),
        last_is(m.params@[i as int].ty, "AppHandle"@),
        exists|j: int| 0 <= j < i && #[trigger] last_is(m.params@[j].ty, "AppHandle"@),
{
    lemma_plan_params_injection(m.params@, m.params@.len());
}

/// In an accepted procedure, exactly the `AppHandle` parameters are injected:
/// a parameter is planned as injected only when its type is an `AppHandle`.
pub proof fn lemma_only_app_handles_are_injected(m: MethodShape)
    requires
        m.params@.len() <= usize::MAX,
        plan_method_spec(m) is Ok,
    ensures
        plan_method_spec(m)->Ok_0.params.len() == m.params@.len(),
        forall|k: int| 0 <= k < m.params@.len()
            && #[trigger] plan_method_spec(m)->Ok_0.params[k].role == ParamRole::Injected
            ==> last_is(m.params@[k].ty, "AppHandle"@),
{
    lemma_plan_params_injection(m.params@, m.params@.len());
}

} // verus!
