//! What a planned procedure's dispatch arm does, step by step, and what its
//! binding descriptor renders. A sync procedure settles inline; an async one
//! resolves everything its future must own before spawning it.

use vstd::prelude::*;
use crate::signature::{ParamPlan, ParamRole, ProcedurePlan, ProcedureSpec};

verus! {

/// A kind of parameter role, without the role's type.
#[derive(PartialEq, Eq, Structural, Clone, Copy, Debug)]
pub enum RoleKind {
    Wire,
    Injected,
    State,
    Channel,
}

/// Whether a role is of the given kind.
pub open spec fn role_is(r: ParamRole, k: RoleKind) -> bool {
    match k {
        RoleKind::Wire => r is Wire,
        RoleKind::Injected => r is Injected,
        RoleKind::State => r is State,
        RoleKind::Channel => r is Channel,
    }
}

/// The positions of the parameters of one kind, in declaration order.
pub open spec fn indices_of(ps: Seq<ParamPlan>, k: RoleKind) -> Seq<usize>
    decreases ps.len(),
{
    if ps.len() == 0 {
        Seq::empty()
    } else if role_is(ps.last().role, k) {
        indices_of(ps.drop_last(), k).push((ps.len() - 1) as usize)
    } else {
        indices_of(ps.drop_last(), k)
    }
}

/// One step of a dispatch arm. Each step that can fail names the dispatch
/// error it fails with.
#[derive(PartialEq, Eq, Structural, Clone, Copy, Debug)]
pub enum ArmStep {
    /// Deserialize the argument body (the wire arguments, then each channel's
    /// id); fails with `Deserialize`.
    Deserialize,
    /// Build the channel of the parameter at this position from its id; fails
    /// with `MissingChannel`.
    BuildChannel(usize),
    /// Extract the injected parameter at this position from the context;
    /// fails with `MissingInjection`.
    Extract(usize),
    /// Resolve the state parameter at this position; fails with `MissingState`.
    ResolveState(usize),
    /// Take an owned state manager out of the context before spawning; fails
    /// with `MissingState` naming the state type of the parameter at this
    /// position (the first state parameter).
    TakeStateManager(usize),
    /// Hand the remaining steps to a spawned future.
    Spawn,
    /// Call the procedure. A `Result` return resolves on `Ok` and rejects on
    /// `Err`; any other return resolves.
    Call { splits_result: bool },
}

/// A step for each position.
pub open spec fn steps_at(idx: Seq<usize>, k: RoleKind) -> Seq<ArmStep> {
    idx.map_values(|i: usize| match k {
        RoleKind::Channel => ArmStep::BuildChannel(i),
        RoleKind::Injected => ArmStep::Extract(i),
        _ => ArmStep::ResolveState(i),
    })
}

/// The steps of a procedure's dispatch arm. Sync: deserialize, extract the
/// injected parameter, resolve state, build channels, call. Async: deserialize,
/// build channels and extract the injected parameter up front, take the state
/// manager when any state is needed, spawn, and resolve state inside the future
/// before the call.
pub open spec fn arm_steps(p: ProcedureSpec) -> Seq<ArmStep> {
    let injected = steps_at(indices_of(p.params, RoleKind::Injected), RoleKind::Injected);
    let states = indices_of(p.params, RoleKind::State);
    let state_steps = steps_at(states, RoleKind::State);
    let channels = steps_at(indices_of(p.params, RoleKind::Channel), RoleKind::Channel);
    let call = seq![ArmStep::Call { splits_result: p.result_ok is Some }];
    if !p.is_async {
        seq![ArmStep::Deserialize] + injected + state_steps + channels + call
    } else {
        let manager = if states.len() > 0 {
            seq![ArmStep::TakeStateManager(states[0])]
        } else {
            Seq::empty()
        };
        seq![ArmStep::Deserialize] + channels + injected + manager + seq![ArmStep::Spawn] + state_steps + call
    }
}

/// The fields of the argument body, by parameter position: the wire arguments,
/// then each channel's id.
pub open spec fn body_fields(p: ProcedureSpec) -> Seq<usize> {
    indices_of(p.params, RoleKind::Wire) + indices_of(p.params, RoleKind::Channel)
}

/// The positions of the parameters of one kind.
pub fn indices_where(params: &Vec<ParamPlan>, k: RoleKind) -> (r: Vec<usize>)
    ensures
        r@ == indices_of(params@, k),
{
    let mut r: Vec<usize> = Vec::new();
    let mut i: usize = 0;
    assert(params@.take(0) =~= Seq::<ParamPlan>::empty());
    while i < params.len()
        invariant
            i <= params@.len(),
            r@ == indices_of(params@.take(i as int), k),
        decreases params.len() - i,
    {
        assert(params@.take(i + 1).drop_last() =~= params@.take(i as int));
        assert(params@.take(i + 1).last() == params@[i as int]);
        let hit = match k {
            RoleKind::Wire => matches!(params[i].role, ParamRole::Wire),
            RoleKind::Injected => matches!(params[i].role, ParamRole::Injected),
            RoleKind::State => matches!(params[i].role, ParamRole::State(_)),
            RoleKind::Channel => matches!(params[i].role, ParamRole::Channel(_)),
        };
        if hit {
            r.push(i);
        }
        i += 1;
    }
    assert(params@.take(params@.len() as int) =~= params@);
    r
}

/// Appends a step for each position.
fn push_steps(out: &mut Vec<ArmStep>, idx: &Vec<usize>, k: RoleKind)
    requires
        k != RoleKind::Wire,
    ensures
        final(out)@ == old(out)@ + steps_at(idx@, k),
{
    let ghost start = out@;
    let mut i: usize = 0;
    while i < idx.len()
        invariant
            k != RoleKind::Wire,
            i <= idx@.len(),
            out@ == start + steps_at(idx@.take(i as int), k),
        decreases idx.len() - i,
    {
        let step = match k {
            RoleKind::Channel => ArmStep::BuildChannel(idx[i]),
            RoleKind::Injected => ArmStep::Extract(idx[i]),
            _ => ArmStep::ResolveState(idx[i]),
        };
        out.push(step);
        i += 1;
        assert(steps_at(idx@.take(i as int), k) =~= steps_at(idx@.take(i - 1), k).push(step));
    }
    assert(idx@.take(idx@.len() as int) =~= idx@);
}

/// The steps of a procedure's dispatch arm, in order.
pub fn arm_steps_of(p: &ProcedurePlan) -> (r: Vec<ArmStep>)
    ensures
        r@ == arm_steps(p@),
{
    let injected = indices_where(&p.params, RoleKind::Injected);
    let states = indices_where(&p.params, RoleKind::State);
    let channels = indices_where(&p.params, RoleKind::Channel);
    let mut out: Vec<ArmStep> = Vec::new();
    out.push(ArmStep::Deserialize);
    if !p.is_async {
        push_steps(&mut out, &injected, RoleKind::Injected);
        push_steps(&mut out, &states, RoleKind::State);
        push_steps(&mut out, &channels, RoleKind::Channel);
    } else {
        push_steps(&mut out, &channels, RoleKind::Channel);
        push_steps(&mut out, &injected, RoleKind::Injected);
        if states.len() > 0 {
            out.push(ArmStep::TakeStateManager(states[0]));
        }
        out.push(ArmStep::Spawn);
        push_steps(&mut out, &states, RoleKind::State);
    }
    out.push(ArmStep::Call { splits_result: p.result_ok.is_some() });
    proof {
        let ghost a = arm_steps(p@);
        assert(out@ =~= a);
    }
    out
}

/// The fields of the argument body: the wire arguments, then each channel's
/// id, by parameter position.
pub fn body_fields_of(p: &ProcedurePlan) -> (r: Vec<usize>)
    ensures
        r@ == body_fields(p@),
{
    let mut r = indices_where(&p.params, RoleKind::Wire);
    let mut ch = indices_where(&p.params, RoleKind::Channel);
    r.append(&mut ch);
    r
}

/// A procedure's entry in the binding descriptor.
pub struct DescriptorEntry {
    /// The bare procedure name.
    pub name: String,
    /// Each wire argument: its name and type.
    pub args: Vec<(String, usize)>,
    /// Each channel parameter: its name and the type it streams.
    pub channels: Vec<(String, usize)>,
    /// What the call resolves with: a `Result`'s success type, else the
    /// declared return; `None` for `()`.
    pub output: Option<usize>,
    /// What the call rejects with: a `Result`'s error type.
    pub error: Option<usize>,
}

/// The name and type of a wire argument.
pub open spec fn arg_entry(p: ParamPlan) -> (Seq<char>, usize) {
    (p.name@, p.ty_id)
}

/// The name and streamed type of a channel parameter.
pub open spec fn channel_entry(p: ParamPlan) -> (Seq<char>, usize) {
    (p.name@, match p.role {
        ParamRole::Channel(t) => t,
        _ => p.ty_id,
    })
}

/// The view of a list of named types.
pub open spec fn named_types(v: Seq<(String, usize)>) -> Seq<(Seq<char>, usize)> {
    v.map_values(|e: (String, usize)| (e.0@, e.1))
}

/// The descriptor entry of a planned procedure: injected and state
/// parameters never appear, channels do (the client passes them).
pub open spec fn descriptor_ok(p: ProcedureSpec, d: DescriptorEntry) -> bool {
    let wires = indices_of(p.params, RoleKind::Wire);
    let chans = indices_of(p.params, RoleKind::Channel);
    &&& d.name@ == p.name@
    &&& named_types(d.args@) == wires.map_values(|i: usize| arg_entry(p.params[i as int]))
    &&& named_types(d.channels@) == chans.map_values(|i: usize| channel_entry(p.params[i as int]))
    &&& d.output == match p.result_ok {
        Some(t) => Some(t),
        None => p.output,
    }
    &&& d.error == p.result_err
}

/// Every position of one kind is a parameter of that kind.
proof fn lemma_indices_in_range(ps: Seq<ParamPlan>, k: RoleKind)
    requires
        ps.len() <= usize::MAX,
    ensures
        forall|j: int| 0 <= j < indices_of(ps, k).len() ==> #[trigger] indices_of(ps, k)[j] < ps.len()
            && role_is(ps[indices_of(ps, k)[j] as int].role, k),
    decreases ps.len(),
{
    if ps.len() > 0 {
        let rest = ps.drop_last();
        lemma_indices_in_range(rest, k);
        assert forall|j: int| 0 <= j < indices_of(ps, k).len() implies #[trigger] indices_of(ps, k)[j] < ps.len()
            && role_is(ps[indices_of(ps, k)[j] as int].role, k) by {
            if j < indices_of(rest, k).len() {
                assert(indices_of(ps, k)[j] == indices_of(rest, k)[j]);
                assert(rest[indices_of(rest, k)[j] as int] == ps[indices_of(rest, k)[j] as int]);
            } else {
                assert(role_is(ps.last().role, k));
                assert(indices_of(ps, k) == indices_of(rest, k).push((ps.len() - 1) as usize));
                assert(indices_of(ps, k)[j] == (ps.len() - 1) as usize);
            }
        }
    }
}

/// The name and type of each listed parameter.
fn entries_at(params: &Vec<ParamPlan>, idx: &Vec<usize>, k: RoleKind) -> (r: Vec<(String, usize)>)
    requires
        k == RoleKind::Wire || k == RoleKind::Channel,
        forall|j: int| 0 <= j < idx@.len() ==> #[trigger] idx@[j] < params@.len(),
    ensures
        named_types(r@) == idx@.map_values(|i: usize| if k == RoleKind::Wire {
            arg_entry(params@[i as int])
        } else {
            channel_entry(params@[i as int])
        }),
{
    let mut r: Vec<(String, usize)> = Vec::new();
    let mut j: usize = 0;
    while j < idx.len()
        invariant
            k == RoleKind::Wire || k == RoleKind::Channel,
            forall|j: int| 0 <= j < idx@.len() ==> #[trigger] idx@[j] < params@.len(),
            j <= idx@.len(),
            named_types(r@) == idx@.take(j as int).map_values(|i: usize| if k == RoleKind::Wire {
                arg_entry(params@[i as int])
            } else {
                channel_entry(params@[i as int])
            }),
        decreases idx.len() - j,
    {
        let p = &params[idx[j]];
        let ty = if k == RoleKind::Wire {
            p.ty_id
        } else {
            match p.role {
                ParamRole::Channel(t) => t,
                _ => p.ty_id,
            }
        };
        let ghost before = r@;
        r.push((p.name.clone(), ty));
        j += 1;
        assert(named_types(r@) =~= named_types(before).push((p.name@, ty)));
        assert(idx@.take(j as int) =~= idx@.take(j - 1).push(idx@[j - 1]));
        assert(named_types(r@) =~= idx@.take(j as int).map_values(|i: usize| if k == RoleKind::Wire {
            arg_entry(params@[i as int])
        } else {
            channel_entry(params@[i as int])
        }));
    }
    assert(idx@.take(idx@.len() as int) =~= idx@);
    r
}

/// The binding descriptor entry of a planned procedure: its wire arguments,
/// its channels, the type the call resolves with (a `Result`'s success type,
/// else the declared return) and the type it rejects with.
pub fn descriptor_entry(p: &ProcedurePlan) -> (d: DescriptorEntry)
    ensures
        descriptor_ok(p@, d),
{
    let wires = indices_where(&p.params, RoleKind::Wire);
    let chans = indices_where(&p.params, RoleKind::Channel);
    let count: usize = p.params.len();
    proof {
        assert(p.params@.len() == count);
        lemma_indices_in_range(p.params@, RoleKind::Wire);
        lemma_indices_in_range(p.params@, RoleKind::Channel);
    }
    let args = entries_at(&p.params, &wires, RoleKind::Wire);
    let channels = entries_at(&p.params, &chans, RoleKind::Channel);
    let output = match p.result_ok {
        Some(t) => Some(t),
        None => p.output,
    };
    let d = DescriptorEntry { name: p.name.clone(), args, channels, output, error: p.result_err };
    proof {
        assert(named_types(d.args@) =~= wires@.map_values(|i: usize| arg_entry(p@.params[i as int])));
        assert(named_types(d.channels@) =~= chans@.map_values(|i: usize| channel_entry(p@.params[i as int])));
    }
    d
}

/// No per-parameter step is a spawn.
proof fn lemma_steps_never_spawn(idx: Seq<usize>, k: RoleKind)
    ensures
        forall|i: int| 0 <= i < steps_at(idx, k).len() ==> #[trigger] steps_at(idx, k)[i] != ArmStep::Spawn,
{
}

/// Sync by default: a plain procedure settles inline, and only an `async`
/// one hands its work to a spawned future.
pub proof fn lemma_only_async_spawns(p: ProcedureSpec)
    ensures
        arm_steps(p).contains(ArmStep::Spawn) <==> p.is_async,
{
    let injected = steps_at(indices_of(p.params, RoleKind::Injected), RoleKind::Injected);
    let states = indices_of(p.params, RoleKind::State);
    let state_steps = steps_at(states, RoleKind::State);
    let channels = steps_at(indices_of(p.params, RoleKind::Channel), RoleKind::Channel);
    let call = seq![ArmStep::Call { splits_result: p.result_ok is Some }];
    lemma_steps_never_spawn(indices_of(p.params, RoleKind::Injected), RoleKind::Injected);
    lemma_steps_never_spawn(states, RoleKind::State);
    lemma_steps_never_spawn(indices_of(p.params, RoleKind::Channel), RoleKind::Channel);
    let s = arm_steps(p);
    if p.is_async {
        let manager = if states.len() > 0 {
            seq![ArmStep::TakeStateManager(states[0])]
        } else {
            Seq::empty()
        };
        let k = (1 + channels.len() + injected.len() + manager.len()) as int;
        assert(s == seq![ArmStep::Deserialize] + channels + injected + manager + seq![ArmStep::Spawn] + state_steps + call);
        assert(s[k] == ArmStep::Spawn);
    } else {
        assert(s == seq![ArmStep::Deserialize] + injected + state_steps + channels + call);
        assert forall|i: int| 0 <= i < s.len() implies s[i] != ArmStep::Spawn by {
            let a = 1int;
            let b = a + injected.len();
            let c = b + state_steps.len();
            let d = c + channels.len();
            if i < a {
            } else if i < b {
                assert(s[i] == injected[i - a]);
            } else if i < c {
                assert(s[i] == state_steps[i - b]);
            } else if i < d {
                assert(s[i] == channels[i - c]);
            } else {
                assert(s[i] == call[i - d]);
            }
        }
    }
}


/// Every dispatch arm ends in the call, and the call splits its result (`Ok`
/// resolves, `Err` rejects) exactly when the procedure returns a `Result`,
/// whether the procedure is sync or async.
pub proof fn lemma_call_splits_exactly_results(p: ProcedureSpec)
    ensures
        arm_steps(p).len() > 0,
        arm_steps(p).last() == (ArmStep::Call { splits_result: p.result_ok is Some }),
        forall|k: int| 0 <= k < arm_steps(p).len() - 1 ==> !(#[trigger] arm_steps(p)[k] is Call),
{
    let injected = steps_at(indices_of(p.params, RoleKind::Injected), RoleKind::Injected);
    let states = indices_of(p.params, RoleKind::State);
    let state_steps = steps_at(states, RoleKind::State);
    let channels = steps_at(indices_of(p.params, RoleKind::Channel), RoleKind::Channel);
    let call = seq![ArmStep::Call { splits_result: p.result_ok is Some }];
    if !p.is_async {
        let body = seq![ArmStep::Deserialize] + injected + state_steps + channels;
        assert(arm_steps(p) =~= body + call);
        assert forall|k: int| 0 <= k < body.len() implies !(#[trigger] body[k] is Call) by {
            if k >= 1 + injected.len() + state_steps.len() {
                let j = k - 1 - injected.len() - state_steps.len();
                assert(body[k] == channels[j]);
            } else if k >= 1 + injected.len() {
                assert(body[k] == state_steps[k - 1 - injected.len()]);
            } else if k >= 1 {
                assert(body[k] == injected[k - 1]);
            }
        }
        assert forall|k: int| 0 <= k < arm_steps(p).len() - 1 implies !(#[trigger] arm_steps(p)[k] is Call) by {
            assert(arm_steps(p)[k] == body[k]);
        }
    } else {
        let manager = if states.len() > 0 {
            seq![ArmStep::TakeStateManager(states[0])]
        } else {
            Seq::empty()
        };
        let body = seq![ArmStep::Deserialize] + channels + injected + manager + seq![ArmStep::Spawn] + state_steps;
        assert(arm_steps(p) =~= body + call);
        assert forall|k: int| 0 <= k < body.len() implies !(#[trigger] body[k] is Call) by {
            let a = 1 + channels.len();
            let b = a + injected.len();
            let c = b + manager.len();
            if k >= c + 1 {
                assert(body[k] == state_steps[k - c - 1]);
            } else if k == c {
            } else if k >= b {
                assert(body[k] == manager[k - b]);
            } else if k >= a {
                assert(body[k] == injected[k - a]);
            } else if k >= 1 {
                assert(body[k] == channels[k - 1]);
            }
        }
        assert forall|k: int| 0 <= k < arm_steps(p).len() - 1 implies !(#[trigger] arm_steps(p)[k] is Call) by {
            assert(arm_steps(p)[k] == body[k]);
        }
    }
}

} // verus!
