//! Preparing argument types for their JSON Schema contract: a named reference
//! that only inlines another type (how a primitive such as `String` arrives)
//! would render as an empty definition that matches anything, so it is
//! replaced by the type it inlines, recursively through containers. A genuine
//! named type stays a reference for the schema to define.

use vstd::prelude::*;

verus! {

/// An argument's data type, as far as contract preparation reads it. The
/// parts it does not read (a container's other attributes, a named type, a
/// primitive) are kept by an id into the caller's own table.
pub enum ArgType {
    /// A named reference whose definition inlines this type.
    Inline(Box<ArgType>),
    /// A named reference to a genuine named type, kept as a reference.
    Named(usize),
    /// A list of the item type.
    List { item: Box<ArgType>, rest: usize },
    /// A map from the key type to the value type.
    Dict { key: Box<ArgType>, value: Box<ArgType>, rest: usize },
    /// A tuple of the element types.
    Tuple { elements: Vec<ArgType>, rest: usize },
    /// The inner type, or null.
    Nullable(Box<ArgType>),
    /// All of the parts at once.
    Intersection(Vec<ArgType>),
    /// A primitive, struct, enum, generic or opaque reference: rendered as it
    /// is.
    Leaf(usize),
}

/// Whether `r` is `t` with every inlining reference replaced by the type it
/// inlines, through lists, maps, tuples, nullables and intersections.
pub open spec fn inlined(t: ArgType, r: ArgType) -> bool
    decreases t, 1nat,
{
    match t {
        ArgType::Inline(inner) => inlined(*inner, r),
        ArgType::List { item, rest } => match r {
            ArgType::List { item: ri, rest: rr } => rr == rest && inlined(*item, *ri),
            _ => false,
        },
        ArgType::Dict { key, value, rest } => match r {
            ArgType::Dict { key: rk, value: rv, rest: rr } => rr == rest && inlined(*key, *rk) && inlined(*value, *rv),
            _ => false,
        },
        ArgType::Tuple { elements, rest } => match r {
            ArgType::Tuple { elements: re, rest: rr } => rr == rest && all_inlined(elements@, re@),
            _ => false,
        },
        ArgType::Nullable(inner) => match r {
            ArgType::Nullable(ri) => inlined(*inner, *ri),
            _ => false,
        },
        ArgType::Intersection(parts) => match r {
            ArgType::Intersection(rp) => all_inlined(parts@, rp@),
            _ => false,
        },
        ArgType::Named(n) => r == ArgType::Named(n),
        ArgType::Leaf(n) => r == ArgType::Leaf(n),
    }
}

/// Whether each of `rs` is the inlined form of the matching one of `ts`.
pub open spec fn all_inlined(ts: Seq<ArgType>, rs: Seq<ArgType>) -> bool
    decreases ts, 0nat,
{
    if ts.len() == 0 {
        rs.len() == 0
    } else {
        rs.len() > 0 && inlined(ts[0], rs[0]) && all_inlined(ts.drop_first(), rs.drop_first())
    }
}

/// Replaces every inlining reference in `t` by the type it inlines,
/// recursively through containers, so that a bare primitive argument and a
/// container's elements carry a real schema. A genuine named type, and
/// anything else, is kept as it is.
pub fn inline_leaf(t: ArgType) -> (r: ArgType)
    ensures
        inlined(t, r),
    decreases t, 1nat,
{
    match t {
        ArgType::Inline(inner) => inline_leaf(*inner),
        ArgType::List { item, rest } => ArgType::List { item: Box::new(inline_leaf(*item)), rest },
        ArgType::Dict { key, value, rest } => {
            let k = inline_leaf(*key);
            let v = inline_leaf(*value);
            ArgType::Dict { key: Box::new(k), value: Box::new(v), rest }
        },
        ArgType::Tuple { elements, rest } => ArgType::Tuple { elements: inline_all(elements), rest },
        ArgType::Nullable(inner) => ArgType::Nullable(Box::new(inline_leaf(*inner))),
        ArgType::Intersection(parts) => ArgType::Intersection(inline_all(parts)),
        ArgType::Named(n) => ArgType::Named(n),
        ArgType::Leaf(n) => ArgType::Leaf(n),
    }
}

/// Inlines each of `ts`, in order.
fn inline_all(ts: Vec<ArgType>) -> (rs: Vec<ArgType>)
    ensures
        all_inlined(ts@, rs@),
    decreases ts@, 0nat,
{
    if ts.len() == 0 {
        return Vec::new();
    }
    let ghost all = ts@;
    let mut rest = ts;
    let first = rest.remove(0);
    assert(rest@ =~= all.drop_first());
    let r0 = inline_leaf(first);
    let mut rs = inline_all(rest);
    let ghost tail = rs@;
    rs.insert(0, r0);
    assert(rs@.drop_first() =~= tail);
    rs
}

/// Whether no inlining reference is left anywhere in `t`.
pub open spec fn no_inline(t: ArgType) -> bool
    decreases t, 1nat,
{
    match t {
        ArgType::Inline(_) => false,
        ArgType::List { item, .. } => no_inline(*item),
        ArgType::Dict { key, value, .. } => no_inline(*key) && no_inline(*value),
        ArgType::Tuple { elements, .. } => none_inline(elements@),
        ArgType::Nullable(inner) => no_inline(*inner),
        ArgType::Intersection(parts) => none_inline(parts@),
        ArgType::Named(_) => true,
        ArgType::Leaf(_) => true,
    }
}

/// Whether no inlining reference is left in any of `ts`.
pub open spec fn none_inline(ts: Seq<ArgType>) -> bool
    decreases ts, 0nat,
{
    ts.len() == 0 || (no_inline(ts[0]) && none_inline(ts.drop_first()))
}

/// Preparing an argument type leaves no inlining reference behind, and
/// preparing it again changes nothing.
pub proof fn lemma_inlined_is_final(t: ArgType, r: ArgType)
    requires
        inlined(t, r),
    ensures
        no_inline(r),
        inlined(r, r),
    decreases t, 1nat,
{
    match t {
        ArgType::Inline(inner) => lemma_inlined_is_final(*inner, r),
        ArgType::List { item, .. } => {
            if let ArgType::List { item: ri, .. } = r {
                lemma_inlined_is_final(*item, *ri);
            }
        },
        ArgType::Dict { key, value, .. } => {
            if let ArgType::Dict { key: rk, value: rv, .. } = r {
                lemma_inlined_is_final(*key, *rk);
                lemma_inlined_is_final(*value, *rv);
            }
        },
        ArgType::Tuple { elements, .. } => {
            if let ArgType::Tuple { elements: re, .. } = r {
                lemma_all_inlined_is_final(elements@, re@);
            }
        },
        ArgType::Nullable(inner) => {
            if let ArgType::Nullable(ri) = r {
                lemma_inlined_is_final(*inner, *ri);
            }
        },
        ArgType::Intersection(parts) => {
            if let ArgType::Intersection(rp) = r {
                lemma_all_inlined_is_final(parts@, rp@);
            }
        },
        ArgType::Named(_) => {},
        ArgType::Leaf(_) => {},
    }
}

/// Each prepared element is final.
proof fn lemma_all_inlined_is_final(ts: Seq<ArgType>, rs: Seq<ArgType>)
    requires
        all_inlined(ts, rs),
    ensures
        none_inline(rs),
        all_inlined(rs, rs),
    decreases ts, 0nat,
{
    if ts.len() > 0 {
        lemma_inlined_is_final(ts[0], rs[0]);
        lemma_all_inlined_is_final(ts.drop_first(), rs.drop_first());
    }
}

/// Whether `out` holds each argument of `args` under its name, its type
/// prepared.
pub open spec fn args_prepared(args: Seq<(String, ArgType)>, out: Seq<(String, ArgType)>) -> bool {
    &&& out.len() == args.len()
    &&& forall|i: int| 0 <= i < args.len() ==> #[trigger] out[i].0 == args[i].0 && inlined(args[i].1, out[i].1)
}

/// The fields of a procedure's synthesized argument definition: each wire
/// argument under its name, its type prepared for the contract.
pub fn prepare_args(args: Vec<(String, ArgType)>) -> (out: Vec<(String, ArgType)>)
    ensures
        args_prepared(args@, out@),
{
    let ghost all = args@;
    let mut rest = args;
    let mut r: Vec<(String, ArgType)> = Vec::new();
    let mut i: usize = 0;
    while rest.len() > 0
        invariant
            r@.len() + rest@.len() == all.len(),
            i == r@.len(),
            rest@ == all.skip(i as int),
            all == args@,
            forall|k: int| 0 <= k < i ==> #[trigger] r@[k].0 == all[k].0 && inlined(all[k].1, r@[k].1),
        decreases rest@.len(),
    {
        let ghost before = rest@;
        let (name, ty) = rest.remove(0);
        assert(before[0] == all[i as int]);
        r.push((name, inline_leaf(ty)));
        assert(rest@ =~= all.skip(i + 1));
        i = r.len();
    }
    assert(i == all.len());
    assert forall|k: int| 0 <= k < args@.len() implies #[trigger] r@[k].0 == args@[k].0 && inlined(args@[k].1, r@[k].1) by {
        assert(r@[k].0 == all[k].0 && inlined(all[k].1, r@[k].1));
    }
    assert(args_prepared(args@, r@));
    r
}

} // verus!
