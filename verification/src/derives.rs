//! Planning `#[derive(Error)]` and `#[derive(Event)]`: which enums are
//! accepted, the wire tag of each error variant, and the wire name and
//! payload shape of each event.

use vstd::prelude::*;
use crate::naming::{event_group, event_group_spec, event_wire_name, lower_camel, lower_camel_spec};

verus! {

/// The fields of an enum variant (ids refer to the caller's table of types).
pub enum FieldsShape {
    Unit,
    Named(Vec<(String, usize)>),
    Unnamed(Vec<usize>),
}

/// One enum variant.
pub struct VariantShape {
    pub name: String,
    pub fields: FieldsShape,
}

/// The input of a derive.
pub struct DeriveShape {
    pub name: String,
    /// Whether the type has generic parameters or a `where` clause.
    pub generic: bool,
    /// The variants when the type is an enum; `None` for a struct or union.
    pub variants: Option<Vec<VariantShape>>,
}

/// A rejected derive input.
#[derive(PartialEq, Eq, Structural, Clone, Copy, Debug)]
pub enum DeriveError {
    GenericError,
    ErrorNotEnum,
    GenericEvent,
    EventNotEnum,
    /// The event variant at this index is a tuple variant without exactly one
    /// field.
    TupleEvent(usize),
}

/// The compile error text of each rejection.
pub open spec fn derive_message(e: DeriveError) -> Seq<char> {
    match e {
        DeriveError::GenericError => "generic error enums are not supported"@,
        DeriveError::ErrorNotEnum => "Error can only be derived for enums"@,
        DeriveError::GenericEvent => "generic event enums are not supported"@,
        DeriveError::EventNotEnum => "Event can only be derived for enums"@,
        DeriveError::TupleEvent(_) => "tuple event variants need exactly one field (the payload type)"@,
    }
}

impl DeriveError {
    /// The compile error text of this rejection.
    pub fn message(&self) -> (m: &'static str)
        ensures
            m@ == derive_message(*self),
    {
        match self {
            DeriveError::GenericError => "generic error enums are not supported",
            DeriveError::ErrorNotEnum => "Error can only be derived for enums",
            DeriveError::GenericEvent => "generic event enums are not supported",
            DeriveError::EventNotEnum => "Event can only be derived for enums",
            DeriveError::TupleEvent(_) => "tuple event variants need exactly one field (the payload type)",
        }
    }
}

/// A planned wire error: each variant serializes as `{ type: tag, message }`.
pub struct ErrorPlan {
    pub name: String,
    /// The `type` tag of each variant, in variant order.
    pub tags: Vec<String>,
}

/// The error derive's verdict on an input: generics rejected first, then
/// anything but an enum; otherwise each variant's tag is its lower-camel name.
pub open spec fn error_plan_ok(d: DeriveShape, p: ErrorPlan) -> bool {
    &&& p.name == d.name
    &&& d.variants matches Some(vs)
    &&& p.tags@.len() == vs@.len()
    &&& forall|i: int| 0 <= i < vs@.len() ==> #[trigger] p.tags@[i]@ == lower_camel_spec(vs@[i].name@)
}

/// Plans `#[derive(Error)]`.
pub fn plan_error(d: &DeriveShape) -> (r: Result<ErrorPlan, DeriveError>)
    ensures
        d.generic ==> r == Err::<ErrorPlan, DeriveError>(DeriveError::GenericError),
        !d.generic && d.variants is None ==> r == Err::<ErrorPlan, DeriveError>(DeriveError::ErrorNotEnum),
        !d.generic && d.variants is Some ==> (r matches Ok(p) && error_plan_ok(*d, p)),
{
    if d.generic {
        return Err(DeriveError::GenericError);
    }
    let vs = match &d.variants {
        None => return Err(DeriveError::ErrorNotEnum),
        Some(vs) => vs,
    };
    let mut tags: Vec<String> = Vec::new();
    let mut i: usize = 0;
    while i < vs.len()
        invariant
            i <= vs.len(),
            tags@.len() == i,
            forall|k: int| 0 <= k < i ==> #[trigger] tags@[k]@ == lower_camel_spec(vs@[k].name@),
        decreases vs.len() - i,
    {
        tags.push(lower_camel(vs[i].name.as_str()));
        i += 1;
    }
    Ok(ErrorPlan { name: d.name.clone(), tags })
}

/// One planned event.
pub struct EventVariantPlan {
    pub ident: String,
    /// The TS `type` tag and wire-name suffix: the lower-camel variant name.
    pub discriminant: String,
    /// `"{group}:{discriminant}"`.
    pub wire_name: String,
    /// Named payload fields in declaration order (empty for unit and single
    /// tuple-payload variants).
    pub fields: Vec<(String, usize)>,
    /// The single unnamed payload type of a `V(T)` variant.
    pub data: Option<usize>,
}

/// A planned event enum.
pub struct EventPlan {
    pub name: String,
    /// The enum name without a trailing `Event`, lower-camel.
    pub group: String,
    pub variants: Vec<EventVariantPlan>,
}

/// Whether a variant is accepted as an event: any but a tuple variant whose
/// field count is not one.
pub open spec fn event_variant_ok(v: VariantShape) -> bool {
    match v.fields {
        FieldsShape::Unnamed(ts) => ts@.len() == 1,
        _ => true,
    }
}

/// The index of the first rejected variant among the first `n`, if any.
pub open spec fn first_bad_variant(vs: Seq<VariantShape>, n: nat) -> Option<usize>
    decreases n,
{
    if n == 0 {
        None
    } else {
        match first_bad_variant(vs, (n - 1) as nat) {
            Some(k) => Some(k),
            None => if event_variant_ok(vs[n - 1]) {
                None
            } else {
                Some((n - 1) as usize)
            },
        }
    }
}

/// The plan of one accepted event variant under `group`.
pub open spec fn event_variant_matches(group: Seq<char>, v: VariantShape, p: EventVariantPlan) -> bool {
    &&& p.ident == v.name
    &&& p.discriminant@ == lower_camel_spec(v.name@)
    &&& p.wire_name@ == group + seq![':'] + lower_camel_spec(v.name@)
    &&& match v.fields {
        FieldsShape::Unit => p.fields@.len() == 0 && p.data is None,
        FieldsShape::Named(fs) => p.fields@ == fs@ && p.data is None,
        FieldsShape::Unnamed(ts) => p.fields@.len() == 0 && p.data == Some(ts@[0]),
    }
}

/// The event derive's verdict on an accepted input.
pub open spec fn event_plan_ok(d: DeriveShape, p: EventPlan) -> bool {
    &&& p.name == d.name
    &&& p.group@ == event_group_spec(d.name@)
    &&& d.variants matches Some(vs)
    &&& p.variants@.len() == vs@.len()
    &&& forall|i: int| 0 <= i < vs@.len() ==> event_variant_matches(p.group@, vs@[i], #[trigger] p.variants@[i])
}

proof fn lemma_first_bad_sticks(vs: Seq<VariantShape>, k: nat, n: nat, b: usize)
    requires
        k <= n,
        first_bad_variant(vs, k) == Some(b),
    ensures
        first_bad_variant(vs, n) == Some(b),
    decreases n - k,
{
    if k < n {
        lemma_first_bad_sticks(vs, k, (n - 1) as nat, b);
    }
}

/// Copies a list of named fields.
fn copy_fields(fs: &Vec<(String, usize)>) -> (out: Vec<(String, usize)>)
    ensures
        out@ == fs@,
{
    let mut out: Vec<(String, usize)> = Vec::new();
    let mut i: usize = 0;
    while i < fs.len()
        invariant
            i <= fs.len(),
            out@ == fs@.take(i as int),
        decreases fs.len() - i,
    {
        let (name, ty) = &fs[i];
        out.push((name.clone(), *ty));
        i += 1;
        assert(out@ =~= fs@.take(i as int));
    }
    assert(fs@.take(fs.len() as int) =~= fs@);
    out
}

/// Plans `#[derive(Event)]`: generics rejected first, then anything but an
/// enum, then the first tuple variant without exactly one field; otherwise
/// each variant becomes an event named `"{group}:{variant}"`, its named
/// fields the payload, or its single unnamed field the `data` payload.
pub fn plan_event(d: &DeriveShape) -> (r: Result<EventPlan, DeriveError>)
    ensures
        d.generic ==> r == Err::<EventPlan, DeriveError>(DeriveError::GenericEvent),
        !d.generic && d.variants is None ==> r == Err::<EventPlan, DeriveError>(DeriveError::EventNotEnum),
        !d.generic && d.variants is Some ==> match first_bad_variant(d.variants->0@, d.variants->0@.len()) {
            Some(k) => r == Err::<EventPlan, DeriveError>(DeriveError::TupleEvent(k)),
            None => r matches Ok(p) && event_plan_ok(*d, p),
        },
{
    if d.generic {
        return Err(DeriveError::GenericEvent);
    }
    let vs = match &d.variants {
        None => return Err(DeriveError::EventNotEnum),
        Some(vs) => vs,
    };
    let group = event_group(d.name.as_str());
    let mut out: Vec<EventVariantPlan> = Vec::new();
    let mut i: usize = 0;
    while i < vs.len()
        invariant
            !d.generic,
            d.variants is Some,
            d.variants->0 == *vs,
            i <= vs.len(),
            group@ == event_group_spec(d.name@),
            first_bad_variant(vs@, i as nat) is None,
            out@.len() == i,
            forall|k: int| 0 <= k < i ==> event_variant_matches(group@, vs@[k], #[trigger] out@[k]),
        decreases vs.len() - i,
    {
        let v = &vs[i];
        let discriminant = lower_camel(v.name.as_str());
        let (fields, data) = match &v.fields {
            FieldsShape::Unit => (Vec::new(), None),
            FieldsShape::Named(fs) => (copy_fields(fs), None),
            FieldsShape::Unnamed(ts) => {
                if ts.len() != 1 {
                    proof {
                        lemma_first_bad_sticks(vs@, (i + 1) as nat, vs@.len(), i);
                    }
                    return Err(DeriveError::TupleEvent(i));
                }
                (Vec::new(), Some(ts[0]))
            },
        };
        let wire_name = event_wire_name(group.as_str(), discriminant.as_str());
        out.push(EventVariantPlan { ident: v.name.clone(), discriminant, wire_name, fields, data });
        i += 1;
    }
    Ok(EventPlan { name: d.name.clone(), group, variants: out })
}


/// Each error tag is its variant's name with only the first character
/// lowercased (std's lowercase mapping of it) and every later character kept
/// as written: the tag ends with the name's tail, character for character.
pub proof fn lemma_error_tags_keep_the_tail(d: DeriveShape, p: ErrorPlan)
    requires
        error_plan_ok(d, p),
    ensures
        forall|i: int| 0 <= i < p.tags@.len() ==> {
            let n = d.variants->0@[i].name@;
            let t = #[trigger] p.tags@[i]@;
            &&& n.len() == 0 ==> t.len() == 0
            &&& n.len() > 0 ==> t == crate::text::lowercase_of(n[0]) + n.drop_first()
            &&& n.len() > 0 ==> t.len() >= n.len() - 1
                && t.subrange(t.len() - (n.len() - 1), t.len() as int) == n.drop_first()
        },
{
    assert forall|i: int| 0 <= i < p.tags@.len() implies {
        let n = d.variants->0@[i].name@;
        let t = #[trigger] p.tags@[i]@;
        &&& n.len() == 0 ==> t.len() == 0
        &&& n.len() > 0 ==> t == crate::text::lowercase_of(n[0]) + n.drop_first()
        &&& n.len() > 0 ==> t.len() >= n.len() - 1
            && t.subrange(t.len() - (n.len() - 1), t.len() as int) == n.drop_first()
    } by {
        let n = d.variants->0@[i].name@;
        let t = p.tags@[i]@;
        assert(t == lower_camel_spec(n));
        if n.len() > 0 {
            let l = crate::text::lowercase_of(n[0]);
            assert(t.subrange(t.len() - (n.len() - 1), t.len() as int) =~= n.drop_first());
        }
    }
}

} // verus!
