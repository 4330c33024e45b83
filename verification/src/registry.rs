//! The event registry of a migration: which TauRPC event trigger maps to
//! which event enum and variant, gathered across every migrated file, so that
//! an emit site resolves even when its trait lives in another file.

use vstd::prelude::*;
use crate::naming::{event_enum_name, event_enum_name_spec, pascal_case, pascal_case_spec, trigger_name, upper_first, upper_first_spec};
use crate::text::{has_char, same_text, string_views};
use crate::codemod::{injected_spec, is_injected_ty};
use crate::findings::Findings;

verus! {

/// A `#[taurpc(event)]` method.
pub struct EventMethodShape {
    pub name: String,
    /// Each typed parameter: its identifier when the pattern is a plain
    /// identifier, and the last segment of its type when the type is a path.
    pub params: Vec<(Option<String>, Option<String>)>,
}

/// What the registry reads of a `#[taurpc::procedures]` trait.
pub struct TraitEvents {
    pub trait_name: String,
    /// The `path`/`namespace` string of the attribute.
    pub namespace: Option<String>,
    /// The custom `event_trigger = X` of the attribute.
    pub custom_trigger: Option<String>,
    /// The `#[taurpc(event)]` methods, in order.
    pub event_methods: Vec<EventMethodShape>,
}

/// The enum variant an event method became.
pub struct VariantInfo {
    pub variant: String,
    /// Field names in declaration order (empty for a unit event).
    pub fields: Vec<String>,
}

/// The enum a trigger's events were lifted into.
pub struct TriggerInfo {
    pub enum_name: String,
    /// Event-method name to the variant it became; a later entry for a name
    /// replaces an earlier one.
    pub methods: Vec<(String, VariantInfo)>,
    /// Set when the trait used the payload-enum pattern: one event method
    /// (this name) carrying the whole enum, which itself becomes the event.
    pub payload_method: Option<String>,
}

/// A variant, as a mathematical value.
pub struct VariantView {
    pub variant: Seq<char>,
    pub fields: Seq<Seq<char>>,
}

/// A trigger's enum, as a mathematical value.
pub struct TriggerView {
    pub enum_name: Seq<char>,
    pub methods: Seq<(Seq<char>, VariantView)>,
    pub payload_method: Option<Seq<char>>,
}

impl View for VariantInfo {
    type V = VariantView;

    open spec fn view(&self) -> VariantView {
        VariantView { variant: self.variant@, fields: string_views(self.fields@) }
    }
}

/// The view of a method entry.
pub open spec fn method_entry_view(e: (String, VariantInfo)) -> (Seq<char>, VariantView) {
    (e.0@, e.1@)
}

impl View for TriggerInfo {
    type V = TriggerView;

    open spec fn view(&self) -> TriggerView {
        TriggerView {
            enum_name: self.enum_name@,
            methods: self.methods@.map_values(|e: (String, VariantInfo)| method_entry_view(e)),
            payload_method: match self.payload_method {
                Some(m) => Some(m@),
                None => None,
            },
        }
    }
}

/// The value of the last entry for `k`, as a hash map that keeps the latest
/// insertion reads it.
pub open spec fn lookup_last<V>(entries: Seq<(Seq<char>, V)>, k: Seq<char>) -> Option<V>
    decreases entries.len(),
{
    if entries.len() == 0 {
        None
    } else if entries.last().0 == k {
        Some(entries.last().1)
    } else {
        lookup_last(entries.drop_last(), k)
    }
}

/// The view of a registry entry.
pub open spec fn trigger_entry_view(e: (String, TriggerInfo)) -> (Seq<char>, TriggerView) {
    (e.0@, e.1@)
}

/// Maps each TauRPC event-trigger type to the enum its events were lifted
/// into, and records the enums and Router factories of every migrated file.
pub struct EventRegistry {
    triggers: Vec<(String, TriggerInfo)>,
    enums: Vec<String>,
    derive_on: Vec<String>,
    router_factories: Vec<String>,
}

/// The event-trigger type of a trait: its custom trigger, or TauRPC's
/// default `TauRpc{Trait}EventTrigger`.
pub open spec fn trigger_spec(t: TraitEvents) -> Seq<char> {
    match t.custom_trigger {
        Some(c) => c@,
        None => "TauRpc"@ + t.trait_name@ + "EventTrigger"@,
    }
}

/// The optional namespace's characters.
pub open spec fn ns_view(t: TraitEvents) -> Option<Seq<char>> {
    match t.namespace {
        Some(ns) => Some(ns@),
        None => None,
    }
}

/// Whether a parameter's type is one ttipc supplies.
pub open spec fn param_injected(p: (Option<String>, Option<String>)) -> bool {
    injected_spec(match p.1 {
        Some(s) => Some(s@),
        None => None,
    })
}

/// The payload (not injected) parameters among `ps`, in order.
pub open spec fn payload_of(ps: Seq<(Option<String>, Option<String>)>) -> Seq<(Option<String>, Option<String>)>
    decreases ps.len(),
{
    if ps.len() == 0 {
        Seq::empty()
    } else {
        payload_of(ps.drop_last()) + if param_injected(ps.last()) {
            Seq::empty()
        } else {
            seq![ps.last()]
        }
    }
}

/// The identifiers of the named parameters among `ps`, in order.
pub open spec fn named_of(ps: Seq<(Option<String>, Option<String>)>) -> Seq<Seq<char>>
    decreases ps.len(),
{
    if ps.len() == 0 {
        Seq::empty()
    } else {
        named_of(ps.drop_last()) + match ps.last().0 {
            Some(n) => seq![n@],
            None => Seq::empty(),
        }
    }
}

/// The parameters of an event method that are payload, not injected.
pub open spec fn payload_params(m: EventMethodShape) -> Seq<(Option<String>, Option<String>)> {
    payload_of(m.params@)
}

/// The payload-enum event pattern: a single-level namespace, exactly one
/// event method, exactly one payload parameter, whose type's last segment is
/// the namespace's event enum (the one `event_enum_name` names: the namespace with
/// its first character uppercased, then `Event`). Yields the event
/// method and the enum.
pub open spec fn payload_enum_spec(t: TraitEvents) -> Option<(Seq<char>, Seq<char>)> {
    match t.namespace {
        None => None,
        Some(ns) => if ns@.contains('.') || t.event_methods@.len() != 1
            || payload_params(t.event_methods@[0]).len() != 1 {
            None
        } else {
            match payload_params(t.event_methods@[0])[0].1 {
                None => None,
                Some(e) => if e@ == upper_first_spec(ns@) + "Event"@ {
                    Some((t.event_methods@[0].name@, e@))
                } else {
                    None
                },
            }
        },
    }
}

/// The named parameters of an event method: its variant's fields.
pub open spec fn field_names(m: EventMethodShape) -> Seq<Seq<char>> {
    named_of(m.params@)
}

/// The variant an event method becomes.
pub open spec fn method_variant(m: EventMethodShape) -> (Seq<char>, VariantView) {
    (m.name@, VariantView { variant: pascal_case_spec(m.name@), fields: field_names(m) })
}

/// The registry entry a trait contributes, if any.
pub open spec fn trait_entry(t: TraitEvents) -> Option<(Seq<char>, TriggerView)> {
    match payload_enum_spec(t) {
        Some((m, e)) => Some((trigger_spec(t), TriggerView { enum_name: e, methods: Seq::empty(), payload_method: Some(m) })),
        None => if t.event_methods@.len() == 0 {
            None
        } else {
            Some((
                trigger_spec(t),
                TriggerView {
                    enum_name: event_enum_name_spec(t.trait_name@, ns_view(t)),
                    methods: t.event_methods@.map_values(|m: EventMethodShape| method_variant(m)),
                    payload_method: None,
                },
            ))
        },
    }
}

/// The in-file payload enum a trait makes derive the event, if any.
pub open spec fn trait_derive(t: TraitEvents, enums: Set<Seq<char>>) -> Option<Seq<char>> {
    match payload_enum_spec(t) {
        Some((_, e)) => if enums.contains(e) { Some(e) } else { None },
        None => None,
    }
}

/// The entries a list of traits contributes, in order.
pub open spec fn entries_of(ts: Seq<TraitEvents>) -> Seq<(Seq<char>, TriggerView)>
    decreases ts.len(),
{
    if ts.len() == 0 {
        Seq::empty()
    } else {
        entries_of(ts.drop_last()) + match trait_entry(ts.last()) {
            Some(e) => seq![e],
            None => Seq::empty(),
        }
    }
}

/// The derive targets a list of traits contributes, in order.
pub open spec fn derives_of(ts: Seq<TraitEvents>, enums: Set<Seq<char>>) -> Seq<Seq<char>>
    decreases ts.len(),
{
    if ts.len() == 0 {
        Seq::empty()
    } else {
        derives_of(ts.drop_last(), enums) + match trait_derive(ts.last(), enums) {
            Some(e) => seq![e],
            None => Seq::empty(),
        }
    }
}

/// The decision for a trait's `#[taurpc(event)]` methods.
pub enum EventLift {
    /// The trait has no event methods.
    NoEvents,
    /// Payload-enum pattern with the enum in a migrated file: the enum
    /// derives the event itself.
    PayloadInFile,
    /// Payload-enum pattern with an external enum: flagged for a manual
    /// derive.
    PayloadExternal,
    /// The methods become the variants of a new enum of this name; flagged
    /// when the namespace is multi-level.
    Lift { enum_name: String, multi_level: bool },
}

/// What a trait's event lift adds to the migration's findings: the payload
/// enum deriving the event itself, an external payload enum to derive by
/// hand, or a lifted enum (and a multi-level namespace, when it has one).
pub fn note_event_lift(findings: &mut Findings, lift: &EventLift)
    ensures
        *final(findings) == (match *lift {
            EventLift::NoEvents => *old(findings),
            EventLift::PayloadInFile => (Findings { events_payload_enum: true, ..*old(findings) }),
            EventLift::PayloadExternal => (Findings { event_payload_external: true, ..*old(findings) }),
            EventLift::Lift { multi_level, .. } => (Findings {
                events_lifted: true,
                multi_level_event: old(findings).multi_level_event || multi_level,
                ..*old(findings)
            }),
        }),
{
    match lift {
        EventLift::NoEvents => {},
        EventLift::PayloadInFile => {
            findings.events_payload_enum = true;
        },
        EventLift::PayloadExternal => {
            findings.event_payload_external = true;
        },
        EventLift::Lift { multi_level, .. } => {
            findings.events_lifted = true;
            if *multi_level {
                findings.multi_level_event = true;
            }
        },
    }
}

/// The plan of an emit-site rewrite.
pub enum EmitPlan {
    /// The payload value itself is the event: `payload.emit(&h)`.
    Payload,
    /// `Enum::Variant { fields: args.. }.emit(&h)`, the call's arguments in
    /// field order.
    Variant { enum_name: String, variant: String, fields: Vec<String> },
}

/// What the registry reads of one migrated file.
pub struct FileFacts {
    /// Every enum the file defines.
    pub enums: Vec<String>,
    /// Every function returning `Router<..>` (a Router factory).
    pub router_factories: Vec<String>,
    /// Every `#[taurpc::procedures]` trait, in order.
    pub traits: Vec<TraitEvents>,
}

/// The enums defined across the files.
pub open spec fn enums_of_files(files: Seq<FileFacts>) -> Set<Seq<char>>
    decreases files.len(),
{
    if files.len() == 0 {
        Set::empty()
    } else {
        enums_of_files(files.drop_last()) + string_views(files.last().enums@).to_set()
    }
}

/// The Router factories defined across the files.
pub open spec fn factories_of_files(files: Seq<FileFacts>) -> Set<Seq<char>>
    decreases files.len(),
{
    if files.len() == 0 {
        Set::empty()
    } else {
        factories_of_files(files.drop_last()) + string_views(files.last().router_factories@).to_set()
    }
}

/// The procedures traits across the files, file by file.
pub open spec fn traits_of_files(files: Seq<FileFacts>) -> Seq<TraitEvents>
    decreases files.len(),
{
    if files.len() == 0 {
        Seq::empty()
    } else {
        traits_of_files(files.drop_last()) + files.last().traits@
    }
}

/// The entries of two lists of traits, one after the other.
proof fn lemma_entries_of_concat(a: Seq<TraitEvents>, b: Seq<TraitEvents>)
    ensures
        entries_of(a + b) == entries_of(a) + entries_of(b),
    decreases b.len(),
{
    if b.len() == 0 {
        assert(a + b =~= a);
        assert(entries_of(a) + entries_of(b) =~= entries_of(a));
    } else {
        lemma_entries_of_concat(a, b.drop_last());
        assert((a + b).drop_last() =~= a + b.drop_last());
        assert((a + b).last() == b.last());
    }
}

/// The derive targets of two lists of traits, one after the other.
proof fn lemma_derives_of_concat(a: Seq<TraitEvents>, b: Seq<TraitEvents>, enums: Set<Seq<char>>)
    ensures
        derives_of(a + b, enums) == derives_of(a, enums) + derives_of(b, enums),
    decreases b.len(),
{
    if b.len() == 0 {
        assert(a + b =~= a);
        assert(derives_of(a, enums) + derives_of(b, enums) =~= derives_of(a, enums));
    } else {
        lemma_derives_of_concat(a, b.drop_last(), enums);
        assert((a + b).drop_last() =~= a + b.drop_last());
        assert((a + b).last() == b.last());
    }
}

impl EventRegistry {
    /// The trigger entries, in insertion order.
    pub closed spec fn trigger_entries(&self) -> Seq<(Seq<char>, TriggerView)> {
        self.triggers@.map_values(|e: (String, TriggerInfo)| trigger_entry_view(e))
    }

    /// Every enum defined across the migrated files.
    pub closed spec fn enum_names(&self) -> Set<Seq<char>> {
        string_views(self.enums@).to_set()
    }

    /// The in-file payload enums that gain the event derive.
    pub closed spec fn derive_targets(&self) -> Seq<Seq<char>> {
        string_views(self.derive_on@)
    }

    /// The Router-factory functions across the migrated files.
    pub closed spec fn factory_names(&self) -> Set<Seq<char>> {
        string_views(self.router_factories@).to_set()
    }

    /// An empty registry.
    pub fn new() -> (r: Self)
        ensures
            r.trigger_entries() == Seq::<(Seq<char>, TriggerView)>::empty(),
            r.enum_names() == Set::<Seq<char>>::empty(),
            r.derive_targets() == Seq::<Seq<char>>::empty(),
            r.factory_names() == Set::<Seq<char>>::empty(),
    {
        let r = EventRegistry { triggers: Vec::new(), enums: Vec::new(), derive_on: Vec::new(), router_factories: Vec::new() };
        assert(r.trigger_entries() =~= Seq::<(Seq<char>, TriggerView)>::empty());
        assert(r.enum_names() =~= Set::<Seq<char>>::empty());
        assert(r.derive_targets() =~= Seq::<Seq<char>>::empty());
        assert(r.factory_names() =~= Set::<Seq<char>>::empty());
        r
    }

    /// Records an enum defined in a migrated file.
    pub fn add_enum(&mut self, name: String)
        ensures
            final(self).enum_names() == old(self).enum_names().insert(name@),
            final(self).trigger_entries() == old(self).trigger_entries(),
            final(self).derive_targets() == old(self).derive_targets(),
            final(self).factory_names() == old(self).factory_names(),
    {
        let ghost before = string_views(self.enums@);
        self.enums.push(name);
        proof {
            assert(string_views(self.enums@) =~= before.push(name@));
            before.lemma_push_to_set_commute(name@);
        }
    }

    /// Records a Router-factory function (one returning `Router<..>`).
    pub fn add_router_factory(&mut self, name: String)
        ensures
            final(self).factory_names() == old(self).factory_names().insert(name@),
            final(self).trigger_entries() == old(self).trigger_entries(),
            final(self).derive_targets() == old(self).derive_targets(),
            final(self).enum_names() == old(self).enum_names(),
    {
        let ghost before = string_views(self.router_factories@);
        self.router_factories.push(name);
        proof {
            assert(string_views(self.router_factories@) =~= before.push(name@));
            before.lemma_push_to_set_commute(name@);
        }
    }

    /// Records every enum of a file.
    pub fn add_enums(&mut self, names: &Vec<String>)
        ensures
            final(self).enum_names() == old(self).enum_names() + string_views(names@).to_set(),
            final(self).trigger_entries() == old(self).trigger_entries(),
            final(self).derive_targets() == old(self).derive_targets(),
            final(self).factory_names() == old(self).factory_names(),
    {
        let ghost start = self.enum_names();
        let mut i: usize = 0;
        assert(string_views(names@.take(0)).to_set() =~= Set::<Seq<char>>::empty());
        assert(start + Set::<Seq<char>>::empty() =~= start);
        while i < names.len()
            invariant
                i <= names@.len(),
                self.enum_names() == start + string_views(names@.take(i as int)).to_set(),
                self.trigger_entries() == old(self).trigger_entries(),
                self.derive_targets() == old(self).derive_targets(),
                self.factory_names() == old(self).factory_names(),
            decreases names.len() - i,
        {
            self.add_enum(names[i].clone());
            proof {
                assert(string_views(names@.take(i + 1)) =~= string_views(names@.take(i as int)).push(names@[i as int]@));
                string_views(names@.take(i as int)).lemma_push_to_set_commute(names@[i as int]@);
            }
            i += 1;
            assert(self.enum_names() =~= start + string_views(names@.take(i as int)).to_set());
        }
        assert(names@.take(names@.len() as int) =~= names@);
    }

    /// Records every Router factory of a file.
    pub fn add_router_factories(&mut self, names: &Vec<String>)
        ensures
            final(self).factory_names() == old(self).factory_names() + string_views(names@).to_set(),
            final(self).trigger_entries() == old(self).trigger_entries(),
            final(self).derive_targets() == old(self).derive_targets(),
            final(self).enum_names() == old(self).enum_names(),
    {
        let ghost start = self.factory_names();
        let mut i: usize = 0;
        assert(string_views(names@.take(0)).to_set() =~= Set::<Seq<char>>::empty());
        assert(start + Set::<Seq<char>>::empty() =~= start);
        while i < names.len()
            invariant
                i <= names@.len(),
                self.factory_names() == start + string_views(names@.take(i as int)).to_set(),
                self.trigger_entries() == old(self).trigger_entries(),
                self.derive_targets() == old(self).derive_targets(),
                self.enum_names() == old(self).enum_names(),
            decreases names.len() - i,
        {
            self.add_router_factory(names[i].clone());
            proof {
                assert(string_views(names@.take(i + 1)) =~= string_views(names@.take(i as int)).push(names@[i as int]@));
                string_views(names@.take(i as int)).lemma_push_to_set_commute(names@[i as int]@);
            }
            i += 1;
            assert(self.factory_names() =~= start + string_views(names@.take(i as int)).to_set());
        }
        assert(names@.take(names@.len() as int) =~= names@);
    }

    /// The registry of a whole migration: every file's enums and Router
    /// factories first, then every file's events, so that a payload enum
    /// defined in any file is known when a trait in another file names it.
    pub fn from_files(files: &Vec<FileFacts>) -> (r: Self)
        ensures
            r.enum_names() == enums_of_files(files@),
            r.factory_names() == factories_of_files(files@),
            r.trigger_entries() == entries_of(traits_of_files(files@)),
            r.derive_targets() == derives_of(traits_of_files(files@), enums_of_files(files@)),
    {
        let mut r = EventRegistry::new();
        let mut i: usize = 0;
        assert(files@.take(0) =~= Seq::<FileFacts>::empty());
        while i < files.len()
            invariant
                i <= files@.len(),
                r.enum_names() == enums_of_files(files@.take(i as int)),
                r.factory_names() == factories_of_files(files@.take(i as int)),
                r.trigger_entries() == Seq::<(Seq<char>, TriggerView)>::empty(),
                r.derive_targets() == Seq::<Seq<char>>::empty(),
            decreases files.len() - i,
        {
            r.add_enums(&files[i].enums);
            r.add_router_factories(&files[i].router_factories);
            assert(files@.take(i + 1).drop_last() =~= files@.take(i as int));
            i += 1;
        }
        assert(files@.take(files@.len() as int) =~= files@);
        let ghost all_enums = r.enum_names();
        let mut j: usize = 0;
        assert(traits_of_files(files@.take(0)) =~= Seq::<TraitEvents>::empty());
        while j < files.len()
            invariant
                j <= files@.len(),
                all_enums == enums_of_files(files@),
                r.enum_names() == all_enums,
                r.factory_names() == factories_of_files(files@),
                r.trigger_entries() == entries_of(traits_of_files(files@.take(j as int))),
                r.derive_targets() == derives_of(traits_of_files(files@.take(j as int)), all_enums),
            decreases files.len() - j,
        {
            let ghost done = traits_of_files(files@.take(j as int));
            r.extract_events(&files[j].traits);
            proof {
                assert(files@.take(j + 1).drop_last() =~= files@.take(j as int));
                assert(traits_of_files(files@.take(j + 1)) == done + files@[j as int].traits@);
                lemma_entries_of_concat(done, files@[j as int].traits@);
                lemma_derives_of_concat(done, files@[j as int].traits@, all_enums);
            }
            j += 1;
        }
        r
    }

    /// Whether `name` is a Router-factory function.
    pub fn is_router_factory(&self, name: &str) -> (r: bool)
        ensures
            r == self.factory_names().contains(name@),
    {
        contains_name(&self.router_factories, name)
    }

    /// Whether the payload enum `name` gains the event derive.
    pub fn derives_event(&self, name: &str) -> (r: bool)
        ensures
            r == self.derive_targets().contains(name@),
    {
        let r = contains_name(&self.derive_on, name);
        r
    }

    /// Whether any trigger is registered.
    pub fn has_triggers(&self) -> (r: bool)
        ensures
            r == (self.trigger_entries().len() > 0),
    {
        self.triggers.len() > 0
    }

    /// The position of the last entry for `trigger`.
    fn trigger_position(&self, trigger: &str) -> (r: Option<usize>)
        ensures
            match r {
                Some(i) => i < self.triggers@.len() && lookup_last(self.trigger_entries(), trigger@) == Some(self.triggers@[i as int].1@),
                None => lookup_last(self.trigger_entries(), trigger@) is None,
            },
    {
        let mut i: usize = self.triggers.len();
        assert(self.trigger_entries().take(i as int) =~= self.trigger_entries());
        while i > 0
            invariant
                i <= self.triggers@.len(),
                lookup_last(self.trigger_entries(), trigger@) == lookup_last(self.trigger_entries().take(i as int), trigger@),
            decreases i,
        {
            let ghost prefix = self.trigger_entries().take(i as int);
            assert(prefix.drop_last() =~= self.trigger_entries().take(i - 1));
            assert(prefix.last() == trigger_entry_view(self.triggers@[i - 1]));
            if same_text(self.triggers[i - 1].0.as_str(), trigger) {
                return Some(i - 1);
            }
            i -= 1;
        }
        assert(self.trigger_entries().take(0) =~= Seq::<(Seq<char>, TriggerView)>::empty());
        None
    }

    /// Whether `trigger` is a registered trigger type.
    pub fn has_trigger(&self, trigger: &str) -> (r: bool)
        ensures
            r == (lookup_last(self.trigger_entries(), trigger@) is Some),
    {
        match self.trigger_position(trigger) {
            Some(_) => true,
            None => false,
        }
    }

    /// Records the events of every `#[taurpc::procedures]` trait of a file:
    /// a payload-enum trait maps its trigger to that enum (which gains the
    /// event derive when a migrated file defines it); any other trait with
    /// event methods maps its trigger to the lifted enum, one variant per
    /// method.
    pub fn extract_events(&mut self, traits: &Vec<TraitEvents>)
        ensures
            final(self).trigger_entries() == old(self).trigger_entries() + entries_of(traits@),
            final(self).derive_targets() == old(self).derive_targets() + derives_of(traits@, old(self).enum_names()),
            final(self).enum_names() == old(self).enum_names(),
            final(self).factory_names() == old(self).factory_names(),
    {
        let ghost start = *self;
        let mut i: usize = 0;
        while i < traits.len()
            invariant
                i <= traits@.len(),
                self.trigger_entries() == start.trigger_entries() + entries_of(traits@.take(i as int)),
                self.derive_targets() == start.derive_targets() + derives_of(traits@.take(i as int), start.enum_names()),
                self.enum_names() == start.enum_names(),
                self.factory_names() == start.factory_names(),
            decreases traits.len() - i,
        {
            let t = &traits[i];
            assert(traits@.take(i + 1).drop_last() =~= traits@.take(i as int));
            assert(traits@.take(i + 1).last() == traits@[i as int]);
            let trig = trigger_name(t.trait_name.as_str(), t.custom_trigger.clone());
            assert(trig@ == trigger_spec(*t));
            match payload_enum(t) {
                Some((method, enum_name)) => {
                    let ghost before_d = self.derive_targets();
                    if contains_name(&self.enums, enum_name.as_str()) {
                        self.derive_on.push(enum_name.clone());
                        assert(self.derive_targets() =~= before_d.push(enum_name@));
                    }
                    let ghost before_t = self.trigger_entries();
                    let info = TriggerInfo { enum_name, methods: Vec::new(), payload_method: Some(method) };
                    assert(info@.methods =~= Seq::<(Seq<char>, VariantView)>::empty());
                    self.triggers.push((trig, info));
                    assert(self.trigger_entries() =~= before_t.push(trigger_entry_view((trig, info))));
                },
                None => {
                    let ms = &t.event_methods;
                    if ms.len() > 0 {
                        let mut methods: Vec<(String, VariantInfo)> = Vec::new();
                        let mut k: usize = 0;
                        assert(ms@.take(0).map_values(|m: EventMethodShape| method_variant(m)) =~= Seq::<(Seq<char>, VariantView)>::empty());
                        assert(methods@.map_values(|e: (String, VariantInfo)| method_entry_view(e)) =~= Seq::<(Seq<char>, VariantView)>::empty());
                        while k < ms.len()
                            invariant
                                k <= ms@.len(),
                                methods@.map_values(|e: (String, VariantInfo)| method_entry_view(e))
                                    == ms@.take(k as int).map_values(|m: EventMethodShape| method_variant(m)),
                            decreases ms.len() - k,
                        {
                            let m = &ms[k];
                            let fields = named_fields(m);
                            let entry = (m.name.clone(), VariantInfo { variant: pascal_case(m.name.as_str()), fields });
                            let ghost before_m = methods@;
                            assert(method_entry_view(entry) == method_variant(ms@[k as int]));
                            assert(ms@.take(k + 1) =~= ms@.take(k as int).push(ms@[k as int]));
                            let ghost ev = method_entry_view(entry);
                            methods.push(entry);
                            assert(methods@.map_values(|e: (String, VariantInfo)| method_entry_view(e))
                                =~= before_m.map_values(|e: (String, VariantInfo)| method_entry_view(e)).push(ev));
                            assert(ms@.take(k + 1).map_values(|m: EventMethodShape| method_variant(m))
                                =~= ms@.take(k as int).map_values(|m: EventMethodShape| method_variant(m)).push(method_variant(ms@[k as int])));
                            assert(methods@.map_values(|e: (String, VariantInfo)| method_entry_view(e))
                                =~= ms@.take(k + 1).map_values(|m: EventMethodShape| method_variant(m)));
                            k += 1;
                        }
                        assert(ms@.take(ms@.len() as int) =~= ms@);
                        let ns = match &t.namespace {
                            Some(ns) => Some(ns.as_str()),
                            None => None,
                        };
                        let enum_name = event_enum_name(t.trait_name.as_str(), ns);
                        let info = TriggerInfo { enum_name, methods, payload_method: None };
                        let ghost before_t = self.trigger_entries();
                        self.triggers.push((trig, info));
                        assert(self.trigger_entries() =~= before_t.push(trigger_entry_view((trig, info))));
                    }
                },
            }
            i += 1;
        }
        assert(traits@.take(traits@.len() as int) =~= traits@);
    }

    /// The decision for a trait's `#[taurpc(event)]` methods, read against
    /// the registry: none to lift; the payload-enum pattern (derived in place
    /// when a migrated file defines the enum, flagged otherwise); or a new
    /// enum named so its event group equals the namespace.
    pub fn event_lift(&self, t: &TraitEvents) -> (r: EventLift)
        ensures
            t.event_methods@.len() == 0 ==> r is NoEvents,
            t.event_methods@.len() > 0 ==> match lookup_last(self.trigger_entries(), trigger_spec(*t)) {
                Some(info) if info.payload_method is Some => if self.derive_targets().contains(info.enum_name) {
                    r is PayloadInFile
                } else {
                    r is PayloadExternal
                },
                _ => r matches EventLift::Lift { enum_name, multi_level }
                    && enum_name@ == event_enum_name_spec(t.trait_name@, ns_view(*t))
                    && multi_level == (ns_view(*t) matches Some(ns) && ns.contains('.')),
            },
    {
        if t.event_methods.len() == 0 {
            return EventLift::NoEvents;
        }
        let trig = trigger_name(t.trait_name.as_str(), t.custom_trigger.clone());
        if let Some(i) = self.trigger_position(trig.as_str()) {
            let info = &self.triggers[i].1;
            if info.payload_method.is_some() {
                if self.derives_event(info.enum_name.as_str()) {
                    return EventLift::PayloadInFile;
                } else {
                    return EventLift::PayloadExternal;
                }
            }
        }
        let ns = match &t.namespace {
            Some(ns) => Some(ns.as_str()),
            None => None,
        };
        let multi_level = match ns {
            Some(n) => has_char(n, '.'),
            None => false,
        };
        EventLift::Lift { enum_name: event_enum_name(t.trait_name.as_str(), ns), multi_level }
    }

    /// The rewrite of an emit site `Trigger::new(h).method(args)` (or its
    /// `.send_to(target)` form): for a payload-enum trigger, a call of its
    /// event method with one argument emits that argument; otherwise a
    /// registered event method called with as many arguments as its variant
    /// has fields builds that variant. Anything else is left alone.
    pub fn emit_plan(&self, trigger: &str, method: &str, arg_count: usize) -> (r: Option<EmitPlan>)
        ensures
            match lookup_last(self.trigger_entries(), trigger@) {
                None => r is None,
                Some(info) => match info.payload_method {
                    Some(m) => if m == method@ && arg_count == 1 {
                        r matches Some(EmitPlan::Payload)
                    } else {
                        r is None
                    },
                    None => match lookup_last(info.methods, method@) {
                        None => r is None,
                        Some(v) => if v.fields.len() == arg_count {
                            r matches Some(EmitPlan::Variant { enum_name, variant, fields })
                                && enum_name@ == info.enum_name
                                && variant@ == v.variant
                                && string_views(fields@) == v.fields
                        } else {
                            r is None
                        },
                    },
                },
            },
    {
        let i = match self.trigger_position(trigger) {
            None => return None,
            Some(i) => i,
        };
        let info = &self.triggers[i].1;
        if let Some(m) = &info.payload_method {
            if same_text(m.as_str(), method) && arg_count == 1 {
                return Some(EmitPlan::Payload);
            }
            return None;
        }
        let mut k: usize = info.methods.len();
        let ghost views = info.methods@.map_values(|e: (String, VariantInfo)| method_entry_view(e));
        assert(views.take(k as int) =~= views);
        while k > 0
            invariant
                lookup_last(self.trigger_entries(), trigger@) == Some(info@),
                info.payload_method is None,
                k <= info.methods@.len(),
                views == info.methods@.map_values(|e: (String, VariantInfo)| method_entry_view(e)),
                lookup_last(views, method@) == lookup_last(views.take(k as int), method@),
            decreases k,
        {
            assert(views.take(k as int).drop_last() =~= views.take(k - 1));
            assert(views.take(k as int).last() == method_entry_view(info.methods@[k - 1]));
            if same_text(info.methods[k - 1].0.as_str(), method) {
                let v = &info.methods[k - 1].1;
                if v.fields.len() != arg_count {
                    return None;
                }
                let fields = copy_strings(&v.fields);
                return Some(EmitPlan::Variant { enum_name: info.enum_name.clone(), variant: v.variant.clone(), fields });
            }
            k -= 1;
        }
        assert(views.take(0) =~= Seq::<(Seq<char>, VariantView)>::empty());
        None
    }
}

/// Whether `name` is among `names`.
fn contains_name(names: &Vec<String>, name: &str) -> (r: bool)
    ensures
        r == string_views(names@).contains(name@),
        r == string_views(names@).to_set().contains(name@),
{
    let mut i: usize = 0;
    while i < names.len()
        invariant
            i <= names@.len(),
            forall|j: int| 0 <= j < i ==> names@[j]@ != name@,
        decreases names.len() - i,
    {
        if same_text(names[i].as_str(), name) {
            assert(string_views(names@)[i as int] == name@);
            return true;
        }
        i += 1;
    }
    false
}

/// Copies a list of strings.
fn copy_strings(v: &Vec<String>) -> (out: Vec<String>)
    ensures
        string_views(out@) == string_views(v@),
{
    let mut out: Vec<String> = Vec::new();
    let mut i: usize = 0;
    assert(string_views(out@) =~= string_views(v@.take(0)));
    while i < v.len()
        invariant
            i <= v@.len(),
            string_views(out@) == string_views(v@.take(i as int)),
        decreases v.len() - i,
    {
        let ghost before = out@;
        out.push(v[i].clone());
        assert(string_views(out@) =~= string_views(before).push(v@[i as int]@));
        assert(v@.take(i + 1) =~= v@.take(i as int).push(v@[i as int]));
        assert(string_views(v@.take(i + 1)) =~= string_views(v@.take(i as int)).push(v@[i as int]@));
        i += 1;
    }
    assert(v@.take(v@.len() as int) =~= v@);
    out
}

/// The named parameters of an event method.
fn named_fields(m: &EventMethodShape) -> (out: Vec<String>)
    ensures
        string_views(out@) == field_names(*m),
{
    let mut out: Vec<String> = Vec::new();
    let mut i: usize = 0;
    assert(string_views(out@) =~= Seq::<Seq<char>>::empty());
    while i < m.params.len()
        invariant
            i <= m.params@.len(),
            string_views(out@) == named_of(m.params@.take(i as int)),
        decreases m.params.len() - i,
    {
        let ghost before = out@;
        assert(m.params@.take(i + 1).drop_last() =~= m.params@.take(i as int));
        assert(m.params@.take(i + 1).last() == m.params@[i as int]);
        if let Some(name) = &m.params[i].0 {
            out.push(name.clone());
            assert(string_views(out@) =~= string_views(before).push(name@));
        }
        assert(string_views(out@) =~= named_of(m.params@.take(i + 1)));
        i += 1;
    }
    assert(m.params@.take(m.params@.len() as int) =~= m.params@);
    out
}

/// The payload-enum event of a trait, if it uses that pattern: the event
/// method and the enum.
pub fn payload_enum(t: &TraitEvents) -> (r: Option<(String, String)>)
    ensures
        match (r, payload_enum_spec(*t)) {
            (Some((m, e)), Some((ms, es))) => m@ == ms && e@ == es,
            (None, None) => true,
            _ => false,
        },
{
    let ns = match &t.namespace {
        None => return None,
        Some(ns) => ns,
    };
    if has_char(ns.as_str(), '.') || t.event_methods.len() != 1 {
        return None;
    }
    let m = &t.event_methods[0];
    let mut payload: Option<Option<String>> = None;
    let mut count: usize = 0;
    let mut i: usize = 0;
    while i < m.params.len()
        invariant
            i <= m.params@.len(),
            count as int == payload_params_prefix(*m, i as int).len(),
            count <= i,
            count >= 1 ==> (payload matches Some(p) && p == payload_params_prefix(*m, i as int)[0].1),
        decreases m.params.len() - i,
    {
        proof {
            assert(m.params@.take(i + 1).drop_last() =~= m.params@.take(i as int));
            assert(m.params@.take(i + 1).last() == m.params@[i as int]);
        }
        let last = match &m.params[i].1 {
            Some(s) => Some(s.as_str()),
            None => None,
        };
        if !is_injected_ty(last) {
            if count == 0 {
                payload = Some(m.params[i].1.clone());
            }
            count += 1;
            proof {
                if count >= 2 {
                    assert(payload_params_prefix(*m, (i + 1) as int)[0] == payload_params_prefix(*m, i as int)[0]);
                }
            }
        }
        i += 1;
    }
    assert(m.params@.take(m.params@.len() as int) =~= m.params@);
    if count != 1 {
        return None;
    }
    let enum_name = match payload {
        Some(Some(e)) => e,
        _ => return None,
    };
    let mut expected = upper_first(ns.as_str());
    expected.push('E');
    expected.push('v');
    expected.push('e');
    expected.push('n');
    expected.push('t');
    proof {
        reveal_strlit("Event");
        assert(expected@ =~= upper_first_spec(ns@) + "Event"@);
    }
    if same_text(enum_name.as_str(), expected.as_str()) {
        Some((m.name.clone(), enum_name))
    } else {
        None
    }
}

/// The payload parameters among the first `n` parameters of an event method.
pub open spec fn payload_params_prefix(m: EventMethodShape, n: int) -> Seq<(Option<String>, Option<String>)> {
    payload_of(m.params@.take(n))
}

/// A key that some entry carries is found.
proof fn lemma_lookup_last_found<V>(entries: Seq<(Seq<char>, V)>, i: int)
    requires
        0 <= i < entries.len(),
    ensures
        lookup_last(entries, entries[i].0) is Some,
    decreases entries.len(),
{
    if entries.last().0 != entries[i].0 {
        assert(i < entries.len() - 1);
        assert(entries.drop_last()[i] == entries[i]);
        lemma_lookup_last_found(entries.drop_last(), i);
    }
}

/// The entry a trait contributes is among the entries of a list holding it.
proof fn lemma_entry_listed(ts: Seq<TraitEvents>, j: int)
    requires
        0 <= j < ts.len(),
        trait_entry(ts[j]) is Some,
    ensures
        exists|i: int| 0 <= i < entries_of(ts).len() && #[trigger] entries_of(ts)[i] == trait_entry(ts[j])->Some_0,
    decreases ts.len(),
{
    let rest = ts.drop_last();
    if j == ts.len() - 1 {
        let i = entries_of(rest).len() as int;
        assert(entries_of(ts)[i] == trait_entry(ts[j])->Some_0);
    } else {
        assert(rest[j] == ts[j]);
        lemma_entry_listed(rest, j);
        let i = choose|i: int| 0 <= i < entries_of(rest).len() && #[trigger] entries_of(rest)[i] == trait_entry(rest[j])->Some_0;
        assert(entries_of(ts)[i] == entries_of(rest)[i]);
    }
}

/// Every trait of every file is among the files' traits.
proof fn lemma_file_trait_listed(files: Seq<FileFacts>, k: int, j: int)
    requires
        0 <= k < files.len(),
        0 <= j < files[k].traits@.len(),
    ensures
        exists|i: int| 0 <= i < traits_of_files(files).len() && #[trigger] traits_of_files(files)[i] == files[k].traits@[j],
    decreases files.len(),
{
    let rest = files.drop_last();
    if k == files.len() - 1 {
        let i = traits_of_files(rest).len() + j;
        assert(traits_of_files(files)[i] == files[k].traits@[j]);
    } else {
        assert(rest[k] == files[k]);
        lemma_file_trait_listed(rest, k, j);
        let i = choose|i: int| 0 <= i < traits_of_files(rest).len() && #[trigger] traits_of_files(rest)[i] == rest[k].traits@[j];
        assert(traits_of_files(files)[i] == traits_of_files(rest)[i]);
    }
}

/// An emit site resolves even when its trait lives in another file: the
/// registry built from every file knows the trigger of every trait that
/// contributes events, wherever that trait is declared.
pub proof fn lemma_trigger_known_across_files(files: Seq<FileFacts>, k: int, j: int)
    requires
        0 <= k < files.len(),
        0 <= j < files[k].traits@.len(),
        trait_entry(files[k].traits@[j]) is Some,
    ensures
        lookup_last(entries_of(traits_of_files(files)), trigger_spec(files[k].traits@[j])) is Some,
{
    let t = files[k].traits@[j];
    let all = traits_of_files(files);
    lemma_file_trait_listed(files, k, j);
    let i = choose|i: int| 0 <= i < all.len() && #[trigger] all[i] == t;
    lemma_entry_listed(all, i);
    let e = choose|e: int| 0 <= e < entries_of(all).len() && #[trigger] entries_of(all)[e] == trait_entry(all[i])->Some_0;
    assert(entries_of(all)[e].0 == trigger_spec(t));
    lemma_lookup_last_found(entries_of(all), e);
}

} // verus!
