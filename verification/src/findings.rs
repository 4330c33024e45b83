//! What the migration did to a file, and the header comment that lists the
//! manual follow-ups it could not do itself.

use vstd::prelude::*;
use crate::text::{owned, push_str};

verus! {

/// What the transform did, so it can flag the steps it cannot do itself.
#[derive(PartialEq, Eq, Structural, Clone, Copy, Debug)]
pub struct Findings {
    pub transformed: bool,
    pub result_returns: bool,
    pub dropped_generics: bool,
    pub channels: bool,
    pub deasynced: bool,
    pub async_injection: bool,
    pub window_param: bool,
    pub ipc_type_converted: bool,
    pub events_lifted: bool,
    pub events_payload_enum: bool,
    pub event_payload_external: bool,
    pub multi_level_event: bool,
    pub alias_dropped: bool,
    pub mount_rewritten: bool,
    pub emits_rewritten: bool,
    pub emits_unresolved: bool,
}

impl Findings {
    /// Nothing done, nothing flagged.
    pub fn none() -> (f: Findings)
        ensures
            f == findings_none(),
    {
        Findings {
            transformed: false,
            result_returns: false,
            dropped_generics: false,
            channels: false,
            deasynced: false,
            async_injection: false,
            window_param: false,
            ipc_type_converted: false,
            events_lifted: false,
            events_payload_enum: false,
            event_payload_external: false,
            multi_level_event: false,
            alias_dropped: false,
            mount_rewritten: false,
            emits_rewritten: false,
            emits_unresolved: false,
        }
    }
}

impl Default for Findings {
    fn default() -> (f: Findings)
        ensures
            f == findings_none(),
    {
        Findings::none()
    }
}

/// The findings with every flag off.
pub open spec fn findings_none() -> Findings {
    Findings {
        transformed: false,
        result_returns: false,
        dropped_generics: false,
        channels: false,
        deasynced: false,
        async_injection: false,
        window_param: false,
        ipc_type_converted: false,
        events_lifted: false,
        events_payload_enum: false,
        event_payload_external: false,
        multi_level_event: false,
        alias_dropped: false,
        mount_rewritten: false,
        emits_rewritten: false,
        emits_unresolved: false,
    }
}

/// Every flag of `a` or `b`.
pub open spec fn findings_or(a: Findings, b: Findings) -> Findings {
    Findings {
        transformed: a.transformed || b.transformed,
        result_returns: a.result_returns || b.result_returns,
        dropped_generics: a.dropped_generics || b.dropped_generics,
        channels: a.channels || b.channels,
        deasynced: a.deasynced || b.deasynced,
        async_injection: a.async_injection || b.async_injection,
        window_param: a.window_param || b.window_param,
        ipc_type_converted: a.ipc_type_converted || b.ipc_type_converted,
        events_lifted: a.events_lifted || b.events_lifted,
        events_payload_enum: a.events_payload_enum || b.events_payload_enum,
        event_payload_external: a.event_payload_external || b.event_payload_external,
        multi_level_event: a.multi_level_event || b.multi_level_event,
        alias_dropped: a.alias_dropped || b.alias_dropped,
        mount_rewritten: a.mount_rewritten || b.mount_rewritten,
        emits_rewritten: a.emits_rewritten || b.emits_rewritten,
        emits_unresolved: a.emits_unresolved || b.emits_unresolved,
    }
}

/// OR one item's findings into the file's running findings.
pub fn merge_findings(into: &mut Findings, from: &Findings)
    ensures
        *final(into) == findings_or(*old(into), *from),
{
    let merged = Findings {
        transformed: into.transformed || from.transformed,
        result_returns: into.result_returns || from.result_returns,
        dropped_generics: into.dropped_generics || from.dropped_generics,
        channels: into.channels || from.channels,
        deasynced: into.deasynced || from.deasynced,
        async_injection: into.async_injection || from.async_injection,
        window_param: into.window_param || from.window_param,
        ipc_type_converted: into.ipc_type_converted || from.ipc_type_converted,
        events_lifted: into.events_lifted || from.events_lifted,
        events_payload_enum: into.events_payload_enum || from.events_payload_enum,
        event_payload_external: into.event_payload_external || from.event_payload_external,
        multi_level_event: into.multi_level_event || from.multi_level_event,
        alias_dropped: into.alias_dropped || from.alias_dropped,
        mount_rewritten: into.mount_rewritten || from.mount_rewritten,
        emits_rewritten: into.emits_rewritten || from.emits_rewritten,
        emits_unresolved: into.emits_unresolved || from.emits_unresolved,
    };
    *into = merged;
}

/// The first line of the header.
pub const PREAMBLE: &'static str = "// Migrated from TauRPC by ttipc-migrate. Manual follow-ups:\n";
pub const NOTE_ERRORS: &'static str = "//   - errors: each `Result<_, E>` needs `E: ttipc::Error` (derive it on the error type).";
pub const NOTE_IMPORTS: &'static str = "//   - imports: drop the now-unused `Runtime`; `Channel` is now `ttipc::Channel`.";
pub const NOTE_DTO: &'static str = "//   - dto deps: converted `ipc_type` structs derive `serde` and `specta::Type` directly; add `serde` (with `derive`) and `specta` as dependencies.";
pub const NOTE_DEASYNC: &'static str = "//   - de-async: methods with no blocking `.await` were made sync (ttipc's default), and their `.await`s on now-sync siblings were dropped.";
pub const NOTE_ASYNC_INJECTION: &'static str = "//   - async injection: ttipc rejects an `async` procedure that takes `AppHandle`/`State<T>`; make it sync, or rework so the async body needs no injected handle/state.";
pub const NOTE_WINDOWS: &'static str = "//   - windows: ttipc injects only `AppHandle`/`State<T>`; a `Window`/`WebviewWindow` parameter needs manual rework (obtain it from the injected `AppHandle`).";
pub const NOTE_EVENTS_LIFTED: &'static str = "//   - events: `#[taurpc(event)]` methods were lifted into a `#[derive(ttipc::Event)]` enum (matching emit sites were rewritten to `Enum::Variant.emit(&h)`); drop any now-empty trait/impl.";
pub const NOTE_PAYLOAD_ENUM: &'static str = "//   - events: a `#[taurpc(event)]` method carrying a payload enum was removed; `#[derive(ttipc::Event)]` was added to that enum (its variants are the events). Emit it directly as `event.emit(&h)`; drop any now-empty trait/impl.";
pub const NOTE_PAYLOAD_EXTERNAL: &'static str = "//   - events: a `#[taurpc(event)]` method carrying an external payload enum was removed; add `#[derive(ttipc::Event)]` to that enum in its defining crate (its group must match the namespace), and emit it as `event.emit(&h)`.";
pub const NOTE_EMITS_UNRESOLVED: &'static str = "//   - emit sites: a trigger bound to a variable was left as-is (only inline `Trigger::new(h)...` sites are rewritten); do it by hand as `Enum::Variant { .. }.emit(&h)` (or `.emit_to(&h, target)` for a `.send_to` site).";
pub const NOTE_EVENT_GROUP: &'static str = "//   - event group: a multi-level `path` has no single ttipc event group; rename the generated enum so its group matches your namespace.";
pub const NOTE_ALIAS: &'static str = "//   - alias: `#[taurpc(alias = \"..\")]` was dropped (ttipc names methods by `MethodCase`); rename the method or update the call sites if the alias mattered.";
pub const NOTE_MOUNT: &'static str = "//   - mount: the TauRPC Router/handler became `ttipc::handler(..)` (a `-> Router` factory now returns `ttipc::Procedures`); generate bindings separately (`ttipc::Bindings`, replacing the dropped `export_config`), keep app state on `.manage(..)`, and drop any now-unused local config bindings.";

/// The characters of each string.
pub open spec fn str_views(s: Seq<&'static str>) -> Seq<Seq<char>> {
    s.map_values(|n: &'static str| n@)
}

/// `acc` with `note` appended when `cond` holds.
#[verifier::opaque]
pub open spec fn note_if(acc: Seq<Seq<char>>, cond: bool, note: &str) -> Seq<Seq<char>> {
    if cond {
        acc.push(note@)
    } else {
        acc
    }
}

/// The follow-up notes the findings call for, in header order.
pub open spec fn header_notes(f: Findings) -> Seq<Seq<char>> {
    let n = Seq::<Seq<char>>::empty();
    let n = note_if(n, f.result_returns, NOTE_ERRORS);
    let n = note_if(n, f.dropped_generics || f.channels, NOTE_IMPORTS);
    let n = note_if(n, f.ipc_type_converted, NOTE_DTO);
    let n = note_if(n, f.deasynced, NOTE_DEASYNC);
    let n = note_if(n, f.async_injection, NOTE_ASYNC_INJECTION);
    let n = note_if(n, f.window_param, NOTE_WINDOWS);
    let n = note_if(n, f.events_lifted, NOTE_EVENTS_LIFTED);
    let n = note_if(n, f.events_payload_enum, NOTE_PAYLOAD_ENUM);
    let n = note_if(n, f.event_payload_external, NOTE_PAYLOAD_EXTERNAL);
    let n = note_if(n, f.emits_unresolved, NOTE_EMITS_UNRESOLVED);
    let n = note_if(n, f.multi_level_event, NOTE_EVENT_GROUP);
    let n = note_if(n, f.alias_dropped, NOTE_ALIAS);
    let n = note_if(n, f.mount_rewritten, NOTE_MOUNT);
    n
}

/// Lines joined with `\n` between them.
pub open spec fn join_lines(parts: Seq<Seq<char>>) -> Seq<char>
    decreases parts.len(),
{
    if parts.len() == 0 {
        Seq::empty()
    } else if parts.len() == 1 {
        parts[0]
    } else {
        join_lines(parts.drop_last()) + seq!['\n'] + parts.last()
    }
}

/// The header comment: empty when nothing was transformed or nothing needs
/// flagging; otherwise the preamble, one line per note, and a blank line.
pub open spec fn header_spec(f: Findings) -> Seq<char> {
    if !f.transformed || header_notes(f).len() == 0 {
        Seq::empty()
    } else {
        PREAMBLE@ + join_lines(header_notes(f)) + seq!['\n', '\n']
    }
}

/// Pushes `note` when `cond` holds.
fn push_note(notes: &mut Vec<&'static str>, cond: bool, note: &'static str)
    ensures
        str_views(final(notes)@) == note_if(str_views(old(notes)@), cond, note),
{
    reveal(note_if);
    if cond {
        let ghost before = notes@;
        notes.push(note);
        assert(str_views(notes@) =~= str_views(before).push(note@));
    }
}

/// The follow-up notes the findings call for, in header order.
fn collect_notes(findings: &Findings) -> (notes: Vec<&'static str>)
    ensures
        str_views(notes@) == header_notes(*findings),
{
    let mut notes: Vec<&'static str> = Vec::new();
    assert(str_views(notes@) =~= Seq::<Seq<char>>::empty());
    push_note(&mut notes, findings.result_returns, NOTE_ERRORS);
    push_note(&mut notes, findings.dropped_generics || findings.channels, NOTE_IMPORTS);
    push_note(&mut notes, findings.ipc_type_converted, NOTE_DTO);
    push_note(&mut notes, findings.deasynced, NOTE_DEASYNC);
    push_note(&mut notes, findings.async_injection, NOTE_ASYNC_INJECTION);
    push_note(&mut notes, findings.window_param, NOTE_WINDOWS);
    push_note(&mut notes, findings.events_lifted, NOTE_EVENTS_LIFTED);
    push_note(&mut notes, findings.events_payload_enum, NOTE_PAYLOAD_ENUM);
    push_note(&mut notes, findings.event_payload_external, NOTE_PAYLOAD_EXTERNAL);
    push_note(&mut notes, findings.emits_unresolved, NOTE_EMITS_UNRESOLVED);
    push_note(&mut notes, findings.multi_level_event, NOTE_EVENT_GROUP);
    push_note(&mut notes, findings.alias_dropped, NOTE_ALIAS);
    push_note(&mut notes, findings.mount_rewritten, NOTE_MOUNT);
    notes
}

/// A comment block listing the manual follow-ups: the error type must derive
/// `ttipc::Error`, the TauRPC-only imports go stale, and so on. Empty when
/// nothing was transformed, or when nothing needs flagging.
pub fn header(findings: &Findings) -> (out: String)
    ensures
        out@ == header_spec(*findings),
{
    if !findings.transformed {
        return String::new();
    }
    let notes = collect_notes(findings);
    let ghost parts = str_views(notes@);
    if notes.len() == 0 {
        return String::new();
    }
    let mut out = owned(PREAMBLE);
    let ghost start = out@;
    push_str(&mut out, notes[0]);
    let mut i: usize = 1;
    assert(parts.take(1).drop_last() =~= Seq::<Seq<char>>::empty());
    while i < notes.len()
        invariant
            1 <= i <= notes@.len(),
            parts == str_views(notes@),
            out@ == start + join_lines(parts.take(i as int)),
        decreases notes.len() - i,
    {
        out.push('\n');
        push_str(&mut out, notes[i]);
        assert(parts.take(i + 1).drop_last() =~= parts.take(i as int));
        assert(out@ =~= start + join_lines(parts.take(i + 1)));
        i += 1;
    }
    assert(parts.take(notes@.len() as int) =~= parts);
    out.push('\n');
    out.push('\n');
    assert(out@ =~= header_spec(*findings));
    out
}

/// One for a set flag, none otherwise.
pub open spec fn one_if(cond: bool) -> nat {
    if cond { 1 } else { 0 }
}

/// How many follow-up groups the findings set: each flag, with dropped
/// generics and channels counted as the one group they share.
pub open spec fn flagged_groups(f: Findings) -> nat {
    one_if(f.result_returns) + one_if(f.dropped_generics || f.channels) + one_if(f.ipc_type_converted)
        + one_if(f.deasynced) + one_if(f.async_injection) + one_if(f.window_param)
        + one_if(f.events_lifted) + one_if(f.events_payload_enum) + one_if(f.event_payload_external)
        + one_if(f.emits_unresolved) + one_if(f.multi_level_event) + one_if(f.alias_dropped)
        + one_if(f.mount_rewritten)
}

/// Appending a note when its flag is set keeps every earlier note in place.
proof fn lemma_note_if_extends(acc: Seq<Seq<char>>, cond: bool, note: &str)
    ensures
        note_if(acc, cond, note).len() == acc.len() + one_if(cond),
        forall|i: int| 0 <= i < acc.len() ==> #[trigger] note_if(acc, cond, note)[i] == acc[i],
        cond ==> note_if(acc, cond, note)[acc.len() as int] == note@,
{
    reveal(note_if);
}

/// The header carries exactly one note per flagged group, and the note of
/// every flagged group is among them.
#[verifier::rlimit(40)]
pub proof fn lemma_header_notes_per_group(f: Findings)
    ensures
        header_notes(f).len() == flagged_groups(f),
        f.result_returns ==> header_notes(f).contains(NOTE_ERRORS@),
        f.dropped_generics || f.channels ==> header_notes(f).contains(NOTE_IMPORTS@),
        f.ipc_type_converted ==> header_notes(f).contains(NOTE_DTO@),
        f.deasynced ==> header_notes(f).contains(NOTE_DEASYNC@),
        f.async_injection ==> header_notes(f).contains(NOTE_ASYNC_INJECTION@),
        f.window_param ==> header_notes(f).contains(NOTE_WINDOWS@),
        f.events_lifted ==> header_notes(f).contains(NOTE_EVENTS_LIFTED@),
        f.events_payload_enum ==> header_notes(f).contains(NOTE_PAYLOAD_ENUM@),
        f.event_payload_external ==> header_notes(f).contains(NOTE_PAYLOAD_EXTERNAL@),
        f.emits_unresolved ==> header_notes(f).contains(NOTE_EMITS_UNRESOLVED@),
        f.multi_level_event ==> header_notes(f).contains(NOTE_EVENT_GROUP@),
        f.alias_dropped ==> header_notes(f).contains(NOTE_ALIAS@),
        f.mount_rewritten ==> header_notes(f).contains(NOTE_MOUNT@),
{
    let n0 = Seq::<Seq<char>>::empty();
    let n1 = note_if(n0, f.result_returns, NOTE_ERRORS);
    let n2 = note_if(n1, f.dropped_generics || f.channels, NOTE_IMPORTS);
    let n3 = note_if(n2, f.ipc_type_converted, NOTE_DTO);
    let n4 = note_if(n3, f.deasynced, NOTE_DEASYNC);
    let n5 = note_if(n4, f.async_injection, NOTE_ASYNC_INJECTION);
    let n6 = note_if(n5, f.window_param, NOTE_WINDOWS);
    let n7 = note_if(n6, f.events_lifted, NOTE_EVENTS_LIFTED);
    let n8 = note_if(n7, f.events_payload_enum, NOTE_PAYLOAD_ENUM);
    let n9 = note_if(n8, f.event_payload_external, NOTE_PAYLOAD_EXTERNAL);
    let n10 = note_if(n9, f.emits_unresolved, NOTE_EMITS_UNRESOLVED);
    let n11 = note_if(n10, f.multi_level_event, NOTE_EVENT_GROUP);
    let n12 = note_if(n11, f.alias_dropped, NOTE_ALIAS);
    let n13 = note_if(n12, f.mount_rewritten, NOTE_MOUNT);
    lemma_note_if_extends(n0, f.result_returns, NOTE_ERRORS);
    lemma_note_if_extends(n1, f.dropped_generics || f.channels, NOTE_IMPORTS);
    lemma_note_if_extends(n2, f.ipc_type_converted, NOTE_DTO);
    lemma_note_if_extends(n3, f.deasynced, NOTE_DEASYNC);
    lemma_note_if_extends(n4, f.async_injection, NOTE_ASYNC_INJECTION);
    lemma_note_if_extends(n5, f.window_param, NOTE_WINDOWS);
    lemma_note_if_extends(n6, f.events_lifted, NOTE_EVENTS_LIFTED);
    lemma_note_if_extends(n7, f.events_payload_enum, NOTE_PAYLOAD_ENUM);
    lemma_note_if_extends(n8, f.event_payload_external, NOTE_PAYLOAD_EXTERNAL);
    lemma_note_if_extends(n9, f.emits_unresolved, NOTE_EMITS_UNRESOLVED);
    lemma_note_if_extends(n10, f.multi_level_event, NOTE_EVENT_GROUP);
    lemma_note_if_extends(n11, f.alias_dropped, NOTE_ALIAS);
    lemma_note_if_extends(n12, f.mount_rewritten, NOTE_MOUNT);
    assert(header_notes(f) == n13);
    if f.result_returns { assert(n13[n0.len() as int] == NOTE_ERRORS@); }
    if f.dropped_generics || f.channels { assert(n13[n1.len() as int] == NOTE_IMPORTS@); }
    if f.ipc_type_converted { assert(n13[n2.len() as int] == NOTE_DTO@); }
    if f.deasynced { assert(n13[n3.len() as int] == NOTE_DEASYNC@); }
    if f.async_injection { assert(n13[n4.len() as int] == NOTE_ASYNC_INJECTION@); }
    if f.window_param { assert(n13[n5.len() as int] == NOTE_WINDOWS@); }
    if f.events_lifted { assert(n13[n6.len() as int] == NOTE_EVENTS_LIFTED@); }
    if f.events_payload_enum { assert(n13[n7.len() as int] == NOTE_PAYLOAD_ENUM@); }
    if f.event_payload_external { assert(n13[n8.len() as int] == NOTE_PAYLOAD_EXTERNAL@); }
    if f.emits_unresolved { assert(n13[n9.len() as int] == NOTE_EMITS_UNRESOLVED@); }
    if f.multi_level_event { assert(n13[n10.len() as int] == NOTE_EVENT_GROUP@); }
    if f.alias_dropped { assert(n13[n11.len() as int] == NOTE_ALIAS@); }
    if f.mount_rewritten { assert(n13[n12.len() as int] == NOTE_MOUNT@); }
}

/// The bullet every follow-up note starts with.
pub open spec fn note_bullet() -> Seq<char> {
    seq!['/', '/', ' ', ' ', ' ', '-', ' ']
}

/// Every follow-up note is a bullet line: it starts with `//   - `.
pub proof fn lemma_notes_are_bullets()
    ensures
        ({
            &&& is_bullet(NOTE_ERRORS@)
            &&& is_bullet(NOTE_IMPORTS@)
            &&& is_bullet(NOTE_DTO@)
            &&& is_bullet(NOTE_DEASYNC@)
            &&& is_bullet(NOTE_ASYNC_INJECTION@)
            &&& is_bullet(NOTE_WINDOWS@)
            &&& is_bullet(NOTE_EVENTS_LIFTED@)
            &&& is_bullet(NOTE_PAYLOAD_ENUM@)
            &&& is_bullet(NOTE_PAYLOAD_EXTERNAL@)
            &&& is_bullet(NOTE_EMITS_UNRESOLVED@)
            &&& is_bullet(NOTE_EVENT_GROUP@)
            &&& is_bullet(NOTE_ALIAS@)
            &&& is_bullet(NOTE_MOUNT@)
        }),
{
    reveal(is_bullet);
    reveal_strlit("//   - errors: each `Result<_, E>` needs `E: ttipc::Error` (derive it on the error type).");
    reveal_strlit("//   - imports: drop the now-unused `Runtime`; `Channel` is now `ttipc::Channel`.");
    reveal_strlit("//   - dto deps: converted `ipc_type` structs derive `serde` and `specta::Type` directly; add `serde` (with `derive`) and `specta` as dependencies.");
    reveal_strlit("//   - de-async: methods with no blocking `.await` were made sync (ttipc's default), and their `.await`s on now-sync siblings were dropped.");
    reveal_strlit("//   - async injection: ttipc rejects an `async` procedure that takes `AppHandle`/`State<T>`; make it sync, or rework so the async body needs no injected handle/state.");
    reveal_strlit("//   - windows: ttipc injects only `AppHandle`/`State<T>`; a `Window`/`WebviewWindow` parameter needs manual rework (obtain it from the injected `AppHandle`).");
    reveal_strlit("//   - events: `#[taurpc(event)]` methods were lifted into a `#[derive(ttipc::Event)]` enum (matching emit sites were rewritten to `Enum::Variant.emit(&h)`); drop any now-empty trait/impl.");
    reveal_strlit("//   - events: a `#[taurpc(event)]` method carrying a payload enum was removed; `#[derive(ttipc::Event)]` was added to that enum (its variants are the events). Emit it directly as `event.emit(&h)`; drop any now-empty trait/impl.");
    reveal_strlit("//   - events: a `#[taurpc(event)]` method carrying an external payload enum was removed; add `#[derive(ttipc::Event)]` to that enum in its defining crate (its group must match the namespace), and emit it as `event.emit(&h)`.");
    reveal_strlit("//   - emit sites: a trigger bound to a variable was left as-is (only inline `Trigger::new(h)...` sites are rewritten); do it by hand as `Enum::Variant { .. }.emit(&h)` (or `.emit_to(&h, target)` for a `.send_to` site).");
    reveal_strlit("//   - event group: a multi-level `path` has no single ttipc event group; rename the generated enum so its group matches your namespace.");
    reveal_strlit("//   - alias: `#[taurpc(alias = \"..\")]` was dropped (ttipc names methods by `MethodCase`); rename the method or update the call sites if the alias mattered.");
    reveal_strlit("//   - mount: the TauRPC Router/handler became `ttipc::handler(..)` (a `-> Router` factory now returns `ttipc::Procedures`); generate bindings separately (`ttipc::Bindings`, replacing the dropped `export_config`), keep app state on `.manage(..)`, and drop any now-unused local config bindings.");
    assert(NOTE_ERRORS@.take(7) =~= note_bullet());
    assert(NOTE_IMPORTS@.take(7) =~= note_bullet());
    assert(NOTE_DTO@.take(7) =~= note_bullet());
    assert(NOTE_DEASYNC@.take(7) =~= note_bullet());
    assert(NOTE_ASYNC_INJECTION@.take(7) =~= note_bullet());
    assert(NOTE_WINDOWS@.take(7) =~= note_bullet());
    assert(NOTE_EVENTS_LIFTED@.take(7) =~= note_bullet());
    assert(NOTE_PAYLOAD_ENUM@.take(7) =~= note_bullet());
    assert(NOTE_PAYLOAD_EXTERNAL@.take(7) =~= note_bullet());
    assert(NOTE_EMITS_UNRESOLVED@.take(7) =~= note_bullet());
    assert(NOTE_EVENT_GROUP@.take(7) =~= note_bullet());
    assert(NOTE_ALIAS@.take(7) =~= note_bullet());
    assert(NOTE_MOUNT@.take(7) =~= note_bullet());
}

/// Whether `x` is a bullet line.
#[verifier::opaque]
pub open spec fn is_bullet(x: Seq<char>) -> bool {
    x.len() >= 7 && x.take(7) == note_bullet()
}

/// Appending a bullet line to bullet lines gives bullet lines.
proof fn lemma_note_if_keeps_bullets(acc: Seq<Seq<char>>, cond: bool, note: &str)
    requires
        forall|i: int| 0 <= i < acc.len() ==> #[trigger] is_bullet(acc[i]),
        is_bullet(note@),
    ensures
        forall|i: int| 0 <= i < note_if(acc, cond, note).len() ==> #[trigger] is_bullet(note_if(acc, cond, note)[i]),
{
    lemma_note_if_extends(acc, cond, note);
}

/// Each note of the header is a bullet line, `//   - ` first.
pub proof fn lemma_header_notes_are_bullets(f: Findings)
    ensures
        forall|i: int| 0 <= i < header_notes(f).len() ==> #[trigger] is_bullet(header_notes(f)[i]),
{
    lemma_notes_are_bullets();
    let n0 = Seq::<Seq<char>>::empty();
    let n1 = note_if(n0, f.result_returns, NOTE_ERRORS);
    lemma_note_if_keeps_bullets(n0, f.result_returns, NOTE_ERRORS);
    let n2 = note_if(n1, f.dropped_generics || f.channels, NOTE_IMPORTS);
    lemma_note_if_keeps_bullets(n1, f.dropped_generics || f.channels, NOTE_IMPORTS);
    let n3 = note_if(n2, f.ipc_type_converted, NOTE_DTO);
    lemma_note_if_keeps_bullets(n2, f.ipc_type_converted, NOTE_DTO);
    let n4 = note_if(n3, f.deasynced, NOTE_DEASYNC);
    lemma_note_if_keeps_bullets(n3, f.deasynced, NOTE_DEASYNC);
    let n5 = note_if(n4, f.async_injection, NOTE_ASYNC_INJECTION);
    lemma_note_if_keeps_bullets(n4, f.async_injection, NOTE_ASYNC_INJECTION);
    let n6 = note_if(n5, f.window_param, NOTE_WINDOWS);
    lemma_note_if_keeps_bullets(n5, f.window_param, NOTE_WINDOWS);
    let n7 = note_if(n6, f.events_lifted, NOTE_EVENTS_LIFTED);
    lemma_note_if_keeps_bullets(n6, f.events_lifted, NOTE_EVENTS_LIFTED);
    let n8 = note_if(n7, f.events_payload_enum, NOTE_PAYLOAD_ENUM);
    lemma_note_if_keeps_bullets(n7, f.events_payload_enum, NOTE_PAYLOAD_ENUM);
    let n9 = note_if(n8, f.event_payload_external, NOTE_PAYLOAD_EXTERNAL);
    lemma_note_if_keeps_bullets(n8, f.event_payload_external, NOTE_PAYLOAD_EXTERNAL);
    let n10 = note_if(n9, f.emits_unresolved, NOTE_EMITS_UNRESOLVED);
    lemma_note_if_keeps_bullets(n9, f.emits_unresolved, NOTE_EMITS_UNRESOLVED);
    let n11 = note_if(n10, f.multi_level_event, NOTE_EVENT_GROUP);
    lemma_note_if_keeps_bullets(n10, f.multi_level_event, NOTE_EVENT_GROUP);
    let n12 = note_if(n11, f.alias_dropped, NOTE_ALIAS);
    lemma_note_if_keeps_bullets(n11, f.alias_dropped, NOTE_ALIAS);
    let n13 = note_if(n12, f.mount_rewritten, NOTE_MOUNT);
    lemma_note_if_keeps_bullets(n12, f.mount_rewritten, NOTE_MOUNT);
    assert(header_notes(f) == n13);
}


/// Whether `y` has every flag that `x` has set (`transformed` included).
pub open spec fn has_flags_of(x: Findings, y: Findings) -> bool {
    &&& x.transformed ==> y.transformed
    &&& x.result_returns ==> y.result_returns
    &&& x.dropped_generics ==> y.dropped_generics
    &&& x.channels ==> y.channels
    &&& x.deasynced ==> y.deasynced
    &&& x.async_injection ==> y.async_injection
    &&& x.window_param ==> y.window_param
    &&& x.ipc_type_converted ==> y.ipc_type_converted
    &&& x.events_lifted ==> y.events_lifted
    &&& x.events_payload_enum ==> y.events_payload_enum
    &&& x.event_payload_external ==> y.event_payload_external
    &&& x.multi_level_event ==> y.multi_level_event
    &&& x.alias_dropped ==> y.alias_dropped
    &&& x.mount_rewritten ==> y.mount_rewritten
    &&& x.emits_rewritten ==> y.emits_rewritten
    &&& x.emits_unresolved ==> y.emits_unresolved
}

/// Merging is the flag-wise OR, `transformed` included: the merge has every
/// flag of either side, and it is the least such findings, so it sets no
/// flag that neither side set.
pub proof fn lemma_merge_is_flagwise_or(a: Findings, b: Findings, c: Findings)
    ensures
        has_flags_of(a, findings_or(a, b)),
        has_flags_of(b, findings_or(a, b)),
        has_flags_of(a, c) && has_flags_of(b, c) ==> has_flags_of(findings_or(a, b), c),
{
}

/// Merging is commutative, merging into nothing gives the item's own findings
/// (so a merged file gets the header its findings call for), and merging the
/// same findings twice changes nothing more.
pub proof fn lemma_merge_laws(a: Findings, b: Findings)
    ensures
        findings_or(a, b) == findings_or(b, a),
        findings_or(findings_none(), b) == b,
        header_spec(findings_or(findings_none(), b)) == header_spec(b),
        findings_or(findings_or(a, b), b) == findings_or(a, b),
{
}

} // verus!
