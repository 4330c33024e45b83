//! The naming rules shared by the macros and the migration tool: how a Rust
//! identifier becomes a wire name, an event group, or a generated item name.

use vstd::prelude::*;
use crate::text::{ascii_lower, ascii_upper, chars_of, has_char, lowercase_chars, lowercase_of, owned, push_chars, push_str, string_of, uppercase_chars, uppercase_of, concat3};

verus! {

/// Lower-camel of a name: its first character lowercased, the rest kept.
pub open spec fn lower_camel_spec(s: Seq<char>) -> Seq<char> {
    if s.len() == 0 {
        s
    } else {
        lowercase_of(s[0]) + s.drop_first()
    }
}

/// PascalCase of a snake_case name, read left to right: `_` separates words
/// and is dropped, and the first character of each word is uppercased.
/// `at_start` says whether the next character begins a word.
pub open spec fn pascal_from(s: Seq<char>, at_start: bool) -> Seq<char>
    decreases s.len(),
{
    if s.len() == 0 {
        seq![]
    } else if s[0] == '_' {
        pascal_from(s.drop_first(), true)
    } else if at_start {
        uppercase_of(s[0]) + pascal_from(s.drop_first(), false)
    } else {
        seq![s[0]] + pascal_from(s.drop_first(), false)
    }
}

/// PascalCase of a snake_case name.
pub open spec fn pascal_case_spec(s: Seq<char>) -> Seq<char> {
    pascal_from(s, true)
}

/// Whether every character of `s` is ASCII.
pub open spec fn ascii_chars(s: Seq<char>) -> bool {
    forall|i: int| 0 <= i < s.len() ==> (#[trigger] s[i] as u32) < 128
}

/// Lower-camel of an ASCII name: its first character lowercased.
pub open spec fn ascii_lower_camel(s: Seq<char>) -> Seq<char> {
    if s.len() == 0 {
        s
    } else {
        seq![ascii_lower(s[0])] + s.drop_first()
    }
}

/// PascalCase of an ASCII snake_case name, read left to right as
/// `pascal_from` reads it.
pub open spec fn ascii_pascal_from(s: Seq<char>, at_start: bool) -> Seq<char>
    decreases s.len(),
{
    if s.len() == 0 {
        seq![]
    } else if s[0] == '_' {
        ascii_pascal_from(s.drop_first(), true)
    } else if at_start {
        seq![ascii_upper(s[0])] + ascii_pascal_from(s.drop_first(), false)
    } else {
        seq![s[0]] + ascii_pascal_from(s.drop_first(), false)
    }
}

/// PascalCase of an ASCII snake_case name.
pub open spec fn ascii_pascal(s: Seq<char>) -> Seq<char> {
    ascii_pascal_from(s, true)
}

/// ASCII PascalCase yields ASCII characters and no `_`.
proof fn lemma_ascii_pascal_shape(s: Seq<char>, at_start: bool)
    requires
        ascii_chars(s),
    ensures
        ascii_chars(ascii_pascal_from(s, at_start)),
        !ascii_pascal_from(s, at_start).contains('_'),
    decreases s.len(),
{
    if s.len() > 0 {
        assert((s[0] as u32) < 128);
        assert forall|i: int| 0 <= i < s.drop_first().len() implies (#[trigger] s.drop_first()[i] as u32) < 128 by {
            assert(s.drop_first()[i] == s[i + 1]);
        }
        lemma_ascii_pascal_shape(s.drop_first(), true);
        lemma_ascii_pascal_shape(s.drop_first(), false);
        let rest_f = ascii_pascal_from(s.drop_first(), false);
        if s[0] != '_' {
            let head = if at_start { ascii_upper(s[0]) } else { s[0] };
            let out = seq![head] + rest_f;
            assert(ascii_pascal_from(s, at_start) =~= seq![head] + rest_f);
            assert forall|i: int| 0 <= i < out.len() implies (#[trigger] out[i] as u32) < 128 by {
                if i > 0 {
                    assert(out[i] == rest_f[i - 1]);
                }
            }
            if out.contains('_') {
                let i = choose|i: int| 0 <= i < out.len() && out[i] == '_';
                if i > 0 {
                    assert(rest_f[i - 1] == '_');
                }
            }
        }
    }
}

/// A name without `_` reads unchanged when no word starts.
proof fn lemma_ascii_pascal_keeps(s: Seq<char>)
    requires
        !s.contains('_'),
    ensures
        ascii_pascal_from(s, false) == s,
    decreases s.len(),
{
    if s.len() > 0 {
        assert(s[0] != '_');
        assert(!s.drop_first().contains('_')) by {
            if s.drop_first().contains('_') {
                let i = choose|i: int| 0 <= i < s.drop_first().len() && s.drop_first()[i] == '_';
                assert(s[i + 1] == '_');
            }
        }
        lemma_ascii_pascal_keeps(s.drop_first());
        assert(s =~= seq![s[0]] + s.drop_first());
    }
}

/// PascalCase is idempotent on ASCII names: a PascalCase name is its own
/// PascalCase.
pub proof fn lemma_pascal_case_idempotent(s: Seq<char>)
    requires
        ascii_chars(s),
    ensures
        ascii_chars(ascii_pascal(s)),
        ascii_pascal(ascii_pascal(s)) == ascii_pascal(s),
    decreases s.len(),
{
    lemma_ascii_pascal_shape(s, true);
    if s.len() > 0 {
        assert forall|i: int| 0 <= i < s.drop_first().len() implies (#[trigger] s.drop_first()[i] as u32) < 128 by {
            assert(s.drop_first()[i] == s[i + 1]);
        }
        assert((s[0] as u32) < 128);
        if s[0] == '_' {
            lemma_pascal_case_idempotent(s.drop_first());
        } else {
            lemma_ascii_pascal_shape(s.drop_first(), false);
            let rest = ascii_pascal_from(s.drop_first(), false);
            let p = ascii_pascal(s);
            assert(p =~= seq![ascii_upper(s[0])] + rest);
            assert(p[0] == ascii_upper(s[0]));
            assert(p.drop_first() =~= rest);
            assert(ascii_upper(s[0]) != '_');
            assert(ascii_upper(ascii_upper(s[0])) == ascii_upper(s[0]));
            lemma_ascii_pascal_keeps(rest);
            assert(ascii_pascal(p) =~= seq![ascii_upper(p[0])] + ascii_pascal_from(p.drop_first(), false));
        }
    }
}

/// Lower-camel undoes PascalCase on an ASCII name with no `_` that does not
/// start with a capital letter.
pub proof fn lemma_lower_camel_undoes_pascal(s: Seq<char>)
    requires
        ascii_chars(s),
        !s.contains('_'),
        s.len() > 0 ==> !('A' <= s[0] && s[0] <= 'Z'),
    ensures
        ascii_lower_camel(ascii_pascal(s)) == s,
{
    if s.len() > 0 {
        assert(s[0] != '_');
        assert(!s.drop_first().contains('_')) by {
            if s.drop_first().contains('_') {
                let i = choose|i: int| 0 <= i < s.drop_first().len() && s.drop_first()[i] == '_';
                assert(s[i + 1] == '_');
            }
        }
        lemma_ascii_pascal_keeps(s.drop_first());
        assert((s[0] as u32) < 128);
        assert(ascii_lower(ascii_upper(s[0])) == s[0]);
        assert(ascii_pascal(s) =~= seq![ascii_upper(s[0])] + s.drop_first());
        assert(s =~= seq![s[0]] + s.drop_first());
    }
}

/// The characters of the word `Event`.
pub open spec fn event_word() -> Seq<char> {
    seq!['E', 'v', 'e', 'n', 't']
}

/// A name with a trailing `Event` removed, unless nothing would be left.
pub open spec fn strip_event_suffix(s: Seq<char>) -> Seq<char> {
    if s.len() > 5 && s.subrange(s.len() - 5, s.len() as int) == event_word() {
        s.subrange(0, s.len() - 5)
    } else {
        s
    }
}

/// The event group of an enum: its name without a trailing `Event`,
/// lower-camel.
pub open spec fn event_group_spec(s: Seq<char>) -> Seq<char> {
    lower_camel_spec(strip_event_suffix(s))
}

/// Lower-camel a name: first character lowercased, the rest kept.
/// `Faders` -> `faders`, `VolumeUp` -> `volumeUp`.
pub fn lower_camel(name: &str) -> (out: String)
    ensures
        out@ == lower_camel_spec(name@),
        name@.len() == 0 || (name@[0] as u32) < 128 ==> out@ == ascii_lower_camel(name@),
{
    let cs = chars_of(name);
    if cs.len() == 0 {
        return owned(name);
    }
    let first = lowercase_chars(cs[0]);
    assert((cs@[0] as u32) < 128 ==> first@ == seq![ascii_lower(cs@[0])]);
    let mut out = string_of(&first);
    let mut i: usize = 1;
    while i < cs.len()
        invariant
            cs@ == name@,
            1 <= i <= cs.len(),
            out@ == lowercase_of(cs@[0]) + cs@.subrange(1, i as int),
        decreases cs.len() - i,
    {
        out.push(cs[i]);
        i += 1;
        assert(cs@.subrange(1, i as int) == cs@.subrange(1, i - 1) + seq![cs@[i - 1]]);
    }
    assert(cs@.subrange(1, cs.len() as int) == cs@.drop_first());
    out
}

/// `state_changed` -> `StateChanged`, `ev` -> `Ev`: words split on `_`,
/// empty words dropped, each word's first character uppercased.
pub fn pascal_case(snake: &str) -> (out: String)
    ensures
        out@ == pascal_case_spec(snake@),
        !out@.contains('_'),
        ascii_chars(snake@) ==> out@ == ascii_pascal(snake@),
{
    let cs = chars_of(snake);
    let mut out = String::new();
    let mut at_start = true;
    let mut i: usize = 0;
    assert(cs@.subrange(0, cs.len() as int) == snake@);
    assert(out@ + pascal_from(snake@, true) == pascal_from(snake@, true));
    assert(out@ + ascii_pascal_from(snake@, true) == ascii_pascal_from(snake@, true));
    while i < cs.len()
        invariant
            cs@ == snake@,
            i <= cs.len(),
            !out@.contains('_'),
            out@ + pascal_from(cs@.subrange(i as int, cs.len() as int), at_start)
                == pascal_from(snake@, true),
            ascii_chars(snake@) ==> out@ + ascii_pascal_from(cs@.subrange(i as int, cs.len() as int), at_start)
                == ascii_pascal_from(snake@, true),
        decreases cs.len() - i,
    {
        let ghost rest = cs@.subrange(i as int, cs.len() as int);
        assert(rest.drop_first() == cs@.subrange(i + 1, cs.len() as int));
        let c = cs[i];
        if c == '_' {
            at_start = true;
        } else if at_start {
            let up = uppercase_chars(c);
            let ghost before = out@;
            push_chars(&mut out, &up);
            assert(!out@.contains('_')) by {
                if out@.contains('_') {
                    let k = choose|k: int| 0 <= k < out@.len() && out@[k] == '_';
                    if k < before.len() {
                        assert(before[k] == '_');
                    } else {
                        assert(up@[k - before.len()] == '_');
                    }
                }
            }
            at_start = false;
            assert(out@ + pascal_from(rest.drop_first(), false) == pascal_from(snake@, true))
                by {
                assert(out@ + pascal_from(rest.drop_first(), false)
                    =~= (out@.subrange(0, out@.len() - up@.len())) + (uppercase_of(c) + pascal_from(rest.drop_first(), false)));
            }
            proof {
                if ascii_chars(snake@) {
                    assert((snake@[i as int] as u32) < 128);
                    assert(out@ + ascii_pascal_from(rest.drop_first(), false)
                        =~= before + (seq![ascii_upper(c)] + ascii_pascal_from(rest.drop_first(), false)));
                }
            }
        } else {
            let ghost before = out@;
            out.push(c);
            assert(!out@.contains('_')) by {
                if out@.contains('_') {
                    let k = choose|k: int| 0 <= k < out@.len() && out@[k] == '_';
                    if k < before.len() {
                        assert(before[k] == '_');
                    }
                }
            }
            assert(out@ + pascal_from(rest.drop_first(), false)
                =~= out@.drop_last() + (seq![c] + pascal_from(rest.drop_first(), false)));
            assert(out@ + ascii_pascal_from(rest.drop_first(), false)
                =~= out@.drop_last() + (seq![c] + ascii_pascal_from(rest.drop_first(), false)));
        }
        i += 1;
    }
    assert(cs@.subrange(cs.len() as int, cs.len() as int) =~= Seq::<char>::empty());
    assert(out@ + Seq::<char>::empty() == out@);
    out
}

/// Whether `s` ends with `Event` and has something before it.
fn ends_with_event(cs: &Vec<char>) -> (r: bool)
    ensures
        r == (cs@.len() > 5 && cs@.subrange(cs@.len() - 5, cs@.len() as int) == event_word()),
{
    let n: usize = cs.len();
    if n <= 5 {
        return false;
    }
    let r = cs[n - 5] == 'E' && cs[n - 4] == 'v' && cs[n - 3] == 'e' && cs[n - 2] == 'n'
        && cs[n - 1] == 't';
    if r {
        assert(cs@.subrange(n - 5, n as int) =~= event_word());
    } else {
        proof {
            if cs@.subrange(n - 5, n as int) == event_word() {
                assert(cs@.subrange(n - 5, n as int)[0] == cs@[n - 5]);
                assert(cs@.subrange(n - 5, n as int)[1] == cs@[n - 4]);
                assert(cs@.subrange(n - 5, n as int)[2] == cs@[n - 3]);
                assert(cs@.subrange(n - 5, n as int)[3] == cs@[n - 2]);
                assert(cs@.subrange(n - 5, n as int)[4] == cs@[n - 1]);
            }
        }
    }
    r
}

/// The event group: the enum name with a trailing `Event` stripped, then
/// lower-camel. `FaderEvent` -> `fader`, `Telemetry` -> `telemetry`.
pub fn event_group(enum_name: &str) -> (out: String)
    ensures
        out@ == event_group_spec(enum_name@),
        enum_name@.len() > 0 && (enum_name@[0] as u32) < 128
            ==> out@ == ascii_lower_camel(strip_event_suffix(enum_name@)),
{
    let cs = chars_of(enum_name);
    if ends_with_event(&cs) {
        let mut base: Vec<char> = Vec::new();
        let mut i: usize = 0;
        while i < cs.len() - 5
            invariant
                cs@ == enum_name@,
                cs.len() > 5,
                i <= cs.len() - 5,
                base@ == cs@.subrange(0, i as int),
            decreases cs.len() - 5 - i,
        {
            base.push(cs[i]);
            i += 1;
            assert(base@ =~= cs@.subrange(0, i as int));
        }
        let b = string_of(&base);
        assert(base@[0] == enum_name@[0]);
        lower_camel(b.as_str())
    } else {
        lower_camel(enum_name)
    }
}

/// An event's wire name, `"{group}:{variant}"`.
pub fn event_wire_name(group: &str, discriminant: &str) -> (out: String)
    ensures
        out@ == group@ + seq![':'] + discriminant@,
{
    let mut out = owned(group);
    out.push(':');
    push_str(&mut out, discriminant);
    out
}

/// The wire name of a procedure: `"{namespace}.{name}"` when its set is
/// namespaced, the bare name otherwise.
pub fn command_wire_name(namespace: Option<&str>, name: &str) -> (out: String)
    ensures
        out@ == match namespace {
            Some(ns) => ns@ + seq!['.'] + name@,
            None => name@,
        },
{
    match namespace {
        Some(ns) => {
            let mut out = owned(ns);
            out.push('.');
            push_str(&mut out, name);
            out
        },
        None => owned(name),
    }
}

/// A name with its first character uppercased and the rest kept.
pub open spec fn upper_first_spec(s: Seq<char>) -> Seq<char> {
    if s.len() == 0 {
        s
    } else {
        uppercase_of(s[0]) + s.drop_first()
    }
}

/// A name with its first character uppercased and the rest kept:
/// `ui` -> `Ui`, `my_app` -> `My_app`.
pub fn upper_first(name: &str) -> (out: String)
    ensures
        out@ == upper_first_spec(name@),
        name@.len() > 0 && (name@[0] as u32) < 128 ==> out@ == seq![ascii_upper(name@[0])] + name@.drop_first(),
{
    let cs = chars_of(name);
    if cs.len() == 0 {
        return owned(name);
    }
    let first = uppercase_chars(cs[0]);
    let mut out = string_of(&first);
    let mut i: usize = 1;
    while i < cs.len()
        invariant
            cs@ == name@,
            1 <= i <= cs.len(),
            out@ == uppercase_of(cs@[0]) + cs@.subrange(1, i as int),
        decreases cs.len() - i,
    {
        out.push(cs[i]);
        i += 1;
        assert(cs@.subrange(1, i as int) == cs@.subrange(1, i - 1) + seq![cs@[i - 1]]);
    }
    assert(cs@.subrange(1, cs.len() as int) == cs@.drop_first());
    out
}

/// The name of the enum that lifted `#[taurpc(event)]` methods become: for a
/// single-level namespace, the namespace with its first character uppercased,
/// then `Event` (so the event group, the name minus `Event` lower-camel, is
/// the namespace itself); `{Trait}Event` otherwise.
pub open spec fn event_enum_name_spec(trait_ident: Seq<char>, namespace: Option<Seq<char>>) -> Seq<char> {
    let base = match namespace {
        Some(ns) => if !ns.contains('.') { upper_first_spec(ns) } else { trait_ident },
        None => trait_ident,
    };
    base + event_word()
}

/// The event enum name: chosen so the event group (name minus a trailing
/// `Event`, lower-camel) equals the trait's single-level `path`. A
/// multi-level path has no single group, so it falls back to the trait name.
pub fn event_enum_name(trait_ident: &str, namespace: Option<&str>) -> (out: String)
    ensures
        out@ == event_enum_name_spec(
            trait_ident@,
            match namespace {
                Some(ns) => Some(ns@),
                None => None,
            },
        ),
        match namespace {
            Some(ns) => !ns@.contains('.') && ns@.len() > 0 && (ns@[0] as u32) < 128
                ==> out@ == seq![ascii_upper(ns@[0])] + ns@.drop_first() + event_word(),
            None => true,
        },
{
    let mut base = match namespace {
        Some(ns) => if !has_char(ns, '.') {
            upper_first(ns)
        } else {
            owned(trait_ident)
        },
        None => owned(trait_ident),
    };
    let ghost b = base@;
    base.push('E');
    base.push('v');
    base.push('e');
    base.push('n');
    base.push('t');
    assert(base@ =~= b + event_word());
    base
}

/// The crate name generated code refers to: the name the consumer imported
/// the crate under when one was found, the canonical `tauri_typed_ipc`
/// otherwise.
pub fn crate_ident(found: Option<String>) -> (out: String)
    ensures
        out@ == match found {
            Some(name) => name@,
            None => "tauri_typed_ipc"@,
        },
{
    match found {
        Some(name) => name,
        None => owned("tauri_typed_ipc"),
    }
}

/// The crate's re-exported serde, as a path string for
/// `#[serde(crate = "...")]`: `::{crate}::__private::serde`.
pub fn private_serde(crate_ident: &str) -> (out: String)
    ensures
        out@ == "::"@ + crate_ident@ + "::__private::serde"@,
{
    concat3("::", crate_ident, "::__private::serde")
}

/// `"{prefix}{name}{suffix}"`, the shape of every generated item name.
pub fn affixed(prefix: &str, name: &str, suffix: &str) -> (out: String)
    ensures
        out@ == prefix@ + name@ + suffix@,
{
    concat3(prefix, name, suffix)
}

/// The event-trigger type a TauRPC trait emits through: the custom
/// `event_trigger = X` when given, TauRPC's default
/// `TauRpc{Trait}EventTrigger` otherwise.
pub fn trigger_name(trait_ident: &str, custom: Option<String>) -> (out: String)
    ensures
        out@ == match custom {
            Some(c) => c@,
            None => "TauRpc"@ + trait_ident@ + "EventTrigger"@,
        },
{
    match custom {
        Some(c) => c,
        None => concat3("TauRpc", trait_ident, "EventTrigger"),
    }
}

/// The event enum lifted for a trait with a single-level namespace has that
/// namespace as its event group, so the enum's events line up with the
/// namespace's client object. Stated for a namespace that starts with an
/// ASCII character other than a capital letter (`ui`, `my_app`, `stateSync`),
/// over the ASCII case mapping that `event_enum_name` and `event_group` state
/// for such a first character.
pub proof fn lemma_lifted_enum_group_is_namespace(ns: Seq<char>)
    requires
        ns.len() > 0,
        !ns.contains('.'),
        (ns[0] as u32) < 128,
        !('A' <= ns[0] && ns[0] <= 'Z'),
    ensures
        ({
            let name = seq![ascii_upper(ns[0])] + ns.drop_first() + event_word();
            &&& name.len() > 0 && (name[0] as u32) < 128
            &&& ascii_lower_camel(strip_event_suffix(name)) == ns
        }),
{
    let base = seq![ascii_upper(ns[0])] + ns.drop_first();
    let name = base + event_word();
    assert(name.subrange(name.len() - 5, name.len() as int) =~= event_word());
    assert(name.subrange(0, name.len() - 5) =~= base);
    assert(strip_event_suffix(name) == base);
    assert(name[0] == ascii_upper(ns[0]));
    assert(ascii_lower(ascii_upper(ns[0])) == ns[0]);
    assert(base.drop_first() =~= ns.drop_first());
    assert(seq![ascii_lower(base[0])] + base.drop_first() =~= ns);
}

} // verus!
