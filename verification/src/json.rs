//! JSON values as the library holds them, and their rendering as JSON text.
//! A number keeps the text it was written with; an object keeps its members
//! in order.

use vstd::prelude::*;
use crate::text::{chars_of, push_str};

verus! {

/// A JSON value.
pub enum Json {
    Null,
    Bool(bool),
    /// A number, as its JSON text (`5`, `-1.5`, `1e300`).
    Number(String),
    Str(String),
    Array(Vec<Json>),
    /// An object's members, in order.
    Object(Vec<(String, Json)>),
}

/// The hexadecimal digit of `n` (below sixteen), in lower case.
pub open spec fn hex_digit_spec(n: u32) -> char {
    if n < 10 {
        (48 + n) as char
    } else {
        (87 + n) as char
    }
}

/// How one character of a string is written inside JSON quotes: a quote and a
/// backslash are escaped by a backslash, a control character (below U+0020)
/// as `\u00XX`, and every other character stands for itself.
pub open spec fn escaped_char(c: char) -> Seq<char> {
    if c == '"' {
        seq!['\\', '"']
    } else if c == '\\' {
        seq!['\\', '\\']
    } else if (c as u32) < 32 {
        seq!['\\', 'u', '0', '0', hex_digit_spec((c as u32) / 16), hex_digit_spec((c as u32) % 16)]
    } else {
        seq![c]
    }
}

/// The characters of `s`, each escaped for a JSON string.
pub open spec fn escaped(s: Seq<char>) -> Seq<char>
    decreases s.len(),
{
    if s.len() == 0 {
        Seq::empty()
    } else {
        escaped(s.drop_last()) + escaped_char(s.last())
    }
}

/// `s` as a JSON string literal.
pub open spec fn quoted_json(s: Seq<char>) -> Seq<char> {
    seq!['"'] + escaped(s) + seq!['"']
}

/// The JSON text of a value: no whitespace, members and items in order,
/// separated by commas.
pub open spec fn render_json(j: Json) -> Seq<char>
    decreases j, 1nat,
{
    match j {
        Json::Null => "null"@,
        Json::Bool(b) => if b { "true"@ } else { "false"@ },
        Json::Number(n) => n@,
        Json::Str(s) => quoted_json(s@),
        Json::Array(items) => seq!['['] + render_items(items@) + seq![']'],
        Json::Object(members) => seq!['{'] + render_members(members@) + seq!['}'],
    }
}

/// The JSON texts of `items`, separated by commas.
pub open spec fn render_items(items: Seq<Json>) -> Seq<char>
    decreases items, 0nat,
{
    if items.len() == 0 {
        Seq::empty()
    } else if items.len() == 1 {
        render_json(items[0])
    } else {
        render_items(items.drop_last()) + seq![','] + render_json(items.last())
    }
}

/// The JSON text of one object member: the quoted key, a colon, the value.
pub open spec fn render_member(m: (String, Json)) -> Seq<char>
    decreases m, 1nat,
{
    quoted_json(m.0@) + seq![':'] + render_json(m.1)
}

/// The JSON texts of `members`, separated by commas.
pub open spec fn render_members(members: Seq<(String, Json)>) -> Seq<char>
    decreases members, 0nat,
{
    if members.len() == 0 {
        Seq::empty()
    } else if members.len() == 1 {
        render_member(members[0])
    } else {
        render_members(members.drop_last()) + seq![','] + render_member(members.last())
    }
}

/// The value of the first member named `key`, if any.
pub open spec fn member_in(members: Seq<(String, Json)>, key: Seq<char>) -> Option<Json>
    decreases members.len(),
{
    if members.len() == 0 {
        None
    } else if members[0].0@ == key {
        Some(members[0].1)
    } else {
        member_in(members.drop_first(), key)
    }
}

/// The member `key` of an object (its first member of that name); `None`
/// when `j` is not an object or has no such member.
pub open spec fn member_of(j: Json, key: Seq<char>) -> Option<Json> {
    match j {
        Json::Object(members) => member_in(members@, key),
        _ => None,
    }
}

/// The hexadecimal digit of `n`, in lower case.
fn hex_digit(n: u32) -> (c: char)
    requires
        n < 16,
    ensures
        c == hex_digit_spec(n),
{
    if n < 10 {
        ((48 + n) as u8) as char
    } else {
        ((87 + n) as u8) as char
    }
}

/// Appends `s` to `out` as a JSON string literal.
pub fn push_quoted(out: &mut String, s: &str)
    ensures
        final(out)@ == old(out)@ + quoted_json(s@),
{
    let ghost start = out@;
    let cs = chars_of(s);
    out.push('"');
    let mut i: usize = 0;
    while i < cs.len()
        invariant
            i <= cs@.len(),
            cs@ == s@,
            out@ == start + seq!['"'] + escaped(cs@.take(i as int)),
        decreases cs.len() - i,
    {
        let c = cs[i];
        if c == '"' {
            out.push('\\');
            out.push('"');
        } else if c == '\\' {
            out.push('\\');
            out.push('\\');
        } else if (c as u32) < 32 {
            out.push('\\');
            out.push('u');
            out.push('0');
            out.push('0');
            out.push(hex_digit((c as u32) / 16));
            out.push(hex_digit((c as u32) % 16));
        } else {
            out.push(c);
        }
        assert(cs@.take(i + 1).drop_last() =~= cs@.take(i as int));
        i += 1;
    }
    assert(cs@.take(cs@.len() as int) =~= cs@);
    out.push('"');
}

/// Appends the JSON text of `j` to `out`.
pub fn push_json(out: &mut String, j: &Json)
    ensures
        final(out)@ == old(out)@ + render_json(*j),
    decreases *j, 1nat,
{
    match j {
        Json::Null => push_str(out, "null"),
        Json::Bool(b) => if *b { push_str(out, "true") } else { push_str(out, "false") },
        Json::Number(n) => push_str(out, n.as_str()),
        Json::Str(s) => push_quoted(out, s.as_str()),
        Json::Array(items) => {
            out.push('[');
            push_items(out, items);
            out.push(']');
        },
        Json::Object(members) => {
            out.push('{');
            push_members(out, members);
            out.push('}');
        },
    }
}

/// Appends the JSON texts of `items`, separated by commas.
fn push_items(out: &mut String, items: &Vec<Json>)
    ensures
        final(out)@ == old(out)@ + render_items(items@),
    decreases items@, 0nat,
{
    let ghost start = out@;
    let mut i: usize = 0;
    while i < items.len()
        invariant
            i <= items@.len(),
            out@ == start + render_items(items@.take(i as int)),
        decreases items.len() - i,
    {
        let ghost before = out@;
        if i > 0 {
            out.push(',');
        }
        assert(decreases_to!(items@ => items@[i as int]));
        push_json(out, &items[i]);
        proof {
            let t = items@.take(i + 1);
            assert(t.drop_last() =~= items@.take(i as int));
            assert(t.last() == items@[i as int]);
            if i == 0 {
                assert(render_items(items@.take(0)) =~= Seq::<char>::empty());
            }
            assert(out@ =~= start + render_items(t));
        }
        i += 1;
    }
    assert(items@.take(items@.len() as int) =~= items@);
}

/// Appends the JSON texts of `members`, separated by commas.
fn push_members(out: &mut String, members: &Vec<(String, Json)>)
    ensures
        final(out)@ == old(out)@ + render_members(members@),
    decreases members@, 0nat,
{
    let ghost start = out@;
    let mut i: usize = 0;
    while i < members.len()
        invariant
            i <= members@.len(),
            out@ == start + render_members(members@.take(i as int)),
        decreases members.len() - i,
    {
        let ghost before = out@;
        if i > 0 {
            out.push(',');
        }
        let ghost sep = out@;
        let m = &members[i];
        push_quoted(out, m.0.as_str());
        out.push(':');
        assert(decreases_to!(members@ => members@[i as int].1));
        push_json(out, &m.1);
        proof {
            assert(out@ =~= sep + render_member(members@[i as int]));
            let t = members@.take(i + 1);
            assert(t.drop_last() =~= members@.take(i as int));
            assert(t.last() == members@[i as int]);
            if i == 0 {
                assert(render_members(members@.take(0)) =~= Seq::<char>::empty());
            }
            assert(out@ =~= start + render_members(t));
        }
        i += 1;
    }
    assert(members@.take(members@.len() as int) =~= members@);
}

/// The JSON text of `j`.
pub fn render(j: &Json) -> (out: String)
    ensures
        out@ == render_json(*j),
{
    let mut out = String::new();
    push_json(&mut out, j);
    out
}

/// The member `key` of the object `j` (its first member of that name);
/// `None` when `j` is not an object or has no such member.
pub fn member<'a>(j: &'a Json, key: &str) -> (r: Option<&'a Json>)
    ensures
        match r {
            Some(v) => member_of(*j, key@) == Some(*v),
            None => member_of(*j, key@) is None,
        },
{
    match j {
        Json::Object(members) => {
            let mut i: usize = 0;
            assert(members@.skip(0) =~= members@);
            assert(member_of(*j, key@) == member_in(members@, key@));
            while i < members.len()
                invariant
                    i <= members@.len(),
                    member_in(members@, key@) == member_in(members@.skip(i as int), key@),
                    member_of(*j, key@) == member_in(members@, key@),
                decreases members.len() - i,
            {
                let ghost rest = members@.skip(i as int);
                assert(rest[0] == members@[i as int]);
                if crate::text::same_text(members[i].0.as_str(), key) {
                    assert(member_in(rest, key@) == Some(rest[0].1));
                    assert(member_of(*j, key@) == Some(members@[i as int].1));
                    return Some(&members[i].1);
                }
                assert(rest.drop_first() =~= members@.skip(i + 1));
                i += 1;
            }
            assert(members@.skip(i as int).len() == 0);
            None
        },
        _ => None,
    }
}


/// The rendered text shows the kind of value at its ends: an object is
/// written between braces (`{}` when it has no members), an array between
/// brackets (`[]` when empty), a string between quotes, and `null`, `true`
/// and `false` as those words.
pub proof fn lemma_render_keeps_the_kind(j: Json)
    ensures
        j matches Json::Object(ms) ==> render_json(j).len() >= 2 && render_json(j)[0] == '{'
            && render_json(j).last() == '}' && (ms@.len() == 0 <==> render_json(j).len() == 2),
        j matches Json::Array(items) ==> render_json(j).len() >= 2 && render_json(j)[0] == '['
            && render_json(j).last() == ']' && (items@.len() == 0 ==> render_json(j).len() == 2),
        j is Str ==> render_json(j).len() >= 2 && render_json(j)[0] == '"' && render_json(j).last() == '"',
        j is Null ==> render_json(j) == seq!['n', 'u', 'l', 'l'],
        j == Json::Bool(true) ==> render_json(j) == seq!['t', 'r', 'u', 'e'],
        j == Json::Bool(false) ==> render_json(j) == seq!['f', 'a', 'l', 's', 'e'],
{
    reveal_strlit("null");
    reveal_strlit("true");
    reveal_strlit("false");
    match j {
        Json::Object(ms) => {
            let inner = render_members(ms@);
            if ms@.len() > 0 {
                lemma_member_text_nonempty(ms@);
            } else {
                assert(inner =~= Seq::<char>::empty());
            }
            assert(render_json(j) =~= seq!['{'] + inner + seq!['}']);
        },
        Json::Array(items) => {
            if items@.len() == 0 {
                assert(render_items(items@) =~= Seq::<char>::empty());
            }
            assert(render_json(j) =~= seq!['['] + render_items(items@) + seq![']']);
        },
        Json::Str(s) => {
            assert(render_json(j) =~= seq!['"'] + escaped(s@) + seq!['"']);
        },
        _ => {},
    }
}

/// The members of a non-empty object render as non-empty text (each member
/// holds at least its quoted key).
proof fn lemma_member_text_nonempty(ms: Seq<(String, Json)>)
    requires
        ms.len() > 0,
    ensures
        render_members(ms).len() > 0,
    decreases ms.len(),
{
    if ms.len() == 1 {
        assert(render_member(ms[0]).len() >= 2);
    } else {
        lemma_member_text_nonempty(ms.drop_last());
    }
}


/// A string with no quote, no backslash and no control character is written
/// inside its quotes exactly as it is.
pub proof fn lemma_plain_strings_are_kept(s: Seq<char>)
    requires
        forall|i: int| 0 <= i < s.len() ==> #[trigger] s[i] != '"' && s[i] != '\\' && (s[i] as u32) >= 32,
    ensures
        escaped(s) == s,
        quoted_json(s) == seq!['"'] + s + seq!['"'],
    decreases s.len(),
{
    if s.len() > 0 {
        lemma_plain_strings_are_kept(s.drop_last());
        assert(s.drop_last() + seq![s.last()] =~= s);
    }
}

} // verus!
