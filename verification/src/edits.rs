//! Surgical source edits: splicing replacement text into byte ranges of a
//! file while leaving everything else byte-for-byte, and laying out a
//! re-rendered expression so it drops into the column it replaces.

use vstd::prelude::*;
use crate::findings::{header, header_spec, join_lines, Findings};
use vstd::string::StringSliceAdditionalSpecFns;
use vstd::utf8::encode_utf8;

verus! {

/// Replace the bytes `start..end` of the source with `text`.
pub struct Edit {
    pub start: usize,
    pub end: usize,
    pub text: Vec<u8>,
}

/// Every edit covers a non-empty range inside the source, and no two edits
/// overlap (distinct syntax nodes span disjoint ranges).
pub open spec fn edits_ok(len: int, es: Seq<Edit>) -> bool {
    &&& forall|i: int| 0 <= i < es.len() ==> #[trigger] es[i].start < es[i].end && es[i].end <= len
    &&& forall|i: int, j: int| 0 <= i < es.len() && 0 <= j < es.len() && i != j
        ==> #[trigger] es[i].end <= #[trigger] es[j].start || es[j].end <= es[i].start
}

/// Edits in source order: each ends at or before the next starts.
pub open spec fn in_source_order(es: Seq<Edit>) -> bool {
    forall|i: int, j: int| 0 <= i < j < es.len() ==> #[trigger] es[i].end <= #[trigger] es[j].start
}

/// The source from `from` on, with edits in source order spliced in.
pub open spec fn spliced(src: Seq<u8>, es: Seq<Edit>, from: int) -> Seq<u8>
    decreases es.len(),
{
    if es.len() == 0 {
        src.subrange(from, src.len() as int)
    } else {
        src.subrange(from, es[0].start as int) + es[0].text@ + spliced(src, es.drop_first(), es[0].end as int)
    }
}

/// Whether `order` lists each of `0..n` exactly once.
pub open spec fn is_permutation(order: Seq<int>, n: int) -> bool {
    &&& order.len() == n
    &&& forall|k: int| 0 <= k < n ==> 0 <= #[trigger] order[k] < n
    &&& forall|k: int, l: int| 0 <= k < l < n ==> #[trigger] order[k] != #[trigger] order[l]
}

/// The edits taken in the given order.
pub open spec fn reordered(es: Seq<Edit>, order: Seq<int>) -> Seq<Edit> {
    order.map_values(|i: int| es[i])
}

/// Copies `src[from..to]` onto `out`.
fn copy_range(out: &mut Vec<u8>, src: &Vec<u8>, from: usize, to: usize)
    requires
        from <= to <= src@.len(),
    ensures
        final(out)@ == old(out)@ + src@.subrange(from as int, to as int),
{
    let ghost start = out@;
    let mut i = from;
    while i < to
        invariant
            from <= i <= to <= src@.len(),
            out@ == start + src@.subrange(from as int, i as int),
        decreases to - i,
    {
        out.push(src[i]);
        i += 1;
        assert(out@ =~= start + src@.subrange(from as int, i as int));
    }
}

/// The positions of the edits, sorted by where they start.
fn source_order(edits: &Vec<Edit>, len: usize) -> (order: Vec<usize>)
    requires
        edits_ok(len as int, edits@),
    ensures
        is_permutation(order@.map_values(|i: usize| i as int), edits@.len() as int),
        in_source_order(reordered(edits@, order@.map_values(|i: usize| i as int))),
{
    let n: usize = edits.len();
    let mut used: Vec<bool> = Vec::new();
    let mut i: usize = 0;
    while i < n
        invariant
            n == edits@.len(),
            i <= n,
            used@.len() == i,
            forall|k: int| 0 <= k < i ==> !#[trigger] used@[k],
        decreases n - i,
    {
        used.push(false);
        i += 1;
    }
    let mut order: Vec<usize> = Vec::new();
    while order.len() < n
        invariant
            n == edits@.len(),
            edits_ok(len as int, edits@),
            used@.len() == n,
            order@.len() <= n,
            forall|k: int| 0 <= k < order@.len() ==> #[trigger] order@[k] < n,
            forall|k: int, l: int| 0 <= k < l < order@.len() ==> #[trigger] order@[k] != #[trigger] order@[l],
            forall|x: int| 0 <= x < n ==> (#[trigger] used@[x] <==> exists|k: int| 0 <= k < order@.len() && order@[k] == x),
            forall|k: int, l: int| 0 <= k < l < order@.len() ==> #[trigger] edits@[order@[k] as int].end <= #[trigger] edits@[order@[l] as int].start,
            forall|k: int, x: int| 0 <= k < order@.len() && 0 <= x < n && !used@[x] ==> #[trigger] edits@[order@[k] as int].end <= #[trigger] edits@[x].start,
        decreases n - order@.len(),
    {
        // Some position is unused, as fewer than n are listed.
        proof {
            lemma_some_unused(used@, order@, n as int);
        }
        let mut best: usize = n;
        let mut j: usize = 0;
        while j < n
            invariant
                n == edits@.len(),
                used@.len() == n,
                j <= n,
                best == n || (best < j && !used@[best as int]),
                best < n ==> forall|x: int| 0 <= x < j && !used@[x] ==> edits@[best as int].start <= #[trigger] edits@[x].start,
                best == n ==> forall|x: int| 0 <= x < j ==> #[trigger] used@[x],
            decreases n - j,
        {
            if !used[j] && (best == n || edits[j].start < edits[best].start) {
                best = j;
            }
            j += 1;
        }
        assert(best < n);
        let ghost before = order@;
        let ghost used_before = used@;
        proof {
            assert forall|x: int| 0 <= x < n && !used_before[x] && x != best implies edits@[best as int].end <= #[trigger] edits@[x].start by {
                assert(edits@[best as int].start <= edits@[x].start);
                assert(edits@[best as int].end <= edits@[x].start || edits@[x].end <= edits@[best as int].start);
                assert(edits@[x].start < edits@[x].end);
            }
        }
        used.set(best, true);
        order.push(best);
        proof {
            assert forall|x: int| 0 <= x < n implies (#[trigger] used@[x] <==> exists|k: int| 0 <= k < order@.len() && order@[k] == x) by {
                if x == best {
                    assert(order@[before.len() as int] == x);
                } else if used@[x] {
                    let k = choose|k: int| 0 <= k < before.len() && before[k] == x;
                    assert(order@[k] == x);
                } else {
                    if exists|k: int| 0 <= k < order@.len() && order@[k] == x {
                        let k = choose|k: int| 0 <= k < order@.len() && order@[k] == x;
                        assert(k < before.len());
                    }
                }
            }
            assert forall|k: int, l: int| 0 <= k < l < order@.len() implies #[trigger] order@[k] != #[trigger] order@[l] by {
                if l == before.len() {
                    assert(used_before[order@[k] as int]);
                }
            }
        }
    }
    proof {
        let o = order@.map_values(|i: usize| i as int);
        assert forall|k: int, l: int| 0 <= k < l < o.len() implies #[trigger] o[k] != #[trigger] o[l] by {
            assert(order@[k] != order@[l]);
        }
        assert forall|k: int, l: int| 0 <= k < l < reordered(edits@, o).len() implies #[trigger] reordered(edits@, o)[k].end <= #[trigger] reordered(edits@, o)[l].start by {
            assert(edits@[order@[k] as int].end <= edits@[order@[l] as int].start);
        }
    }
    order
}

/// Fewer listed positions than `n` leave one unused.
proof fn lemma_some_unused(used: Seq<bool>, order: Seq<usize>, n: int)
    requires
        used.len() == n,
        order.len() < n,
        forall|k: int| 0 <= k < order.len() ==> #[trigger] order[k] < n,
        forall|k: int, l: int| 0 <= k < l < order.len() ==> #[trigger] order[k] != #[trigger] order[l],
        forall|x: int| 0 <= x < n ==> (#[trigger] used[x] <==> exists|k: int| 0 <= k < order.len() && order[k] == x),
    ensures
        exists|x: int| 0 <= x < n && !used[x],
{
    let listed = order.map_values(|i: usize| i as int).to_set();
    let all = Set::new(|x: int| 0 <= x < n);
    if forall|x: int| 0 <= x < n ==> used[x] {
        assert(all.subset_of(listed)) by {
            assert forall|x: int| all.contains(x) implies listed.contains(x) by {
                assert(used[x]);
                let k = choose|k: int| 0 <= k < order.len() && order[k] == x;
                assert(order.map_values(|i: usize| i as int)[k] == x);
            }
        }
        vstd::set_lib::lemma_int_range(0, n);
        assert(all =~= vstd::set_lib::set_int_range(0, n));
        order.map_values(|i: usize| i as int).lemma_cardinality_of_set();
        vstd::set_lib::lemma_len_subset(all, listed);
        assert(false);
    }
}

/// Splices every edit into the source: each range's bytes are replaced by
/// its text, and every byte outside the edited ranges is kept, in order.
pub fn splice(src: &Vec<u8>, edits: &Vec<Edit>) -> (out: Vec<u8>)
    requires
        edits_ok(src@.len() as int, edits@),
    ensures
        exists|order: Seq<int>| #[trigger] is_permutation(order, edits@.len() as int)
            && in_source_order(reordered(edits@, order))
            && out@ == spliced(src@, reordered(edits@, order), 0),
{
    let order = source_order(edits, src.len());
    let ghost o = order@.map_values(|i: usize| i as int);
    let ghost asc = reordered(edits@, o);
    let mut out: Vec<u8> = Vec::new();
    let mut pos: usize = 0;
    let mut k: usize = 0;
    assert(asc.skip(0) =~= asc);
    while k < order.len()
        invariant
            o == order@.map_values(|i: usize| i as int),
            asc == reordered(edits@, o),
            is_permutation(o, edits@.len() as int),
            in_source_order(asc),
            edits_ok(src@.len() as int, edits@),
            k <= order@.len(),
            pos <= src@.len(),
            k < order@.len() ==> pos <= asc[k as int].start,
            out@ + spliced(src@, asc.skip(k as int), pos as int) == spliced(src@, asc, 0),
        decreases order.len() - k,
    {
        let e = &edits[order[k]];
        assert(asc[k as int] == edits@[order@[k as int] as int]);
        assert(asc.skip(k as int).drop_first() =~= asc.skip(k + 1));
        assert(asc.skip(k as int)[0] == asc[k as int]);
        copy_range(&mut out, src, pos, e.start);
        let ghost mid = out@;
        let mut i: usize = 0;
        while i < e.text.len()
            invariant
                i <= e.text@.len(),
                out@ == mid + e.text@.take(i as int),
            decreases e.text.len() - i,
        {
            out.push(e.text[i]);
            i += 1;
            assert(out@ =~= mid + e.text@.take(i as int));
        }
        assert(e.text@.take(e.text@.len() as int) =~= e.text@);
        pos = e.end;
        k += 1;
        proof {
            if k < order@.len() {
                assert(asc[k - 1].end <= asc[k as int].start);
            }
        }
    }
    assert(asc.skip(k as int).len() == 0);
    copy_range(&mut out, src, pos, src.len());
    assert(out@ =~= spliced(src@, asc, 0));
    out
}

/// A line with one trailing `\r` removed.
pub open spec fn strip_cr(line: Seq<char>) -> Seq<char> {
    if line.len() > 0 && line.last() == '\r' {
        line.drop_last()
    } else {
        line
    }
}

/// Reading `s` left to right: the lines ended so far, and the text after
/// the last `\n`.
pub open spec fn scan_lines(s: Seq<char>) -> (Seq<Seq<char>>, Seq<char>)
    decreases s.len(),
{
    if s.len() == 0 {
        (Seq::empty(), Seq::empty())
    } else {
        let (done, cur) = scan_lines(s.drop_last());
        if s.last() == '\n' {
            (done.push(strip_cr(cur)), Seq::empty())
        } else {
            (done, cur.push(s.last()))
        }
    }
}

/// The lines of `s` as `str::lines` yields them: split at `\n` (a `\r`
/// before it dropped), with no empty line after a final `\n`.
pub open spec fn lines_spec(s: Seq<char>) -> Seq<Seq<char>> {
    let (done, cur) = scan_lines(s);
    if cur.len() == 0 {
        done
    } else {
        done.push(cur)
    }
}

/// The lines before the first line that is exactly `}`.
pub open spec fn until_close(ls: Seq<Seq<char>>) -> Seq<Seq<char>>
    decreases ls.len(),
{
    if ls.len() == 0 || ls[0] == seq!['}'] {
        Seq::empty()
    } else {
        seq![ls[0]] + until_close(ls.drop_first())
    }
}

/// A line with one leading four-space indent removed.
pub open spec fn dedent(line: Seq<char>) -> Seq<char> {
    if line.len() >= 4 && line.take(4) == seq![' ', ' ', ' ', ' '] {
        line.skip(4)
    } else {
        line
    }
}

/// `n` spaces.
pub open spec fn spaces(n: nat) -> Seq<char> {
    Seq::new(n, |i: int| ' ')
}

/// The lines after the first (the header), up to the first line that is
/// exactly `}`.
pub open spec fn body_lines(ls: Seq<Seq<char>>) -> Seq<Seq<char>> {
    if ls.len() == 0 {
        Seq::empty()
    } else {
        until_close(ls.drop_first())
    }
}

/// The lines of a rendered body laid out at a column: each dedented, every
/// line after the first padded with `indent` spaces.
pub open spec fn padded(body: Seq<Seq<char>>, indent: nat) -> Seq<Seq<char>> {
    Seq::new(body.len(), |i: int| if i == 0 {
        dedent(body[i])
    } else {
        spaces(indent) + dedent(body[i])
    })
}

/// The body lines of a rendered one-statement wrapper function, dedented, the
/// continuation lines padded to `indent`, joined by `\n`: the first line
/// (the wrapper's header) is skipped, and so is everything from its closing
/// `}` on.
pub open spec fn placed_spec(rendered: Seq<char>, indent: nat) -> Seq<char> {
    join_lines(padded(body_lines(lines_spec(rendered)), indent))
}

/// Splits `s` into lines as `str::lines` does.
fn split_lines(s: &str) -> (lines: Vec<Vec<char>>)
    ensures
        lines@.map_values(|l: Vec<char>| l@) == lines_spec(s@),
{
    let cs = crate::text::chars_of(s);
    let mut done: Vec<Vec<char>> = Vec::new();
    let mut cur: Vec<char> = Vec::new();
    let mut i: usize = 0;
    assert(cs@.take(0) =~= Seq::<char>::empty());
    while i < cs.len()
        invariant
            cs@ == s@,
            i <= cs@.len(),
            scan_lines(cs@.take(i as int)) == (done@.map_values(|l: Vec<char>| l@), cur@),
        decreases cs.len() - i,
    {
        assert(cs@.take(i + 1).drop_last() =~= cs@.take(i as int));
        assert(cs@.take(i + 1).last() == cs@[i as int]);
        let c = cs[i];
        if c == '\n' {
            let mut line: Vec<char> = Vec::new();
            core::mem::swap(&mut line, &mut cur);
            if line.len() > 0 && line[line.len() - 1] == '\r' {
                let ghost l0 = line@;
                line.pop();
                assert(line@ =~= l0.drop_last());
            }
            let ghost d0 = done@.map_values(|l: Vec<char>| l@);
            done.push(line);
            assert(done@.map_values(|l: Vec<char>| l@) =~= d0.push(line@));
            assert(cur@ =~= Seq::<char>::empty());
        } else {
            cur.push(c);
        }
        i += 1;
    }
    assert(cs@.take(cs@.len() as int) =~= cs@);
    if cur.len() > 0 {
        let ghost d0 = done@.map_values(|l: Vec<char>| l@);
        done.push(cur);
        assert(done@.map_values(|l: Vec<char>| l@) =~= d0.push(cur@));
    }
    done
}

/// Appends `line` with one leading four-space indent removed.
fn push_dedented(out: &mut String, line: &Vec<char>)
    ensures
        final(out)@ == old(out)@ + dedent(line@),
{
    let ghost start = out@;
    let indented = line.len() >= 4 && line[0] == ' ' && line[1] == ' ' && line[2] == ' '
        && line[3] == ' ';
    proof {
        if line@.len() >= 4 {
            assert(indented == (line@.take(4) =~= seq![' ', ' ', ' ', ' ']));
        }
    }
    let mut i: usize = if indented { 4 } else { 0 };
    let ghost first = i as int;
    while i < line.len()
        invariant
            0 <= first <= i <= line@.len(),
            out@ == start + line@.subrange(first, i as int),
        decreases line.len() - i,
    {
        out.push(line[i]);
        i += 1;
        assert(line@.subrange(first, i as int) =~= line@.subrange(first, i - 1) + seq![line@[i - 1]]);
    }
    assert(line@.subrange(first, line@.len() as int) =~= dedent(line@));
}

/// Appends `n` spaces.
fn push_spaces(out: &mut String, n: usize)
    ensures
        final(out)@ == old(out)@ + spaces(n as nat),
{
    let ghost start = out@;
    let mut i: usize = 0;
    while i < n
        invariant
            i <= n,
            out@ == start + spaces(i as nat),
        decreases n - i,
    {
        out.push(' ');
        i += 1;
        assert(out@ =~= start + spaces(i as nat));
    }
}

/// Lays out the body of a rendered wrapper function `fn __wrap() { <expr> }`
/// so it drops into column `indent`: the header line and the closing `}` are
/// dropped, one level of indent is removed, and every line after the first is
/// padded to the column.
pub fn place_rendered(rendered: &str, indent: usize) -> (out: String)
    ensures
        out@ == placed_spec(rendered@, indent as nat),
{
    let done = split_lines(rendered);
    let ghost lines = done@.map_values(|l: Vec<char>| l@);
    if done.len() == 0 {
        assert(join_lines(padded(body_lines(lines), indent as nat)) =~= Seq::<char>::empty());
        return String::new();
    }
    // The lines after the header, up to the closing brace.
    let mut body: Vec<Vec<char>> = Vec::new();
    let mut j: usize = 1;
    let mut closed = false;
    let ghost rest = lines.drop_first();
    assert(rest =~= lines.skip(1));
    assert(body@.map_values(|l: Vec<char>| l@) + until_close(lines.skip(1)) =~= until_close(lines.skip(1)));
    while j < done.len() && !closed
        invariant
            lines == done@.map_values(|l: Vec<char>| l@),
            1 <= j <= done@.len(),
            rest == lines.drop_first(),
            !closed ==> until_close(rest) == body@.map_values(|l: Vec<char>| l@) + until_close(lines.skip(j as int)),
            closed ==> until_close(rest) == body@.map_values(|l: Vec<char>| l@),
        decreases done.len() - j + (if closed { 0int } else { 1int }),
    {
        let is_close = done[j].len() == 1 && done[j][0] == '}';
        assert(lines.skip(j as int).drop_first() =~= lines.skip(j + 1));
        assert(lines.skip(j as int)[0] == done@[j as int]@);
        let ghost b0 = body@.map_values(|l: Vec<char>| l@);
        if is_close {
            assert(done@[j as int]@ =~= seq!['}']);
            assert(b0 =~= b0 + Seq::<Seq<char>>::empty());
            closed = true;
        } else {
            proof {
                if done@[j as int]@ == seq!['}'] {
                    assert(done@[j as int]@.len() == 1 && done@[j as int]@[0] == '}');
                }
            }
            body.push(done[j].clone());
            assert(body@.map_values(|l: Vec<char>| l@) =~= b0.push(done@[j as int]@));
            assert(until_close(lines.skip(j as int)) =~= seq![done@[j as int]@] + until_close(lines.skip(j + 1)));
            assert(b0 + until_close(lines.skip(j as int)) =~= b0.push(done@[j as int]@) + until_close(lines.skip(j + 1)));
            j += 1;
        }
    }
    proof {
        if !closed {
            assert(lines.skip(j as int) =~= Seq::<Seq<char>>::empty());
            assert(body@.map_values(|l: Vec<char>| l@) + Seq::<Seq<char>>::empty() =~= body@.map_values(|l: Vec<char>| l@));
        }
    }
    let ghost bv = body@.map_values(|l: Vec<char>| l@);
    let ghost parts = padded(bv, indent as nat);
    assert(bv == body_lines(lines));
    // Dedent, pad the continuation lines, join with newlines.
    let mut out = String::new();
    let mut k: usize = 0;
    assert(parts.take(0) =~= Seq::<Seq<char>>::empty());
    while k < body.len()
        invariant
            bv == body@.map_values(|l: Vec<char>| l@),
            parts == padded(bv, indent as nat),
            k <= body@.len(),
            out@ == join_lines(parts.take(k as int)),
        decreases body.len() - k,
    {
        if k > 0 {
            out.push('\n');
            push_spaces(&mut out, indent);
        }
        push_dedented(&mut out, &body[k]);
        assert(parts.take(k + 1).drop_last() =~= parts.take(k as int));
        assert(parts[k as int] == if k == 0 { dedent(bv[k as int]) } else { spaces(indent as nat) + dedent(bv[k as int]) });
        assert(out@ =~= join_lines(parts.take(k + 1)));
        k += 1;
    }
    assert(parts.take(body@.len() as int) =~= parts);
    out
}

/// Splicing no edits gives the source back unchanged, byte for byte: a file
/// the migration does not touch comes back identical.
pub proof fn lemma_splice_without_edits(src: Seq<u8>)
    ensures
        forall|order: Seq<int>| is_permutation(order, 0)
            ==> #[trigger] spliced(src, reordered(Seq::<Edit>::empty(), order), 0) == src,
{
    assert forall|order: Seq<int>| is_permutation(order, 0)
        implies #[trigger] spliced(src, reordered(Seq::<Edit>::empty(), order), 0) == src by {
        assert(reordered(Seq::<Edit>::empty(), order).len() == 0);
        assert(src.subrange(0, src.len() as int) =~= src);
    }
}

/// A migrated file's bytes: the findings header (its UTF-8 bytes) followed by
/// the source with every edit spliced in. Nothing outside the edited ranges is
/// touched, so a file with no edits and nothing migrated comes back
/// byte-identical.
pub fn migrated_file(src: &str, edits: &Vec<Edit>, findings: &Findings) -> (out: Vec<u8>)
    requires
        edits_ok(src.spec_bytes().len() as int, edits@),
    ensures
        exists|order: Seq<int>| #[trigger] is_permutation(order, edits@.len() as int)
            && in_source_order(reordered(edits@, order))
            && out@ == encode_utf8(header_spec(*findings)) + spliced(src.spec_bytes(), reordered(edits@, order), 0),
        !findings.transformed && edits@.len() == 0 ==> out@ == src.spec_bytes(),
{
    let h = header(findings);
    let mut out = vstd::slice::slice_to_vec(h.as_str().as_bytes());
    let source = vstd::slice::slice_to_vec(src.as_bytes());
    let mut body = splice(&source, edits);
    out.append(&mut body);
    proof {
        if !findings.transformed && edits@.len() == 0 {
            lemma_splice_without_edits(src.spec_bytes());
            assert(header_spec(*findings) =~= Seq::<char>::empty());
            assert(encode_utf8(Seq::<char>::empty()) =~= Seq::<u8>::empty());
            assert(out@ =~= src.spec_bytes());
        }
    }
    out
}

} // verus!
