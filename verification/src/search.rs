//! Search-side rules that do not depend on floating-point scores: the
//! full-text query built from a user query, the tag signature of a memory,
//! the de-duplication of a ranked result list, and the timestamps and counts
//! that recency and frequency scoring read.

use vstd::prelude::*;
use crate::fts::{is_cjk, spec_is_cjk};
use crate::text::{
    chars_eq, chars_of, contains_seq, is_whitespace, is_ws, lex_order, push_all, push_str, sort_chars, string_of,
    string_views, trim, trim_chars, views,
};
use crate::types::{memory_type_name, MemoryType};

verus! {

// ── Full-text query ────────────────────────────────────────────────────────

/// The maximal runs of non-white-space characters of `q` in which all
/// characters are CJK or all are not, in order.
pub open spec fn runs(q: Seq<char>) -> Seq<Seq<char>>
    decreases q.len(),
{
    if q.len() == 0 {
        Seq::empty()
    } else {
        let p = q.drop_last();
        let c = q.last();
        if is_ws(c) {
            runs(p)
        } else if p.len() > 0 && !is_ws(p.last()) && spec_is_cjk(p.last()) == spec_is_cjk(c) {
            let rs = runs(p);
            rs.update(rs.len() - 1, rs.last().push(c))
        } else {
            runs(p).push(seq![c])
        }
    }
}

/// `r` with every double quote doubled.
pub open spec fn escape_quotes(r: Seq<char>) -> Seq<char>
    decreases r.len(),
{
    if r.len() == 0 {
        Seq::empty()
    } else if r.last() == '"' {
        escape_quotes(r.drop_last()) + seq!['"', '"']
    } else {
        escape_quotes(r.drop_last()).push(r.last())
    }
}

/// `r` as a quoted full-text phrase.
pub open spec fn quoted(r: Seq<char>) -> Seq<char> {
    seq!['"'] + escape_quotes(r) + seq!['"']
}

/// The parts joined with `sep` between consecutive parts.
pub open spec fn join(parts: Seq<Seq<char>>, sep: Seq<char>) -> Seq<char>
    decreases parts.len(),
{
    if parts.len() == 0 {
        Seq::empty()
    } else if parts.len() == 1 {
        parts[0]
    } else {
        join(parts.drop_last(), sep) + sep + parts.last()
    }
}

/// A single character as a quoted phrase.
pub open spec fn quoted_char(c: char) -> Seq<char> {
    seq!['"', c, '"']
}

/// The characters as alternatives: one quoted character alone, or
/// `("a" OR "b" ...)`.
pub open spec fn or_group(cs: Seq<char>) -> Seq<char> {
    if cs.len() == 1 {
        quoted_char(cs[0])
    } else {
        seq!['('] + join(cs.map_values(|c: char| quoted_char(c)), seq![' ', 'O', 'R', ' '])
            + seq![')']
    }
}

/// A run rendered as a query part: CJK runs become an OR group, other runs
/// a quoted phrase.
pub open spec fn render_run(r: Seq<char>) -> Seq<char> {
    if r.len() > 0 && spec_is_cjk(r[0]) {
        or_group(r)
    } else {
        quoted(r)
    }
}

/// The full-text query for `q`: its runs rendered and separated by single
/// spaces (an implicit AND); a query with no runs becomes one quoted phrase.
pub open spec fn spec_fts_query(q: Seq<char>) -> Seq<char> {
    if runs(q).len() == 0 {
        quoted(q)
    } else {
        join(runs(q).map_values(|r: Seq<char>| render_run(r)), seq![' '])
    }
}


// ── Each CJK character is its own query term ──────────────────────────────

proof fn lemma_contains_prefix(a: Seq<char>, b: Seq<char>, t: Seq<char>)
    requires
        contains_seq(a, t),
    ensures
        contains_seq(a + b, t),
{
    let i = choose|i: int| 0 <= i && i + t.len() <= a.len() && #[trigger] a.subrange(i, i + t.len()) == t;
    assert((a + b).subrange(i, i + t.len()) =~= a.subrange(i, i + t.len()));
}

proof fn lemma_contains_suffix(a: Seq<char>, b: Seq<char>, t: Seq<char>)
    requires
        contains_seq(b, t),
    ensures
        contains_seq(a + b, t),
{
    let i = choose|i: int| 0 <= i && i + t.len() <= b.len() && #[trigger] b.subrange(i, i + t.len()) == t;
    assert((a + b).subrange(a.len() + i, a.len() + i + t.len()) =~= b.subrange(i, i + t.len()));
}

proof fn lemma_contains_self(a: Seq<char>)
    ensures
        contains_seq(a, a),
{
    let z: int = 0;
    assert(a.subrange(z, z + a.len()) =~= a);
}

proof fn lemma_contains_trans(a: Seq<char>, b: Seq<char>, c: Seq<char>)
    requires
        contains_seq(a, b),
        contains_seq(b, c),
    ensures
        contains_seq(a, c),
{
    let i = choose|i: int| 0 <= i && i + b.len() <= a.len() && #[trigger] a.subrange(i, i + b.len()) == b;
    let j = choose|j: int| 0 <= j && j + c.len() <= b.len() && #[trigger] b.subrange(j, j + c.len()) == c;
    assert(a.subrange(i + j, i + j + c.len()) =~= b.subrange(j, j + c.len()));
}

proof fn lemma_join_contains(parts: Seq<Seq<char>>, sep: Seq<char>, k: int)
    requires
        0 <= k < parts.len(),
    ensures
        contains_seq(join(parts, sep), parts[k]),
    decreases parts.len(),
{
    if parts.len() == 1 {
        lemma_contains_self(parts[0]);
    } else {
        let init = parts.drop_last();
        if k == parts.len() - 1 {
            lemma_contains_self(parts.last());
            lemma_contains_suffix(join(init, sep) + sep, parts.last(), parts[k]);
        } else {
            lemma_join_contains(init, sep, k);
            assert(init[k] == parts[k]);
            lemma_contains_prefix(join(init, sep), sep + parts.last(), parts[k]);
            assert(join(init, sep) + sep + parts.last() =~= join(init, sep) + (sep + parts.last()));
        }
    }
}

proof fn lemma_or_group_contains(cs: Seq<char>, j: int)
    requires
        0 <= j < cs.len(),
    ensures
        contains_seq(or_group(cs), quoted_char(cs[j])),
{
    if cs.len() == 1 {
        lemma_contains_self(quoted_char(cs[0]));
    } else {
        let parts = cs.map_values(|c: char| quoted_char(c));
        let sep = seq![' ', 'O', 'R', ' '];
        lemma_join_contains(parts, sep, j);
        assert(parts[j] == quoted_char(cs[j]));
        lemma_contains_suffix(seq!['('], join(parts, sep), quoted_char(cs[j]));
        lemma_contains_prefix(seq!['('] + join(parts, sep), seq![')'], quoted_char(cs[j]));
    }
}

/// Every run is non-empty and holds characters of one kind (all CJK or none
/// CJK) and no white space; every character of `q` that is not white space
/// lies in some run; and when `q` ends in such a character it is the last
/// character of the last run.
proof fn lemma_runs_cover(q: Seq<char>)
    ensures
        forall|k: int| 0 <= k < runs(q).len() ==> (#[trigger] runs(q)[k]).len() > 0,
        forall|k: int, j: int|
            0 <= k < runs(q).len() && 0 <= j < runs(q)[k].len() ==> !is_ws(#[trigger] runs(q)[k][j])
                && spec_is_cjk(runs(q)[k][j]) == spec_is_cjk(runs(q)[k][0]),
        forall|i: int|
            0 <= i < q.len() && !is_ws(#[trigger] q[i]) ==> exists|k: int, j: int|
                0 <= k < runs(q).len() && 0 <= j < runs(q)[k].len() && #[trigger] runs(q)[k][j] == q[i],
        q.len() > 0 && !is_ws(q.last()) ==> runs(q).len() > 0 && runs(q).last().len() > 0
            && runs(q).last().last() == q.last(),
    decreases q.len(),
{
    if q.len() > 0 {
        let p = q.drop_last();
        let c = q.last();
        lemma_runs_cover(p);
        let rs = runs(p);
        assert forall|i: int| 0 <= i < p.len() implies #[trigger] q[i] == p[i] by {}
        if is_ws(c) {
            assert(runs(q) == rs);
            assert forall|i: int| 0 <= i < q.len() && !is_ws(#[trigger] q[i]) implies exists|k: int, j: int|
                0 <= k < runs(q).len() && 0 <= j < runs(q)[k].len() && #[trigger] runs(q)[k][j] == q[i] by {
                assert(i < p.len());
                assert(!is_ws(p[i]));
            }
        } else if p.len() > 0 && !is_ws(p.last()) && spec_is_cjk(p.last()) == spec_is_cjk(c) {
            let last = rs.len() - 1;
            let nr = rs.last().push(c);
            let rq = rs.update(last, nr);
            assert(runs(q) == rq);
            assert forall|k: int| 0 <= k < rq.len() implies (#[trigger] rq[k]).len() > 0 by {
                if k != last {
                    assert(rq[k] == rs[k]);
                }
            }
            assert forall|k: int, j: int|
                0 <= k < rq.len() && 0 <= j < rq[k].len() implies !is_ws(#[trigger] rq[k][j])
                    && spec_is_cjk(rq[k][j]) == spec_is_cjk(rq[k][0]) by {
                if k != last {
                    assert(rq[k] == rs[k]);
                } else if j < rs.last().len() {
                    assert(rq[k][j] == rs[last][j]);
                    assert(rq[k][0] == rs[last][0]);
                } else {
                    assert(rq[k][j] == c);
                    assert(rq[k][0] == rs[last][0]);
                    assert(rs[last][rs[last].len() - 1] == p.last());
                    assert(spec_is_cjk(rs[last][rs[last].len() - 1]) == spec_is_cjk(rs[last][0]));
                }
            }
            assert forall|i: int| 0 <= i < q.len() && !is_ws(#[trigger] q[i]) implies exists|k: int, j: int|
                0 <= k < rq.len() && 0 <= j < rq[k].len() && #[trigger] rq[k][j] == q[i] by {
                if i == q.len() - 1 {
                    assert(rq[last][rs[last].len() as int] == c);
                } else {
                    assert(!is_ws(p[i]));
                    let (k, j) = choose|k: int, j: int|
                        0 <= k < rs.len() && 0 <= j < rs[k].len() && #[trigger] rs[k][j] == p[i];
                    if k == last {
                        assert(rq[k][j] == rs[k][j]);
                    } else {
                        assert(rq[k] == rs[k]);
                    }
                }
            }
            assert(rq.last() == nr);
        } else {
            let rq = rs.push(seq![c]);
            assert(runs(q) == rq);
            assert forall|k: int| 0 <= k < rq.len() implies (#[trigger] rq[k]).len() > 0 by {
                if k < rs.len() {
                    assert(rq[k] == rs[k]);
                }
            }
            assert forall|k: int, j: int|
                0 <= k < rq.len() && 0 <= j < rq[k].len() implies !is_ws(#[trigger] rq[k][j])
                    && spec_is_cjk(rq[k][j]) == spec_is_cjk(rq[k][0]) by {
                if k < rs.len() {
                    assert(rq[k] == rs[k]);
                }
            }
            assert forall|i: int| 0 <= i < q.len() && !is_ws(#[trigger] q[i]) implies exists|k: int, j: int|
                0 <= k < rq.len() && 0 <= j < rq[k].len() && #[trigger] rq[k][j] == q[i] by {
                if i == q.len() - 1 {
                    assert(rq[rs.len() as int][0] == c);
                } else {
                    assert(!is_ws(p[i]));
                    let (k, j) = choose|k: int, j: int|
                        0 <= k < rs.len() && 0 <= j < rs[k].len() && #[trigger] rs[k][j] == p[i];
                    assert(rq[k] == rs[k]);
                }
            }
        }
    }
}

/// Law: every CJK character of a query (other than CJK white space, which
/// separates terms like any other white space) becomes a quoted term of its
/// own in the full-text query, so a memory matches on any one of its
/// characters once its text is indexed character by character.
pub proof fn law_each_cjk_character_is_its_own_term(q: Seq<char>, i: int)
    requires
        0 <= i < q.len(),
        spec_is_cjk(q[i]),
        !is_ws(q[i]),
    ensures
        contains_seq(spec_fts_query(q), quoted_char(q[i])),
{
    lemma_runs_cover(q);
    let (k, j) = choose|k: int, j: int|
        0 <= k < runs(q).len() && 0 <= j < runs(q)[k].len() && #[trigger] runs(q)[k][j] == q[i];
    let r = runs(q)[k];
    assert(spec_is_cjk(r[0]));
    assert(render_run(r) == or_group(r));
    lemma_or_group_contains(r, j);
    let rendered = runs(q).map_values(|x: Seq<char>| render_run(x));
    assert(rendered[k] == render_run(r));
    lemma_join_contains(rendered, seq![' '], k);
    lemma_contains_trans(spec_fts_query(q), render_run(r), quoted_char(q[i]));
}

proof fn lemma_join_push(parts: Seq<Seq<char>>, x: Seq<char>, sep: Seq<char>)
    ensures
        join(parts.push(x), sep) == if parts.len() == 0 {
            x
        } else {
            join(parts, sep) + sep + x
        },
{
    assert(parts.push(x).drop_last() =~= parts);
    if parts.len() == 0 {
        assert(parts.push(x)[0] == x);
    }
}

fn push_escaped(out: &mut Vec<char>, r: &Vec<char>)
    ensures
        final(out)@ == old(out)@ + escape_quotes(r@),
{
    let ghost start = out@;
    let mut i: usize = 0;
    while i < r.len()
        invariant
            0 <= i <= r.len(),
            out@ == start + escape_quotes(r@.subrange(0, i as int)),
        decreases r.len() - i,
    {
        let ghost pre = r@.subrange(0, i as int);
        let ghost next = r@.subrange(0, i + 1);
        assert(next.drop_last() =~= pre);
        let c = r[i];
        if c == '"' {
            out.push('"');
            out.push('"');
        } else {
            out.push(c);
        }
        i = i + 1;
        assert(out@ =~= start + escape_quotes(next));
    }
    assert(r@.subrange(0, r@.len() as int) =~= r@);
}

fn push_quoted(out: &mut Vec<char>, r: &Vec<char>)
    ensures
        final(out)@ == old(out)@ + quoted(r@),
{
    let ghost start = out@;
    out.push('"');
    push_escaped(out, r);
    out.push('"');
    assert(out@ =~= start + quoted(r@));
}

fn push_or_group(out: &mut Vec<char>, cs: &[char])
    ensures
        final(out)@ == old(out)@ + or_group(cs@),
{
    let ghost start = out@;
    if cs.len() == 1 {
        out.push('"');
        out.push(cs[0]);
        out.push('"');
        assert(out@ =~= start + or_group(cs@));
    } else {
        let ghost qs = cs@.map_values(|c: char| quoted_char(c));
        out.push('(');
        let mut i: usize = 0;
        while i < cs.len()
            invariant
                0 <= i <= cs.len(),
                qs == cs@.map_values(|c: char| quoted_char(c)),
                out@ == start + seq!['('] + join(qs.take(i as int), seq![' ', 'O', 'R', ' ']),
            decreases cs.len() - i,
        {
            let ghost before = out@;
            proof {
                lemma_join_push(qs.take(i as int), qs[i as int], seq![' ', 'O', 'R', ' ']);
                assert(qs.take(i as int).push(qs[i as int]) =~= qs.take(i + 1));
            }
            if i > 0 {
                out.push(' ');
                out.push('O');
                out.push('R');
                out.push(' ');
            }
            out.push('"');
            out.push(cs[i]);
            out.push('"');
            i = i + 1;
            assert(out@ =~= start + seq!['('] + join(qs.take(i as int), seq![' ', 'O', 'R', ' ']));
        }
        out.push(')');
        assert(qs.take(cs.len() as int) =~= qs);
        assert(out@ =~= start + or_group(cs@));
    }
}

/// Wraps CJK characters in an OR group: one character becomes `"c"`, several
/// become `("a" OR "b" OR ...)`.
pub fn cjk_or_group(chars: &[char]) -> (r: String)
    ensures
        r@ == or_group(chars@),
{
    let mut out: Vec<char> = Vec::new();
    push_or_group(&mut out, chars);
    assert(out@ =~= or_group(chars@));
    string_of(&out)
}

/// Splits `cs` into its runs (see `runs`).
fn split_runs(cs: &Vec<char>) -> (r: Vec<Vec<char>>)
    ensures
        views(r@) == runs(cs@),
        forall|k: int| 0 <= k < r@.len() ==> #[trigger] r@[k]@.len() > 0,
{
    let mut done: Vec<Vec<char>> = Vec::new();
    let mut cur: Vec<char> = Vec::new();
    let mut i: usize = 0;
    while i < cs.len()
        invariant
            0 <= i <= cs.len(),
            runs(cs@.subrange(0, i as int)) == if cur@.len() > 0 {
                views(done@).push(cur@)
            } else {
                views(done@)
            },
            cur@.len() > 0 <==> (i > 0 && !is_ws(cs@[i - 1])),
            cur@.len() > 0 ==> cur@.last() == cs@[i - 1],
            forall|k: int| 0 <= k < done@.len() ==> #[trigger] done@[k]@.len() > 0,
        decreases cs.len() - i,
    {
        let ghost pre = cs@.subrange(0, i as int);
        let ghost next = cs@.subrange(0, i + 1);
        let ghost old_done = views(done@);
        proof {
            assert(next.drop_last() =~= pre);
            assert(next.last() == cs@[i as int]);
            if i > 0 {
                assert(pre.last() == cs@[i - 1]);
            }
        }
        let c = cs[i];
        if is_whitespace(c) {
            if cur.len() > 0 {
                done.push(cur);
                cur = Vec::new();
                assert(views(done@) =~= old_done.push(
                    done@[done@.len() - 1]@,
                ));
            }
        } else if cur.len() > 0 && is_cjk(cur[cur.len() - 1]) == is_cjk(c) {
            let ghost old_cur = cur@;
            cur.push(c);
            proof {
                let rs = old_done.push(old_cur);
                assert(rs.update(rs.len() - 1, rs.last().push(c)) =~= old_done.push(cur@));
            }
        } else {
            if cur.len() > 0 {
                done.push(cur);
                assert(views(done@) =~= old_done.push(
                    done@[done@.len() - 1]@,
                ));
            }
            cur = Vec::new();
            cur.push(c);
            assert(cur@ =~= seq![c]);
        }
        i = i + 1;
    }
    assert(cs@.subrange(0, cs@.len() as int) =~= cs@);
    if cur.len() > 0 {
        let ghost old_done = views(done@);
        done.push(cur);
        assert(views(done@) =~= old_done.push(done@[done@.len() - 1]@));
    }
    done
}

/// Builds the full-text MATCH expression for a user query. Runs of CJK
/// characters become OR groups of single characters (a partial match on
/// ideographs is useful); other runs become quoted phrases that must all be
/// present. A query with no runs at all becomes one quoted phrase.
pub fn build_fts_query(query: &str) -> (r: String)
    ensures
        r@ == spec_fts_query(query@),
{
    let cs = chars_of(query);
    let rs = split_runs(&cs);
    let ghost rviews = views(rs@);
    let mut out: Vec<char> = Vec::new();
    if rs.len() == 0 {
        push_quoted(&mut out, &cs);
        assert(out@ =~= quoted(cs@));
        return string_of(&out);
    }
    let ghost parts = rviews.map_values(|r: Seq<char>| render_run(r));
    let mut k: usize = 0;
    while k < rs.len()
        invariant
            0 <= k <= rs.len(),
            rviews == views(rs@),
            parts == rviews.map_values(|r: Seq<char>| render_run(r)),
            forall|j: int| 0 <= j < rs@.len() ==> #[trigger] rs@[j]@.len() > 0,
            out@ == join(parts.take(k as int), seq![' ']),
        decreases rs.len() - k,
    {
        let ghost before = out@;
        proof {
            lemma_join_push(parts.take(k as int), parts[k as int], seq![' ']);
            assert(parts.take(k as int).push(parts[k as int]) =~= parts.take(k + 1));
            assert(parts[k as int] == render_run(rs@[k as int]@));
        }
        if k > 0 {
            out.push(' ');
        }
        let run = &rs[k];
        if is_cjk(run[0]) {
            push_or_group(&mut out, run.as_slice());
        } else {
            push_quoted(&mut out, run);
        }
        k = k + 1;
        assert(out@ =~= join(parts.take(k as int), seq![' ']));
    }
    assert(parts.take(rs.len() as int) =~= parts);
    string_of(&out)
}


// ── Tag signature ──────────────────────────────────────────────────────────

/// The signature of a memory with tags: its type name, `::`, and its tags
/// sorted and joined with `|`. A memory without tags has none.
pub open spec fn spec_tag_signature(t: MemoryType, tags: Seq<Seq<char>>) -> Option<Seq<char>> {
    if tags.len() == 0 {
        None
    } else {
        Some(memory_type_name(t) + seq![':', ':'] + join(tags.sort_by(lex_order()), seq!['|']))
    }
}

/// The character vectors of the given strings.
fn chars_of_all(v: &Vec<String>) -> (r: Vec<Vec<char>>)
    ensures
        views(r@) == string_views(v@),
{
    let mut r: Vec<Vec<char>> = Vec::new();
    let mut i: usize = 0;
    while i < v.len()
        invariant
            0 <= i <= v.len(),
            views(r@) == string_views(v@).take(i as int),
        decreases v.len() - i,
    {
        let cs = chars_of(v[i].as_str());
        assert(cs@ == v@[i as int]@);
        let ghost before = r@;
        r.push(cs);
        assert(views(r@) =~= views(before).push(v@[i as int]@));
        assert(string_views(v@).take(i + 1) =~= string_views(v@).take(i as int).push(v@[i as int]@));
        i = i + 1;
        assert(views(r@) =~= string_views(v@).take(i as int));
    }
    assert(string_views(v@).take(v@.len() as int) =~= string_views(v@));
    r
}

fn signature_chars(memory_type: MemoryType, tags: &Vec<String>) -> (r: Option<Vec<char>>)
    ensures
        match r {
            None => spec_tag_signature(memory_type, string_views(tags@)) is None,
            Some(x) => spec_tag_signature(memory_type, string_views(tags@)) == Some(x@),
        },
{
    if tags.len() == 0 {
        return None;
    }
    let cs = chars_of_all(tags);
    let sorted = sort_chars(&cs);
    let ghost parts = views(sorted@);
    let mut out: Vec<char> = Vec::new();
    push_str(&mut out, memory_type.as_str());
    out.push(':');
    out.push(':');
    let ghost head = out@;
    let mut k: usize = 0;
    while k < sorted.len()
        invariant
            0 <= k <= sorted.len(),
            parts == views(sorted@),
            out@ == head + join(parts.take(k as int), seq!['|']),
        decreases sorted.len() - k,
    {
        proof {
            lemma_join_push(parts.take(k as int), parts[k as int], seq!['|']);
            assert(parts.take(k as int).push(parts[k as int]) =~= parts.take(k + 1));
        }
        if k > 0 {
            out.push('|');
        }
        push_all(&mut out, &sorted[k]);
        k = k + 1;
        assert(out@ =~= head + join(parts.take(k as int), seq!['|']));
    }
    assert(parts.take(sorted.len() as int) =~= parts);
    assert(out@ =~= memory_type_name(memory_type) + seq![':', ':'] + join(
        string_views(tags@).sort_by(lex_order()),
        seq!['|'],
    ));
    Some(out)
}

/// The tag signature of a memory: `None` without tags, otherwise
/// `type::tag1|tag2|...` with the tags in sorted order.
pub fn tag_signature(memory_type: MemoryType, tags: &Vec<String>) -> (r: Option<String>)
    ensures
        match r {
            None => spec_tag_signature(memory_type, string_views(tags@)) is None,
            Some(x) => spec_tag_signature(memory_type, string_views(tags@)) == Some(x@),
        },
{
    match signature_chars(memory_type, tags) {
        None => None,
        Some(v) => Some(string_of(&v)),
    }
}

// ── De-duplication of ranked results ───────────────────────────────────────

/// Most results kept per tag signature.
pub const MAX_RESULTS_PER_TAG_SIGNATURE: usize = 1;

/// What de-duplication reads of a ranked memory.
pub struct RankedMemory {
    pub content: String,
    pub memory_type: MemoryType,
    pub tags: Vec<String>,
}

/// The key under which equal contents are recognised: the trimmed content.
pub open spec fn content_key(e: RankedMemory) -> Seq<char> {
    trim(e.content@)
}

/// The tag signature of a ranked memory.
pub open spec fn entry_signature(e: RankedMemory) -> Option<Seq<char>> {
    spec_tag_signature(e.memory_type, string_views(e.tags@))
}

/// Whether an earlier entry than `j` has the same content key.
pub open spec fn seen_before(es: Seq<RankedMemory>, j: int) -> bool {
    exists|i: int| 0 <= i < j && content_key(#[trigger] es[i]) == content_key(es[j])
}

/// Whether a kept entry already has the signature of entry `j`.
pub open spec fn signature_taken(es: Seq<RankedMemory>, kept: Seq<int>, j: int) -> bool {
    entry_signature(es[j]) is Some && exists|m: int|
        0 <= m < kept.len() && entry_signature(es[#[trigger] kept[m]]) == entry_signature(es[j])
}

/// The positions kept among the first `k` entries of a ranked list: an entry
/// is kept unless the limit (when non-zero) is already reached, an earlier
/// entry has the same trimmed content, or a kept entry has the same tag
/// signature.
pub open spec fn kept_prefix(es: Seq<RankedMemory>, limit: nat, k: nat) -> Seq<int>
    decreases k,
{
    if k == 0 {
        Seq::empty()
    } else {
        let kept = kept_prefix(es, limit, (k - 1) as nat);
        let j = k - 1;
        if limit > 0 && kept.len() >= limit {
            kept
        } else if seen_before(es, j) {
            kept
        } else if signature_taken(es, kept, j) {
            kept
        } else {
            kept.push(j)
        }
    }
}

/// The positions that de-duplication keeps from a ranked list.
pub open spec fn spec_dedup(es: Seq<RankedMemory>, limit: nat) -> Seq<int> {
    kept_prefix(es, limit, es.len())
}

proof fn lemma_kept_stays(es: Seq<RankedMemory>, limit: nat, k: nat, n: nat)
    requires
        k <= n,
        limit > 0,
        kept_prefix(es, limit, k).len() >= limit,
    ensures
        kept_prefix(es, limit, n) == kept_prefix(es, limit, k),
    decreases n - k,
{
    if k < n {
        lemma_kept_stays(es, limit, k, (n - 1) as nat);
    }
}

fn contains_chars(list: &Vec<Vec<char>>, key: &Vec<char>) -> (r: bool)
    ensures
        r == exists|i: int| 0 <= i < list@.len() && (#[trigger] list@[i])@ == key@,
{
    let mut i: usize = 0;
    while i < list.len()
        invariant
            0 <= i <= list.len(),
            forall|j: int| 0 <= j < i ==> (#[trigger] list@[j])@ != key@,
        decreases list.len() - i,
    {
        if chars_eq(&list[i], key) {
            return true;
        }
        i = i + 1;
    }
    false
}

/// The view of an optional character vector.
pub open spec fn opt_view(o: Option<Vec<char>>) -> Option<Seq<char>> {
    match o {
        None => None,
        Some(v) => Some(v@),
    }
}

fn contains_some(list: &Vec<Option<Vec<char>>>, key: &Vec<char>) -> (r: bool)
    ensures
        r == exists|i: int| 0 <= i < list@.len() && opt_view(#[trigger] list@[i]) == Some(key@),
{
    let mut i: usize = 0;
    while i < list.len()
        invariant
            0 <= i <= list.len(),
            forall|j: int| 0 <= j < i ==> opt_view(#[trigger] list@[j]) != Some(key@),
        decreases list.len() - i,
    {
        match &list[i] {
            Some(v) => {
                if chars_eq(v, key) {
                    return true;
                }
            },
            None => {},
        }
        i = i + 1;
    }
    false
}

/// Keeps, in order, the ranked entries that are not repeats: an entry is
/// dropped when an earlier entry has the same trimmed content, or when an
/// entry with the same tag signature was already kept. Stops once `limit`
/// entries are kept; a `limit` of 0 sets no bound. Returns the kept
/// positions.
pub fn dedup_ranked(entries: &Vec<RankedMemory>, limit: usize) -> (r: Vec<usize>)
    ensures
        r@.map_values(|x: usize| x as int) == spec_dedup(entries@, limit as nat),
{
    let ghost es = entries@;
    let mut kept: Vec<usize> = Vec::new();
    let mut seen: Vec<Vec<char>> = Vec::new();
    let mut kept_sigs: Vec<Option<Vec<char>>> = Vec::new();
    let mut i: usize = 0;
    while i < entries.len()
        invariant
            0 <= i <= entries.len(),
            es == entries@,
            kept@.map_values(|x: usize| x as int) == kept_prefix(es, limit as nat, i as nat),
            limit == 0 || kept@.len() < limit,
            seen@.len() == i,
            forall|j: int| 0 <= j < i ==> (#[trigger] seen@[j])@ == content_key(es[j]),
            kept_sigs@.len() == kept@.len(),
            forall|m: int|
                0 <= m < kept@.len() ==> opt_view(#[trigger] kept_sigs@[m]) == entry_signature(
                    es[kept@[m] as int],
                ),
        decreases entries.len() - i,
    {
        let ghost kv = kept@.map_values(|x: usize| x as int);
        let e = &entries[i];
        let cs = chars_of(e.content.as_str());
        let key = trim_chars(&cs);
        let dup = contains_chars(&seen, &key);
        proof {
            if dup {
                let w = choose|w: int| 0 <= w < seen@.len() && (#[trigger] seen@[w])@ == key@;
                assert(content_key(es[w]) == content_key(es[i as int]));
            } else {
                assert forall|w: int| 0 <= w < i implies content_key(#[trigger] es[w])
                    != content_key(es[i as int]) by {
                    assert(seen@[w]@ == content_key(es[w]));
                }
            }
        }
        seen.push(key);
        if !dup {
            let sig = signature_chars(e.memory_type, &e.tags);
            let taken = match &sig {
                None => false,
                Some(g) => contains_some(&kept_sigs, g),
            };
            proof {
                if taken {
                    let g = sig->0;
                    let m = choose|m: int|
                        0 <= m < kept_sigs@.len() && opt_view(#[trigger] kept_sigs@[m]) == Some(g@);
                    assert(kv[m] == kept@[m] as int);
                    assert(entry_signature(es[kv[m]]) == entry_signature(es[i as int]));
                    assert(signature_taken(es, kv, i as int));
                } else if sig is Some {
                    let g = sig->0;
                    assert forall|q: int| 0 <= q < kv.len() implies entry_signature(
                        es[#[trigger] kv[q]],
                    ) != entry_signature(es[i as int]) by {
                        assert(kv[q] == kept@[q] as int);
                        assert(opt_view(kept_sigs@[q]) != Some(g@));
                    }
                }
            }
            if !taken {
                kept.push(i);
                kept_sigs.push(sig);
                proof {
                    assert(kept@.map_values(|x: usize| x as int) =~= kv.push(i as int));
                }
                if kept.len() == limit {
                    proof {
                        lemma_kept_stays(es, limit as nat, (i + 1) as nat, es.len());
                    }
                    return kept;
                }
            }
        }
        i = i + 1;
    }
    kept
}


/// The kept positions are increasing positions of `es`, no two kept entries
/// have the same trimmed content or the same tag signature, and a non-zero
/// limit bounds their number.
pub open spec fn dedup_invariant(es: Seq<RankedMemory>, limit: nat, kept: Seq<int>) -> bool {
    &&& forall|a: int, b: int| 0 <= a < b < kept.len() ==> #[trigger] kept[a] < #[trigger] kept[b]
    &&& forall|a: int| 0 <= a < kept.len() ==> 0 <= #[trigger] kept[a] < es.len()
    &&& forall|a: int, b: int|
        0 <= a < b < kept.len() ==> content_key(es[#[trigger] kept[a]]) != content_key(
            es[#[trigger] kept[b]],
        )
    &&& forall|a: int, b: int|
        0 <= a < b < kept.len() && entry_signature(es[#[trigger] kept[a]]) is Some
            ==> entry_signature(es[kept[a]]) != entry_signature(es[#[trigger] kept[b]])
    &&& limit > 0 ==> kept.len() <= limit
}

proof fn lemma_kept_prefix(es: Seq<RankedMemory>, limit: nat, k: nat)
    requires
        k <= es.len(),
    ensures
        dedup_invariant(es, limit, kept_prefix(es, limit, k)),
        forall|a: int| 0 <= a < kept_prefix(es, limit, k).len() ==> #[trigger] kept_prefix(es, limit, k)[a] < k,
    decreases k,
{
    if k > 0 {
        lemma_kept_prefix(es, limit, (k - 1) as nat);
        let kept = kept_prefix(es, limit, (k - 1) as nat);
        let j = k - 1;
        if !(limit > 0 && kept.len() >= limit) && !seen_before(es, j) && !signature_taken(es, kept, j) {
            let nk = kept.push(j);
            assert(kept_prefix(es, limit, k) == nk);
            assert forall|a: int, b: int| 0 <= a < b < nk.len() implies content_key(es[#[trigger] nk[a]]) != content_key(
                es[#[trigger] nk[b]]) by {
                if b == nk.len() - 1 {
                    assert(nk[a] == kept[a]);
                    assert(kept[a] < j);
                    if content_key(es[kept[a]]) == content_key(es[j]) {
                        assert(seen_before(es, j));
                    }
                } else {
                    assert(nk[a] == kept[a] && nk[b] == kept[b]);
                }
            }
            assert forall|a: int, b: int|
                0 <= a < b < nk.len() && entry_signature(es[#[trigger] nk[a]]) is Some
                    implies entry_signature(es[nk[a]]) != entry_signature(es[#[trigger] nk[b]]) by {
                if b == nk.len() - 1 {
                    assert(nk[a] == kept[a]);
                    if entry_signature(es[kept[a]]) == entry_signature(es[j]) {
                        assert(signature_taken(es, kept, j));
                    }
                } else {
                    assert(nk[a] == kept[a] && nk[b] == kept[b]);
                }
            }
            assert forall|a: int, b: int| 0 <= a < b < nk.len() implies #[trigger] nk[a] < #[trigger] nk[b] by {
                if b == nk.len() - 1 {
                    assert(nk[a] == kept[a]);
                } else {
                    assert(nk[a] == kept[a] && nk[b] == kept[b]);
                }
            }
        }
    }
}

/// Law: de-duplication keeps increasing positions, never two entries with
/// the same trimmed content, never two with the same tag signature, and (for
/// a non-zero limit) at most `limit` entries.
pub proof fn law_dedup_keeps_distinct_entries(es: Seq<RankedMemory>, limit: nat)
    ensures
        dedup_invariant(es, limit, spec_dedup(es, limit)),
{
    lemma_kept_prefix(es, limit, es.len());
}

/// The kept positions of a longer prefix extend those of a shorter one:
/// the first ones are the same, and the rest lie at or after the end of
/// the shorter prefix.
proof fn lemma_kept_prefix_extends(es: Seq<RankedMemory>, limit: nat, k: nat, n: nat)
    requires
        k <= n <= es.len(),
    ensures
        kept_prefix(es, limit, k).len() <= kept_prefix(es, limit, n).len(),
        forall|a: int| 0 <= a < kept_prefix(es, limit, k).len() ==> #[trigger] kept_prefix(es, limit, n)[a]
            == kept_prefix(es, limit, k)[a],
        forall|a: int| kept_prefix(es, limit, k).len() <= a < kept_prefix(es, limit, n).len()
            ==> #[trigger] kept_prefix(es, limit, n)[a] >= k,
    decreases n - k,
{
    if k < n {
        lemma_kept_prefix_extends(es, limit, k, (n - 1) as nat);
    }
}

/// Law: de-duplication drops an entry only for a reason. Unless a
/// non-zero limit has been reached (the result then holds `limit`
/// entries), every entry is kept whose trimmed content no earlier entry
/// has and whose tag signature, if it has one, no kept entry before it
/// has.
pub proof fn law_dedup_keeps_every_eligible_entry(es: Seq<RankedMemory>, limit: nat, j: int)
    requires
        0 <= j < es.len(),
        limit == 0 || spec_dedup(es, limit).len() < limit,
        forall|i: int| 0 <= i < j ==> content_key(#[trigger] es[i]) != content_key(es[j]),
        !(entry_signature(es[j]) is Some && exists|m: int|
            0 <= m < spec_dedup(es, limit).len() && spec_dedup(es, limit)[m] < j && entry_signature(
                es[#[trigger] spec_dedup(es, limit)[m]],
            ) == entry_signature(es[j])),
    ensures
        exists|m: int| 0 <= m < spec_dedup(es, limit).len() && #[trigger] spec_dedup(es, limit)[m] == j,
{
    let r = spec_dedup(es, limit);
    let kept = kept_prefix(es, limit, j as nat);
    lemma_kept_prefix_extends(es, limit, j as nat, es.len());
    lemma_kept_prefix_extends(es, limit, (j + 1) as nat, es.len());
    lemma_kept_prefix(es, limit, j as nat);
    assert(!seen_before(es, j));
    if signature_taken(es, kept, j) {
        let m = choose|m: int|
            0 <= m < kept.len() && entry_signature(es[#[trigger] kept[m]]) == entry_signature(es[j]);
        assert(r[m] == kept[m]);
        assert(kept[m] < j);
        assert(entry_signature(es[r[m]]) == entry_signature(es[j]));
        assert(false);
    }
    assert(kept_prefix(es, limit, (j + 1) as nat) == kept.push(j));
    assert(r[kept.len() as int] == j);
}

/// Law: the first entry of a non-empty ranked list is always kept.
pub proof fn law_dedup_keeps_top_entry(es: Seq<RankedMemory>, limit: nat)
    requires
        es.len() > 0,
    ensures
        spec_dedup(es, limit).len() > 0,
        spec_dedup(es, limit)[0] == 0,
{
    lemma_first_kept(es, limit, es.len());
}

proof fn lemma_first_kept(es: Seq<RankedMemory>, limit: nat, k: nat)
    requires
        1 <= k <= es.len(),
    ensures
        kept_prefix(es, limit, k).len() > 0,
        kept_prefix(es, limit, k)[0] == 0,
    decreases k,
{
    if k == 1 {
        assert(kept_prefix(es, limit, 0).len() == 0);
        assert(!seen_before(es, 0));
    } else {
        lemma_first_kept(es, limit, (k - 1) as nat);
        let kept = kept_prefix(es, limit, (k - 1) as nat);
        assert(kept_prefix(es, limit, k) == kept || kept_prefix(es, limit, k) == kept.push(k - 1));
    }
}


// ── Recency and frequency inputs ───────────────────────────────────────────

/// The usage counters and timestamps of a memory.
#[derive(Debug, Clone, Copy, PartialEq, Eq, Structural)]
pub struct MemoryStats {
    pub access_count: i64,
    pub last_accessed_at: Option<i64>,
    pub retrieval_count: i64,
    pub last_retrieved_at: Option<i64>,
    pub created_at: i64,
}

/// The timestamp recency is scored from: the last retrieval if there was
/// one, otherwise the creation time.
pub open spec fn spec_recency_timestamp(m: MemoryStats) -> i64 {
    match m.last_retrieved_at {
        Some(t) => t,
        None => m.created_at,
    }
}

/// The count frequency is scored from: the retrieval count once the memory
/// has been retrieved, otherwise the access count.
pub open spec fn spec_frequency_count(m: MemoryStats) -> i64 {
    if m.retrieval_count > 0 {
        m.retrieval_count
    } else {
        m.access_count
    }
}

/// The timestamp recency is scored from.
pub fn effective_recency_timestamp(memory: &MemoryStats) -> (r: i64)
    ensures
        r == spec_recency_timestamp(*memory),
{
    match memory.last_retrieved_at {
        Some(t) => t,
        None => memory.created_at,
    }
}

/// The count frequency is scored from.
pub fn effective_frequency_count(memory: &MemoryStats) -> (r: i64)
    ensures
        r == spec_frequency_count(*memory),
{
    if memory.retrieval_count > 0 {
        memory.retrieval_count
    } else {
        memory.access_count
    }
}

/// Records that a memory was returned by a search at `tracked_at`: one more
/// retrieval, and `tracked_at` as the last retrieval time. Access counters
/// are left as they are.
pub fn mark_retrieved(memory: &mut MemoryStats, tracked_at: i64)
    requires
        old(memory).retrieval_count < i64::MAX,
    ensures
        *final(memory) == (MemoryStats {
            retrieval_count: (old(memory).retrieval_count + 1) as i64,
            last_retrieved_at: Some(tracked_at),
            ..*old(memory)
        }),
{
    memory.retrieval_count = memory.retrieval_count + 1;
    memory.last_retrieved_at = Some(tracked_at);
}

/// Law: once a memory with a non-negative retrieval count has been marked
/// as retrieved, recency is scored from that retrieval and frequency from
/// its retrieval count, which is at least one.
pub proof fn law_retrieval_drives_recency_and_frequency(m: MemoryStats, tracked_at: i64)
    requires
        0 <= m.retrieval_count < i64::MAX,
    ensures
        ({
            let after = MemoryStats {
                retrieval_count: (m.retrieval_count + 1) as i64,
                last_retrieved_at: Some(tracked_at),
                ..m
            };
            &&& spec_recency_timestamp(after) == tracked_at
            &&& spec_frequency_count(after) == m.retrieval_count + 1
            &&& spec_frequency_count(after) >= 1
        }),
{
}


/// The stats of `m` after it was returned by a search at `tracked_at`.
pub open spec fn retrieved(m: MemoryStats, tracked_at: i64) -> MemoryStats {
    MemoryStats {
        retrieval_count: (m.retrieval_count + 1) as i64,
        last_retrieved_at: Some(tracked_at),
        ..m
    }
}

/// Records that every memory in a search result was retrieved at
/// `tracked_at`; the order and the number of results stay as they were.
pub fn mark_all_retrieved(memories: &mut Vec<MemoryStats>, tracked_at: i64)
    requires
        forall|i: int| 0 <= i < old(memories)@.len() ==> (#[trigger] old(memories)@[i]).retrieval_count < i64::MAX,
    ensures
        final(memories)@.len() == old(memories)@.len(),
        forall|i: int| 0 <= i < old(memories)@.len() ==> (#[trigger] final(memories)@[i]) == retrieved(old(memories)@[i], tracked_at),
{
    let n = memories.len();
    let mut k: usize = 0;
    while k < n
        invariant
            n == old(memories)@.len(),
            memories@.len() == n,
            0 <= k <= n,
            forall|i: int| 0 <= i < n ==> (#[trigger] old(memories)@[i]).retrieval_count < i64::MAX,
            forall|i: int| 0 <= i < k ==> (#[trigger] memories@[i]) == retrieved(old(memories)@[i], tracked_at),
            forall|i: int| k <= i < n ==> (#[trigger] memories@[i]) == old(memories)@[i],
        decreases n - k,
    {
        let mut m = memories[k];
        mark_retrieved(&mut m, tracked_at);
        memories.set(k, m);
        k = k + 1;
    }
}


/// How many candidates the vector and keyword searches each fetch for a
/// result of `limit` memories: three times as many, so that rejection,
/// merging and deduplication still leave enough.
pub fn candidate_limit(limit: usize) -> (r: usize)
    requires
        limit <= usize::MAX / 3,
    ensures
        r == 3 * limit,
{
    limit * 3
}


/// The stats of `m` after it was read by its id at `now`.
pub open spec fn accessed(m: MemoryStats, now: i64) -> MemoryStats {
    MemoryStats {
        access_count: (m.access_count + 1) as i64,
        last_accessed_at: Some(now),
        ..m
    }
}

/// Records that a memory was read by its id at `now`: one more access, and
/// `now` as the last access time. Retrieval counters are left as they are.
pub fn mark_accessed(memory: &mut MemoryStats, now: i64)
    requires
        old(memory).access_count < i64::MAX,
    ensures
        *final(memory) == accessed(*old(memory), now),
{
    memory.access_count = memory.access_count + 1;
    memory.last_accessed_at = Some(now);
}

/// Law: reads by id and search retrievals are counted apart. A read leaves
/// the retrieval counters alone and a retrieval the access counters, so the
/// two kinds of tracking can happen in either order with the same result;
/// once a memory has been retrieved, reads no longer change its recency or
/// frequency inputs.
pub proof fn law_access_and_retrieval_are_separate(m: MemoryStats, now: i64, tracked_at: i64)
    requires
        m.access_count < i64::MAX,
        m.retrieval_count < i64::MAX,
    ensures
        accessed(m, now).retrieval_count == m.retrieval_count,
        accessed(m, now).last_retrieved_at == m.last_retrieved_at,
        retrieved(m, tracked_at).access_count == m.access_count,
        retrieved(m, tracked_at).last_accessed_at == m.last_accessed_at,
        accessed(retrieved(m, tracked_at), now) == retrieved(accessed(m, now), tracked_at),
        m.retrieval_count >= 0 ==> {
            let r = retrieved(m, tracked_at);
            &&& spec_recency_timestamp(accessed(r, now)) == spec_recency_timestamp(r)
            &&& spec_frequency_count(accessed(r, now)) == spec_frequency_count(r)
        },
{
}


/// Whether a search answers with no results at once: rejection is on, the
/// keyword search found nothing, and the best vector score is below the
/// configured minimum (that comparison of scores is made by the caller).
pub fn rejects_weak_results(enable_rejection: bool, has_keyword_hits: bool, top_score_below_min: bool) -> (r: bool)
    ensures
        r == (enable_rejection && !has_keyword_hits && top_score_below_min),
{
    enable_rejection && !has_keyword_hits && top_score_below_min
}

/// The positions `0, 1, …, n - 1`.
pub open spec fn first_positions(n: nat) -> Seq<int> {
    Seq::new(n, |i: int| i)
}

/// The positions of the ranked entries a search returns: the de-duplicated
/// ones when de-duplication is on, otherwise the first `limit` entries.
pub fn select_results(entries: &Vec<RankedMemory>, limit: usize, dedup: bool) -> (r: Vec<usize>)
    ensures
        dedup ==> r@.map_values(|x: usize| x as int) == spec_dedup(entries@, limit as nat),
        !dedup ==> r@.map_values(|x: usize| x as int) == first_positions(
            if limit < entries@.len() { limit as nat } else { entries@.len() },
        ),
{
    if dedup {
        return dedup_ranked(entries, limit);
    }
    let n = if limit < entries.len() { limit } else { entries.len() };
    let mut out: Vec<usize> = Vec::new();
    let mut i: usize = 0;
    while i < n
        invariant
            0 <= i <= n,
            out@.len() == i,
            forall|k: int| 0 <= k < i ==> out@[k] == k,
        decreases n - i,
    {
        out.push(i);
        i = i + 1;
    }
    assert(out@.map_values(|x: usize| x as int) =~= first_positions(n as nat));
    out
}

} // verus!
