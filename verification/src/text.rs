//! Character-level text model shared by the rest of the library.
//!
//! Strings are viewed as `Seq<char>` (their `@` view). Executable code works
//! on `Vec<char>` copies and turns them back into `String` at the end.

use vstd::prelude::*;
use vstd::relations::{sorted_by, total_ordering};
use vstd::seq_lib::lemma_sorted_unique;
use vstd::std_specs::iter::IteratorSpec;

verus! {

/// Copies the characters of `s` into a vector.
pub fn chars_of(s: &str) -> (r: Vec<char>)
    ensures
        r@ == s@,
{
    broadcast use vstd::string::axiom_spec_iter, vstd::string::next_postcondition;
    let mut out: Vec<char> = Vec::new();
    let mut it = s.chars();
    loop
        invariant
            out@ + it.remaining() == s@,
            it.decrease() is Some,
        ensures
            out@ == s@,
        decreases it.decrease()->0,
    {
        match it.next() {
            Some(c) => {
                out.push(c);
            },
            None => {
                assert(out@ + Seq::<char>::empty() =~= out@);
                break;
            },
        }
    }
    out
}

/// Builds a `String` from a sequence of characters.
///
/// Wraps `String::from_iter` over the characters; the contract claims that
/// the string's characters are exactly those of `v`, in order.
#[verifier::external_body]
pub(crate) fn string_of(v: &Vec<char>) -> (r: String)
    ensures
        r@ == v@,
{
    v.iter().collect()
}

/// The Unicode `White_Space` property (the characters `char::is_whitespace`
/// accepts).
pub open spec fn is_ws(c: char) -> bool {
    let u = c as u32;
    ||| 0x09 <= u <= 0x0D
    ||| u == 0x20
    ||| u == 0x85
    ||| u == 0xA0
    ||| u == 0x1680
    ||| 0x2000 <= u <= 0x200A
    ||| u == 0x2028
    ||| u == 0x2029
    ||| u == 0x202F
    ||| u == 0x205F
    ||| u == 0x3000
}

/// Whether `c` is a Unicode white-space character.
pub fn is_whitespace(c: char) -> (r: bool)
    ensures
        r == is_ws(c),
{
    let u = c as u32;
    (0x09 <= u && u <= 0x0D) || u == 0x20 || u == 0x85 || u == 0xA0 || u == 0x1680 || (0x2000
        <= u && u <= 0x200A) || u == 0x2028 || u == 0x2029 || u == 0x202F || u == 0x205F || u
        == 0x3000
}

/// `s` with leading white space removed.
pub open spec fn trim_start(s: Seq<char>) -> Seq<char>
    decreases s.len(),
{
    if s.len() > 0 && is_ws(s[0]) {
        trim_start(s.drop_first())
    } else {
        s
    }
}

/// `s` with trailing white space removed.
pub open spec fn trim_end(s: Seq<char>) -> Seq<char>
    decreases s.len(),
{
    if s.len() > 0 && is_ws(s.last()) {
        trim_end(s.drop_last())
    } else {
        s
    }
}

/// `s` with white space removed at both ends (what `str::trim` gives).
pub open spec fn trim(s: Seq<char>) -> Seq<char> {
    trim_end(trim_start(s))
}

/// Whether every character of `s` is white space.
pub open spec fn all_ws(s: Seq<char>) -> bool {
    forall|i: int| 0 <= i < s.len() ==> is_ws(#[trigger] s[i])
}

/// Number of leading white-space characters.
pub open spec fn lead_ws(s: Seq<char>) -> nat
    decreases s.len(),
{
    if s.len() > 0 && is_ws(s[0]) {
        1 + lead_ws(s.drop_first())
    } else {
        0
    }
}

/// Number of trailing white-space characters.
pub open spec fn trail_ws(s: Seq<char>) -> nat
    decreases s.len(),
{
    if s.len() > 0 && is_ws(s.last()) {
        1 + trail_ws(s.drop_last())
    } else {
        0
    }
}

pub proof fn lemma_trim_start(s: Seq<char>)
    ensures
        lead_ws(s) <= s.len(),
        trim_start(s) == s.subrange(lead_ws(s) as int, s.len() as int),
        all_ws(s.subrange(0, lead_ws(s) as int)),
        lead_ws(s) < s.len() ==> !is_ws(s[lead_ws(s) as int]),
    decreases s.len(),
{
    if s.len() > 0 && is_ws(s[0]) {
        lemma_trim_start(s.drop_first());
        assert(s.drop_first().subrange(lead_ws(s.drop_first()) as int, s.drop_first().len() as int)
            =~= s.subrange(lead_ws(s) as int, s.len() as int));
        assert forall|i: int| 0 <= i < lead_ws(s) implies is_ws(
            #[trigger] s.subrange(0, lead_ws(s) as int)[i],
        ) by {
            if i > 0 {
                assert(s.subrange(0, lead_ws(s) as int)[i] == s.drop_first().subrange(
                    0,
                    lead_ws(s.drop_first()) as int,
                )[i - 1]);
            }
        }
    } else {
        assert(s.subrange(0, s.len() as int) =~= s);
    }
}

pub proof fn lemma_trim_end(s: Seq<char>)
    ensures
        trail_ws(s) <= s.len(),
        trim_end(s) == s.subrange(0, s.len() - trail_ws(s)),
        all_ws(s.subrange(s.len() - trail_ws(s), s.len() as int)),
        trail_ws(s) < s.len() ==> !is_ws(s[s.len() - trail_ws(s) - 1]),
    decreases s.len(),
{
    if s.len() > 0 && is_ws(s.last()) {
        lemma_trim_end(s.drop_last());
        assert(s.drop_last().subrange(0, s.drop_last().len() - trail_ws(s.drop_last()))
            =~= s.subrange(0, s.len() - trail_ws(s)));
        let k = trail_ws(s);
        assert forall|i: int| 0 <= i < k implies is_ws(
            #[trigger] s.subrange(s.len() - k, s.len() as int)[i],
        ) by {
            if i < k - 1 {
                assert(s.subrange(s.len() - k, s.len() as int)[i] == s.drop_last().subrange(
                    s.drop_last().len() - trail_ws(s.drop_last()),
                    s.drop_last().len() as int,
                )[i]);
            }
        }
    } else {
        assert(s.subrange(0, s.len() as int) =~= s);
    }
}

/// Position of the first non-white-space character (or `v.len()`).
pub fn first_non_ws(v: &Vec<char>) -> (r: usize)
    ensures
        r == lead_ws(v@),
{
    proof {
        lemma_trim_start(v@);
        assert forall|j: int| 0 <= j < lead_ws(v@) implies is_ws(#[trigger] v@[j]) by {
            assert(v@.subrange(0, lead_ws(v@) as int)[j] == v@[j]);
        }
    }
    let mut i: usize = 0;
    while i < v.len() && is_whitespace(v[i])
        invariant
            0 <= i <= v.len(),
            lead_ws(v@) <= v.len(),
            i <= lead_ws(v@),
            forall|j: int| 0 <= j < lead_ws(v@) ==> is_ws(#[trigger] v@[j]),
            lead_ws(v@) < v.len() ==> !is_ws(v@[lead_ws(v@) as int]),
        decreases v.len() - i,
    {
        i = i + 1;
    }
    i
}


/// Position just past the last non-white-space character (or 0).
pub fn last_non_ws_end(v: &Vec<char>) -> (r: usize)
    ensures
        r == v@.len() - trail_ws(v@),
{
    proof {
        lemma_trim_end(v@);
        let k = trail_ws(v@);
        assert forall|j: int| v@.len() - k <= j < v@.len() implies is_ws(#[trigger] v@[j]) by {
            assert(v@.subrange(v@.len() - k, v@.len() as int)[j - (v@.len() - k)] == v@[j]);
        }
    }
    let mut i: usize = v.len();
    while i > 0 && is_whitespace(v[i - 1])
        invariant
            0 <= i <= v.len(),
            trail_ws(v@) <= v.len(),
            i >= v@.len() - trail_ws(v@),
            forall|j: int| v@.len() - trail_ws(v@) <= j < v@.len() ==> is_ws(#[trigger] v@[j]),
            trail_ws(v@) < v.len() ==> !is_ws(v@[v@.len() - trail_ws(v@) - 1]),
        decreases i,
    {
        i = i - 1;
    }
    i
}

/// Copies `v[lo..hi]`.
pub fn copy_range(v: &Vec<char>, lo: usize, hi: usize) -> (r: Vec<char>)
    requires
        lo <= hi <= v.len(),
    ensures
        r@ == v@.subrange(lo as int, hi as int),
{
    let mut r: Vec<char> = Vec::new();
    let mut i = lo;
    while i < hi
        invariant
            lo <= i <= hi <= v.len(),
            r@ == v@.subrange(lo as int, i as int),
        decreases hi - i,
    {
        r.push(v[i]);
        i = i + 1;
        assert(r@ =~= v@.subrange(lo as int, i as int));
    }
    r
}

/// Appends all of `src` to `out`.
pub fn push_all(out: &mut Vec<char>, src: &Vec<char>)
    ensures
        final(out)@ == old(out)@ + src@,
{
    let ghost start = out@;
    let mut i: usize = 0;
    while i < src.len()
        invariant
            0 <= i <= src.len(),
            out@ == start + src@.subrange(0, i as int),
        decreases src.len() - i,
    {
        out.push(src[i]);
        i = i + 1;
        assert(out@ =~= start + src@.subrange(0, i as int));
    }
    assert(src@.subrange(0, src@.len() as int) =~= src@);
}

/// Appends the characters of `s` to `out`.
pub fn push_str(out: &mut Vec<char>, s: &str)
    ensures
        final(out)@ == old(out)@ + s@,
{
    let cs = chars_of(s);
    push_all(out, &cs);
}

pub proof fn lemma_trim_split(s: Seq<char>)
    ensures
        lead_ws(s) + trail_ws(trim_start(s)) <= s.len(),
        trim(s) == s.subrange(lead_ws(s) as int, s.len() - trail_ws(trim_start(s))),
{
    lemma_trim_start(s);
    let t = trim_start(s);
    lemma_trim_end(t);
    assert(t.subrange(0, t.len() - trail_ws(t)) =~= s.subrange(
        lead_ws(s) as int,
        s.len() - trail_ws(t),
    ));
}

proof fn lemma_trail_of_trimmed(s: Seq<char>)
    ensures
        lead_ws(s) < s.len() ==> trail_ws(trim_start(s)) == trail_ws(s),
        lead_ws(s) == s.len() ==> trail_ws(trim_start(s)) == 0,
    decreases s.len(),
{
    lemma_trim_start(s);
    if s.len() > 0 && is_ws(s[0]) {
        lemma_trail_of_trimmed(s.drop_first());
        if lead_ws(s) < s.len() {
            lemma_trail_drop_first(s);
        }
    } else {
        if s.len() == 0 {
        }
    }
}

proof fn lemma_trail_drop_first(s: Seq<char>)
    requires
        s.len() > 0,
        exists|i: int| 0 <= i < s.len() && !is_ws(#[trigger] s[i]),
        is_ws(s[0]),
    ensures
        trail_ws(s) == trail_ws(s.drop_first()),
    decreases s.len(),
{
    let w = choose|i: int| 0 <= i < s.len() && !is_ws(#[trigger] s[i]);
    if is_ws(s.last()) {
        assert(s.len() > 1);
        assert(s.drop_last().drop_first() =~= s.drop_first().drop_last());
        assert(!is_ws(s.drop_last()[w]));
        lemma_trail_drop_first(s.drop_last());
        assert(s.drop_first().last() == s.last());
    } else {
        assert(s.drop_first().last() == s.last());
    }
}

/// The characters of `v` with white space trimmed at both ends.
pub fn trim_chars(v: &Vec<char>) -> (r: Vec<char>)
    ensures
        r@ == trim(v@),
{
    let lo = first_non_ws(v);
    let hi = last_non_ws_end(v);
    proof {
        lemma_trim_split(v@);
        lemma_trail_of_trimmed(v@);
        lemma_trim_start(v@);
    }
    if lo >= hi {
        proof {
            if lead_ws(v@) < v@.len() {
                lemma_trim_end(v@);
            }
        }
        assert(trim(v@) =~= Seq::<char>::empty());
        Vec::new()
    } else {
        proof {
            if lead_ws(v@) == v@.len() {
                lemma_trim_end(v@);
            }
        }
        copy_range(v, lo, hi)
    }
}


// ── Lexicographic order ────────────────────────────────────────────────────

/// Lexicographic order on character sequences by code point. Because UTF-8
/// keeps code-point order byte by byte, this is the order `String`'s `Ord`
/// uses.
pub open spec fn lex_le(a: Seq<char>, b: Seq<char>) -> bool
    decreases a.len(),
{
    if a.len() == 0 {
        true
    } else if b.len() == 0 {
        false
    } else if a[0] != b[0] {
        (a[0] as u32) < (b[0] as u32)
    } else {
        lex_le(a.drop_first(), b.drop_first())
    }
}

/// `lex_le` as a relation value.
pub open spec fn lex_order() -> spec_fn(Seq<char>, Seq<char>) -> bool {
    |a: Seq<char>, b: Seq<char>| lex_le(a, b)
}

proof fn lemma_char_u32_inj(x: char, y: char)
    requires
        x as u32 == y as u32,
    ensures
        x == y,
{
}

proof fn lemma_lex_refl(a: Seq<char>)
    ensures
        lex_le(a, a),
    decreases a.len(),
{
    if a.len() > 0 {
        lemma_lex_refl(a.drop_first());
    }
}

proof fn lemma_lex_antisym(a: Seq<char>, b: Seq<char>)
    requires
        lex_le(a, b),
        lex_le(b, a),
    ensures
        a == b,
    decreases a.len(),
{
    if a.len() > 0 && b.len() > 0 {
        if a[0] == b[0] {
            lemma_lex_antisym(a.drop_first(), b.drop_first());
            assert(a =~= seq![a[0]] + a.drop_first());
            assert(b =~= seq![b[0]] + b.drop_first());
        }
    } else {
        assert(a =~= b);
    }
}

proof fn lemma_lex_trans(a: Seq<char>, b: Seq<char>, c: Seq<char>)
    requires
        lex_le(a, b),
        lex_le(b, c),
    ensures
        lex_le(a, c),
    decreases a.len(),
{
    if a.len() > 0 && b.len() > 0 && c.len() > 0 {
        if a[0] == b[0] && b[0] == c[0] {
            lemma_lex_trans(a.drop_first(), b.drop_first(), c.drop_first());
        } else if a[0] == b[0] {
        } else if b[0] == c[0] {
        } else {
            if a[0] == c[0] {
                lemma_char_u32_inj(b[0], c[0]);
            }
        }
    }
}

proof fn lemma_lex_total(a: Seq<char>, b: Seq<char>)
    ensures
        lex_le(a, b) || lex_le(b, a),
    decreases a.len(),
{
    if a.len() > 0 && b.len() > 0 {
        if a[0] == b[0] {
            lemma_lex_total(a.drop_first(), b.drop_first());
        } else {
            if a[0] as u32 == b[0] as u32 {
                lemma_char_u32_inj(a[0], b[0]);
            }
        }
    }
}

/// `lex_order` is a total order.
pub proof fn lemma_lex_total_ordering()
    ensures
        total_ordering(lex_order()),
{
    let r = lex_order();
    assert forall|x: Seq<char>| #[trigger] r(x, x) by {
        lemma_lex_refl(x);
    }
    assert forall|x: Seq<char>, y: Seq<char>| #[trigger] r(x, y) && #[trigger] r(y, x) implies x
        == y by {
        lemma_lex_antisym(x, y);
    }
    assert forall|x: Seq<char>, y: Seq<char>, z: Seq<char>| #[trigger] r(x, y) && #[trigger] r(
        y,
        z,
    ) implies r(x, z) by {
        lemma_lex_trans(x, y, z);
    }
    assert forall|x: Seq<char>, y: Seq<char>| #[trigger] r(x, y) || #[trigger] r(y, x) by {
        lemma_lex_total(x, y);
    }
}

/// Whether `a` comes no later than `b` in lexicographic order.
pub fn chars_le(a: &Vec<char>, b: &Vec<char>) -> (r: bool)
    ensures
        r == lex_le(a@, b@),
{
    let mut i: usize = 0;
    assert(a@.skip(0) =~= a@);
    assert(b@.skip(0) =~= b@);
    while i < a.len() && i < b.len() && a[i] == b[i]
        invariant
            0 <= i <= a.len(),
            i <= b.len(),
            lex_le(a@, b@) == lex_le(a@.skip(i as int), b@.skip(i as int)),
        decreases a.len() - i,
    {
        assert(a@.skip(i as int).drop_first() =~= a@.skip(i + 1));
        assert(b@.skip(i as int).drop_first() =~= b@.skip(i + 1));
        i = i + 1;
    }
    if i == a.len() {
        true
    } else if i == b.len() {
        false
    } else {
        (a[i] as u32) < (b[i] as u32)
    }
}

/// Whether `a` and `b` hold the same characters.
pub fn chars_eq(a: &Vec<char>, b: &Vec<char>) -> (r: bool)
    ensures
        r == (a@ == b@),
{
    if a.len() != b.len() {
        return false;
    }
    let mut i: usize = 0;
    while i < a.len()
        invariant
            0 <= i <= a.len(),
            a.len() == b.len(),
            forall|j: int| 0 <= j < i ==> a@[j] == b@[j],
        decreases a.len() - i,
    {
        if a[i] != b[i] {
            return false;
        }
        i = i + 1;
    }
    assert(a@ =~= b@);
    true
}

/// The views of a vector of character vectors.
pub open spec fn views(v: Seq<Vec<char>>) -> Seq<Seq<char>> {
    v.map_values(|x: Vec<char>| x@)
}

/// The views of a vector of strings.
pub open spec fn string_views(v: Seq<String>) -> Seq<Seq<char>> {
    v.map_values(|x: String| x@)
}

/// Each sequence trimmed.
pub open spec fn trim_each(v: Seq<Seq<char>>) -> Seq<Seq<char>> {
    v.map_values(|x: Seq<char>| trim(x))
}

/// Sorts character sequences in lexicographic order (what `slice::sort`
/// gives for strings).
pub fn sort_chars(v: &Vec<Vec<char>>) -> (r: Vec<Vec<char>>)
    ensures
        views(r@) == views(v@).sort_by(lex_order()),
{
    broadcast use vstd::seq_lib::group_to_multiset_ensures;

    proof {
        lemma_lex_total_ordering();
    }
    let ghost ord = lex_order();
    let mut out: Vec<Vec<char>> = Vec::new();
    let mut i: usize = 0;
    while i < v.len()
        invariant
            0 <= i <= v.len(),
            ord == lex_order(),
            total_ordering(ord),
            sorted_by(views(out@), ord),
            views(out@).to_multiset() == views(v@).take(i as int).to_multiset(),
        decreases v.len() - i,
    {
        let x = copy_range(&v[i], 0, v[i].len());
        let ghost xv = x@;
        assert(xv =~= v@[i as int]@);
        assert(views(v@)[i as int] == xv);
        let mut p: usize = 0;
        while p < out.len() && chars_le(&out[p], &x)
            invariant
                0 <= p <= out.len(),
                x@ == xv,
                ord == lex_order(),
                forall|j: int| 0 <= j < p ==> lex_le(#[trigger] out@[j]@, xv),
            decreases out.len() - p,
        {
            p = p + 1;
        }
        let ghost ov = views(out@);
        proof {
            assert(forall|j: int| 0 <= j < ov.len() ==> #[trigger] ov[j] == out@[j]@);
            if p < out.len() {
                assert(!lex_le(ov[p as int], xv));
                lemma_lex_total(ov[p as int], xv);
            }
        }
        out.insert(p, x);
        proof {
            let nv = views(out@);
            assert(nv =~= ov.insert(p as int, xv));
            assert forall|a: int, b: int| 0 <= a < b < nv.len() implies #[trigger] ord(
                nv[a],
                nv[b],
            ) by {
                if b < p {
                    assert(ord(ov[a], ov[b]));
                } else if b == p {
                    assert(lex_le(out@[a]@, xv));
                } else if a < p {
                    assert(lex_le(ov[a], xv));
                    assert(lex_le(xv, ov[p as int]));
                    if b - 1 > p {
                        assert(ord(ov[p as int], ov[b - 1]));
                        lemma_lex_trans(xv, ov[p as int], ov[b - 1]);
                    }
                    lemma_lex_trans(ov[a], xv, ov[b - 1]);
                } else if a == p {
                    assert(lex_le(xv, ov[p as int]));
                    if b - 1 > p {
                        assert(ord(ov[p as int], ov[b - 1]));
                        lemma_lex_trans(xv, ov[p as int], ov[b - 1]);
                    }
                } else {
                    assert(ord(ov[a - 1], ov[b - 1]));
                }
            }
            assert(views(v@).take(i + 1) =~= views(v@).take(i as int).push(xv));
            vstd::seq_lib::to_multiset_insert(ov, p as int, xv);
            vstd::seq_lib::to_multiset_build(views(v@).take(i as int), xv);
            assert(views(out@).to_multiset() == views(v@).take(i + 1).to_multiset());
        }
        i = i + 1;
    }
    proof {
        assert(views(v@).take(v@.len() as int) =~= views(v@));
        views(v@).lemma_sort_by_ensures(ord);
        lemma_sorted_unique(views(out@), views(v@).sort_by(ord), ord);
    }
    out
}


// ── Prefixes, suffixes and substrings ──────────────────────────────────────

/// Whether `s` begins with `p`.
pub open spec fn starts_with(s: Seq<char>, p: Seq<char>) -> bool {
    p.len() <= s.len() && s.subrange(0, p.len() as int) == p
}

/// Whether `s` ends with `p`.
pub open spec fn ends_with(s: Seq<char>, p: Seq<char>) -> bool {
    p.len() <= s.len() && s.subrange(s.len() - p.len(), s.len() as int) == p
}

/// Whether `t` occurs in `s`.
pub open spec fn contains_seq(s: Seq<char>, t: Seq<char>) -> bool {
    exists|i: int| 0 <= i && i + t.len() <= s.len() && #[trigger] s.subrange(i, i + t.len()) == t
}

/// Whether `v[at..]` begins with `p`.
pub fn matches_at(v: &Vec<char>, at: usize, p: &Vec<char>) -> (r: bool)
    requires
        at <= v.len(),
    ensures
        r == (at + p.len() <= v.len() && v@.subrange(at as int, at + p.len()) == p@),
{
    if p.len() > v.len() - at {
        return false;
    }
    let mut i: usize = 0;
    while i < p.len()
        invariant
            0 <= i <= p.len(),
            at + p.len() <= v.len(),
            forall|j: int| 0 <= j < i ==> v@[at + j] == p@[j],
        decreases p.len() - i,
    {
        if v[at + i] != p[i] {
            assert(v@.subrange(at as int, at + p.len())[i as int] != p@[i as int]);
            return false;
        }
        i = i + 1;
    }
    assert(v@.subrange(at as int, at + p.len()) =~= p@);
    true
}

/// Whether `v` begins with `p`.
pub fn has_prefix(v: &Vec<char>, p: &str) -> (r: bool)
    ensures
        r == starts_with(v@, p@),
{
    let pc = chars_of(p);
    matches_at(v, 0, &pc)
}

/// Whether `v` ends with `p`.
pub fn has_suffix(v: &Vec<char>, p: &str) -> (r: bool)
    ensures
        r == ends_with(v@, p@),
{
    let pc = chars_of(p);
    if pc.len() > v.len() {
        return false;
    }
    matches_at(v, v.len() - pc.len(), &pc)
}

/// Whether `t` occurs in `s`.
pub fn contains_str(s: &str, t: &str) -> (r: bool)
    ensures
        r == contains_seq(s@, t@),
{
    let v = chars_of(s);
    let p = chars_of(t);
    if p.len() > v.len() {
        return false;
    }
    let n = v.len() - p.len();
    let mut i: usize = 0;
    while i < n
        invariant
            p.len() <= v.len(),
            n == v.len() - p.len(),
            0 <= i <= n,
            v@ == s@,
            p@ == t@,
            forall|j: int| 0 <= j < i ==> #[trigger] v@.subrange(j, j + p@.len()) != p@,
        decreases n - i,
    {
        if matches_at(&v, i, &p) {
            return true;
        }
        i = i + 1;
    }
    matches_at(&v, n, &p)
}

// ── ASCII case ─────────────────────────────────────────────────────────────

/// `c` with ASCII lower-case letters made upper-case.
pub open spec fn ascii_upper(c: char) -> char {
    if 'a' <= c <= 'z' {
        ((c as u32) - 32) as char
    } else {
        c
    }
}

/// `c` with ASCII upper-case letters made lower-case.
pub open spec fn ascii_lower(c: char) -> char {
    if 'A' <= c <= 'Z' {
        ((c as u32) + 32) as char
    } else {
        c
    }
}

/// `s` with ASCII letters made upper-case (`str::to_ascii_uppercase`).
pub open spec fn upper_seq(s: Seq<char>) -> Seq<char> {
    s.map_values(|c: char| ascii_upper(c))
}

/// `s` with ASCII letters made lower-case (`str::to_ascii_lowercase`).
pub open spec fn lower_seq(s: Seq<char>) -> Seq<char> {
    s.map_values(|c: char| ascii_lower(c))
}

fn upper_char(c: char) -> (r: char)
    ensures
        r == ascii_upper(c),
{
    if 'a' <= c && c <= 'z' {
        let u = (c as u32) - 32;
        assert(0x41 <= u <= 0x5A);
        char_from_ascii(u)
    } else {
        c
    }
}

fn lower_char(c: char) -> (r: char)
    ensures
        r == ascii_lower(c),
{
    if 'A' <= c && c <= 'Z' {
        let u = (c as u32) + 32;
        char_from_ascii(u)
    } else {
        c
    }
}

/// The ASCII character with code `u`.
fn char_from_ascii(u: u32) -> (r: char)
    requires
        u < 128,
    ensures
        r == u as char,
        r as u32 == u,
{
    let b: u8 = u as u8;
    b as char
}

/// `v` with ASCII letters made upper-case.
pub fn to_upper(v: &Vec<char>) -> (r: Vec<char>)
    ensures
        r@ == upper_seq(v@),
{
    let mut r: Vec<char> = Vec::new();
    let mut i: usize = 0;
    while i < v.len()
        invariant
            0 <= i <= v.len(),
            r@ == upper_seq(v@.take(i as int)),
        decreases v.len() - i,
    {
        let c = upper_char(v[i]);
        r.push(c);
        i = i + 1;
        assert(r@ =~= upper_seq(v@.take(i as int)));
    }
    assert(v@.take(v@.len() as int) =~= v@);
    r
}

/// `v` with ASCII letters made lower-case.
pub fn to_lower(v: &Vec<char>) -> (r: Vec<char>)
    ensures
        r@ == lower_seq(v@),
{
    let mut r: Vec<char> = Vec::new();
    let mut i: usize = 0;
    while i < v.len()
        invariant
            0 <= i <= v.len(),
            r@ == lower_seq(v@.take(i as int)),
        decreases v.len() - i,
    {
        let c = lower_char(v[i]);
        r.push(c);
        i = i + 1;
        assert(r@ =~= lower_seq(v@.take(i as int)));
    }
    assert(v@.take(v@.len() as int) =~= v@);
    r
}

// ── Decimal numbers ────────────────────────────────────────────────────────

/// Whether `c` is an ASCII digit.
pub open spec fn is_digit(c: char) -> bool {
    '0' <= c <= '9'
}

/// The value of a string of ASCII digits.
pub open spec fn digits_value(s: Seq<char>) -> nat
    decreases s.len(),
{
    if s.len() == 0 {
        0
    } else {
        digits_value(s.drop_last()) * 10 + ((s.last() as u32) - ('0' as u32)) as nat
    }
}

/// `s` without one leading `+`, if it has one.
pub open spec fn unsigned_digits(s: Seq<char>) -> Seq<char> {
    if s.len() > 0 && s[0] == '+' {
        s.drop_first()
    } else {
        s
    }
}

/// Whether every character of `d` is an ASCII digit.
pub open spec fn all_digits(d: Seq<char>) -> bool {
    forall|i: int| 0 <= i < d.len() ==> is_digit(#[trigger] d[i])
}

/// The number an unsigned integer's `from_str` reads from `s`, before any
/// bound: an optional `+` followed by one or more ASCII digits.
pub open spec fn parse_unsigned(s: Seq<char>) -> Option<nat> {
    let d = unsigned_digits(s);
    if d.len() > 0 && all_digits(d) {
        Some(digits_value(d))
    } else {
        None
    }
}

/// What `from_str` for an unsigned integer type with maximum `max` gives:
/// the value when it is well formed and no larger than `max`.
pub open spec fn parse_bounded(s: Seq<char>, max: nat) -> Option<nat> {
    match parse_unsigned(s) {
        Some(v) => if v <= max {
            Some(v)
        } else {
            None
        },
        None => None,
    }
}

/// Reads a decimal number no larger than `max` from `v`, as `from_str` does
/// for unsigned integers.
fn parse_digits(v: &Vec<char>, max: u64) -> (r: Option<u64>)
    requires
        max >= 9,
    ensures
        match r {
            Some(x) => parse_bounded(v@, max as nat) == Some(x as nat),
            None => parse_bounded(v@, max as nat) is None,
        },
{
    let start: usize = if v.len() > 0 && v[0] == '+' {
        1
    } else {
        0
    };
    let ghost d = unsigned_digits(v@);
    assert(d =~= v@.skip(start as int));
    if start == v.len() {
        return None;
    }
    let mut acc: u64 = 0;
    let mut i: usize = start;
    while i < v.len()
        invariant
            start <= i <= v.len(),
            start < v.len(),
            d == v@.skip(start as int),
            d == unsigned_digits(v@),
            max >= 9,
            acc as nat == digits_value(v@.subrange(start as int, i as int)),
            acc <= max,
            forall|j: int| start <= j < i ==> is_digit(#[trigger] v@[j]),
        decreases v.len() - i,
    {
        let c = v[i];
        let ghost pre = v@.subrange(start as int, i as int);
        let ghost next = v@.subrange(start as int, i + 1);
        assert(next.drop_last() =~= pre);
        if !('0' <= c && c <= '9') {
            proof {
                assert(d[i - start] == c);
                assert(!is_digit(d[i - start]));
                assert(!all_digits(d));
            }
            return None;
        }
        assert(48 <= (c as u32) <= 57);
        let dig = (c as u32 - '0' as u32) as u64;
        assert(dig <= 9);
        if acc > (max - dig) / 10 {
            proof {
                assert(digits_value(next) == acc * 10 + dig);
                assert(digits_value(next) > max);
                // the value only grows with further digits
                lemma_prefix_bound(v@, start as int, i + 1, max as nat);
                assert(d == v@.skip(start as int));
            }
            return None;
        }
        acc = acc * 10 + dig;
        i = i + 1;
    }
    proof {
        assert(v@.subrange(start as int, v@.len() as int) =~= d);
        assert forall|j: int| 0 <= j < d.len() implies is_digit(#[trigger] d[j]) by {
            assert(d[j] == v@[start + j]);
        }
        assert(all_digits(d));
    }
    Some(acc)
}

proof fn lemma_prefix_bound(v: Seq<char>, start: int, k: int, max: nat)
    requires
        0 <= start < k <= v.len(),
        digits_value(v.subrange(start, k)) > max,
    ensures
        all_digits(v.skip(start)) ==> digits_value(v.skip(start)) > max,
    decreases v.len() - k,
{
    let d = v.skip(start);
    if k < v.len() {
        let next = v.subrange(start, k + 1);
        assert(next.drop_last() =~= v.subrange(start, k));
        assert(next.last() == v[k]);
        if is_digit(v[k]) {
            lemma_prefix_bound(v, start, k + 1, max);
        } else {
            assert(d[k - start] == v[k]);
        }
    } else {
        assert(v.subrange(start, k) =~= d);
    }
}

/// Reads a `usize` from `s` as `str::parse::<usize>` does.
pub fn parse_usize(s: &str) -> (r: Option<usize>)
    ensures
        match r {
            Some(x) => parse_bounded(s@, usize::MAX as nat) == Some(x as nat),
            None => parse_bounded(s@, usize::MAX as nat) is None,
        },
{
    let v = chars_of(s);
    match parse_digits(&v, usize::MAX as u64) {
        Some(x) => Some(x as usize),
        None => None,
    }
}

/// Reads a `u16` from `s` as `str::parse::<u16>` does.
pub fn parse_u16(s: &str) -> (r: Option<u16>)
    ensures
        match r {
            Some(x) => parse_bounded(s@, u16::MAX as nat) == Some(x as nat),
            None => parse_bounded(s@, u16::MAX as nat) is None,
        },
{
    let v = chars_of(s);
    match parse_digits(&v, u16::MAX as u64) {
        Some(x) => Some(x as u16),
        None => None,
    }
}


/// Reads a `usize` from the characters `v`, as `str::parse::<usize>` does.
pub fn parse_digits_of(v: &Vec<char>) -> (r: Option<usize>)
    ensures
        match r {
            Some(x) => parse_bounded(v@, usize::MAX as nat) == Some(x as nat),
            None => parse_bounded(v@, usize::MAX as nat) is None,
        },
{
    match parse_digits(v, usize::MAX as u64) {
        Some(x) => Some(x as usize),
        None => None,
    }
}


// ── Decimal rendering ──────────────────────────────────────────────────────

/// The ASCII digit for `d` (below ten).
pub open spec fn digit_char(d: nat) -> char {
    ((d + ('0' as u32)) as u32) as char
}

/// `n` written in decimal as `Display` writes an unsigned integer: its
/// digits, most significant first, with no leading zeros.
pub open spec fn decimal(n: nat) -> Seq<char>
    decreases n,
{
    if n < 10 {
        seq![digit_char(n)]
    } else {
        decimal(n / 10).push(digit_char(n % 10))
    }
}

/// Appends `n` in decimal to `out`.
pub fn push_decimal(out: &mut Vec<char>, n: u64)
    ensures
        final(out)@ == old(out)@ + decimal(n as nat),
    decreases n,
{
    if n >= 10 {
        push_decimal(out, n / 10);
    }
    let d = (n % 10) as u32;
    let c = char_from_ascii(d + 48);
    out.push(c);
    proof {
        assert(c == digit_char((n % 10) as nat));
        if n >= 10 {
            assert(decimal(n as nat) == decimal((n / 10) as nat).push(digit_char((n % 10) as nat)));
        }
    }
    assert(out@ =~= old(out)@ + decimal(n as nat));
}

/// Law: decimal text reads back as the number it was written from.
pub proof fn law_decimal_reads_back(n: nat)
    ensures
        all_digits(decimal(n)),
        decimal(n).len() > 0,
        digits_value(decimal(n)) == n,
        parse_unsigned(decimal(n)) == Some(n),
    decreases n,
{
    assert(digit_char(n % 10) as u32 == n % 10 + 48);
    if n >= 10 {
        law_decimal_reads_back(n / 10);
        let s = decimal(n / 10).push(digit_char(n % 10));
        assert(s.drop_last() =~= decimal(n / 10));
        assert(digits_value(s) == digits_value(decimal(n / 10)) * 10 + (n % 10));
        assert(all_digits(s)) by {
            assert forall|i: int| 0 <= i < s.len() implies is_digit(#[trigger] s[i]) by {
                if i < s.len() - 1 {
                    assert(s[i] == decimal(n / 10)[i]);
                }
            }
        }
        assert((n / 10) * 10 + n % 10 == n);
    }
    let d = decimal(n);
    assert(d.len() > 0 && d[0] != '+');
    assert(unsigned_digits(d) =~= d);
    if n < 10 {
        assert(n % 10 == n);
        assert(d.drop_last() =~= Seq::<char>::empty());
        assert(d.last() as u32 == n + 48);
        assert(digits_value(d.drop_last()) == 0);
        assert(('0' as u32) == 48);
        assert(digits_value(d) == n);
    }
}

} // verus!
