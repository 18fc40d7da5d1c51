//! Paths handled as text, read as `std::path::Path` reads them. On Unix a
//! `/` separates components. On Windows a `\` does too, and a path may
//! start with a prefix that belongs to no component: a drive (`C:`), a UNC
//! share (`\\server\share`), a device (`\\.\COM42`), or a verbatim prefix
//! (`\\?\C:`, `\\?\UNC\server\share`, `\\?\name`). After a verbatim prefix
//! only `\` separates components and `.` is a component of its own.

use vstd::prelude::*;
use crate::search::join;
use crate::text::{chars_eq, chars_of, copy_range, push_all, push_str, string_of, views};

verus! {

// ── Separators and prefixes ────────────────────────────────────────────────

/// Whether `c` is a separator outside a verbatim path: `/`, and on Windows
/// also `\`.
pub open spec fn is_sep(c: char, windows: bool) -> bool {
    c == '/' || (windows && c == '\\')
}

/// Whether `c` separates components of a path that is (`verbatim`) or is
/// not verbatim.
pub open spec fn sep_in(c: char, windows: bool, verbatim: bool) -> bool {
    if verbatim {
        c == '\\'
    } else {
        is_sep(c, windows)
    }
}

/// Either slash, as the first characters of a Windows prefix are read.
pub open spec fn slash(c: char) -> bool {
    c == '/' || c == '\\'
}

/// The separator that joining inserts.
pub open spec fn main_sep(windows: bool) -> char {
    if windows { '\\' } else { '/' }
}

/// Whether `c` is an ASCII letter.
pub open spec fn is_ascii_letter(c: char) -> bool {
    ('a' <= c && c <= 'z') || ('A' <= c && c <= 'Z')
}

/// The position of the first separator at or after `k` (only `\` counts in
/// `verbatim` text), or the length of `s` when there is none.
pub open spec fn next_sep(s: Seq<char>, k: int, verbatim: bool) -> int
    decreases s.len() - k,
{
    if k >= s.len() {
        s.len() as int
    } else if s[k] == '\\' || (!verbatim && s[k] == '/') {
        k
    } else {
        next_sep(s, k + 1, verbatim)
    }
}

/// Whether `s` starts with a verbatim prefix (`\\?\`) on Windows.
pub open spec fn is_verbatim(s: Seq<char>, windows: bool) -> bool {
    windows && s.len() >= 4 && slash(s[0]) && slash(s[1]) && s[2] == '?' && slash(s[3])
}

/// Whether `s` starts with a drive (a letter and `:`) on Windows.
pub open spec fn is_disk(s: Seq<char>, windows: bool) -> bool {
    windows && s.len() >= 2 && is_ascii_letter(s[0]) && s[1] == ':'
}

/// Whether the verbatim component `s[4..ce]` is a drive: a letter and `:`,
/// alone or followed by `/`.
pub open spec fn verbatim_drive(s: Seq<char>, ce: int) -> bool {
    (ce == 6 || (ce > 6 && s[6] == '/')) && is_ascii_letter(s[4]) && s[5] == ':'
}

/// The length of the prefix that starts `s` on Windows; 0 when there is
/// none (and always on Unix). A UNC prefix needs a server and a share that
/// are not empty; a verbatim UNC prefix may leave out its share.
pub open spec fn prefix_len(s: Seq<char>, windows: bool) -> int {
    if !windows {
        0
    } else if is_verbatim(s, windows) {
        if s.len() >= 8 && s[4] == 'U' && s[5] == 'N' && s[6] == 'C' && slash(s[7]) {
            let se = next_sep(s, 8, true);
            if se >= s.len() {
                s.len() as int
            } else {
                let he = next_sep(s, se + 1, true);
                if he > se + 1 {
                    he
                } else {
                    se
                }
            }
        } else {
            let ce = next_sep(s, 4, true);
            if verbatim_drive(s, ce) {
                6
            } else {
                ce
            }
        }
    } else if s.len() >= 4 && slash(s[0]) && slash(s[1]) && s[2] == '.' && slash(s[3]) {
        next_sep(s, 4, false)
    } else if s.len() >= 2 && slash(s[0]) && slash(s[1]) {
        let se = next_sep(s, 2, false);
        if se > 2 && se < s.len() {
            let he = next_sep(s, se + 1, false);
            if he > se + 1 {
                he
            } else {
                0
            }
        } else {
            0
        }
    } else if is_disk(s, windows) {
        2
    } else {
        0
    }
}

/// The end of the prefix and of the root separator that may follow it.
pub open spec fn root_end(s: Seq<char>, windows: bool) -> int {
    let p = prefix_len(s, windows);
    if s.len() > p && is_sep(s[p], windows) {
        p + 1
    } else {
        p
    }
}

fn is_sep_char(c: char, windows: bool) -> (r: bool)
    ensures
        r == is_sep(c, windows),
{
    c == '/' || (windows && c == '\\')
}

fn sep_in_char(c: char, windows: bool, verbatim: bool) -> (r: bool)
    ensures
        r == sep_in(c, windows, verbatim),
{
    if verbatim {
        c == '\\'
    } else {
        is_sep_char(c, windows)
    }
}

fn slash_char(c: char) -> (r: bool)
    ensures
        r == slash(c),
{
    c == '/' || c == '\\'
}

fn ascii_letter_char(c: char) -> (r: bool)
    ensures
        r == is_ascii_letter(c),
{
    ('a' <= c && c <= 'z') || ('A' <= c && c <= 'Z')
}

fn next_sep_of(v: &Vec<char>, k: usize, verbatim: bool) -> (r: usize)
    requires
        k <= v.len(),
    ensures
        r as int == next_sep(v@, k as int, verbatim),
        k <= r <= v.len(),
{
    let mut i = k;
    while i < v.len() && !(v[i] == '\\' || (!verbatim && v[i] == '/'))
        invariant
            k <= i <= v.len(),
            next_sep(v@, k as int, verbatim) == next_sep(v@, i as int, verbatim),
        decreases v.len() - i,
    {
        i = i + 1;
    }
    i
}

fn is_verbatim_of(v: &Vec<char>, windows: bool) -> (r: bool)
    ensures
        r == is_verbatim(v@, windows),
{
    windows && v.len() >= 4 && slash_char(v[0]) && slash_char(v[1]) && v[2] == '?' && slash_char(v[3])
}

fn prefix_len_of(v: &Vec<char>, windows: bool) -> (r: usize)
    ensures
        r as int == prefix_len(v@, windows),
        r <= v.len(),
{
    let n = v.len();
    if !windows {
        return 0;
    }
    if is_verbatim_of(v, windows) {
        if n >= 8 && v[4] == 'U' && v[5] == 'N' && v[6] == 'C' && slash_char(v[7]) {
            let se = next_sep_of(v, 8, true);
            if se >= n {
                return n;
            }
            let he = next_sep_of(v, se + 1, true);
            if he > se + 1 {
                he
            } else {
                se
            }
        } else {
            let ce = next_sep_of(v, 4, true);
            if (ce == 6 || (ce > 6 && v[6] == '/')) && ascii_letter_char(v[4]) && v[5] == ':' {
                6
            } else {
                ce
            }
        }
    } else if n >= 4 && slash_char(v[0]) && slash_char(v[1]) && v[2] == '.' && slash_char(v[3]) {
        next_sep_of(v, 4, false)
    } else if n >= 2 && slash_char(v[0]) && slash_char(v[1]) {
        let se = next_sep_of(v, 2, false);
        if se > 2 && se < n {
            let he = next_sep_of(v, se + 1, false);
            if he > se + 1 {
                he
            } else {
                0
            }
        } else {
            0
        }
    } else if n >= 2 && ascii_letter_char(v[0]) && v[1] == ':' {
        2
    } else {
        0
    }
}

fn root_end_of(v: &Vec<char>, windows: bool) -> (r: usize)
    ensures
        r as int == root_end(v@, windows),
        prefix_len(v@, windows) <= r <= v.len(),
{
    let p = prefix_len_of(v, windows);
    if p < v.len() && is_sep_char(v[p], windows) {
        p + 1
    } else {
        p
    }
}

proof fn lemma_next_sep_bounds(s: Seq<char>, k: int, verbatim: bool)
    requires
        0 <= k <= s.len(),
    ensures
        k <= next_sep(s, k, verbatim) <= s.len(),
    decreases s.len() - k,
{
    if k < s.len() {
        lemma_next_sep_bounds(s, k + 1, verbatim);
    }
}

/// Cutting `s` at `i` cuts the search for a separator there too.
proof fn lemma_next_sep_take(s: Seq<char>, i: int, k: int, verbatim: bool)
    requires
        0 <= k <= i <= s.len(),
    ensures
        next_sep(s.take(i), k, verbatim) == (if next_sep(s, k, verbatim) <= i {
            next_sep(s, k, verbatim)
        } else {
            i
        }),
        k <= next_sep(s, k, verbatim) <= s.len(),
    decreases s.len() - k,
{
    lemma_next_sep_bounds(s, k, verbatim);
    if k < i {
        assert(s.take(i)[k] == s[k]);
        lemma_next_sep_take(s, i, k + 1, verbatim);
    }
}

/// Cutting a path short, but not into its prefix, keeps the prefix.
pub proof fn lemma_prefix_take(s: Seq<char>, windows: bool, i: int)
    requires
        prefix_len(s, windows) <= i <= s.len(),
    ensures
        prefix_len(s.take(i), windows) == prefix_len(s, windows),
        is_verbatim(s.take(i), windows) == is_verbatim(s, windows),
{
    let t = s.take(i);
    if i >= 8 {
        assert(t[0] == s[0] && t[1] == s[1] && t[2] == s[2] && t[3] == s[3] && t[4] == s[4] && t[5]
            == s[5] && t[6] == s[6] && t[7] == s[7]);
    } else if i >= 4 {
        assert(t[0] == s[0] && t[1] == s[1] && t[2] == s[2] && t[3] == s[3]);
        if i >= 7 {
            assert(t[4] == s[4] && t[5] == s[5] && t[6] == s[6]);
        } else if i >= 6 {
            assert(t[4] == s[4] && t[5] == s[5]);
        }
    } else if i >= 2 {
        assert(t[0] == s[0] && t[1] == s[1]);
        if i >= 3 {
            assert(t[2] == s[2]);
        }
    }
    if windows {
        if is_verbatim(s, windows) {
            if s.len() >= 8 && s[4] == 'U' && s[5] == 'N' && s[6] == 'C' && slash(s[7]) {
                lemma_next_sep_bounds(s, 8, true);
                let se = next_sep(s, 8, true);
                if se < s.len() {
                    lemma_next_sep_bounds(s, se + 1, true);
                }
                lemma_next_sep_take(s, i, 8, true);
                if se < s.len() && se < i {
                    lemma_next_sep_take(s, i, se + 1, true);
                }
            } else {
                lemma_next_sep_bounds(s, 4, true);
                lemma_next_sep_take(s, i, 4, true);
                let ce = next_sep(s, 4, true);
                if ce > 6 && i > 6 {
                    assert(t[6] == s[6]);
                }
            }
        } else if s.len() >= 4 && slash(s[0]) && slash(s[1]) && s[2] == '.' && slash(s[3]) {
            lemma_next_sep_bounds(s, 4, false);
            lemma_next_sep_take(s, i, 4, false);
        } else if s.len() >= 2 && slash(s[0]) && slash(s[1]) {
            if i >= 2 {
                lemma_next_sep_take(s, i, 2, false);
                let se = next_sep(s, 2, false);
                if se < i {
                    lemma_next_sep_take(s, i, se + 1, false);
                }
            }
        }
    }
}

/// Cutting a path short, but not into its prefix and root, keeps both.
pub proof fn lemma_root_take(s: Seq<char>, windows: bool, i: int)
    requires
        root_end(s, windows) <= i <= s.len(),
    ensures
        prefix_len(s.take(i), windows) == prefix_len(s, windows),
        is_verbatim(s.take(i), windows) == is_verbatim(s, windows),
        root_end(s.take(i), windows) == root_end(s, windows),
{
    let p = prefix_len(s, windows);
    lemma_prefix_bounds(s, windows);
    lemma_prefix_take(s, windows, i);
    if i > p {
        assert(s.take(i)[p] == s[p]);
    }
}

pub proof fn lemma_prefix_bounds(s: Seq<char>, windows: bool)
    ensures
        0 <= prefix_len(s, windows) <= root_end(s, windows) <= s.len(),
        is_verbatim(s, windows) ==> prefix_len(s, windows) >= 4,
{
    if windows {
        if is_verbatim(s, windows) {
            if s.len() >= 8 && s[4] == 'U' && s[5] == 'N' && s[6] == 'C' && slash(s[7]) {
                lemma_next_sep_bounds(s, 8, true);
                let se = next_sep(s, 8, true);
                if se < s.len() {
                    lemma_next_sep_bounds(s, se + 1, true);
                }
            } else {
                lemma_next_sep_bounds(s, 4, true);
            }
        } else if s.len() >= 4 && slash(s[0]) && slash(s[1]) && s[2] == '.' && slash(s[3]) {
            lemma_next_sep_bounds(s, 4, false);
        } else if s.len() >= 2 && slash(s[0]) && slash(s[1]) {
            lemma_next_sep_bounds(s, 2, false);
            let se = next_sep(s, 2, false);
            if se > 2 && se < s.len() {
                lemma_next_sep_bounds(s, se + 1, false);
            }
        }
    }
}

// ── Components ─────────────────────────────────────────────────────────────

/// `s` split at every separator (so `"/a//b"` gives `"", "a", "", "b"`).
pub open spec fn segments(s: Seq<char>, windows: bool, verbatim: bool) -> Seq<Seq<char>>
    decreases s.len(),
{
    if s.len() == 0 {
        seq![Seq::<char>::empty()]
    } else if sep_in(s.last(), windows, verbatim) {
        segments(s.drop_last(), windows, verbatim).push(Seq::<char>::empty())
    } else {
        let g = segments(s.drop_last(), windows, verbatim);
        g.update(g.len() - 1, g.last().push(s.last()))
    }
}

/// Whether a segment names a directory entry: it is not empty, `.` or `..`.
pub open spec fn is_normal(seg: Seq<char>) -> bool {
    seg.len() > 0 && seg != seq!['.'] && seg != seq!['.', '.']
}

/// The segments that name directory entries, in order.
pub open spec fn normal_only(segs: Seq<Seq<char>>) -> Seq<Seq<char>>
    decreases segs.len(),
{
    if segs.len() == 0 {
        Seq::empty()
    } else if is_normal(segs.last()) {
        normal_only(segs.drop_last()).push(segs.last())
    } else {
        normal_only(segs.drop_last())
    }
}

/// The named components of a path (what `Path::components` yields as
/// `Component::Normal`): the segments after the prefix and root that name
/// directory entries.
pub open spec fn normal_components(s: Seq<char>, windows: bool) -> Seq<Seq<char>> {
    normal_only(segments(s.skip(root_end(s, windows)), windows, is_verbatim(s, windows)))
}

fn split_segments(v: &Vec<char>, windows: bool, verbatim: bool) -> (r: Vec<Vec<char>>)
    ensures
        views(r@) == segments(v@, windows, verbatim),
{
    let mut done: Vec<Vec<char>> = Vec::new();
    let mut cur: Vec<char> = Vec::new();
    let mut i: usize = 0;
    while i < v.len()
        invariant
            0 <= i <= v.len(),
            segments(v@.take(i as int), windows, verbatim) == views(done@).push(cur@),
        decreases v.len() - i,
    {
        let ghost pre = v@.take(i as int);
        let ghost next = v@.take(i + 1);
        let ghost old_done = views(done@);
        assert(next.drop_last() =~= pre);
        let c = v[i];
        if sep_in_char(c, windows, verbatim) {
            done.push(cur);
            cur = Vec::new();
            assert(views(done@).push(cur@) =~= old_done.push(
                done@[done@.len() - 1]@,
            ).push(Seq::<char>::empty()));
        } else {
            let ghost old_cur = cur@;
            cur.push(c);
            proof {
                let g = old_done.push(old_cur);
                assert(g.update(g.len() - 1, g.last().push(c)) =~= old_done.push(cur@));
            }
        }
        i = i + 1;
    }
    assert(v@.take(v@.len() as int) =~= v@);
    let ghost old_done = views(done@);
    done.push(cur);
    assert(views(done@) =~= old_done.push(done@[done@.len() - 1]@));
    done
}

fn is_normal_segment(seg: &Vec<char>) -> (r: bool)
    ensures
        r == is_normal(seg@),
{
    if seg.len() == 0 {
        return false;
    }
    if seg.len() == 1 && seg[0] == '.' {
        assert(seg@ =~= seq!['.']);
        return false;
    }
    if seg.len() == 2 && seg[0] == '.' && seg[1] == '.' {
        assert(seg@ =~= seq!['.', '.']);
        return false;
    }
    proof {
        if seg@ == seq!['.'] {
            assert(seg@[0] == '.');
        }
        if seg@ == seq!['.', '.'] {
            assert(seg@[0] == '.' && seg@[1] == '.');
        }
    }
    true
}

/// The named components of `path`.
pub fn components_of(path: &str, windows: bool) -> (r: Vec<Vec<char>>)
    ensures
        views(r@) == normal_components(path@, windows),
{
    let v = chars_of(path);
    let r = root_end_of(&v, windows);
    let vb = is_verbatim_of(&v, windows);
    let rest = copy_range(&v, r, v.len());
    assert(rest@ =~= v@.skip(r as int));
    let segs = split_segments(&rest, windows, vb);
    let ghost sv = views(segs@);
    let mut out: Vec<Vec<char>> = Vec::new();
    let mut k: usize = 0;
    while k < segs.len()
        invariant
            0 <= k <= segs.len(),
            sv == views(segs@),
            views(out@) == normal_only(sv.take(k as int)),
        decreases segs.len() - k,
    {
        let ghost before = views(out@);
        assert(sv.take(k + 1).drop_last() =~= sv.take(k as int));
        assert(sv.take(k + 1).last() == segs@[k as int]@);
        if is_normal_segment(&segs[k]) {
            let c = copy_range(&segs[k], 0, segs[k].len());
            assert(c@ =~= segs@[k as int]@);
            out.push(c);
            assert(views(out@) =~= before.push(sv[k as int]));
        }
        k = k + 1;
    }
    assert(sv.take(segs.len() as int) =~= sv);
    out
}

/// Whether a path has a `target` component followed, somewhere later, by a
/// `debug` or `release` component: the shape of a Cargo build output.
pub open spec fn spec_cargo_target(comps: Seq<Seq<char>>) -> bool {
    exists|i: int, j: int|
        0 <= i < j < comps.len() && #[trigger] comps[i] == seq!['t', 'a', 'r', 'g', 'e', 't'] && (
        #[trigger] comps[j] == seq!['d', 'e', 'b', 'u', 'g'] || comps[j] == seq![
            'r',
            'e',
            'l',
            'e',
            'a',
            's',
            'e',
        ])
}

/// Whether `path` looks like a binary inside a Cargo `target/debug` or
/// `target/release` directory.
pub fn looks_like_cargo_target_binary(path: &str, windows: bool) -> (r: bool)
    ensures
        r == spec_cargo_target(normal_components(path@, windows)),
{
    let comps = components_of(path, windows);
    let ghost cv = views(comps@);
    let target = chars_of("target");
    let debug = chars_of("debug");
    let release = chars_of("release");
    proof {
        reveal_strlit("target");
        reveal_strlit("debug");
        reveal_strlit("release");
        assert(target@ =~= seq!['t', 'a', 'r', 'g', 'e', 't']);
        assert(debug@ =~= seq!['d', 'e', 'b', 'u', 'g']);
        assert(release@ =~= seq!['r', 'e', 'l', 'e', 'a', 's', 'e']);
    }
    let mut saw_target = false;
    let mut k: usize = 0;
    while k < comps.len()
        invariant
            0 <= k <= comps.len(),
            cv == views(comps@),
            cv == normal_components(path@, windows),
            target@ == seq!['t', 'a', 'r', 'g', 'e', 't'],
            debug@ == seq!['d', 'e', 'b', 'u', 'g'],
            release@ == seq!['r', 'e', 'l', 'e', 'a', 's', 'e'],
            saw_target == exists|i: int| 0 <= i < k && #[trigger] cv[i] == target@,
            !spec_cargo_target(cv.take(k as int)),
        decreases comps.len() - k,
    {
        let ghost tk = cv.take(k as int);
        let ghost tk1 = cv.take(k + 1);
        assert(cv[k as int] == comps@[k as int]@);
        if chars_eq(&comps[k], &target) {
            saw_target = true;
            assert forall|i: int, j: int| 0 <= i < j < tk1.len() implies !(#[trigger] tk1[i] == target@
                && (#[trigger] tk1[j] == debug@ || tk1[j] == release@)) by {
                if j == k {
                    assert(tk1[j] == target@);
                } else {
                    assert(tk1[i] == tk[i] && tk1[j] == tk[j]);
                }
            }
        } else {
            if saw_target && (chars_eq(&comps[k], &debug) || chars_eq(&comps[k], &release)) {
                let ghost i0 = choose|i: int| 0 <= i < k && #[trigger] cv[i] == target@;
                assert(cv.take(k + 1)[i0] == target@);
                assert(cv.take(k + 1)[k as int] == cv[k as int]);
                proof {
                    assert(cv[i0] == seq!['t', 'a', 'r', 'g', 'e', 't']);
                    assert(cv[k as int] == seq!['d', 'e', 'b', 'u', 'g'] || cv[k as int] == seq!['r', 'e', 'l', 'e', 'a', 's', 'e']);
                    lemma_take_witness(cv, k as int + 1, i0, k as int);
                    lemma_exists_extends(cv, (k + 1) as int);
                    assert(spec_cargo_target(cv));
                }
                return true;
            }
            assert forall|i: int, j: int| 0 <= i < j < tk1.len() implies !(#[trigger] tk1[i] == target@
                && (#[trigger] tk1[j] == debug@ || tk1[j] == release@)) by {
                if j == k {
                    assert(tk1[i] == cv[i]);
                    assert(tk1[j] == cv[k as int]);
                } else {
                    assert(tk1[i] == tk[i] && tk1[j] == tk[j]);
                }
            }
        }
        k = k + 1;
    }
    assert(cv.take(comps.len() as int) =~= cv);
    false
}

proof fn lemma_take_witness(cv: Seq<Seq<char>>, n: int, i: int, j: int)
    requires
        0 <= i < j < n <= cv.len(),
        cv[i] == seq!['t', 'a', 'r', 'g', 'e', 't'],
        cv[j] == seq!['d', 'e', 'b', 'u', 'g'] || cv[j] == seq!['r', 'e', 'l', 'e', 'a', 's', 'e'],
    ensures
        spec_cargo_target(cv.take(n)),
{
    let t = cv.take(n);
    assert(t[i] == cv[i] && t[j] == cv[j]);
}

proof fn lemma_exists_extends(cv: Seq<Seq<char>>, n: int)
    requires
        0 <= n <= cv.len(),
        spec_cargo_target(cv.take(n)),
    ensures
        spec_cargo_target(cv),
{
    let t = cv.take(n);
    let (i, j) = choose|i: int, j: int|
        0 <= i < j < t.len() && #[trigger] t[i] == seq!['t', 'a', 'r', 'g', 'e', 't'] && (
        #[trigger] t[j] == seq!['d', 'e', 'b', 'u', 'g'] || t[j] == seq![
            'r',
            'e',
            'l',
            'e',
            'a',
            's',
            'e',
        ]);
    assert(cv[i] == t[i] && cv[j] == t[j]);
}


// ── Joining ────────────────────────────────────────────────────────────────

/// The segments that are not empty, in order.
pub open spec fn nonempty_only(segs: Seq<Seq<char>>) -> Seq<Seq<char>>
    decreases segs.len(),
{
    if segs.len() == 0 {
        Seq::empty()
    } else if segs.last().len() > 0 {
        nonempty_only(segs.drop_last()).push(segs.last())
    } else {
        nonempty_only(segs.drop_last())
    }
}

/// The components `items` after one more segment of a relative path: an
/// empty segment or `.` changes nothing, `..` takes back a last named
/// component, anything else is added.
pub open spec fn push_component(items: Seq<Seq<char>>, seg: Seq<char>) -> Seq<Seq<char>> {
    if seg.len() == 0 || seg == seq!['.'] {
        items
    } else if seg == seq!['.', '.'] {
        if items.len() > 0 && is_normal(items.last()) {
            items.drop_last()
        } else {
            items
        }
    } else {
        items.push(seg)
    }
}

/// The components `items` after all of `segs`, in order.
pub open spec fn push_components(items: Seq<Seq<char>>, segs: Seq<Seq<char>>) -> Seq<Seq<char>>
    decreases segs.len(),
{
    if segs.len() == 0 {
        items
    } else {
        push_component(push_components(items, segs.drop_last()), segs.last())
    }
}

/// A relative path `rel` (not empty) joined onto the verbatim path `base`
/// as `PathBuf::push` does it: the result is rebuilt from the prefix of
/// `base`, a root when `base` or `rel` has one, and the components of
/// `base` (those of `rel` alone when `rel` has a root) followed by those of
/// `rel`, all separated by `\`.
pub open spec fn verbatim_join(base: Seq<char>, rel: Seq<char>) -> Seq<char> {
    let p = prefix_len(base, true);
    let rel_root = slash(rel[0]);
    let kept = if rel_root {
        Seq::empty()
    } else {
        nonempty_only(segments(base.skip(root_end(base, true)), true, true))
    };
    let items = push_components(
        kept,
        segments(rel.skip(if rel_root { 1 } else { 0 }), true, false),
    );
    let root = rel_root || root_end(base, true) > p;
    base.take(p) + if root || items.len() > 0 {
        seq!['\\'] + join(items, seq!['\\'])
    } else {
        Seq::empty()
    }
}

/// `rel` joined onto `base` as `Path::join` does: a `rel` with a prefix, or
/// an absolute one on Unix, replaces `base`; onto a verbatim `base` the
/// path is rebuilt; a `rel` with a root keeps only the prefix of `base`;
/// otherwise a separator goes between them unless `base` is empty, already
/// ends with one, or is a bare drive (`C:`).
pub open spec fn spec_join(base: Seq<char>, rel: Seq<char>, windows: bool) -> Seq<char> {
    if prefix_len(rel, windows) > 0 || (!windows && rel.len() > 0 && rel[0] == '/') {
        rel
    } else if is_verbatim(base, windows) && rel.len() > 0 {
        verbatim_join(base, rel)
    } else if windows && rel.len() > 0 && is_sep(rel[0], windows) {
        base.take(prefix_len(base, windows)) + rel
    } else if base.len() == 0 {
        rel
    } else if is_sep(base.last(), windows) || (is_disk(base, windows) && base.len() == 2) {
        base + rel
    } else {
        base + seq![main_sep(windows)] + rel
    }
}

/// A path with no slash in it is one segment.
proof fn lemma_segments_no_sep(s: Seq<char>, windows: bool, verbatim: bool)
    requires
        forall|i: int| 0 <= i < s.len() ==> !slash(#[trigger] s[i]),
    ensures
        segments(s, windows, verbatim) == seq![s],
    decreases s.len(),
{
    if s.len() == 0 {
        assert(s =~= Seq::<char>::empty());
    } else {
        let d = s.drop_last();
        assert forall|i: int| 0 <= i < d.len() implies !slash(#[trigger] d[i]) by {
            assert(d[i] == s[i]);
        }
        lemma_segments_no_sep(d, windows, verbatim);
        assert(!slash(s[s.len() - 1]));
        assert(d.push(s.last()) =~= s);
        assert(seq![d].update(0, d.push(s.last())) =~= seq![s]);
    }
}

/// Joining onto any path a plain name (one with no slash, at least three
/// characters long and not starting like a drive) ends with that name.
pub proof fn lemma_join_name_last(base: Seq<char>, name: Seq<char>, windows: bool)
    requires
        name.len() > 2,
        name[1] != ':',
        forall|i: int| 0 <= i < name.len() ==> !slash(#[trigger] name[i]),
    ensures
        spec_join(base, name, windows).len() > 0,
        spec_join(base, name, windows).last() == name.last(),
{
    assert(!slash(name[0]));
    if is_verbatim(base, windows) {
        lemma_segments_no_sep(name, true, false);
        assert(name.skip(0) =~= name);
        let p = prefix_len(base, true);
        let kept = nonempty_only(segments(base.skip(root_end(base, true)), true, true));
        let segs = seq![name];
        assert(segs.drop_last() =~= Seq::<Seq<char>>::empty());
        assert(name != seq!['.'] && name != seq!['.', '.']);
        let items = push_components(kept, segs);
        assert(push_components(kept, segs.drop_last()) == kept);
        assert(push_component(kept, name) == kept.push(name));
        assert(items == kept.push(name));
        let j = join(items, seq!['\\']);
        if items.len() == 1 {
            assert(j == name);
        } else {
            assert(items.drop_last() =~= kept);
            assert(j == join(kept, seq!['\\']) + seq!['\\'] + name);
        }
        assert(j.len() > 0 && j.last() == name.last());
    }
}

fn keep_nonempty(segs: &Vec<Vec<char>>) -> (r: Vec<Vec<char>>)
    ensures
        views(r@) == nonempty_only(views(segs@)),
{
    let ghost sv = views(segs@);
    let mut out: Vec<Vec<char>> = Vec::new();
    let mut k: usize = 0;
    while k < segs.len()
        invariant
            0 <= k <= segs.len(),
            sv == views(segs@),
            views(out@) == nonempty_only(sv.take(k as int)),
        decreases segs.len() - k,
    {
        let ghost before = views(out@);
        assert(sv.take(k + 1).drop_last() =~= sv.take(k as int));
        assert(sv.take(k + 1).last() == segs@[k as int]@);
        if segs[k].len() > 0 {
            let c = copy_range(&segs[k], 0, segs[k].len());
            assert(c@ =~= segs@[k as int]@);
            out.push(c);
            assert(views(out@) =~= before.push(sv[k as int]));
        }
        k = k + 1;
    }
    assert(sv.take(segs.len() as int) =~= sv);
    out
}

fn verbatim_join_chars(base: &Vec<char>, rel: &Vec<char>) -> (r: Vec<char>)
    requires
        rel.len() > 0,
    ensures
        r@ == verbatim_join(base@, rel@),
{
    let p = prefix_len_of(base, true);
    let re = root_end_of(base, true);
    let rel_root = slash_char(rel[0]);
    let mut items: Vec<Vec<char>> = Vec::new();
    if !rel_root {
        let body = copy_range(base, re, base.len());
        assert(body@ =~= base@.skip(re as int));
        let bsegs = split_segments(&body, true, true);
        items = keep_nonempty(&bsegs);
    }
    proof {
        if rel_root {
            assert(views(items@) =~= Seq::<Seq<char>>::empty());
        }
    }
    let start: usize = if rel_root { 1 } else { 0 };
    let rest = copy_range(rel, start, rel.len());
    assert(rest@ =~= rel@.skip(start as int));
    let segs = split_segments(&rest, true, false);
    let ghost sv = views(segs@);
    let ghost kept = views(items@);
    let mut k: usize = 0;
    assert(sv.take(0) =~= Seq::<Seq<char>>::empty());
    while k < segs.len()
        invariant
            0 <= k <= segs.len(),
            sv == views(segs@),
            views(items@) == push_components(kept, sv.take(k as int)),
        decreases segs.len() - k,
    {
        let ghost before = views(items@);
        assert(sv.take(k + 1).drop_last() =~= sv.take(k as int));
        assert(sv.take(k + 1).last() == segs@[k as int]@);
        let seg = &segs[k];
        if seg.len() == 0 || (seg.len() == 1 && seg[0] == '.') {
            proof {
                if seg.len() == 1 {
                    assert(seg@ =~= seq!['.']);
                }
            }
        } else if seg.len() == 2 && seg[0] == '.' && seg[1] == '.' {
            assert(seg@ =~= seq!['.', '.']);
            assert(seg@ != seq!['.']);
            if items.len() > 0 && is_normal_segment(&items[items.len() - 1]) {
                items.pop();
                assert(views(items@) =~= before.drop_last());
            }
        } else {
            proof {
                if seg@ == seq!['.'] {
                    assert(seg@[0] == '.');
                }
                if seg@ == seq!['.', '.'] {
                    assert(seg@[0] == '.' && seg@[1] == '.');
                }
            }
            let c = copy_range(seg, 0, seg.len());
            assert(c@ =~= sv[k as int]);
            items.push(c);
            assert(views(items@) =~= before.push(sv[k as int]));
        }
        k = k + 1;
    }
    assert(sv.take(segs.len() as int) =~= sv);
    let ghost iv = views(items@);
    let mut out = copy_range(base, 0, p);
    if rel_root || re > p || items.len() > 0 {
        out.push('\\');
        let mut j: usize = 0;
        assert(iv.take(0) =~= Seq::<Seq<char>>::empty());
        assert(out@ =~= base@.take(p as int) + seq!['\\'] + join(iv.take(0), seq!['\\']));
        while j < items.len()
            invariant
                0 <= j <= items.len(),
                iv == views(items@),
                out@ == base@.take(p as int) + seq!['\\'] + join(iv.take(j as int), seq!['\\']),
            decreases items.len() - j,
        {
            assert(iv.take(j + 1).drop_last() =~= iv.take(j as int));
            assert(iv.take(j + 1).last() == items@[j as int]@);
            if j > 0 {
                out.push('\\');
            }
            push_all(&mut out, &items[j]);
            proof {
                if j == 0 {
                    assert(out@ =~= base@.take(p as int) + seq!['\\'] + join(iv.take(j + 1), seq!['\\']));
                } else {
                    assert(out@ =~= base@.take(p as int) + seq!['\\'] + join(iv.take(j + 1), seq!['\\']));
                }
            }
            j = j + 1;
        }
        assert(iv.take(items.len() as int) =~= iv);
        assert(out@ =~= base@.take(p as int) + (seq!['\\'] + join(iv, seq!['\\'])));
    } else {
        assert(out@ =~= base@.take(p as int) + Seq::<char>::empty());
    }
    out
}

fn join_chars(base: &Vec<char>, rel: &Vec<char>, windows: bool) -> (r: Vec<char>)
    ensures
        r@ == spec_join(base@, rel@, windows),
{
    let rp = prefix_len_of(rel, windows);
    if rp > 0 || (!windows && rel.len() > 0 && rel[0] == '/') {
        let r = copy_range(rel, 0, rel.len());
        assert(r@ =~= rel@);
        return r;
    }
    if rel.len() > 0 && is_verbatim_of(base, windows) {
        return verbatim_join_chars(base, rel);
    }
    if windows && rel.len() > 0 && is_sep_char(rel[0], windows) {
        let bp = prefix_len_of(base, windows);
        let mut out = copy_range(base, 0, bp);
        push_all(&mut out, rel);
        return out;
    }
    let mut out: Vec<char> = Vec::new();
    push_all(&mut out, base);
    let disk_only = windows && base.len() == 2 && ascii_letter_char(base[0]) && base[1] == ':';
    let need_sep = base.len() > 0 && !is_sep_char(base[base.len() - 1], windows) && !disk_only;
    if need_sep {
        let sep: char = if windows { '\\' } else { '/' };
        assert(sep == main_sep(windows));
        out.push(sep);
    }
    push_all(&mut out, rel);
    proof {
        if base@.len() == 0 {
            assert(out@ =~= rel@);
        } else if need_sep {
            assert(out@ =~= base@ + seq![main_sep(windows)] + rel@);
        } else {
            assert(out@ =~= base@ + rel@);
        }
    }
    out
}

/// Joins `rel` onto `base`.
pub fn join_path(base: &str, rel: &str, windows: bool) -> (r: String)
    ensures
        r@ == spec_join(base@, rel@, windows),
{
    let b = chars_of(base);
    let r = chars_of(rel);
    let out = join_chars(&b, &r, windows);
    string_of(&out)
}

// ── File name and parent ───────────────────────────────────────────────────

/// Whether `s` ends, after its prefix and root, with a separator or (but
/// for a verbatim path) with a `.` segment, which name no entry and are
/// skipped when looking for the last component.
pub open spec fn ends_with_skippable(s: Seq<char>, windows: bool) -> bool {
    let r = root_end(s, windows);
    let v = is_verbatim(s, windows);
    s.len() > r && (sep_in(s.last(), windows, v) || (!v && s.last() == '.' && (s.len() == r + 1
        || sep_in(s[s.len() - 2], windows, v))))
}

/// The end of the last component: `s` without trailing separators and `.`
/// segments.
pub open spec fn name_end(s: Seq<char>, windows: bool) -> nat
    decreases s.len(),
{
    if ends_with_skippable(s, windows) {
        name_end(s.drop_last(), windows)
    } else {
        s.len()
    }
}

/// The start of the component ending at `e`: just after the last separator
/// before `e`, or after the prefix and root.
pub open spec fn name_start(s: Seq<char>, e: int, windows: bool) -> int
    decreases e,
{
    if e <= 0 {
        0
    } else if e <= root_end(s, windows) || sep_in(s[e - 1], windows, is_verbatim(s, windows)) {
        e
    } else {
        name_start(s, e - 1, windows)
    }
}

/// The final component of `s` (what `Path::file_name` gives): none when the
/// path ends in `..` (or, verbatim, in `.`) or has no component after its
/// prefix and root.
pub open spec fn spec_file_name(s: Seq<char>, windows: bool) -> Option<Seq<char>> {
    let e = name_end(s, windows) as int;
    if e <= root_end(s, windows) {
        None
    } else {
        let n = s.subrange(name_start(s, e, windows), e);
        if n == seq!['.', '.'] || n == seq!['.'] {
            None
        } else {
            Some(n)
        }
    }
}

/// `p` without trailing separators and (but for a verbatim path) `.`
/// segments, keeping a lone root separator or a lone `.` after the prefix.
pub open spec fn strip_tail(p: Seq<char>, windows: bool) -> Seq<char>
    decreases p.len(),
{
    let q = prefix_len(p, windows);
    let v = is_verbatim(p, windows);
    if p.len() > q + 1 && sep_in(p.last(), windows, v) {
        strip_tail(p.drop_last(), windows)
    } else if !v && p.len() >= q + 2 && p.last() == '.' && sep_in(p[p.len() - 2], windows, v) {
        strip_tail(p.drop_last(), windows)
    } else {
        p
    }
}

/// The parent of `s` once its final component is removed (what
/// `Path::parent` gives when there is a final component).
pub open spec fn spec_parent(s: Seq<char>, windows: bool) -> Seq<char> {
    strip_tail(s.subrange(0, name_start(s, name_end(s, windows) as int, windows)), windows)
}

fn name_end_of(v: &Vec<char>, windows: bool) -> (r: usize)
    ensures
        r == name_end(v@, windows),
        root_end(v@, windows) <= r <= v.len(),
{
    let q = root_end_of(v, windows);
    let vb = is_verbatim_of(v, windows);
    let mut i: usize = v.len();
    assert(v@.take(i as int) =~= v@);
    while i > q && (sep_in_char(v[i - 1], windows, vb) || (!vb && v[i - 1] == '.' && (i - q == 1
        || sep_in_char(v[i - 2], windows, vb))))
        invariant
            q == root_end(v@, windows),
            vb == is_verbatim(v@, windows),
            q <= i <= v.len(),
            name_end(v@, windows) == name_end(v@.take(i as int), windows),
        decreases i,
    {
        let ghost t = v@.take(i as int);
        proof {
            lemma_root_take(v@, windows, i as int);
        }
        assert(t.len() > 0 && t.last() == v@[i - 1]);
        if i >= 2 {
            assert(t[t.len() - 2] == v@[i - 2]);
        }
        assert(ends_with_skippable(t, windows));
        assert(t.drop_last() =~= v@.take(i - 1));
        i = i - 1;
    }
    proof {
        lemma_root_take(v@, windows, i as int);
        let t = v@.take(i as int);
        if i > 0 {
            assert(t.last() == v@[i - 1]);
            if i >= 2 {
                assert(t[t.len() - 2] == v@[i - 2]);
            }
        }
        assert(!ends_with_skippable(t, windows));
    }
    i
}

fn name_start_of(v: &Vec<char>, e: usize, windows: bool) -> (r: usize)
    requires
        e <= v.len(),
    ensures
        r as int == name_start(v@, e as int, windows),
        r <= e,
{
    let q = root_end_of(v, windows);
    let vb = is_verbatim_of(v, windows);
    let mut i = e;
    while i > q && !sep_in_char(v[i - 1], windows, vb)
        invariant
            q == root_end(v@, windows),
            vb == is_verbatim(v@, windows),
            0 <= i <= e <= v.len(),
            name_start(v@, e as int, windows) == name_start(v@, i as int, windows),
        decreases i,
    {
        i = i - 1;
    }
    i
}

fn strip_tail_of(p: &Vec<char>, windows: bool) -> (r: Vec<char>)
    ensures
        r@ == strip_tail(p@, windows),
{
    let q = prefix_len_of(p, windows);
    let vb = is_verbatim_of(p, windows);
    let mut i: usize = p.len();
    assert(p@.take(i as int) =~= p@);
    while (i - q > 1 && sep_in_char(p[i - 1], windows, vb)) || (!vb && i - q >= 2 && p[i - 1]
        == '.' && sep_in_char(p[i - 2], windows, vb))
        invariant
            q == prefix_len(p@, windows),
            vb == is_verbatim(p@, windows),
            q <= i <= p.len(),
            strip_tail(p@, windows) == strip_tail(p@.take(i as int), windows),
        decreases i,
    {
        let ghost t = p@.take(i as int);
        proof {
            lemma_prefix_take(p@, windows, i as int);
        }
        assert(t.last() == p@[i - 1]);
        if i >= 2 {
            assert(t[t.len() - 2] == p@[i - 2]);
        }
        assert(t.drop_last() =~= p@.take(i - 1));
        i = i - 1;
    }
    proof {
        lemma_prefix_take(p@, windows, i as int);
        let t = p@.take(i as int);
        if i > 0 {
            assert(t.last() == p@[i - 1]);
        }
        if i >= 2 {
            assert(t[t.len() - 2] == p@[i - 2]);
        }
    }
    let r = copy_range(p, 0, i);
    assert(r@ =~= p@.take(i as int));
    r
}

fn file_name_chars(v: &Vec<char>, windows: bool) -> (r: Option<Vec<char>>)
    ensures
        match r {
            None => spec_file_name(v@, windows) is None,
            Some(n) => spec_file_name(v@, windows) == Some(n@),
        },
{
    let e = name_end_of(v, windows);
    let q = root_end_of(v, windows);
    if e <= q {
        return None;
    }
    let a = name_start_of(v, e, windows);
    let n = copy_range(v, a, e);
    if n.len() == 2 && n[0] == '.' && n[1] == '.' {
        assert(n@ =~= seq!['.', '.']);
        return None;
    }
    if n.len() == 1 && n[0] == '.' {
        assert(n@ =~= seq!['.']);
        return None;
    }
    proof {
        if n@ == seq!['.', '.'] {
            assert(n@[0] == '.' && n@[1] == '.');
        }
        if n@ == seq!['.'] {
            assert(n@[0] == '.');
        }
    }
    Some(n)
}

/// The final component of `path`, if it has one.
pub fn file_name(path: &str, windows: bool) -> (r: Option<String>)
    ensures
        match r {
            None => spec_file_name(path@, windows) is None,
            Some(n) => spec_file_name(path@, windows) == Some(n@),
        },
{
    let v = chars_of(path);
    match file_name_chars(&v, windows) {
        None => None,
        Some(n) => Some(string_of(&n)),
    }
}

/// The position of the last `.` in `n`, or -1.
pub open spec fn last_dot(n: Seq<char>) -> int
    decreases n.len(),
{
    if n.len() == 0 {
        -1
    } else if n.last() == '.' {
        n.len() - 1
    } else {
        last_dot(n.drop_last())
    }
}

/// One past the position of the last `.` in `v` (0 when there is none).
pub fn last_dot_in(v: &Vec<char>) -> (r: usize)
    ensures
        r as int == last_dot(v@) + 1,
        r <= v.len(),
{
    let mut k: usize = v.len();
    assert(v@.take(k as int) =~= v@);
    while k > 0 && v[k - 1] != '.'
        invariant
            0 <= k <= v.len(),
            last_dot(v@) == last_dot(v@.take(k as int)),
        decreases k,
    {
        assert(v@.take(k as int).drop_last() =~= v@.take(k - 1));
        k = k - 1;
    }
    k
}

/// `path` as `Path::with_extension` leaves it: cut right after the stem of
/// its final component (the stem ends at the component's last `.`, unless
/// that `.` is its first character) and followed by `.` and `ext`, or by
/// nothing when `ext` is empty. A path without a final component stays as
/// it is.
pub open spec fn spec_with_extension(path: Seq<char>, ext: Seq<char>, windows: bool) -> Seq<char> {
    match spec_file_name(path, windows) {
        None => path,
        Some(n) => {
            let e = name_end(path, windows) as int;
            let stem_end = if last_dot(n) > 0 {
                name_start(path, e, windows) + last_dot(n)
            } else {
                e
            };
            path.take(stem_end) + if ext.len() == 0 { Seq::empty() } else { seq!['.'] + ext }
        },
    }
}

/// `path` with the extension of its final component set to `ext`.
pub fn with_extension(path: &str, ext: &str, windows: bool) -> (r: String)
    ensures
        r@ == spec_with_extension(path@, ext@, windows),
{
    let v = chars_of(path);
    match file_name_chars(&v, windows) {
        None => string_of(&v),
        Some(n) => {
            let e = name_end_of(&v, windows);
            let a = name_start_of(&v, e, windows);
            let k = last_dot_in(&n);
            proof {
                assert(n@ == v@.subrange(a as int, e as int));
            }
            let stem_end = if k > 1 { a + (k - 1) } else { e };
            let mut out = copy_range(&v, 0, stem_end);
            let x = chars_of(ext);
            if x.len() > 0 {
                out.push('.');
                push_all(&mut out, &x);
            }
            proof {
                if x@.len() > 0 {
                    assert(out@ =~= v@.take(stem_end as int) + (seq!['.'] + ext@));
                } else {
                    assert(out@ =~= v@.take(stem_end as int) + Seq::<char>::empty());
                }
            }
            string_of(&out)
        },
    }
}

/// `path` with its final component renamed to that name followed by `.bak`
/// (`memx.bak` is appended when there is no final component).
pub open spec fn spec_backup_path(path: Seq<char>, windows: bool) -> Seq<char> {
    match spec_file_name(path, windows) {
        Some(n) => spec_join(spec_parent(path, windows), n + seq!['.', 'b', 'a', 'k'], windows),
        None => spec_join(path, seq!['m', 'e', 'm', 'x', '.', 'b', 'a', 'k'], windows),
    }
}

/// The backup location of a binary: its file name with `.bak` appended, in
/// the same directory.
pub fn binary_backup_path(binary_path: &str, windows: bool) -> (r: String)
    ensures
        r@ == spec_backup_path(binary_path@, windows),
{
    let v = chars_of(binary_path);
    match file_name_chars(&v, windows) {
        Some(n) => {
            let e = name_end_of(&v, windows);
            let a = name_start_of(&v, e, windows);
            let pre = copy_range(&v, 0, a);
            let parent = strip_tail_of(&pre, windows);
            let mut name = n;
            name.push('.');
            name.push('b');
            name.push('a');
            name.push('k');
            assert(name@ =~= n@ + seq!['.', 'b', 'a', 'k']);
            let out = join_chars(&parent, &name, windows);
            string_of(&out)
        },
        None => {
            let mut name: Vec<char> = Vec::new();
            push_str(&mut name, "memx.bak");
            proof {
                reveal_strlit("memx.bak");
            }
            assert(name@ =~= seq!['m', 'e', 'm', 'x', '.', 'b', 'a', 'k']);
            let out = join_chars(&v, &name, windows);
            string_of(&out)
        },
    }
}

// ── Managed installs ───────────────────────────────────────────────────────

/// Whether the binary at `path` is one MemX installed and may manage: it is
/// named `memx` or `memx.exe` and is not a Cargo build output.
pub open spec fn spec_managed(path: Seq<char>, windows: bool) -> bool {
    (spec_file_name(path, windows) == Some(seq!['m', 'e', 'm', 'x']) || spec_file_name(path, windows)
        == Some(seq!['m', 'e', 'm', 'x', '.', 'e', 'x', 'e'])) && !spec_cargo_target(
        normal_components(path, windows),
    )
}

/// Whether the binary at `path` is a MemX install that may be managed.
pub fn is_managed_binary_path(path: &str, windows: bool) -> (r: bool)
    ensures
        r == spec_managed(path@, windows),
{
    let v = chars_of(path);
    let named = match file_name_chars(&v, windows) {
        Some(n) => {
            let a = chars_of("memx");
            let b = chars_of("memx.exe");
            proof {
                reveal_strlit("memx");
                reveal_strlit("memx.exe");
                assert(a@ =~= seq!['m', 'e', 'm', 'x']);
                assert(b@ =~= seq!['m', 'e', 'm', 'x', '.', 'e', 'x', 'e']);
            }
            chars_eq(&n, &a) || chars_eq(&n, &b)
        },
        None => false,
    };
    named && !looks_like_cargo_target_binary(path, windows)
}

/// Why a command refuses to manage the running binary.
#[derive(Debug, Clone, Copy, PartialEq, Eq, Structural)]
pub enum ManagedBinaryError {
    /// The binary is a Cargo build output, not an installed copy.
    DevelopmentBinary,
}

/// Refuses to manage a binary that is a Cargo build output.
pub fn ensure_installed_binary_path(binary_path: &str, windows: bool) -> (r: Result<(), ManagedBinaryError>)
    ensures
        r == (if spec_cargo_target(normal_components(binary_path@, windows)) {
            Err(ManagedBinaryError::DevelopmentBinary)
        } else {
            Ok(())
        }),
{
    if looks_like_cargo_target_binary(binary_path, windows) {
        Err(ManagedBinaryError::DevelopmentBinary)
    } else {
        Ok(())
    }
}

/// What uninstalling does with the running binary.
#[derive(Debug, Clone, Copy, PartialEq, Eq, Structural)]
pub enum BinaryUninstallStatus {
    /// The binary is deleted now.
    Removed,
    /// The binary is deleted once this process exits (Windows).
    Scheduled,
    /// The binary is a development build and is left alone.
    SkippedDevelopmentBinary,
    /// There is no binary at the path.
    NotFound,
}

/// Decides what uninstalling does with the binary at `binary_path`: a
/// binary that is not a managed install is skipped, a missing one is
/// reported, otherwise it is removed now, or after exit on Windows.
pub fn plan_binary_uninstall(binary_path: &str, exists: bool, windows: bool) -> (r:
    BinaryUninstallStatus)
    ensures
        r == (if !spec_managed(binary_path@, windows) {
            BinaryUninstallStatus::SkippedDevelopmentBinary
        } else if !exists {
            BinaryUninstallStatus::NotFound
        } else if windows {
            BinaryUninstallStatus::Scheduled
        } else {
            BinaryUninstallStatus::Removed
        }),
{
    if !is_managed_binary_path(binary_path, windows) {
        BinaryUninstallStatus::SkippedDevelopmentBinary
    } else if !exists {
        BinaryUninstallStatus::NotFound
    } else if windows {
        BinaryUninstallStatus::Scheduled
    } else {
        BinaryUninstallStatus::Removed
    }
}


/// What an uninstall deletes: the MemX home directory always; the running
/// binary only when it is a managed install; its backup only then and only
/// when one exists.
#[derive(Debug, Clone, PartialEq, Eq)]
pub struct UninstallPreview {
    pub data_dir: String,
    pub binary: Option<String>,
    pub backup: Option<String>,
}

/// The paths an uninstall deletes, given whether the binary's backup exists.
pub fn uninstall_preview(memx_dir: &str, binary_path: &str, backup_exists: bool, windows: bool) -> (r: UninstallPreview)
    ensures
        r.data_dir@ == memx_dir@,
        spec_managed(binary_path@, windows) ==> (r.binary matches Some(b) && b@ == binary_path@),
        !spec_managed(binary_path@, windows) ==> r.binary is None,
        (spec_managed(binary_path@, windows) && backup_exists) ==> (r.backup matches Some(b) && b@
            == spec_backup_path(binary_path@, windows)),
        !(spec_managed(binary_path@, windows) && backup_exists) ==> r.backup is None,
{
    let managed = is_managed_binary_path(binary_path, windows);
    let binary = if managed { Some(binary_path.to_owned()) } else { None };
    let backup = if managed && backup_exists {
        Some(binary_backup_path(binary_path, windows))
    } else {
        None
    };
    UninstallPreview { data_dir: memx_dir.to_owned(), binary, backup }
}

/// Law: a managed binary never lies in a Cargo build directory, so every
/// binary a command agrees to manage is also one it may uninstall.
pub proof fn law_managed_binary_is_installed_copy(path: Seq<char>, windows: bool)
    ensures
        spec_managed(path, windows) ==> !spec_cargo_target(normal_components(path, windows)),
{
}

} // verus!
