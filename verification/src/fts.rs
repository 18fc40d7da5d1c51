//! Preparing text for the full-text index.
//!
//! The index tokenizer treats a run of CJK ideographs as one token, so a
//! search for a single character would never match. Text is therefore
//! rewritten so that every CJK character stands alone as a token.

use vstd::prelude::*;
use crate::text::{
    chars_of, is_whitespace, is_ws, lead_ws, lemma_trim_split, string_of, trail_ws, trim, trim_chars,
    trim_start,
};

verus! {

/// The code-point ranges treated as CJK: unified ideographs, extensions A
/// and B, compatibility ideographs, radicals, strokes, and CJK symbols and
/// punctuation.
pub open spec fn spec_is_cjk(c: char) -> bool {
    let u = c as u32;
    ||| 0x4E00 <= u <= 0x9FFF
    ||| 0x3400 <= u <= 0x4DBF
    ||| 0x20000 <= u <= 0x2A6DF
    ||| 0xF900 <= u <= 0xFAFF
    ||| 0x2E80 <= u <= 0x2EFF
    ||| 0x31C0 <= u <= 0x31EF
    ||| 0x3000 <= u <= 0x303F
}

/// Whether `c` is a CJK character.
pub fn is_cjk(c: char) -> (r: bool)
    ensures
        r == spec_is_cjk(c),
{
    let u = c as u32;
    (0x4E00 <= u && u <= 0x9FFF) || (0x3400 <= u && u <= 0x4DBF) || (0x20000 <= u && u
        <= 0x2A6DF) || (0xF900 <= u && u <= 0xFAFF) || (0x2E80 <= u && u <= 0x2EFF) || (0x31C0
        <= u && u <= 0x31EF) || (0x3000 <= u && u <= 0x303F)
}

/// Whether a space goes between the adjacent characters `prev` and `cur`:
/// before a CJK character not already preceded by a space, and after a CJK
/// character that is followed by a character that is neither CJK nor white
/// space.
pub open spec fn needs_gap(prev: char, cur: char) -> bool {
    ||| spec_is_cjk(cur) && prev != ' '
    ||| spec_is_cjk(prev) && !spec_is_cjk(cur) && !is_ws(cur)
}

/// The separator placed before position `i` of `s`.
pub open spec fn gap_before(s: Seq<char>, i: int) -> Seq<char> {
    if i > 0 && needs_gap(s[i - 1], s[i]) {
        seq![' ']
    } else {
        Seq::empty()
    }
}

/// `s` with a space inserted at every position where `needs_gap` holds.
pub open spec fn spaced(s: Seq<char>) -> Seq<char>
    decreases s.len(),
{
    if s.len() == 0 {
        Seq::empty()
    } else {
        spaced(s.drop_last()) + gap_before(s, s.len() - 1) + seq![s.last()]
    }
}

/// What `preprocess_for_fts` gives for the text `s`.
pub open spec fn spec_preprocess(s: Seq<char>) -> Seq<char> {
    trim(spaced(s))
}

proof fn lemma_spaced_last(s: Seq<char>)
    requires
        s.len() > 0,
    ensures
        spaced(s).len() > 0,
        spaced(s).last() == s.last(),
{
}

/// Rewrites `text` so that each CJK character is its own token: a space goes
/// before every CJK character not already preceded by a space, and after a
/// CJK character when the next character is neither CJK nor white space; the
/// result is then trimmed.
pub fn preprocess_for_fts(text: &str) -> (r: String)
    ensures
        r@ == spec_preprocess(text@),
{
    let cs = chars_of(text);
    let mut out: Vec<char> = Vec::new();
    let mut need_space = false;
    let mut i: usize = 0;
    while i < cs.len()
        invariant
            0 <= i <= cs.len(),
            out@ == spaced(cs@.subrange(0, i as int)),
            i > 0 ==> need_space == spec_is_cjk(cs@[i - 1]),
            i == 0 ==> !need_space,
        decreases cs.len() - i,
    {
        let ch = cs[i];
        let ghost pre = cs@.subrange(0, i as int);
        let ghost next = cs@.subrange(0, i + 1);
        proof {
            assert(next.drop_last() =~= pre);
            assert(next.last() == ch);
            if i > 0 {
                lemma_spaced_last(pre);
                assert(pre.last() == cs@[i - 1]);
                assert(next[i - 1] == cs@[i - 1]);
            }
        }
        if is_cjk(ch) {
            if need_space || (out.len() > 0 && out[out.len() - 1] != ' ') {
                out.push(' ');
            }
            out.push(ch);
            need_space = true;
        } else {
            if need_space && !is_whitespace(ch) {
                out.push(' ');
            }
            need_space = false;
            out.push(ch);
        }
        proof {
            if i == 0 {
                assert(spaced(pre) =~= Seq::<char>::empty());
            }
            assert(out@ =~= spaced(next));
        }
        i = i + 1;
    }
    assert(cs@.subrange(0, cs@.len() as int) =~= cs@);
    let trimmed = trim_chars(&out);
    string_of(&trimmed)
}


/// Every CJK character is set off as its own token in `t`: it is either first
/// or preceded by a space, and either last or followed by white space.
pub open spec fn cjk_isolated(t: Seq<char>) -> bool {
    forall|i: int|
        0 <= i < t.len() && spec_is_cjk(#[trigger] t[i]) ==> (i == 0 || t[i - 1] == ' ') && (i + 1
            == t.len() || is_ws(t[i + 1]))
}

proof fn lemma_spaced_isolated(s: Seq<char>)
    ensures
        cjk_isolated(spaced(s)),
    decreases s.len(),
{
    if s.len() > 0 {
        let p = s.drop_last();
        lemma_spaced_isolated(p);
        let sp = spaced(p);
        let t = spaced(s);
        let g = gap_before(s, s.len() - 1);
        assert(t == sp + g + seq![s.last()]);
        assert forall|i: int| 0 <= i < t.len() && spec_is_cjk(#[trigger] t[i]) implies (i == 0
            || t[i - 1] == ' ') && (i + 1 == t.len() || is_ws(t[i + 1])) by {
            if i < sp.len() {
                assert(t[i] == sp[i]);
                if i > 0 {
                    assert(t[i - 1] == sp[i - 1]);
                }
                if i + 1 < sp.len() {
                    assert(t[i + 1] == sp[i + 1]);
                } else {
                    // i is the last character of spaced(p), which is p.last()
                    lemma_spaced_last(p);
                    assert(sp[i] == p.last());
                    assert(p.last() == s[s.len() - 2]);
                    if g.len() == 0 {
                        assert(t[i + 1] == s.last());
                    } else {
                        assert(t[i + 1] == ' ');
                    }
                }
            } else if i < sp.len() + g.len() {
                assert(t[i] == ' ');
            } else {
                assert(t[i] == s.last());
                if i > 0 {
                    if g.len() == 0 {
                        lemma_spaced_last(p);
                        assert(t[i - 1] == sp.last());
                        assert(p.last() == s[s.len() - 2]);
                    } else {
                        assert(t[i - 1] == ' ');
                    }
                }
            }
        }
    }
}

/// Law: in the preprocessed text every CJK character stands alone as a
/// token, preceded by a space unless it comes first and followed by white
/// space unless it comes last.
pub proof fn law_cjk_characters_are_separated(text: Seq<char>)
    ensures
        cjk_isolated(spec_preprocess(text)),
{
    let sp = spaced(text);
    lemma_spaced_isolated(text);
    lemma_trim_split(sp);
    let a = lead_ws(sp) as int;
    let b = sp.len() - trail_ws(trim_start(sp));
    let t = spec_preprocess(text);
    assert(t == sp.subrange(a, b));
    assert forall|i: int| 0 <= i < t.len() && spec_is_cjk(#[trigger] t[i]) implies (i == 0 || t[i
        - 1] == ' ') && (i + 1 == t.len() || is_ws(t[i + 1])) by {
        assert(t[i] == sp[a + i]);
        if i > 0 {
            assert(t[i - 1] == sp[a + i - 1]);
        }
        if i + 1 < t.len() {
            assert(t[i + 1] == sp[a + i + 1]);
        }
    }
}

proof fn lemma_spaced_plain(s: Seq<char>)
    requires
        forall|i: int| 0 <= i < s.len() ==> !spec_is_cjk(#[trigger] s[i]),
    ensures
        spaced(s) == s,
    decreases s.len(),
{
    if s.len() > 0 {
        lemma_spaced_plain(s.drop_last());
        assert(!spec_is_cjk(s[s.len() - 1]));
        if s.len() > 1 {
            assert(!spec_is_cjk(s[s.len() - 2]));
        }
        assert(s.drop_last() + seq![s.last()] =~= s);
    }
}

/// Law: text with no CJK character is only trimmed.
pub proof fn law_text_without_cjk_is_only_trimmed(text: Seq<char>)
    requires
        forall|i: int| 0 <= i < text.len() ==> !spec_is_cjk(#[trigger] text[i]),
    ensures
        spec_preprocess(text) == trim(text),
{
    lemma_spaced_plain(text);
}

} // verus!
