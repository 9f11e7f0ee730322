use vstd::prelude::*;

use crate::text::{chars_of, string_of};

verus! {

/// Groups the scalars of `s` into maximal runs of adjacent scalars of one class;
/// `k[i]` is the class of `s[i]`, and scalars of no class are left out.
pub open spec fn group(s: Seq<char>, k: Seq<Option<u8>>) -> Seq<(u8, Seq<char>)>
    decreases s.len(),
{
    if s.len() == 0 || k.len() != s.len() {
        Seq::empty()
    } else {
        let n = s.len() - 1;
        let r = group(s.drop_last(), k.drop_last());
        match k[n] {
            None => r,
            Some(c) => if n > 0 && k[n - 1] == Some(c) {
                r.update(r.len() - 1, (c, r.last().1.push(s[n])))
            } else {
                r.push((c, seq![s[n]]))
            },
        }
    }
}

/// A class that the last scalar has is the class of the last run.
proof fn lemma_group_last(s: Seq<char>, k: Seq<Option<u8>>)
    requires
        s.len() > 0,
        k.len() == s.len(),
        k.last() is Some,
    ensures
        group(s, k).len() > 0,
        group(s, k).last().0 == k.last()->0,
    decreases s.len(),
{
    let n = s.len() - 1;
    if n > 0 && k[n - 1] == k[n] {
        lemma_group_last(s.drop_last(), k.drop_last());
    }
}

/// The text of a sequence of runs, joined in order.
pub open spec fn runs_text(r: Seq<(u8, Seq<char>)>) -> Seq<char>
    decreases r.len(),
{
    if r.len() == 0 {
        Seq::empty()
    } else {
        runs_text(r.drop_last()) + r.last().1
    }
}

/// Grouping keeps every classified scalar, in order, and nothing else.
proof fn lemma_group_covers(s: Seq<char>, f: spec_fn(char) -> Option<u8>)
    ensures
        runs_text(group(s, s.map_values(f))) == s.filter(|c: char| f(c) is Some),
    decreases s.len(),
{
    reveal(Seq::filter);
    let k = s.map_values(f);
    if s.len() > 0 {
        let n = s.len() - 1;
        let p = s.drop_last();
        assert(p.map_values(f) =~= k.drop_last());
        lemma_group_covers(p, f);
        let r = group(p, k.drop_last());
        assert(k[n] == f(s.last()));
        match k[n] {
            None => {},
            Some(c) => {
                if n > 0 && k[n - 1] == Some(c) {
                    assert(k.drop_last().last() == k[n - 1]);
                    lemma_group_last(p, k.drop_last());
                    let u = r.update(r.len() - 1, (c, r.last().1.push(s[n])));
                    assert(u.drop_last() =~= r.drop_last());
                    assert(runs_text(u) =~= runs_text(r).push(s[n]));
                } else {
                    let u = r.push((c, seq![s[n]]));
                    assert(u.drop_last() =~= r);
                    assert(runs_text(u) =~= runs_text(r).push(s[n]));
                }
            },
        }
    }
}

/// Splits `cs` into its maximal runs by the classes `k`.
pub(crate) fn group_runs(cs: &Vec<char>, k: &Vec<Option<u8>>) -> (r: Vec<(u8, Vec<char>)>)
    requires
        cs.len() == k.len(),
    ensures
        r.len() == group(cs@, k@).len(),
        forall|i: int|
            0 <= i < r.len() ==> (#[trigger] r@[i]).0 == group(cs@, k@)[i].0 && r@[i].1@ == group(
                cs@,
                k@,
            )[i].1,
{
    let mut out: Vec<(u8, Vec<char>)> = Vec::new();
    let mut i: usize = 0;
    while i < cs.len()
        invariant
            i <= cs.len(),
            cs.len() == k.len(),
            out.len() == group(cs@.subrange(0, i as int), k@.subrange(0, i as int)).len(),
            forall|j: int|
                0 <= j < out.len() ==> (#[trigger] out@[j]).0 == group(
                    cs@.subrange(0, i as int),
                    k@.subrange(0, i as int),
                )[j].0 && out@[j].1@ == group(
                    cs@.subrange(0, i as int),
                    k@.subrange(0, i as int),
                )[j].1,
        decreases cs.len() - i,
    {
        let ghost s0 = cs@.subrange(0, i as int);
        let ghost k0 = k@.subrange(0, i as int);
        let ghost s1 = cs@.subrange(0, i + 1);
        let ghost k1 = k@.subrange(0, i + 1);
        assert(s1.drop_last() =~= s0);
        assert(k1.drop_last() =~= k0);
        let ghost g0 = group(s0, k0);
        match k[i] {
            None => {},
            Some(c) => {
                if i > 0 && k[i - 1] == Some(c) {
                    proof {
                        lemma_group_last(s0, k0);
                    }
                    let ghost prev = out@;
                    let mut last = out.pop().unwrap();
                    last.1.push(cs[i]);
                    out.push(last);
                    assert forall|j: int| 0 <= j < out.len() implies (#[trigger] out@[j]).0 == group(
                        s1,
                        k1,
                    )[j].0 && out@[j].1@ == group(s1, k1)[j].1 by {
                        if j < out.len() - 1 {
                            assert(out@[j] == prev[j]);
                        }
                    }
                } else {
                    let mut v: Vec<char> = Vec::new();
                    v.push(cs[i]);
                    out.push((c, v));
                    assert(v@ =~= seq![cs@[i as int]]);
                }
            },
        }
        i = i + 1;
    }
    assert(cs@.subrange(0, cs.len() as int) =~= cs@);
    assert(k@.subrange(0, k.len() as int) =~= k@);
    out
}

/// The script class of a run of text.
#[derive(Clone, Copy, Debug, PartialEq, Eq, Structural)]
pub enum Script {
    /// CJK unified ideographs.
    Han,
    /// Full-width punctuation, brackets, ellipsis and the ideographic space.
    CjkPunct,
    /// Basic Latin: ASCII letters, digits, punctuation and whitespace.
    Other,
}

/// Whether `c` is a CJK unified ideograph of the basic block.
pub open spec fn is_han(c: char) -> bool {
    '\u{4E00}' <= c <= '\u{9FFF}'
}

/// Whether `c` is one of the full-width punctuation scalars that form their own runs.
pub open spec fn is_cjk_punct(c: char) -> bool {
    c == '，' || c == '。' || c == '：' || c == '·' || c == '？' || c == '、' || c == '！' || c == '《'
        || c == '》' || c == '（' || c == '）' || c == '【' || c == '】' || c == '〖' || c == '〗'
        || c == '〔' || c == '〕' || c == '“' || c == '”' || c == '‘' || c == '’' || c == '〈'
        || c == '〉' || c == '…' || c == '—' || c == '\u{3000}'
}

/// Whether `c` is in the Basic Latin block.
pub open spec fn is_basic_latin(c: char) -> bool {
    c <= '\u{7F}'
}

/// The class code of a scalar for script classification; none for scalars of
/// other scripts, which classification drops.
pub open spec fn script_code(c: char) -> Option<u8> {
    if is_han(c) {
        Some(0)
    } else if is_cjk_punct(c) {
        Some(1)
    } else if is_basic_latin(c) {
        Some(2)
    } else {
        None
    }
}

pub open spec fn script_of_code(k: u8) -> Script {
    if k == 0 {
        Script::Han
    } else if k == 1 {
        Script::CjkPunct
    } else {
        Script::Other
    }
}

/// The maximal same-script runs of `s`, in order, with the scalars of no class left out.
pub open spec fn script_runs(s: Seq<char>) -> Seq<(u8, Seq<char>)> {
    group(s, s.map_values(|c: char| script_code(c)))
}

fn script_code_exec(c: char) -> (r: Option<u8>)
    ensures
        r == script_code(c),
{
    if '\u{4E00}' <= c && c <= '\u{9FFF}' {
        Some(0)
    } else {
        match c {
            '，' | '。' | '：' | '·' | '？' | '、' | '！' | '《' | '》' | '（' | '）' | '【' | '】' | '〖'
            | '〗' | '〔' | '〕' | '“' | '”' | '‘' | '’' | '〈' | '〉' | '…' | '—' | '\u{3000}' => Some(1),
            _ => if c <= '\u{7F}' {
                Some(2)
            } else {
                None
            },
        }
    }
}

/// One run of the script classifier.
pub struct Run {
    pub script: Script,
    pub text: String,
}

/// Partitions text into its maximal runs of Han ideographs, CJK punctuation and
/// Basic Latin, in order; scalars of any other script are dropped.
pub fn split_runs(text: &str) -> (r: Vec<Run>)
    ensures
        r.len() == script_runs(text@).len(),
        forall|i: int|
            0 <= i < r.len() ==> (#[trigger] r@[i]).script == script_of_code(script_runs(text@)[i].0)
                && r@[i].text@ == script_runs(text@)[i].1,
{
    let cs = chars_of(text);
    let mut k: Vec<Option<u8>> = Vec::new();
    let mut i: usize = 0;
    while i < cs.len()
        invariant
            i <= cs.len(),
            k.len() == i,
            forall|j: int| 0 <= j < i ==> k@[j] == script_code(#[trigger] cs@[j]),
        decreases cs.len() - i,
    {
        k.push(script_code_exec(cs[i]));
        i = i + 1;
    }
    assert(k@ =~= text@.map_values(|c: char| script_code(c)));
    let g = group_runs(&cs, &k);
    let mut out: Vec<Run> = Vec::new();
    let mut j: usize = 0;
    while j < g.len()
        invariant
            j <= g.len(),
            g.len() == script_runs(text@).len(),
            forall|t: int|
                0 <= t < g.len() ==> (#[trigger] g@[t]).0 == script_runs(text@)[t].0 && g@[t].1@
                    == script_runs(text@)[t].1,
            out.len() == j,
            forall|t: int|
                0 <= t < j ==> (#[trigger] out@[t]).script == script_of_code(script_runs(text@)[t].0)
                    && out@[t].text@ == script_runs(text@)[t].1,
        decreases g.len() - j,
    {
        let code = g[j].0;
        let script = if code == 0 {
            Script::Han
        } else if code == 1 {
            Script::CjkPunct
        } else {
            Script::Other
        };
        out.push(Run { script, text: string_of(&g[j].1) });
        j = j + 1;
    }
    out
}

/// The script runs hold, in order, every scalar of the text that has a script
/// class, and nothing else: classification leaves no gap but the dropped scalars.
pub proof fn lemma_script_runs_cover(s: Seq<char>)
    ensures
        runs_text(script_runs(s)) == s.filter(|c: char| script_code(c) is Some),
{
    let f = |c: char| script_code(c);
    lemma_group_covers(s, f);
    assert(s.filter(|c: char| f(c) is Some) =~= s.filter(|c: char| script_code(c) is Some)) by {
        lemma_filter_ext(s, |c: char| f(c) is Some, |c: char| script_code(c) is Some);
    }
}

proof fn lemma_filter_ext(s: Seq<char>, a: spec_fn(char) -> bool, b: spec_fn(char) -> bool)
    requires
        forall|c: char| #[trigger] a(c) == b(c),
    ensures
        s.filter(a) == s.filter(b),
    decreases s.len(),
{
    reveal(Seq::filter);
    if s.len() > 0 {
        lemma_filter_ext(s.drop_last(), a, b);
    }
}

proof fn lemma_filter_all(s: Seq<char>, a: spec_fn(char) -> bool)
    requires
        forall|c: char| #[trigger] a(c),
    ensures
        s.filter(a) == s,
    decreases s.len(),
{
    reveal(Seq::filter);
    if s.len() > 0 {
        lemma_filter_all(s.drop_last(), a);
        assert(s.drop_last().push(s.last()) =~= s);
    }
}

/// Whether `c` is a word scalar of Basic Latin text: an ASCII letter or digit, or the underscore.
pub open spec fn is_word_char(c: char) -> bool {
    ('a' <= c <= 'z') || ('A' <= c <= 'Z') || ('0' <= c <= '9') || c == '_'
}

/// The alternating maximal runs of word and non-word scalars of `s`.
pub open spec fn word_runs(s: Seq<char>) -> Seq<(u8, Seq<char>)> {
    group(s, s.map_values(|c: char| Some(if is_word_char(c) { 1u8 } else { 0u8 })))
}

/// Word splitting loses nothing: its pieces, joined in order, give the text back.
pub proof fn lemma_word_runs_cover(s: Seq<char>)
    ensures
        runs_text(word_runs(s)) == s,
{
    let f = |c: char| Some(if is_word_char(c) { 1u8 } else { 0u8 });
    lemma_group_covers(s, f);
    lemma_filter_all(s, |c: char| f(c) is Some);
}

/// Whether a piece of Latin text is phonemized as a word: it starts with a letter,
/// an apostrophe, an underscore or a hyphen.
pub open spec fn starts_word(t: Seq<char>) -> bool {
    t.len() > 0 && (t[0] == '\'' || t[0] == '_' || t[0] == '-' || ('a' <= t[0] <= 'z') || ('A'
        <= t[0] <= 'Z'))
}

/// A piece of a Basic Latin run.
pub enum Piece {
    /// Text to phonemize as an English word (or, once phonemized, its phonemes).
    Word(String),
    /// Text passed through as it is.
    Gap(String),
}

pub open spec fn piece_text(p: Piece) -> Seq<char> {
    match p {
        Piece::Word(t) => t@,
        Piece::Gap(t) => t@,
    }
}

/// Splits a Basic Latin run into its maximal word and non-word pieces, in order,
/// and marks the pieces that are phonemized as words.
pub fn split_words(text: &str) -> (r: Vec<Piece>)
    ensures
        r.len() == word_runs(text@).len(),
        forall|i: int|
            0 <= i < r.len() ==> piece_text(#[trigger] r@[i]) == word_runs(text@)[i].1 && (r@[i] is Word
                <==> starts_word(word_runs(text@)[i].1)),
{
    let cs = chars_of(text);
    let mut k: Vec<Option<u8>> = Vec::new();
    let mut i: usize = 0;
    while i < cs.len()
        invariant
            i <= cs.len(),
            k.len() == i,
            forall|j: int|
                0 <= j < i ==> k@[j] == Some(if is_word_char(#[trigger] cs@[j]) { 1u8 } else { 0u8 }),
        decreases cs.len() - i,
    {
        let c = cs[i];
        let w = ('a' <= c && c <= 'z') || ('A' <= c && c <= 'Z') || ('0' <= c && c <= '9') || c == '_';
        k.push(Some(if w { 1u8 } else { 0u8 }));
        i = i + 1;
    }
    assert(k@ =~= text@.map_values(|c: char| Some(if is_word_char(c) { 1u8 } else { 0u8 })));
    let g = group_runs(&cs, &k);
    let mut out: Vec<Piece> = Vec::new();
    let mut j: usize = 0;
    while j < g.len()
        invariant
            j <= g.len(),
            g.len() == word_runs(text@).len(),
            forall|t: int|
                0 <= t < g.len() ==> (#[trigger] g@[t]).1@ == word_runs(text@)[t].1,
            out.len() == j,
            forall|t: int|
                0 <= t < j ==> piece_text(#[trigger] out@[t]) == word_runs(text@)[t].1 && (out@[t] is Word
                    <==> starts_word(word_runs(text@)[t].1)),
        decreases g.len() - j,
    {
        let piece = &g[j].1;
        let word = piece.len() > 0 && {
            let c = piece[0];
            c == '\'' || c == '_' || c == '-' || ('a' <= c && c <= 'z') || ('A' <= c && c <= 'Z')
        };
        let t = string_of(piece);
        if word {
            out.push(Piece::Word(t));
        } else {
            out.push(Piece::Gap(t));
        }
        j = j + 1;
    }
    out
}

} // verus!
