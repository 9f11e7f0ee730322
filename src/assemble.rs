use vstd::prelude::*;

use crate::punct::{half_shape, to_half_shape};
use crate::runs::{piece_text, Piece};
use crate::text::{chars_of, push_str, string_of};
use crate::zh::{lemma_concat_no_mark, SYLLABIC_MARK};

verus! {

/// Whether `c` is white space in the Unicode sense (the `White_Space` property).
pub open spec fn is_ws(c: char) -> bool {
    ('\t' <= c <= '\r') || c == ' ' || c == '\u{85}' || c == '\u{A0}' || c == '\u{1680}' || (
    '\u{2000}' <= c <= '\u{200A}') || c == '\u{2028}' || c == '\u{2029}' || c == '\u{202F}' || c
        == '\u{205F}' || c == '\u{3000}'
}

fn is_ws_exec(c: char) -> (r: bool)
    ensures
        r == is_ws(c),
{
    ('\t' <= c && c <= '\r') || c == ' ' || c == '\u{85}' || c == '\u{A0}' || c == '\u{1680}' || (
    '\u{2000}' <= c && c <= '\u{200A}') || c == '\u{2028}' || c == '\u{2029}' || c == '\u{202F}'
        || c == '\u{205F}' || c == '\u{3000}'
}

/// `s` without its trailing white space.
pub open spec fn trim_end(s: Seq<char>) -> Seq<char>
    decreases s.len(),
{
    if s.len() > 0 && is_ws(s.last()) {
        trim_end(s.drop_last())
    } else {
        s
    }
}

/// `s` without its leading white space.
pub open spec fn trim_start(s: Seq<char>) -> Seq<char>
    decreases s.len(),
{
    if s.len() > 0 && is_ws(s[0]) {
        trim_start(s.drop_first())
    } else {
        s
    }
}

/// Whether the last scalar of `s` is a sentence stop: `.`, `,`, `!` or `?`.
pub open spec fn ends_with_stop(s: Seq<char>) -> bool {
    s.len() > 0 && (s.last() == '.' || s.last() == ',' || s.last() == '!' || s.last() == '?')
}

pub open spec fn ends_with_space(s: Seq<char>) -> bool {
    s.len() > 0 && s.last() == ' '
}

/// A phonemized run, ready to be joined into the phoneme string.
pub enum Chunk {
    /// The phonemes of the words of a Han run, in order. The run is set off by one
    /// space from text before it that does not end in white space.
    Han(Vec<String>),
    /// A run of CJK punctuation, as classified.
    Punct(String),
    /// The pieces of a Basic Latin run, words already phonemized.
    Latin(Vec<Piece>),
}

/// What a Han run starts from: the text so far, with one space added when it ends
/// in something other than white space.
pub open spec fn han_lead(acc: Seq<char>) -> Seq<char> {
    if acc.len() > 0 && !is_ws(acc.last()) {
        acc.push(' ')
    } else {
        acc
    }
}

/// Han words: each word's phonemes followed by one space.
pub open spec fn append_han_spec(acc: Seq<char>, words: Seq<Seq<char>>) -> Seq<char>
    decreases words.len(),
{
    if words.len() == 0 {
        acc
    } else {
        append_han_spec(acc, words.drop_last()) + words.last().push(' ')
    }
}

/// Punctuation: trailing white space is dropped, then the normalized run and one space follow.
pub open spec fn append_punct_spec(acc: Seq<char>, t: Seq<char>) -> Seq<char> {
    trim_end(acc) + half_shape(t).push(' ')
}

/// One piece of Latin text. A word right after a sentence stop gets a space before
/// it, unless the text already ends in one; a gap that starts with a space loses
/// its leading white space when the text already ends in a space.
pub open spec fn append_piece_spec(acc: Seq<char>, p: Piece) -> Seq<char> {
    match p {
        Piece::Word(t) => if ends_with_stop(trim_end(acc)) && !ends_with_space(acc) {
            acc.push(' ') + t@
        } else {
            acc + t@
        },
        Piece::Gap(t) => if t@.len() > 0 && t@[0] == ' ' && ends_with_space(acc) {
            acc + trim_start(t@)
        } else {
            acc + t@
        },
    }
}

pub open spec fn append_latin_spec(acc: Seq<char>, ps: Seq<Piece>) -> Seq<char>
    decreases ps.len(),
{
    if ps.len() == 0 {
        acc
    } else {
        append_piece_spec(append_latin_spec(acc, ps.drop_last()), ps.last())
    }
}

pub open spec fn append_chunk_spec(acc: Seq<char>, c: Chunk) -> Seq<char> {
    match c {
        Chunk::Han(words) => if words.len() == 0 {
            acc
        } else {
            append_han_spec(han_lead(acc), words.deep_view())
        },
        Chunk::Punct(t) => append_punct_spec(acc, t@),
        Chunk::Latin(ps) => append_latin_spec(acc, ps@),
    }
}

pub open spec fn append_chunks_spec(cs: Seq<Chunk>) -> Seq<char>
    decreases cs.len(),
{
    if cs.len() == 0 {
        Seq::empty()
    } else {
        append_chunk_spec(append_chunks_spec(cs.drop_last()), cs.last())
    }
}

/// The phoneme string of a sequence of phonemized runs: the runs joined by the
/// spacing policy, without leading or trailing white space.
pub open spec fn assemble_spec(cs: Seq<Chunk>) -> Seq<char> {
    trim_start(trim_end(append_chunks_spec(cs)))
}

fn trim_end_in_place(out: &mut Vec<char>)
    ensures
        final(out)@ == trim_end(old(out)@),
{
    while out.len() > 0 && is_ws_exec(out[out.len() - 1])
        invariant
            trim_end(out@) == trim_end(old(out)@),
        decreases out.len(),
    {
        let ghost before = out@;
        out.pop();
        assert(out@ =~= before.drop_last());
    }
}

/// The scalars of `t` without their leading white space.
fn trim_start_chars(t: &Vec<char>) -> (r: Vec<char>)
    ensures
        r@ == trim_start(t@),
{
    let mut i: usize = 0;
    assert(t@.skip(0) =~= t@);
    while i < t.len() && is_ws_exec(t[i])
        invariant
            i <= t.len(),
            trim_start(t@.skip(i as int)) == trim_start(t@),
        decreases t.len() - i,
    {
        assert(t@.skip(i as int).drop_first() =~= t@.skip(i + 1));
        i = i + 1;
    }
    let mut r: Vec<char> = Vec::new();
    let mut j: usize = i;
    while j < t.len()
        invariant
            i <= j <= t.len(),
            r@ == t@.subrange(i as int, j as int),
        decreases t.len() - j,
    {
        r.push(t[j]);
        assert(r@ =~= t@.subrange(i as int, j + 1));
        j = j + 1;
    }
    assert(t@.skip(i as int) =~= t@.subrange(i as int, t.len() as int));
    r
}

fn append_han(out: &mut Vec<char>, words: &Vec<String>)
    ensures
        final(out)@ == append_han_spec(old(out)@, words.deep_view()),
{
    let mut i: usize = 0;
    while i < words.len()
        invariant
            i <= words.len(),
            out@ == append_han_spec(old(out)@, words.deep_view().subrange(0, i as int)),
        decreases words.len() - i,
    {
        let ghost wv = words.deep_view();
        assert(wv.subrange(0, i + 1).drop_last() =~= wv.subrange(0, i as int));
        push_str(out, words[i].as_str());
        out.push(' ');
        i = i + 1;
    }
    assert(words.deep_view().subrange(0, words.len() as int) =~= words.deep_view());
}

fn append_piece(out: &mut Vec<char>, p: &Piece)
    ensures
        final(out)@ == append_piece_spec(old(out)@, *p),
{
    let ends_space = out.len() > 0 && out[out.len() - 1] == ' ';
    match p {
        Piece::Word(t) => {
            let mut k: usize = out.len();
            assert(out@.subrange(0, k as int) =~= out@);
            while k > 0 && is_ws_exec(out[k - 1])
                invariant
                    k <= out.len(),
                    trim_end(out@.subrange(0, k as int)) == trim_end(out@),
                decreases k,
            {
                assert(out@.subrange(0, k as int).drop_last() =~= out@.subrange(0, k - 1));
                k = k - 1;
            }
            assert(trim_end(out@.subrange(0, k as int)) == out@.subrange(0, k as int));
            assert(out@.subrange(0, out.len() as int) =~= out@);
            let stop = k > 0 && {
                let c = out[k - 1];
                c == '.' || c == ',' || c == '!' || c == '?'
            };
            if stop && !ends_space {
                out.push(' ');
            }
            push_str(out, t.as_str());
        },
        Piece::Gap(t) => {
            let cs = chars_of(t.as_str());
            if cs.len() > 0 && cs[0] == ' ' && ends_space {
                let rest = trim_start_chars(&cs);
                let s = string_of(&rest);
                push_str(out, s.as_str());
            } else {
                push_str(out, t.as_str());
            }
        },
    }
}

fn append_latin(out: &mut Vec<char>, ps: &Vec<Piece>)
    ensures
        final(out)@ == append_latin_spec(old(out)@, ps@),
{
    let mut i: usize = 0;
    while i < ps.len()
        invariant
            i <= ps.len(),
            out@ == append_latin_spec(old(out)@, ps@.subrange(0, i as int)),
        decreases ps.len() - i,
    {
        assert(ps@.subrange(0, i + 1).drop_last() =~= ps@.subrange(0, i as int));
        append_piece(out, &ps[i]);
        i = i + 1;
    }
    assert(ps@.subrange(0, ps.len() as int) =~= ps@);
}

/// Joins phonemized runs into the phoneme string by the spacing policy, and trims it.
pub fn assemble(chunks: &Vec<Chunk>) -> (r: String)
    ensures
        r@ == assemble_spec(chunks@),
{
    let mut out: Vec<char> = Vec::new();
    let mut i: usize = 0;
    while i < chunks.len()
        invariant
            i <= chunks.len(),
            out@ == append_chunks_spec(chunks@.subrange(0, i as int)),
        decreases chunks.len() - i,
    {
        assert(chunks@.subrange(0, i + 1).drop_last() =~= chunks@.subrange(0, i as int));
        match &chunks[i] {
            Chunk::Han(words) => {
                if words.len() > 0 {
                    if out.len() > 0 && !is_ws_exec(out[out.len() - 1]) {
                        out.push(' ');
                    }
                    append_han(&mut out, words);
                }
            },
            Chunk::Punct(t) => {
                trim_end_in_place(&mut out);
                let h = to_half_shape(t.as_str());
                push_str(&mut out, h.as_str());
                out.push(' ');
            },
            Chunk::Latin(ps) => append_latin(&mut out, ps),
        }
        i = i + 1;
    }
    assert(chunks@.subrange(0, chunks.len() as int) =~= chunks@);
    trim_end_in_place(&mut out);
    let trimmed = trim_start_chars(&out);
    string_of(&trimmed)
}

/// Whether `s` is free of the syllabicity mark.
pub open spec fn mark_free(s: Seq<char>) -> bool {
    !s.contains(SYLLABIC_MARK)
}

/// Every text that a chunk contributes is free of the syllabicity mark.
pub open spec fn chunk_mark_free(c: Chunk) -> bool {
    match c {
        Chunk::Han(words) => forall|i: int|
            0 <= i < words.len() ==> mark_free(#[trigger] words@[i]@),
        Chunk::Punct(t) => mark_free(t@),
        Chunk::Latin(ps) => forall|i: int|
            0 <= i < ps.len() ==> mark_free(piece_text(#[trigger] ps@[i])),
    }
}

proof fn lemma_subrange_mark_free(s: Seq<char>, i: int, j: int)
    requires
        mark_free(s),
        0 <= i <= j <= s.len(),
    ensures
        mark_free(s.subrange(i, j)),
{
    if s.subrange(i, j).contains(SYLLABIC_MARK) {
        let k = choose|k: int| 0 <= k < j - i && s.subrange(i, j)[k] == SYLLABIC_MARK;
        assert(s[i + k] == SYLLABIC_MARK);
    }
}

proof fn lemma_trim_end_mark_free(s: Seq<char>)
    requires
        mark_free(s),
    ensures
        mark_free(trim_end(s)),
    decreases s.len(),
{
    if s.len() > 0 && is_ws(s.last()) {
        lemma_subrange_mark_free(s, 0, s.len() - 1);
        lemma_trim_end_mark_free(s.drop_last());
    }
}

proof fn lemma_trim_start_mark_free(s: Seq<char>)
    requires
        mark_free(s),
    ensures
        mark_free(trim_start(s)),
    decreases s.len(),
{
    if s.len() > 0 && is_ws(s[0]) {
        lemma_subrange_mark_free(s, 1, s.len() as int);
        assert(s.drop_first() =~= s.subrange(1, s.len() as int));
        lemma_trim_start_mark_free(s.drop_first());
    }
}

proof fn lemma_push_space_mark_free(s: Seq<char>)
    requires
        mark_free(s),
    ensures
        mark_free(s.push(' ')),
{
    assert(mark_free(seq![' '])) by {
        if seq![' '].contains(SYLLABIC_MARK) {
            assert(seq![' '][0] == ' ');
        }
    }
    lemma_concat_no_mark(s, seq![' ']);
    assert(s.push(' ') =~= s + seq![' ']);
}

proof fn lemma_half_shape_mark_free(t: Seq<char>)
    requires
        mark_free(t),
    ensures
        mark_free(half_shape(t)),
{
    if half_shape(t).contains(SYLLABIC_MARK) {
        let k = choose|k: int| 0 <= k < half_shape(t).len() && half_shape(t)[k] == SYLLABIC_MARK;
        assert(t[k] == SYLLABIC_MARK);
    }
}

proof fn lemma_chunk_mark_free(acc: Seq<char>, c: Chunk)
    requires
        mark_free(acc),
        chunk_mark_free(c),
    ensures
        mark_free(append_chunk_spec(acc, c)),
{
    match c {
        Chunk::Han(words) => {
            let wv = words.deep_view();
            assert forall|i: int| 0 <= i < wv.len() implies mark_free(#[trigger] wv[i]) by {
                assert(wv[i] == words@[i]@);
            }
            if words.len() > 0 {
                if acc.len() > 0 && !is_ws(acc.last()) {
                    lemma_push_space_mark_free(acc);
                }
                lemma_han_mark_free(han_lead(acc), wv);
            }
        },
        Chunk::Punct(t) => {
            lemma_trim_end_mark_free(acc);
            lemma_half_shape_mark_free(t@);
            lemma_push_space_mark_free(half_shape(t@));
            lemma_concat_no_mark(trim_end(acc), half_shape(t@).push(' '));
        },
        Chunk::Latin(ps) => {
            lemma_latin_mark_free(acc, ps@);
        },
    }
}

proof fn lemma_han_mark_free(acc: Seq<char>, words: Seq<Seq<char>>)
    requires
        mark_free(acc),
        forall|i: int| 0 <= i < words.len() ==> mark_free(#[trigger] words[i]),
    ensures
        mark_free(append_han_spec(acc, words)),
    decreases words.len(),
{
    if words.len() > 0 {
        let q = words.drop_last();
        assert forall|i: int| 0 <= i < q.len() implies mark_free(#[trigger] q[i]) by {
            assert(q[i] == words[i]);
        }
        lemma_han_mark_free(acc, q);
        lemma_push_space_mark_free(words.last());
        lemma_concat_no_mark(append_han_spec(acc, q), words.last().push(' '));
    }
}

proof fn lemma_latin_mark_free(acc: Seq<char>, ps: Seq<Piece>)
    requires
        mark_free(acc),
        forall|i: int| 0 <= i < ps.len() ==> mark_free(piece_text(#[trigger] ps[i])),
    ensures
        mark_free(append_latin_spec(acc, ps)),
    decreases ps.len(),
{
    if ps.len() > 0 {
        let q = ps.drop_last();
        assert forall|i: int| 0 <= i < q.len() implies mark_free(piece_text(#[trigger] q[i])) by {
            assert(q[i] == ps[i]);
        }
        lemma_latin_mark_free(acc, q);
        let a = append_latin_spec(acc, q);
        let t = piece_text(ps.last());
        assert(mark_free(piece_text(ps[ps.len() - 1])));
        match ps.last() {
            Piece::Word(w) => {
                lemma_push_space_mark_free(a);
                lemma_concat_no_mark(a.push(' '), t);
                lemma_concat_no_mark(a, t);
            },
            Piece::Gap(g) => {
                lemma_trim_start_mark_free(t);
                lemma_concat_no_mark(a, trim_start(t));
                lemma_concat_no_mark(a, t);
            },
        }
    }
}

proof fn lemma_chunks_mark_free(cs: Seq<Chunk>)
    requires
        forall|i: int| 0 <= i < cs.len() ==> chunk_mark_free(#[trigger] cs[i]),
    ensures
        mark_free(append_chunks_spec(cs)),
    decreases cs.len(),
{
    if cs.len() == 0 {
        assert(mark_free(Seq::<char>::empty()));
    } else {
        let q = cs.drop_last();
        assert forall|i: int| 0 <= i < q.len() implies chunk_mark_free(#[trigger] q[i]) by {
            assert(q[i] == cs[i]);
        }
        lemma_chunks_mark_free(q);
        assert(chunk_mark_free(cs[cs.len() - 1]));
        lemma_chunk_mark_free(append_chunks_spec(q), cs.last());
    }
}

/// The phoneme string carries no syllabicity mark when none of the texts it is
/// joined from does; the Chinese phonemizer's words never do.
pub proof fn lemma_assemble_mark_free(cs: Seq<Chunk>)
    requires
        forall|i: int| 0 <= i < cs.len() ==> chunk_mark_free(#[trigger] cs[i]),
    ensures
        mark_free(assemble_spec(cs)),
{
    lemma_chunks_mark_free(cs);
    lemma_trim_end_mark_free(append_chunks_spec(cs));
    lemma_trim_start_mark_free(trim_end(append_chunks_spec(cs)));
}

proof fn lemma_trim_end_ends(s: Seq<char>)
    ensures
        trim_end(s).len() > 0 ==> !is_ws(trim_end(s).last()),
    decreases s.len(),
{
    if s.len() > 0 && is_ws(s.last()) {
        lemma_trim_end_ends(s.drop_last());
    }
}

proof fn lemma_trim_start_ends(s: Seq<char>)
    ensures
        trim_start(s).len() > 0 ==> !is_ws(trim_start(s)[0]) && trim_start(s).last() == s.last(),
    decreases s.len(),
{
    if s.len() > 0 && is_ws(s[0]) {
        lemma_trim_start_ends(s.drop_first());
    }
}

/// The phoneme string neither starts nor ends with white space.
pub proof fn lemma_assemble_trimmed(cs: Seq<Chunk>)
    ensures
        assemble_spec(cs).len() > 0 ==> !is_ws(assemble_spec(cs)[0]) && !is_ws(
            assemble_spec(cs).last(),
        ),
{
    let t = trim_end(append_chunks_spec(cs));
    lemma_trim_end_ends(append_chunks_spec(cs));
    lemma_trim_start_ends(t);
}

} // verus!
