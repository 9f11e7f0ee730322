use pinyin::ToPinyin;
use vstd::prelude::*;

use crate::assemble::Chunk;
use crate::error::G2PError;
use crate::punct::{half_shape, to_half_shape};
use crate::text::{chars_of, push_str, string_of};

verus! {

/// Tone letters as the romanization table writes them.
pub const TONE_HIGH: char = '\u{02E5}';

pub const TONE_MID: char = '\u{02E7}';

pub const TONE_LOW: char = '\u{02E9}';

/// The combining syllabicity mark that compression folds away.
pub const SYLLABIC_MARK: char = '\u{0329}';

/// Retroflex and labiodental nasal bases that carry the syllabicity mark.
pub const RETROFLEX_APPROXIMANT: char = '\u{027B}';

pub const LABIODENTAL_NASAL: char = '\u{0271}';

/// What a marked syllabic consonant becomes.
pub const CLOSE_CENTRAL_VOWEL: char = '\u{0268}';

/// Whether `c` is a base that the syllabicity mark may follow.
pub open spec fn is_mark_base(c: char) -> bool {
    c == RETROFLEX_APPROXIMANT || c == LABIODENTAL_NASAL
}

/// Every syllabicity mark of `p` directly follows a base that it may follow.
pub open spec fn marks_attached(p: Seq<char>) -> bool {
    forall|i: int|
        0 <= i < p.len() && #[trigger] p[i] == SYLLABIC_MARK ==> i > 0 && is_mark_base(p[i - 1])
}

/// How many scalars the rule that applies at the start of `p` consumes, and the glyph it writes.
pub open spec fn retone_step(p: Seq<char>) -> (nat, char)
    recommends
        p.len() > 0,
{
    if p.len() >= 3 && p[0] == TONE_MID && p[1] == TONE_LOW && p[2] == TONE_MID {
        (3, '↓')
    } else if p.len() >= 2 && p[0] == TONE_MID && p[1] == TONE_HIGH {
        (2, '↗')
    } else if p.len() >= 2 && p[0] == TONE_HIGH && p[1] == TONE_LOW {
        (2, '↘')
    } else if p[0] == TONE_HIGH {
        (1, '→')
    } else if p.len() >= 2 && is_mark_base(p[0]) && p[1] == SYLLABIC_MARK {
        (2, CLOSE_CENTRAL_VOWEL)
    } else {
        (1, p[0])
    }
}

/// Tone-contour compression: the dipping contour, the rising and falling pairs and
/// the bare high tone each become one arrow glyph, and a marked syllabic consonant
/// becomes a vowel; every other scalar is kept. Rules are tried left to right, the
/// dipping contour first.
pub open spec fn retone_spec(p: Seq<char>) -> Seq<char>
    decreases p.len(),
{
    if p.len() == 0 {
        Seq::empty()
    } else {
        let (n, c) = retone_step(p);
        seq![c] + retone_spec(p.skip(n as int))
    }
}

proof fn lemma_retone_step_bounds(p: Seq<char>)
    requires
        p.len() > 0,
    ensures
        1 <= retone_step(p).0 <= p.len(),
{
}

/// Compression leaves no syllabicity mark behind when every mark of its input is attached.
pub proof fn lemma_retone_drops_mark(p: Seq<char>)
    requires
        marks_attached(p),
    ensures
        !retone_spec(p).contains(SYLLABIC_MARK),
    decreases p.len(),
{
    if p.len() > 0 {
        let (n, c) = retone_step(p);
        lemma_retone_step_bounds(p);
        let q = p.skip(n as int);
        assert forall|i: int| 0 <= i < q.len() && #[trigger] q[i] == SYLLABIC_MARK implies i > 0
            && is_mark_base(q[i - 1]) by {
            assert(q[i] == p[i + n]);
            assert(p[i + n] == SYLLABIC_MARK);
            if i == 0 {
                assert(is_mark_base(p[n - 1]));
            } else {
                assert(q[i - 1] == p[i + n - 1]);
            }
        }
        lemma_retone_drops_mark(q);
        let r = retone_spec(p);
        assert(r == seq![c] + retone_spec(q));
        if r.contains(SYLLABIC_MARK) {
            let k = choose|k: int| 0 <= k < r.len() && r[k] == SYLLABIC_MARK;
            if k > 0 {
                assert(retone_spec(q)[k - 1] == r[k]);
            }
        }
    }
}

/// Compresses the tone letters and marked syllabic consonants of one IPA run.
pub fn retone(p: &str) -> (r: String)
    requires
        marks_attached(p@),
    ensures
        r@ == retone_spec(p@),
        !r@.contains(SYLLABIC_MARK),
{
    let cs = chars_of(p);
    let n = cs.len();
    let mut out: Vec<char> = Vec::new();
    let mut i: usize = 0;
    assert(cs@.skip(0) =~= cs@);
    assert(out@ + retone_spec(cs@) =~= retone_spec(cs@));
    while i < n
        invariant
            n == cs.len(),
            cs@ == p@,
            i <= n,
            out@ + retone_spec(cs@.skip(i as int)) == retone_spec(cs@),
        decreases n - i,
    {
        let ghost rest = cs@.skip(i as int);
        let step: usize;
        let c: char;
        if n - i > 2 && cs[i] == TONE_MID && cs[i + 1] == TONE_LOW && cs[i + 2] == TONE_MID {
            step = 3;
            c = '↓';
        } else if n - i > 1 && cs[i] == TONE_MID && cs[i + 1] == TONE_HIGH {
            step = 2;
            c = '↗';
        } else if n - i > 1 && cs[i] == TONE_HIGH && cs[i + 1] == TONE_LOW {
            step = 2;
            c = '↘';
        } else if cs[i] == TONE_HIGH {
            step = 1;
            c = '→';
        } else if n - i > 1 && (cs[i] == RETROFLEX_APPROXIMANT || cs[i] == LABIODENTAL_NASAL)
            && cs[i + 1] == SYLLABIC_MARK {
            step = 2;
            c = CLOSE_CENTRAL_VOWEL;
        } else {
            step = 1;
            c = cs[i];
        }
        assert(retone_step(rest) == (step as nat, c));
        assert(rest.skip(step as int) =~= cs@.skip(i + step));
        assert(out@.push(c) + retone_spec(cs@.skip(i + step)) =~= out@ + retone_spec(rest));
        out.push(c);
        i = i + step;
    }
    assert(cs@.skip(n as int) =~= Seq::<char>::empty());
    assert(out@ =~= out@ + retone_spec(cs@.skip(n as int)));
    proof {
        lemma_retone_drops_mark(p@);
    }
    string_of(&out)
}

/// Scans a run for syllabicity marks that no base carries.
pub fn marks_are_attached(p: &str) -> (r: bool)
    ensures
        r == marks_attached(p@),
{
    let cs = chars_of(p);
    let mut i: usize = 0;
    while i < cs.len()
        invariant
            i <= cs.len(),
            cs@ == p@,
            forall|k: int|
                0 <= k < i && #[trigger] cs@[k] == SYLLABIC_MARK ==> k > 0 && is_mark_base(cs@[k - 1]),
        decreases cs.len() - i,
    {
        if cs[i] == SYLLABIC_MARK {
            if i == 0 {
                return false;
            }
            let b = cs[i - 1];
            if !(b == RETROFLEX_APPROXIMANT || b == LABIODENTAL_NASAL) {
                return false;
            }
        }
        i = i + 1;
    }
    true
}

/// The compressed runs of one pronunciation, joined without separator.
pub open spec fn retone_runs(runs: Seq<Seq<char>>) -> Seq<char>
    decreases runs.len(),
{
    if runs.len() == 0 {
        Seq::empty()
    } else {
        retone_runs(runs.drop_last()) + retone_spec(runs.last())
    }
}

/// The pronunciation variants that the romanization table gives for one syllable,
/// each a list of IPA runs, are usable when the runs of the first one keep their
/// syllabicity marks attached.
pub open spec fn variants_usable(variants: Seq<Seq<Seq<char>>>) -> bool {
    variants.len() > 0 ==> forall|j: int|
        0 <= j < variants[0].len() ==> marks_attached(#[trigger] variants[0][j])
}

/// The phonemes of one syllable: its first variant, compressed; none if the table gave no variant.
pub open spec fn py2ipa_spec(variants: Seq<Seq<Seq<char>>>) -> Option<Seq<char>> {
    if variants.len() == 0 {
        None
    } else {
        Some(retone_runs(variants[0]))
    }
}

/// Two strings without the syllabicity mark join into one without it.
pub proof fn lemma_concat_no_mark(a: Seq<char>, b: Seq<char>)
    requires
        !a.contains(SYLLABIC_MARK),
        !b.contains(SYLLABIC_MARK),
    ensures
        !(a + b).contains(SYLLABIC_MARK),
{
    if (a + b).contains(SYLLABIC_MARK) {
        let k = choose|k: int| 0 <= k < (a + b).len() && (a + b)[k] == SYLLABIC_MARK;
        if k < a.len() {
            assert(a[k] == (a + b)[k]);
        } else {
            assert(b[k - a.len()] == (a + b)[k]);
        }
    }
}

proof fn lemma_retone_runs_no_mark(runs: Seq<Seq<char>>)
    requires
        forall|j: int| 0 <= j < runs.len() ==> marks_attached(#[trigger] runs[j]),
    ensures
        !retone_runs(runs).contains(SYLLABIC_MARK),
    decreases runs.len(),
{
    if runs.len() > 0 {
        let q = runs.drop_last();
        assert forall|j: int| 0 <= j < q.len() implies marks_attached(#[trigger] q[j]) by {
            assert(q[j] == runs[j]);
        }
        lemma_retone_runs_no_mark(q);
        lemma_retone_drops_mark(runs.last());
        lemma_concat_no_mark(retone_runs(q), retone_spec(runs.last()));
    }
}

/// Turns the romanization table's answer for one syllable into its phonemes: the
/// runs of the first variant, each compressed, joined. No variant at all is an error.
pub fn py2ipa(variants: &Vec<Vec<String>>) -> (r: Result<String, G2PError>)
    requires
        variants_usable(variants.deep_view()),
    ensures
        r is Err <==> variants.len() == 0,
        r is Err ==> r == Err::<String, G2PError>(G2PError::EmptyPhonemeData),
        r is Ok ==> Some(r->Ok_0@) == py2ipa_spec(variants.deep_view()),
        r is Ok ==> !r->Ok_0@.contains(SYLLABIC_MARK),
{
    if variants.len() == 0 {
        return Err(G2PError::EmptyPhonemeData);
    }
    let first = &variants[0];
    let ghost runs = variants.deep_view()[0];
    assert(runs.len() == first.len());
    let mut out: Vec<char> = Vec::new();
    let mut j: usize = 0;
    while j < first.len()
        invariant
            j <= first.len(),
            runs == first.deep_view(),
            variants_usable(variants.deep_view()),
            runs == variants.deep_view()[0],
            variants.len() > 0,
            out@ == retone_runs(runs.subrange(0, j as int)),
        decreases first.len() - j,
    {
        assert(runs[j as int] == first[j as int]@);
        assert(marks_attached(runs[j as int]));
        let t = retone(first[j].as_str());
        push_str(&mut out, t.as_str());
        assert(runs.subrange(0, j + 1).drop_last() =~= runs.subrange(0, j as int));
        j = j + 1;
    }
    assert(runs.subrange(0, first.len() as int) =~= runs);
    proof {
        assert forall|i: int| 0 <= i < runs.len() implies marks_attached(#[trigger] runs[i]) by {}
        lemma_retone_runs_no_mark(runs);
    }
    Ok(string_of(&out))
}

/// What the Chinese phonemizer knows of one character of a word.
pub enum CharReading {
    /// The character has no romanized reading and stands for itself.
    Literal(char),
    /// The romanization table's answer for the character's toned syllable.
    Phonemes(Vec<Vec<String>>),
}

/// The phonemes of one character; none when the table gave no variant.
pub open spec fn reading_ipa(r: CharReading) -> Option<Seq<char>> {
    match r {
        CharReading::Literal(c) => Some(seq![c]),
        CharReading::Phonemes(v) => py2ipa_spec(v.deep_view()),
    }
}

/// A character reading that compression accepts.
pub open spec fn reading_usable(r: CharReading) -> bool {
    match r {
        CharReading::Literal(c) => c != SYLLABIC_MARK,
        CharReading::Phonemes(v) => variants_usable(v.deep_view()),
    }
}

/// The phonemes of a word, character by character; none if any character has none.
pub open spec fn word_ipa(rs: Seq<CharReading>) -> Option<Seq<char>>
    decreases rs.len(),
{
    if rs.len() == 0 {
        Some(Seq::empty())
    } else {
        match (word_ipa(rs.drop_last()), reading_ipa(rs.last())) {
            (Some(a), Some(b)) => Some(a + b),
            _ => None,
        }
    }
}

/// Phonemizes one word from the readings of its characters, in order. The first
/// character whose syllable has no phoneme variant makes the whole word fail.
pub fn word2ipa_zh(readings: &Vec<CharReading>) -> (r: Result<String, G2PError>)
    requires
        forall|i: int| 0 <= i < readings.len() ==> reading_usable(#[trigger] readings@[i]),
    ensures
        r is Err <==> word_ipa(readings@) is None,
        r is Err ==> r == Err::<String, G2PError>(G2PError::EmptyPhonemeData),
        r is Ok ==> word_ipa(readings@) == Some(r->Ok_0@),
        r is Ok ==> !r->Ok_0@.contains(SYLLABIC_MARK),
{
    let mut out: Vec<char> = Vec::new();
    let mut i: usize = 0;
    while i < readings.len()
        invariant
            i <= readings.len(),
            forall|k: int| 0 <= k < readings.len() ==> reading_usable(#[trigger] readings@[k]),
            word_ipa(readings@.subrange(0, i as int)) == Some(out@),
            !out@.contains(SYLLABIC_MARK),
        decreases readings.len() - i,
    {
        let ghost pre = readings@.subrange(0, i as int);
        assert(readings@.subrange(0, i + 1).drop_last() =~= pre);
        assert(readings@.subrange(0, i + 1).last() == readings@[i as int]);
        assert(reading_usable(readings@[i as int]));
        match &readings[i] {
            CharReading::Literal(c) => {
                let ghost before = out@;
                out.push(*c);
                proof {
                    assert(!seq![*c].contains(SYLLABIC_MARK)) by {
                        if seq![*c].contains(SYLLABIC_MARK) {
                            assert(seq![*c][0] == *c);
                        }
                    }
                    lemma_concat_no_mark(before, seq![*c]);
                    assert(out@ =~= before + seq![*c]);
                }
            },
            CharReading::Phonemes(v) => {
                match py2ipa(v) {
                    Ok(t) => {
                        let ghost before = out@;
                        push_str(&mut out, t.as_str());
                        proof {
                            lemma_concat_no_mark(before, t@);
                        }
                    },
                    Err(e) => {
                        proof {
                            lemma_word_ipa_fails(readings@, i as int);
                        }
                        return Err(e);
                    },
                }
            },
        }
        i = i + 1;
    }
    assert(readings@.subrange(0, readings.len() as int) =~= readings@);
    Ok(string_of(&out))
}

/// A word whose characters up to `i` leave no phonemes has none as a whole.
proof fn lemma_word_ipa_fails(rs: Seq<CharReading>, i: int)
    requires
        0 <= i < rs.len(),
        reading_ipa(rs[i]) is None,
    ensures
        word_ipa(rs) is None,
    decreases rs.len(),
{
    if i < rs.len() - 1 {
        assert(rs.drop_last()[i] == rs[i]);
        lemma_word_ipa_fails(rs.drop_last(), i);
    }
}

/// A toned reading of a character as the pinyin crate writes it: the syllable in
/// plain letters with the tone number at its end.
pub uninterp spec fn pinyin_reading(c: char) -> Option<Seq<char>>;

/// Relies on pinyin's `ToPinyin for char` and `Pinyin::with_tone_num_end`: the toned
/// reading of a character, if the crate's table has one.
#[verifier::external_body]
fn toned_syllable(c: char) -> (r: Option<String>)
    ensures
        r is None <==> pinyin_reading(c) is None,
        r is Some ==> pinyin_reading(c) == Some(r->0@),
{
    match c.to_pinyin() {
        Some(p) => Some(p.with_tone_num_end().to_string()),
        None => None,
    }
}

/// A character of a word as romanization sees it.
pub enum Syllable {
    /// A character without a romanized reading.
    Literal(char),
    /// The toned reading of a character, tone number last (`hao3`).
    Toned(String),
}

/// The syllable of the character `c`.
pub open spec fn syllable_of(s: Syllable, c: char) -> bool {
    match s {
        Syllable::Literal(d) => d == c && pinyin_reading(c) is None,
        Syllable::Toned(t) => pinyin_reading(c) == Some(t@),
    }
}

fn syllable(c: char) -> (r: Syllable)
    ensures
        syllable_of(r, c),
{
    match toned_syllable(c) {
        Some(t) => Syllable::Toned(t),
        None => Syllable::Literal(c),
    }
}

/// The syllable of each character of a word, in order.
pub fn char_readings(word: &str) -> (r: Vec<Syllable>)
    ensures
        r.len() == word@.len(),
        forall|i: int| 0 <= i < r.len() ==> syllable_of(#[trigger] r@[i], word@[i]),
{
    let cs = chars_of(word);
    let mut out: Vec<Syllable> = Vec::new();
    let mut i: usize = 0;
    while i < cs.len()
        invariant
            i <= cs.len(),
            cs@ == word@,
            out.len() == i,
            forall|k: int| 0 <= k < i ==> syllable_of(#[trigger] out@[k], word@[k]),
        decreases cs.len() - i,
    {
        out.push(syllable(cs[i]));
        i = i + 1;
    }
    out
}

/// The words that the jieba segmenter, with its built-in dictionary and the hidden
/// Markov model for unknown words, cuts a sentence into.
pub uninterp spec fn segmentation(s: Seq<char>) -> Seq<Seq<char>>;

#[verifier::external_type_specification]
#[verifier::external_body]
pub struct ExJieba(jieba_rs::Jieba);

/// The word segmenter: jieba with its built-in dictionary. Loading the dictionary
/// is costly, so one segmenter is built and shared.
pub struct Segmenter {
    jieba: jieba_rs::Jieba,
}

/// Relies on `jieba_rs::Jieba::new`: a segmenter loaded with the built-in dictionary.
#[verifier::external_body]
fn default_jieba() -> jieba_rs::Jieba {
    jieba_rs::Jieba::new()
}

/// Relies on `Jieba::cut` with the hidden Markov model on: the words of the
/// sentence, in order. A `Segmenter` is only ever built by `Segmenter::new`, so its
/// jieba holds the built-in dictionary.
#[verifier::external_body]
fn cut_words(seg: &Segmenter, s: &str) -> (r: Vec<String>)
    ensures
        r.deep_view() == segmentation(s@),
{
    seg.jieba.cut(s, true).into_iter().map(|w| w.to_string()).collect()
}

impl Segmenter {
    /// Builds the segmenter.
    pub fn new() -> Segmenter {
        Segmenter { jieba: default_jieba() }
    }
}

/// The words of a Han run: its punctuation normalized, then cut by the segmenter.
pub fn han_words(seg: &Segmenter, run: &str) -> (r: Vec<String>)
    ensures
        r.deep_view() == segmentation(half_shape(run@)),
{
    let t = to_half_shape(run);
    cut_words(seg, t.as_str())
}

/// The phonemes of each word of a Han run, when every word has them.
pub open spec fn words_ipa(words: Seq<Vec<CharReading>>) -> Option<Seq<Seq<char>>>
    decreases words.len(),
{
    if words.len() == 0 {
        Some(Seq::empty())
    } else {
        match (words_ipa(words.drop_last()), word_ipa(words.last()@)) {
            (Some(a), Some(b)) => Some(a.push(b)),
            _ => None,
        }
    }
}

/// Phonemizes the words of a Han run, each from the readings of its characters.
/// The first word that fails makes the whole run fail.
pub fn han_chunk(words: &Vec<Vec<CharReading>>) -> (r: Result<Chunk, G2PError>)
    requires
        forall|w: int, i: int|
            0 <= w < words.len() && 0 <= i < words@[w].len() ==> reading_usable(
                #[trigger] words@[w]@[i],
            ),
    ensures
        r is Err <==> words_ipa(words@) is None,
        r is Err ==> r == Err::<Chunk, G2PError>(G2PError::EmptyPhonemeData),
        r is Ok ==> (match r->Ok_0 {
            Chunk::Han(ws) => words_ipa(words@) == Some(ws.deep_view()),
            _ => false,
        }),
{
    let mut out: Vec<String> = Vec::new();
    let mut i: usize = 0;
    while i < words.len()
        invariant
            i <= words.len(),
            forall|w: int, k: int|
                0 <= w < words.len() && 0 <= k < words@[w].len() ==> reading_usable(
                    #[trigger] words@[w]@[k],
                ),
            words_ipa(words@.subrange(0, i as int)) == Some(out.deep_view()),
        decreases words.len() - i,
    {
        assert(words@.subrange(0, i + 1).drop_last() =~= words@.subrange(0, i as int));
        assert(words@.subrange(0, i + 1).last() == words@[i as int]);
        assert(forall|k: int| 0 <= k < words@[i as int].len() ==> reading_usable(
            #[trigger] words@[i as int]@[k],
        ));
        match word2ipa_zh(&words[i]) {
            Ok(t) => {
                let ghost before = out.deep_view();
                out.push(t);
                assert(out.deep_view() =~= before.push(t@));
            },
            Err(e) => {
                proof {
                    lemma_words_ipa_fails(words@, i as int);
                }
                return Err(e);
            },
        }
        i = i + 1;
    }
    assert(words@.subrange(0, words.len() as int) =~= words@);
    Ok(Chunk::Han(out))
}

/// A run with a word that has no phonemes has none as a whole.
proof fn lemma_words_ipa_fails(ws: Seq<Vec<CharReading>>, i: int)
    requires
        0 <= i < ws.len(),
        word_ipa(ws[i]@) is None,
    ensures
        words_ipa(ws) is None,
    decreases ws.len(),
{
    if i < ws.len() - 1 {
        assert(ws.drop_last()[i] == ws[i]);
        lemma_words_ipa_fails(ws.drop_last(), i);
    }
}

} // verus!
