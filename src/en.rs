use vstd::prelude::*;

use crate::text::push_str;

verus! {

#[verifier::external_type_specification]
#[verifier::external_body]
pub struct ExCmudict(cmudict_fast::Cmudict);

/// What a pronunciation dictionary holds: for each word, its pronunciations, each
/// the list of its phonetic codes as the dictionary writes them (`HH`, `AH0`, ...).
pub uninterp spec fn dictionary_entries(d: cmudict_fast::Cmudict) -> Map<
    Seq<char>,
    Seq<Seq<Seq<char>>>,
>;

/// Relies on `Cmudict::get`, `Rule::pronunciation` and the `Display` of `Symbol`:
/// the pronunciations stored under exactly this word, each as its codes, in order.
#[verifier::external_body]
fn dictionary_lookup(d: &cmudict_fast::Cmudict, word: &str) -> (r: Option<Vec<Vec<String>>>)
    ensures
        r is Some <==> dictionary_entries(*d).contains_key(word@),
        r is Some ==> r->0.deep_view() == dictionary_entries(*d)[word@],
{
    d.get(word).map(
        |rules| rules.iter().map(|r| r.pronunciation().iter().map(|s| s.to_string()).collect()).collect(),
    )
}

/// Relies on `rand::random_range` over `0..n`: a uniformly drawn index below `n`.
#[verifier::external_body]
fn random_index(n: usize) -> (r: usize)
    requires
        n > 0,
    ensures
        r < n,
{
    rand::random_range(0..n)
}

/// The IPA of one phonetic code: the first entry of `table` for that code, or
/// nothing when the table has none.
pub open spec fn code_ipa(table: Seq<(Seq<char>, Seq<char>)>, code: Seq<char>) -> Seq<char>
    decreases table.len(),
{
    if table.len() == 0 {
        Seq::empty()
    } else if table[0].0 == code {
        table[0].1
    } else {
        code_ipa(table.drop_first(), code)
    }
}

/// The IPA of a list of codes, each translated on its own, joined.
pub open spec fn codes_ipa(table: Seq<(Seq<char>, Seq<char>)>, codes: Seq<Seq<char>>) -> Seq<char>
    decreases codes.len(),
{
    if codes.len() == 0 {
        Seq::empty()
    } else {
        codes_ipa(table, codes.drop_last()) + code_ipa(table, codes.last())
    }
}

/// The phonemes of a dictionary word: the pronunciation numbered `pick`, translated
/// code by code; the word itself when the dictionary lists no pronunciation.
pub open spec fn pronounce_spec(
    variants: Seq<Seq<Seq<char>>>,
    table: Seq<(Seq<char>, Seq<char>)>,
    word: Seq<char>,
    pick: int,
) -> Seq<char> {
    if variants.len() == 0 {
        word
    } else {
        codes_ipa(table, variants[pick])
    }
}

pub open spec fn table_view(table: Seq<(String, String)>) -> Seq<(Seq<char>, Seq<char>)> {
    table.map_values(|e: (String, String)| (e.0@, e.1@))
}

fn lookup_code(table: &Vec<(String, String)>, code: &String) -> (r: String)
    ensures
        r@ == code_ipa(table_view(table@), code@),
{
    let ghost tv = table_view(table@);
    let mut i: usize = 0;
    assert(tv.skip(0) =~= tv);
    while i < table.len()
        invariant
            i <= table.len(),
            tv == table_view(table@),
            code_ipa(tv.skip(i as int), code@) == code_ipa(tv, code@),
        decreases table.len() - i,
    {
        assert(tv.skip(i as int)[0] == (table@[i as int].0@, table@[i as int].1@));
        if table[i].0 == *code {
            return table[i].1.clone();
        }
        assert(tv.skip(i as int).drop_first() =~= tv.skip(i + 1));
        i = i + 1;
    }
    assert(tv.skip(table.len() as int) =~= Seq::<(Seq<char>, Seq<char>)>::empty());
    String::new()
}

/// The phonemes of a dictionary word from its pronunciations, with the one numbered
/// `pick` chosen: each of its phonetic codes is translated through `table` (a code
/// the table lacks adds nothing). A word listed with no pronunciation stands for itself.
pub fn pronounce(
    variants: &Vec<Vec<String>>,
    table: &Vec<(String, String)>,
    word: &str,
    pick: usize,
) -> (r: String)
    requires
        variants.len() > 0 ==> pick < variants.len(),
    ensures
        r@ == pronounce_spec(variants.deep_view(), table_view(table@), word@, pick as int),
{
    if variants.len() == 0 {
        return word.to_owned();
    }
    let codes = &variants[pick];
    let ghost cv = codes.deep_view();
    assert(cv == variants.deep_view()[pick as int]);
    let mut out: Vec<char> = Vec::new();
    let mut i: usize = 0;
    while i < codes.len()
        invariant
            i <= codes.len(),
            cv == codes.deep_view(),
            out@ == codes_ipa(table_view(table@), cv.subrange(0, i as int)),
        decreases codes.len() - i,
    {
        assert(cv.subrange(0, i + 1).drop_last() =~= cv.subrange(0, i as int));
        let t = lookup_code(table, &codes[i]);
        push_str(&mut out, t.as_str());
        i = i + 1;
    }
    assert(cv.subrange(0, codes.len() as int) =~= cv);
    crate::text::string_of(&out)
}

/// The phonemes that the dictionary gives a word, with the pronunciation numbered
/// `pick`; none when the word is not in the dictionary.
pub open spec fn dictionary_ipa(
    d: cmudict_fast::Cmudict,
    table: Seq<(Seq<char>, Seq<char>)>,
    word: Seq<char>,
    pick: int,
) -> Option<Seq<char>> {
    if dictionary_entries(d).contains_key(word) {
        Some(pronounce_spec(dictionary_entries(d)[word], table, word, pick))
    } else {
        None
    }
}

/// A draw among `n` pronunciations: an index below `n`, or zero when there is none.
pub open spec fn valid_pick(n: nat, pick: int) -> bool {
    0 <= pick && (pick < n || pick == 0)
}

/// Phonemizes an English word through the pronunciation dictionary, drawing one of
/// its pronunciations at random. None means the word is not in the dictionary, and
/// the letter-based engine has to spell it out.
pub fn word2ipa_en(
    dict: &cmudict_fast::Cmudict,
    word: &str,
    table: &Vec<(String, String)>,
) -> (r: Option<String>)
    ensures
        r is None <==> !dictionary_entries(*dict).contains_key(word@),
        r is Some ==> exists|pick: int|
            valid_pick(dictionary_entries(*dict)[word@].len(), pick) && dictionary_ipa(
                *dict,
                table_view(table@),
                word@,
                pick,
            ) == Some(r->0@),
{
    match dictionary_lookup(dict, word) {
        None => None,
        Some(variants) => {
            let pick = if variants.len() > 0 {
                random_index(variants.len())
            } else {
                0
            };
            let r = pronounce(&variants, table, word, pick);
            assert(dictionary_ipa(*dict, table_view(table@), word@, pick as int) == Some(r@));
            Some(r)
        },
    }
}

/// A word with a single pronunciation (or none) has one result whatever the draw:
/// any two results that `word2ipa_en` may give for it are equal. With the draw
/// pinned, `pronounce` is a function of its arguments alone.
pub proof fn lemma_single_pronunciation_fixed(
    d: cmudict_fast::Cmudict,
    table: Seq<(Seq<char>, Seq<char>)>,
    word: Seq<char>,
    r1: Seq<char>,
    r2: Seq<char>,
)
    requires
        dictionary_entries(d).contains_key(word),
        dictionary_entries(d)[word].len() <= 1,
        exists|p: int|
            valid_pick(dictionary_entries(d)[word].len(), p) && dictionary_ipa(d, table, word, p)
                == Some(r1),
        exists|q: int|
            valid_pick(dictionary_entries(d)[word].len(), q) && dictionary_ipa(d, table, word, q)
                == Some(r2),
    ensures
        r1 == r2,
{
    let p = choose|p: int|
        valid_pick(dictionary_entries(d)[word].len(), p) && dictionary_ipa(d, table, word, p)
            == Some(r1);
    let q = choose|q: int|
        valid_pick(dictionary_entries(d)[word].len(), q) && dictionary_ipa(d, table, word, q)
            == Some(r2);
    assert(p == 0 && q == 0);
}

} // verus!
