use vstd::prelude::*;

use crate::text::{chars_of, string_of};

verus! {

/// The half-width form of one scalar: guillemets and double angle brackets become
/// curly quotation marks, full-width brackets and sentence punctuation their ASCII
/// forms (the enumeration comma a plain comma); every other scalar stays.
pub open spec fn half_char(c: char) -> char {
    if c == '«' || c == '《' {
        '“'
    } else if c == '»' || c == '》' {
        '”'
    } else if c == '（' {
        '('
    } else if c == '）' {
        ')'
    } else if c == '、' || c == '，' {
        ','
    } else if c == '。' {
        '.'
    } else if c == '！' {
        '!'
    } else if c == '：' {
        ':'
    } else if c == '；' {
        ';'
    } else if c == '？' {
        '?'
    } else {
        c
    }
}

/// Punctuation normalization of a whole string, scalar by scalar.
pub open spec fn half_shape(s: Seq<char>) -> Seq<char> {
    s.map_values(|c: char| half_char(c))
}

fn half_char_exec(c: char) -> (r: char)
    ensures
        r == half_char(c),
{
    match c {
        '«' | '《' => '“',
        '»' | '》' => '”',
        '（' => '(',
        '）' => ')',
        '、' | '，' => ',',
        '。' => '.',
        '！' => '!',
        '：' => ':',
        '；' => ';',
        '？' => '?',
        _ => c,
    }
}

/// Maps full-width and typographic punctuation to its half-width equivalent.
pub fn to_half_shape(text: &str) -> (r: String)
    ensures
        r@ == half_shape(text@),
{
    let cs = chars_of(text);
    let mut out: Vec<char> = Vec::new();
    let mut i: usize = 0;
    while i < cs.len()
        invariant
            i <= cs.len(),
            cs@ == text@,
            out@ == half_shape(cs@.subrange(0, i as int)),
        decreases cs.len() - i,
    {
        out.push(half_char_exec(cs[i]));
        assert(out@ =~= half_shape(cs@.subrange(0, i + 1)));
        i = i + 1;
    }
    assert(cs@.subrange(0, cs.len() as int) =~= cs@);
    string_of(&out)
}

/// Normalizing punctuation a second time changes nothing.
pub proof fn lemma_half_shape_idempotent(s: Seq<char>)
    ensures
        half_shape(half_shape(s)) == half_shape(s),
{
    assert(half_shape(half_shape(s)) =~= half_shape(s));
}

} // verus!
