use vstd::prelude::*;

use crate::text::chars_of;
use crate::vocab::{lemma_v11_extends_v10, lookup_v10, lookup_v11, vocab_v10, vocab_v11};

verus! {

/// The sentinel that opens and closes every token sequence.
pub const SENTINEL: i64 = 0;

/// The id of `c` in the vocabulary that `v11` selects, if it has one.
pub open spec fn vocab(c: char, v11: bool) -> Option<u8> {
    if v11 {
        vocab_v11(c)
    } else {
        vocab_v10(c)
    }
}

/// The ids of the scalars of `p` that the vocabulary knows, in order; the others are left out.
pub open spec fn known_ids(p: Seq<char>, v11: bool) -> Seq<i64>
    decreases p.len(),
{
    if p.len() == 0 {
        Seq::empty()
    } else {
        let rest = known_ids(p.drop_last(), v11);
        match vocab(p.last(), v11) {
            Some(t) => rest.push(t as i64),
            None => rest,
        }
    }
}

/// The token sequence of a phoneme string: the known ids between two sentinels.
pub open spec fn token_ids(p: Seq<char>, v11: bool) -> Seq<i64> {
    seq![SENTINEL].add(known_ids(p, v11)).push(SENTINEL)
}

/// Whether every scalar of `p` is in the selected vocabulary.
pub open spec fn all_known(p: Seq<char>, v11: bool) -> bool {
    forall|i: int| 0 <= i < p.len() ==> (#[trigger] vocab(p[i], v11)) is Some
}

/// Maps a phoneme string to the token ids of the first (`v11 == false`) or second
/// (`v11 == true`) model generation. Unknown symbols are skipped.
pub fn get_token_ids(phonemes: &str, v11: bool) -> (r: Vec<i64>)
    ensures
        r@ == token_ids(phonemes@, v11),
{
    let cs = chars_of(phonemes);
    let mut tokens: Vec<i64> = Vec::new();
    tokens.push(SENTINEL);
    let mut i: usize = 0;
    while i < cs.len()
        invariant
            i <= cs.len(),
            cs@ == phonemes@,
            tokens@ == seq![SENTINEL].add(known_ids(cs@.subrange(0, i as int), v11)),
        decreases cs.len() - i,
    {
        let c = cs[i];
        let v = if v11 {
            lookup_v11(c)
        } else {
            lookup_v10(c)
        };
        assert(cs@.subrange(0, i + 1).drop_last() == cs@.subrange(0, i as int));
        match v {
            Some(t) => {
                tokens.push(t as i64);
            },
            None => {},
        }
        i = i + 1;
    }
    assert(cs@.subrange(0, cs.len() as int) == cs@);
    tokens.push(SENTINEL);
    tokens
}

/// The known ids never outnumber the scalars, and match them in number exactly
/// when every scalar is known.
proof fn lemma_known_ids_len(p: Seq<char>, v11: bool)
    ensures
        known_ids(p, v11).len() <= p.len(),
        known_ids(p, v11).len() == p.len() <==> all_known(p, v11),
    decreases p.len(),
{
    if p.len() > 0 {
        let q = p.drop_last();
        lemma_known_ids_len(q, v11);
        if all_known(p, v11) {
            assert forall|i: int| 0 <= i < q.len() implies (#[trigger] vocab(q[i], v11)) is Some by {
                assert(q[i] == p[i]);
            }
        }
        if known_ids(p, v11).len() == p.len() {
            assert(vocab(p.last(), v11) is Some);
            assert forall|i: int| 0 <= i < p.len() implies (#[trigger] vocab(p[i], v11)) is Some by {
                if i < q.len() {
                    assert(q[i] == p[i]);
                }
            }
        }
    }
}

/// A token sequence is at most two longer than its phoneme string, and exactly
/// two longer when every scalar of the string is in the vocabulary.
pub proof fn lemma_token_len_bound(p: Seq<char>, v11: bool)
    ensures
        token_ids(p, v11).len() <= p.len() + 2,
        token_ids(p, v11).len() == p.len() + 2 <==> all_known(p, v11),
{
    lemma_known_ids_len(p, v11);
}

/// A phoneme string with a scalar outside the vocabulary gives a token sequence
/// shorter than the string's length plus two.
pub proof fn lemma_unknown_symbol_shortens(p: Seq<char>, v11: bool, i: int)
    requires
        0 <= i < p.len(),
        vocab(p[i], v11) is None,
    ensures
        token_ids(p, v11).len() < p.len() + 2,
{
    lemma_known_ids_len(p, v11);
}

/// Every token sequence starts and ends with the sentinel; the empty string gives
/// the two sentinels alone.
pub proof fn lemma_token_sentinels(p: Seq<char>, v11: bool)
    ensures
        token_ids(p, v11).len() >= 2,
        token_ids(p, v11)[0] == SENTINEL,
        token_ids(p, v11).last() == SENTINEL,
        p.len() == 0 ==> token_ids(p, v11) == seq![SENTINEL, SENTINEL],
{
    if p.len() == 0 {
        assert(token_ids(p, v11) =~= seq![SENTINEL, SENTINEL]);
    }
}

/// A phoneme string that the first generation's table covers gets the same tokens
/// from both generations.
pub proof fn lemma_generations_agree(p: Seq<char>)
    requires
        all_known(p, false),
    ensures
        token_ids(p, true) == token_ids(p, false),
{
    lemma_known_ids_agree(p);
}

proof fn lemma_known_ids_agree(p: Seq<char>)
    requires
        all_known(p, false),
    ensures
        known_ids(p, true) == known_ids(p, false),
    decreases p.len(),
{
    if p.len() > 0 {
        let q = p.drop_last();
        assert forall|i: int| 0 <= i < q.len() implies (#[trigger] vocab(q[i], false)) is Some by {
            assert(q[i] == p[i]);
        }
        lemma_known_ids_agree(q);
        assert(vocab(p[p.len() - 1], false) is Some);
        lemma_v11_extends_v10(p.last());
    }
}

} // verus!
