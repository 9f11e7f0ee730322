use vstd::prelude::*;

use crate::text::{chars_of, push_str, string_of};

verus! {

/// The largest value, plus one, that the low counting convention can name.
pub const LOW_COUNT_LIMIT: u128 = 10_000_000_000_000_000;

pub open spec fn is_digit(c: char) -> bool {
    '0' <= c <= '9'
}

/// How many decimal digits `s` starts with.
pub open spec fn digit_run(s: Seq<char>) -> nat
    decreases s.len(),
{
    if s.len() > 0 && is_digit(s[0]) {
        1 + digit_run(s.drop_first())
    } else {
        0
    }
}

/// The length of the numeral literal at the start of `s`: its digits, then a point
/// and the digits after it when at least one digit follows the point.
pub open spec fn literal_len(s: Seq<char>) -> nat {
    let a = digit_run(s);
    if a + 1 < s.len() && s[a as int] == '.' && is_digit(s[a + 1int]) {
        a + 1 + digit_run(s.skip(a + 1int))
    } else {
        a
    }
}

/// The value of a string of decimal digits.
pub open spec fn digits_value(s: Seq<char>) -> nat
    decreases s.len(),
{
    if s.len() == 0 {
        0
    } else {
        digits_value(s.drop_last()) * 10 + ((s.last() as nat) - ('0' as nat)) as nat
    }
}

/// The written form of a whole number in the low counting convention, traditional
/// characters, lower case, as the chinese_number crate renders it.
pub uninterp spec fn chinese_low(n: u128) -> Seq<char>;

/// Relies on `chinese_number::from_u128_to_chinese_low` with the traditional variant
/// and lower case: it names every value under ten to the sixteenth, and fails with
/// an overflow on the others.
#[verifier::external_body]
fn chinese_numeral(n: u128) -> (r: Option<String>)
    ensures
        r is Some <==> n < LOW_COUNT_LIMIT,
        r is Some ==> r->0@ == chinese_low(n),
{
    chinese_number::from_u128_to_chinese_low(
        chinese_number::ChineseVariant::Traditional,
        chinese_number::ChineseCase::Lower,
        n,
    ).ok()
}

/// The written form of an integer literal, when the convention can name it.
pub open spec fn integer_rendering(lit: Seq<char>) -> Option<Seq<char>> {
    if digits_value(lit) < LOW_COUNT_LIMIT {
        Some(chinese_low(digits_value(lit) as u128))
    } else {
        None
    }
}

/// Numeral normalization: each numeral literal is replaced by its written form. An
/// integer literal is named here; a literal with a fractional part takes the form
/// given for it in `rs`, which holds one entry per literal, in order. A literal
/// with no form stays as it is.
pub open spec fn num_repr_spec(s: Seq<char>, rs: Seq<Option<Seq<char>>>) -> Seq<char>
    decreases s.len(),
{
    if s.len() == 0 {
        Seq::empty()
    } else if !is_digit(s[0]) {
        seq![s[0]] + num_repr_spec(s.drop_first(), rs)
    } else {
        let n = literal_len(s);
        let lit = s.take(n as int);
        let form = if n > digit_run(s) {
            if rs.len() > 0 {
                rs[0]
            } else {
                None
            }
        } else {
            integer_rendering(lit)
        };
        let head = match form {
            Some(t) => t,
            None => lit,
        };
        let rest = if rs.len() > 0 {
            rs.drop_first()
        } else {
            rs
        };
        if n == 0 || n > s.len() {
            Seq::empty()
        } else {
            head + num_repr_spec(s.skip(n as int), rest)
        }
    }
}

/// The numeral literals of `s`, in order.
pub open spec fn literals_spec(s: Seq<char>) -> Seq<Seq<char>>
    decreases s.len(),
{
    if s.len() == 0 {
        Seq::empty()
    } else if !is_digit(s[0]) {
        literals_spec(s.drop_first())
    } else {
        let n = literal_len(s);
        if n == 0 || n > s.len() {
            Seq::empty()
        } else {
            seq![s.take(n as int)] + literals_spec(s.skip(n as int))
        }
    }
}

proof fn lemma_digit_run(s: Seq<char>, k: int)
    requires
        0 <= k <= s.len(),
        forall|j: int| 0 <= j < k ==> is_digit(#[trigger] s[j]),
        k == s.len() || !is_digit(s[k]),
    ensures
        digit_run(s) == k,
    decreases k,
{
    if k > 0 {
        let t = s.drop_first();
        assert forall|j: int| 0 <= j < k - 1 implies is_digit(#[trigger] t[j]) by {
            assert(t[j] == s[j + 1]);
        }
        if k - 1 < t.len() {
            assert(t[k - 1] == s[k]);
        }
        lemma_digit_run(t, k - 1);
    }
}

/// Where the run of digits that starts at `i` ends.
fn digits_end(cs: &Vec<char>, i: usize) -> (e: usize)
    requires
        i <= cs.len(),
    ensures
        i <= e <= cs.len(),
        digit_run(cs@.skip(i as int)) == e - i,
{
    let mut e: usize = i;
    while e < cs.len() && '0' <= cs[e] && cs[e] <= '9'
        invariant
            i <= e <= cs.len(),
            forall|j: int| i <= j < e ==> is_digit(#[trigger] cs@[j]),
        decreases cs.len() - e,
    {
        e = e + 1;
    }
    proof {
        let t = cs@.skip(i as int);
        assert forall|j: int| 0 <= j < e - i implies is_digit(#[trigger] t[j]) by {
            assert(t[j] == cs@[i + j]);
        }
        if e < cs.len() {
            assert(t[e - i] == cs@[e as int]);
        }
        lemma_digit_run(t, e - i);
    }
    e
}

/// Where the numeral literal that starts at `i` ends.
fn literal_end(cs: &Vec<char>, i: usize) -> (r: (usize, bool))
    requires
        i < cs.len(),
        is_digit(cs@[i as int]),
    ensures
        i < r.0 <= cs.len(),
        r.0 - i == literal_len(cs@.skip(i as int)),
        r.1 <==> literal_len(cs@.skip(i as int)) > digit_run(cs@.skip(i as int)),
{
    let ghost t = cs@.skip(i as int);
    let a = digits_end(cs, i);
    assert(t[0] == cs@[i as int]);
    if cs.len() - a > 1 && cs[a] == '.' && '0' <= cs[a + 1] && cs[a + 1] <= '9' {
        let b = digits_end(cs, a + 1);
        assert(t[a - i] == cs@[a as int]);
        assert(t[a - i + 1] == cs@[a + 1]);
        assert(t.skip(a - i + 1) =~= cs@.skip(a + 1));
        (b, true)
    } else {
        proof {
            if a + 1 < cs.len() {
                assert(t[a - i] == cs@[a as int]);
                assert(t[a - i + 1] == cs@[a + 1]);
            }
        }
        (a, false)
    }
}

/// The value of the digits `cs[i..e]`, when it is under the low convention's limit.
fn digits_value_below_limit(cs: &Vec<char>, i: usize, e: usize) -> (r: Option<u128>)
    requires
        i <= e <= cs.len(),
        forall|j: int| i <= j < e ==> is_digit(#[trigger] cs@[j]),
    ensures
        r is Some <==> digits_value(cs@.subrange(i as int, e as int)) < LOW_COUNT_LIMIT,
        r is Some ==> r->0 == digits_value(cs@.subrange(i as int, e as int)),
{
    let mut v: u128 = 0;
    let mut over = false;
    let mut k: usize = i;
    while k < e
        invariant
            i <= k <= e <= cs.len(),
            forall|j: int| i <= j < e ==> is_digit(#[trigger] cs@[j]),
            !over ==> v == digits_value(cs@.subrange(i as int, k as int)) && v < LOW_COUNT_LIMIT,
            over ==> digits_value(cs@.subrange(i as int, k as int)) >= LOW_COUNT_LIMIT,
        decreases e - k,
    {
        let ghost pre = cs@.subrange(i as int, k as int);
        assert(cs@.subrange(i as int, k + 1).drop_last() =~= pre);
        assert(is_digit(cs@[k as int]));
        let d = (cs[k] as u32 - '0' as u32) as u128;
        if !over {
            let w = v * 10 + d;
            if w >= LOW_COUNT_LIMIT {
                over = true;
            } else {
                v = w;
            }
        }
        k = k + 1;
    }
    if over {
        None
    } else {
        Some(v)
    }
}

/// The numeral literals of `text`, in order: maximal runs of decimal digits, each
/// with the point and digits of a fractional part when one follows.
pub fn numeral_literals(text: &str) -> (r: Vec<String>)
    ensures
        r.deep_view() == literals_spec(text@),
{
    let cs = chars_of(text);
    let mut out: Vec<String> = Vec::new();
    let mut i: usize = 0;
    assert(cs@.skip(0) =~= cs@);
    while i < cs.len()
        invariant
            i <= cs.len(),
            cs@ == text@,
            out.deep_view() + literals_spec(cs@.skip(i as int)) == literals_spec(cs@),
        decreases cs.len() - i,
    {
        let ghost t = cs@.skip(i as int);
        assert(t[0] == cs@[i as int]);
        if '0' <= cs[i] && cs[i] <= '9' {
            let (e, _) = literal_end(&cs, i);
            let mut lit: Vec<char> = Vec::new();
            let mut k: usize = i;
            while k < e
                invariant
                    i <= k <= e <= cs.len(),
                    lit@ == cs@.subrange(i as int, k as int),
                decreases e - k,
            {
                lit.push(cs[k]);
                assert(lit@ =~= cs@.subrange(i as int, k + 1));
                k = k + 1;
            }
            assert(t.take(e - i) =~= lit@);
            assert(t.skip(e - i) =~= cs@.skip(e as int));
            let ghost before = out.deep_view();
            out.push(string_of(&lit));
            assert(out.deep_view() =~= before.push(lit@));
            assert(before.push(lit@) + literals_spec(cs@.skip(e as int)) =~= before + (seq![lit@]
                + literals_spec(cs@.skip(e as int))));
            i = e;
        } else {
            assert(t.drop_first() =~= cs@.skip(i + 1));
            i = i + 1;
        }
    }
    assert(cs@.skip(cs.len() as int) =~= Seq::<char>::empty());
    assert(out.deep_view() + Seq::<Seq<char>>::empty() =~= out.deep_view());
    out
}

/// Replaces each numeral literal of `text` by its written form. Integer literals
/// are named through the low counting convention; `forms[k]` is the form of the
/// `k`-th literal when that literal has a fractional part. A literal without a
/// form is kept.
pub fn num_repr(text: &str, forms: &Vec<Option<String>>) -> (r: String)
    requires
        forms.len() == literals_spec(text@).len(),
    ensures
        r@ == num_repr_spec(text@, forms.deep_view()),
{
    let cs = chars_of(text);
    let mut out: Vec<char> = Vec::new();
    let mut i: usize = 0;
    let mut j: usize = 0;
    assert(cs@.skip(0) =~= cs@);
    assert(forms.deep_view().skip(0) =~= forms.deep_view());
    while i < cs.len()
        invariant
            i <= cs.len(),
            cs@ == text@,
            j <= forms.len(),
            out@ + num_repr_spec(cs@.skip(i as int), forms.deep_view().skip(j as int))
                == num_repr_spec(cs@, forms.deep_view()),
        decreases cs.len() - i,
    {
        let ghost t = cs@.skip(i as int);
        let ghost fs = forms.deep_view().skip(j as int);
        assert(t[0] == cs@[i as int]);
        if '0' <= cs[i] && cs[i] <= '9' {
            let (e, decimal) = literal_end(&cs, i);
            let ghost lit = t.take(e - i);
            assert(lit =~= cs@.subrange(i as int, e as int));
            assert(t.skip(e - i) =~= cs@.skip(e as int));
            let form: Option<String> = if decimal {
                if j < forms.len() {
                    match &forms[j] {
                        Some(f) => Some(f.clone()),
                        None => None,
                    }
                } else {
                    None
                }
            } else {
                proof {
                    assert forall|k: int| i <= k < e implies is_digit(#[trigger] cs@[k]) by {
                        if k - i < digit_run(t) {
                            lemma_digit_run_prefix(t, k - i);
                            assert(t[k - i] == cs@[k]);
                        }
                    }
                }
                match digits_value_below_limit(&cs, i, e) {
                    Some(v) => chinese_numeral(v),
                    None => None,
                }
            };
            let ghost spec_form = if decimal {
                if fs.len() > 0 {
                    fs[0]
                } else {
                    None
                }
            } else {
                integer_rendering(lit)
            };
            assert(spec_form is Some <==> form is Some);
            assert(form is Some ==> spec_form == Some(form->0@));
            let ghost out0 = out@;
            match form {
                Some(f) => push_str(&mut out, f.as_str()),
                None => {
                    let mut k: usize = i;
                    let ghost base = out@;
                    while k < e
                        invariant
                            i <= k <= e <= cs.len(),
                            out@ == base + cs@.subrange(i as int, k as int),
                        decreases e - k,
                    {
                        out.push(cs[k]);
                        assert(out@ =~= base + cs@.subrange(i as int, k + 1));
                        k = k + 1;
                    }
                },
            }
            assert(fs.len() > 0 ==> fs.drop_first() =~= forms.deep_view().skip(j + 1));
            let ghost head = match spec_form {
                Some(x) => x,
                None => lit,
            };
            assert(out@ == out0 + head);
            assert(num_repr_spec(t, fs) == head + num_repr_spec(t.skip(e - i), if fs.len() > 0 {
                fs.drop_first()
            } else {
                fs
            }));
            let ghost rest = if fs.len() > 0 {
                fs.drop_first()
            } else {
                fs
            };
            assert(out@ + num_repr_spec(cs@.skip(e as int), rest) =~= out0 + (head
                + num_repr_spec(t.skip(e - i), rest)));
            i = e;
            if j < forms.len() {
                j = j + 1;
            }
        } else {
            assert(t.drop_first() =~= cs@.skip(i + 1));
            let ghost out0 = out@;
            out.push(cs[i]);
            assert(out@ + num_repr_spec(cs@.skip(i + 1), fs) =~= out0 + (seq![t[0]]
                + num_repr_spec(t.drop_first(), fs)));
            i = i + 1;
        }
    }
    assert(cs@.skip(cs.len() as int) =~= Seq::<char>::empty());
    assert(out@ + Seq::<char>::empty() =~= out@);
    string_of(&out)
}

/// The first `k` scalars of a string are digits when it starts with more than `k` digits.
proof fn lemma_digit_run_prefix(s: Seq<char>, k: int)
    requires
        0 <= k < digit_run(s),
    ensures
        is_digit(s[k]),
    decreases k,
{
    lemma_digit_run_le(s);
    if k > 0 {
        assert(s.drop_first()[k - 1] == s[k]);
        lemma_digit_run_prefix(s.drop_first(), k - 1);
    }
}

proof fn lemma_digit_run_le(s: Seq<char>)
    ensures
        digit_run(s) <= s.len(),
    decreases s.len(),
{
    if s.len() > 0 {
        lemma_digit_run_le(s.drop_first());
    }
}

} // verus!
