use cmudict_fast::Cmudict;
use kokoro::{pronounce, word2ipa_en};
use std::str::FromStr;

fn codes() -> Vec<(String, String)> {
    [
        ("HH", "h"),
        ("AH0", "ə"),
        ("L", "l"),
        ("OW1", "ˈəʊ"),
        ("R", "ɹ"),
        ("IY1", "ˈiː"),
        ("EH1", "ˈɛ"),
        ("D", "d"),
    ]
    .iter()
    .map(|(a, b)| (a.to_string(), b.to_string()))
    .collect()
}

fn dict() -> Cmudict {
    Cmudict::from_str("hello HH AH0 L OW1\nread R IY1 D\nread(2) R EH1 D\nhmm HH M\n").unwrap()
}

#[test]
fn dictionary_word_is_translated_code_by_code() {
    assert_eq!(word2ipa_en(&dict(), "hello", &codes()), Some("həlˈəʊ".to_string()));
}

#[test]
fn unknown_code_adds_nothing() {
    assert_eq!(word2ipa_en(&dict(), "hmm", &codes()), Some("h".to_string()));
}

#[test]
fn word_missing_from_dictionary_is_left_to_the_letter_engine() {
    assert_eq!(word2ipa_en(&dict(), "world", &codes()), None);
    assert_eq!(word2ipa_en(&dict(), "Hello", &codes()), None);
}

#[test]
fn heteronym_takes_one_of_its_pronunciations() {
    for _ in 0..20 {
        let r = word2ipa_en(&dict(), "read", &codes()).unwrap();
        assert!(r == "ɹˈiːd" || r == "ɹˈɛd", "{}", r);
    }
}

#[test]
fn pinned_draw_is_deterministic() {
    let v = vec![
        vec!["R".to_string(), "IY1".to_string(), "D".to_string()],
        vec!["R".to_string(), "EH1".to_string(), "D".to_string()],
    ];
    assert_eq!(pronounce(&v, &codes(), "read", 0), "ɹˈiːd");
    assert_eq!(pronounce(&v, &codes(), "read", 1), "ɹˈɛd");
    assert_eq!(pronounce(&v, &codes(), "read", 1), pronounce(&v, &codes(), "read", 1));
}

#[test]
fn word_listed_without_pronunciation_stands_for_itself() {
    assert_eq!(pronounce(&Vec::new(), &codes(), "xyz", 0), "xyz");
}
