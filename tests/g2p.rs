use kokoro::{
    assemble, char_readings, han_words, marks_are_attached, num_repr, numeral_literals, py2ipa,
    retone, split_runs, split_words, to_half_shape, word2ipa_zh, CharReading, Chunk, G2PError,
    Piece, Script, Segmenter, Syllable,
};

fn variants(runs: &[&[&str]]) -> Vec<Vec<String>> {
    runs.iter().map(|v| v.iter().map(|s| s.to_string()).collect()).collect()
}

#[test]
fn dipping_contour_becomes_down_arrow() {
    assert_eq!(retone("˧˩˧"), "↓");
    assert_eq!(retone("ma˧˩˧"), "ma↓");
}

#[test]
fn level_rising_and_falling_tones() {
    assert_eq!(retone("˥"), "→");
    assert_eq!(retone("˧˥"), "↗");
    assert_eq!(retone("˥˩"), "↘");
    assert_eq!(retone("˧"), "˧");
}

#[test]
fn marked_syllabic_consonants_become_a_vowel() {
    assert_eq!(retone("ʂɻ\u{0329}˥˩"), "ʂɨ↘");
    assert_eq!(retone("ɱ\u{0329}"), "ɨ");
    assert!(!retone("tsɻ\u{0329}˧˥").contains('\u{0329}'));
}

#[test]
fn stray_marks_are_detected() {
    assert!(marks_are_attached("ɻ\u{0329}a"));
    assert!(!marks_are_attached("\u{0329}a"));
    assert!(!marks_are_attached("a\u{0329}"));
}

#[test]
fn syllable_uses_first_variant() {
    let v = variants(&[&["n", "i˧˩˧"], &["n", "i˥"]]);
    assert_eq!(py2ipa(&v), Ok("ni↓".to_string()));
}

#[test]
fn syllable_without_variant_is_an_error() {
    assert_eq!(py2ipa(&Vec::new()), Err(G2PError::EmptyPhonemeData));
}

#[test]
fn word_joins_character_phonemes() {
    let rs = vec![
        CharReading::Phonemes(variants(&[&["n", "i˧˩˧"]])),
        CharReading::Phonemes(variants(&[&["x", "ɑʊ˧˩˧"]])),
        CharReading::Literal('x'),
    ];
    assert_eq!(word2ipa_zh(&rs), Ok("ni↓xɑʊ↓x".to_string()));
}

#[test]
fn word_with_empty_syllable_fails() {
    let rs = vec![CharReading::Literal('a'), CharReading::Phonemes(Vec::new())];
    assert_eq!(word2ipa_zh(&rs), Err(G2PError::EmptyPhonemeData));
}

#[test]
fn characters_get_toned_readings() {
    let r = char_readings("你好a");
    assert_eq!(r.len(), 3);
    match &r[0] {
        Syllable::Toned(t) => assert_eq!(t, "ni3"),
        Syllable::Literal(_) => panic!("expected a reading"),
    }
    match &r[1] {
        Syllable::Toned(t) => assert_eq!(t, "hao3"),
        Syllable::Literal(_) => panic!("expected a reading"),
    }
    match &r[2] {
        Syllable::Literal(c) => assert_eq!(*c, 'a'),
        Syllable::Toned(_) => panic!("expected no reading"),
    }
}

#[test]
fn han_run_is_cut_into_words() {
    let w = han_words(&Segmenter::new(), "你好世界");
    assert_eq!(w.concat(), "你好世界");
    assert!(w.len() >= 2);
}

#[test]
fn full_width_punctuation_becomes_half_width() {
    assert_eq!(to_half_shape("《你好》，世界。"), "“你好”,世界.");
    assert_eq!(to_half_shape("（甲）、乙！丙：丁；戊？"), "(甲),乙!丙:丁;戊?");
    assert_eq!(to_half_shape("«a»"), "“a”");
}

#[test]
fn punctuation_normalization_is_idempotent() {
    for s in ["《你好》，世界。", "（）、！：；？«»", "plain", ""] {
        let once = to_half_shape(s);
        assert_eq!(to_half_shape(&once), once);
    }
}

#[test]
fn runs_follow_script_classes() {
    let r = split_runs("hello world你好，123");
    let got: Vec<(Script, String)> = r.into_iter().map(|r| (r.script, r.text)).collect();
    assert_eq!(
        got,
        vec![
            (Script::Other, "hello world".to_string()),
            (Script::Han, "你好".to_string()),
            (Script::CjkPunct, "，".to_string()),
            (Script::Other, "123".to_string()),
        ]
    );
}

#[test]
fn other_scripts_are_dropped() {
    let r = split_runs("aéb");
    let got: Vec<(Script, String)> = r.into_iter().map(|r| (r.script, r.text)).collect();
    assert_eq!(
        got,
        vec![(Script::Other, "a".to_string()), (Script::Other, "b".to_string())]
    );
}

fn piece_desc(p: &Piece) -> (bool, String) {
    match p {
        Piece::Word(t) => (true, t.clone()),
        Piece::Gap(t) => (false, t.clone()),
    }
}

#[test]
fn latin_run_splits_into_words_and_gaps() {
    let got: Vec<(bool, String)> = split_words("it's 42, ok").iter().map(piece_desc).collect();
    assert_eq!(
        got,
        vec![
            (true, "it".to_string()),
            (true, "'".to_string()),
            (true, "s".to_string()),
            (false, " ".to_string()),
            (false, "42".to_string()),
            (false, ", ".to_string()),
            (true, "ok".to_string()),
        ]
    );
}

#[test]
fn numeral_before_measure_word_is_spelled_out() {
    let text = "3个苹果";
    let lits = numeral_literals(text);
    assert_eq!(lits, vec!["3".to_string()]);
    let out = num_repr(text, &vec![None]);
    assert_eq!(out, "三个苹果");
    assert!(!out.contains("3个"));
}

#[test]
fn numeral_literals_and_decimal_forms() {
    let text = "a1.5b22c.7";
    assert_eq!(
        numeral_literals(text),
        vec!["1.5".to_string(), "22".to_string(), "7".to_string()]
    );
    let forms = vec![Some("一點五".to_string()), None, None];
    assert_eq!(num_repr(text, &forms), "a一點五b二十二c.七");
    assert_eq!(num_repr("1.5", &vec![None]), "1.5");
}

#[test]
fn numeral_beyond_low_convention_stays() {
    let text = "x12345678901234567";
    assert_eq!(num_repr(text, &vec![None]), text);
    assert_eq!(num_repr("10", &vec![None]), "十");
    assert_eq!(num_repr("123", &vec![None]), "一百二十三");
}

fn gap(s: &str) -> Piece {
    Piece::Gap(s.to_string())
}

fn word(s: &str) -> Piece {
    Piece::Word(s.to_string())
}

#[test]
fn spacing_policy_joins_runs() {
    let chunks = vec![
        Chunk::Latin(vec![word("həlˈəʊ"), gap(" "), word("wˈɜːld")]),
        Chunk::Han(vec!["ni↓xau↓".to_string(), "ʂɨ↘".to_string()]),
        Chunk::Punct("。".to_string()),
        Chunk::Latin(vec![word("ˈapəl")]),
    ];
    assert_eq!(assemble(&chunks), "həlˈəʊ wˈɜːld ni↓xau↓ ʂɨ↘. ˈapəl");
}

#[test]
fn word_after_stop_gets_a_space() {
    let chunks = vec![Chunk::Latin(vec![word("a"), gap("."), word("b")])];
    assert_eq!(assemble(&chunks), "a. b");
    let chunks = vec![Chunk::Latin(vec![word("a"), gap(". "), word("b")])];
    assert_eq!(assemble(&chunks), "a. b");
}

#[test]
fn gap_after_space_loses_leading_space() {
    let chunks = vec![
        Chunk::Punct("，".to_string()),
        Chunk::Latin(vec![gap("  x"), word("y")]),
    ];
    assert_eq!(assemble(&chunks), ", xy");
}

#[test]
fn han_run_after_space_gets_no_second_space() {
    let chunks = vec![
        Chunk::Latin(vec![word("a"), gap(" ")]),
        Chunk::Han(vec!["ni↓".to_string()]),
    ];
    assert_eq!(assemble(&chunks), "a ni↓");
    let chunks = vec![Chunk::Han(vec!["ni↓".to_string()]), Chunk::Han(vec!["xau↓".to_string()])];
    assert_eq!(assemble(&chunks), "ni↓ xau↓");
}

#[test]
fn result_is_trimmed() {
    let chunks = vec![Chunk::Latin(vec![gap("  "), word("a"), gap(" \n")])];
    assert_eq!(assemble(&chunks), "a");
    assert_eq!(assemble(&Vec::new()), "");
}

/// Runs the pipeline with a romanization table that writes each toned syllable as
/// its own phoneme run, and an English phonemizer that upper-cases the word.
fn pipeline(text: &str) -> String {
    let lits = numeral_literals(text);
    let forms: Vec<Option<String>> = lits.iter().map(|_| None).collect();
    let text = num_repr(text, &forms);
    let seg = Segmenter::new();
    let mut chunks = Vec::new();
    for run in split_runs(&text) {
        match run.script {
            Script::Han => {
                let mut words = Vec::new();
                for w in han_words(&seg, &run.text) {
                    let rs: Vec<CharReading> = char_readings(&w)
                        .into_iter()
                        .map(|s| match s {
                            Syllable::Literal(c) => CharReading::Literal(c),
                            Syllable::Toned(t) => CharReading::Phonemes(vec![vec![t]]),
                        })
                        .collect();
                    words.push(word2ipa_zh(&rs).unwrap());
                }
                chunks.push(Chunk::Han(words));
            }
            Script::CjkPunct => chunks.push(Chunk::Punct(run.text)),
            Script::Other => {
                let pieces = split_words(&run.text)
                    .into_iter()
                    .map(|p| match p {
                        Piece::Word(w) => Piece::Word(w.to_uppercase()),
                        g => g,
                    })
                    .collect();
                chunks.push(Chunk::Latin(pieces));
            }
        }
    }
    assemble(&chunks)
}

#[test]
fn mixed_script_text_keeps_segment_order() {
    let out = pipeline("hello world你好123");
    let en = out.find("HELLO WORLD").unwrap();
    let zh = out.find("ni3hao3").unwrap();
    let num = out.find("yi1").unwrap();
    assert!(en < zh && zh < num);
    assert!(out.starts_with("HELLO WORLD ni3hao3"));
    assert!(!out.contains('1') || out.contains("yi1"));
    assert!(!out.contains("123"));
}

#[test]
fn numeral_is_read_in_chinese() {
    let out = pipeline("3个苹果");
    assert!(out.starts_with("san1"));
    assert!(!out.contains("3ge"));
}

#[test]
fn han_run_phonemizes_each_word() {
    let words = vec![
        vec![CharReading::Phonemes(variants(&[&["n", "i˧˩˧"]]))],
        vec![CharReading::Literal('x')],
    ];
    match kokoro::han_chunk(&words) {
        Ok(Chunk::Han(ws)) => assert_eq!(ws, vec!["ni↓".to_string(), "x".to_string()]),
        _ => panic!("expected phonemized words"),
    }
    let bad = vec![vec![CharReading::Literal('x')], vec![CharReading::Phonemes(Vec::new())]];
    assert!(matches!(kokoro::han_chunk(&bad), Err(G2PError::EmptyPhonemeData)));
}
