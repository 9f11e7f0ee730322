use kokoro::get_token_ids;

#[test]
fn empty_string_gives_two_sentinels() {
    assert_eq!(get_token_ids("", false), vec![0, 0]);
    assert_eq!(get_token_ids("", true), vec![0, 0]);
}

#[test]
fn known_symbols_map_to_first_generation_ids() {
    assert_eq!(get_token_ids("ab", false), vec![0, 43, 44, 0]);
    assert_eq!(get_token_ids("h↓ ˈ", false), vec![0, 50, 169, 16, 156, 0]);
}

#[test]
fn sentinels_open_and_close_every_sequence() {
    for p in ["", "a", "ʐЖ", "nǐ hǎo", "kˈæt."] {
        for v in [false, true] {
            let t = get_token_ids(p, v);
            assert!(t.len() >= 2);
            assert_eq!(t[0], 0);
            assert_eq!(*t.last().unwrap(), 0);
        }
    }
}

#[test]
fn length_is_two_more_when_every_symbol_is_known() {
    let p = "həlˈəʊ wˈɜːld";
    let t = get_token_ids(p, false);
    assert_eq!(t.len(), p.chars().count() + 2);
}

#[test]
fn unknown_symbol_is_dropped_without_error() {
    let p = "aЖb";
    let t = get_token_ids(p, false);
    assert_eq!(t, vec![0, 43, 44, 0]);
    assert!(t.len() < p.chars().count() + 2);
}

#[test]
fn second_generation_knows_tone_digits_and_bopomofo() {
    assert_eq!(get_token_ids("1ㄅ/", true), vec![0, 171, 30, 7, 0]);
    assert_eq!(get_token_ids("1ㄅ/", false), vec![0, 0]);
}

#[test]
fn second_generation_keeps_first_generation_ids() {
    assert_eq!(get_token_ids("\u{AB67}↗", false), vec![0, 23, 172, 0]);
    assert_eq!(get_token_ids("\u{AB67}↗", true), vec![0, 23, 172, 0]);
    assert_eq!(get_token_ids("↓", true), vec![0, 169, 0]);
    let p = "tʂʰɻ↘ ni↓ xɑʊ↓ ɚ ɤ ɥ → həlˈəʊ.";
    assert_eq!(get_token_ids(p, true), get_token_ids(p, false));
}
