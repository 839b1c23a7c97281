use kana_chunker::kana::{
    is_hiragana, is_kana, is_katakana, is_mora, is_not_kana_or_open_paren, is_sokuon, is_sutegana,
};
use kana_chunker::table::kana_to_typed_chunks;

fn spellings(list: &[&str]) -> Option<Vec<String>> {
    Some(list.iter().map(|s| s.to_string()).collect())
}

#[test]
fn single_mora_lookup() {
    assert_eq!(kana_to_typed_chunks("あ"), spellings(&["a"]));
    assert_eq!(kana_to_typed_chunks("お"), spellings(&["o"]));
    assert_eq!(kana_to_typed_chunks("か"), spellings(&["ka"]));
    assert_eq!(kana_to_typed_chunks("ち"), spellings(&["chi"]));
    assert_eq!(kana_to_typed_chunks("を"), spellings(&["wo"]));
}

#[test]
fn several_spellings_keep_their_order() {
    assert_eq!(kana_to_typed_chunks("し"), spellings(&["shi", "si"]));
    assert_eq!(kana_to_typed_chunks("つ"), spellings(&["tsu", "tu"]));
    assert_eq!(kana_to_typed_chunks("づ"), spellings(&["dzu", "du"]));
    assert_eq!(kana_to_typed_chunks("ん"), spellings(&["n", "nn"]));
}

#[test]
fn digraph_lookup() {
    assert_eq!(kana_to_typed_chunks("きゃ"), spellings(&["kya"]));
    assert_eq!(kana_to_typed_chunks("しゅ"), spellings(&["shu"]));
    assert_eq!(kana_to_typed_chunks("ちょ"), spellings(&["cho"]));
    assert_eq!(kana_to_typed_chunks("じゃ"), spellings(&["ja"]));
    assert_eq!(kana_to_typed_chunks("ぴょ"), spellings(&["pyo"]));
}

#[test]
fn katakana_lookup_matches_hiragana() {
    let hiragana = "あいうえおかがきぎくぐけげこごさざしじすずせぜそぞただちぢつづてでとどなにぬねのはばぱひびぴふぶぷへべぺほぼぽまみむめもやゆよらりるれろわゐゑをん";
    let katakana = "アイウエオカガキギクグケゲコゴサザシジスズセゼソゾタダチヂツヅテデトドナニヌネノハバパヒビピフブプヘベペホボポマミムメモヤユヨラリルレロワヰヱヲン";
    for (h, k) in hiragana.chars().zip(katakana.chars()) {
        let found = kana_to_typed_chunks(&h.to_string());
        assert!(found.is_some());
        assert_eq!(found, kana_to_typed_chunks(&k.to_string()));
    }
    assert_eq!(kana_to_typed_chunks("キャ"), spellings(&["kya"]));
    assert_eq!(kana_to_typed_chunks("ジョ"), spellings(&["jo"]));
}

#[test]
fn long_vowel_mark_lookup() {
    assert_eq!(kana_to_typed_chunks("ー"), spellings(&["-"]));
}

#[test]
fn unknown_units_are_not_found() {
    assert_eq!(kana_to_typed_chunks(""), None);
    assert_eq!(kana_to_typed_chunks("ゃ"), None);
    assert_eq!(kana_to_typed_chunks("っ"), None);
    assert_eq!(kana_to_typed_chunks("かゃ"), None);
    assert_eq!(kana_to_typed_chunks("ゃき"), None);
    assert_eq!(kana_to_typed_chunks("かき"), None);
    assert_eq!(kana_to_typed_chunks("きゃあ"), None);
    assert_eq!(kana_to_typed_chunks("a"), None);
    assert_eq!(kana_to_typed_chunks("京"), None);
    assert_eq!(kana_to_typed_chunks("ゎ"), None);
}

#[test]
fn repeated_lookup_gives_the_same_list() {
    for unit in ["し", "きゃ", "ン", "ゃ", "x"] {
        let first = kana_to_typed_chunks(unit);
        let second = kana_to_typed_chunks(unit);
        let third = kana_to_typed_chunks(unit);
        assert_eq!(first, second);
        assert_eq!(second, third);
    }
}

#[test]
fn every_entry_has_a_nonempty_spelling() {
    let morae = "あいうえおかがきぎくぐけげこごさざしじすずせぜそぞただちぢつづてでとどなにぬねのはばぱひびぴふぶぷへべぺほぼぽまみむめもやゆよらりるれろわゐゑをんー";
    for m in morae.chars() {
        let list = kana_to_typed_chunks(&m.to_string()).unwrap();
        assert!(!list.is_empty());
        assert!(list.iter().all(|s| !s.is_empty()));
        for y in "ゃゅょ".chars() {
            if let Some(list) = kana_to_typed_chunks(&format!("{}{}", m, y)) {
                assert!(!list.is_empty());
                assert!(list.iter().all(|s| !s.is_empty()));
            }
        }
    }
}

#[test]
fn character_classes() {
    assert!(is_hiragana('あ'));
    assert!(is_hiragana('ん'));
    assert!(!is_hiragana('ぁ'));
    assert!(!is_hiragana('っ'));
    assert!(!is_hiragana('ゎ'));
    assert!(!is_hiragana('ア'));
    assert!(!is_hiragana('ー'));
    assert!(is_katakana('ア'));
    assert!(is_katakana('ン'));
    assert!(is_katakana('ー'));
    assert!(!is_katakana('ッ'));
    assert!(!is_katakana('ャ'));
    assert!(!is_katakana('ヴ'));
    assert!(is_mora('か'));
    assert!(is_mora('カ'));
    assert!(!is_mora('ゃ'));
    assert!(!is_mora('a'));
    assert!(is_sutegana('ゃ'));
    assert!(is_sutegana('ョ'));
    assert!(is_sutegana('ぁ'));
    assert!(!is_sutegana('や'));
    assert!(!is_sutegana('っ'));
    assert!(is_sokuon('っ'));
    assert!(is_sokuon('ッ'));
    assert!(!is_sokuon('つ'));
    assert!(is_kana('っ'));
    assert!(is_kana('ゃ'));
    assert!(is_kana('ー'));
    assert!(!is_kana('京'));
    assert!(!is_kana('('));
}

#[test]
fn characters_of_an_annotated_run() {
    assert!(is_not_kana_or_open_paren('京'));
    assert!(is_not_kana_or_open_paren('a'));
    assert!(is_not_kana_or_open_paren(')'));
    assert!(is_not_kana_or_open_paren(' '));
    assert!(is_not_kana_or_open_paren('ゎ'));
    assert!(!is_not_kana_or_open_paren('('));
    assert!(!is_not_kana_or_open_paren('あ'));
    assert!(!is_not_kana_or_open_paren('カ'));
    assert!(!is_not_kana_or_open_paren('ゃ'));
    assert!(!is_not_kana_or_open_paren('ッ'));
    assert!(!is_not_kana_or_open_paren('ー'));
}

#[test]
fn p_row_lookup() {
    assert_eq!(kana_to_typed_chunks("ぱ"), spellings(&["pa"]));
    assert_eq!(kana_to_typed_chunks("パ"), spellings(&["pa"]));
    assert_eq!(kana_to_typed_chunks("ぴ"), spellings(&["pi"]));
    assert_eq!(kana_to_typed_chunks("ピ"), spellings(&["pi"]));
    assert_eq!(kana_to_typed_chunks("ぷ"), spellings(&["pu"]));
    assert_eq!(kana_to_typed_chunks("ぺ"), spellings(&["pe"]));
    assert_eq!(kana_to_typed_chunks("ぽ"), spellings(&["po"]));
    assert_eq!(kana_to_typed_chunks("ポ"), spellings(&["po"]));
}
