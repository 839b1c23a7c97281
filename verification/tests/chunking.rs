use kana_chunker::chunk::{Chunk, TypingTarget};
use kana_chunker::chunker::{japanese, kana_chunk, parenthesized};
use kana_chunker::text::Text;

fn chunk(displayed: &str, accepted: &[&str]) -> Chunk {
    Chunk {
        displayed: displayed.to_string(),
        accepted: accepted.iter().map(|s| s.to_string()).collect(),
    }
}

fn target(chunks: Vec<Chunk>) -> TypingTarget {
    TypingTarget { chunks }
}

fn displayed(target: &TypingTarget) -> String {
    target.chunks.iter().map(|c| c.displayed.as_str()).collect()
}

#[test]
fn empty_text_gives_no_chunk() {
    assert_eq!(japanese(""), target(vec![]));
}

#[test]
fn sokuon_doubles_the_consonant() {
    assert_eq!(
        japanese("っか"),
        target(vec![chunk("っ", &["k"]), chunk("か", &["ka"])])
    );
}

#[test]
fn digraph_is_one_chunk() {
    assert_eq!(japanese("きゃ"), target(vec![chunk("きゃ", &["kya"])]));
}

#[test]
fn both_spellings_are_accepted_in_order() {
    assert_eq!(japanese("し"), target(vec![chunk("し", &["shi", "si"])]));
}

#[test]
fn reading_in_parentheses_is_taken_literally() {
    assert_eq!(
        japanese("京(とかんだと)"),
        target(vec![chunk("京", &["とかんだと"])])
    );
}

#[test]
fn mixed_sequence() {
    assert_eq!(
        japanese("おちゃをのむ"),
        target(vec![
            chunk("お", &["o"]),
            chunk("ちゃ", &["cha"]),
            chunk("を", &["wo"]),
            chunk("の", &["no"]),
            chunk("む", &["mu"]),
        ])
    );
}

#[test]
fn annotated_runs_then_kana() {
    assert_eq!(
        japanese("京(kyou)都(to)とかんだとひろしま"),
        target(vec![
            chunk("京", &["kyou"]),
            chunk("都", &["to"]),
            chunk("と", &["to"]),
            chunk("か", &["ka"]),
            chunk("ん", &["n", "nn"]),
            chunk("だ", &["da"]),
            chunk("と", &["to"]),
            chunk("ひ", &["hi"]),
            chunk("ろ", &["ro"]),
            chunk("し", &["shi", "si"]),
            chunk("ま", &["ma"]),
        ])
    );
}

#[test]
fn recognized_kana_are_all_displayed() {
    for input in ["おちゃをのむ", "がっこう", "キャット", "しゅっちょう", "ラーメン", "っあ"] {
        assert_eq!(displayed(&japanese(input)), input);
    }
}

#[test]
fn every_chunk_can_be_typed() {
    for input in ["京(kyou)都(to)とかんだとひろしま", "がっこう", "x(", "漢()字", "ゃっ"] {
        for c in japanese(input).chunks {
            assert!(!c.displayed.is_empty());
            assert!(!c.accepted.is_empty());
        }
    }
}

#[test]
fn unknown_character_between_kana_is_skipped() {
    assert_eq!(
        japanese("かxき"),
        target(vec![chunk("か", &["ka"]), chunk("き", &["ki"])])
    );
    assert_eq!(
        japanese("か、き"),
        target(vec![chunk("か", &["ka"]), chunk("き", &["ki"])])
    );
}

#[test]
fn katakana_has_the_spellings_of_hiragana() {
    assert_eq!(
        japanese("シャツ"),
        target(vec![chunk("シャ", &["sha"]), chunk("ツ", &["tsu", "tu"])])
    );
    assert_eq!(
        japanese("ッカ"),
        target(vec![chunk("ッ", &["k"]), chunk("カ", &["ka"])])
    );
}

#[test]
fn long_vowel_mark_is_a_dash() {
    assert_eq!(
        japanese("ラーメン"),
        target(vec![
            chunk("ラ", &["ra"]),
            chunk("ー", &["-"]),
            chunk("メ", &["me"]),
            chunk("ン", &["n", "nn"]),
        ])
    );
}

#[test]
fn sokuon_before_digraph() {
    assert_eq!(
        japanese("しゅっちょう"),
        target(vec![
            chunk("しゅ", &["shu"]),
            chunk("っ", &["c"]),
            chunk("ちょ", &["cho"]),
            chunk("う", &["u"]),
        ])
    );
}

#[test]
fn sokuon_before_vowel_doubles_the_vowel() {
    assert_eq!(
        japanese("っあ"),
        target(vec![chunk("っ", &["a"]), chunk("あ", &["a"])])
    );
}

#[test]
fn sokuon_takes_first_character_of_preferred_spelling() {
    assert_eq!(
        japanese("っし"),
        target(vec![chunk("っ", &["s"]), chunk("し", &["shi", "si"])])
    );
    assert_eq!(
        japanese("っつ"),
        target(vec![chunk("っ", &["t"]), chunk("つ", &["tsu", "tu"])])
    );
}

#[test]
fn sokuon_without_mora_gives_no_chunk() {
    assert_eq!(japanese("っ"), target(vec![]));
    assert_eq!(japanese("かっ"), target(vec![chunk("か", &["ka"])]));
    assert_eq!(
        japanese("っっか"),
        target(vec![chunk("っ", &["k"]), chunk("か", &["ka"])])
    );
    assert_eq!(japanese("っxか"), target(vec![chunk("か", &["ka"])]));
}

#[test]
fn small_kana_that_cannot_combine_is_not_absorbed() {
    assert_eq!(japanese("かゃ"), target(vec![chunk("か", &["ka"])]));
    assert_eq!(
        japanese("ふぁん"),
        target(vec![chunk("ふ", &["fu"]), chunk("ん", &["n", "nn"])])
    );
    assert_eq!(
        japanese("きゃゃ"),
        target(vec![chunk("きゃ", &["kya"])])
    );
}

#[test]
fn lone_small_kana_gives_no_chunk() {
    assert_eq!(japanese("ゃ"), target(vec![]));
    assert_eq!(japanese("ゃか"), target(vec![chunk("か", &["ka"])]));
}

#[test]
fn unclosed_parenthesis_is_no_annotation() {
    assert_eq!(
        japanese("京(とか"),
        target(vec![chunk("と", &["to"]), chunk("か", &["ka"])])
    );
    assert_eq!(japanese("京("), target(vec![]));
}

#[test]
fn run_without_reading_gives_no_chunk() {
    assert_eq!(japanese("京都"), target(vec![]));
    assert_eq!(japanese("abc"), target(vec![]));
    assert_eq!(
        japanese("京と"),
        target(vec![chunk("と", &["to"])])
    );
}

#[test]
fn annotated_run_is_as_long_as_it_can_be() {
    assert_eq!(
        japanese("東京都(toukyouto)"),
        target(vec![chunk("東京都", &["toukyouto"])])
    );
    assert_eq!(
        japanese("a)b(c)"),
        target(vec![chunk("a)b", &["c"])])
    );
}

#[test]
fn kana_before_parenthesis_is_no_annotated_run() {
    assert_eq!(
        japanese("か(ka)"),
        target(vec![chunk("か", &["ka"])])
    );
    assert_eq!(japanese("(ka)"), target(vec![]));
}

#[test]
fn empty_reading_is_kept() {
    assert_eq!(japanese("京()"), target(vec![chunk("京", &[""])]));
}

#[test]
fn reading_ends_at_first_closing_parenthesis() {
    assert_eq!(
        japanese("京(a(b)c)と"),
        target(vec![chunk("京", &["a(b"]), chunk("と", &["to"])])
    );
}

#[test]
fn parenthesized_reads_one_annotated_run() {
    let text = Text::new("京(kyou)都(to)と");
    assert_eq!(
        parenthesized(&text, 0),
        Some((7, target(vec![chunk("京", &["kyou"])])))
    );
    assert_eq!(
        parenthesized(&text, 7),
        Some((12, target(vec![chunk("都", &["to"])])))
    );
    assert_eq!(parenthesized(&text, 8), None);
    assert_eq!(parenthesized(&text, 12), None);
    assert_eq!(parenthesized(&text, 13), None);
    assert_eq!(parenthesized(&text, 100), None);
    assert_eq!(parenthesized(&text, 1), None);
}

#[test]
fn kana_chunk_reads_one_run_of_units() {
    let text = Text::new("がっこう(x)きゃ");
    assert_eq!(
        kana_chunk(&text, 0),
        Some((
            4,
            target(vec![
                chunk("が", &["ga"]),
                chunk("っ", &["k"]),
                chunk("こ", &["ko"]),
                chunk("う", &["u"]),
            ])
        ))
    );
    assert_eq!(kana_chunk(&text, 4), None);
    assert_eq!(
        kana_chunk(&text, 7),
        Some((9, target(vec![chunk("きゃ", &["kya"])])))
    );
    assert_eq!(kana_chunk(&text, 8), Some((9, target(vec![]))));
    assert_eq!(kana_chunk(&text, 9), None);
}

#[test]
fn text_lays_characters_out() {
    let text = Text::new("かxき");
    assert_eq!(text.len(), 3);
    assert_eq!(text.char_at(0), 'か');
    assert_eq!(text.char_at(1), 'x');
    assert_eq!(text.piece(1, 3), "xき");
    assert_eq!(text.piece(2, 2), "");
}

#[test]
fn target_grows_at_the_end() {
    let mut first = TypingTarget::new();
    assert!(first.chunks.is_empty());
    first.push("か".to_string(), vec!["ka".to_string()]);
    let mut second = TypingTarget::new();
    second.push("し".to_string(), vec!["shi".to_string(), "si".to_string()]);
    first.extend(second);
    assert_eq!(
        first,
        target(vec![chunk("か", &["ka"]), chunk("し", &["shi", "si"])])
    );
}

#[test]
fn displayed_pieces_follow_the_text() {
    for input in [
        "京(kyou)都(to)とかんだとひろしま",
        "かxき、がっこう",
        "ゃっ京(a)っ",
        "a)b(c)しゅっちょう",
    ] {
        let mut from = 0;
        for c in japanese(input).chunks {
            let at = input[from..].find(&c.displayed).unwrap();
            from += at + c.displayed.len();
        }
        assert!(from <= input.len());
    }
}

#[test]
fn run_without_reading_is_passed_over_whole() {
    assert_eq!(japanese("abcか"), japanese("か"));
    assert_eq!(japanese("abc(か"), japanese("か"));
    assert_eq!(
        japanese("abc京(kyou)"),
        target(vec![chunk("abc京", &["kyou"])])
    );
}

#[test]
fn chunks_do_not_depend_on_what_stands_before() {
    let whole = japanese("かxき京(kyou)");
    let rest = japanese("き京(kyou)");
    assert_eq!(whole.chunks[1..], rest.chunks[..]);
}

#[test]
fn p_row_is_typed_by_its_own_vowel() {
    assert_eq!(
        japanese("ぱぴぷぺぽ"),
        target(vec![
            chunk("ぱ", &["pa"]),
            chunk("ぴ", &["pi"]),
            chunk("ぷ", &["pu"]),
            chunk("ぺ", &["pe"]),
            chunk("ぽ", &["po"]),
        ])
    );
    assert_eq!(
        japanese("っぱ"),
        target(vec![chunk("っ", &["p"]), chunk("ぱ", &["pa"])])
    );
    assert_eq!(
        japanese("ピッピ"),
        target(vec![
            chunk("ピ", &["pi"]),
            chunk("ッ", &["p"]),
            chunk("ピ", &["pi"]),
        ])
    );
}
