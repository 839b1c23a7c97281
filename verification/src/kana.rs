//! Character classes of the kana inventory.
//!
//! A character of the text to chunk is a mora (a full-size kana of either
//! script, or the long-vowel mark), a small kana that forms digraphs, the
//! geminate marker, or something else. Each class is a predicate on `char`
//! with an executable test beside it.

use vstd::prelude::*;

verus! {

/// The full-size hiragana, one mora each.
pub open spec fn hiragana(c: char) -> bool {
    ||| c == 'あ' || c == 'い' || c == 'う' || c == 'え' || c == 'お'
    ||| c == 'か' || c == 'が' || c == 'き' || c == 'ぎ' || c == 'く'
    ||| c == 'ぐ' || c == 'け' || c == 'げ' || c == 'こ' || c == 'ご'
    ||| c == 'さ' || c == 'ざ' || c == 'し' || c == 'じ' || c == 'す'
    ||| c == 'ず' || c == 'せ' || c == 'ぜ' || c == 'そ' || c == 'ぞ'
    ||| c == 'た' || c == 'だ' || c == 'ち' || c == 'ぢ' || c == 'つ'
    ||| c == 'づ' || c == 'て' || c == 'で' || c == 'と' || c == 'ど'
    ||| c == 'な' || c == 'に' || c == 'ぬ' || c == 'ね' || c == 'の'
    ||| c == 'は' || c == 'ば' || c == 'ぱ' || c == 'ひ' || c == 'び'
    ||| c == 'ぴ' || c == 'ふ' || c == 'ぶ' || c == 'ぷ' || c == 'へ'
    ||| c == 'べ' || c == 'ぺ' || c == 'ほ' || c == 'ぼ' || c == 'ぽ'
    ||| c == 'ま' || c == 'み' || c == 'む' || c == 'め' || c == 'も'
    ||| c == 'や' || c == 'ゆ' || c == 'よ' || c == 'ら' || c == 'り'
    ||| c == 'る' || c == 'れ' || c == 'ろ' || c == 'わ' || c == 'ゐ'
    ||| c == 'ゑ' || c == 'を' || c == 'ん'
}

/// The full-size katakana, one mora each, and the long-vowel mark.
pub open spec fn katakana(c: char) -> bool {
    ||| c == 'ア' || c == 'イ' || c == 'ウ' || c == 'エ' || c == 'オ'
    ||| c == 'カ' || c == 'ガ' || c == 'キ' || c == 'ギ' || c == 'ク'
    ||| c == 'グ' || c == 'ケ' || c == 'ゲ' || c == 'コ' || c == 'ゴ'
    ||| c == 'サ' || c == 'ザ' || c == 'シ' || c == 'ジ' || c == 'ス'
    ||| c == 'ズ' || c == 'セ' || c == 'ゼ' || c == 'ソ' || c == 'ゾ'
    ||| c == 'タ' || c == 'ダ' || c == 'チ' || c == 'ヂ' || c == 'ツ'
    ||| c == 'ヅ' || c == 'テ' || c == 'デ' || c == 'ト' || c == 'ド'
    ||| c == 'ナ' || c == 'ニ' || c == 'ヌ' || c == 'ネ' || c == 'ノ'
    ||| c == 'ハ' || c == 'バ' || c == 'パ' || c == 'ヒ' || c == 'ビ'
    ||| c == 'ピ' || c == 'フ' || c == 'ブ' || c == 'プ' || c == 'ヘ'
    ||| c == 'ベ' || c == 'ペ' || c == 'ホ' || c == 'ボ' || c == 'ポ'
    ||| c == 'マ' || c == 'ミ' || c == 'ム' || c == 'メ' || c == 'モ'
    ||| c == 'ヤ' || c == 'ユ' || c == 'ヨ' || c == 'ラ' || c == 'リ'
    ||| c == 'ル' || c == 'レ' || c == 'ロ' || c == 'ワ' || c == 'ヰ'
    ||| c == 'ヱ' || c == 'ヲ' || c == 'ン' || c == 'ー'
}

/// A mora: one full-size kana of either script.
pub open spec fn mora(c: char) -> bool {
    hiragana(c) || katakana(c)
}

/// The small kana that may follow a mora to form a digraph.
pub open spec fn sutegana(c: char) -> bool {
    ||| c == 'ァ' || c == 'ィ' || c == 'ゥ' || c == 'ェ' || c == 'ォ' || c == 'ャ' || c == 'ュ' || c == 'ョ'
    ||| c == 'ぁ' || c == 'ぃ' || c == 'ぅ' || c == 'ぇ' || c == 'ぉ' || c == 'ゃ' || c == 'ゅ' || c == 'ょ'
}

/// The geminate marker, in either script.
pub open spec fn sokuon(c: char) -> bool {
    c == 'っ' || c == 'ッ'
}

/// Any character of the kana inventory.
pub open spec fn kana(c: char) -> bool {
    mora(c) || sutegana(c) || sokuon(c)
}

/// A character that may stand in an annotated run: anything but kana and
/// the opening parenthesis.
pub open spec fn not_kana_or_open_paren(c: char) -> bool {
    c != '(' && !kana(c)
}

/// The hiragana with the phonetic value of `c` where `c` is a katakana of
/// the block that mirrors the hiragana block, and `c` itself otherwise.
pub open spec fn to_hiragana(c: char) -> char {
    if 'ァ' <= c && c <= 'ヶ' {
        ((c as u32) - 0x60u32) as char
    } else {
        c
    }
}

/// Tells whether `c` is a small kana that forms digraphs.
pub fn is_sutegana(c: char) -> (r: bool)
    ensures
        r == sutegana(c),
{
    c == 'ゃ' || c == 'ゅ' || c == 'ょ' || c == 'ぁ' || c == 'ぃ' || c == 'ぅ' || c == 'ぇ' || c == 'ぉ'
        || c == 'ャ' || c == 'ュ' || c == 'ョ' || c == 'ァ' || c == 'ィ' || c == 'ゥ' || c == 'ェ'
        || c == 'ォ'
}

/// Tells whether `c` is the geminate marker.
pub fn is_sokuon(c: char) -> (r: bool)
    ensures
        r == sokuon(c),
{
    c == 'っ' || c == 'ッ'
}

/// Tells whether `c` is a full-size hiragana.
pub fn is_hiragana(c: char) -> (r: bool)
    ensures
        r == hiragana(c),
{
    'あ' <= c && c <= 'ん' && !is_sutegana(c) && !is_sokuon(c) && c != 'ゎ'
}

/// Tells whether `c` is a full-size katakana or the long-vowel mark.
pub fn is_katakana(c: char) -> (r: bool)
    ensures
        r == katakana(c),
{
    c == 'ー' || ('ア' <= c && c <= 'ン' && !is_sutegana(c) && !is_sokuon(c) && c != 'ヮ')
}

/// Tells whether `c` is a mora.
pub fn is_mora(c: char) -> (r: bool)
    ensures
        r == mora(c),
{
    is_hiragana(c) || is_katakana(c)
}

/// Tells whether `c` belongs to the kana inventory.
pub fn is_kana(c: char) -> (r: bool)
    ensures
        r == kana(c),
{
    is_mora(c) || is_sutegana(c) || is_sokuon(c)
}

/// Tells whether `c` may stand in an annotated run.
pub fn is_not_kana_or_open_paren(c: char) -> (r: bool)
    ensures
        r == not_kana_or_open_paren(c),
{
    c != '(' && !is_kana(c)
}

/// The three classes of kana share no character.
pub proof fn lemma_classes_disjoint(c: char)
    ensures
        !(mora(c) && sutegana(c)),
        !(mora(c) && sokuon(c)),
        !(sutegana(c) && sokuon(c)),
        !(hiragana(c) && katakana(c)),
{
}

/// Folding keeps each class, sends every katakana mora but the long-vowel
/// mark to a hiragana, and changes nothing when applied again.
pub proof fn lemma_to_hiragana(c: char)
    ensures
        mora(to_hiragana(c)) == mora(c),
        sutegana(to_hiragana(c)) == sutegana(c),
        sokuon(to_hiragana(c)) == sokuon(c),
        katakana(c) && c != 'ー' ==> hiragana(to_hiragana(c)),
        hiragana(c) ==> to_hiragana(c) == c,
        to_hiragana(to_hiragana(c)) == to_hiragana(c),
{
}

} // verus!
