//! The romanization table.
//!
//! The table maps a kana unit, one mora or one mora with the small kana that
//! forms a digraph with it, to the spellings that type it, the preferred one
//! first. It keys on the sound: a katakana unit has the spellings of the
//! hiragana unit that it folds to.

use crate::kana::{lemma_to_hiragana, mora, sutegana, to_hiragana};
use vstd::prelude::*;

verus! {

/// The spellings of one hiragana mora, or of the long-vowel mark.
pub open spec fn mora_spellings(c: char) -> Option<Seq<Seq<char>>> {
    match c {
        'あ' => Some(seq!["a"@]),
        'い' => Some(seq!["i"@]),
        'う' => Some(seq!["u"@]),
        'え' => Some(seq!["e"@]),
        'お' => Some(seq!["o"@]),
        'か' => Some(seq!["ka"@]),
        'が' => Some(seq!["ga"@]),
        'き' => Some(seq!["ki"@]),
        'ぎ' => Some(seq!["gi"@]),
        'く' => Some(seq!["ku"@]),
        'ぐ' => Some(seq!["gu"@]),
        'け' => Some(seq!["ke"@]),
        'げ' => Some(seq!["ge"@]),
        'こ' => Some(seq!["ko"@]),
        'ご' => Some(seq!["go"@]),
        'さ' => Some(seq!["sa"@]),
        'ざ' => Some(seq!["za"@]),
        'し' => Some(seq!["shi"@, "si"@]),
        'じ' => Some(seq!["ji"@]),
        'す' => Some(seq!["su"@]),
        'ず' => Some(seq!["zu"@]),
        'せ' => Some(seq!["se"@]),
        'ぜ' => Some(seq!["ze"@]),
        'そ' => Some(seq!["so"@]),
        'ぞ' => Some(seq!["zo"@]),
        'た' => Some(seq!["ta"@]),
        'だ' => Some(seq!["da"@]),
        'ち' => Some(seq!["chi"@]),
        'ぢ' => Some(seq!["ji"@]),
        'つ' => Some(seq!["tsu"@, "tu"@]),
        'づ' => Some(seq!["dzu"@, "du"@]),
        'て' => Some(seq!["te"@]),
        'で' => Some(seq!["de"@]),
        'と' => Some(seq!["to"@]),
        'ど' => Some(seq!["do"@]),
        'な' => Some(seq!["na"@]),
        'に' => Some(seq!["ni"@]),
        'ぬ' => Some(seq!["nu"@]),
        'ね' => Some(seq!["ne"@]),
        'の' => Some(seq!["no"@]),
        'は' => Some(seq!["ha"@]),
        'ば' => Some(seq!["ba"@]),
        'ぱ' => Some(seq!["pa"@]),
        'ひ' => Some(seq!["hi"@]),
        'び' => Some(seq!["bi"@]),
        'ぴ' => Some(seq!["pi"@]),
        'ふ' => Some(seq!["fu"@]),
        'ぶ' => Some(seq!["bu"@]),
        'ぷ' => Some(seq!["pu"@]),
        'へ' => Some(seq!["he"@]),
        'べ' => Some(seq!["be"@]),
        'ぺ' => Some(seq!["pe"@]),
        'ほ' => Some(seq!["ho"@]),
        'ぼ' => Some(seq!["bo"@]),
        'ぽ' => Some(seq!["po"@]),
        'ま' => Some(seq!["ma"@]),
        'み' => Some(seq!["mi"@]),
        'む' => Some(seq!["mu"@]),
        'め' => Some(seq!["me"@]),
        'も' => Some(seq!["mo"@]),
        'や' => Some(seq!["ya"@]),
        'ゆ' => Some(seq!["yu"@]),
        'よ' => Some(seq!["yo"@]),
        'ら' => Some(seq!["ra"@]),
        'り' => Some(seq!["ri"@]),
        'る' => Some(seq!["ru"@]),
        'れ' => Some(seq!["re"@]),
        'ろ' => Some(seq!["ro"@]),
        'わ' => Some(seq!["wa"@]),
        'ゐ' => Some(seq!["wi"@]),
        'ゑ' => Some(seq!["we"@]),
        'を' => Some(seq!["wo"@]),
        'ん' => Some(seq!["n"@, "nn"@]),
        'ー' => Some(seq!["-"@]),
        _ => None,
    }
}

/// The spellings of the digraph that the hiragana mora `c` forms with the
/// small hiragana `y`.
pub open spec fn digraph_spellings(c: char, y: char) -> Option<Seq<Seq<char>>> {
    match (c, y) {
        ('き', 'ゃ') => Some(seq!["kya"@]),
        ('き', 'ゅ') => Some(seq!["kyu"@]),
        ('き', 'ょ') => Some(seq!["kyo"@]),
        ('し', 'ゃ') => Some(seq!["sha"@]),
        ('し', 'ゅ') => Some(seq!["shu"@]),
        ('し', 'ょ') => Some(seq!["sho"@]),
        ('ち', 'ゃ') => Some(seq!["cha"@]),
        ('ち', 'ゅ') => Some(seq!["chu"@]),
        ('ち', 'ょ') => Some(seq!["cho"@]),
        ('に', 'ゃ') => Some(seq!["nya"@]),
        ('に', 'ゅ') => Some(seq!["nyu"@]),
        ('に', 'ょ') => Some(seq!["nyo"@]),
        ('ひ', 'ゃ') => Some(seq!["hya"@]),
        ('ひ', 'ゅ') => Some(seq!["hyu"@]),
        ('ひ', 'ょ') => Some(seq!["hyo"@]),
        ('み', 'ゃ') => Some(seq!["mya"@]),
        ('み', 'ゅ') => Some(seq!["myu"@]),
        ('み', 'ょ') => Some(seq!["myo"@]),
        ('り', 'ゃ') => Some(seq!["rya"@]),
        ('り', 'ゅ') => Some(seq!["ryu"@]),
        ('り', 'ょ') => Some(seq!["ryo"@]),
        ('ぎ', 'ゃ') => Some(seq!["gya"@]),
        ('ぎ', 'ゅ') => Some(seq!["gyu"@]),
        ('ぎ', 'ょ') => Some(seq!["gyo"@]),
        ('じ', 'ゃ') => Some(seq!["ja"@]),
        ('じ', 'ゅ') => Some(seq!["ju"@]),
        ('じ', 'ょ') => Some(seq!["jo"@]),
        ('び', 'ゃ') => Some(seq!["bya"@]),
        ('び', 'ゅ') => Some(seq!["byu"@]),
        ('び', 'ょ') => Some(seq!["byo"@]),
        ('ぴ', 'ゃ') => Some(seq!["pya"@]),
        ('ぴ', 'ゅ') => Some(seq!["pyu"@]),
        ('ぴ', 'ょ') => Some(seq!["pyo"@]),
        _ => None,
    }
}

/// The table: the spellings of a kana unit, keyed by the whole unit.
pub open spec fn spellings(unit: Seq<char>) -> Option<Seq<Seq<char>>> {
    if unit.len() == 1 {
        mora_spellings(to_hiragana(unit[0]))
    } else if unit.len() == 2 {
        digraph_spellings(to_hiragana(unit[0]), to_hiragana(unit[1]))
    } else {
        None
    }
}

/// A list of one spelling.
fn one(a: &str) -> (list: Vec<String>)
    ensures
        list.deep_view() == seq![a@],
{
    let list = vec![a.to_owned()];
    assert(list.deep_view() =~= seq![a@]);
    list
}

/// A list of two spellings, the preferred one first.
fn two(a: &str, b: &str) -> (list: Vec<String>)
    ensures
        list.deep_view() == seq![a@, b@],
{
    let list = vec![a.to_owned(), b.to_owned()];
    assert(list.deep_view() =~= seq![a@, b@]);
    list
}

/// Looks a single mora up.
fn mora_entry(c: char) -> (typed: Option<Vec<String>>)
    ensures
        typed.deep_view() == mora_spellings(to_hiragana(c)),
{
    match c {
        'あ' | 'ア' => Some(one("a")),
        'い' | 'イ' => Some(one("i")),
        'う' | 'ウ' => Some(one("u")),
        'え' | 'エ' => Some(one("e")),
        'お' | 'オ' => Some(one("o")),
        'か' | 'カ' => Some(one("ka")),
        'が' | 'ガ' => Some(one("ga")),
        'き' | 'キ' => Some(one("ki")),
        'ぎ' | 'ギ' => Some(one("gi")),
        'く' | 'ク' => Some(one("ku")),
        'ぐ' | 'グ' => Some(one("gu")),
        'け' | 'ケ' => Some(one("ke")),
        'げ' | 'ゲ' => Some(one("ge")),
        'こ' | 'コ' => Some(one("ko")),
        'ご' | 'ゴ' => Some(one("go")),
        'さ' | 'サ' => Some(one("sa")),
        'ざ' | 'ザ' => Some(one("za")),
        'し' | 'シ' => Some(two("shi", "si")),
        'じ' | 'ジ' => Some(one("ji")),
        'す' | 'ス' => Some(one("su")),
        'ず' | 'ズ' => Some(one("zu")),
        'せ' | 'セ' => Some(one("se")),
        'ぜ' | 'ゼ' => Some(one("ze")),
        'そ' | 'ソ' => Some(one("so")),
        'ぞ' | 'ゾ' => Some(one("zo")),
        'た' | 'タ' => Some(one("ta")),
        'だ' | 'ダ' => Some(one("da")),
        'ち' | 'チ' => Some(one("chi")),
        'ぢ' | 'ヂ' => Some(one("ji")),
        'つ' | 'ツ' => Some(two("tsu", "tu")),
        'づ' | 'ヅ' => Some(two("dzu", "du")),
        'て' | 'テ' => Some(one("te")),
        'で' | 'デ' => Some(one("de")),
        'と' | 'ト' => Some(one("to")),
        'ど' | 'ド' => Some(one("do")),
        'な' | 'ナ' => Some(one("na")),
        'に' | 'ニ' => Some(one("ni")),
        'ぬ' | 'ヌ' => Some(one("nu")),
        'ね' | 'ネ' => Some(one("ne")),
        'の' | 'ノ' => Some(one("no")),
        'は' | 'ハ' => Some(one("ha")),
        'ば' | 'バ' => Some(one("ba")),
        'ぱ' | 'パ' => Some(one("pa")),
        'ひ' | 'ヒ' => Some(one("hi")),
        'び' | 'ビ' => Some(one("bi")),
        'ぴ' | 'ピ' => Some(one("pi")),
        'ふ' | 'フ' => Some(one("fu")),
        'ぶ' | 'ブ' => Some(one("bu")),
        'ぷ' | 'プ' => Some(one("pu")),
        'へ' | 'ヘ' => Some(one("he")),
        'べ' | 'ベ' => Some(one("be")),
        'ぺ' | 'ペ' => Some(one("pe")),
        'ほ' | 'ホ' => Some(one("ho")),
        'ぼ' | 'ボ' => Some(one("bo")),
        'ぽ' | 'ポ' => Some(one("po")),
        'ま' | 'マ' => Some(one("ma")),
        'み' | 'ミ' => Some(one("mi")),
        'む' | 'ム' => Some(one("mu")),
        'め' | 'メ' => Some(one("me")),
        'も' | 'モ' => Some(one("mo")),
        'や' | 'ヤ' => Some(one("ya")),
        'ゆ' | 'ユ' => Some(one("yu")),
        'よ' | 'ヨ' => Some(one("yo")),
        'ら' | 'ラ' => Some(one("ra")),
        'り' | 'リ' => Some(one("ri")),
        'る' | 'ル' => Some(one("ru")),
        'れ' | 'レ' => Some(one("re")),
        'ろ' | 'ロ' => Some(one("ro")),
        'わ' | 'ワ' => Some(one("wa")),
        'ゐ' | 'ヰ' => Some(one("wi")),
        'ゑ' | 'ヱ' => Some(one("we")),
        'を' | 'ヲ' => Some(one("wo")),
        'ん' | 'ン' => Some(two("n", "nn")),
        'ー' => Some(one("-")),
        _ => None,
    }
}

/// Looks a mora with a small kana behind it up.
fn digraph_entry(c: char, y: char) -> (typed: Option<Vec<String>>)
    ensures
        typed.deep_view() == digraph_spellings(to_hiragana(c), to_hiragana(y)),
{
    match (c, y) {
        ('き' | 'キ', 'ゃ' | 'ャ') => Some(one("kya")),
        ('き' | 'キ', 'ゅ' | 'ュ') => Some(one("kyu")),
        ('き' | 'キ', 'ょ' | 'ョ') => Some(one("kyo")),
        ('し' | 'シ', 'ゃ' | 'ャ') => Some(one("sha")),
        ('し' | 'シ', 'ゅ' | 'ュ') => Some(one("shu")),
        ('し' | 'シ', 'ょ' | 'ョ') => Some(one("sho")),
        ('ち' | 'チ', 'ゃ' | 'ャ') => Some(one("cha")),
        ('ち' | 'チ', 'ゅ' | 'ュ') => Some(one("chu")),
        ('ち' | 'チ', 'ょ' | 'ョ') => Some(one("cho")),
        ('に' | 'ニ', 'ゃ' | 'ャ') => Some(one("nya")),
        ('に' | 'ニ', 'ゅ' | 'ュ') => Some(one("nyu")),
        ('に' | 'ニ', 'ょ' | 'ョ') => Some(one("nyo")),
        ('ひ' | 'ヒ', 'ゃ' | 'ャ') => Some(one("hya")),
        ('ひ' | 'ヒ', 'ゅ' | 'ュ') => Some(one("hyu")),
        ('ひ' | 'ヒ', 'ょ' | 'ョ') => Some(one("hyo")),
        ('み' | 'ミ', 'ゃ' | 'ャ') => Some(one("mya")),
        ('み' | 'ミ', 'ゅ' | 'ュ') => Some(one("myu")),
        ('み' | 'ミ', 'ょ' | 'ョ') => Some(one("myo")),
        ('り' | 'リ', 'ゃ' | 'ャ') => Some(one("rya")),
        ('り' | 'リ', 'ゅ' | 'ュ') => Some(one("ryu")),
        ('り' | 'リ', 'ょ' | 'ョ') => Some(one("ryo")),
        ('ぎ' | 'ギ', 'ゃ' | 'ャ') => Some(one("gya")),
        ('ぎ' | 'ギ', 'ゅ' | 'ュ') => Some(one("gyu")),
        ('ぎ' | 'ギ', 'ょ' | 'ョ') => Some(one("gyo")),
        ('じ' | 'ジ', 'ゃ' | 'ャ') => Some(one("ja")),
        ('じ' | 'ジ', 'ゅ' | 'ュ') => Some(one("ju")),
        ('じ' | 'ジ', 'ょ' | 'ョ') => Some(one("jo")),
        ('び' | 'ビ', 'ゃ' | 'ャ') => Some(one("bya")),
        ('び' | 'ビ', 'ゅ' | 'ュ') => Some(one("byu")),
        ('び' | 'ビ', 'ょ' | 'ョ') => Some(one("byo")),
        ('ぴ' | 'ピ', 'ゃ' | 'ャ') => Some(one("pya")),
        ('ぴ' | 'ピ', 'ゅ' | 'ュ') => Some(one("pyu")),
        ('ぴ' | 'ピ', 'ょ' | 'ョ') => Some(one("pyo")),
        _ => None,
    }
}

/// Looks a kana unit up: the accepted spellings in order, or `None` where
/// the table has no entry for the unit.
pub fn kana_to_typed_chunks(kana: &str) -> (typed: Option<Vec<String>>)
    ensures
        typed.deep_view() == spellings(kana@),
{
    let n: usize = kana.unicode_len();
    if n == 1 {
        mora_entry(kana.get_char(0))
    } else if n == 2 {
        digraph_entry(kana.get_char(0), kana.get_char(1))
    } else {
        None
    }
}

/// A list of spellings as the table holds them: at least one spelling, and
/// none of them empty.
pub open spec fn typeable(list: Seq<Seq<char>>) -> bool {
    &&& list.len() >= 1
    &&& forall|k: int| 0 <= k < list.len() ==> (#[trigger] list[k]).len() >= 1
}

/// Every spelling that the table holds has a first character.
proof fn lemma_literals_nonempty()
    ensures
        forall|c: char| #[trigger] mora_spellings(c) is Some ==> typeable(mora_spellings(c)->0),
        forall|c: char, y: char| #[trigger]
            digraph_spellings(c, y) is Some ==> typeable(digraph_spellings(c, y)->0),
{
    reveal_strlit("a");
    reveal_strlit("i");
    reveal_strlit("u");
    reveal_strlit("e");
    reveal_strlit("o");
    reveal_strlit("ka");
    reveal_strlit("ga");
    reveal_strlit("ki");
    reveal_strlit("gi");
    reveal_strlit("ku");
    reveal_strlit("gu");
    reveal_strlit("ke");
    reveal_strlit("ge");
    reveal_strlit("ko");
    reveal_strlit("go");
    reveal_strlit("sa");
    reveal_strlit("za");
    reveal_strlit("shi");
    reveal_strlit("si");
    reveal_strlit("ji");
    reveal_strlit("su");
    reveal_strlit("zu");
    reveal_strlit("se");
    reveal_strlit("ze");
    reveal_strlit("so");
    reveal_strlit("zo");
    reveal_strlit("ta");
    reveal_strlit("da");
    reveal_strlit("chi");
    reveal_strlit("tsu");
    reveal_strlit("tu");
    reveal_strlit("dzu");
    reveal_strlit("du");
    reveal_strlit("te");
    reveal_strlit("de");
    reveal_strlit("to");
    reveal_strlit("do");
    reveal_strlit("na");
    reveal_strlit("ni");
    reveal_strlit("nu");
    reveal_strlit("ne");
    reveal_strlit("no");
    reveal_strlit("ha");
    reveal_strlit("ba");
    reveal_strlit("pa");
    reveal_strlit("hi");
    reveal_strlit("bi");
    reveal_strlit("pi");
    reveal_strlit("fu");
    reveal_strlit("bu");
    reveal_strlit("pu");
    reveal_strlit("he");
    reveal_strlit("be");
    reveal_strlit("pe");
    reveal_strlit("ho");
    reveal_strlit("bo");
    reveal_strlit("po");
    reveal_strlit("ma");
    reveal_strlit("mi");
    reveal_strlit("mu");
    reveal_strlit("me");
    reveal_strlit("mo");
    reveal_strlit("ya");
    reveal_strlit("yu");
    reveal_strlit("yo");
    reveal_strlit("ra");
    reveal_strlit("ri");
    reveal_strlit("ru");
    reveal_strlit("re");
    reveal_strlit("ro");
    reveal_strlit("wa");
    reveal_strlit("wi");
    reveal_strlit("we");
    reveal_strlit("wo");
    reveal_strlit("n");
    reveal_strlit("nn");
    reveal_strlit("-");
    reveal_strlit("kya");
    reveal_strlit("kyu");
    reveal_strlit("kyo");
    reveal_strlit("sha");
    reveal_strlit("shu");
    reveal_strlit("sho");
    reveal_strlit("cha");
    reveal_strlit("chu");
    reveal_strlit("cho");
    reveal_strlit("nya");
    reveal_strlit("nyu");
    reveal_strlit("nyo");
    reveal_strlit("hya");
    reveal_strlit("hyu");
    reveal_strlit("hyo");
    reveal_strlit("mya");
    reveal_strlit("myu");
    reveal_strlit("myo");
    reveal_strlit("rya");
    reveal_strlit("ryu");
    reveal_strlit("ryo");
    reveal_strlit("gya");
    reveal_strlit("gyu");
    reveal_strlit("gyo");
    reveal_strlit("ja");
    reveal_strlit("ju");
    reveal_strlit("jo");
    reveal_strlit("bya");
    reveal_strlit("byu");
    reveal_strlit("byo");
    reveal_strlit("pya");
    reveal_strlit("pyu");
    reveal_strlit("pyo");
}

/// Every entry of the table lists at least one spelling, and no spelling is
/// empty.
pub proof fn lemma_entries_typeable(unit: Seq<char>)
    requires
        spellings(unit) is Some,
    ensures
        typeable(spellings(unit)->0),
{
    lemma_literals_nonempty();
}

/// A single character has an entry exactly when it is a mora.
pub proof fn lemma_single_entry(c: char)
    ensures
        spellings(seq![c]) is Some <==> mora(c),
{
}

/// Only a mora followed by a small kana has an entry of two characters.
pub proof fn lemma_digraph_entry(unit: Seq<char>)
    requires
        unit.len() == 2,
        spellings(unit) is Some,
    ensures
        mora(unit[0]),
        sutegana(unit[1]),
{
}

/// Looking a unit up again gives the same list again, in the same order:
/// what a lookup gives depends on the unit alone.
pub proof fn lemma_lookup_repeatable(
    unit: Seq<char>,
    first: Option<Vec<String>>,
    second: Option<Vec<String>>,
)
    requires
        first.deep_view() == spellings(unit),
        second.deep_view() == spellings(unit),
    ensures
        first.deep_view() == second.deep_view(),
{
}

/// The table keys on the sound, not on the script: a unit has the spellings
/// of the unit that it folds to.
pub proof fn lemma_script_folding(unit: Seq<char>)
    ensures
        spellings(unit.map_values(|c: char| to_hiragana(c))) == spellings(unit),
{
    if unit.len() == 1 {
        lemma_to_hiragana(unit[0]);
    } else if unit.len() == 2 {
        lemma_to_hiragana(unit[0]);
        lemma_to_hiragana(unit[1]);
    }
}

} // verus!
