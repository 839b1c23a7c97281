//! A text of kana that the table knows all through is displayed whole.

use crate::chunk::{displayed_text, ChunkView};
use crate::grammar::{
    chunks_from, chunks_of, has_mora, kana_run_chunks, kana_run_end, mora_at, run_end,
    unit_chunks, unit_end,
};
use crate::kana::{kana, lemma_classes_disjoint, mora, sokuon, sutegana};
use crate::table::{lemma_single_entry, spellings};
use vstd::prelude::*;

verus! {

/// A text made of kana that the table knows all through: every geminate
/// marker stands before a mora, and every small kana stands behind a mora
/// with which it has an entry.
pub open spec fn recognized(s: Seq<char>) -> bool {
    forall|j: int|
        0 <= j < s.len() ==> {
            &&& kana(#[trigger] s[j])
            &&& sokuon(s[j]) ==> j + 1 < s.len() && mora(s[j + 1])
            &&& sutegana(s[j]) ==> j >= 1 && mora(s[j - 1]) && spellings(s.subrange(j - 1, j + 1))
                is Some
        }
}

/// The displayed text of two sequences of chunks, one behind the other, is
/// the displayed text of the first and then that of the second.
pub proof fn lemma_displayed_text_concat(a: Seq<ChunkView>, b: Seq<ChunkView>)
    ensures
        displayed_text(a + b) == displayed_text(a) + displayed_text(b),
    decreases b.len(),
{
    if b.len() == 0 {
        assert(a + b =~= a);
        assert(displayed_text(a) + displayed_text(b) =~= displayed_text(a));
    } else {
        lemma_displayed_text_concat(a, b.drop_last());
        assert((a + b).drop_last() =~= a + b.drop_last());
        assert((a + b).last() == b.last());
        assert(displayed_text(a + b) =~= displayed_text(a) + displayed_text(b));
    }
}

/// The displayed text of a single chunk is what the chunk displays.
pub proof fn lemma_displayed_text_single(c: ChunkView)
    ensures
        displayed_text(seq![c]) == c.displayed,
{
    let one = seq![c];
    assert(one.drop_last() =~= Seq::<ChunkView>::empty());
    assert(displayed_text(one.drop_last()) =~= Seq::<char>::empty());
    assert(displayed_text(one) =~= c.displayed);
}

/// In a recognized text, a unit that does not start with a small kana
/// displays all of itself, and no small kana is left behind it.
proof fn lemma_unit_covers(s: Seq<char>, i: int)
    requires
        recognized(s),
        0 <= i < s.len(),
        !sutegana(s[i]),
    ensures
        i < unit_end(s, i) <= s.len(),
        displayed_text(unit_chunks(s, i)) == s.subrange(i, unit_end(s, i)),
        unit_end(s, i) < s.len() ==> !sutegana(s[unit_end(s, i)]),
{
    let m = mora_at(s, i);
    let end = unit_end(s, i);
    let combined = s.subrange(m, end);
    lemma_classes_disjoint(s[i]);
    assert(kana(s[i]));
    assert(has_mora(s, i));
    if end == m + 1 {
        assert(combined =~= seq![s[m]]);
        lemma_single_entry(s[m]);
    }
    assert(spellings(combined) is Some);
    let chunks = unit_chunks(s, i);
    if m > i {
        assert(chunks =~= seq![chunks[0]] + seq![chunks[1]]);
        lemma_displayed_text_concat(seq![chunks[0]], seq![chunks[1]]);
        lemma_displayed_text_single(chunks[0]);
        lemma_displayed_text_single(chunks[1]);
        assert(s.subrange(i, m) + s.subrange(m, end) =~= s.subrange(i, end));
    } else {
        assert(chunks =~= seq![chunks[0]]);
        lemma_displayed_text_single(chunks[0]);
    }
    if end < s.len() && sutegana(s[end]) {
        assert(kana(s[end]));
        lemma_classes_disjoint(s[end - 1]);
    }
}

/// In a recognized text, the run of units from `i` on reaches the end of
/// the text and displays all of it from `i` on.
proof fn lemma_kana_run_covers(s: Seq<char>, i: int)
    requires
        recognized(s),
        0 <= i <= s.len(),
        i < s.len() ==> !sutegana(s[i]),
    ensures
        kana_run_end(s, i) == s.len(),
        displayed_text(kana_run_chunks(s, i)) == s.subrange(i, s.len() as int),
    decreases s.len() - i,
{
    if i < s.len() {
        assert(kana(s[i]));
        let end = unit_end(s, i);
        lemma_unit_covers(s, i);
        lemma_kana_run_covers(s, end);
        lemma_displayed_text_concat(unit_chunks(s, i), kana_run_chunks(s, end));
        assert(s.subrange(i, end) + s.subrange(end, s.len() as int) =~= s.subrange(
            i,
            s.len() as int,
        ));
    } else {
        assert(s.subrange(i, s.len() as int) =~= Seq::<char>::empty());
    }
}

/// The chunks of a text made of kana that the table knows all through
/// display the whole text: their displayed pieces, joined in order, are
/// the text, character for character.
pub proof fn lemma_coverage(s: Seq<char>)
    requires
        recognized(s),
    ensures
        displayed_text(chunks_of(s)) == s,
{
    if s.len() == 0 {
        assert(s =~= Seq::<char>::empty());
    } else {
        assert(kana(s[0]));
        lemma_kana_run_covers(s, 0);
        assert(run_end(s, 0) == 0);
        assert(chunks_from(s, s.len() as int) =~= Seq::<ChunkView>::empty());
        assert(chunks_of(s) =~= kana_run_chunks(s, 0));
        assert(s.subrange(0, s.len() as int) =~= s);
    }
}

} // verus!
