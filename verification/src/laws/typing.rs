//! Every chunk can be shown and typed.

use crate::chunk::ChunkView;
use crate::grammar::{
    annotation_at, chunks_from, chunks_of, has_mora, kana_run_chunks, kana_run_end,
    lemma_kana_run_end_bounds, lemma_reading_end_bounds, mora_at, unit_chunks, unit_end,
};
use crate::kana::kana;
use crate::table::{lemma_entries_typeable, spellings};
use vstd::prelude::*;

verus! {

/// A chunk that shows something and lists at least one spelling.
pub open spec fn complete(c: ChunkView) -> bool {
    c.displayed.len() >= 1 && c.accepted.len() >= 1
}

/// Every chunk of `chunks` is complete.
pub open spec fn all_complete(chunks: Seq<ChunkView>) -> bool {
    forall|k: int| 0 <= k < chunks.len() ==> complete(#[trigger] chunks[k])
}

/// The chunks of one kana unit are complete.
proof fn lemma_unit_complete(s: Seq<char>, i: int)
    requires
        0 <= i < s.len(),
        kana(s[i]),
    ensures
        all_complete(unit_chunks(s, i)),
{
    let m = mora_at(s, i);
    let combined = s.subrange(m, unit_end(s, i));
    if has_mora(s, i) && spellings(combined) is Some {
        lemma_entries_typeable(combined);
    }
}

/// The chunks of a run of kana units are complete.
proof fn lemma_kana_run_complete(s: Seq<char>, i: int)
    requires
        0 <= i <= s.len(),
    ensures
        all_complete(kana_run_chunks(s, i)),
    decreases s.len() - i,
{
    if i < s.len() && kana(s[i]) {
        lemma_unit_complete(s, i);
        lemma_kana_run_complete(s, unit_end(s, i));
    }
}

/// The chunks from any position on are complete.
proof fn lemma_chunks_from_complete(s: Seq<char>, i: int)
    requires
        0 <= i <= s.len(),
    ensures
        all_complete(chunks_from(s, i)),
    decreases s.len() - i,
{
    if i < s.len() {
        if annotation_at(s, i) is Some {
            let a = annotation_at(s, i)->0;
            lemma_reading_end_bounds(s, a.open + 1);
            lemma_chunks_from_complete(s, a.close + 1);
        } else if kana(s[i]) {
            lemma_kana_run_end_bounds(s, i);
            lemma_kana_run_complete(s, i);
            lemma_chunks_from_complete(s, kana_run_end(s, i));
        } else {
            lemma_chunks_from_complete(s, i + 1);
        }
    }
}

/// Every chunk of every text shows at least one character and lists at
/// least one spelling.
pub proof fn lemma_chunks_complete(s: Seq<char>)
    ensures
        all_complete(chunks_of(s)),
{
    lemma_chunks_from_complete(s, 0);
}

} // verus!
