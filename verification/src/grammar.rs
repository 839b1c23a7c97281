//! What chunking a text means, stated over its sequence of characters.
//!
//! A text is read from left to right. At each position one of three things
//! stands: an annotated run (text that is no kana, with its reading in
//! parentheses behind it), a run of kana units, or a character that gives no
//! chunk. Nothing is read twice, and nothing before the position matters.

use crate::chunk::ChunkView;
use crate::kana::{kana, mora, not_kana_or_open_paren, sokuon, sutegana};
use crate::table::spellings;
use vstd::prelude::*;

verus! {

/// Where the longest stretch from `i` on ends that holds neither kana nor
/// an opening parenthesis.
pub open spec fn run_end(s: Seq<char>, i: int) -> int
    decreases s.len() - i,
{
    if 0 <= i < s.len() && not_kana_or_open_paren(s[i]) {
        run_end(s, i + 1)
    } else {
        i
    }
}

/// Where the longest stretch from `i` on ends that holds no closing
/// parenthesis.
pub open spec fn reading_end(s: Seq<char>, i: int) -> int
    decreases s.len() - i,
{
    if 0 <= i < s.len() && s[i] != ')' {
        reading_end(s, i + 1)
    } else {
        i
    }
}

/// An annotated run: the positions of the parentheses around its reading.
pub ghost struct Annotation {
    pub open: int,
    pub close: int,
}

/// The annotated run that starts at `i`, if one does: a run of at least one
/// character, as long as it can be, then a reading in parentheses.
pub open spec fn annotation_at(s: Seq<char>, i: int) -> Option<Annotation> {
    let open = run_end(s, i);
    let close = reading_end(s, open + 1);
    if 0 <= i < open && open < s.len() && s[open] == '(' && close < s.len() {
        Some(Annotation { open, close })
    } else {
        None
    }
}

/// The chunk of the annotated run `a` that starts at `i`: the run is shown,
/// and its reading is typed as it is written.
pub open spec fn annotation_chunk(s: Seq<char>, i: int, a: Annotation) -> ChunkView {
    ChunkView { displayed: s.subrange(i, a.open), accepted: seq![s.subrange(a.open + 1, a.close)] }
}

/// Where the mora of the kana unit at `i` is looked for: behind the
/// geminate marker if the unit starts with one.
pub open spec fn mora_at(s: Seq<char>, i: int) -> int {
    if sokuon(s[i]) {
        i + 1
    } else {
        i
    }
}

/// Whether the kana unit at `i` has a mora.
pub open spec fn has_mora(s: Seq<char>, i: int) -> bool {
    mora_at(s, i) < s.len() && mora(s[mora_at(s, i)])
}

/// Where the kana unit at `i` ends. A unit with a mora takes the small kana
/// behind the mora where the table knows the two together. A unit without
/// one is the single character at `i`.
pub open spec fn unit_end(s: Seq<char>, i: int) -> int {
    let m = mora_at(s, i);
    if !has_mora(s, i) {
        i + 1
    } else if m + 1 < s.len() && sutegana(s[m + 1]) && spellings(s.subrange(m, m + 2)) is Some {
        m + 2
    } else {
        m + 1
    }
}

/// What is typed for a geminate marker: the first character of the
/// preferred spelling of the unit behind it.
pub open spec fn doubled(typed: Seq<Seq<char>>) -> Seq<Seq<char>> {
    seq![typed[0].subrange(0, 1)]
}

/// The chunks of the kana unit at `i`: one for the geminate marker if the
/// unit starts with one, and one for the mora with its small kana. A unit
/// that the table does not know gives none.
pub open spec fn unit_chunks(s: Seq<char>, i: int) -> Seq<ChunkView> {
    let m = mora_at(s, i);
    let combined = s.subrange(m, unit_end(s, i));
    if has_mora(s, i) && spellings(combined) is Some {
        let typed = spellings(combined)->0;
        let unit = ChunkView { displayed: combined, accepted: typed };
        if m > i {
            seq![ChunkView { displayed: s.subrange(i, m), accepted: doubled(typed) }, unit]
        } else {
            seq![unit]
        }
    } else {
        Seq::empty()
    }
}

/// Where the run of kana units that starts at `i` ends.
pub open spec fn kana_run_end(s: Seq<char>, i: int) -> int
    decreases s.len() - i,
{
    if 0 <= i < s.len() && kana(s[i]) {
        kana_run_end(s, unit_end(s, i))
    } else {
        i
    }
}

/// The chunks of the run of kana units that starts at `i`.
pub open spec fn kana_run_chunks(s: Seq<char>, i: int) -> Seq<ChunkView>
    decreases s.len() - i,
{
    if 0 <= i < s.len() && kana(s[i]) {
        unit_chunks(s, i) + kana_run_chunks(s, unit_end(s, i))
    } else {
        Seq::empty()
    }
}

/// A run ends at or behind its start, and within the text.
pub proof fn lemma_run_end_bounds(s: Seq<char>, i: int)
    requires
        0 <= i <= s.len(),
    ensures
        i <= run_end(s, i) <= s.len(),
    decreases s.len() - i,
{
    if i < s.len() && not_kana_or_open_paren(s[i]) {
        lemma_run_end_bounds(s, i + 1);
    }
}

/// A reading ends at or behind its start, and within the text.
pub proof fn lemma_reading_end_bounds(s: Seq<char>, i: int)
    requires
        0 <= i <= s.len(),
    ensures
        i <= reading_end(s, i) <= s.len(),
    decreases s.len() - i,
{
    if i < s.len() && s[i] != ')' {
        lemma_reading_end_bounds(s, i + 1);
    }
}

/// A run of kana units ends behind its start, and within the text.
pub proof fn lemma_kana_run_end_bounds(s: Seq<char>, i: int)
    requires
        0 <= i <= s.len(),
    ensures
        i <= kana_run_end(s, i) <= s.len(),
        i < s.len() && kana(s[i]) ==> i < kana_run_end(s, i),
    decreases s.len() - i,
{
    if i < s.len() && kana(s[i]) {
        lemma_kana_run_end_bounds(s, unit_end(s, i));
    }
}

/// The chunks of the text from `i` on.
pub open spec fn chunks_from(s: Seq<char>, i: int) -> Seq<ChunkView>
    decreases s.len() - i,
    via chunks_from_decreases
{
    if i < 0 || i >= s.len() {
        Seq::empty()
    } else if annotation_at(s, i) is Some {
        let a = annotation_at(s, i)->0;
        seq![annotation_chunk(s, i, a)] + chunks_from(s, a.close + 1)
    } else if kana(s[i]) {
        kana_run_chunks(s, i) + chunks_from(s, kana_run_end(s, i))
    } else {
        chunks_from(s, i + 1)
    }
}

#[via_fn]
proof fn chunks_from_decreases(s: Seq<char>, i: int) {
    if 0 <= i < s.len() {
        if annotation_at(s, i) is Some {
            lemma_reading_end_bounds(s, run_end(s, i) + 1);
        } else if kana(s[i]) {
            lemma_kana_run_end_bounds(s, i);
        }
    }
}

/// The chunks of a text.
pub open spec fn chunks_of(s: Seq<char>) -> Seq<ChunkView> {
    chunks_from(s, 0)
}

} // verus!
