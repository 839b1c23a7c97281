//! The chunks display pieces of the text in the order of the text.

use crate::chunk::ChunkView;
use crate::grammar::{
    annotation_at, annotation_chunk, chunks_from, chunks_of, kana_run_chunks, kana_run_end,
    lemma_kana_run_end_bounds, lemma_reading_end_bounds, mora_at, unit_chunks, unit_end,
};
use crate::kana::kana;
use vstd::prelude::*;

verus! {

/// The chunk `c` displays the piece of `s` from `from` up to `to`.
pub open spec fn displays(c: ChunkView, s: Seq<char>, from: int, to: int) -> bool {
    0 <= from < to <= s.len() && c.displayed == s.subrange(from, to)
}

/// The chunks display pieces of `s` that lie between `lo` and `hi`, one
/// behind the other in the order of the chunks.
pub open spec fn cut_in_order(chunks: Seq<ChunkView>, s: Seq<char>, lo: int, hi: int) -> bool
    decreases chunks.len(),
{
    if chunks.len() == 0 {
        true
    } else {
        exists|from: int, to: int|
            #![trigger displays(chunks[0], s, from, to)]
            displays(chunks[0], s, from, to) && lo <= from && to <= hi && cut_in_order(
                chunks.drop_first(),
                s,
                to,
                hi,
            )
    }
}

/// A chunk that displays a piece, put before chunks cut behind that piece,
/// gives chunks cut in order.
proof fn lemma_cut_first(
    c: ChunkView,
    others: Seq<ChunkView>,
    s: Seq<char>,
    lo: int,
    from: int,
    to: int,
    hi: int,
)
    requires
        displays(c, s, from, to),
        lo <= from,
        to <= hi,
        cut_in_order(others, s, to, hi),
    ensures
        cut_in_order(seq![c] + others, s, lo, hi),
{
    let all = seq![c] + others;
    assert(all[0] == c);
    assert(all.drop_first() =~= others);
    assert(displays(all[0], s, from, to));
}

/// Chunks cut in order from `lo` on are cut in order from anywhere before.
proof fn lemma_cut_wider(chunks: Seq<ChunkView>, s: Seq<char>, lo: int, hi: int, lower: int)
    requires
        cut_in_order(chunks, s, lo, hi),
        lower <= lo,
    ensures
        cut_in_order(chunks, s, lower, hi),
{
    if chunks.len() > 0 {
        let (from, to) = choose|from: int, to: int|
            #![trigger displays(chunks[0], s, from, to)]
            displays(chunks[0], s, from, to) && lo <= from && to <= hi && cut_in_order(
                chunks.drop_first(),
                s,
                to,
                hi,
            );
        assert(displays(chunks[0], s, from, to));
    }
}

/// Chunks cut in order up to `mid`, then chunks cut in order from `mid`
/// on, are cut in order together.
proof fn lemma_cut_concat(
    a: Seq<ChunkView>,
    b: Seq<ChunkView>,
    s: Seq<char>,
    lo: int,
    mid: int,
    hi: int,
)
    requires
        cut_in_order(a, s, lo, mid),
        cut_in_order(b, s, mid, hi),
        lo <= mid <= hi,
    ensures
        cut_in_order(a + b, s, lo, hi),
    decreases a.len(),
{
    if a.len() == 0 {
        assert(a + b =~= b);
        lemma_cut_wider(b, s, mid, hi, lo);
    } else {
        let (from, to) = choose|from: int, to: int|
            #![trigger displays(a[0], s, from, to)]
            displays(a[0], s, from, to) && lo <= from && to <= mid && cut_in_order(
                a.drop_first(),
                s,
                to,
                mid,
            );
        lemma_cut_concat(a.drop_first(), b, s, to, mid, hi);
        assert(a + b =~= seq![a[0]] + (a.drop_first() + b));
        lemma_cut_first(a[0], a.drop_first() + b, s, lo, from, to, hi);
    }
}

/// The chunks of a kana unit are cut in order from the unit.
proof fn lemma_unit_cut(s: Seq<char>, i: int)
    requires
        0 <= i < s.len(),
        kana(s[i]),
    ensures
        i < unit_end(s, i) <= s.len(),
        cut_in_order(unit_chunks(s, i), s, i, unit_end(s, i)),
{
    let m = mora_at(s, i);
    let end = unit_end(s, i);
    let chunks = unit_chunks(s, i);
    let none = Seq::<ChunkView>::empty();
    if chunks.len() == 2 {
        lemma_cut_first(chunks[1], none, s, m, m, end, end);
        lemma_cut_first(chunks[0], seq![chunks[1]] + none, s, i, i, m, end);
        assert(chunks =~= seq![chunks[0]] + (seq![chunks[1]] + none));
    } else if chunks.len() == 1 {
        lemma_cut_first(chunks[0], none, s, i, m, end, end);
        assert(chunks =~= seq![chunks[0]] + none);
    }
}

/// The chunks of a run of kana units are cut in order from the run.
proof fn lemma_kana_run_cut(s: Seq<char>, i: int)
    requires
        0 <= i <= s.len(),
    ensures
        i <= kana_run_end(s, i) <= s.len(),
        cut_in_order(kana_run_chunks(s, i), s, i, kana_run_end(s, i)),
    decreases s.len() - i,
{
    if i < s.len() && kana(s[i]) {
        let end = unit_end(s, i);
        lemma_unit_cut(s, i);
        lemma_kana_run_cut(s, end);
        lemma_cut_concat(
            unit_chunks(s, i),
            kana_run_chunks(s, end),
            s,
            i,
            end,
            kana_run_end(s, i),
        );
    }
}

/// The chunks from `i` on are cut in order from the text behind `i`.
proof fn lemma_chunks_from_cut(s: Seq<char>, i: int)
    requires
        0 <= i <= s.len(),
    ensures
        cut_in_order(chunks_from(s, i), s, i, s.len() as int),
    decreases s.len() - i,
{
    let n = s.len() as int;
    if i < n {
        if annotation_at(s, i) is Some {
            let a = annotation_at(s, i)->0;
            lemma_reading_end_bounds(s, a.open + 1);
            lemma_chunks_from_cut(s, a.close + 1);
            lemma_cut_wider(chunks_from(s, a.close + 1), s, a.close + 1, n, a.open);
            lemma_cut_first(
                annotation_chunk(s, i, a),
                chunks_from(s, a.close + 1),
                s,
                i,
                i,
                a.open,
                n,
            );
        } else if kana(s[i]) {
            let end = kana_run_end(s, i);
            lemma_kana_run_cut(s, i);
            lemma_kana_run_end_bounds(s, i);
            lemma_chunks_from_cut(s, end);
            lemma_cut_concat(kana_run_chunks(s, i), chunks_from(s, end), s, i, end, n);
        } else {
            lemma_chunks_from_cut(s, i + 1);
            lemma_cut_wider(chunks_from(s, i + 1), s, i + 1, n, i);
        }
    }
}

/// Every chunk of a text displays a piece of the text, and the pieces lie
/// one behind the other in the order of the chunks: nothing is displayed
/// twice, and nothing out of its place.
pub proof fn lemma_chunks_cut_in_order(s: Seq<char>)
    ensures
        cut_in_order(chunks_of(s), s, 0, s.len() as int),
{
    lemma_chunks_from_cut(s, 0);
}

} // verus!
