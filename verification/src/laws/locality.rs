//! The chunks from a position on depend on nothing before it, and a
//! character that gives no chunk leaves the chunks around it as they are.

use crate::chunk::ChunkView;
use crate::grammar::{
    annotation_at, annotation_chunk, chunks_from, chunks_of, has_mora, kana_run_chunks,
    kana_run_end, lemma_kana_run_end_bounds, lemma_reading_end_bounds, lemma_run_end_bounds,
    mora_at, reading_end, run_end, unit_chunks, unit_end,
};
use crate::kana::kana;
use vstd::prelude::*;

verus! {

/// The text from position `k` on.
pub open spec fn rest(s: Seq<char>, k: int) -> Seq<char> {
    s.subrange(k, s.len() as int)
}

/// A run ends at the same character in the text and in its rest.
proof fn lemma_run_end_rest(s: Seq<char>, k: int, i: int)
    requires
        0 <= k <= i <= s.len(),
    ensures
        run_end(s, i) == run_end(rest(s, k), i - k) + k,
    decreases s.len() - i,
{
    if i < s.len() {
        assert(rest(s, k)[i - k] == s[i]);
        lemma_run_end_rest(s, k, i + 1);
    }
}

/// A reading ends at the same character in the text and in its rest.
proof fn lemma_reading_end_rest(s: Seq<char>, k: int, i: int)
    requires
        0 <= k <= i <= s.len(),
    ensures
        reading_end(s, i) == reading_end(rest(s, k), i - k) + k,
    decreases s.len() - i,
{
    if i < s.len() {
        assert(rest(s, k)[i - k] == s[i]);
        lemma_reading_end_rest(s, k, i + 1);
    }
}

/// An annotated run of the text is one of its rest, with the same chunk.
proof fn lemma_annotation_rest(s: Seq<char>, k: int, i: int)
    requires
        0 <= k <= i < s.len(),
    ensures
        annotation_at(s, i) is Some <==> annotation_at(rest(s, k), i - k) is Some,
        annotation_at(s, i) is Some ==> {
            let a = annotation_at(s, i)->0;
            let b = annotation_at(rest(s, k), i - k)->0;
            &&& a.open == b.open + k
            &&& a.close == b.close + k
            &&& annotation_chunk(s, i, a) == annotation_chunk(rest(s, k), i - k, b)
        },
{
    let t = rest(s, k);
    lemma_run_end_rest(s, k, i);
    lemma_run_end_bounds(s, i);
    let open = run_end(s, i);
    if open < s.len() {
        assert(t[open - k] == s[open]);
        lemma_reading_end_rest(s, k, open + 1);
        lemma_reading_end_bounds(s, open + 1);
        if annotation_at(s, i) is Some {
            let a = annotation_at(s, i)->0;
            let b = annotation_at(t, i - k)->0;
            assert(s.subrange(i, a.open) =~= t.subrange(i - k, b.open));
            assert(s.subrange(a.open + 1, a.close) =~= t.subrange(b.open + 1, b.close));
        }
    }
}

/// A kana unit of the text is one of its rest, with the same chunks.
proof fn lemma_unit_rest(s: Seq<char>, k: int, i: int)
    requires
        0 <= k <= i < s.len(),
    ensures
        unit_end(s, i) == unit_end(rest(s, k), i - k) + k,
        unit_chunks(s, i) == unit_chunks(rest(s, k), i - k),
        i < unit_end(s, i) <= s.len(),
{
    let t = rest(s, k);
    let m = mora_at(s, i);
    assert(t[i - k] == s[i]);
    assert(mora_at(t, i - k) == m - k);
    if m < s.len() {
        assert(t[m - k] == s[m]);
        if m + 1 < s.len() {
            assert(t[m + 1 - k] == s[m + 1]);
            assert(s.subrange(m, m + 2) =~= t.subrange(m - k, m + 2 - k));
        }
    }
    assert(has_mora(s, i) == has_mora(t, i - k));
    let end = unit_end(s, i);
    assert(end == unit_end(t, i - k) + k);
    assert(s.subrange(m, end) =~= t.subrange(m - k, end - k));
    assert(s.subrange(i, m) =~= t.subrange(i - k, m - k));
}

/// A run of kana units of the text is one of its rest, with the same chunks.
proof fn lemma_kana_run_rest(s: Seq<char>, k: int, i: int)
    requires
        0 <= k <= i <= s.len(),
    ensures
        kana_run_end(s, i) == kana_run_end(rest(s, k), i - k) + k,
        kana_run_chunks(s, i) == kana_run_chunks(rest(s, k), i - k),
    decreases s.len() - i,
{
    if i < s.len() {
        assert(rest(s, k)[i - k] == s[i]);
        if kana(s[i]) {
            lemma_unit_rest(s, k, i);
            lemma_kana_run_rest(s, k, unit_end(s, i));
        }
    }
}

/// Nothing before a position matters to the chunks from that position on:
/// they are the chunks of the rest of the text.
pub proof fn lemma_chunks_from_rest(s: Seq<char>, k: int, i: int)
    requires
        0 <= k <= i <= s.len(),
    ensures
        chunks_from(s, i) == chunks_from(rest(s, k), i - k),
    decreases s.len() - i,
{
    let t = rest(s, k);
    if i < s.len() {
        assert(t[i - k] == s[i]);
        lemma_annotation_rest(s, k, i);
        if annotation_at(s, i) is Some {
            let a = annotation_at(s, i)->0;
            lemma_reading_end_bounds(s, a.open + 1);
            lemma_chunks_from_rest(s, k, a.close + 1);
        } else if kana(s[i]) {
            lemma_kana_run_end_bounds(s, i);
            lemma_kana_run_rest(s, k, i);
            lemma_chunks_from_rest(s, k, kana_run_end(s, i));
        } else {
            lemma_chunks_from_rest(s, k, i + 1);
        }
    }
}

/// Every character of `s` is kana.
pub open spec fn all_kana(s: Seq<char>) -> bool {
    forall|j: int| 0 <= j < s.len() ==> kana(#[trigger] s[j])
}

/// Where `s` starts with the kana `a` and goes on with no kana, a unit
/// that starts inside `a` is the same in `s` and in `a` alone.
proof fn lemma_unit_in_kana_prefix(a: Seq<char>, s: Seq<char>, i: int)
    requires
        all_kana(a),
        a.len() <= s.len(),
        s.subrange(0, a.len() as int) == a,
        a.len() < s.len() ==> !kana(s[a.len() as int]),
        0 <= i < a.len(),
    ensures
        unit_end(s, i) == unit_end(a, i),
        unit_chunks(s, i) == unit_chunks(a, i),
        i < unit_end(a, i) <= a.len(),
{
    let n = a.len() as int;
    assert forall|j: int| 0 <= j < n implies s[j] == a[j] by {
        assert(s.subrange(0, n)[j] == s[j]);
    }
    let m = mora_at(s, i);
    assert(m == mora_at(a, i));
    assert(has_mora(s, i) == has_mora(a, i));
    if has_mora(a, i) {
        if m + 1 < n {
            assert(s.subrange(m, m + 2) =~= a.subrange(m, m + 2));
        }
        let end = unit_end(s, i);
        assert(end == unit_end(a, i));
        assert(s.subrange(m, end) =~= a.subrange(m, end));
        assert(s.subrange(i, m) =~= a.subrange(i, m));
    }
}

/// Where `s` starts with the kana `a` and goes on with no kana, the run of
/// units from a position inside `a` ends where `a` ends, with the chunks
/// that it has in `a` alone.
proof fn lemma_kana_run_in_kana_prefix(a: Seq<char>, s: Seq<char>, i: int)
    requires
        all_kana(a),
        a.len() <= s.len(),
        s.subrange(0, a.len() as int) == a,
        a.len() < s.len() ==> !kana(s[a.len() as int]),
        0 <= i <= a.len(),
    ensures
        kana_run_end(s, i) == a.len(),
        kana_run_end(a, i) == a.len(),
        kana_run_chunks(s, i) == kana_run_chunks(a, i),
    decreases a.len() - i,
{
    if i < a.len() {
        assert(s.subrange(0, a.len() as int)[i] == s[i]);
        assert(kana(a[i]));
        lemma_unit_in_kana_prefix(a, s, i);
        lemma_kana_run_in_kana_prefix(a, s, unit_end(a, i));
    }
}

/// The chunks of a text of kana are those of its one run of kana units.
pub proof fn lemma_chunks_of_kana(a: Seq<char>)
    requires
        all_kana(a),
    ensures
        chunks_of(a) == kana_run_chunks(a, 0),
{
    if a.len() > 0 {
        assert(kana(a[0]));
        assert(run_end(a, 0) == 0);
        assert(a.subrange(0, a.len() as int) =~= a);
        lemma_kana_run_in_kana_prefix(a, a, 0);
        assert(chunks_from(a, a.len() as int) =~= Seq::<ChunkView>::empty());
        assert(chunks_of(a) =~= kana_run_chunks(a, 0));
    }
}

/// A character that is no kana and starts no annotated run, behind a
/// stretch of kana, is passed over: the text gives the chunks of what stands
/// before the character, then the chunks of what stands behind it.
pub proof fn lemma_skip_behind_kana(a: Seq<char>, x: char, b: Seq<char>)
    requires
        all_kana(a),
        !kana(x),
        annotation_at(seq![x] + b, 0) is None,
    ensures
        chunks_of(a + seq![x] + b) == chunks_of(a) + chunks_of(b),
{
    let s = a + seq![x] + b;
    let n = a.len() as int;
    assert(s.subrange(0, n) =~= a);
    assert(s[n] == x);
    assert(rest(s, n) =~= seq![x] + b);
    assert(rest(s, n + 1) =~= b);
    lemma_chunks_of_kana(a);
    lemma_kana_run_in_kana_prefix(a, s, 0);
    lemma_annotation_rest(s, n, n);
    lemma_chunks_from_rest(s, n + 1, n + 1);
    assert(chunks_from(s, n) == chunks_of(b));
    if n > 0 {
        assert(s[0] == a[0]);
        assert(kana(a[0]));
        assert(run_end(s, 0) == 0);
        assert(chunks_of(s) == kana_run_chunks(s, 0) + chunks_from(s, n));
    }
}

/// A character that is no kana, between two stretches of kana, neither
/// spoils nor drops a chunk of either: the text gives the chunks of the
/// first stretch, then those of the second.
pub proof fn lemma_skip_between_kana(a: Seq<char>, x: char, b: Seq<char>)
    requires
        all_kana(a),
        all_kana(b),
        !kana(x),
    ensures
        chunks_of(a + seq![x] + b) == chunks_of(a) + chunks_of(b),
{
    let t = seq![x] + b;
    if x != '(' {
        if b.len() > 0 {
            assert(t[1] == b[0]);
            assert(kana(b[0]));
        }
        assert(run_end(t, 1) == 1);
        assert(run_end(t, 0) == 1);
    }
    lemma_skip_behind_kana(a, x, b);
}

/// A run that has no reading behind it is not split to find one: no
/// annotated run starts inside it either.
pub proof fn lemma_run_is_not_split(s: Seq<char>, i: int, j: int)
    requires
        0 <= i <= j < run_end(s, i),
        annotation_at(s, i) is None,
    ensures
        annotation_at(s, j) is None,
        !kana(s[j]),
    decreases j - i,
{
    lemma_run_end_bounds(s, i);
    if i < j {
        if i + 1 < run_end(s, i) {
            lemma_run_is_not_split(s, i + 1, j);
        }
    }
}

/// A run that has no reading behind it gives no chunk: the chunks from its
/// start on are those from its end on.
pub proof fn lemma_unread_run_gives_no_chunk(s: Seq<char>, i: int)
    requires
        0 <= i <= s.len(),
        annotation_at(s, i) is None,
    ensures
        chunks_from(s, i) == chunks_from(s, run_end(s, i)),
    decreases s.len() - i,
{
    lemma_run_end_bounds(s, i);
    if i < run_end(s, i) {
        lemma_run_is_not_split(s, i, i);
        assert(run_end(s, i) == run_end(s, i + 1));
        assert(chunks_from(s, i) == chunks_from(s, i + 1));
        if i + 1 < run_end(s, i) {
            lemma_run_is_not_split(s, i, i + 1);
            lemma_unread_run_gives_no_chunk(s, i + 1);
        }
    }
}

} // verus!
