//! The chunker: a scanner that reads a text once, from left to right, and
//! gives its typing chunks.

use crate::chunk::{displayed_text, TypingTarget};
use crate::grammar::{
    annotation_at, annotation_chunk, chunks_from, chunks_of, kana_run_chunks, kana_run_end,
    reading_end, run_end, unit_chunks, unit_end,
};
use crate::kana::{is_kana, is_mora, is_not_kana_or_open_paren, is_sokuon, is_sutegana, kana};
use crate::laws::coverage::{lemma_coverage, recognized};
use crate::laws::order::{cut_in_order, lemma_chunks_cut_in_order};
use crate::laws::typing::{all_complete, lemma_chunks_complete};
use crate::table::{kana_to_typed_chunks, lemma_entries_typeable, spellings};
use crate::text::Text;
use vstd::prelude::*;

verus! {

/// Reads the annotated run that starts at `pos`, if one does: gives the
/// position behind its closing parenthesis, and its one chunk.
pub fn parenthesized(text: &Text, pos: usize) -> (found: Option<(usize, TypingTarget)>)
    ensures
        match found {
            Some((next, target)) => {
                &&& annotation_at(text@, pos as int) is Some
                &&& pos < next <= text@.len()
                &&& next == annotation_at(text@, pos as int)->0.close + 1
                &&& target@ == seq![
                    annotation_chunk(text@, pos as int, annotation_at(text@, pos as int)->0),
                ]
            },
            None => annotation_at(text@, pos as int) is None,
        },
{
    let n: usize = text.len();
    let mut open: usize = pos;
    while open < n && is_not_kana_or_open_paren(text.char_at(open))
        invariant
            n == text@.len(),
            pos <= open,
            run_end(text@, pos as int) == run_end(text@, open as int),
        decreases n - open,
    {
        open += 1;
    }
    if open == pos || open >= n || text.char_at(open) != '(' {
        return None;
    }
    let mut close: usize = open + 1;
    while close < n && text.char_at(close) != ')'
        invariant
            n == text@.len(),
            open < close <= n,
            reading_end(text@, open + 1) == reading_end(text@, close as int),
        decreases n - close,
    {
        close += 1;
    }
    if close >= n {
        return None;
    }
    let mut accepted: Vec<String> = Vec::new();
    accepted.push(text.piece(open + 1, close).to_owned());
    assert(accepted.deep_view() =~= seq![text@.subrange(open + 1, close as int)]);
    let mut target = TypingTarget::new();
    target.push(text.piece(pos, open).to_owned(), accepted);
    assert(target@ =~= seq![
        annotation_chunk(text@, pos as int, annotation_at(text@, pos as int)->0),
    ]);
    Some((close + 1, target))
}

/// Reads the kana unit at `pos` and puts its chunks behind those of
/// `target`: gives the position behind the unit.
fn kana_unit(text: &Text, pos: usize, target: &mut TypingTarget) -> (next: usize)
    requires
        pos < text@.len(),
        kana(text@[pos as int]),
    ensures
        next == unit_end(text@, pos as int),
        final(target)@ == old(target)@ + unit_chunks(text@, pos as int),
{
    let n: usize = text.len();
    let m: usize = if is_sokuon(text.char_at(pos)) {
        pos + 1
    } else {
        pos
    };
    if m >= n || !is_mora(text.char_at(m)) {
        assert(target@ =~= old(target)@ + unit_chunks(text@, pos as int));
        return pos + 1;
    }
    let mut end: usize = m + 1;
    let mut typed: Option<Vec<String>> = None;
    if end < n && is_sutegana(text.char_at(end)) {
        typed = kana_to_typed_chunks(text.piece(m, m + 2));
        if typed.is_some() {
            end = m + 2;
        }
    }
    if end == m + 1 {
        typed = kana_to_typed_chunks(text.piece(m, m + 1));
    }
    assert(end == unit_end(text@, pos as int));
    assert(typed.deep_view() == spellings(text@.subrange(m as int, end as int)));
    match typed {
        Some(list) => {
            proof {
                lemma_entries_typeable(text@.subrange(m as int, end as int));
                assert(list.deep_view().len() == list@.len());
                assert(list.deep_view()[0] == list@[0]@);
            }
            if m > pos {
                let mut first: Vec<String> = Vec::new();
                first.push(list[0].as_str().substring_char(0, 1).to_owned());
                assert(first.deep_view() =~= seq![list.deep_view()[0].subrange(0, 1)]);
                target.push(text.piece(pos, m).to_owned(), first);
            }
            target.push(text.piece(m, end).to_owned(), list);
            assert(target@ =~= old(target)@ + unit_chunks(text@, pos as int));
        },
        None => {
            assert(target@ =~= old(target)@ + unit_chunks(text@, pos as int));
        },
    }
    end
}

/// Reads the run of kana units that starts at `pos`, if `pos` holds a kana:
/// gives the position behind the run, and the chunks of its units.
pub fn kana_chunk(text: &Text, pos: usize) -> (found: Option<(usize, TypingTarget)>)
    ensures
        match found {
            Some((next, target)) => {
                &&& pos < text@.len()
                &&& kana(text@[pos as int])
                &&& pos < next <= text@.len()
                &&& next == kana_run_end(text@, pos as int)
                &&& target@ == kana_run_chunks(text@, pos as int)
            },
            None => !(pos < text@.len() && kana(text@[pos as int])),
        },
{
    let n: usize = text.len();
    if pos >= n || !is_kana(text.char_at(pos)) {
        return None;
    }
    let mut target = TypingTarget::new();
    let mut cur: usize = pos;
    while cur < n && is_kana(text.char_at(cur))
        invariant
            n == text@.len(),
            pos <= cur <= n,
            kana_run_end(text@, pos as int) == kana_run_end(text@, cur as int),
            kana_run_chunks(text@, pos as int) == target@ + kana_run_chunks(text@, cur as int),
        decreases n - cur,
    {
        let ghost before = target@;
        let next: usize = kana_unit(text, cur, &mut target);
        assert(target@ + kana_run_chunks(text@, next as int) =~= before + kana_run_chunks(
            text@,
            cur as int,
        ));
        cur = next;
    }
    assert(target@ =~= kana_run_chunks(text@, pos as int));
    Some((cur, target))
}

/// Chunks a text: the chunks of its annotated runs and of its kana, in the
/// order of the text. A character that is neither gives no chunk. Every
/// chunk shows something and can be typed, the chunks display pieces of the
/// text in its order, and where the text is kana that the table knows all
/// through, they display all of it.
pub fn japanese(input: &str) -> (target: TypingTarget)
    ensures
        target@ == chunks_of(input@),
        all_complete(target@),
        cut_in_order(target@, input@, 0, input@.len() as int),
        recognized(input@) ==> displayed_text(target@) == input@,
{
    let text = Text::new(input);
    let n: usize = text.len();
    let mut target = TypingTarget::new();
    let mut pos: usize = 0;
    while pos < n
        invariant
            n == text@.len(),
            text@ == input@,
            pos <= n,
            chunks_of(input@) == target@ + chunks_from(input@, pos as int),
        decreases n - pos,
    {
        match parenthesized(&text, pos) {
            Some((next, run)) => {
                target.extend(run);
                pos = next;
            },
            None => {
                match kana_chunk(&text, pos) {
                    Some((next, run)) => {
                        target.extend(run);
                        pos = next;
                    },
                    None => {
                        pos += 1;
                    },
                }
            },
        }
        assert(chunks_of(input@) =~= target@ + chunks_from(input@, pos as int));
    }
    assert(target@ =~= chunks_of(input@));
    proof {
        lemma_chunks_complete(input@);
        lemma_chunks_cut_in_order(input@);
        if recognized(input@) {
            lemma_coverage(input@);
        }
    }
    target
}

} // verus!
