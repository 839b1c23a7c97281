//! Typing chunks and the sequence of them that a text gives.

use vstd::prelude::*;

verus! {

/// One typing chunk: a piece of the text as it is shown, and the spellings
/// that type it, the preferred one first.
#[derive(Debug, Clone, PartialEq, Eq)]
pub struct Chunk {
    pub displayed: String,
    pub accepted: Vec<String>,
}

/// What a chunk holds, as sequences of characters.
pub ghost struct ChunkView {
    pub displayed: Seq<char>,
    pub accepted: Seq<Seq<char>>,
}

impl View for Chunk {
    type V = ChunkView;

    open spec fn view(&self) -> ChunkView {
        ChunkView { displayed: self.displayed@, accepted: self.accepted.deep_view() }
    }
}

/// The chunks of one text, in the order in which they are typed.
#[derive(Debug, Clone, PartialEq, Eq)]
pub struct TypingTarget {
    pub chunks: Vec<Chunk>,
}

impl View for TypingTarget {
    type V = Seq<ChunkView>;

    open spec fn view(&self) -> Seq<ChunkView> {
        Seq::new(self.chunks@.len(), |k: int| self.chunks@[k]@)
    }
}

/// The displayed pieces of `chunks`, joined in order.
pub open spec fn displayed_text(chunks: Seq<ChunkView>) -> Seq<char>
    decreases chunks.len(),
{
    if chunks.len() == 0 {
        Seq::empty()
    } else {
        displayed_text(chunks.drop_last()) + chunks.last().displayed
    }
}

impl TypingTarget {
    /// A target without chunks.
    pub fn new() -> (target: TypingTarget)
        ensures
            target@ == Seq::<ChunkView>::empty(),
    {
        let target = TypingTarget { chunks: Vec::new() };
        assert(target@ =~= Seq::<ChunkView>::empty());
        target
    }

    /// Adds one chunk at the end.
    pub fn push(&mut self, displayed: String, accepted: Vec<String>)
        ensures
            final(self)@ == old(self)@.push(
                ChunkView { displayed: displayed@, accepted: accepted.deep_view() },
            ),
    {
        self.chunks.push(Chunk { displayed, accepted });
        assert(self@ =~= old(self)@.push(
            ChunkView { displayed: displayed@, accepted: accepted.deep_view() },
        ));
    }

    /// Moves the chunks of `other` behind those of `self`.
    pub fn extend(&mut self, other: TypingTarget)
        ensures
            final(self)@ == old(self)@ + other@,
    {
        let ghost added = other@;
        let mut rest = other.chunks;
        self.chunks.append(&mut rest);
        assert(self@ =~= old(self)@ + added);
    }
}

} // verus!
