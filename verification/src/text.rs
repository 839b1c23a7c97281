//! A text with its characters laid out, so that a scanner reads a character
//! by its position and cuts pieces out by positions.

use vstd::prelude::*;

verus! {

/// A text to chunk. Its view is the sequence of its characters.
pub struct Text<'a> {
    source: &'a str,
    chars: Vec<char>,
}

impl<'a> View for Text<'a> {
    type V = Seq<char>;

    closed spec fn view(&self) -> Seq<char> {
        self.source@
    }
}

impl<'a> Text<'a> {
    #[verifier::type_invariant]
    spec fn laid_out(&self) -> bool {
        self.chars@ == self.source@
    }

    /// Lays the characters of `source` out.
    pub fn new(source: &'a str) -> (text: Text<'a>)
        ensures
            text@ == source@,
    {
        let mut chars: Vec<char> = Vec::new();
        for c in it: source.chars()
            invariant
                it.seq() == source@,
                chars@ == it.seq().take(it.index() as int),
        {
            chars.push(c);
        }
        assert(chars@ == source@);
        Text { source, chars }
    }

    /// The number of characters.
    pub fn len(&self) -> (n: usize)
        ensures
            n == self@.len(),
    {
        proof {
            use_type_invariant(self);
        }
        self.chars.len()
    }

    /// The character at position `i`.
    pub fn char_at(&self, i: usize) -> (c: char)
        requires
            i < self@.len(),
        ensures
            c == self@[i as int],
    {
        proof {
            use_type_invariant(self);
        }
        self.chars[i]
    }

    /// The piece of the text from position `from` up to position `to`.
    pub fn piece(&self, from: usize, to: usize) -> (piece: &'a str)
        requires
            from <= to <= self@.len(),
        ensures
            piece@ == self@.subrange(from as int, to as int),
    {
        self.source.substring_char(from, to)
    }
}

} // verus!
