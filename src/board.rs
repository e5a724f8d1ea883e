use vstd::prelude::*;

verus! {

/// A 256-bit commitment to a hidden board and its nonce, held as eight
/// 32-bit words. Two commitments are the same exactly when every word is.
#[derive(Clone, Copy, Debug, PartialEq, Eq)]
pub struct BoardDigest {
    pub words: [u32; 8],
}

impl View for BoardDigest {
    type V = Seq<u32>;

    open spec fn view(&self) -> Seq<u32> {
        self.words@
    }
}

impl BoardDigest {
    /// Builds a commitment from its eight words.
    pub fn from_words(words: [u32; 8]) -> (r: BoardDigest)
        ensures
            r@ == words@,
    {
        BoardDigest { words }
    }

    /// Whether two commitments are word for word the same.
    pub fn same_as(&self, other: &BoardDigest) -> (r: bool)
        ensures
            r == (self@ == other@),
    {
        let mut i: usize = 0;
        while i < 8
            invariant
                i <= 8,
                self.words@.len() == 8,
                other.words@.len() == 8,
                forall|k: int| 0 <= k < i ==> self.words@[k] == other.words@[k],
            decreases 8 - i,
        {
            if self.words[i] != other.words[i] {
                return false;
            }
            i = i + 1;
        }
        assert(self.words@ =~= other.words@);
        true
    }
}

} // verus!
