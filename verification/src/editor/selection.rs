use vstd::prelude::*;

verus! {

/// A selection of a dialogue's text field: where it begins, how many
/// characters it covers, the column it keeps, and whether it was made
/// backwards.
#[derive(Clone, Copy, Debug, PartialEq, Eq, Structural)]
pub struct Selection {
    pub index: usize,
    pub length: usize,
    pub offset: usize,
    pub reversed: bool,
}

impl Selection {
    pub fn new(index: usize, length: usize, offset: usize) -> (r: Self)
        ensures
            r == (Selection { index, length, offset, reversed: false }),
    {
        Self { index, length, offset, reversed: false }
    }

    pub fn set_index_offset(&mut self, index: usize, offset: usize)
        ensures
            *final(self) == (Selection { index, offset, ..*old(self) }),
    {
        self.index = index;
        self.offset = offset;
    }

    pub fn set_index_length(&mut self, index: usize, length: usize)
        ensures
            *final(self) == (Selection { index, length, ..*old(self) }),
    {
        self.index = index;
        self.length = length;
    }

    /// Back to one character, forwards.
    pub fn reset(&mut self)
        ensures
            *final(self) == (Selection { length: 1, reversed: false, ..*old(self) }),
    {
        self.length = 1;
        self.reversed = false;
    }
}

} // verus!
