use vstd::prelude::*;

verus! {

/// How the selections of a text buffer move: by characters, by words or by
/// whole lines.
#[derive(Clone, Copy, Debug, PartialEq, Eq, Structural)]
pub enum SelectionMode {
    Character,
    Word,
    Line,
}

impl SelectionMode {
    /// The name shown in the status bar.
    pub fn name(&self) -> (r: &'static str)
        ensures
            r@ == match *self {
                SelectionMode::Character => "character"@,
                SelectionMode::Word => "word"@,
                SelectionMode::Line => "line"@,
            },
    {
        match self {
            SelectionMode::Character => "character",
            SelectionMode::Word => "word",
            SelectionMode::Line => "line",
        }
    }

    pub fn is_character(&self) -> (r: bool)
        ensures
            r <==> *self == SelectionMode::Character,
    {
        match self {
            SelectionMode::Character => true,
            _ => false,
        }
    }

    pub fn is_word(&self) -> (r: bool)
        ensures
            r <==> *self == SelectionMode::Word,
    {
        match self {
            SelectionMode::Word => true,
            _ => false,
        }
    }

    pub fn is_line(&self) -> (r: bool)
        ensures
            r <==> *self == SelectionMode::Line,
    {
        match self {
            SelectionMode::Line => true,
            _ => false,
        }
    }
}

/// One selection of a text buffer: the cursor (`primary_index`), the other end
/// of the selected range (`secondary_index`), both inclusive, and the column the
/// cursor tries to keep when it moves between lines (`offset`).
#[derive(Clone, Copy, Debug, PartialEq, Eq, Structural)]
pub struct Selection {
    pub primary_index: usize,
    pub secondary_index: usize,
    pub offset: usize,
}

impl Selection {
    pub fn new(primary_index: usize, secondary_index: usize, offset: usize) -> (r: Self)
        ensures
            r.primary_index == primary_index,
            r.secondary_index == secondary_index,
            r.offset == offset,
    {
        Self { primary_index, secondary_index, offset }
    }

    /// The smaller of the two ends.
    pub open spec fn first(self) -> usize {
        if self.primary_index <= self.secondary_index {
            self.primary_index
        } else {
            self.secondary_index
        }
    }

    /// The larger of the two ends.
    pub open spec fn last(self) -> usize {
        if self.primary_index >= self.secondary_index {
            self.primary_index
        } else {
            self.secondary_index
        }
    }

    pub open spec fn with_primary(self, primary_index: usize) -> Selection {
        Selection { primary_index, ..self }
    }

    pub open spec fn with_secondary(self, secondary_index: usize) -> Selection {
        Selection { secondary_index, ..self }
    }

    pub open spec fn with_offset(self, offset: usize) -> Selection {
        Selection { offset, ..self }
    }
}

} // verus!
