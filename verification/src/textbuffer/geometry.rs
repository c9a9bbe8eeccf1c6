use vstd::prelude::*;

use super::Textbuffer;
use crate::chars::{char_is_newline, char_is_whitespace};
use crate::context::TextbufferContext;
use crate::filebuffer::Filebuffer;
use crate::lines::{column, first_non_whitespace, lemma_first_non_whitespace, lemma_newline_count_step, lemma_rest_of_line_bound, line_of, newline_count, rest_of_line};
use crate::selection::Selection;

verus! {

/// Where the start of a line is taken to be: `buffer_index - range`, or, when
/// starting at the first symbol is wanted, the first character in
/// `buffer_index - range .. buffer_index` that is not whitespace, if there is one.
pub open spec fn start_target(text: Seq<char>, start_at_symbol: bool, disabled: bool, buffer_index: int, range: int) -> int {
    if !disabled && start_at_symbol {
        match first_non_whitespace(text, buffer_index - range, buffer_index) {
            Some(j) => j,
            None => buffer_index - range,
        }
    } else {
        buffer_index - range
    }
}

/// Whether a newline lies in `text[from .. to]`.
pub open spec fn has_newline(text: Seq<char>, from: int, to: int) -> bool {
    exists|k: int| from <= k < to && text[k] == '\n'
}

impl Textbuffer {
    /// The first line that `line` is, as a position: the first position whose
    /// line is `line`, or the last position where the text has fewer lines.
    pub(crate) fn index_from_line(&self, filebuffer: &Filebuffer, line: usize) -> (r: usize)
        requires
            filebuffer.text().len() > 0,
        ensures
            r < filebuffer.text().len(),
            (line_of(filebuffer.text(), r as int) == line && forall|j: int|
                0 <= j < r ==> line_of(filebuffer.text(), j) != line) || (r == filebuffer.text().len() - 1
                && forall|j: int| 0 <= j < filebuffer.text().len() ==> line_of(filebuffer.text(), j) != line),
    {
        let ghost text = filebuffer.text();
        let length = filebuffer.length();
        let mut line_count: usize = 0;
        let mut index: usize = 0;
        while index < length
            invariant
                text == filebuffer.text(),
                length == text.len(),
                index <= length,
                line_count <= index,
                line_count == newline_count(text.take(index as int)),
                forall|j: int| 0 <= j < index ==> line_of(text, j) != line,
            decreases length - index,
        {
            if line_count == line {
                return index;
            }
            proof {
                lemma_newline_count_step(text, index as int);
            }
            if char_is_newline(filebuffer.character(index)) {
                line_count = line_count + 1;
            }
            index = index + 1;
        }
        filebuffer.last_buffer_index()
    }

    /// The line of position `index`.
    pub fn line_number_from_index(&self, filebuffer: &Filebuffer, index: usize) -> (r: usize)
        ensures
            r == line_of(filebuffer.text(), index as int),
            r <= filebuffer.text().len(),
    {
        let ghost text = filebuffer.text();
        let length = filebuffer.length();
        let mut line_count: usize = 0;
        let mut current: usize = 0;
        while current < length
            invariant
                text == filebuffer.text(),
                length == text.len(),
                current <= length,
                current <= index,
                line_count <= current,
                line_count == newline_count(text.take(current as int)),
            decreases length - current,
        {
            if current == index {
                return line_count;
            }
            proof {
                lemma_newline_count_step(text, current as int);
            }
            if char_is_newline(filebuffer.character(current)) {
                line_count = line_count + 1;
            }
            current = current + 1;
        }
        assert(text.take(length as int) =~= text);
        line_count
    }

    /// The column of position `index`.
    pub fn offset_from_index(&self, filebuffer: &Filebuffer, index: usize) -> (r: usize)
        requires
            index <= filebuffer.text().len(),
        ensures
            r == column(filebuffer.text(), index as int),
    {
        let ghost text = filebuffer.text();
        let mut left_offset: usize = 0;
        let mut current: usize = index;
        while current > 0
            invariant
                text == filebuffer.text(),
                current <= index <= text.len(),
                left_offset + current == index,
                column(text, index as int) == left_offset + column(text, current as int),
            decreases current,
        {
            if char_is_newline(filebuffer.character(current - 1)) {
                return left_offset;
            }
            left_offset = left_offset + 1;
            current = current - 1;
        }
        left_offset
    }

    /// How many characters the line has from `index` on, the newline that ends
    /// it included.
    pub(crate) fn line_length_from_index(&self, filebuffer: &Filebuffer, index: usize) -> (r: usize)
        requires
            index < filebuffer.text().len() <= usize::MAX / 8,
        ensures
            r == rest_of_line(filebuffer.text(), index as int, filebuffer.text().len() - 1),
            1 <= r <= filebuffer.text().len() - index,
    {
        let ghost text = filebuffer.text();
        let last = filebuffer.last_buffer_index();
        let mut length: usize = 1;
        let mut current: usize = index;
        proof {
            lemma_rest_of_line_bound(text, index as int, last as int);
        }
        while current < last
            invariant
                text == filebuffer.text(),
                last == text.len() - 1,
                text.len() <= usize::MAX / 8,
                index <= current <= last,
                length == current - index + 1,
                rest_of_line(text, index as int, last as int) == (current - index) + rest_of_line(
                    text,
                    current as int,
                    last as int,
                ),
            decreases last - current,
        {
            if char_is_newline(filebuffer.character(current)) {
                return length;
            }
            length = length + 1;
            current = current + 1;
        }
        length
    }

    /// How many characters the line has up to `index`, plus one.
    pub(crate) fn reverse_line_length_from_index(&self, filebuffer: &Filebuffer, index: usize) -> (r: usize)
        requires
            index <= filebuffer.text().len() <= usize::MAX / 8,
        ensures
            r == column(filebuffer.text(), index as int) + 1,
    {
        let ghost text = filebuffer.text();
        let mut length: usize = 1;
        let mut current: usize = index;
        while current > 0
            invariant
                text == filebuffer.text(),
                current <= index <= text.len(),
                text.len() <= usize::MAX / 8,
                length + current == index + 1,
                column(text, index as int) + 1 == length + column(text, current as int),
            decreases current,
        {
            if char_is_newline(filebuffer.character(current - 1)) {
                return length;
            }
            length = length + 1;
            current = current - 1;
        }
        length
    }

    /// Where the start of the line before `buffer_index` is taken to be.
    pub(crate) fn adjust_start_index(
        &self,
        textbuffer_context: &TextbufferContext,
        filebuffer: &Filebuffer,
        disabled: bool,
        buffer_index: usize,
        range: usize,
    ) -> (r: usize)
        requires
            range <= buffer_index <= filebuffer.text().len(),
        ensures
            r == start_target(filebuffer.text(), textbuffer_context.start_at_symbol, disabled, buffer_index as int,
                range as int),
            buffer_index - range <= r <= buffer_index,
    {
        let ghost text = filebuffer.text();
        let low = buffer_index - range;
        let mut last_safe = low;
        if !disabled && textbuffer_context.start_at_symbol {
            let mut current: usize = buffer_index;
            while current > low
                invariant
                    text == filebuffer.text(),
                    low <= current <= buffer_index <= text.len(),
                    low == buffer_index - range,
                    last_safe == match first_non_whitespace(text, current as int, buffer_index as int) {
                        Some(j) => j,
                        None => low as int,
                    },
                    low <= last_safe <= buffer_index,
                decreases current,
            {
                proof {
                    lemma_first_non_whitespace(text, current as int, buffer_index as int);
                }
                if !char_is_whitespace(filebuffer.character(current - 1)) {
                    last_safe = current - 1;
                }
                current = current - 1;
            }
        }
        last_safe
    }

    pub(crate) fn selection_smallest_index(&self, index: usize) -> (r: usize)
        requires
            index < self.sels().len(),
        ensures
            r == self.sels()[index as int].first(),
    {
        let selection = self.selections[index];
        if selection.primary_index <= selection.secondary_index {
            selection.primary_index
        } else {
            selection.secondary_index
        }
    }

    pub(crate) fn selection_biggest_index(&self, index: usize) -> (r: usize)
        requires
            index < self.sels().len(),
        ensures
            r == self.sels()[index as int].last(),
    {
        let selection = self.selections[index];
        if selection.primary_index >= selection.secondary_index {
            selection.primary_index
        } else {
            selection.secondary_index
        }
    }

    /// The selection covers more than one character.
    pub(crate) fn is_selection_extended(&self, index: usize) -> (r: bool)
        requires
            index < self.sels().len(),
        ensures
            r == (self.sels()[index as int].primary_index != self.sels()[index as int].secondary_index),
    {
        self.selections[index].primary_index != self.selections[index].secondary_index
    }

    /// The cursor is before the other end.
    pub(crate) fn is_selection_inverted(&self, index: usize) -> (r: bool)
        requires
            index < self.sels().len(),
        ensures
            r == (self.sels()[index as int].primary_index < self.sels()[index as int].secondary_index),
    {
        self.selections[index].primary_index < self.selections[index].secondary_index
    }

    /// How many characters the selection covers.
    pub(crate) fn selection_length(&self, index: usize) -> (r: usize)
        requires
            index < self.sels().len(),
            self.sels()[index as int].last() < usize::MAX,
        ensures
            r == self.sels()[index as int].last() - self.sels()[index as int].first() + 1,
    {
        self.selection_biggest_index(index) - self.selection_smallest_index(index) + 1
    }

    /// The cursor is on a newline.
    pub(crate) fn is_selection_newline(&self, filebuffer: &Filebuffer, index: usize) -> (r: bool)
        requires
            index < self.sels().len(),
            self.sels()[index as int].primary_index < filebuffer.text().len(),
        ensures
            r == (filebuffer.text()[self.sels()[index as int].primary_index as int] == '\n'),
    {
        char_is_newline(filebuffer.character(self.selections[index].primary_index))
    }

    /// The last selected character is a newline.
    pub(crate) fn is_last_selected_newline(&self, filebuffer: &Filebuffer, index: usize) -> (r: bool)
        requires
            index < self.sels().len(),
            selection_in_text(self.sels()[index as int], filebuffer),
        ensures
            r == (filebuffer.text()[self.sels()[index as int].last() as int] == '\n'),
    {
        let last_index = self.selection_biggest_index(index);
        char_is_newline(filebuffer.character(last_index))
    }

    /// The cursor is on the last character.
    pub(crate) fn is_selection_end_of_buffer(&self, filebuffer: &Filebuffer, index: usize) -> (r: bool)
        requires
            index < self.sels().len(),
            filebuffer.text().len() > 0,
        ensures
            r == (self.sels()[index as int].primary_index == filebuffer.text().len() - 1),
    {
        self.selections[index].primary_index == filebuffer.last_buffer_index()
    }

    /// The selection touches the first or the last character.
    pub(crate) fn is_selection_edge(&self, filebuffer: &Filebuffer, index: usize) -> (r: bool)
        requires
            index < self.sels().len(),
            filebuffer.text().len() > 0,
        ensures
            r == (self.sels()[index as int].first() == 0 || self.sels()[index as int].last() == filebuffer.text().len()
                - 1),
    {
        let smallest_index = self.selection_smallest_index(index);
        let biggest_index = self.selection_biggest_index(index);
        smallest_index == 0 || biggest_index == filebuffer.last_buffer_index()
    }

    /// The selection spans a newline (its last character not counted).
    pub(crate) fn is_selection_multiline(&self, filebuffer: &Filebuffer, index: usize) -> (r: bool)
        requires
            index < self.sels().len(),
            selection_in_text(self.sels()[index as int], filebuffer),
        ensures
            r == has_newline(filebuffer.text(), self.sels()[index as int].first() as int,
                self.sels()[index as int].last() as int),
    {
        let smallest = self.selection_smallest_index(index);
        let biggest = self.selection_biggest_index(index);
        let mut current = smallest;
        while current < biggest
            invariant
                smallest <= current <= biggest < filebuffer.text().len(),
                smallest == self.sels()[index as int].first(),
                biggest == self.sels()[index as int].last(),
                forall|k: int| smallest <= k < current ==> filebuffer.text()[k] != '\n',
            decreases biggest - current,
        {
            if char_is_newline(filebuffer.character(current)) {
                return true;
            }
            current = current + 1;
        }
        false
    }

    /// The first selection that actions move: the last one while a selection
    /// is being added, else the first.
    pub(crate) fn selection_start(&self) -> (r: usize)
        requires
            self.sels().len() > 0,
        ensures
            r == (if self.adding() { self.sels().len() - 1 } else { 0 }),
    {
        if self.adding_selection {
            self.selections.len() - 1
        } else {
            0
        }
    }

    /// Some selection covers `primary_index ..= secondary_index`.
    pub(crate) fn index_has_selection(&self, primary_index: usize, secondary_index: usize) -> (r: bool)
        ensures
            r == exists|i: int|
                0 <= i < self.sels().len() && primary_index >= (#[trigger] self.sels()[i]).first() && secondary_index
                    <= self.sels()[i].last(),
    {
        let mut index: usize = 0;
        while index < self.selections.len()
            invariant
                index <= self.sels().len(),
                forall|i: int|
                    0 <= i < index ==> !(primary_index >= (#[trigger] self.sels()[i]).first() && secondary_index
                        <= self.sels()[i].last()),
            decreases self.selections.len() - index,
        {
            if primary_index >= self.selection_smallest_index(index) && secondary_index <= self.selection_biggest_index(index) {
                return true;
            }
            index = index + 1;
        }
        false
    }
}

/// Both ends of a selection lie inside the text.
pub open spec fn selection_in_text(s: Selection, filebuffer: &Filebuffer) -> bool {
    s.primary_index < filebuffer.text().len() && s.secondary_index < filebuffer.text().len()
}

} // verus!
