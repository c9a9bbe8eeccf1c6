use vstd::prelude::*;

use super::geometry::{selection_in_text, start_target};
use super::{selection_in, Textbuffer};
use crate::chars::char_is_newline;
use crate::context::TextbufferContext;
use crate::filebuffer::{lemma_neighbour_words, lemma_word_at, word_at, word_left_of, word_right_of, Filebuffer};
use crate::lines::{
    column, first_newline, last_newline_before, lemma_column_bound, lemma_first_newline, lemma_last_newline_before,
    lemma_rest_of_line_bound, rest_of_line,
};
use crate::selection::Selection;
use crate::token::Word;

verus! {

pub open spec fn min(a: int, b: int) -> int {
    if a <= b {
        a
    } else {
        b
    }
}

/// Where the cursor at `primary` lands one line down, keeping column `offset`
/// where the line below is long enough: on the last character if there is no
/// line below.
pub open spec fn down_target(text: Seq<char>, primary: int, offset: int) -> int {
    match first_newline(text, primary, text.len() - 1) {
        Some(j) => j + min(rest_of_line(text, j + 1, text.len() - 1) as int, offset + 1),
        None => text.len() - 1,
    }
}

/// Where the cursor at `primary` lands one line up, keeping column `offset`
/// where the line above is long enough: on the first character if there is no
/// line above.
pub open spec fn up_target(text: Seq<char>, primary: int, offset: int) -> int {
    match last_newline_before(text, primary) {
        Some(j) => j - (column(text, j) - min(column(text, j) as int, offset)),
        None => 0,
    }
}

/// The last position of the line that `index` is on (its newline, if it has one).
pub open spec fn line_end(text: Seq<char>, index: int) -> int {
    index + rest_of_line(text, index, text.len() - 1) - 1
}

/// The start of the line that `index` is on, as `start_target` takes it.
pub open spec fn line_start(text: Seq<char>, start_at_symbol: bool, complete: bool, index: int) -> int {
    start_target(text, start_at_symbol, complete, index, column(text, index) as int)
}

/// The word that the cursor lands in one line down.
pub open spec fn lower_word_of(fb: &Filebuffer, primary: int, offset: int) -> Word {
    match first_newline(fb.text(), primary, fb.text().len() - 1) {
        Some(_) => fb.word_at(down_target(fb.text(), primary, offset)),
        None => fb.word_at(fb.text().len() - 1),
    }
}

/// The word that the cursor lands in one line up.
pub open spec fn higher_word_of(fb: &Filebuffer, primary: int, offset: int) -> Word {
    match last_newline_before(fb.text(), primary) {
        Some(_) => fb.word_at(up_target(fb.text(), primary, offset)),
        None => fb.word_at(0),
    }
}

/// The last position a word covers.
pub open spec fn word_end(word: Word) -> int {
    word.index + word.length - 1
}

pub proof fn lemma_targets(text: Seq<char>, index: int, offset: int)
    requires
        0 <= index < text.len(),
        0 <= offset,
    ensures
        0 <= down_target(text, index, offset) < text.len(),
        0 <= up_target(text, index, offset) <= index,
        index <= line_end(text, index) < text.len(),
{
    let last = text.len() - 1;
    lemma_first_newline(text, index, last);
    match first_newline(text, index, last) {
        Some(j) => {
            lemma_rest_of_line_bound(text, j + 1, last);
        },
        None => {},
    }
    lemma_last_newline_before(text, index);
    match last_newline_before(text, index) {
        Some(j) => {
            lemma_column_bound(text, j);
        },
        None => {},
    }
    lemma_rest_of_line_bound(text, index, last);
}

impl Textbuffer {
    /// The file buffer allows the arithmetic on positions, and selection `index`
    /// lies inside its text.
    pub open spec fn movable(&self, filebuffer: &Filebuffer, index: usize) -> bool {
        &&& filebuffer.wf()
        &&& 0 < filebuffer.text().len() <= usize::MAX / 8
        &&& index < self.sels().len()
        &&& selection_in(self.sels()[index as int], filebuffer.text().len() as int)
    }

    /// Only selection `index` changed, to `s`; nothing else but the synced
    /// position did, and only selection changes of this window were recorded.
    pub open spec fn changed_one(
        &self,
        old_tb: &Textbuffer,
        filebuffer: &Filebuffer,
        old_fb: &Filebuffer,
        index: usize,
        s: Selection,
    ) -> bool {
        &&& self.sels() == old_tb.sels().update(index as int, s)
        &&& self.same_settings(old_tb)
        &&& Filebuffer::logged_selection_changes(old_fb, filebuffer, old_tb.window())
    }

    pub(crate) fn move_selection_left(&mut self, filebuffer: &mut Filebuffer, index: usize) -> (r: bool)
        requires
            old(self).movable(old(filebuffer), index),
        ensures
            r == (old(self).sels()[index as int].primary_index > 0),
            final(self).changed_one(old(self), final(filebuffer), old(filebuffer), index,
                if r {
                    old(self).sels()[index as int].with_primary((old(self).sels()[index as int].primary_index - 1) as usize)
                } else {
                    old(self).sels()[index as int]
                },
            ),
    {
        if self.selections[index].primary_index > 0 {
            let new_primary = self.selections[index].primary_index - 1;
            self.set_primary_index(filebuffer, index, new_primary);
            return true;
        }
        proof {
            Filebuffer::lemma_logged_refl(filebuffer, self.window());
            assert(self.sels() =~= old(self).sels().update(index as int, old(self).sels()[index as int]));
        }
        false
    }

    pub(crate) fn move_selection_right(&mut self, filebuffer: &mut Filebuffer, index: usize) -> (r: bool)
        requires
            old(self).movable(old(filebuffer), index),
        ensures
            r == (old(self).sels()[index as int].primary_index < old(filebuffer).text().len() - 1),
            final(self).changed_one(old(self), final(filebuffer), old(filebuffer), index,
                if r {
                    old(self).sels()[index as int].with_primary((old(self).sels()[index as int].primary_index + 1) as usize)
                } else {
                    old(self).sels()[index as int]
                },
            ),
    {
        if self.selections[index].primary_index < filebuffer.last_buffer_index() {
            let new_primary = self.selections[index].primary_index + 1;
            self.set_primary_index(filebuffer, index, new_primary);
            return true;
        }
        proof {
            Filebuffer::lemma_logged_refl(filebuffer, self.window());
            assert(self.sels() =~= old(self).sels().update(index as int, old(self).sels()[index as int]));
        }
        false
    }

    /// Where the cursor of selection `index` lands one line down, and the
    /// newline it crosses, if any.
    fn down_position(&self, filebuffer: &Filebuffer, index: usize) -> (r: (usize, bool))
        requires
            self.movable(filebuffer, index),
        ensures
            r.0 == down_target(filebuffer.text(), self.sels()[index as int].primary_index as int,
                self.sels()[index as int].offset as int),
            r.1 == first_newline(filebuffer.text(), self.sels()[index as int].primary_index as int,
                filebuffer.text().len() - 1) is Some,
    {
        let ghost text = filebuffer.text();
        let primary_index = self.selections[index].primary_index;
        let offset = self.selections[index].offset;
        let last = filebuffer.last_buffer_index();
        let mut current_index = primary_index;
        while current_index < last
            invariant
                text == filebuffer.text(),
                0 < text.len() <= usize::MAX / 8,
                last == text.len() - 1,
                primary_index <= current_index <= last,
                offset < usize::MAX,
                primary_index == self.sels()[index as int].primary_index,
                offset == self.sels()[index as int].offset,
                first_newline(text, primary_index as int, last as int) == first_newline(text, current_index as int,
                    last as int),
            decreases last - current_index,
        {
            if char_is_newline(filebuffer.character(current_index)) {
                let line_length = self.line_length_from_index(filebuffer, current_index + 1);
                let distance_to_offset = if line_length <= offset + 1 { line_length } else { offset + 1 };
                return (current_index + distance_to_offset, true);
            }
            current_index = current_index + 1;
        }
        (last, false)
    }

    /// Where the cursor of selection `index` lands one line up, and whether it
    /// crosses a newline.
    fn up_position(&self, filebuffer: &Filebuffer, index: usize) -> (r: (usize, bool))
        requires
            self.movable(filebuffer, index),
        ensures
            r.0 == up_target(filebuffer.text(), self.sels()[index as int].primary_index as int,
                self.sels()[index as int].offset as int),
            r.1 == last_newline_before(filebuffer.text(), self.sels()[index as int].primary_index as int) is Some,
    {
        let ghost text = filebuffer.text();
        let primary_index = self.selections[index].primary_index;
        let offset = self.selections[index].offset;
        let mut current_index = primary_index;
        while current_index > 0
            invariant
                text == filebuffer.text(),
                0 < text.len() <= usize::MAX / 8,
                current_index <= primary_index < text.len(),
                primary_index == self.sels()[index as int].primary_index,
                offset == self.sels()[index as int].offset,
                last_newline_before(text, primary_index as int) == last_newline_before(text, current_index as int),
            decreases current_index,
        {
            if char_is_newline(filebuffer.character(current_index - 1)) {
                let line_length = self.reverse_line_length_from_index(filebuffer, current_index - 1) - 1;
                proof {
                    lemma_column_bound(text, current_index - 1);
                }
                let distance_to_offset = line_length - if line_length <= offset { line_length } else { offset };
                return (current_index - 1 - distance_to_offset, true);
            }
            current_index = current_index - 1;
        }
        (0, false)
    }

    pub(crate) fn move_selection_down(&mut self, filebuffer: &mut Filebuffer, index: usize)
        requires
            old(self).movable(old(filebuffer), index),
        ensures
            final(self).changed_one(old(self), final(filebuffer), old(filebuffer), index,
                old(self).sels()[index as int].with_primary(
                    down_target(old(filebuffer).text(), old(self).sels()[index as int].primary_index as int,
                        old(self).sels()[index as int].offset as int) as usize,
                ),
            ),
    {
        proof {
            lemma_targets(filebuffer.text(), self.sels()[index as int].primary_index as int,
                self.sels()[index as int].offset as int);
        }
        let (target, _) = self.down_position(filebuffer, index);
        self.set_primary_index(filebuffer, index, target);
    }

    pub(crate) fn move_selection_up(&mut self, filebuffer: &mut Filebuffer, index: usize)
        requires
            old(self).movable(old(filebuffer), index),
        ensures
            final(self).changed_one(old(self), final(filebuffer), old(filebuffer), index,
                old(self).sels()[index as int].with_primary(
                    up_target(old(filebuffer).text(), old(self).sels()[index as int].primary_index as int,
                        old(self).sels()[index as int].offset as int) as usize,
                ),
            ),
    {
        proof {
            lemma_targets(filebuffer.text(), self.sels()[index as int].primary_index as int,
                self.sels()[index as int].offset as int);
        }
        let (target, _) = self.up_position(filebuffer, index);
        self.set_primary_index(filebuffer, index, target);
    }

    /// The word the cursor of selection `index` would land in one line down.
    pub(crate) fn lower_word(&self, filebuffer: &Filebuffer, index: usize) -> (r: Word)
        requires
            self.movable(filebuffer, index),
        ensures
            r == lower_word_of(filebuffer, self.sels()[index as int].primary_index as int,
                self.sels()[index as int].offset as int),
    {
        let (target, crossed) = self.down_position(filebuffer, index);
        if crossed {
            filebuffer.word_from_index(target)
        } else {
            filebuffer.last_word()
        }
    }

    /// The word the cursor of selection `index` would land in one line up.
    pub(crate) fn higher_word(&self, filebuffer: &Filebuffer, index: usize) -> (r: Word)
        requires
            self.movable(filebuffer, index),
        ensures
            r == higher_word_of(filebuffer, self.sels()[index as int].primary_index as int,
                self.sels()[index as int].offset as int),
    {
        let (target, crossed) = self.up_position(filebuffer, index);
        if crossed {
            filebuffer.word_from_index(target)
        } else {
            filebuffer.first_word()
        }
    }

    pub(crate) fn move_selection_to_end(&mut self, filebuffer: &mut Filebuffer, index: usize)
        requires
            old(self).movable(old(filebuffer), index),
        ensures
            final(self).changed_one(old(self), final(filebuffer), old(filebuffer), index,
                old(self).sels()[index as int].with_primary(
                    line_end(old(filebuffer).text(), old(self).sels()[index as int].primary_index as int) as usize,
                ),
            ),
    {
        let primary_index = self.selections[index].primary_index;
        let distance_to_newline = self.line_length_from_index(filebuffer, primary_index);
        let new_primary = primary_index + distance_to_newline - 1;
        self.set_primary_index(filebuffer, index, new_primary);
    }

    pub(crate) fn move_secondary_to_end(&mut self, filebuffer: &mut Filebuffer, index: usize)
        requires
            old(self).movable(old(filebuffer), index),
        ensures
            final(self).changed_one(old(self), final(filebuffer), old(filebuffer), index,
                old(self).sels()[index as int].with_secondary(
                    line_end(old(filebuffer).text(), old(self).sels()[index as int].secondary_index as int) as usize,
                ),
            ),
    {
        let secondary_index = self.selections[index].secondary_index;
        let distance_to_newline = self.line_length_from_index(filebuffer, secondary_index);
        let new_secondary = secondary_index + distance_to_newline - 1;
        self.set_secondary_index(filebuffer, index, new_secondary);
    }

    pub(crate) fn move_selection_to_start(
        &mut self,
        textbuffer_context: &TextbufferContext,
        filebuffer: &mut Filebuffer,
        complete: bool,
        index: usize,
    )
        requires
            old(self).movable(old(filebuffer), index),
        ensures
            final(self).changed_one(old(self), final(filebuffer), old(filebuffer), index,
                old(self).sels()[index as int].with_primary(
                    line_start(old(filebuffer).text(), textbuffer_context.start_at_symbol, complete,
                        old(self).sels()[index as int].primary_index as int) as usize,
                ),
            ),
    {
        let primary_index = self.selections[index].primary_index;
        let distance_to_newline = self.reverse_line_length_from_index(filebuffer, primary_index);
        proof {
            lemma_column_bound(filebuffer.text(), primary_index as int);
        }
        let adjusted_index = self.adjust_start_index(textbuffer_context, filebuffer, complete, primary_index,
            distance_to_newline - 1);
        self.set_primary_index(filebuffer, index, adjusted_index);
    }

    pub(crate) fn move_secondary_to_start(
        &mut self,
        textbuffer_context: &TextbufferContext,
        filebuffer: &mut Filebuffer,
        complete: bool,
        index: usize,
    )
        requires
            old(self).movable(old(filebuffer), index),
        ensures
            final(self).changed_one(old(self), final(filebuffer), old(filebuffer), index,
                old(self).sels()[index as int].with_secondary(
                    line_start(old(filebuffer).text(), textbuffer_context.start_at_symbol, complete,
                        old(self).sels()[index as int].secondary_index as int) as usize,
                ),
            ),
    {
        let secondary_index = self.selections[index].secondary_index;
        let distance_to_newline = self.reverse_line_length_from_index(filebuffer, secondary_index);
        proof {
            lemma_column_bound(filebuffer.text(), secondary_index as int);
        }
        let adjusted_index = self.adjust_start_index(textbuffer_context, filebuffer, complete, secondary_index,
            distance_to_newline - 1);
        self.set_secondary_index(filebuffer, index, adjusted_index);
    }

    pub(crate) fn move_selection_to_end_of_word(&mut self, filebuffer: &mut Filebuffer, index: usize)
        requires
            old(self).movable(old(filebuffer), index),
        ensures
            final(self).changed_one(old(self), final(filebuffer), old(filebuffer), index,
                old(self).sels()[index as int].with_primary(
                    word_end(old(filebuffer).word_at(old(self).sels()[index as int].primary_index as int)) as usize,
                ),
            ),
    {
        let primary_index = self.selections[index].primary_index;
        let word = filebuffer.word_from_index(primary_index);
        proof {
            lemma_word_at(filebuffer.tokens(), primary_index as int, filebuffer.text().len() as int);
        }
        let new_primary = word.index + word.length - 1;
        self.set_primary_index(filebuffer, index, new_primary);
    }

    pub(crate) fn move_selection_to_start_of_word(&mut self, filebuffer: &mut Filebuffer, index: usize)
        requires
            old(self).movable(old(filebuffer), index),
        ensures
            final(self).changed_one(old(self), final(filebuffer), old(filebuffer), index,
                old(self).sels()[index as int].with_primary(
                    old(filebuffer).word_at(old(self).sels()[index as int].primary_index as int).index,
                ),
            ),
    {
        let primary_index = self.selections[index].primary_index;
        let word = filebuffer.word_from_index(primary_index);
        self.set_primary_index(filebuffer, index, word.index);
    }

    pub(crate) fn move_secondary_to_end_of_word(&mut self, filebuffer: &mut Filebuffer, index: usize)
        requires
            old(self).movable(old(filebuffer), index),
        ensures
            final(self).changed_one(old(self), final(filebuffer), old(filebuffer), index,
                old(self).sels()[index as int].with_secondary(
                    word_end(old(filebuffer).word_at(old(self).sels()[index as int].secondary_index as int)) as usize,
                ),
            ),
    {
        let secondary_index = self.selections[index].secondary_index;
        let word = filebuffer.word_from_index(secondary_index);
        proof {
            lemma_word_at(filebuffer.tokens(), secondary_index as int, filebuffer.text().len() as int);
        }
        let new_secondary = word.index + word.length - 1;
        self.set_secondary_index(filebuffer, index, new_secondary);
    }

    pub(crate) fn move_secondary_to_start_of_word(&mut self, filebuffer: &mut Filebuffer, index: usize)
        requires
            old(self).movable(old(filebuffer), index),
        ensures
            final(self).changed_one(old(self), final(filebuffer), old(filebuffer), index,
                old(self).sels()[index as int].with_secondary(
                    old(filebuffer).word_at(old(self).sels()[index as int].secondary_index as int).index,
                ),
            ),
    {
        let secondary_index = self.selections[index].secondary_index;
        let word = filebuffer.word_from_index(secondary_index);
        self.set_secondary_index(filebuffer, index, word.index);
    }

    pub(crate) fn move_selection_to_first(&mut self, filebuffer: &mut Filebuffer, index: usize)
        requires
            index < old(self).sels().len(),
            old(filebuffer).wf(),
        ensures
            final(self).changed_one(old(self), final(filebuffer), old(filebuffer), index,
                old(self).sels()[index as int].with_primary(old(self).sels()[index as int].first()),
            ),
    {
        let smallest = self.selection_smallest_index(index);
        self.set_primary_index(filebuffer, index, smallest);
    }

    pub(crate) fn move_secondary_to_first(&mut self, filebuffer: &mut Filebuffer, index: usize)
        requires
            index < old(self).sels().len(),
            old(filebuffer).wf(),
        ensures
            final(self).changed_one(old(self), final(filebuffer), old(filebuffer), index,
                old(self).sels()[index as int].with_secondary(old(self).sels()[index as int].first()),
            ),
    {
        let smallest = self.selection_smallest_index(index);
        self.set_secondary_index(filebuffer, index, smallest);
    }

    pub(crate) fn move_selection_to_last(&mut self, filebuffer: &mut Filebuffer, index: usize)
        requires
            index < old(self).sels().len(),
            old(filebuffer).wf(),
        ensures
            final(self).changed_one(old(self), final(filebuffer), old(filebuffer), index,
                old(self).sels()[index as int].with_primary(old(self).sels()[index as int].last()),
            ),
    {
        let biggest = self.selection_biggest_index(index);
        self.set_primary_index(filebuffer, index, biggest);
    }

    /// Sets the offset of selection `index` to the column of `offset_index`.
    pub(crate) fn set_offset(&mut self, filebuffer: &mut Filebuffer, index: usize, offset_index: usize)
        requires
            index < old(self).sels().len(),
            old(filebuffer).wf(),
            offset_index < old(filebuffer).text().len(),
        ensures
            final(self).changed_one(old(self), final(filebuffer), old(filebuffer), index,
                old(self).sels()[index as int].with_offset(column(old(filebuffer).text(), offset_index as int) as usize),
            ),
    {
        let new_offset = self.offset_from_index(filebuffer, offset_index);
        proof {
            lemma_column_bound(filebuffer.text(), offset_index as int);
        }
        self.store_offset(filebuffer, index, new_offset);
    }

    /// The offset of selection `index` becomes the column of its cursor.
    pub(crate) fn update_offset(&mut self, filebuffer: &mut Filebuffer, index: usize)
        requires
            index < old(self).sels().len(),
            old(filebuffer).wf(),
            old(self).sels()[index as int].primary_index < old(filebuffer).text().len(),
        ensures
            final(self).changed_one(old(self), final(filebuffer), old(filebuffer), index,
                old(self).sels()[index as int].with_offset(
                    column(old(filebuffer).text(), old(self).sels()[index as int].primary_index as int) as usize,
                ),
            ),
    {
        let primary_index = self.selections[index].primary_index;
        self.set_offset(filebuffer, index, primary_index);
    }

    /// The offset of selection `index` becomes the column of its first character.
    pub(crate) fn update_offset_smallest(&mut self, filebuffer: &mut Filebuffer, index: usize)
        requires
            index < old(self).sels().len(),
            old(filebuffer).wf(),
            old(self).sels()[index as int].first() < old(filebuffer).text().len(),
        ensures
            final(self).changed_one(old(self), final(filebuffer), old(filebuffer), index,
                old(self).sels()[index as int].with_offset(
                    column(old(filebuffer).text(), old(self).sels()[index as int].first() as int) as usize,
                ),
            ),
    {
        let smallest = self.selection_smallest_index(index);
        self.set_offset(filebuffer, index, smallest);
    }

    /// Selection `index` shrinks to its cursor.
    pub(crate) fn reset_selection(&mut self, filebuffer: &mut Filebuffer, index: usize)
        requires
            index < old(self).sels().len(),
            old(filebuffer).wf(),
        ensures
            final(self).changed_one(old(self), final(filebuffer), old(filebuffer), index,
                old(self).sels()[index as int].with_secondary(old(self).sels()[index as int].primary_index),
            ),
    {
        let primary_index = self.selections[index].primary_index;
        self.set_secondary_index(filebuffer, index, primary_index);
    }

    /// Selection `index` covers `word` exactly, the cursor at its end.
    pub(crate) fn select_word(&mut self, filebuffer: &mut Filebuffer, index: usize, word: Word)
        requires
            old(self).movable(old(filebuffer), index),
            0 < word.length,
            word.index + word.length <= old(filebuffer).text().len(),
        ensures
            final(self).changed_one(old(self), final(filebuffer), old(filebuffer), index,
                old(self).sels()[index as int].with_secondary(word.index).with_primary(word_end(word) as usize),
            ),
    {
        self.set_secondary_index(filebuffer, index, word.index);
        let ghost mid = *filebuffer;
        let ghost mid_tb = *self;
        self.set_primary_index(filebuffer, index, word.index + word.length - 1);
        proof {
            Textbuffer::lemma_changed_one_chain(old(self), &mid_tb, self, old(filebuffer), &mid, filebuffer, index,
                old(self).sels()[index as int].with_secondary(word.index),
                old(self).sels()[index as int].with_secondary(word.index).with_primary(word_end(word) as usize));
        }
    }

    /// The words at the ends of the selection after its cursor jumped to
    /// `word`: the selection grows or shrinks to whole words.
    pub(crate) fn select_to_word(&mut self, filebuffer: &mut Filebuffer, index: usize, word: Word)
        requires
            old(self).movable(old(filebuffer), index),
            word.index < old(filebuffer).text().len(),
        ensures
            final(self).changed_one(old(self), final(filebuffer), old(filebuffer), index,
                select_to_word_result(old(filebuffer), old(self).sels()[index as int], word),
            ),
    {
        let ghost s0 = self.sels()[index as int];
        let ghost s1 = s0.with_primary(word.index);
        let ghost len = filebuffer.text().len() as int;
        self.set_primary_index(filebuffer, index, word.index);
        let ghost fb1 = *filebuffer;
        let ghost tb1 = *self;
        if self.is_selection_inverted(index) {
            proof {
                lemma_word_at(filebuffer.tokens(), s1.secondary_index as int, len);
            }
            self.move_secondary_to_end_of_word(filebuffer, index);
            let ghost fb2 = *filebuffer;
            let ghost tb2 = *self;
            let ghost s2 = s1.with_secondary(word_end(fb1.word_at(s1.secondary_index as int)) as usize);
            proof {
                Textbuffer::lemma_changed_one_chain(old(self), &tb1, &tb2, old(filebuffer), &fb1, &fb2, index, s1, s2);
            }
            self.move_selection_to_start_of_word(filebuffer, index);
            proof {
                Textbuffer::lemma_changed_one_chain(old(self), &tb2, self, old(filebuffer), &fb2, filebuffer, index, s2,
                    select_to_word_result(old(filebuffer), s0, word));
            }
        } else {
            self.move_secondary_to_start_of_word(filebuffer, index);
            let ghost fb2 = *filebuffer;
            let ghost tb2 = *self;
            let ghost s2 = s1.with_secondary(fb1.word_at(s1.secondary_index as int).index);
            proof {
                lemma_word_at(filebuffer.tokens(), s1.secondary_index as int, len);
                Textbuffer::lemma_changed_one_chain(old(self), &tb1, &tb2, old(filebuffer), &fb1, &fb2, index, s1, s2);
            }
            self.move_selection_to_end_of_word(filebuffer, index);
            proof {
                Textbuffer::lemma_changed_one_chain(old(self), &tb2, self, old(filebuffer), &fb2, filebuffer, index, s2,
                    select_to_word_result(old(filebuffer), s0, word));
            }
        }
    }

    /// Two changes of the same selection make one.
    pub broadcast proof fn lemma_changed_one_chain(
        a: &Textbuffer,
        b: &Textbuffer,
        c: &Textbuffer,
        fa: &Filebuffer,
        fb: &Filebuffer,
        fc: &Filebuffer,
        index: usize,
        s1: Selection,
        s2: Selection,
    )
        requires
            fa.wf(),
            index < a.sels().len(),
            #[trigger] b.changed_one(a, fb, fa, index, s1),
            #[trigger] c.changed_one(b, fc, fb, index, s2),
        ensures
            c.changed_one(a, fc, fa, index, s2),
    {
        Filebuffer::lemma_logged_trans(fa, fb, fc, a.window());
        assert(c.sels() =~= a.sels().update(index as int, s2));
    }

    pub(crate) fn left_word(&self, filebuffer: &Filebuffer, index: usize) -> (r: Word)
        requires
            index < self.sels().len(),
        ensures
            r == word_left_of(filebuffer.tokens(), self.sels()[index as int].primary_index as int,
                filebuffer.text().len() as int),
    {
        filebuffer.left_word(self.selections[index].primary_index)
    }

    pub(crate) fn right_word(&self, filebuffer: &Filebuffer, index: usize) -> (r: Word)
        requires
            index < self.sels().len(),
        ensures
            r == word_right_of(filebuffer.tokens(), self.sels()[index as int].primary_index as int,
                filebuffer.text().len() as int),
    {
        filebuffer.right_word(self.selections[index].primary_index)
    }

    pub(crate) fn first_selected_word(&self, filebuffer: &Filebuffer, index: usize) -> (r: Word)
        requires
            index < self.sels().len(),
        ensures
            r == filebuffer.word_at(self.sels()[index as int].first() as int),
    {
        let first_index = self.selection_smallest_index(index);
        filebuffer.word_from_index(first_index)
    }

    pub(crate) fn last_selected_word(&self, filebuffer: &Filebuffer, index: usize) -> (r: Word)
        requires
            index < self.sels().len(),
        ensures
            r == filebuffer.word_at(self.sels()[index as int].last() as int),
    {
        let last_index = self.selection_biggest_index(index);
        filebuffer.word_from_index(last_index)
    }

    /// The ends of the selection lie in different words.
    pub(crate) fn is_selection_multiword(&self, filebuffer: &Filebuffer, index: usize) -> (r: bool)
        requires
            index < self.sels().len(),
        ensures
            r == (filebuffer.word_at(self.sels()[index as int].first() as int).index != filebuffer.word_at(
                self.sels()[index as int].last() as int,
            ).index),
    {
        self.first_selected_word(filebuffer, index).index != self.last_selected_word(filebuffer, index).index
    }
}

/// The selection after `select_to_word`: the cursor jumps to the start of
/// `word`, then the selection is widened to the words at both of its ends.
pub open spec fn select_to_word_result(fb: &Filebuffer, s: Selection, word: Word) -> Selection {
    let s1 = s.with_primary(word.index);
    if s1.primary_index < s1.secondary_index {
        let s2 = s1.with_secondary(word_end(fb.word_at(s1.secondary_index as int)) as usize);
        s2.with_primary(fb.word_at(s2.primary_index as int).index)
    } else {
        let s2 = s1.with_secondary(fb.word_at(s1.secondary_index as int).index);
        s2.with_primary(word_end(fb.word_at(s2.primary_index as int)) as usize)
    }
}

proof fn lemma_no_newline_before_first(text: Seq<char>, from: int, to: int, k: int)
    requires
        first_newline(text, from, to) matches Some(j) && from <= k < j,
    ensures
        text[k] != '\n',
    decreases to - from,
{
    if text[from] != '\n' && k > from {
        lemma_no_newline_before_first(text, from + 1, to, k);
    }
}

proof fn lemma_rest_of_line_clear(text: Seq<char>, index: int, last: int, k: int)
    requires
        index <= k < index + rest_of_line(text, index, last) - 1,
    ensures
        text[k] != '\n',
        k < last,
    decreases last - index,
{
    if k > index {
        lemma_rest_of_line_clear(text, index + 1, last, k);
    }
}

proof fn lemma_column_run(text: Seq<char>, p: int, q: int)
    requires
        0 <= p <= q,
        forall|k: int| p <= k < q ==> text[k] != '\n',
    ensures
        column(text, q) == column(text, p) + (q - p),
    decreases q - p,
{
    if q > p {
        lemma_column_run(text, p, q - 1);
    }
}

proof fn lemma_last_newline_run(text: Seq<char>, j: int, d: int)
    requires
        0 <= j < d,
        text[j] == '\n',
        forall|k: int| j < k < d ==> text[k] != '\n',
    ensures
        last_newline_before(text, d) == Some(j),
    decreases d - j,
{
    if d - 1 > j {
        lemma_last_newline_run(text, j, d - 1);
    }
}

/// Moving a cursor one line down and back up lands where it started, where
/// the cursor keeps its column as its offset and the line below has room for
/// that column.
pub proof fn law_down_then_up(text: Seq<char>, p: int)
    requires
        0 <= p < text.len(),
        first_newline(text, p, text.len() - 1) matches Some(j) && rest_of_line(text, j + 1, text.len() - 1) >= column(text, p) + 1,
    ensures
        up_target(text, down_target(text, p, column(text, p) as int), column(text, p) as int) == p,
{
    let offset = column(text, p) as int;
    let j = first_newline(text, p, text.len() - 1)->Some_0;
    lemma_first_newline(text, p, text.len() - 1);
    let d = down_target(text, p, offset);
    assert(d == j + offset + 1);
    assert forall|k: int| p <= k < j implies text[k] != '\n' by {
        lemma_no_newline_before_first(text, p, text.len() - 1, k);
    }
    lemma_column_run(text, p, j);
    assert forall|k: int| j < k < d implies text[k] != '\n' by {
        lemma_rest_of_line_clear(text, j + 1, text.len() - 1, k);
    }
    lemma_last_newline_run(text, j, d);
}

} // verus!
