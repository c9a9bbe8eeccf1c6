use vstd::prelude::*;

use super::edit::{advanced, collapsed_after_removal, deleted_text, padded, replaced};
use super::motion::{lemma_targets, line_end, line_start, min};
use super::steps::{collapse, lemma_line_start_bound, offset_at, right1, span_lines, to_first};
use super::{selection_in, Textbuffer};
use crate::context::TextbufferContext;
use crate::filebuffer::{lemma_neighbour_words, text_with_insert, text_with_removal, word_right_of, Filebuffer};
use crate::lines::{column, lemma_column_bound};
use crate::selection::Selection;
use crate::token::Token;

verus! {

broadcast use crate::textbuffer::Textbuffer::lemma_changed_one_chain;

/// What an action that changes the text does at each selection.
#[derive(Clone, Copy, PartialEq, Eq, Structural)]
pub enum Edit {
    /// Deletes the selected characters, or the one before the cursor.
    RemoveChar,
    /// Deletes the selected characters, or the one under the cursor.
    DeleteChar,
    /// Deletes the selected characters and selects the word that followed them.
    EraseWord,
    /// Deletes the selected characters and selects the line they were on.
    EraseLine,
    /// Deletes the whole lines of the selection.
    EraseSpannedLines,
    /// Deletes the whole lines of the selection and selects the word that followed them.
    EraseSpannedWords,
    /// Puts a newline in at the cursor.
    NewlineAbove,
    /// Puts a newline in after the cursor and moves onto it.
    NewlineBelow,
    /// Types a character over the selection, or at the cursor; with the flag, a
    /// selected newline at the end of the selection is kept.
    Type(char, bool),
}

/// Selections and text.
pub type EditState = (Seq<Selection>, Seq<char>);

/// The characters of selection `index` deleted; it shrinks to one character
/// where they began, and the others move back.
pub open spec fn delete_selection(state: EditState, index: int, padding: char) -> EditState {
    let s = state.0[index];
    let t2 = deleted_text(state.1, s, padding);
    (collapsed_after_removal(state.0, index, s.first() as int, (s.last() - s.first() + 1) as usize, t2), t2)
}

/// The character at `at` deleted; selection `index` shrinks to one character
/// there, and the others move back.
pub open spec fn delete_one(state: EditState, index: int, at: int, padding: char) -> EditState {
    let t2 = padded(text_with_removal(state.1, at, 1), padding);
    (collapsed_after_removal(state.0, index, at, 1, t2), t2)
}

/// The characters of selection `index` deleted, and as much of the word that
/// followed them as the text still holds selected.
pub open spec fn erase_word(state: EditState, index: int, tokens: Seq<Token>, padding: char) -> EditState {
    let word = word_right_of(tokens, state.0[index].primary_index as int, state.1.len() as int);
    let (sels2, t2) = delete_selection(state, index, padding);
    let q = sels2[index].primary_index;
    (sels2.update(index, sels2[index].with_primary(min(q + word.length - 1, t2.len() - 1) as usize)), t2)
}

/// The characters of selection `index` deleted, and the line where they were
/// selected.
pub open spec fn erase_line(state: EditState, index: int, start_at_symbol: bool, padding: char) -> EditState {
    let (sels2, t2) = delete_selection(state, index, padding);
    let q = sels2[index].primary_index;
    (
        sels2.update(
            index,
            sels2[index].with_secondary(line_start(t2, start_at_symbol, true, q as int) as usize).with_primary(
                line_end(t2, q as int) as usize,
            ),
        ),
        t2,
    )
}

/// Selection `index` widened to whole lines.
pub open spec fn spanned(state: EditState, index: int, start_at_symbol: bool) -> EditState {
    (state.0.update(index, span_lines(state.1, start_at_symbol, state.0[index])), state.1)
}

/// `text` inserted at `at`, and every selection whose cursor lies after `base`
/// moved forward by its length.
pub open spec fn inserted(state: EditState, at: int, text: Seq<char>, base: usize) -> EditState {
    (Seq::new(state.0.len(), |j: int| advanced(state.0[j], base, text.len() as usize)), text_with_insert(state.1, at, text))
}

/// The selection without its last character, its direction kept.
pub open spec fn without_last(s: Selection) -> Selection {
    if s.primary_index < s.secondary_index {
        s.with_secondary((s.last() - 1) as usize)
    } else {
        s.with_primary((s.last() - 1) as usize)
    }
}

/// Character `c` typed at selection `index`.
pub open spec fn typed(state: EditState, index: int, c: char, preserve_lines: bool, padding: char) -> EditState {
    let s = state.0[index];
    if s.primary_index != s.secondary_index {
        let s1 = if preserve_lines && state.1[s.last() as int] == '\n' {
            without_last(s)
        } else {
            s
        };
        let (sels2, t2) = replaced(state.0.update(index, s1), state.1, index, seq![c], padding);
        (sels2.update(index, collapse(offset_at(t2, right1(t2, to_first(sels2[index]))))), t2)
    } else {
        let t2 = text_with_insert(state.1, s.primary_index as int, seq![c]);
        let s2 = collapse(offset_at(t2, right1(t2, s)));
        let sels2 = state.0.update(index, s2);
        (Seq::new(sels2.len(), |j: int| advanced(sels2[j], s2.primary_index, 1)), t2)
    }
}

/// What `edit` does at selection `index`.
#[verifier::opaque]
pub open spec fn edit_step(edit: Edit, tokens: Seq<Token>, start_at_symbol: bool, padding: char, state: EditState, index: int) -> EditState {
    let s = state.0[index];
    match edit {
        Edit::RemoveChar => if s.primary_index != s.secondary_index {
            delete_selection(state, index, padding)
        } else if s.primary_index > 0 {
            delete_one(state, index, s.primary_index - 1, padding)
        } else {
            state
        },
        Edit::DeleteChar => if s.primary_index != s.secondary_index {
            delete_selection(state, index, padding)
        } else if s.primary_index != state.1.len() - 1 {
            delete_one(state, index, s.primary_index as int, padding)
        } else {
            state
        },
        Edit::EraseWord => erase_word(state, index, tokens, padding),
        Edit::EraseLine => erase_line(state, index, start_at_symbol, padding),
        Edit::EraseSpannedLines => delete_selection(spanned(state, index, start_at_symbol), index, padding),
        Edit::EraseSpannedWords => erase_word(spanned(state, index, start_at_symbol), index, tokens, padding),
        Edit::NewlineAbove => inserted(state, s.primary_index as int, seq!['\n'], s.primary_index),
        Edit::NewlineBelow => {
            let (sels2, t2) = inserted(state, s.primary_index + 1, seq!['\n'], s.primary_index);
            (sels2.update(index, collapse(offset_at(t2, right1(t2, sels2[index])))), t2)
        },
        Edit::Type(c, preserve_lines) => typed(state, index, c, preserve_lines, padding),
    }
}

/// `edit` done at the selections `start..end`, one after the other.
pub open spec fn edited(edit: Edit, tokens: Seq<Token>, start_at_symbol: bool, padding: char, state: EditState, start: int, end: int) -> EditState
    decreases end - start,
{
    if end <= start {
        state
    } else {
        edit_step(edit, tokens, start_at_symbol, padding, edited(edit, tokens, start_at_symbol, padding, state, start, end - 1), end - 1)
    }
}

impl Edit {
    /// The edit may make the text longer, by one character at each selection.
    pub open spec fn grows(self) -> bool {
        self is NewlineAbove || self is NewlineBelow || self is Type
    }
}

impl Textbuffer {
    /// `self` and `fb` hold `state`, with the settings of `old_tb` and the
    /// tokens of `old_fb`, and only changes of this window were recorded.
    pub open spec fn holds(&self, old_tb: &Textbuffer, fb: &Filebuffer, old_fb: &Filebuffer, state: EditState) -> bool {
        &&& self.wf(fb)
        &&& (self.sels(), fb.text()) == state
        &&& self.same_settings(old_tb)
        &&& Filebuffer::logged_changes(old_fb, fb, old_tb.window())
    }

    fn erase_selection(&mut self, filebuffer: &mut Filebuffer, index: usize)
        requires
            old(self).wf(old(filebuffer)),
            index < old(self).sels().len(),
        ensures
            final(self).holds(old(self), final(filebuffer), old(filebuffer),
                delete_selection((old(self).sels(), old(filebuffer).text()), index as int, old(self).padding_char())),
            final(filebuffer).text().len() <= old(filebuffer).text().len(),
            final(self).sels().len() == old(self).sels().len(),
    {
        self.delete_selected(filebuffer, index);
    }

    fn erase_char(&mut self, filebuffer: &mut Filebuffer, index: usize, before: bool)
        requires
            old(self).wf(old(filebuffer)),
            index < old(self).sels().len(),
        ensures
            final(self).holds(old(self), final(filebuffer), old(filebuffer), edit_step(
                if before { Edit::RemoveChar } else { Edit::DeleteChar }, old(filebuffer).tokens(), false,
                old(self).padding_char(), (old(self).sels(), old(filebuffer).text()), index as int)),
            final(filebuffer).text().len() <= old(filebuffer).text().len(),
            final(self).sels().len() == old(self).sels().len(),
    {
        reveal(edit_step);
        if self.is_selection_extended(index) {
            self.erase_selection(filebuffer, index);
        } else if before {
            let ghost fb0 = *filebuffer;
            if self.move_selection_left(filebuffer, index) {
                let ghost fb1 = *filebuffer;
                let ghost tb1 = *self;
                self.delete_selected_primary(filebuffer, index);
                proof {
                    Filebuffer::lemma_changes_from_selection_changes(&fb0, &fb1, self.window());
                    Filebuffer::lemma_changes_trans(&fb0, &fb1, filebuffer, self.window());
                    let p = old(self).sels()[index as int].primary_index - 1;
                    assert(collapsed_after_removal(tb1.sels(), index as int, p, 1, filebuffer.text())
                        =~= collapsed_after_removal(old(self).sels(), index as int, p, 1, filebuffer.text()));
                }
            } else {
                proof {
                    assert(self.sels() =~= old(self).sels());
                    Filebuffer::lemma_changes_from_selection_changes(&fb0, filebuffer, self.window());
                }
            }
        } else if !self.is_selection_end_of_buffer(filebuffer, index) {
            self.delete_selected_primary(filebuffer, index);
        } else {
            proof {
                Filebuffer::lemma_logged_refl(filebuffer, self.window());
                Filebuffer::lemma_changes_from_selection_changes(filebuffer, filebuffer, self.window());
            }
        }
    }
    fn erase_word_step(&mut self, filebuffer: &mut Filebuffer, index: usize)
        requires
            old(self).wf(old(filebuffer)),
            index < old(self).sels().len(),
        ensures
            final(self).holds(old(self), final(filebuffer), old(filebuffer),
                erase_word((old(self).sels(), old(filebuffer).text()), index as int, old(filebuffer).tokens(),
                old(self).padding_char())),
            final(filebuffer).text().len() <= old(filebuffer).text().len(),
            final(self).sels().len() == old(self).sels().len(),
    {
        let ghost state = (old(self).sels(), old(filebuffer).text());
        let word = self.right_word(filebuffer, index);
        proof {
            lemma_neighbour_words(filebuffer.tokens(), self.sels()[index as int].primary_index as int,
                filebuffer.text().len() as int);
        }
        self.erase_selection(filebuffer, index);
        let ghost fb1 = *filebuffer;
        let ghost tb1 = *self;
        self.move_secondary_to_first(filebuffer, index);
        let first = self.selection_smallest_index(index);
        let text_length = filebuffer.length();
        let length = if first + word.length <= text_length { word.length } else { text_length - first };
        self.set_selection_length(filebuffer, index, length);
        proof {
            lemma_column_bound(filebuffer.text(), first as int);
        }
        self.update_offset_smallest(filebuffer, index);
        proof {
            Filebuffer::lemma_changes_from_selection_changes(&fb1, filebuffer, self.window());
            Filebuffer::lemma_changes_trans(old(filebuffer), &fb1, filebuffer, self.window());
            let expect = erase_word(state, index as int, old(filebuffer).tokens(), old(self).padding_char());
            assert(self.sels() =~= expect.0);
        }
    }

    fn erase_line_step(&mut self, textbuffer_context: &TextbufferContext, filebuffer: &mut Filebuffer, index: usize)
        requires
            old(self).wf(old(filebuffer)),
            index < old(self).sels().len(),
        ensures
            final(self).holds(old(self), final(filebuffer), old(filebuffer),
                erase_line((old(self).sels(), old(filebuffer).text()), index as int, textbuffer_context.start_at_symbol,
                old(self).padding_char())),
            final(filebuffer).text().len() <= old(filebuffer).text().len(),
            final(self).sels().len() == old(self).sels().len(),
    {
        let ghost state = (old(self).sels(), old(filebuffer).text());
        self.erase_selection(filebuffer, index);
        let ghost fb1 = *filebuffer;
        let ghost t1 = filebuffer.text();
        let ghost q = self.sels()[index as int].primary_index as int;
        proof {
            lemma_line_start_bound(t1, textbuffer_context.start_at_symbol, true, q);
            lemma_targets(t1, q, 0);
        }
        self.move_secondary_to_start(textbuffer_context, filebuffer, true, index);
        self.move_selection_to_end(filebuffer, index);
        proof {
            Filebuffer::lemma_changes_from_selection_changes(&fb1, filebuffer, self.window());
            Filebuffer::lemma_changes_trans(old(filebuffer), &fb1, filebuffer, self.window());
        }
    }
    /// Selection `index` widened to whole lines, then `edit` done there.
    fn erase_spanned(&mut self, textbuffer_context: &TextbufferContext, filebuffer: &mut Filebuffer, index: usize, words: bool)
        requires
            old(self).wf(old(filebuffer)),
            index < old(self).sels().len(),
        ensures
            final(self).holds(old(self), final(filebuffer), old(filebuffer), edit_step(
                if words { Edit::EraseSpannedWords } else { Edit::EraseSpannedLines }, old(filebuffer).tokens(),
                textbuffer_context.start_at_symbol, old(self).padding_char(), (old(self).sels(), old(filebuffer).text()),
                index as int)),
            final(filebuffer).text().len() <= old(filebuffer).text().len(),
            final(self).sels().len() == old(self).sels().len(),
    {
        reveal(edit_step);
        self.span_line_selection(textbuffer_context, filebuffer, index);
        let ghost fb1 = *filebuffer;
        proof {
            assert forall|i: int| 0 <= i < self.sels().len() implies selection_in(#[trigger] self.sels()[i],
                filebuffer.text().len() as int) by {
                if i != index {
                    assert(selection_in(old(self).sels()[i], filebuffer.text().len() as int));
                }
            }
        }
        if words {
            self.erase_word_step(filebuffer, index);
        } else {
            self.erase_selection(filebuffer, index);
        }
        proof {
            Filebuffer::lemma_changes_from_selection_changes(old(filebuffer), &fb1, self.window());
            Filebuffer::lemma_changes_trans(old(filebuffer), &fb1, filebuffer, self.window());
        }
    }

    /// A newline put in at the cursor of selection `index`, or after it.
    fn newline_step(&mut self, filebuffer: &mut Filebuffer, index: usize, below: bool)
        requires
            old(self).wf(old(filebuffer)),
            index < old(self).sels().len(),
            old(filebuffer).text().len() < usize::MAX / 8,
        ensures
            final(self).holds(old(self), final(filebuffer), old(filebuffer), edit_step(
                if below { Edit::NewlineBelow } else { Edit::NewlineAbove }, old(filebuffer).tokens(), false,
                old(self).padding_char(), (old(self).sels(), old(filebuffer).text()), index as int)),
            final(filebuffer).text().len() == old(filebuffer).text().len() + 1,
            final(self).sels().len() == old(self).sels().len(),
    {
        reveal(edit_step);
        let ghost n = self.sels().len();
        let primary = self.selections[index].primary_index;
        let at = if below { primary + 1 } else { primary };
        let mut newline: Vec<char> = Vec::new();
        newline.push('\n');
        self.insert_text(filebuffer, at, newline);
        let ghost t1 = filebuffer.text();
        proof {
            assert forall|i: int| 0 <= i < n implies (#[trigger] self.sels()[i]).primary_index <= usize::MAX / 4
                && self.sels()[i].secondary_index <= usize::MAX / 4 by {
                assert(selection_in(old(self).sels()[i], old(filebuffer).text().len() as int));
            }
        }
        self.advance_selections(filebuffer, index, 1);
        proof {
            assert forall|i: int| 0 <= i < n implies selection_in(#[trigger] self.sels()[i], t1.len() as int) by {
                assert(selection_in(old(self).sels()[i], old(filebuffer).text().len() as int));
            }
            assert(self.sels() =~= inserted((old(self).sels(), old(filebuffer).text()), at as int, seq!['\n'], primary).0);
        }
        if below {
            let ghost fb1 = *filebuffer;
            self.move_selection_right(filebuffer, index);
            proof {
                lemma_column_bound(t1, self.sels()[index as int].primary_index as int);
            }
            self.update_offset(filebuffer, index);
            self.reset_selection(filebuffer, index);
            proof {
                Filebuffer::lemma_changes_from_selection_changes(&fb1, filebuffer, self.window());
                Filebuffer::lemma_changes_trans(old(filebuffer), &fb1, filebuffer, self.window());
            }
        }
    }
    /// `character` typed over the characters of selection `index`.
    fn type_over(&mut self, filebuffer: &mut Filebuffer, index: usize, character: char, preserve_lines: bool)
        requires
            old(self).wf(old(filebuffer)),
            index < old(self).sels().len(),
            old(self).sels()[index as int].primary_index != old(self).sels()[index as int].secondary_index,
            old(filebuffer).text().len() < usize::MAX / 8,
        ensures
            final(self).holds(old(self), final(filebuffer), old(filebuffer), typed((old(self).sels(),
                old(filebuffer).text()), index as int, character, preserve_lines, old(self).padding_char())),
            final(filebuffer).text().len() <= old(filebuffer).text().len() + 1,
            final(self).sels().len() == old(self).sels().len(),
    {
        let ghost n = self.sels().len();
        let ghost s = self.sels()[index as int];
        let mut typed_text: Vec<char> = Vec::new();
        typed_text.push(character);
        assert(typed_text@ =~= seq![character]);
        if preserve_lines && self.is_last_selected_newline(filebuffer, index) {
            self.selection_exclude_last(filebuffer, index);
        }
        let ghost fb1 = *filebuffer;
        let ghost tb1 = *self;
        proof {
            let s1 = if preserve_lines && old(filebuffer).text()[s.last() as int] == '\n' { without_last(s) } else { s };
            assert(tb1.sels() =~= old(self).sels().update(index as int, s1));
            assert forall|i: int| 0 <= i < n implies selection_in(#[trigger] self.sels()[i],
                filebuffer.text().len() as int) by {
                assert(selection_in(old(self).sels()[i], filebuffer.text().len() as int));
            }
        }
        self.replace_selected_text(filebuffer, index, typed_text);
        let ghost fb2 = *filebuffer;
        let ghost tb2 = *self;
        let ghost t2 = filebuffer.text();
        self.move_selection_to_first(filebuffer, index);
        self.move_selection_right(filebuffer, index);
        proof {
            lemma_column_bound(t2, self.sels()[index as int].primary_index as int);
        }
        self.update_offset(filebuffer, index);
        self.reset_selection(filebuffer, index);
        proof {
            Filebuffer::lemma_changes_from_selection_changes(old(filebuffer), &fb1, self.window());
            Filebuffer::lemma_changes_from_selection_changes(&fb2, filebuffer, self.window());
            Filebuffer::lemma_changes_trans(old(filebuffer), &fb1, &fb2, self.window());
            Filebuffer::lemma_changes_trans(old(filebuffer), &fb2, filebuffer, self.window());
            assert forall|i: int| 0 <= i < n implies selection_in(#[trigger] self.sels()[i], t2.len() as int) by {
                assert(selection_in(tb2.sels()[i], t2.len() as int));
            }
        }
    }

    /// `character` typed at the cursor of selection `index`.
    fn type_at(&mut self, filebuffer: &mut Filebuffer, index: usize, character: char, preserve_lines: bool)
        requires
            old(self).wf(old(filebuffer)),
            index < old(self).sels().len(),
            old(self).sels()[index as int].primary_index == old(self).sels()[index as int].secondary_index,
            old(filebuffer).text().len() < usize::MAX / 8,
        ensures
            final(self).holds(old(self), final(filebuffer), old(filebuffer), typed((old(self).sels(),
                old(filebuffer).text()), index as int, character, preserve_lines, old(self).padding_char())),
            final(filebuffer).text().len() == old(filebuffer).text().len() + 1,
            final(self).sels().len() == old(self).sels().len(),
    {
        let ghost n = self.sels().len();
        let mut typed_text: Vec<char> = Vec::new();
        typed_text.push(character);
        assert(typed_text@ =~= seq![character]);
        let primary = self.selections[index].primary_index;
        self.insert_text(filebuffer, primary, typed_text);
        let ghost fb1 = *filebuffer;
        let ghost t1 = filebuffer.text();
        self.move_selection_right(filebuffer, index);
        proof {
            lemma_column_bound(t1, self.sels()[index as int].primary_index as int);
        }
        self.update_offset(filebuffer, index);
        self.reset_selection(filebuffer, index);
        proof {
            assert forall|i: int| 0 <= i < n implies (#[trigger] self.sels()[i]).primary_index <= usize::MAX / 4
                && self.sels()[i].secondary_index <= usize::MAX / 4 by {
                assert(selection_in(old(self).sels()[i], old(filebuffer).text().len() as int));
            }
        }
        self.advance_selections(filebuffer, index, 1);
        proof {
            Filebuffer::lemma_changes_from_selection_changes(&fb1, filebuffer, self.window());
            Filebuffer::lemma_changes_trans(old(filebuffer), &fb1, filebuffer, self.window());
            assert forall|i: int| 0 <= i < n implies selection_in(#[trigger] self.sels()[i], t1.len() as int) by {
                assert(selection_in(old(self).sels()[i], old(filebuffer).text().len() as int));
            }
        }
    }
    /// Does `edit` at selection `index`.
    fn edit_at(&mut self, textbuffer_context: &TextbufferContext, filebuffer: &mut Filebuffer, edit: Edit, index: usize)
        requires
            old(self).wf(old(filebuffer)),
            index < old(self).sels().len(),
            edit.grows() ==> old(filebuffer).text().len() < usize::MAX / 8,
        ensures
            final(self).holds(old(self), final(filebuffer), old(filebuffer), edit_step(edit, old(filebuffer).tokens(),
                textbuffer_context.start_at_symbol, old(self).padding_char(), (old(self).sels(), old(filebuffer).text()),
                index as int)),
            edit.grows() ==> final(filebuffer).text().len() <= old(filebuffer).text().len() + 1,
            !edit.grows() ==> final(filebuffer).text().len() <= old(filebuffer).text().len(),
            final(self).sels().len() == old(self).sels().len(),
    {
        reveal(edit_step);
        match edit {
            Edit::RemoveChar => self.erase_char(filebuffer, index, true),
            Edit::DeleteChar => self.erase_char(filebuffer, index, false),
            Edit::EraseWord => self.erase_word_step(filebuffer, index),
            Edit::EraseLine => self.erase_line_step(textbuffer_context, filebuffer, index),
            Edit::EraseSpannedLines => self.erase_spanned(textbuffer_context, filebuffer, index, false),
            Edit::EraseSpannedWords => self.erase_spanned(textbuffer_context, filebuffer, index, true),
            Edit::NewlineAbove => self.newline_step(filebuffer, index, false),
            Edit::NewlineBelow => self.newline_step(filebuffer, index, true),
            Edit::Type(character, preserve_lines) => {
                if self.is_selection_extended(index) {
                    self.type_over(filebuffer, index, character, preserve_lines);
                } else {
                    self.type_at(filebuffer, index, character, preserve_lines);
                }
            },
        }
    }

    /// Does `edit` at every selection from `start` on, one after the other.
    pub(crate) fn apply_edit(&mut self, textbuffer_context: &TextbufferContext, filebuffer: &mut Filebuffer, edit: Edit, start: usize)
        requires
            old(self).wf(old(filebuffer)),
            start <= old(self).sels().len(),
            edit.grows() ==> old(filebuffer).text().len() + old(self).sels().len() - start <= usize::MAX / 8,
        ensures
            final(self).holds(old(self), final(filebuffer), old(filebuffer), edited(edit, old(filebuffer).tokens(),
                textbuffer_context.start_at_symbol, old(self).padding_char(), (old(self).sels(), old(filebuffer).text()),
                start as int, old(self).sels().len() as int)),
            edit.grows() ==> final(filebuffer).text().len() <= old(filebuffer).text().len() + old(self).sels().len() - start,
            !edit.grows() ==> final(filebuffer).text().len() <= old(filebuffer).text().len(),
    {
        let ghost init = (old(self).sels(), old(filebuffer).text());
        let ghost tokens = old(filebuffer).tokens();
        let ghost sas = textbuffer_context.start_at_symbol;
        let ghost padding = old(self).padding_char();
        let n = self.selections.len();
        let mut index = start;
        proof {
            Filebuffer::lemma_logged_refl(filebuffer, self.window());
            Filebuffer::lemma_changes_from_selection_changes(filebuffer, filebuffer, self.window());
        }
        while index < n
            invariant
                start <= index <= n,
                n == old(self).sels().len(),
                self.sels().len() == n,
                old(filebuffer).wf(),
                self.holds(old(self), filebuffer, old(filebuffer), edited(edit, tokens, sas, padding, init, start as int, index as int)),
                tokens == old(filebuffer).tokens(),
                padding == old(self).padding_char(),
                sas == textbuffer_context.start_at_symbol,
                init == (old(self).sels(), old(filebuffer).text()),
                edit.grows() ==> old(filebuffer).text().len() + n - start <= usize::MAX / 8,
                edit.grows() ==> filebuffer.text().len() <= old(filebuffer).text().len() + index - start,
                !edit.grows() ==> filebuffer.text().len() <= old(filebuffer).text().len(),
            decreases n - index,
        {
            let ghost fb_before = *filebuffer;
            self.edit_at(textbuffer_context, filebuffer, edit, index);
            proof {
                Filebuffer::lemma_changes_trans(old(filebuffer), &fb_before, filebuffer, self.window());
            }
            index = index + 1;
        }
    }
}

/// Typing a character at a lone cursor and then removing the character before
/// the cursor gives the text back, where it ends with the padding, and the
/// cursor back where it was, its offset the column there.
pub proof fn law_type_then_remove(s: Selection, text: Seq<char>, c: char, preserve_lines: bool, tokens: Seq<Token>, start_at_symbol: bool, padding: char)
    requires
        s.primary_index == s.secondary_index,
        s.primary_index < text.len(),
        text.len() > 0,
        text.last() == padding,
        text.len() + 1 <= usize::MAX,
    ensures
        ({
            let typed = edited(Edit::Type(c, preserve_lines), tokens, start_at_symbol, padding, (seq![s], text), 0, 1);
            let back = edited(Edit::RemoveChar, tokens, start_at_symbol, padding, typed, 0, 1);
            &&& back.1 == text
            &&& back.0 == seq![Selection {
                primary_index: s.primary_index,
                secondary_index: s.primary_index,
                offset: column(text, s.primary_index as int) as usize,
            }]
        }),
{
    reveal(edit_step);
    let p = s.primary_index as int;
    let state = (seq![s], text);
    let t2 = text_with_insert(text, p, seq![c]);
    assert(t2.len() == text.len() + 1);
    let typed = edited(Edit::Type(c, preserve_lines), tokens, start_at_symbol, padding, state, 0, 1);
    assert(edited(Edit::Type(c, preserve_lines), tokens, start_at_symbol, padding, state, 0, 0) == state);
    assert(typed == edit_step(Edit::Type(c, preserve_lines), tokens, start_at_symbol, padding, state, 0));
    let s2 = collapse(offset_at(t2, right1(t2, s)));
    assert(s2.primary_index == p + 1);
    assert(typed.1 == t2);
    assert(typed.0 =~= seq![s2]);
    let back = edited(Edit::RemoveChar, tokens, start_at_symbol, padding, typed, 0, 1);
    assert(edited(Edit::RemoveChar, tokens, start_at_symbol, padding, typed, 0, 0) == typed);
    assert(back == edit_step(Edit::RemoveChar, tokens, start_at_symbol, padding, typed, 0));
    assert(back == delete_one(typed, 0, p, padding));
    assert(text_with_removal(t2, p, 1) =~= text);
    assert(back.1 == text);
    assert(back.0 =~= seq![Selection { primary_index: p as usize, secondary_index: p as usize, offset: column(text, p) as usize }]);
}

/// Opening a line at a lone cursor and then deleting the character under the
/// cursor gives the text back, where it ends with the padding, and the cursor
/// back where it was, its offset the column there.
pub proof fn law_newline_then_delete(s: Selection, text: Seq<char>, tokens: Seq<Token>, start_at_symbol: bool, padding: char)
    requires
        s.primary_index == s.secondary_index,
        s.primary_index < text.len(),
        text.last() == padding,
        text.len() + 1 <= usize::MAX,
    ensures
        ({
            let opened = edited(Edit::NewlineAbove, tokens, start_at_symbol, padding, (seq![s], text), 0, 1);
            let back = edited(Edit::DeleteChar, tokens, start_at_symbol, padding, opened, 0, 1);
            &&& back.1 == text
            &&& back.0 == seq![Selection {
                primary_index: s.primary_index,
                secondary_index: s.primary_index,
                offset: column(text, s.primary_index as int) as usize,
            }]
        }),
{
    reveal(edit_step);
    let p = s.primary_index as int;
    let state = (seq![s], text);
    let t2 = text_with_insert(text, p, seq!['\n']);
    let opened = edited(Edit::NewlineAbove, tokens, start_at_symbol, padding, state, 0, 1);
    assert(edited(Edit::NewlineAbove, tokens, start_at_symbol, padding, state, 0, 0) == state);
    assert(opened == edit_step(Edit::NewlineAbove, tokens, start_at_symbol, padding, state, 0));
    assert(opened.1 == t2);
    assert(opened.0 =~= seq![s]);
    let back = edited(Edit::DeleteChar, tokens, start_at_symbol, padding, opened, 0, 1);
    assert(edited(Edit::DeleteChar, tokens, start_at_symbol, padding, opened, 0, 0) == opened);
    assert(back == edit_step(Edit::DeleteChar, tokens, start_at_symbol, padding, opened, 0));
    assert(back == delete_one(opened, 0, p, padding));
    assert(text_with_removal(t2, p, 1) =~= text);
    assert(back.1 == text);
    assert(back.0 =~= seq![Selection { primary_index: p as usize, secondary_index: p as usize, offset: column(text, p) as usize }]);
}

} // verus!
