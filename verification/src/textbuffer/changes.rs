use vstd::prelude::*;

use super::edit::{padded, replaced};
use super::editing::{edited, Edit, EditState};
use super::search::selected_text;
use super::steps::offset_at;
use super::selection_in;
use super::scroll::scroll_after_gaps;
use super::steps::{moved_by, Motion};
use super::Textbuffer;
use crate::context::TextbufferContext;
use crate::filebuffer::Filebuffer;
use crate::lines::lemma_column_bound;
use crate::selection::{Selection, SelectionMode};

verus! {

broadcast use crate::textbuffer::Textbuffer::lemma_changed_one_chain;

/// Selections, text, and the text to put in next.
pub type RotateState = (Seq<Selection>, Seq<char>, Seq<char>);

/// Selection `index` gets the text waiting to be put in, and keeps that many
/// characters selected; its own text waits next. Where the text would grow
/// too long for the arithmetic on positions, only its own text is taken.
pub open spec fn rotate_step(state: RotateState, index: int, padding: char) -> RotateState {
    let sels = state.0;
    let t = state.1;
    let waiting = state.2;
    let taken = selected_text(t, sels[index]);
    if t.len() + waiting.len() >= usize::MAX / 8 {
        (sels, t, taken)
    } else {
        let r = replaced(sels, t, index, waiting, padding);
        let s = r.0[index];
        let last = (s.first() + waiting.len() - 1) as usize;
        let s2 = if s.primary_index < s.secondary_index {
            s.with_secondary(last)
        } else {
            s.with_primary(last)
        };
        (r.0.update(index, offset_at(r.1, s2)), r.1, taken)
    }
}

/// The rotation done for the selections before `end`.
pub open spec fn rotated(state: RotateState, padding: char, end: int) -> RotateState
    decreases end,
{
    if end <= 0 {
        state
    } else {
        rotate_step(rotated(state, padding, end - 1), end - 1, padding)
    }
}

/// The edit that removing (backspace) or deleting does in `mode`.
pub open spec fn erase_edit(mode: SelectionMode, backwards: bool) -> Edit {
    match mode {
        SelectionMode::Character => if backwards { Edit::RemoveChar } else { Edit::DeleteChar },
        SelectionMode::Word => Edit::EraseWord,
        SelectionMode::Line => Edit::EraseLine,
    }
}

/// The edit that deleting whole lines does in `mode`.
pub open spec fn line_erase_edit(mode: SelectionMode) -> Edit {
    match mode {
        SelectionMode::Character => Edit::EraseSpannedLines,
        SelectionMode::Word => Edit::EraseSpannedWords,
        SelectionMode::Line => Edit::EraseLine,
    }
}

impl Textbuffer {
    /// What every change of the text does: the window stays usable and only
    /// changes of this window are recorded.
    pub open spec fn changed(new: &Textbuffer, old: &Textbuffer, fb: &Filebuffer, old_fb: &Filebuffer) -> bool {
        &&& new.wf(fb)
        &&& Filebuffer::logged_changes(old_fb, fb, old.window())
        &&& new.adding() == old.adding()
        &&& new.padding_char() == old.padding_char()
        &&& new.horizontal() == old.horizontal()
        &&& new.lines_shown() == old.lines_shown()
        &&& new.window() == old.window()
    }

    /// The selections and the text are `state` after `edit` was done at every
    /// selection that actions move, and the view was scrolled to the last
    /// cursor where `gaps` holds.
    pub open spec fn edited_from(
        new: &Textbuffer,
        old: &Textbuffer,
        ctx: &TextbufferContext,
        fb: &Filebuffer,
        old_fb: &Filebuffer,
        state: EditState,
        edit: Edit,
        gaps: bool,
    ) -> bool {
        &&& (new.sels(), fb.text()) == edited(edit, old_fb.tokens(), ctx.start_at_symbol, old.padding_char(), state,
            old.first_moved(), old.sels().len() as int)
        &&& new.scroll() == if gaps {
            scroll_after_gaps(ctx, fb, new.sels().last().primary_index, old.scroll(), old.lines_shown())
        } else {
            old.scroll() as int
        }
    }

    fn erase(&mut self, textbuffer_context: &TextbufferContext, filebuffer: &mut Filebuffer, edit: Edit)
        requires
            old(self).wf(old(filebuffer)),
            textbuffer_context.wf(),
            !edit.grows(),
        ensures
            Textbuffer::changed(final(self), old(self), final(filebuffer), old(filebuffer)),
            final(self).selection_mode() == old(self).selection_mode(),
            Textbuffer::edited_from(final(self), old(self), textbuffer_context, final(filebuffer), old(filebuffer),
                (old(self).sels(), old(filebuffer).text()), edit, true),
    {
        let start = self.selection_start();
        self.apply_edit(textbuffer_context, filebuffer, edit, start);
        self.check_selection_gaps(textbuffer_context, filebuffer);
    }

    /// Backspace: deletes what each moved selection selects, or in character
    /// mode the character before a cursor that selects nothing else.
    pub(crate) fn remove(&mut self, textbuffer_context: &TextbufferContext, filebuffer: &mut Filebuffer)
        requires
            old(self).wf(old(filebuffer)),
            textbuffer_context.wf(),
        ensures
            Textbuffer::changed(final(self), old(self), final(filebuffer), old(filebuffer)),
            final(self).selection_mode() == old(self).selection_mode(),
            Textbuffer::edited_from(final(self), old(self), textbuffer_context, final(filebuffer), old(filebuffer),
                (old(self).sels(), old(filebuffer).text()), erase_edit(old(self).selection_mode(), true), true),
    {
        match self.mode {
            SelectionMode::Character => self.erase(textbuffer_context, filebuffer, Edit::RemoveChar),
            SelectionMode::Word => self.erase(textbuffer_context, filebuffer, Edit::EraseWord),
            SelectionMode::Line => self.erase(textbuffer_context, filebuffer, Edit::EraseLine),
        }
    }

    /// Delete: deletes what each moved selection selects, or in character mode
    /// the character under a cursor that selects nothing else.
    pub(crate) fn delete(&mut self, textbuffer_context: &TextbufferContext, filebuffer: &mut Filebuffer)
        requires
            old(self).wf(old(filebuffer)),
            textbuffer_context.wf(),
        ensures
            Textbuffer::changed(final(self), old(self), final(filebuffer), old(filebuffer)),
            final(self).selection_mode() == old(self).selection_mode(),
            Textbuffer::edited_from(final(self), old(self), textbuffer_context, final(filebuffer), old(filebuffer),
                (old(self).sels(), old(filebuffer).text()), erase_edit(old(self).selection_mode(), false), true),
    {
        match self.mode {
            SelectionMode::Character => self.erase(textbuffer_context, filebuffer, Edit::DeleteChar),
            SelectionMode::Word => self.erase(textbuffer_context, filebuffer, Edit::EraseWord),
            SelectionMode::Line => self.erase(textbuffer_context, filebuffer, Edit::EraseLine),
        }
    }

    /// Deletes the whole lines of each moved selection.
    pub(crate) fn delete_line(&mut self, textbuffer_context: &TextbufferContext, filebuffer: &mut Filebuffer)
        requires
            old(self).wf(old(filebuffer)),
            textbuffer_context.wf(),
        ensures
            Textbuffer::changed(final(self), old(self), final(filebuffer), old(filebuffer)),
            final(self).selection_mode() == old(self).selection_mode(),
            Textbuffer::edited_from(final(self), old(self), textbuffer_context, final(filebuffer), old(filebuffer),
                (old(self).sels(), old(filebuffer).text()), line_erase_edit(old(self).selection_mode()), true),
    {
        match self.mode {
            SelectionMode::Character => self.erase(textbuffer_context, filebuffer, Edit::EraseSpannedLines),
            SelectionMode::Word => self.erase(textbuffer_context, filebuffer, Edit::EraseSpannedWords),
            SelectionMode::Line => self.erase(textbuffer_context, filebuffer, Edit::EraseLine),
        }
    }
    /// Opens a line above each moved selection: the cursor goes to the start
    /// of the first selected line, a newline is put in there, and the mode
    /// becomes character mode.
    pub(crate) fn newline_up(&mut self, textbuffer_context: &TextbufferContext, filebuffer: &mut Filebuffer)
        requires
            old(self).wf(old(filebuffer)),
            textbuffer_context.wf(),
            old(filebuffer).text().len() + old(self).sels().len() <= usize::MAX / 8,
        ensures
            Textbuffer::changed(final(self), old(self), final(filebuffer), old(filebuffer)),
            final(self).selection_mode() == SelectionMode::Character,
            Textbuffer::edited_from(final(self), old(self), textbuffer_context, final(filebuffer), old(filebuffer),
                (moved_by(old(self).sels(), old(self).first_moved(), Motion::OpenAbove, old(filebuffer),
                textbuffer_context.start_at_symbol), old(filebuffer).text()), Edit::NewlineAbove, false),
    {
        let start = self.selection_start();
        self.apply_motion(textbuffer_context, filebuffer, Motion::OpenAbove, start);
        let ghost fb1 = *filebuffer;
        self.character_mode(filebuffer);
        let ghost fb2 = *filebuffer;
        self.apply_edit(textbuffer_context, filebuffer, Edit::NewlineAbove, start);
        proof {
            Filebuffer::lemma_logged_trans(old(filebuffer), &fb1, &fb2, self.window());
            Filebuffer::lemma_changes_from_selection_changes(old(filebuffer), &fb2, self.window());
            Filebuffer::lemma_changes_trans(old(filebuffer), &fb2, filebuffer, self.window());
        }
    }

    /// Opens a line below each moved selection: the cursor goes to the end of
    /// the last selected line, a newline is put in after it, the cursor moves
    /// onto the new line, and the mode becomes character mode.
    pub(crate) fn newline_down(&mut self, textbuffer_context: &TextbufferContext, filebuffer: &mut Filebuffer)
        requires
            old(self).wf(old(filebuffer)),
            textbuffer_context.wf(),
            old(filebuffer).text().len() + old(self).sels().len() <= usize::MAX / 8,
        ensures
            Textbuffer::changed(final(self), old(self), final(filebuffer), old(filebuffer)),
            final(self).selection_mode() == SelectionMode::Character,
            Textbuffer::edited_from(final(self), old(self), textbuffer_context, final(filebuffer), old(filebuffer),
                (moved_by(old(self).sels(), old(self).first_moved(), Motion::OpenBelow, old(filebuffer),
                textbuffer_context.start_at_symbol), old(filebuffer).text()), Edit::NewlineBelow, true),
    {
        let start = self.selection_start();
        self.apply_motion(textbuffer_context, filebuffer, Motion::OpenBelow, start);
        let ghost fb1 = *filebuffer;
        self.character_mode(filebuffer);
        let ghost fb2 = *filebuffer;
        self.apply_edit(textbuffer_context, filebuffer, Edit::NewlineBelow, start);
        self.check_selection_gaps(textbuffer_context, filebuffer);
        proof {
            Filebuffer::lemma_logged_trans(old(filebuffer), &fb1, &fb2, self.window());
            Filebuffer::lemma_changes_from_selection_changes(old(filebuffer), &fb2, self.window());
            Filebuffer::lemma_changes_trans(old(filebuffer), &fb2, filebuffer, self.window());
        }
    }
    /// Types `character` at every selection: over the selected characters
    /// where a selection covers more than one (keeping a selected newline at
    /// its end when lines are preserved), at the cursor otherwise. Ends the
    /// adding of a selection and switches to character mode.
    pub fn add_character(&mut self, textbuffer_context: &TextbufferContext, filebuffer: &mut Filebuffer, character: char)
        requires
            old(self).wf(old(filebuffer)),
            textbuffer_context.wf(),
            old(filebuffer).text().len() + old(self).sels().len() <= usize::MAX / 8,
        ensures
            final(self).wf(final(filebuffer)),
            Filebuffer::logged_changes(old(filebuffer), final(filebuffer), old(self).window()),
            !final(self).adding(),
            final(self).selection_mode() == SelectionMode::Character,
            final(self).padding_char() == old(self).padding_char(),
            final(self).horizontal() == old(self).horizontal(),
            final(self).lines_shown() == old(self).lines_shown(),
            final(self).window() == old(self).window(),
            (final(self).sels(), final(filebuffer).text()) == edited(Edit::Type(character, textbuffer_context.preserve_lines),
                old(filebuffer).tokens(), textbuffer_context.start_at_symbol, old(self).padding_char(),
                (old(self).sels(), old(filebuffer).text()), 0, old(self).sels().len() as int),
            final(self).scroll() == if character == '\n' {
                scroll_after_gaps(textbuffer_context, final(filebuffer), final(self).sels().last().primary_index,
                    old(self).scroll(), old(self).lines_shown())
            } else {
                old(self).scroll() as int
            },
    {
        self.apply_edit(textbuffer_context, filebuffer, Edit::Type(character, textbuffer_context.preserve_lines), 0);
        if character == '\n' {
            self.check_selection_gaps(textbuffer_context, filebuffer);
        }
        self.adding_selection = false;
        let ghost fb1 = *filebuffer;
        self.character_mode(filebuffer);
        proof {
            Filebuffer::lemma_changes_from_selection_changes(&fb1, filebuffer, self.window());
            Filebuffer::lemma_changes_trans(old(filebuffer), &fb1, filebuffer, self.window());
        }
    }
    /// Moves the selected texts round: each selection gets the text of the one
    /// before it, the first that of the last one. Nothing happens with a
    /// single selection.
    pub(crate) fn rotate_selections(&mut self, filebuffer: &mut Filebuffer)
        requires
            old(self).wf(old(filebuffer)),
            old(filebuffer).text().len() < usize::MAX / 8,
        ensures
            final(self).wf(final(filebuffer)),
            Filebuffer::logged_changes(old(filebuffer), final(filebuffer), old(self).window()),
            final(self).same_settings(old(self)),
            old(self).sels().len() <= 1 ==> final(self).sels() == old(self).sels() && final(filebuffer).text()
                == old(filebuffer).text(),
            old(self).sels().len() > 1 ==> {
                let r = rotated((old(self).sels(), old(filebuffer).text(), selected_text(old(filebuffer).text(),
                    old(self).sels().last())), old(self).padding_char(), old(self).sels().len() as int);
                final(self).sels() == r.0 && final(filebuffer).text() == padded(r.1, old(self).padding_char())
            },
    {
        proof {
            Filebuffer::lemma_logged_refl(filebuffer, self.window());
            Filebuffer::lemma_changes_from_selection_changes(filebuffer, filebuffer, self.window());
        }
        if self.selections.len() > 1 {
            let ghost padding = self.padding_char();
            let n = self.selections.len();
            let mut buffer = self.get_selected_text(filebuffer, n - 1);
            let ghost init: RotateState = (old(self).sels(), old(filebuffer).text(), buffer@);
            let mut index: usize = 0;
            while index < n
                invariant
                    index <= n,
                    n == old(self).sels().len(),
                    self.sels().len() == n,
                    old(filebuffer).wf(),
                    padding == old(self).padding_char(),
                    self.wf(filebuffer),
                    filebuffer.text().len() < usize::MAX / 8,
                    1 <= buffer@.len() <= usize::MAX / 8,
                    self.same_settings(old(self)),
                    Filebuffer::logged_changes(old(filebuffer), filebuffer, old(self).window()),
                    (self.sels(), filebuffer.text(), buffer@) == rotated(init, padding, index as int),
                decreases n - index,
            {
                let ghost fb0 = *filebuffer;
                let ghost tb0 = *self;
                let new_text = self.get_selected_text(filebuffer, index);
                let new_length = buffer.len();
                if filebuffer.length() + new_length < usize::MAX / 8 {
                    self.replace_selected_text(filebuffer, index, buffer);
                    let ghost fb1 = *filebuffer;
                    let ghost t1 = filebuffer.text();
                    let ghost tb1 = *self;
                    self.set_selection_length(filebuffer, index, new_length);
                    proof {
                        lemma_column_bound(t1, self.sels()[index as int].primary_index as int);
                    }
                    self.update_offset(filebuffer, index);
                    proof {
                        Filebuffer::lemma_changes_from_selection_changes(&fb1, filebuffer, self.window());
                        Filebuffer::lemma_changes_trans(&fb0, &fb1, filebuffer, self.window());
                        Filebuffer::lemma_changes_trans(old(filebuffer), &fb0, filebuffer, self.window());
                        assert forall|i: int| 0 <= i < n implies selection_in(#[trigger] self.sels()[i], t1.len() as int) by {
                            assert(selection_in(tb1.sels()[i], t1.len() as int));
                        }
                    }
                }
                buffer = new_text;
                index = index + 1;
            }
            let ghost fb2 = *filebuffer;
            self.validate_text(filebuffer);
            proof {
                Filebuffer::lemma_changes_trans(old(filebuffer), &fb2, filebuffer, self.window());
                assert forall|i: int| 0 <= i < n implies selection_in(#[trigger] self.sels()[i], filebuffer.text().len() as int) by {
                    assert(selection_in(self.sels()[i], fb2.text().len() as int));
                }
            }
        }
    }
}

} // verus!
