use vstd::prelude::*;

use super::steps::{moved_by, Motion};
use super::Textbuffer;
use crate::context::TextbufferContext;
use crate::filebuffer::Filebuffer;
use crate::selection::SelectionMode;

verus! {

impl Textbuffer {
    /// Everything but the selections, the mode and the synced position is as in `other`.
    pub open spec fn same_settings_but_mode(&self, other: &Textbuffer) -> bool {
        &&& self.adding() == other.adding()
        &&& self.padding_char() == other.padding_char()
        &&& self.scroll() == other.scroll()
        &&& self.horizontal() == other.horizontal()
        &&& self.lines_shown() == other.lines_shown()
        &&& self.window() == other.window()
    }

    /// Switches to character mode.
    pub(crate) fn character_mode(&mut self, filebuffer: &mut Filebuffer)
        requires
            old(self).wf(old(filebuffer)),
        ensures
            final(self).wf(final(filebuffer)),
            Filebuffer::logged_selection_changes(old(filebuffer), final(filebuffer), old(self).window()),
            final(self).same_settings_but_mode(old(self)),
            final(self).sels() == old(self).sels(),
            final(self).selection_mode() == SelectionMode::Character,
    {
        if !self.mode.is_character() {
            self.set_selection_mode(filebuffer, SelectionMode::Character);
        } else {
            proof {
                Filebuffer::lemma_logged_refl(filebuffer, self.window());
            }
        }
    }

    /// Switches to word mode, widening every selection to whole words.
    pub(crate) fn word_mode(&mut self, textbuffer_context: &TextbufferContext, filebuffer: &mut Filebuffer)
        requires
            old(self).wf(old(filebuffer)),
            textbuffer_context.wf(),
        ensures
            final(self).wf(final(filebuffer)),
            Filebuffer::logged_selection_changes(old(filebuffer), final(filebuffer), old(self).window()),
            final(self).same_settings_but_mode(old(self)),
            final(self).selection_mode() == SelectionMode::Word,
            old(self).selection_mode() == SelectionMode::Word ==> final(self).sels() == old(self).sels(),
            old(self).selection_mode() != SelectionMode::Word ==> final(self).sels() == moved_by(old(self).sels(), 0,
                Motion::WordSpan, old(filebuffer), textbuffer_context.start_at_symbol),
    {
        if !self.mode.is_word() {
            self.set_selection_mode(filebuffer, SelectionMode::Word);
            let ghost mid = *filebuffer;
            self.apply_motion(textbuffer_context, filebuffer, Motion::WordSpan, 0);
            proof {
                Filebuffer::lemma_logged_trans(old(filebuffer), &mid, filebuffer, self.window());
                super::steps::lemma_moved_by_congruence(old(self).sels(), 0, Motion::WordSpan, &mid, old(filebuffer),
                    textbuffer_context.start_at_symbol);
            }
        } else {
            proof {
                Filebuffer::lemma_logged_refl(filebuffer, self.window());
            }
        }
    }

    /// Switches to line mode, widening every selection to whole lines.
    pub(crate) fn line_mode(&mut self, textbuffer_context: &TextbufferContext, filebuffer: &mut Filebuffer)
        requires
            old(self).wf(old(filebuffer)),
            textbuffer_context.wf(),
        ensures
            final(self).wf(final(filebuffer)),
            Filebuffer::logged_selection_changes(old(filebuffer), final(filebuffer), old(self).window()),
            final(self).same_settings_but_mode(old(self)),
            final(self).selection_mode() == SelectionMode::Line,
            old(self).selection_mode() == SelectionMode::Line ==> final(self).sels() == old(self).sels(),
            old(self).selection_mode() != SelectionMode::Line ==> final(self).sels() == moved_by(old(self).sels(), 0,
                Motion::LineSpan, old(filebuffer), textbuffer_context.start_at_symbol),
    {
        if !self.mode.is_line() {
            self.set_selection_mode(filebuffer, SelectionMode::Line);
            let ghost mid = *filebuffer;
            self.apply_motion(textbuffer_context, filebuffer, Motion::LineSpan, 0);
            proof {
                Filebuffer::lemma_logged_trans(old(filebuffer), &mid, filebuffer, self.window());
                super::steps::lemma_moved_by_congruence(old(self).sels(), 0, Motion::LineSpan, &mid, old(filebuffer),
                    textbuffer_context.start_at_symbol);
            }
        } else {
            proof {
                Filebuffer::lemma_logged_refl(filebuffer, self.window());
            }
        }
    }

    /// Moves each cursor past its selection and switches to character mode.
    pub(crate) fn append(&mut self, textbuffer_context: &TextbufferContext, filebuffer: &mut Filebuffer)
        requires
            old(self).wf(old(filebuffer)),
            textbuffer_context.wf(),
        ensures
            final(self).wf(final(filebuffer)),
            Filebuffer::logged_selection_changes(old(filebuffer), final(filebuffer), old(self).window()),
            final(self).same_settings_but_mode(old(self)),
            final(self).selection_mode() == SelectionMode::Character,
            final(self).sels() == moved_by(old(self).sels(), old(self).first_moved(), Motion::Append, old(filebuffer),
                textbuffer_context.start_at_symbol),
    {
        let start = self.selection_start();
        self.apply_motion(textbuffer_context, filebuffer, Motion::Append, start);
        let ghost mid = *filebuffer;
        self.character_mode(filebuffer);
        proof {
            Filebuffer::lemma_logged_trans(old(filebuffer), &mid, filebuffer, self.window());
        }
    }

    /// Moves each cursor to the start of its selection and switches to character mode.
    pub(crate) fn insert(&mut self, textbuffer_context: &TextbufferContext, filebuffer: &mut Filebuffer)
        requires
            old(self).wf(old(filebuffer)),
            textbuffer_context.wf(),
        ensures
            final(self).wf(final(filebuffer)),
            Filebuffer::logged_selection_changes(old(filebuffer), final(filebuffer), old(self).window()),
            final(self).same_settings_but_mode(old(self)),
            final(self).selection_mode() == SelectionMode::Character,
            final(self).sels() == moved_by(old(self).sels(), old(self).first_moved(), Motion::Insert, old(filebuffer),
                textbuffer_context.start_at_symbol),
    {
        let start = self.selection_start();
        self.apply_motion(textbuffer_context, filebuffer, Motion::Insert, start);
        let ghost mid = *filebuffer;
        self.character_mode(filebuffer);
        proof {
            Filebuffer::lemma_logged_trans(old(filebuffer), &mid, filebuffer, self.window());
        }
    }
}

} // verus!
