use vstd::prelude::*;

use super::scroll::scroll_after_gaps;
use super::steps::{moved_by, Motion};
use super::Textbuffer;
use crate::context::TextbufferContext;
use crate::filebuffer::Filebuffer;
use crate::selection::SelectionMode;

verus! {

impl Textbuffer {
    /// The first selection that actions move.
    pub open spec fn first_moved(&self) -> int {
        if self.adding() {
            self.sels().len() - 1
        } else {
            0
        }
    }

    /// `new` is `old` after `motion` moved the selections from the first one
    /// that actions move on, with the view scrolled to the last cursor when
    /// `gaps` holds.
    pub open spec fn moved(
        new: &Textbuffer,
        old: &Textbuffer,
        ctx: &TextbufferContext,
        old_fb: &Filebuffer,
        motion: Motion,
        gaps: bool,
    ) -> bool {
        &&& new.sels() == moved_by(old.sels(), old.first_moved(), motion, old_fb, ctx.start_at_symbol)
        &&& new.scroll() == if gaps {
            scroll_after_gaps(ctx, old_fb, new.sels().last().primary_index, old.scroll(), old.lines_shown())
        } else {
            old.scroll() as int
        }
    }

    /// What every move does, whatever the mode: the window stays usable, only
    /// selection changes of this window are recorded, and the settings stay.
    pub open spec fn kept(new: &Textbuffer, old: &Textbuffer, fb: &Filebuffer, old_fb: &Filebuffer) -> bool {
        &&& new.wf(fb)
        &&& Filebuffer::logged_selection_changes(old_fb, fb, old.window())
        &&& new.same_settings_but_scroll(old)
    }

    fn motion_and_gaps(
        &mut self,
        textbuffer_context: &TextbufferContext,
        filebuffer: &mut Filebuffer,
        motion: Motion,
        gaps: bool,
    )
        requires
            old(self).wf(old(filebuffer)),
            textbuffer_context.wf(),
        ensures
            Textbuffer::kept(final(self), old(self), final(filebuffer), old(filebuffer)),
            Textbuffer::moved(final(self), old(self), textbuffer_context, old(filebuffer), motion, gaps),
    {
        let start = self.selection_start();
        self.apply_motion(textbuffer_context, filebuffer, motion, start);
        if gaps {
            self.check_selection_gaps(textbuffer_context, filebuffer);
        }
    }

    pub(crate) fn move_left(&mut self, textbuffer_context: &TextbufferContext, filebuffer: &mut Filebuffer)
        requires
            old(self).wf(old(filebuffer)),
            textbuffer_context.wf(),
        ensures
            Textbuffer::kept(final(self), old(self), final(filebuffer), old(filebuffer)),
            old(self).selection_mode() == SelectionMode::Character ==> Textbuffer::moved(final(self), old(self),
                textbuffer_context, old(filebuffer), Motion::CharLeft, true),
            old(self).selection_mode() == SelectionMode::Word ==> Textbuffer::moved(final(self), old(self),
                textbuffer_context, old(filebuffer), Motion::WordLeft, true),
            old(self).selection_mode() == SelectionMode::Line ==> *final(self) == *old(self) && *final(filebuffer)
                == *old(filebuffer),
    {
        match self.mode {
            SelectionMode::Character => self.motion_and_gaps(textbuffer_context, filebuffer, Motion::CharLeft, true),
            SelectionMode::Word => self.motion_and_gaps(textbuffer_context, filebuffer, Motion::WordLeft, true),
            SelectionMode::Line => {
                proof {
                    Filebuffer::lemma_logged_refl(filebuffer, self.window());
                }
            },
        }
    }

    pub(crate) fn move_right(&mut self, textbuffer_context: &TextbufferContext, filebuffer: &mut Filebuffer)
        requires
            old(self).wf(old(filebuffer)),
            textbuffer_context.wf(),
        ensures
            Textbuffer::kept(final(self), old(self), final(filebuffer), old(filebuffer)),
            old(self).selection_mode() == SelectionMode::Character ==> Textbuffer::moved(final(self), old(self),
                textbuffer_context, old(filebuffer), Motion::CharRight, false),
            old(self).selection_mode() == SelectionMode::Word ==> Textbuffer::moved(final(self), old(self),
                textbuffer_context, old(filebuffer), Motion::WordRight, false),
            old(self).selection_mode() == SelectionMode::Line ==> *final(self) == *old(self) && *final(filebuffer)
                == *old(filebuffer),
    {
        match self.mode {
            SelectionMode::Character => self.motion_and_gaps(textbuffer_context, filebuffer, Motion::CharRight, false),
            SelectionMode::Word => self.motion_and_gaps(textbuffer_context, filebuffer, Motion::WordRight, false),
            SelectionMode::Line => {
                proof {
                    Filebuffer::lemma_logged_refl(filebuffer, self.window());
                }
            },
        }
    }

    pub(crate) fn move_up(&mut self, textbuffer_context: &TextbufferContext, filebuffer: &mut Filebuffer)
        requires
            old(self).wf(old(filebuffer)),
            textbuffer_context.wf(),
        ensures
            Textbuffer::kept(final(self), old(self), final(filebuffer), old(filebuffer)),
            Textbuffer::moved(final(self), old(self), textbuffer_context, old(filebuffer),
                match old(self).selection_mode() {
                    SelectionMode::Character => Motion::CharUp,
                    SelectionMode::Word => Motion::WordUp,
                    SelectionMode::Line => Motion::LineUp,
                }, true),
    {
        let motion = match self.mode {
            SelectionMode::Character => Motion::CharUp,
            SelectionMode::Word => Motion::WordUp,
            SelectionMode::Line => Motion::LineUp,
        };
        self.motion_and_gaps(textbuffer_context, filebuffer, motion, true);
    }

    pub(crate) fn move_down(&mut self, textbuffer_context: &TextbufferContext, filebuffer: &mut Filebuffer)
        requires
            old(self).wf(old(filebuffer)),
            textbuffer_context.wf(),
        ensures
            Textbuffer::kept(final(self), old(self), final(filebuffer), old(filebuffer)),
            Textbuffer::moved(final(self), old(self), textbuffer_context, old(filebuffer),
                match old(self).selection_mode() {
                    SelectionMode::Character => Motion::CharDown,
                    SelectionMode::Word => Motion::WordDown,
                    SelectionMode::Line => Motion::LineDown,
                }, true),
    {
        let motion = match self.mode {
            SelectionMode::Character => Motion::CharDown,
            SelectionMode::Word => Motion::WordDown,
            SelectionMode::Line => Motion::LineDown,
        };
        self.motion_and_gaps(textbuffer_context, filebuffer, motion, true);
    }

    pub(crate) fn extend_left(&mut self, textbuffer_context: &TextbufferContext, filebuffer: &mut Filebuffer)
        requires
            old(self).wf(old(filebuffer)),
            textbuffer_context.wf(),
        ensures
            Textbuffer::kept(final(self), old(self), final(filebuffer), old(filebuffer)),
            old(self).selection_mode() == SelectionMode::Character ==> Textbuffer::moved(final(self), old(self),
                textbuffer_context, old(filebuffer), Motion::ExtendCharLeft, true),
            old(self).selection_mode() == SelectionMode::Word ==> Textbuffer::moved(final(self), old(self),
                textbuffer_context, old(filebuffer), Motion::ExtendWordLeft, true),
            old(self).selection_mode() == SelectionMode::Line ==> *final(self) == *old(self) && *final(filebuffer)
                == *old(filebuffer),
    {
        match self.mode {
            SelectionMode::Character => self.motion_and_gaps(textbuffer_context, filebuffer, Motion::ExtendCharLeft, true),
            SelectionMode::Word => self.motion_and_gaps(textbuffer_context, filebuffer, Motion::ExtendWordLeft, true),
            SelectionMode::Line => {
                proof {
                    Filebuffer::lemma_logged_refl(filebuffer, self.window());
                }
            },
        }
    }

    pub(crate) fn extend_right(&mut self, textbuffer_context: &TextbufferContext, filebuffer: &mut Filebuffer)
        requires
            old(self).wf(old(filebuffer)),
            textbuffer_context.wf(),
        ensures
            Textbuffer::kept(final(self), old(self), final(filebuffer), old(filebuffer)),
            old(self).selection_mode() == SelectionMode::Character ==> Textbuffer::moved(final(self), old(self),
                textbuffer_context, old(filebuffer), Motion::ExtendCharRight, true),
            old(self).selection_mode() == SelectionMode::Word ==> Textbuffer::moved(final(self), old(self),
                textbuffer_context, old(filebuffer), Motion::ExtendWordRight, true),
            old(self).selection_mode() == SelectionMode::Line ==> *final(self) == *old(self) && *final(filebuffer)
                == *old(filebuffer),
    {
        match self.mode {
            SelectionMode::Character => self.motion_and_gaps(textbuffer_context, filebuffer, Motion::ExtendCharRight, true),
            SelectionMode::Word => self.motion_and_gaps(textbuffer_context, filebuffer, Motion::ExtendWordRight, true),
            SelectionMode::Line => {
                proof {
                    Filebuffer::lemma_logged_refl(filebuffer, self.window());
                }
            },
        }
    }

    pub(crate) fn extend_up(&mut self, textbuffer_context: &TextbufferContext, filebuffer: &mut Filebuffer)
        requires
            old(self).wf(old(filebuffer)),
            textbuffer_context.wf(),
        ensures
            Textbuffer::kept(final(self), old(self), final(filebuffer), old(filebuffer)),
            Textbuffer::moved(final(self), old(self), textbuffer_context, old(filebuffer),
                match old(self).selection_mode() {
                    SelectionMode::Character => Motion::ExtendCharUp,
                    SelectionMode::Word => Motion::ExtendWordUp,
                    SelectionMode::Line => Motion::ExtendLineUp,
                }, true),
    {
        let motion = match self.mode {
            SelectionMode::Character => Motion::ExtendCharUp,
            SelectionMode::Word => Motion::ExtendWordUp,
            SelectionMode::Line => Motion::ExtendLineUp,
        };
        self.motion_and_gaps(textbuffer_context, filebuffer, motion, true);
    }

    pub(crate) fn extend_down(&mut self, textbuffer_context: &TextbufferContext, filebuffer: &mut Filebuffer)
        requires
            old(self).wf(old(filebuffer)),
            textbuffer_context.wf(),
        ensures
            Textbuffer::kept(final(self), old(self), final(filebuffer), old(filebuffer)),
            Textbuffer::moved(final(self), old(self), textbuffer_context, old(filebuffer),
                match old(self).selection_mode() {
                    SelectionMode::Character => Motion::ExtendCharDown,
                    SelectionMode::Word => Motion::ExtendWordDown,
                    SelectionMode::Line => Motion::ExtendLineDown,
                }, true),
    {
        let motion = match self.mode {
            SelectionMode::Character => Motion::ExtendCharDown,
            SelectionMode::Word => Motion::ExtendWordDown,
            SelectionMode::Line => Motion::ExtendLineDown,
        };
        self.motion_and_gaps(textbuffer_context, filebuffer, motion, true);
    }

    /// In character mode: `motion` on the selections, without scrolling;
    /// in the other modes nothing.
    fn character_only(&mut self, textbuffer_context: &TextbufferContext, filebuffer: &mut Filebuffer, motion: Motion)
        requires
            old(self).wf(old(filebuffer)),
            textbuffer_context.wf(),
        ensures
            Textbuffer::kept(final(self), old(self), final(filebuffer), old(filebuffer)),
            old(self).selection_mode() == SelectionMode::Character ==> Textbuffer::moved(final(self), old(self),
                textbuffer_context, old(filebuffer), motion, false),
            old(self).selection_mode() != SelectionMode::Character ==> *final(self) == *old(self) && *final(filebuffer)
                == *old(filebuffer),
    {
        match self.mode {
            SelectionMode::Character => self.motion_and_gaps(textbuffer_context, filebuffer, motion, false),
            _ => {
                proof {
                    Filebuffer::lemma_logged_refl(filebuffer, self.window());
                }
            },
        }
    }

    pub(crate) fn move_to_end(&mut self, textbuffer_context: &TextbufferContext, filebuffer: &mut Filebuffer)
        requires
            old(self).wf(old(filebuffer)),
            textbuffer_context.wf(),
        ensures
            Textbuffer::kept(final(self), old(self), final(filebuffer), old(filebuffer)),
            old(self).selection_mode() == SelectionMode::Character ==> Textbuffer::moved(final(self), old(self),
                textbuffer_context, old(filebuffer), Motion::CharEnd, false),
            old(self).selection_mode() != SelectionMode::Character ==> *final(self) == *old(self) && *final(filebuffer)
                == *old(filebuffer),
    {
        self.character_only(textbuffer_context, filebuffer, Motion::CharEnd);
    }

    pub(crate) fn move_to_start(&mut self, textbuffer_context: &TextbufferContext, filebuffer: &mut Filebuffer)
        requires
            old(self).wf(old(filebuffer)),
            textbuffer_context.wf(),
        ensures
            Textbuffer::kept(final(self), old(self), final(filebuffer), old(filebuffer)),
            old(self).selection_mode() == SelectionMode::Character ==> Textbuffer::moved(final(self), old(self),
                textbuffer_context, old(filebuffer), Motion::CharStart, false),
            old(self).selection_mode() != SelectionMode::Character ==> *final(self) == *old(self) && *final(filebuffer)
                == *old(filebuffer),
    {
        self.character_only(textbuffer_context, filebuffer, Motion::CharStart);
    }

    pub(crate) fn extend_end(&mut self, textbuffer_context: &TextbufferContext, filebuffer: &mut Filebuffer)
        requires
            old(self).wf(old(filebuffer)),
            textbuffer_context.wf(),
        ensures
            Textbuffer::kept(final(self), old(self), final(filebuffer), old(filebuffer)),
            old(self).selection_mode() == SelectionMode::Character ==> Textbuffer::moved(final(self), old(self),
                textbuffer_context, old(filebuffer), Motion::ExtendCharEnd, false),
            old(self).selection_mode() != SelectionMode::Character ==> *final(self) == *old(self) && *final(filebuffer)
                == *old(filebuffer),
    {
        self.character_only(textbuffer_context, filebuffer, Motion::ExtendCharEnd);
    }

    pub(crate) fn extend_start(&mut self, textbuffer_context: &TextbufferContext, filebuffer: &mut Filebuffer)
        requires
            old(self).wf(old(filebuffer)),
            textbuffer_context.wf(),
        ensures
            Textbuffer::kept(final(self), old(self), final(filebuffer), old(filebuffer)),
            old(self).selection_mode() == SelectionMode::Character ==> Textbuffer::moved(final(self), old(self),
                textbuffer_context, old(filebuffer), Motion::ExtendCharStart, false),
            old(self).selection_mode() != SelectionMode::Character ==> *final(self) == *old(self) && *final(filebuffer)
                == *old(filebuffer),
    {
        self.character_only(textbuffer_context, filebuffer, Motion::ExtendCharStart);
    }
}

} // verus!
