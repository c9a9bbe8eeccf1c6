use vstd::prelude::*;

use super::changes::{erase_edit, line_erase_edit, rotated};
use super::edit::padded;
use super::search::selected_text;
use super::editing::Edit;
use super::replay::{caught_up_state, kept_inside, ReplayState};
use super::scroll::{gap_scroll_fits, scroll_after_gaps};
use super::search::all_next_selected;
use super::selections::{duplicated, selection_after};
use super::steps::{moved_by, to_line_end, Motion};
use super::{selection_in, Textbuffer};
use crate::action::Action;
use crate::context::TextbufferContext;
use crate::filebuffer::{redone_text, undone_text, Filebuffer};
use crate::selection::SelectionMode;

verus! {

/// The motion, and whether the view follows the last cursor, of an action
/// that only moves the selections, in `mode`; `None` where the action does
/// not move them in that mode.
pub open spec fn motion_for(action: Action, mode: SelectionMode) -> Option<(Motion, bool)> {
    match (action, mode) {
        (Action::Left, SelectionMode::Character) => Some((Motion::CharLeft, true)),
        (Action::Left, SelectionMode::Word) => Some((Motion::WordLeft, true)),
        (Action::Right, SelectionMode::Character) => Some((Motion::CharRight, false)),
        (Action::Right, SelectionMode::Word) => Some((Motion::WordRight, false)),
        (Action::Up, SelectionMode::Character) => Some((Motion::CharUp, true)),
        (Action::Up, SelectionMode::Word) => Some((Motion::WordUp, true)),
        (Action::Up, SelectionMode::Line) => Some((Motion::LineUp, true)),
        (Action::Down, SelectionMode::Character) => Some((Motion::CharDown, true)),
        (Action::Down, SelectionMode::Word) => Some((Motion::WordDown, true)),
        (Action::Down, SelectionMode::Line) => Some((Motion::LineDown, true)),
        (Action::ExtendLeft, SelectionMode::Character) => Some((Motion::ExtendCharLeft, true)),
        (Action::ExtendLeft, SelectionMode::Word) => Some((Motion::ExtendWordLeft, true)),
        (Action::ExtendRight, SelectionMode::Character) => Some((Motion::ExtendCharRight, true)),
        (Action::ExtendRight, SelectionMode::Word) => Some((Motion::ExtendWordRight, true)),
        (Action::ExtendUp, SelectionMode::Character) => Some((Motion::ExtendCharUp, true)),
        (Action::ExtendUp, SelectionMode::Word) => Some((Motion::ExtendWordUp, true)),
        (Action::ExtendUp, SelectionMode::Line) => Some((Motion::ExtendLineUp, true)),
        (Action::ExtendDown, SelectionMode::Character) => Some((Motion::ExtendCharDown, true)),
        (Action::ExtendDown, SelectionMode::Word) => Some((Motion::ExtendWordDown, true)),
        (Action::ExtendDown, SelectionMode::Line) => Some((Motion::ExtendLineDown, true)),
        (Action::End, SelectionMode::Character) => Some((Motion::CharEnd, false)),
        (Action::Start, SelectionMode::Character) => Some((Motion::CharStart, false)),
        (Action::ExtendEnd, SelectionMode::Character) => Some((Motion::ExtendCharEnd, false)),
        (Action::ExtendStart, SelectionMode::Character) => Some((Motion::ExtendCharStart, false)),
        _ => None,
    }
}

/// The action only moves selections.
pub open spec fn is_move(action: Action) -> bool {
    action is Left || action is Right || action is Up || action is Down || action is ExtendLeft
        || action is ExtendRight || action is ExtendUp || action is ExtendDown || action is End || action is Start
        || action is ExtendEnd || action is ExtendStart
}

/// The actions a text buffer handles itself.
pub open spec fn handled(action: Action) -> bool {
    is_move(action) || action is CharacterMode || action is WordMode || action is LineMode || action is DuplicateUp
        || action is DuplicateDown || action is Append || action is Insert || action is NewlineUp || action is NewlineDown
        || action is AddSelection || action is SelectNext || action is Remove || action is Delete || action is DeleteLine
        || action is Rotate || action is Undo || action is Redo
}

/// What handling `action` answers: nothing where the text buffer dealt with
/// it, else the action, to be handled elsewhere.
pub open spec fn reply(action: Action, adding: bool, selection_count: nat) -> Option<Action> {
    if handled(action) {
        None
    } else if action is Abort {
        if selection_count > 1 {
            None
        } else {
            Some(Action::Abort)
        }
    } else if action is Confirm {
        if adding {
            None
        } else {
            Some(Action::Confirm)
        }
    } else {
        Some(action)
    }
}

/// The action leaves the text buffer and the file buffer as they were.
pub open spec fn leaves_alone(action: Action, mode: SelectionMode, adding: bool, selection_count: nat) -> bool {
    ||| is_move(action) && motion_for(action, mode) is None
    ||| !handled(action) && reply(action, adding, selection_count) == Some(action)
}

impl Textbuffer {
    /// There is room for the selections and characters that one action adds.
    pub open spec fn has_room(&self, fb: &Filebuffer) -> bool {
        fb.text().len() + 2 * self.sels().len() <= usize::MAX / 8
    }

    /// `action` can be handled in `ctx` on `fb`: selecting next, in character
    /// mode, needs every moved selection's text to occur elsewhere, and
    /// adding a selection past the end of the text needs a view that can be
    /// scrolled to it.
    pub open spec fn can_handle(&self, ctx: &TextbufferContext, fb: &Filebuffer, action: Action) -> bool {
        &&& action == Action::SelectNext && self.selection_mode() == SelectionMode::Character ==> self.can_select_next(
            fb.text())
        &&& action == Action::AddSelection && self.adds_past_end(fb.text()) ==> gap_scroll_fits(ctx, fb,
            fb.text().len() as usize, self.scroll(), self.lines_shown())
    }

    /// Whether `can_handle` holds for adding a selection.
    pub fn add_selection_possible(&self, textbuffer_context: &TextbufferContext, filebuffer: &Filebuffer) -> (r: bool)
        requires
            self.wf(filebuffer),
            textbuffer_context.wf(),
        ensures
            r == self.can_handle(textbuffer_context, filebuffer, Action::AddSelection),
    {
        let last = self.selections.len() - 1;
        if self.mode.is_word() || self.selection_biggest_index(last) + 1 < filebuffer.length() {
            return true;
        }
        self.scroll_fits_at_end(textbuffer_context, filebuffer)
    }

    /// Whether every selection lies inside the text, which makes a loosely
    /// well-formed window well-formed.
    pub fn selections_inside(&self, filebuffer: &Filebuffer) -> (r: bool)
        requires
            self.wf_loose(filebuffer),
        ensures
            r == self.wf(filebuffer),
    {
        let length = filebuffer.length();
        let mut k: usize = 0;
        while k < self.selections.len()
            invariant
                k <= self.sels().len(),
                length == filebuffer.text().len(),
                forall|i: int| 0 <= i < k ==> selection_in(#[trigger] self.sels()[i], length as int),
            decreases self.sels().len() - k,
        {
            let s = self.selections[k];
            if !(s.primary_index < length && s.secondary_index < length && s.offset < usize::MAX) {
                assert(!selection_in(self.sels()[k as int], length as int));
                return false;
            }
            k = k + 1;
        }
        true
    }

    /// What the mode switches do.
    pub open spec fn mode_switched(
        new: &Textbuffer,
        old: &Textbuffer,
        ctx: &TextbufferContext,
        old_fb: &Filebuffer,
        mode: SelectionMode,
        span: Motion,
    ) -> bool {
        &&& new.selection_mode() == mode
        &&& new.same_settings_but_mode(old)
        &&& new.sels() == if old.selection_mode() == mode || mode == SelectionMode::Character {
            old.sels()
        } else {
            moved_by(old.sels(), 0, span, old_fb, ctx.start_at_symbol)
        }
    }

    /// What handling `action` does to the window `old` onto `old_fb`, with
    /// `r` the answer.
    pub open spec fn action_done(new: &Textbuffer, old: &Textbuffer, ctx: &TextbufferContext, fb: &Filebuffer, old_fb: &Filebuffer, action: Action, r: Option<Action>) -> bool {
        &&& (r == reply(action, old.adding(), old.sels().len()))
        &&& (!(action is Undo || action is Redo) && !(action is AddSelection && old.adds_past_end(old_fb.text())) ==> new.wf(fb))
        &&& (action is AddSelection ==> new.wf_loose(fb))
        &&& (leaves_alone(action, old.selection_mode(), old.adding(), old.sels().len()) ==> *new
            == *old && *fb == *old_fb)
        &&& (motion_for(action, old.selection_mode()) matches Some(m) ==> Textbuffer::kept(new, old,
            fb, old_fb) && Textbuffer::moved(new, old, ctx,
            old_fb, m.0, m.1))
        &&& (action is CharacterMode ==> Textbuffer::mode_switched(new, old, ctx,
            old_fb, SelectionMode::Character, Motion::CharLeft))
        &&& (action is WordMode ==> Textbuffer::mode_switched(new, old, ctx, old_fb,
            SelectionMode::Word, Motion::WordSpan))
        &&& (action is LineMode ==> Textbuffer::mode_switched(new, old, ctx, old_fb,
            SelectionMode::Line, Motion::LineSpan))
        &&& (action is Append || action is Insert ==> {
            &&& new.same_settings_but_mode(old)
            &&& new.selection_mode() == SelectionMode::Character
            &&& new.sels() == moved_by(old.sels(), old.first_moved(),
                if action is Append { Motion::Append } else { Motion::Insert }, old_fb,
                ctx.start_at_symbol)
        })
        &&& (action is Remove || action is Delete || action is DeleteLine ==> {
            &&& Textbuffer::changed(new, old, fb, old_fb)
            &&& new.selection_mode() == old.selection_mode()
            &&& Textbuffer::edited_from(new, old, ctx, fb,
                old_fb, (old.sels(), old_fb.text()),
                if action is Remove {
                    erase_edit(old.selection_mode(), true)
                } else if action is Delete {
                    erase_edit(old.selection_mode(), false)
                } else {
                    line_erase_edit(old.selection_mode())
                }, true)
        })
        &&& (action is NewlineUp || action is NewlineDown ==> {
            &&& Textbuffer::changed(new, old, fb, old_fb)
            &&& new.selection_mode() == SelectionMode::Character
            &&& Textbuffer::edited_from(new, old, ctx, fb,
                old_fb, (moved_by(old.sels(), old.first_moved(),
                if action is NewlineUp { Motion::OpenAbove } else { Motion::OpenBelow }, old_fb,
                ctx.start_at_symbol), old_fb.text()),
                if action is NewlineUp { Edit::NewlineAbove } else { Edit::NewlineBelow }, action is NewlineDown)
        })
        &&& (action is DuplicateUp || action is DuplicateDown ==> {
            &&& Textbuffer::kept(new, old, fb, old_fb)
            &&& new.sels() == if old.selection_mode() == SelectionMode::Character {
                duplicated(old.sels(), old_fb.text(), action is DuplicateDown,
                    (old.sels().len() - old.first_moved()) as nat)
            } else {
                old.sels()
            }
        })
        &&& (action is SelectNext ==> {
            &&& Textbuffer::kept(new, old, fb, old_fb)
            &&& new.sels() == if old.selection_mode() == SelectionMode::Character {
                all_next_selected(old.sels(), old_fb.text(), old.first_moved(),
                    old.sels().len() as int)
            } else {
                old.sels()
            }
        })
        &&& (action is AddSelection ==> ({
            let t = old_fb.text();
            let added = selection_after(t, old.sels().last());
            if old.selection_mode() == SelectionMode::Word {
                new.sels() == old.sels() && new.adding() == old.adding()
            } else if old.selection_mode() == SelectionMode::Character {
                new.sels() == old.sels().push(added) && new.adding()
            } else {
                new.sels() == old.sels().push(to_line_end(t, added)) && new.adding()
            }
        }))
        &&& (action is Rotate ==> new.same_settings(old) && Filebuffer::logged_changes(old_fb,
            fb, old.window()) && if old.sels().len() <= 1 {
            new.sels() == old.sels() && fb.text() == old_fb.text()
        } else {
            let r = rotated((old.sels(), old_fb.text(), selected_text(old_fb.text(), old.sels().last())), old.padding_char(),
                old.sels().len() as int);
            new.sels() == r.0 && fb.text() == padded(r.1, old.padding_char())
        })
        &&& (action is Undo ==> fb.text() == undone_text(old_fb.text(), old_fb.actions(),
            fb.history_position(), old_fb.history_position()))
        &&& (action is Redo ==> fb.text() == redone_text(old_fb.text(), old_fb.actions(),
            old_fb.history_position(), fb.history_position()))
        &&& ((action is Undo || action is Redo) && 0 < fb.text().len() <= usize::MAX / 8 ==> new.wf(
            fb) && new.synced() == fb.history_position() && {
            let state = caught_up_state((old.sels(), old.selection_mode()), fb.actions(), old.window(),
                old.synced() as int, fb.history_position() as int);
            &&& new.sels() == kept_inside(state.0, fb.text().len() as int)
            &&& new.selection_mode() == state.1
        })
        &&& (action is CharacterMode || action is WordMode || action is LineMode || action is Append || action is Insert
            || action is AddSelection || action is Abort && old.sels().len() > 1 ==> Filebuffer::logged_selection_changes(
            old_fb, fb, old.window()))
        &&& (action is Abort && old.sels().len() > 1 ==> {
            &&& new.sels() == seq![old.sels()[0]]
            &&& !new.adding()
            &&& new.selection_mode() == old.selection_mode()
            &&& new.scroll() == scroll_after_gaps(ctx, old_fb,
                old.sels()[0].primary_index, old.scroll(), old.lines_shown())
        })
        &&& (action is Confirm && old.adding() ==> *fb == *old_fb && !new.adding()
            && new.sels() == old.sels() && new.selection_mode() == old.selection_mode()
            && new.scroll() == old.scroll())
    }

    /// Handles `action`, and answers what is left for others to handle.
    pub fn handle_action(&mut self, textbuffer_context: &TextbufferContext, filebuffer: &mut Filebuffer, action: Action) -> (r: Option<Action>)
        requires
            old(self).wf(old(filebuffer)),
            textbuffer_context.wf(),
            old(self).has_room(old(filebuffer)),
            old(self).can_handle(textbuffer_context, old(filebuffer), action),
        ensures
            Textbuffer::action_done(final(self), old(self), textbuffer_context, final(filebuffer), old(filebuffer), action, r),
    {
        match action {
            Action::CharacterMode => {
                self.character_mode(filebuffer);
                None
            },
            Action::WordMode => {
                self.word_mode(textbuffer_context, filebuffer);
                None
            },
            Action::LineMode => {
                self.line_mode(textbuffer_context, filebuffer);
                None
            },
            Action::Down => {
                self.move_down(textbuffer_context, filebuffer);
                None
            },
            Action::Up => {
                self.move_up(textbuffer_context, filebuffer);
                None
            },
            Action::Left => {
                self.move_left(textbuffer_context, filebuffer);
                None
            },
            Action::Right => {
                self.move_right(textbuffer_context, filebuffer);
                None
            },
            Action::ExtendDown => {
                self.extend_down(textbuffer_context, filebuffer);
                None
            },
            Action::ExtendUp => {
                self.extend_up(textbuffer_context, filebuffer);
                None
            },
            Action::ExtendLeft => {
                self.extend_left(textbuffer_context, filebuffer);
                None
            },
            Action::ExtendRight => {
                self.extend_right(textbuffer_context, filebuffer);
                None
            },
            Action::Start => {
                self.move_to_start(textbuffer_context, filebuffer);
                None
            },
            Action::End => {
                self.move_to_end(textbuffer_context, filebuffer);
                None
            },
            Action::ExtendStart => {
                self.extend_start(textbuffer_context, filebuffer);
                None
            },
            Action::ExtendEnd => {
                self.extend_end(textbuffer_context, filebuffer);
                None
            },
            Action::DuplicateUp => {
                self.duplicate_up(textbuffer_context, filebuffer);
                None
            },
            Action::DuplicateDown => {
                self.duplicate_down(textbuffer_context, filebuffer);
                None
            },
            Action::Append => {
                self.append(textbuffer_context, filebuffer);
                None
            },
            Action::Insert => {
                self.insert(textbuffer_context, filebuffer);
                None
            },
            Action::NewlineUp => {
                self.newline_up(textbuffer_context, filebuffer);
                None
            },
            Action::NewlineDown => {
                self.newline_down(textbuffer_context, filebuffer);
                None
            },
            Action::AddSelection => {
                self.add_selection(textbuffer_context, filebuffer);
                None
            },
            Action::SelectNext => {
                self.select_next(textbuffer_context, filebuffer);
                None
            },
            Action::Remove => {
                self.remove(textbuffer_context, filebuffer);
                None
            },
            Action::Delete => {
                self.delete(textbuffer_context, filebuffer);
                None
            },
            Action::DeleteLine => {
                self.delete_line(textbuffer_context, filebuffer);
                None
            },
            Action::Rotate => {
                self.rotate_selections(filebuffer);
                None
            },
            Action::Undo => {
                self.undo(textbuffer_context, filebuffer);
                None
            },
            Action::Redo => {
                self.redo(textbuffer_context, filebuffer);
                None
            },
            Action::Abort => {
                if self.selections.len() > 1 {
                    self.drop_selections(filebuffer, textbuffer_context);
                    return None;
                }
                Some(Action::Abort)
            },
            Action::Confirm => {
                if self.adding_selection {
                    self.adding_selection = false;
                    return None;
                }
                Some(Action::Confirm)
            },
            unhandled => Some(unhandled),
        }
    }
}

} // verus!
