use vstd::prelude::*;

use crate::filebuffer::{ActionModel, Filebuffer};
use crate::selection::{Selection, SelectionMode};

pub mod geometry;
pub mod scroll;
pub mod motion;
pub mod steps;
pub mod moves;
pub mod modes;
pub mod edit;
pub mod editing;
pub mod changes;
pub mod selections;
pub mod search;
pub mod replay;
pub mod info;
pub mod handle;
pub mod laws;

verus! {

/// The selections, mode and scroll position of one window onto a file buffer.
pub struct Textbuffer {
    selections: Vec<Selection>,
    mode: SelectionMode,
    adding_selection: bool,
    padding: char,
    vertical_scroll: usize,
    horizontal_scroll: usize,
    history_index: usize,
    line_count: usize,
    window_id: usize,
}

/// Whether a selection lies inside a text of `length` characters.
pub open spec fn selection_in(s: Selection, length: int) -> bool {
    s.primary_index < length && s.secondary_index < length && s.offset < usize::MAX
}

impl Textbuffer {
    pub closed spec fn sels(&self) -> Seq<Selection> {
        self.selections@
    }

    pub closed spec fn selection_mode(&self) -> SelectionMode {
        self.mode
    }

    /// A selection is being added: only the last one moves.
    pub closed spec fn adding(&self) -> bool {
        self.adding_selection
    }

    /// The character the text is kept ending with.
    pub closed spec fn padding_char(&self) -> char {
        self.padding
    }

    /// The first line shown.
    pub closed spec fn scroll(&self) -> usize {
        self.vertical_scroll
    }

    pub closed spec fn horizontal(&self) -> usize {
        self.horizontal_scroll
    }

    /// The position in the file buffer's history that the selections reflect.
    pub closed spec fn synced(&self) -> usize {
        self.history_index
    }

    /// How many lines the window shows.
    pub closed spec fn lines_shown(&self) -> usize {
        self.line_count
    }

    pub closed spec fn window(&self) -> usize {
        self.window_id
    }

    /// Every selection lies inside a text of `length` characters.
    pub open spec fn all_in(&self, length: int) -> bool {
        forall|i: int| 0 <= i < self.sels().len() ==> selection_in(#[trigger] self.sels()[i], length)
    }

    /// The window is in a usable state for `fb`: it has a selection, the text
    /// is not empty, every selection lies inside it, and the numbers are small
    /// enough for the arithmetic done on them.
    pub open spec fn wf(&self, fb: &Filebuffer) -> bool {
        &&& fb.wf()
        &&& 0 < fb.text().len() <= usize::MAX / 8
        &&& 0 < self.sels().len() <= usize::MAX / 8
        &&& self.all_in(fb.text().len() as int)
        &&& self.scroll() <= usize::MAX / 8
        &&& self.lines_shown() <= usize::MAX / 8
    }

    /// The numbers are small enough for the arithmetic done on them, the text is
    /// not empty and there is a selection; the selections may lie outside the text.
    pub open spec fn wf_loose(&self, fb: &Filebuffer) -> bool {
        &&& fb.wf()
        &&& 0 < fb.text().len() <= usize::MAX / 8
        &&& 0 < self.sels().len() <= usize::MAX / 8
        &&& self.scroll() <= usize::MAX / 8
        &&& self.lines_shown() <= usize::MAX / 8
    }

    /// Everything but the selections and the synced history position is as in `other`.
    pub open spec fn same_settings(&self, other: &Textbuffer) -> bool {
        &&& self.selection_mode() == other.selection_mode()
        &&& self.adding() == other.adding()
        &&& self.padding_char() == other.padding_char()
        &&& self.scroll() == other.scroll()
        &&& self.horizontal() == other.horizontal()
        &&& self.lines_shown() == other.lines_shown()
        &&& self.window() == other.window()
    }

    /// A new window onto a buffer, with one selection at the start of the text.
    pub fn new(window_id: usize, padding: char) -> (r: Self)
        ensures
            r.sels() == seq![Selection { primary_index: 0, secondary_index: 0, offset: 0 }],
            r.selection_mode() == SelectionMode::Character,
            !r.adding(),
            r.padding_char() == padding,
            r.scroll() == 0,
            r.horizontal() == 0,
            r.synced() == 0,
            r.lines_shown() == 1,
            r.window() == window_id,
    {
        let mut selections = Vec::new();
        selections.push(Selection::new(0, 0, 0));
        let r = Self {
            selections,
            mode: SelectionMode::Character,
            adding_selection: false,
            padding,
            vertical_scroll: 0,
            horizontal_scroll: 0,
            history_index: 0,
            line_count: 1,
            window_id,
        };
        assert(r.sels() =~= seq![Selection { primary_index: 0, secondary_index: 0, offset: 0 }]);
        r
    }

    /// A copy of the selections.
    pub fn get_selections(&self) -> (r: Vec<Selection>)
        ensures
            r@ == self.sels(),
    {
        let mut r: Vec<Selection> = Vec::new();
        let mut i: usize = 0;
        while i < self.selections.len()
            invariant
                i <= self.selections@.len(),
                r@ == self.selections@.take(i as int),
            decreases self.selections.len() - i,
        {
            r.push(self.selections[i]);
            i = i + 1;
            assert(r@ =~= self.selections@.take(i as int));
        }
        assert(self.selections@.take(self.selections@.len() as int) =~= self.selections@);
        r
    }

    pub fn get_mode(&self) -> (r: SelectionMode)
        ensures
            r == self.selection_mode(),
    {
        self.mode
    }

    pub fn is_adding_selection(&self) -> (r: bool)
        ensures
            r == self.adding(),
    {
        self.adding_selection
    }

    pub fn get_vertical_scroll(&self) -> (r: usize)
        ensures
            r == self.scroll(),
    {
        self.vertical_scroll
    }

    pub fn get_line_count(&self) -> (r: usize)
        ensures
            r == self.lines_shown(),
    {
        self.line_count
    }

    // Changes of one selection, each recorded in the buffer's history.

    fn set_primary_index(&mut self, filebuffer: &mut Filebuffer, index: usize, new_primary: usize)
        requires
            index < old(self).sels().len(),
            old(filebuffer).wf(),
        ensures
            final(self).sels() == old(self).sels().update(index as int, old(self).sels()[index as int].with_primary(new_primary)),
            final(self).same_settings(old(self)),
            Filebuffer::logged_selection_changes(old(filebuffer), final(filebuffer), old(self).window()),
            old(self).sels()[index as int].primary_index == new_primary ==> *final(filebuffer) == *old(filebuffer)
                && final(self).synced() == old(self).synced(),
            old(self).sels()[index as int].primary_index != new_primary ==> Filebuffer::recorded(
                old(filebuffer),
                final(filebuffer),
                ActionModel::ChangePrimaryIndex(old(self).window(), index, old(self).sels()[index as int].primary_index, new_primary),
                old(filebuffer).text(),
            ) && final(self).synced() == final(filebuffer).history_position(),
    {
        let mut selection = self.selections[index];
        let previous = selection.primary_index;
        if previous != new_primary {
            selection.primary_index = new_primary;
            self.selections.set(index, selection);
            self.history_index = filebuffer.change_primary_index(self.window_id, index, previous, new_primary, true);
            proof {
                Filebuffer::lemma_logged_record(old(filebuffer), filebuffer,
                    ActionModel::ChangePrimaryIndex(self.window_id, index, previous, new_primary), self.window_id);
            }
        } else {
            assert(self.sels() =~= old(self).sels().update(index as int, old(self).sels()[index as int].with_primary(new_primary)));
            proof {
                Filebuffer::lemma_logged_refl(filebuffer, self.window_id);
            }
        }
    }

    fn set_secondary_index(&mut self, filebuffer: &mut Filebuffer, index: usize, new_secondary: usize)
        requires
            index < old(self).sels().len(),
            old(filebuffer).wf(),
        ensures
            final(self).sels() == old(self).sels().update(index as int, old(self).sels()[index as int].with_secondary(new_secondary)),
            final(self).same_settings(old(self)),
            Filebuffer::logged_selection_changes(old(filebuffer), final(filebuffer), old(self).window()),
            old(self).sels()[index as int].secondary_index == new_secondary ==> *final(filebuffer) == *old(filebuffer)
                && final(self).synced() == old(self).synced(),
            old(self).sels()[index as int].secondary_index != new_secondary ==> Filebuffer::recorded(
                old(filebuffer),
                final(filebuffer),
                ActionModel::ChangeSecondaryIndex(old(self).window(), index, old(self).sels()[index as int].secondary_index, new_secondary),
                old(filebuffer).text(),
            ) && final(self).synced() == final(filebuffer).history_position(),
    {
        let mut selection = self.selections[index];
        let previous = selection.secondary_index;
        if previous != new_secondary {
            selection.secondary_index = new_secondary;
            self.selections.set(index, selection);
            self.history_index = filebuffer.change_secondary_index(self.window_id, index, previous, new_secondary, true);
            proof {
                Filebuffer::lemma_logged_record(old(filebuffer), filebuffer,
                    ActionModel::ChangeSecondaryIndex(self.window_id, index, previous, new_secondary), self.window_id);
            }
        } else {
            assert(self.sels() =~= old(self).sels().update(index as int, old(self).sels()[index as int].with_secondary(new_secondary)));
            proof {
                Filebuffer::lemma_logged_refl(filebuffer, self.window_id);
            }
        }
    }

    /// Sets the offset of a selection to `new_offset`. The change is recorded,
    /// but the synced position is left as it was, so that catching up with the
    /// history later replays it.
    fn store_offset(&mut self, filebuffer: &mut Filebuffer, index: usize, new_offset: usize)
        requires
            index < old(self).sels().len(),
            old(filebuffer).wf(),
        ensures
            final(self).sels() == old(self).sels().update(index as int, old(self).sels()[index as int].with_offset(new_offset)),
            final(self).same_settings(old(self)),
            final(self).synced() == old(self).synced(),
            Filebuffer::logged_selection_changes(old(filebuffer), final(filebuffer), old(self).window()),
            old(self).sels()[index as int].offset == new_offset ==> *final(filebuffer) == *old(filebuffer),
            old(self).sels()[index as int].offset != new_offset ==> Filebuffer::recorded(
                old(filebuffer),
                final(filebuffer),
                ActionModel::ChangeOffset(old(self).window(), index, old(self).sels()[index as int].offset, new_offset),
                old(filebuffer).text(),
            ),
    {
        let mut selection = self.selections[index];
        let previous = selection.offset;
        if previous != new_offset {
            selection.offset = new_offset;
            self.selections.set(index, selection);
            filebuffer.change_offset(self.window_id, index, previous, new_offset, true);
            proof {
                Filebuffer::lemma_logged_record(old(filebuffer), filebuffer,
                    ActionModel::ChangeOffset(self.window_id, index, previous, new_offset), self.window_id);
            }
        } else {
            assert(self.sels() =~= old(self).sels().update(index as int, old(self).sels()[index as int].with_offset(new_offset)));
            proof {
                Filebuffer::lemma_logged_refl(filebuffer, self.window_id);
            }
        }
    }

    /// Adds a selection at the end and records it.
    fn add_selection_(&mut self, filebuffer: &mut Filebuffer, selection: Selection)
        requires
            old(filebuffer).wf(),
        ensures
            final(self).sels() == old(self).sels().push(selection),
            final(self).same_settings(old(self)),
            Filebuffer::recorded(
                old(filebuffer),
                final(filebuffer),
                ActionModel::AddSelection(old(self).window(), old(self).sels().len() as usize, selection.primary_index,
                    selection.secondary_index, selection.offset),
                old(filebuffer).text(),
            ),
            Filebuffer::logged_selection_changes(old(filebuffer), final(filebuffer), old(self).window()),
            final(self).synced() == final(filebuffer).history_position(),
    {
        let index = self.selections.len();
        self.history_index = filebuffer.add_selection(self.window_id, index, selection.primary_index,
            selection.secondary_index, selection.offset, false);
        self.selections.push(selection);
        proof {
            Filebuffer::lemma_logged_record(old(filebuffer), filebuffer,
                ActionModel::AddSelection(self.window_id, index, selection.primary_index, selection.secondary_index,
                    selection.offset), self.window_id);
        }
    }

    /// Removes the selection at `index` and records it.
    fn remove_selection(&mut self, filebuffer: &mut Filebuffer, index: usize)
        requires
            index < old(self).sels().len(),
            old(filebuffer).wf(),
        ensures
            final(self).sels() == old(self).sels().remove(index as int),
            final(self).same_settings(old(self)),
            Filebuffer::recorded(
                old(filebuffer),
                final(filebuffer),
                ActionModel::RemoveSelection(old(self).window(), index, old(self).sels()[index as int].primary_index,
                    old(self).sels()[index as int].secondary_index, old(self).sels()[index as int].offset),
                old(filebuffer).text(),
            ),
            Filebuffer::logged_selection_changes(old(filebuffer), final(filebuffer), old(self).window()),
            final(self).synced() == final(filebuffer).history_position(),
    {
        let selection = self.selections[index];
        self.history_index = filebuffer.remove_selection(self.window_id, index, selection.primary_index,
            selection.secondary_index, selection.offset, false);
        self.selections.remove(index);
        proof {
            Filebuffer::lemma_logged_record(old(filebuffer), filebuffer,
                ActionModel::RemoveSelection(self.window_id, index, selection.primary_index, selection.secondary_index,
                    selection.offset), self.window_id);
        }
    }

    /// Switches to `mode` and records it.
    fn set_selection_mode(&mut self, filebuffer: &mut Filebuffer, mode: SelectionMode)
        requires
            old(filebuffer).wf(),
        ensures
            final(self).sels() == old(self).sels(),
            final(self).selection_mode() == mode,
            final(self).adding() == old(self).adding(),
            final(self).padding_char() == old(self).padding_char(),
            final(self).scroll() == old(self).scroll(),
            final(self).horizontal() == old(self).horizontal(),
            final(self).lines_shown() == old(self).lines_shown(),
            final(self).window() == old(self).window(),
            Filebuffer::recorded(
                old(filebuffer),
                final(filebuffer),
                ActionModel::ChangeSelectionMode(old(self).window(), old(self).selection_mode(), mode),
                old(filebuffer).text(),
            ),
            Filebuffer::logged_selection_changes(old(filebuffer), final(filebuffer), old(self).window()),
            final(self).synced() == final(filebuffer).history_position(),
    {
        self.history_index = filebuffer.change_selection_mode(self.window_id, self.mode, mode, true);
        proof {
            Filebuffer::lemma_logged_record(old(filebuffer), filebuffer,
                ActionModel::ChangeSelectionMode(self.window_id, self.mode, mode), self.window_id);
        }
        self.mode = mode;
    }
}

} // verus!
