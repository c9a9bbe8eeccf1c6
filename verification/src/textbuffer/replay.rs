use vstd::prelude::*;

use super::scroll::scroll_after_gaps;
use super::{selection_in, Textbuffer};
use crate::context::TextbufferContext;
use crate::filebuffer::action::lemma_invert_keeps_kind;
use crate::filebuffer::{redone_text, undone_text, ActionModel, BufferAction, Filebuffer};
use crate::selection::{Selection, SelectionMode};

verus! {

/// Selections and selection mode.
pub type ReplayState = (Seq<Selection>, SelectionMode);

/// The action on the selections names a selection that exists (or, for an
/// addition, a place where one can be put).
pub open spec fn replayable(sels: Seq<Selection>, action: ActionModel) -> bool {
    match action {
        ActionModel::AddSelection(_, i, _, _, _) => i <= sels.len() && sels.len() < usize::MAX / 8,
        ActionModel::RemoveSelection(_, i, _, _, _) => i < sels.len(),
        ActionModel::ChangePrimaryIndex(_, i, _, _) => i < sels.len(),
        ActionModel::ChangeSecondaryIndex(_, i, _, _) => i < sels.len(),
        ActionModel::ChangeOffset(_, i, _, _) => i < sels.len(),
        ActionModel::ChangeSelectionMode(_, _, _) => true,
        _ => false,
    }
}

/// What an action on the selections does to them.
pub open spec fn replayed(state: ReplayState, action: ActionModel) -> ReplayState {
    let sels = state.0;
    match action {
        ActionModel::AddSelection(_, i, p, s, o) => (
            sels.insert(i as int, Selection { primary_index: p, secondary_index: s, offset: o }),
            state.1,
        ),
        ActionModel::RemoveSelection(_, i, _, _, _) => (sels.remove(i as int), state.1),
        ActionModel::ChangePrimaryIndex(_, i, _, new) => (sels.update(i as int, sels[i as int].with_primary(new)), state.1),
        ActionModel::ChangeSecondaryIndex(_, i, _, new) => (sels.update(i as int, sels[i as int].with_secondary(new)), state.1),
        ActionModel::ChangeOffset(_, i, _, new) => (sels.update(i as int, sels[i as int].with_offset(new)), state.1),
        ActionModel::ChangeSelectionMode(_, _, new) => (sels, new),
        _ => state,
    }
}

/// A position after `length` characters were taken out at `index`: a position
/// from `index` on moves back by `length`, not below the start of the text.
pub open spec fn position_after_removal(position: usize, index: usize, length: nat) -> usize {
    if position >= index {
        if position >= length {
            (position - length) as usize
        } else {
            0
        }
    } else {
        position
    }
}

/// A position after `length` characters were put in at `index`: a position
/// from `index` on moves forward by `length`, not past the largest number.
pub open spec fn position_after_insertion(position: usize, index: usize, length: nat) -> usize {
    if position >= index {
        if position + length <= usize::MAX {
            (position + length) as usize
        } else {
            usize::MAX
        }
    } else {
        position
    }
}

/// The selections after another window changed the text.
pub open spec fn adjusted(sels: Seq<Selection>, action: ActionModel) -> Seq<Selection> {
    match action {
        ActionModel::RemoveText(_, text, index) => Seq::new(sels.len(), |j: int| Selection {
            primary_index: position_after_removal(sels[j].primary_index, index, text.len()),
            secondary_index: position_after_removal(sels[j].secondary_index, index, text.len()),
            offset: sels[j].offset,
        }),
        ActionModel::InsertText(_, text, index) => Seq::new(sels.len(), |j: int| Selection {
            primary_index: position_after_insertion(sels[j].primary_index, index, text.len()),
            secondary_index: position_after_insertion(sels[j].secondary_index, index, text.len()),
            offset: sels[j].offset,
        }),
        _ => sels,
    }
}

/// What catching up with one action of the history does to the selections of
/// `window`: its own actions on selections are replayed, where they fit, and
/// the text changes of other windows move the selections.
pub open spec fn caught_up(state: ReplayState, action: ActionModel, window: usize) -> ReplayState {
    if !action.changes_text() && action.window() == window {
        if replayable(state.0, action) {
            replayed(state, action)
        } else {
            state
        }
    } else if action.changes_text() && action.window() != window {
        (adjusted(state.0, action), state.1)
    } else {
        state
    }
}

/// Catching up backwards through the actions `low .. high`, undoing each,
/// the last one first; positions past the end of the history are passed over.
pub open spec fn caught_up_back(state: ReplayState, actions: Seq<ActionModel>, window: usize, low: int, high: int) -> ReplayState
    decreases high - low,
{
    if high <= low {
        state
    } else if low < actions.len() {
        caught_up(caught_up_back(state, actions, window, low + 1, high), actions[low].inverted(), window)
    } else {
        caught_up_back(state, actions, window, low + 1, high)
    }
}

/// Catching up forwards through the actions `low .. high`, the first one first.
pub open spec fn caught_up_forward(state: ReplayState, actions: Seq<ActionModel>, window: usize, low: int, high: int) -> ReplayState
    decreases high - low,
{
    if high <= low {
        state
    } else {
        caught_up(caught_up_forward(state, actions, window, low, high - 1), actions[high - 1], window)
    }
}

/// Where catching up brings the selections and the mode `init` of `window`,
/// last in step at `synced`, with the history `actions` now at `position`:
/// backwards where the history went back, forwards otherwise.
pub open spec fn caught_up_state(init: ReplayState, actions: Seq<ActionModel>, window: usize, synced: int, position: int) -> ReplayState {
    if synced > position {
        caught_up_back(init, actions, window, position, synced)
    } else {
        caught_up_forward(init, actions, window, synced, position)
    }
}

/// The selections brought inside a text of `length` characters: each end past
/// it goes back to its last character, an offset too large for the
/// arithmetic on columns is lowered, and with no selection left there is one
/// at the start.
pub open spec fn kept_inside(sels: Seq<Selection>, length: int) -> Seq<Selection> {
    if sels.len() == 0 {
        seq![Selection { primary_index: 0, secondary_index: 0, offset: 0 }]
    } else {
        Seq::new(sels.len(), |j: int| Selection {
            primary_index: if sels[j].primary_index < length { sels[j].primary_index } else { (length - 1) as usize },
            secondary_index: if sels[j].secondary_index < length { sels[j].secondary_index } else { (length - 1) as usize },
            offset: if sels[j].offset < usize::MAX { sels[j].offset } else { (usize::MAX - 1) as usize },
        })
    }
}

impl Textbuffer {
    /// Replays an action of this window on its selections.
    fn do_buffer_action(&mut self, action: BufferAction)
        requires
            replayable(old(self).sels(), action@),
            old(self).sels().len() <= usize::MAX / 8,
        ensures
            (final(self).sels(), final(self).selection_mode()) == replayed((old(self).sels(), old(self).selection_mode()), action@),
            final(self).adding() == old(self).adding(),
            final(self).padding_char() == old(self).padding_char(),
            final(self).scroll() == old(self).scroll(),
            final(self).horizontal() == old(self).horizontal(),
            final(self).lines_shown() == old(self).lines_shown(),
            final(self).window() == old(self).window(),
            final(self).synced() == old(self).synced(),
    {
        match action {
            BufferAction::AddSelection(_window_id, index, primary_index, secondary_index, offset) => {
                let selection = Selection::new(primary_index, secondary_index, offset);
                if index == self.selections.len() {
                    self.selections.push(selection);
                    assert(self.sels() =~= old(self).sels().insert(index as int, selection));
                } else {
                    self.selections.insert(index, selection);
                }
            },
            BufferAction::RemoveSelection(_window_id, index, ..) => {
                self.selections.remove(index);
            },
            BufferAction::ChangePrimaryIndex(_window_id, index, _previous, new) => {
                let mut selection = self.selections[index];
                selection.primary_index = new;
                self.selections.set(index, selection);
            },
            BufferAction::ChangeSecondaryIndex(_window_id, index, _previous, new) => {
                let mut selection = self.selections[index];
                selection.secondary_index = new;
                self.selections.set(index, selection);
            },
            BufferAction::ChangeOffset(_window_id, index, _previous, new) => {
                let mut selection = self.selections[index];
                selection.offset = new;
                self.selections.set(index, selection);
            },
            BufferAction::ChangeSelectionMode(_window_id, _previous, new) => {
                self.mode = new;
            },
            _ => {},
        }
    }

    /// Moves the selections after another window changed the text.
    fn adjust_selections(&mut self, action: &BufferAction)
        ensures
            final(self).sels() == adjusted(old(self).sels(), action@),
            final(self).selection_mode() == old(self).selection_mode(),
            final(self).adding() == old(self).adding(),
            final(self).padding_char() == old(self).padding_char(),
            final(self).scroll() == old(self).scroll(),
            final(self).horizontal() == old(self).horizontal(),
            final(self).lines_shown() == old(self).lines_shown(),
            final(self).window() == old(self).window(),
            final(self).synced() == old(self).synced(),
    {
        let (removing, length, at) = match action {
            BufferAction::RemoveText(_window_id, text, index) => (true, text.len(), *index),
            BufferAction::InsertText(_window_id, text, index) => (false, text.len(), *index),
            _ => {
                return;
            },
        };
        let mut k: usize = 0;
        while k < self.selections.len()
            invariant
                k <= self.sels().len(),
                self.sels().len() == old(self).sels().len(),
                self.selection_mode() == old(self).selection_mode(),
                self.adding() == old(self).adding(),
                self.padding_char() == old(self).padding_char(),
                self.scroll() == old(self).scroll(),
                self.horizontal() == old(self).horizontal(),
                self.lines_shown() == old(self).lines_shown(),
                self.window() == old(self).window(),
                self.synced() == old(self).synced(),
                action@ is RemoveText || action@ is InsertText,
                removing == action@ is RemoveText,
                action@ matches ActionModel::RemoveText(_, t, i) ==> t.len() == length && i == at,
                action@ matches ActionModel::InsertText(_, t, i) ==> t.len() == length && i == at,
                forall|j: int| 0 <= j < k ==> #[trigger] self.sels()[j] == adjusted(old(self).sels(), action@)[j],
                forall|j: int| k <= j < self.sels().len() ==> #[trigger] self.sels()[j] == old(self).sels()[j],
            decreases self.sels().len() - k,
        {
            let mut selection = self.selections[k];
            if removing {
                if selection.primary_index >= at {
                    selection.primary_index = selection.primary_index.saturating_sub(length);
                }
                if selection.secondary_index >= at {
                    selection.secondary_index = selection.secondary_index.saturating_sub(length);
                }
            } else {
                if selection.primary_index >= at {
                    selection.primary_index = selection.primary_index.saturating_add(length);
                }
                if selection.secondary_index >= at {
                    selection.secondary_index = selection.secondary_index.saturating_add(length);
                }
            }
            self.selections.set(k, selection);
            k = k + 1;
        }
        assert(self.sels() =~= adjusted(old(self).sels(), action@));
    }
}

impl Textbuffer {
    /// Brings every selection inside the text, as `kept_inside` says.
    fn keep_inside(&mut self, filebuffer: &Filebuffer)
        requires
            filebuffer.text().len() > 0,
        ensures
            final(self).sels() == kept_inside(old(self).sels(), filebuffer.text().len() as int),
            final(self).selection_mode() == old(self).selection_mode(),
            final(self).adding() == old(self).adding(),
            final(self).padding_char() == old(self).padding_char(),
            final(self).scroll() == old(self).scroll(),
            final(self).horizontal() == old(self).horizontal(),
            final(self).lines_shown() == old(self).lines_shown(),
            final(self).window() == old(self).window(),
            final(self).synced() == old(self).synced(),
    {
        if self.selections.len() == 0 {
            self.selections.push(Selection::new(0, 0, 0));
            assert(self.sels() =~= kept_inside(old(self).sels(), filebuffer.text().len() as int));
            return;
        }
        let last = filebuffer.last_buffer_index();
        let ghost length = filebuffer.text().len() as int;
        let mut k: usize = 0;
        while k < self.selections.len()
            invariant
                k <= self.sels().len(),
                self.sels().len() == old(self).sels().len(),
                old(self).sels().len() > 0,
                last == length - 1,
                length == filebuffer.text().len(),
                self.selection_mode() == old(self).selection_mode(),
                self.adding() == old(self).adding(),
                self.padding_char() == old(self).padding_char(),
                self.scroll() == old(self).scroll(),
                self.horizontal() == old(self).horizontal(),
                self.lines_shown() == old(self).lines_shown(),
                self.window() == old(self).window(),
                self.synced() == old(self).synced(),
                forall|j: int| 0 <= j < k ==> #[trigger] self.sels()[j] == kept_inside(old(self).sels(), length)[j],
                forall|j: int| k <= j < self.sels().len() ==> #[trigger] self.sels()[j] == old(self).sels()[j],
            decreases self.sels().len() - k,
        {
            let mut selection = self.selections[k];
            if selection.primary_index > last {
                selection.primary_index = last;
            }
            if selection.secondary_index > last {
                selection.secondary_index = last;
            }
            if selection.offset == usize::MAX {
                selection.offset = usize::MAX - 1;
            }
            self.selections.set(k, selection);
            k = k + 1;
        }
        assert(self.sels() =~= kept_inside(old(self).sels(), length));
    }

    /// Replays what happened in the buffer's history since the selections
    /// were last in step with it, backwards after an undo, forwards otherwise.
    /// Returns whether the history had moved; then the selections are brought
    /// inside the text and the view is scrolled to the last cursor. Where it
    /// had not moved, nothing changes.
    pub fn history_catch_up(&mut self, textbuffer_context: &TextbufferContext, filebuffer: &mut Filebuffer) -> (r: bool)
        requires
            old(self).wf_loose(old(filebuffer)),
            textbuffer_context.wf(),
        ensures
            final(filebuffer).text() == old(filebuffer).text(),
            final(filebuffer).tokens() == old(filebuffer).tokens(),
            final(filebuffer).actions() == old(filebuffer).actions(),
            final(filebuffer).combined() == old(filebuffer).combined(),
            final(filebuffer).history_position() == old(filebuffer).history_position(),
            final(filebuffer).wf(),
            r ==> final(self).wf(final(filebuffer)),
            final(self).wf_loose(final(filebuffer)),
            final(self).synced() == final(filebuffer).history_position(),
            r == (old(self).synced() != final(filebuffer).history_position()),
            !r ==> final(self).sels() == old(self).sels() && final(self).selection_mode() == old(self).selection_mode(),
            ({
                let init = (old(self).sels(), old(self).selection_mode());
                let state = caught_up_state(init, final(filebuffer).actions(), old(self).window(), old(self).synced() as int,
                    final(filebuffer).history_position() as int);
                &&& r ==> final(self).sels() == kept_inside(state.0, final(filebuffer).text().len() as int)
                &&& final(self).selection_mode() == state.1
            }),
            final(self).scroll() == if r {
                scroll_after_gaps(textbuffer_context, final(filebuffer), final(self).sels().last().primary_index, old(self).scroll(),
                    old(self).lines_shown())
            } else {
                old(self).scroll() as int
            },
            final(self).adding() == old(self).adding(),
            final(self).padding_char() == old(self).padding_char(),
            final(self).horizontal() == old(self).horizontal(),
            final(self).lines_shown() == old(self).lines_shown(),
            final(self).window() == old(self).window(),
    {
        let ghost init = (old(self).sels(), old(self).selection_mode());
        let ghost actions = filebuffer.actions();
        let ghost window = self.window();
        let ghost fb0 = *filebuffer;
        let history_length = filebuffer.history_length();
        let history_index = filebuffer.get_history_index();
        let force_rerender = self.history_index != history_index;
        proof {
            filebuffer.lemma_position();
        }
        let window_id = self.window_id;
        while self.history_index > history_index
            invariant
                history_index == filebuffer.history_position(),
                history_length == actions.len(),
                actions == filebuffer.actions(),
                window == old(self).window(),
                window_id == window,
                self.synced() <= old(self).synced(),
                old(self).synced() > history_index ==> history_index <= self.synced(),
                self.sels().len() <= usize::MAX / 8,
                old(self).synced() > history_index ==> (self.sels(), self.selection_mode()) == caught_up_back(init, actions,
                    window, self.synced() as int, old(self).synced() as int),
                old(self).synced() <= history_index ==> self.synced() == old(self).synced() && (self.sels(), self.selection_mode()) == init,
                init == (old(self).sels(), old(self).selection_mode()),
                self.adding() == old(self).adding(),
                self.padding_char() == old(self).padding_char(),
                self.scroll() == old(self).scroll(),
                self.horizontal() == old(self).horizontal(),
                self.lines_shown() == old(self).lines_shown(),
                self.window() == old(self).window(),
            decreases self.synced(),
        {
            self.history_index = self.history_index - 1;
            if self.history_index < history_length {
                let action = filebuffer.get_action(self.history_index).invert();
                proof {
                    lemma_invert_keeps_kind(actions[self.synced() as int]);
                }
                if action.is_selection(window_id) {
                    if self.replayable(&action) {
                        self.do_buffer_action(action);
                    }
                } else if action.is_other_text(window_id) {
                    self.adjust_selections(&action);
                }
            }
        }
        while self.history_index < history_index
            invariant
                history_index == filebuffer.history_position() <= actions.len(),
                actions == filebuffer.actions(),
                window == old(self).window(),
                window_id == window,
                self.synced() <= history_index,
                self.sels().len() <= usize::MAX / 8,
                old(self).synced() > history_index ==> self.synced() == history_index && (self.sels(), self.selection_mode())
                    == caught_up_back(init, actions, window, history_index as int, old(self).synced() as int),
                old(self).synced() <= history_index ==> old(self).synced() <= self.synced() && (self.sels(), self.selection_mode())
                    == caught_up_forward(init, actions, window, old(self).synced() as int, self.synced() as int),
                init == (old(self).sels(), old(self).selection_mode()),
                self.adding() == old(self).adding(),
                self.padding_char() == old(self).padding_char(),
                self.scroll() == old(self).scroll(),
                self.horizontal() == old(self).horizontal(),
                self.lines_shown() == old(self).lines_shown(),
                self.window() == old(self).window(),
            decreases history_index - self.synced(),
        {
            let action = filebuffer.get_action(self.history_index);
            self.history_index = self.history_index + 1;
            if action.is_selection(window_id) {
                if self.replayable(&action) {
                    self.do_buffer_action(action);
                }
            } else if action.is_other_text(window_id) {
                self.adjust_selections(&action);
            }
        }
        if force_rerender {
            self.keep_inside(filebuffer);
            proof {
                assert forall|i: int| 0 <= i < self.sels().len() implies selection_in(#[trigger] self.sels()[i],
                    filebuffer.text().len() as int) by {}
            }
            self.check_selection_gaps(textbuffer_context, filebuffer);
        }
        force_rerender
    }

    /// Whether `action` names a selection that exists, or a place where one
    /// can be put.
    fn replayable(&self, action: &BufferAction) -> (r: bool)
        ensures
            r == replayable(self.sels(), action@),
    {
        match action {
            BufferAction::AddSelection(_, index, ..) => *index <= self.selections.len() && self.selections.len() < usize::MAX / 8,
            BufferAction::RemoveSelection(_, index, ..) => *index < self.selections.len(),
            BufferAction::ChangePrimaryIndex(_, index, ..) => *index < self.selections.len(),
            BufferAction::ChangeSecondaryIndex(_, index, ..) => *index < self.selections.len(),
            BufferAction::ChangeOffset(_, index, ..) => *index < self.selections.len(),
            BufferAction::ChangeSelectionMode(..) => true,
            _ => false,
        }
    }
}

impl Textbuffer {
    /// Undoes the last step of the buffer's history and catches the
    /// selections up with it. Where the text left is empty, or too long for
    /// the arithmetic on positions, the selections are left as they were.
    pub(crate) fn undo(&mut self, textbuffer_context: &TextbufferContext, filebuffer: &mut Filebuffer)
        requires
            old(self).wf(old(filebuffer)),
            textbuffer_context.wf(),
        ensures
            final(filebuffer).wf(),
            final(filebuffer).tokens() == old(filebuffer).tokens(),
            final(filebuffer).actions() == old(filebuffer).actions(),
            final(filebuffer).combined() == old(filebuffer).combined(),
            old(filebuffer).history_position() == 0 ==> final(filebuffer).history_position() == 0,
            old(filebuffer).history_position() > 0 ==> final(filebuffer).history_position() < old(filebuffer).history_position(),
            final(filebuffer).text() == undone_text(old(filebuffer).text(), old(filebuffer).actions(),
                final(filebuffer).history_position(), old(filebuffer).history_position()),
            0 < final(filebuffer).text().len() <= usize::MAX / 8 ==> final(self).wf(final(filebuffer))
                && final(self).synced() == final(filebuffer).history_position(),
            0 < final(filebuffer).text().len() <= usize::MAX / 8 ==> {
                let state = caught_up_state((old(self).sels(), old(self).selection_mode()), final(filebuffer).actions(),
                    old(self).window(), old(self).synced() as int, final(filebuffer).history_position() as int);
                &&& final(self).sels() == kept_inside(state.0, final(filebuffer).text().len() as int)
                &&& final(self).selection_mode() == state.1
            },
            !(0 < final(filebuffer).text().len() <= usize::MAX / 8) ==> *final(self) == *old(self),
            final(self).adding() == old(self).adding(),
            final(self).padding_char() == old(self).padding_char(),
            final(self).horizontal() == old(self).horizontal(),
            final(self).lines_shown() == old(self).lines_shown(),
            final(self).window() == old(self).window(),
    {
        filebuffer.undo();
        self.catch_up_after_step(textbuffer_context, filebuffer);
    }

    /// Redoes the next step of the buffer's history and catches the
    /// selections up with it, as `undo` does.
    pub(crate) fn redo(&mut self, textbuffer_context: &TextbufferContext, filebuffer: &mut Filebuffer)
        requires
            old(self).wf(old(filebuffer)),
            textbuffer_context.wf(),
        ensures
            final(filebuffer).wf(),
            final(filebuffer).tokens() == old(filebuffer).tokens(),
            final(filebuffer).actions() == old(filebuffer).actions(),
            final(filebuffer).combined() == old(filebuffer).combined(),
            old(filebuffer).history_position() == old(filebuffer).actions().len() ==> final(filebuffer).history_position()
                == old(filebuffer).history_position(),
            old(filebuffer).history_position() < old(filebuffer).actions().len() ==> old(filebuffer).history_position()
                < final(filebuffer).history_position(),
            final(filebuffer).text() == redone_text(old(filebuffer).text(), old(filebuffer).actions(),
                old(filebuffer).history_position(), final(filebuffer).history_position()),
            0 < final(filebuffer).text().len() <= usize::MAX / 8 ==> final(self).wf(final(filebuffer))
                && final(self).synced() == final(filebuffer).history_position(),
            0 < final(filebuffer).text().len() <= usize::MAX / 8 ==> {
                let state = caught_up_state((old(self).sels(), old(self).selection_mode()), final(filebuffer).actions(),
                    old(self).window(), old(self).synced() as int, final(filebuffer).history_position() as int);
                &&& final(self).sels() == kept_inside(state.0, final(filebuffer).text().len() as int)
                &&& final(self).selection_mode() == state.1
            },
            !(0 < final(filebuffer).text().len() <= usize::MAX / 8) ==> *final(self) == *old(self),
            final(self).adding() == old(self).adding(),
            final(self).padding_char() == old(self).padding_char(),
            final(self).horizontal() == old(self).horizontal(),
            final(self).lines_shown() == old(self).lines_shown(),
            final(self).window() == old(self).window(),
    {
        filebuffer.redo();
        self.catch_up_after_step(textbuffer_context, filebuffer);
    }

    /// Catches up with the history after an undo or a redo, and scrolls to the
    /// last cursor where the history had moved. Where it had not moved for
    /// this window, selections that the step left past the end of the text
    /// are brought inside it.
    fn catch_up_after_step(&mut self, textbuffer_context: &TextbufferContext, filebuffer: &mut Filebuffer)
        requires
            old(filebuffer).wf(),
            textbuffer_context.wf(),
            0 < old(self).sels().len() <= usize::MAX / 8,
            old(self).scroll() <= usize::MAX / 8,
            old(self).lines_shown() <= usize::MAX / 8,
        ensures
            final(filebuffer).wf(),
            final(filebuffer).text() == old(filebuffer).text(),
            final(filebuffer).tokens() == old(filebuffer).tokens(),
            final(filebuffer).actions() == old(filebuffer).actions(),
            final(filebuffer).combined() == old(filebuffer).combined(),
            final(filebuffer).history_position() == old(filebuffer).history_position(),
            0 < old(filebuffer).text().len() <= usize::MAX / 8 ==> final(self).wf(final(filebuffer))
                && final(self).synced() == final(filebuffer).history_position(),
            0 < old(filebuffer).text().len() <= usize::MAX / 8 ==> {
                let state = caught_up_state((old(self).sels(), old(self).selection_mode()), old(filebuffer).actions(),
                    old(self).window(), old(self).synced() as int, old(filebuffer).history_position() as int);
                &&& final(self).sels() == kept_inside(state.0, old(filebuffer).text().len() as int)
                &&& final(self).selection_mode() == state.1
            },
            !(0 < old(filebuffer).text().len() <= usize::MAX / 8) ==> *final(self) == *old(self),
            final(self).adding() == old(self).adding(),
            final(self).padding_char() == old(self).padding_char(),
            final(self).horizontal() == old(self).horizontal(),
            final(self).lines_shown() == old(self).lines_shown(),
            final(self).window() == old(self).window(),
    {
        let length = filebuffer.length();
        if length == 0 || length > usize::MAX / 8 {
            return;
        }
        if self.history_catch_up(textbuffer_context, filebuffer) {
            self.check_selection_gaps(textbuffer_context, filebuffer);
        } else {
            self.keep_inside(filebuffer);
            proof {
                assert forall|i: int| 0 <= i < self.sels().len() implies selection_in(#[trigger] self.sels()[i],
                    filebuffer.text().len() as int) by {}
            }
        }
    }
}

/// The action names the selection as it is (or, for an addition, a place for
/// one), so that replaying its inverse undoes it.
pub open spec fn matches_state(state: ReplayState, action: ActionModel) -> bool {
    let sels = state.0;
    match action {
        ActionModel::AddSelection(_, i, _, _, _) => i <= sels.len(),
        ActionModel::RemoveSelection(_, i, p, s, o) => i < sels.len() && sels[i as int] == Selection {
            primary_index: p,
            secondary_index: s,
            offset: o,
        },
        ActionModel::ChangePrimaryIndex(_, i, previous, _) => i < sels.len() && sels[i as int].primary_index == previous,
        ActionModel::ChangeSecondaryIndex(_, i, previous, _) => i < sels.len() && sels[i as int].secondary_index == previous,
        ActionModel::ChangeOffset(_, i, previous, _) => i < sels.len() && sels[i as int].offset == previous,
        ActionModel::ChangeSelectionMode(_, previous, _) => state.1 == previous,
        _ => false,
    }
}

/// Replaying an action on the selections and then its inverse gives the
/// selections and the mode back, when the action matched them.
pub proof fn law_replay_inverse(state: ReplayState, action: ActionModel)
    requires
        matches_state(state, action),
    ensures
        replayed(replayed(state, action), action.inverted()) == state,
{
    match action {
        ActionModel::AddSelection(_, i, p, s, o) => {
            assert(replayed(replayed(state, action), action.inverted()).0 =~= state.0);
        },
        ActionModel::RemoveSelection(_, i, p, s, o) => {
            assert(replayed(replayed(state, action), action.inverted()).0 =~= state.0);
        },
        ActionModel::ChangePrimaryIndex(_, i, _, _) => {
            assert(replayed(replayed(state, action), action.inverted()).0 =~= state.0);
        },
        ActionModel::ChangeSecondaryIndex(_, i, _, _) => {
            assert(replayed(replayed(state, action), action.inverted()).0 =~= state.0);
        },
        ActionModel::ChangeOffset(_, i, _, _) => {
            assert(replayed(replayed(state, action), action.inverted()).0 =~= state.0);
        },
        _ => {},
    }
}

/// Moving the selections for a text that another window put in, and then for
/// the same text taken out again, gives them back, when no position came near
/// the largest number.
pub proof fn law_adjust_inverse(sels: Seq<Selection>, window: usize, text: Seq<char>, index: usize)
    requires
        forall|j: int|
            0 <= j < sels.len() ==> (#[trigger] sels[j]).primary_index + text.len() <= usize::MAX && sels[j].secondary_index
                + text.len() <= usize::MAX,
    ensures
        adjusted(adjusted(sels, ActionModel::InsertText(window, text, index)), ActionModel::InsertText(window, text, index).inverted())
            == sels,
{
    let a = ActionModel::InsertText(window, text, index);
    assert(adjusted(adjusted(sels, a), a.inverted()) =~= sels);
}

/// One action of the history can be caught up with and then back: an action
/// of `window` on its selections matches them and fits them both ways; text
/// that another window put in moves no position past the largest number;
/// text that another window took out covers no selection position.
pub open spec fn reversible_step(state: ReplayState, action: ActionModel, window: usize) -> bool {
    if !action.changes_text() && action.window() == window {
        &&& matches_state(state, action)
        &&& replayable(state.0, action)
        &&& replayable(replayed(state, action).0, action.inverted())
    } else if action.changes_text() && action.window() != window {
        match action {
            ActionModel::InsertText(_, text, _) => forall|j: int|
                0 <= j < state.0.len() ==> (#[trigger] state.0[j]).primary_index + text.len() <= usize::MAX
                    && state.0[j].secondary_index + text.len() <= usize::MAX,
            ActionModel::RemoveText(_, text, index) => forall|j: int|
                0 <= j < state.0.len() ==> ((#[trigger] state.0[j]).primary_index < index || state.0[j].primary_index
                    >= index + text.len()) && (state.0[j].secondary_index < index || state.0[j].secondary_index >= index
                    + text.len()),
            _ => true,
        }
    } else {
        true
    }
}

/// Every action of `low .. high` can be caught up with and back, from the
/// state that catching up forwards reaches before it.
pub open spec fn reversible(state: ReplayState, actions: Seq<ActionModel>, window: usize, low: int, high: int) -> bool
    decreases high - low,
{
    if high <= low {
        true
    } else {
        &&& reversible(state, actions, window, low, high - 1)
        &&& reversible_step(caught_up_forward(state, actions, window, low, high - 1), actions[high - 1], window)
    }
}

proof fn lemma_step_back(state: ReplayState, action: ActionModel, window: usize)
    requires
        reversible_step(state, action, window),
    ensures
        caught_up(caught_up(state, action, window), action.inverted(), window) == state,
{
    lemma_invert_keeps_kind(action);
    if !action.changes_text() && action.window() == window {
        law_replay_inverse(state, action);
    } else if action.changes_text() && action.window() != window {
        let once = adjusted(state.0, action);
        assert(adjusted(once, action.inverted()) =~= state.0);
    }
}

proof fn lemma_back_top(state: ReplayState, actions: Seq<ActionModel>, window: usize, low: int, high: int)
    requires
        0 <= low < high <= actions.len(),
    ensures
        caught_up_back(state, actions, window, low, high) == caught_up_back(caught_up(state, actions[high - 1].inverted(),
            window), actions, window, low, high - 1),
    decreases high - low,
{
    let top = caught_up(state, actions[high - 1].inverted(), window);
    if low + 1 < high {
        lemma_back_top(state, actions, window, low + 1, high);
        assert(caught_up_back(top, actions, window, low, high - 1) == caught_up(caught_up_back(top, actions, window, low + 1,
            high - 1), actions[low].inverted(), window));
    } else {
        assert(caught_up_back(state, actions, window, low + 1, high) == state);
        assert(caught_up_back(top, actions, window, low, high - 1) == top);
    }
}

/// Catching up forwards through part of the history and then back through
/// it gives the selections and the mode back, where each action can be
/// caught up with and back.
pub proof fn law_catch_up_there_and_back(state: ReplayState, actions: Seq<ActionModel>, window: usize, low: int, high: int)
    requires
        0 <= low <= high <= actions.len(),
        reversible(state, actions, window, low, high),
    ensures
        caught_up_back(caught_up_forward(state, actions, window, low, high), actions, window, low, high) == state,
    decreases high - low,
{
    if low < high {
        let before = caught_up_forward(state, actions, window, low, high - 1);
        let a = actions[high - 1];
        lemma_back_top(caught_up_forward(state, actions, window, low, high), actions, window, low, high);
        lemma_step_back(before, a, window);
        law_catch_up_there_and_back(state, actions, window, low, high - 1);
    }
}

} // verus!
