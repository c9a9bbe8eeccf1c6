use vstd::prelude::*;

use crate::chars::copy_text;
use crate::selection::SelectionMode;

verus! {

/// One step of the history of a file buffer. The first field of every variant
/// is the id of the window that made the change.
///
/// `InsertText(window, text, index)`, `RemoveText(window, text, index)`,
/// `AddSelection(window, index, primary, secondary, offset)`,
/// `RemoveSelection(window, index, primary, secondary, offset)`,
/// `ChangePrimaryIndex(window, index, previous, new)` (likewise for the
/// secondary index and the offset), `ChangeSelectionMode(window, previous, new)`.
#[derive(Debug)]
pub enum BufferAction {
    InsertText(usize, Vec<char>, usize),
    RemoveText(usize, Vec<char>, usize),
    AddSelection(usize, usize, usize, usize, usize),
    RemoveSelection(usize, usize, usize, usize, usize),
    ChangePrimaryIndex(usize, usize, usize, usize),
    ChangeSecondaryIndex(usize, usize, usize, usize),
    ChangeOffset(usize, usize, usize, usize),
    ChangeSelectionMode(usize, SelectionMode, SelectionMode),
}

/// The mathematical value of a `BufferAction`: the same variants, with the
/// text as a sequence of characters.
pub enum ActionModel {
    InsertText(usize, Seq<char>, usize),
    RemoveText(usize, Seq<char>, usize),
    AddSelection(usize, usize, usize, usize, usize),
    RemoveSelection(usize, usize, usize, usize, usize),
    ChangePrimaryIndex(usize, usize, usize, usize),
    ChangeSecondaryIndex(usize, usize, usize, usize),
    ChangeOffset(usize, usize, usize, usize),
    ChangeSelectionMode(usize, SelectionMode, SelectionMode),
}

impl ActionModel {
    /// The action that undoes this one.
    pub open spec fn inverted(self) -> ActionModel {
        match self {
            ActionModel::InsertText(w, t, i) => ActionModel::RemoveText(w, t, i),
            ActionModel::RemoveText(w, t, i) => ActionModel::InsertText(w, t, i),
            ActionModel::AddSelection(w, i, p, s, o) => ActionModel::RemoveSelection(w, i, p, s, o),
            ActionModel::RemoveSelection(w, i, p, s, o) => ActionModel::AddSelection(w, i, p, s, o),
            ActionModel::ChangePrimaryIndex(w, i, a, b) => ActionModel::ChangePrimaryIndex(w, i, b, a),
            ActionModel::ChangeSecondaryIndex(w, i, a, b) => ActionModel::ChangeSecondaryIndex(w, i, b, a),
            ActionModel::ChangeOffset(w, i, a, b) => ActionModel::ChangeOffset(w, i, b, a),
            ActionModel::ChangeSelectionMode(w, a, b) => ActionModel::ChangeSelectionMode(w, b, a),
        }
    }

    /// The window that made the change.
    pub open spec fn window(self) -> usize {
        match self {
            ActionModel::InsertText(w, ..) => w,
            ActionModel::RemoveText(w, ..) => w,
            ActionModel::AddSelection(w, ..) => w,
            ActionModel::RemoveSelection(w, ..) => w,
            ActionModel::ChangePrimaryIndex(w, ..) => w,
            ActionModel::ChangeSecondaryIndex(w, ..) => w,
            ActionModel::ChangeOffset(w, ..) => w,
            ActionModel::ChangeSelectionMode(w, ..) => w,
        }
    }

    /// The action changes the text.
    pub open spec fn changes_text(self) -> bool {
        self is InsertText || self is RemoveText
    }
}

impl View for BufferAction {
    type V = ActionModel;

    open spec fn view(&self) -> ActionModel {
        match self {
            BufferAction::InsertText(w, t, i) => ActionModel::InsertText(*w, t@, *i),
            BufferAction::RemoveText(w, t, i) => ActionModel::RemoveText(*w, t@, *i),
            BufferAction::AddSelection(w, i, p, s, o) => ActionModel::AddSelection(*w, *i, *p, *s, *o),
            BufferAction::RemoveSelection(w, i, p, s, o) => ActionModel::RemoveSelection(*w, *i, *p, *s, *o),
            BufferAction::ChangePrimaryIndex(w, i, a, b) => ActionModel::ChangePrimaryIndex(*w, *i, *a, *b),
            BufferAction::ChangeSecondaryIndex(w, i, a, b) => ActionModel::ChangeSecondaryIndex(*w, *i, *a, *b),
            BufferAction::ChangeOffset(w, i, a, b) => ActionModel::ChangeOffset(*w, *i, *a, *b),
            BufferAction::ChangeSelectionMode(w, a, b) => ActionModel::ChangeSelectionMode(*w, *a, *b),
        }
    }
}

impl Clone for BufferAction {
    fn clone(&self) -> (r: Self)
        ensures
            r@ == self@,
    {
        match self {
            BufferAction::InsertText(w, t, i) => BufferAction::InsertText(*w, copy_text(t), *i),
            BufferAction::RemoveText(w, t, i) => BufferAction::RemoveText(*w, copy_text(t), *i),
            BufferAction::AddSelection(w, i, p, s, o) => BufferAction::AddSelection(*w, *i, *p, *s, *o),
            BufferAction::RemoveSelection(w, i, p, s, o) => BufferAction::RemoveSelection(*w, *i, *p, *s, *o),
            BufferAction::ChangePrimaryIndex(w, i, a, b) => BufferAction::ChangePrimaryIndex(*w, *i, *a, *b),
            BufferAction::ChangeSecondaryIndex(w, i, a, b) => BufferAction::ChangeSecondaryIndex(*w, *i, *a, *b),
            BufferAction::ChangeOffset(w, i, a, b) => BufferAction::ChangeOffset(*w, *i, *a, *b),
            BufferAction::ChangeSelectionMode(w, a, b) => BufferAction::ChangeSelectionMode(*w, *a, *b),
        }
    }
}

impl BufferAction {
    /// The action inserts or removes text.
    pub fn is_text(&self) -> (r: bool)
        ensures
            r == self@.changes_text(),
    {
        match self {
            BufferAction::InsertText(..) => true,
            BufferAction::RemoveText(..) => true,
            _ => false,
        }
    }

    /// The action changes the text and was made by another window than
    /// `current_id`.
    pub fn is_other_text(&self, current_id: usize) -> (r: bool)
        ensures
            r == (self@.changes_text() && self@.window() != current_id),
    {
        match self {
            BufferAction::InsertText(window_id, ..) => current_id != *window_id,
            BufferAction::RemoveText(window_id, ..) => current_id != *window_id,
            _ => false,
        }
    }

    /// The action changes the selections of window `current_id`.
    pub fn is_selection(&self, current_id: usize) -> (r: bool)
        ensures
            r == (!self@.changes_text() && self@.window() == current_id),
    {
        match self {
            BufferAction::AddSelection(window_id, ..) => current_id == *window_id,
            BufferAction::RemoveSelection(window_id, ..) => current_id == *window_id,
            BufferAction::ChangePrimaryIndex(window_id, ..) => current_id == *window_id,
            BufferAction::ChangeSecondaryIndex(window_id, ..) => current_id == *window_id,
            BufferAction::ChangeOffset(window_id, ..) => current_id == *window_id,
            BufferAction::ChangeSelectionMode(window_id, ..) => current_id == *window_id,
            _ => false,
        }
    }

    /// The action that undoes this one.
    pub fn invert(self) -> (r: Self)
        ensures
            r@ == self@.inverted(),
    {
        match self {
            BufferAction::InsertText(w, t, i) => BufferAction::RemoveText(w, t, i),
            BufferAction::RemoveText(w, t, i) => BufferAction::InsertText(w, t, i),
            BufferAction::AddSelection(w, i, p, s, o) => BufferAction::RemoveSelection(w, i, p, s, o),
            BufferAction::RemoveSelection(w, i, p, s, o) => BufferAction::AddSelection(w, i, p, s, o),
            BufferAction::ChangePrimaryIndex(w, i, a, b) => BufferAction::ChangePrimaryIndex(w, i, b, a),
            BufferAction::ChangeSecondaryIndex(w, i, a, b) => BufferAction::ChangeSecondaryIndex(w, i, b, a),
            BufferAction::ChangeOffset(w, i, a, b) => BufferAction::ChangeOffset(w, i, b, a),
            BufferAction::ChangeSelectionMode(w, a, b) => BufferAction::ChangeSelectionMode(w, b, a),
        }
    }
}

/// Inverting an action twice gives the action back.
pub proof fn lemma_invert_involution(a: ActionModel)
    ensures
        a.inverted().inverted() == a,
{
}

/// Inverting an action keeps the window that made it and whether it changes
/// the text.
pub proof fn lemma_invert_keeps_kind(a: ActionModel)
    ensures
        a.inverted().window() == a.window(),
        a.inverted().changes_text() == a.changes_text(),
{
}

} // verus!
