use vstd::prelude::*;

use std::time::{Duration, SystemTime};

use super::action::{ActionModel, BufferAction};
use super::step::BufferActionStep;
use crate::selection::SelectionMode;

verus! {

#[verifier::external_type_specification]
#[verifier::external_body]
pub struct ExSystemTime(SystemTime);

/// Calls `SystemTime::now`. Nothing is claimed of the time it returns.
#[verifier::external_body]
fn current_time() -> SystemTime {
    SystemTime::now()
}

/// Calls `SystemTime::elapsed`: the time since `time`, or `None` where the
/// clock now reads earlier than `time`. Nothing is claimed of the duration.
#[verifier::external_body]
fn time_since(time: &SystemTime) -> Option<Duration> {
    match time.elapsed() {
        Ok(duration) => Some(duration),
        Err(_) => None,
    }
}

/// Calls `Duration::as_nanos`: the whole nanoseconds of a duration. Nothing
/// is claimed of the number.
#[verifier::external_body]
fn whole_nanos(duration: &Duration) -> u128 {
    duration.as_nanos()
}

/// Two actions at most this many nanoseconds (half a second) apart may be
/// combined into one undo step.
pub const COMBINE_NANOS: u128 = 500_000_000;

/// Whether an action that came `elapsed_nanos` nanoseconds after the one
/// before it (`None` where the clock gave no elapsed time) is recent enough
/// to be combined with it.
pub fn recent(elapsed_nanos: Option<u128>) -> (r: bool)
    ensures
        r == (elapsed_nanos matches Some(n) && n <= COMBINE_NANOS),
{
    match elapsed_nanos {
        Some(nanos) => nanos <= COMBINE_NANOS,
        None => false,
    }
}

/// The actions done to a file buffer, in order, with the time of the last one.
pub struct History {
    actions: Vec<BufferActionStep>,
    timestamp: SystemTime,
}

impl History {
    /// The actions, in order.
    pub closed spec fn actions(&self) -> Seq<ActionModel> {
        self.actions@.map_values(|step: BufferActionStep| step.action@)
    }

    /// For each action, whether it is undone together with the one before it.
    pub closed spec fn combined(&self) -> Seq<bool> {
        self.actions@.map_values(|step: BufferActionStep| step.combined)
    }

    pub proof fn lemma_lengths(&self)
        ensures
            self.actions().len() == self.combined().len(),
    {
    }

    pub fn new() -> (r: Self)
        ensures
            r.actions() == Seq::<ActionModel>::empty(),
            r.combined() == Seq::<bool>::empty(),
    {
        let r = Self { actions: Vec::new(), timestamp: current_time() };
        assert(r.actions() =~= Seq::<ActionModel>::empty());
        assert(r.combined() =~= Seq::<bool>::empty());
        r
    }

    /// Records the time of a new action; true when the previous one was at
    /// most `COMBINE_NANOS` ago (as `recent` decides on the elapsed time the
    /// clock gives).
    fn update_timestamp(&mut self) -> (r: bool)
        ensures
            final(self).actions() == old(self).actions(),
            final(self).combined() == old(self).combined(),
    {
        let elapsed = match time_since(&self.timestamp) {
            Some(duration) => Some(whole_nanos(&duration)),
            None => None,
        };
        self.timestamp = current_time();
        recent(elapsed)
    }

    pub(crate) fn append_action(&mut self, action: BufferAction, combine: bool)
        ensures
            final(self).actions() == old(self).actions().push(action@),
            final(self).combined().len() == old(self).combined().len() + 1,
            final(self).combined().take(old(self).combined().len() as int) == old(self).combined(),
            final(self).combined().last() ==> combine,
    {
        let combined = combine && self.update_timestamp();
        let ghost before = self.actions@;
        let ghost a = action@;
        self.actions.push(BufferActionStep::new(action, combined));
        assert(self.actions() =~= old(self).actions().push(a));
        assert(self.combined().take(old(self).combined().len() as int) =~= old(self).combined());
    }

    pub fn insert_text(&mut self, window_id: usize, index: usize, text: Vec<char>, combine: bool)
        ensures
            final(self).actions() == old(self).actions().push(ActionModel::InsertText(window_id, text@, index)),
            final(self).combined().take(old(self).combined().len() as int) == old(self).combined(),
            final(self).combined().len() == old(self).combined().len() + 1,
            final(self).combined().last() ==> combine,
    {
        self.append_action(BufferAction::InsertText(window_id, text, index), combine);
    }

    pub fn remove_text(&mut self, window_id: usize, text: Vec<char>, index: usize, combine: bool)
        ensures
            final(self).actions() == old(self).actions().push(ActionModel::RemoveText(window_id, text@, index)),
            final(self).combined().take(old(self).combined().len() as int) == old(self).combined(),
            final(self).combined().len() == old(self).combined().len() + 1,
            final(self).combined().last() ==> combine,
    {
        self.append_action(BufferAction::RemoveText(window_id, text, index), combine);
    }

    pub fn add_selection(&mut self, window_id: usize, index: usize, primary_index: usize, secondary_index: usize, offset: usize, combine: bool)
        ensures
            final(self).actions() == old(self).actions().push(
                ActionModel::AddSelection(window_id, index, primary_index, secondary_index, offset),
            ),
            final(self).combined().take(old(self).combined().len() as int) == old(self).combined(),
            final(self).combined().len() == old(self).combined().len() + 1,
            final(self).combined().last() ==> combine,
    {
        self.append_action(BufferAction::AddSelection(window_id, index, primary_index, secondary_index, offset), combine);
    }

    pub fn remove_selection(&mut self, window_id: usize, index: usize, primary_index: usize, secondary_index: usize, offset: usize, combine: bool)
        ensures
            final(self).actions() == old(self).actions().push(
                ActionModel::RemoveSelection(window_id, index, primary_index, secondary_index, offset),
            ),
            final(self).combined().take(old(self).combined().len() as int) == old(self).combined(),
            final(self).combined().len() == old(self).combined().len() + 1,
            final(self).combined().last() ==> combine,
    {
        self.append_action(BufferAction::RemoveSelection(window_id, index, primary_index, secondary_index, offset), combine);
    }

    pub fn change_primary_index(&mut self, window_id: usize, index: usize, previous: usize, new: usize, combine: bool)
        ensures
            final(self).actions() == old(self).actions().push(ActionModel::ChangePrimaryIndex(window_id, index, previous, new)),
            final(self).combined().take(old(self).combined().len() as int) == old(self).combined(),
            final(self).combined().len() == old(self).combined().len() + 1,
            final(self).combined().last() ==> combine,
    {
        self.append_action(BufferAction::ChangePrimaryIndex(window_id, index, previous, new), combine);
    }

    pub fn change_secondary_index(&mut self, window_id: usize, index: usize, previous: usize, new: usize, combine: bool)
        ensures
            final(self).actions() == old(self).actions().push(ActionModel::ChangeSecondaryIndex(window_id, index, previous, new)),
            final(self).combined().take(old(self).combined().len() as int) == old(self).combined(),
            final(self).combined().len() == old(self).combined().len() + 1,
            final(self).combined().last() ==> combine,
    {
        self.append_action(BufferAction::ChangeSecondaryIndex(window_id, index, previous, new), combine);
    }

    pub fn change_offset(&mut self, window_id: usize, index: usize, previous: usize, new: usize, combine: bool)
        ensures
            final(self).actions() == old(self).actions().push(ActionModel::ChangeOffset(window_id, index, previous, new)),
            final(self).combined().take(old(self).combined().len() as int) == old(self).combined(),
            final(self).combined().len() == old(self).combined().len() + 1,
            final(self).combined().last() ==> combine,
    {
        self.append_action(BufferAction::ChangeOffset(window_id, index, previous, new), combine);
    }

    pub fn change_selection_mode(&mut self, window_id: usize, previous: SelectionMode, new: SelectionMode, combine: bool)
        ensures
            final(self).actions() == old(self).actions().push(ActionModel::ChangeSelectionMode(window_id, previous, new)),
            final(self).combined().take(old(self).combined().len() as int) == old(self).combined(),
            final(self).combined().len() == old(self).combined().len() + 1,
            final(self).combined().last() ==> combine,
    {
        self.append_action(BufferAction::ChangeSelectionMode(window_id, previous, new), combine);
    }

    /// Drops every action from `index` on.
    pub fn pop_until(&mut self, index: usize)
        ensures
            final(self).actions() == old(self).actions().take(
                if index < old(self).actions().len() { index as int } else { old(self).actions().len() as int },
            ),
            final(self).combined() == old(self).combined().take(
                if index < old(self).combined().len() { index as int } else { old(self).combined().len() as int },
            ),
    {
        let ghost keep = if index < self.actions.len() { index as int } else { self.actions.len() as int };
        while self.actions.len() > index
            invariant
                self.actions@.len() <= old(self).actions@.len(),
                self.actions@ == old(self).actions@.take(self.actions@.len() as int),
                keep <= self.actions@.len(),
                keep == if index < old(self).actions@.len() { index as int } else { old(self).actions@.len() as int },
            decreases self.actions.len(),
        {
            let ghost prev = self.actions@;
            self.actions.pop();
            assert(self.actions@ =~= prev.take(prev.len() - 1));
            assert(self.actions@ =~= old(self).actions@.take(self.actions@.len() as int));
        }
        assert(self.actions@ =~= old(self).actions@.take(keep));
        assert(self.actions() =~= old(self).actions().take(keep));
        assert(self.combined() =~= old(self).combined().take(keep));
    }

    /// A copy of the action at `index`.
    pub fn get(&self, index: usize) -> (r: BufferAction)
        requires
            index < self.actions().len(),
        ensures
            r@ == self.actions()[index as int],
    {
        self.actions[index].action.clone()
    }

    /// Whether the action at `index` is undone together with the one before it.
    pub fn is_action_combined(&self, index: usize) -> (r: bool)
        requires
            index < self.combined().len(),
        ensures
            r == self.combined()[index as int],
    {
        self.actions[index].combined
    }

    pub fn length(&mut self) -> (r: usize)
        ensures
            r == old(self).actions().len(),
            final(self).actions() == old(self).actions(),
            final(self).combined() == old(self).combined(),
    {
        self.actions.len()
    }
}

} // verus!
