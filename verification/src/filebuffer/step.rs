use vstd::prelude::*;

use super::action::BufferAction;

verus! {

/// An action of the history together with whether it is undone and redone
/// together with the action before it.
#[derive(Clone)]
pub struct BufferActionStep {
    pub action: BufferAction,
    pub combined: bool,
}

impl BufferActionStep {
    pub fn new(action: BufferAction, combined: bool) -> (r: Self)
        ensures
            r.action@ == action@,
            r.combined == combined,
    {
        Self { action, combined }
    }
}

} // verus!
