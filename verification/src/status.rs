use vstd::prelude::*;

use crate::editor::selection::Selection;

verus! {

/// Which dialogue a window shows, if any; a replacement carries the
/// selections it works on.
#[derive(Clone)]
pub enum DialogueMode {
    NoDialogue,
    Open,
    Filebuffers,
    Notes,
    Language,
    Theme,
    Replace(Vec<Selection>),
    Action,
}

/// What a dialogue did with an action: whether it used it, whether the dialogue
/// closed, and whether it closed by completing.
pub struct DialogueStatus {
    pub handled: bool,
    pub closed: bool,
    pub completed: bool,
}

impl DialogueStatus {
    /// The action was used and the dialogue stays open.
    pub fn handled() -> (r: Self)
        ensures
            r.handled && !r.closed && !r.completed,
    {
        Self { handled: true, closed: false, completed: false }
    }

    /// The action was not used.
    pub fn unhandled() -> (r: Self)
        ensures
            !r.handled && !r.closed && !r.completed,
    {
        Self { handled: false, closed: false, completed: false }
    }

    /// The dialogue closed without completing.
    pub fn aborted() -> (r: Self)
        ensures
            r.handled && r.closed && !r.completed,
    {
        Self { handled: true, closed: true, completed: false }
    }

    /// The dialogue closed and completed.
    pub fn completed() -> (r: Self)
        ensures
            r.handled && r.closed && r.completed,
    {
        Self { handled: true, closed: true, completed: true }
    }
}

} // verus!
