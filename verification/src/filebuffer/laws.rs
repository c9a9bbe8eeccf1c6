use vstd::prelude::*;

use super::{apply_to_text, undone_text, ActionModel, Filebuffer};

verus! {

/// The change of the text fits it exactly: an insertion at a place inside
/// it, a removal of the very characters that stand there.
pub open spec fn fits_exactly(text: Seq<char>, action: ActionModel) -> bool {
    match action {
        ActionModel::InsertText(_, s, i) => i <= text.len() && text.len() + s.len() <= usize::MAX,
        ActionModel::RemoveText(_, s, i) => i + s.len() <= text.len() <= usize::MAX && text.subrange(i as int, i + s.len()) == s,
        _ => false,
    }
}

/// A change of the text, followed by its inverse, gives the text back.
pub proof fn law_text_inverse(text: Seq<char>, action: ActionModel)
    requires
        fits_exactly(text, action),
    ensures
        apply_to_text(apply_to_text(text, action), action.inverted()) == text,
{
    match action {
        ActionModel::InsertText(_, s, i) => {
            let t1 = apply_to_text(text, action);
            assert(t1.subrange(i as int, i + s.len()) =~= s);
            assert(apply_to_text(t1, action.inverted()) =~= text);
        },
        ActionModel::RemoveText(_, s, i) => {
            let t1 = apply_to_text(text, action);
            assert(t1.take(i as int) =~= text.take(i as int));
            assert(t1.skip(i as int) =~= text.skip(i + s.len()));
            assert(text =~= text.take(i as int) + s + text.skip(i + s.len()));
            assert(apply_to_text(t1, action.inverted()) =~= text);
        },
        _ => {},
    }
}

/// Undo right after a change of the text that was recorded on its own (not
/// combined with the action before it) stops just before that change and gives
/// the text back as it was.
pub proof fn law_undo_after_change(old: &Filebuffer, new: &Filebuffer, action: ActionModel)
    requires
        old.wf(),
        fits_exactly(old.text(), action),
        Filebuffer::recorded(old, new, action, apply_to_text(old.text(), action)),
        !new.combined()[old.history_position()],
    ensures
        undone_text(new.text(), new.actions(), old.history_position(), new.history_position()) == old.text(),
        forall|stop: int|
            0 <= stop < new.history_position() && (stop == 0 || !new.combined()[stop]) && (forall|k: int|
                stop < k < new.history_position() ==> #[trigger] new.combined()[k]) ==> stop == old.history_position(),
{
    let h = old.history_position();
    old.lemma_position();
    assert(new.actions()[h] == action);
    law_text_inverse(old.text(), action);
    assert(undone_text(new.text(), new.actions(), h + 1, h + 1) == new.text());
    assert forall|stop: int|
        0 <= stop < new.history_position() && (stop == 0 || !new.combined()[stop]) && (forall|k: int|
            stop < k < new.history_position() ==> #[trigger] new.combined()[k]) implies stop == h by {
        if stop < h {
            assert(new.combined()[h]);
        }
    }
}

} // verus!
