use vstd::prelude::*;

use super::motion::lemma_targets;
use super::scroll::{gap_scroll_fits, scroll_after_gaps};
use super::steps::{collapse, motion_result, to_line_end, up1, down1, Motion};
use super::{selection_in, Textbuffer};
use crate::context::TextbufferContext;
use crate::filebuffer::{ActionModel, Filebuffer};
use crate::lines::{column, lemma_column_bound, rest_of_line};
use crate::selection::{Selection, SelectionMode};

verus! {

broadcast use crate::textbuffer::Textbuffer::lemma_changed_one_chain;

/// The selection that adding a selection puts after `last`: one character
/// right after it, its offset the column there.
pub open spec fn selection_after(text: Seq<char>, last: Selection) -> Selection {
    let b = (last.last() + 1) as usize;
    Selection { primary_index: b, secondary_index: b, offset: column(text, b as int) as usize }
}

/// `sels` after `count` copies were added, each a copy of the last selection
/// moved one line up (or down), shrunk to its cursor.
pub open spec fn duplicated(sels: Seq<Selection>, text: Seq<char>, down: bool, count: nat) -> Seq<Selection>
    decreases count,
{
    if count == 0 {
        sels
    } else {
        let before = duplicated(sels, text, down, (count - 1) as nat);
        let last = before.last();
        before.push(collapse(if down { down1(text, last) } else { up1(text, last) }))
    }
}

impl Textbuffer {
    /// Removes every selection but the first one.
    fn keep_first_selection(&mut self, filebuffer: &mut Filebuffer)
        requires
            old(self).wf(old(filebuffer)),
        ensures
            final(self).wf(final(filebuffer)),
            final(self).sels() == seq![old(self).sels()[0]],
            final(self).same_settings(old(self)),
            Filebuffer::logged_selection_changes(old(filebuffer), final(filebuffer), old(self).window()),
    {
        let count = self.selections.len() - 1;
        let mut k: usize = 0;
        proof {
            Filebuffer::lemma_logged_refl(filebuffer, self.window());
        }
        while k < count
            invariant
                count == old(self).sels().len() - 1,
                k <= count,
                self.sels() == old(self).sels().take(1) + old(self).sels().skip(k + 1),
                self.same_settings(old(self)),
                old(filebuffer).wf(),
                Filebuffer::logged_selection_changes(old(filebuffer), filebuffer, old(self).window()),
            decreases count - k,
        {
            let ghost fb_before = *filebuffer;
            self.remove_selection(filebuffer, 1);
            proof {
                Filebuffer::lemma_logged_trans(old(filebuffer), &fb_before, filebuffer, self.window());
                assert(self.sels() =~= old(self).sels().take(1) + old(self).sels().skip(k + 2));
            }
            k = k + 1;
        }
        assert(self.sels() =~= seq![old(self).sels()[0]]);
    }

    /// Adding a selection puts one past the last character of the text: the
    /// last selection ends on it, outside word mode.
    pub open spec fn adds_past_end(&self, text: Seq<char>) -> bool {
        self.selection_mode() != SelectionMode::Word && self.sels().last().last() + 1 >= text.len()
    }

    /// Adds a selection one character after the last one, and scrolls to it.
    /// In line mode the new selection reaches to the end of its line; in word
    /// mode nothing is added. Where the last selection ends on the last
    /// character, the new one lies just past the text, and the window is only
    /// loosely well-formed afterwards.
    pub(crate) fn add_selection(&mut self, textbuffer_context: &TextbufferContext, filebuffer: &mut Filebuffer)
        requires
            old(self).wf(old(filebuffer)),
            textbuffer_context.wf(),
            old(self).sels().len() < usize::MAX / 8,
            old(self).adds_past_end(old(filebuffer).text()) ==> gap_scroll_fits(textbuffer_context, old(filebuffer),
                old(filebuffer).text().len() as usize, old(self).scroll(), old(self).lines_shown()),
        ensures
            !old(self).adds_past_end(old(filebuffer).text()) ==> final(self).wf(final(filebuffer)),
            final(self).wf_loose(final(filebuffer)),
            Filebuffer::logged_selection_changes(old(filebuffer), final(filebuffer), old(self).window()),
            final(self).selection_mode() == old(self).selection_mode(),
            final(self).padding_char() == old(self).padding_char(),
            final(self).horizontal() == old(self).horizontal(),
            final(self).lines_shown() == old(self).lines_shown(),
            final(self).window() == old(self).window(),
            ({
                let t = old(filebuffer).text();
                let added = selection_after(t, old(self).sels().last());
                if old(self).selection_mode() == SelectionMode::Word {
                    final(self).sels() == old(self).sels() && final(self).adding() == old(self).adding()
                } else if old(self).selection_mode() == SelectionMode::Character {
                    final(self).sels() == old(self).sels().push(added) && final(self).adding()
                } else {
                    final(self).sels() == old(self).sels().push(to_line_end(t, added)) && final(self).adding()
                }
            }),
            final(self).scroll() == scroll_after_gaps(textbuffer_context, old(filebuffer),
                final(self).sels().last().primary_index, old(self).scroll(), old(self).lines_shown()),
    {
        let ghost t = filebuffer.text();
        let last = self.selections.len() - 1;
        let buffer_index = self.selection_biggest_index(last) + 1;
        if !self.mode.is_word() {
            let offset = self.offset_from_index(filebuffer, buffer_index);
            proof {
                lemma_column_bound(t, buffer_index as int);
            }
            let new_selection = Selection::new(buffer_index, buffer_index, offset);
            self.add_selection_(filebuffer, new_selection);
            self.adding_selection = true;
            if buffer_index < filebuffer.length() {
                if self.mode.is_line() {
                    let ghost fb1 = *filebuffer;
                    let index = self.selections.len() - 1;
                    proof {
                        assert(selection_in(self.sels()[index as int], t.len() as int));
                        lemma_targets(t, buffer_index as int, 0);
                    }
                    self.reset_selection(filebuffer, index);
                    self.move_selection_to_end(filebuffer, index);
                    proof {
                        Filebuffer::lemma_logged_trans(old(filebuffer), &fb1, filebuffer, self.window());
                    }
                }
                proof {
                    assert forall|i: int| 0 <= i < self.sels().len() implies selection_in(#[trigger] self.sels()[i], t.len() as int) by {
                        if i < old(self).sels().len() {
                            assert(self.sels()[i] == old(self).sels()[i]);
                        }
                    }
                }
            } else {
                proof {
                    assert(rest_of_line(t, buffer_index as int, t.len() - 1) == 1);
                    assert(to_line_end(t, new_selection) == new_selection);
                }
            }
        } else {
            proof {
                Filebuffer::lemma_logged_refl(filebuffer, self.window());
            }
        }
        self.check_selection_gaps(textbuffer_context, filebuffer);
    }
    /// Appends a copy of the last selection and answers its index.
    fn duplicate_selection(&mut self, filebuffer: &mut Filebuffer) -> (new_index: usize)
        requires
            old(filebuffer).wf(),
            0 < old(self).sels().len() < usize::MAX,
        ensures
            new_index == old(self).sels().len(),
            final(self).sels() == old(self).sels().push(old(self).sels().last()),
            final(self).same_settings(old(self)),
            Filebuffer::logged_selection_changes(old(filebuffer), final(filebuffer), old(self).window()),
            final(self).synced() == final(filebuffer).history_position(),
    {
        let new_index = self.selections.len();
        let last = self.selections[new_index - 1];
        self.add_selection_(filebuffer, last);
        new_index
    }

    /// In character mode, adds as many selections as actions move, each a copy
    /// of the selection added before it (the first one of the last selection),
    /// one line up, and scrolls to the last one. In the other modes only the
    /// scroll is checked.
    pub(crate) fn duplicate_up(&mut self, textbuffer_context: &TextbufferContext, filebuffer: &mut Filebuffer)
        requires
            old(self).wf(old(filebuffer)),
            textbuffer_context.wf(),
            old(self).sels().len() * 2 <= usize::MAX / 8,
        ensures
            Textbuffer::kept(final(self), old(self), final(filebuffer), old(filebuffer)),
            final(self).sels() == if old(self).selection_mode() == SelectionMode::Character {
                duplicated(old(self).sels(), old(filebuffer).text(), false,
                    (old(self).sels().len() - old(self).first_moved()) as nat)
            } else {
                old(self).sels()
            },
            final(self).scroll() == scroll_after_gaps(textbuffer_context, old(filebuffer),
                final(self).sels().last().primary_index, old(self).scroll(), old(self).lines_shown()),
    {
        self.duplicate_vertically(textbuffer_context, filebuffer, false);
    }

    /// As `duplicate_up`, one line down.
    pub(crate) fn duplicate_down(&mut self, textbuffer_context: &TextbufferContext, filebuffer: &mut Filebuffer)
        requires
            old(self).wf(old(filebuffer)),
            textbuffer_context.wf(),
            old(self).sels().len() * 2 <= usize::MAX / 8,
        ensures
            Textbuffer::kept(final(self), old(self), final(filebuffer), old(filebuffer)),
            final(self).sels() == if old(self).selection_mode() == SelectionMode::Character {
                duplicated(old(self).sels(), old(filebuffer).text(), true,
                    (old(self).sels().len() - old(self).first_moved()) as nat)
            } else {
                old(self).sels()
            },
            final(self).scroll() == scroll_after_gaps(textbuffer_context, old(filebuffer),
                final(self).sels().last().primary_index, old(self).scroll(), old(self).lines_shown()),
    {
        self.duplicate_vertically(textbuffer_context, filebuffer, true);
    }

    /// The work of `duplicate_up` (`down` false) and `duplicate_down`.
    fn duplicate_vertically(&mut self, textbuffer_context: &TextbufferContext, filebuffer: &mut Filebuffer, down: bool)
        requires
            old(self).wf(old(filebuffer)),
            textbuffer_context.wf(),
            old(self).sels().len() * 2 <= usize::MAX / 8,
        ensures
            Textbuffer::kept(final(self), old(self), final(filebuffer), old(filebuffer)),
            final(self).sels() == if old(self).selection_mode() == SelectionMode::Character {
                duplicated(old(self).sels(), old(filebuffer).text(), down,
                    (old(self).sels().len() - old(self).first_moved()) as nat)
            } else {
                old(self).sels()
            },
            final(self).scroll() == scroll_after_gaps(textbuffer_context, old(filebuffer),
                final(self).sels().last().primary_index, old(self).scroll(), old(self).lines_shown()),
    {
        let ghost t = filebuffer.text();
        proof {
            Filebuffer::lemma_logged_refl(filebuffer, self.window());
        }
        if self.mode.is_character() {
            let count = self.selections.len();
            let start = self.selection_start();
            let mut index = start;
            while index < count
                invariant
                    start <= index <= count,
                    count == old(self).sels().len(),
                    start == old(self).first_moved(),
                    count * 2 <= usize::MAX / 8,
                    t == old(filebuffer).text(),
                    self.wf(filebuffer),
                    filebuffer.text() == t,
                    self.same_settings(old(self)),
                    old(filebuffer).wf(),
                    Filebuffer::logged_selection_changes(old(filebuffer), filebuffer, old(self).window()),
                    self.sels() == duplicated(old(self).sels(), t, down, (index - start) as nat),
                    self.sels().len() == count + index - start,
                decreases count - index,
            {
                let ghost fb0 = *filebuffer;
                let ghost last = self.sels().last();
                let new_index = self.duplicate_selection(filebuffer);
                let ghost fb1 = *filebuffer;
                proof {
                    assert(selection_in(self.sels()[new_index as int], t.len() as int));
                }
                if down {
                    self.move_selection_down(filebuffer, new_index);
                } else {
                    self.move_selection_up(filebuffer, new_index);
                }
                self.reset_selection(filebuffer, new_index);
                proof {
                    Filebuffer::lemma_logged_trans(old(filebuffer), &fb0, &fb1, self.window());
                    Filebuffer::lemma_logged_trans(old(filebuffer), &fb1, filebuffer, self.window());
                    lemma_targets(t, last.primary_index as int, last.offset as int);
                    let before = duplicated(old(self).sels(), t, down, (index - start) as nat);
                    assert(self.sels() =~= duplicated(old(self).sels(), t, down, (index + 1 - start) as nat));
                    assert forall|i: int| 0 <= i < self.sels().len() implies selection_in(#[trigger] self.sels()[i], t.len() as int) by {
                        if i < new_index {
                            assert(self.sels()[i] == before[i]);
                        }
                    }
                }
                index = index + 1;
            }
        }
        self.check_selection_gaps(textbuffer_context, filebuffer);
    }

    /// Drops every selection but the first, which is shrunk to the end of its
    /// line, and switches to character mode.
    pub fn select_last_character(&mut self, filebuffer: &mut Filebuffer)
        requires
            old(self).wf(old(filebuffer)),
        ensures
            final(self).wf(final(filebuffer)),
            Filebuffer::logged_selection_changes(old(filebuffer), final(filebuffer), old(self).window()),
            final(self).sels() == seq![motion_result(Motion::CharEnd, old(filebuffer), false, old(self).sels()[0])],
            final(self).selection_mode() == SelectionMode::Character,
            !final(self).adding(),
            final(self).padding_char() == old(self).padding_char(),
            final(self).scroll() == old(self).scroll(),
            final(self).horizontal() == old(self).horizontal(),
            final(self).lines_shown() == old(self).lines_shown(),
            final(self).window() == old(self).window(),
    {
        let ghost t = filebuffer.text();
        self.keep_first_selection(filebuffer);
        let ghost fb1 = *filebuffer;
        self.adding_selection = false;
        self.character_mode(filebuffer);
        let ghost fb2 = *filebuffer;
        proof {
            lemma_targets(t, self.sels()[0].primary_index as int, 0);
        }
        self.move_selection_to_end(filebuffer, 0);
        proof {
            lemma_column_bound(t, self.sels()[0].primary_index as int);
        }
        self.update_offset(filebuffer, 0);
        self.reset_selection(filebuffer, 0);
        proof {
            Filebuffer::lemma_logged_trans(old(filebuffer), &fb1, &fb2, self.window());
            Filebuffer::lemma_logged_trans(old(filebuffer), &fb2, filebuffer, self.window());
        }
    }

    /// Drops every selection but the first, puts its cursor at `jump_index`,
    /// shrinks it there, switches to character mode and scrolls to it.
    pub fn jump_to_index(&mut self, textbuffer_context: &TextbufferContext, filebuffer: &mut Filebuffer, jump_index: usize)
        requires
            old(self).wf(old(filebuffer)),
            textbuffer_context.wf(),
            jump_index < old(filebuffer).text().len(),
        ensures
            final(self).wf(final(filebuffer)),
            Filebuffer::logged_selection_changes(old(filebuffer), final(filebuffer), old(self).window()),
            final(self).sels() == seq![Selection {
                primary_index: jump_index,
                secondary_index: jump_index,
                offset: column(old(filebuffer).text(), jump_index as int) as usize,
            }],
            final(self).selection_mode() == SelectionMode::Character,
            !final(self).adding(),
            final(self).padding_char() == old(self).padding_char(),
            final(self).horizontal() == old(self).horizontal(),
            final(self).lines_shown() == old(self).lines_shown(),
            final(self).window() == old(self).window(),
            final(self).scroll() == scroll_after_gaps(textbuffer_context, old(filebuffer), jump_index, old(self).scroll(),
                old(self).lines_shown()),
    {
        let ghost t = filebuffer.text();
        self.keep_first_selection(filebuffer);
        let ghost fb1 = *filebuffer;
        self.adding_selection = false;
        self.character_mode(filebuffer);
        let ghost fb2 = *filebuffer;
        self.set_primary_index(filebuffer, 0, jump_index);
        let ghost fb3 = *filebuffer;
        proof {
            lemma_column_bound(t, jump_index as int);
        }
        self.update_offset(filebuffer, 0);
        self.reset_selection(filebuffer, 0);
        proof {
            Filebuffer::lemma_logged_trans(old(filebuffer), &fb1, &fb2, self.window());
            Filebuffer::lemma_logged_trans(old(filebuffer), &fb2, &fb3, self.window());
            Filebuffer::lemma_logged_trans(old(filebuffer), &fb3, filebuffer, self.window());
        }
        self.check_selection_gaps(textbuffer_context, filebuffer);
    }

    /// Drops every selection but the first, ends the adding of a selection,
    /// and scrolls to the one left.
    pub(crate) fn drop_selections(&mut self, filebuffer: &mut Filebuffer, textbuffer_context: &TextbufferContext)
        requires
            old(self).wf(old(filebuffer)),
            textbuffer_context.wf(),
        ensures
            final(self).wf(final(filebuffer)),
            Filebuffer::logged_selection_changes(old(filebuffer), final(filebuffer), old(self).window()),
            final(self).sels() == seq![old(self).sels()[0]],
            !final(self).adding(),
            final(self).selection_mode() == old(self).selection_mode(),
            final(self).padding_char() == old(self).padding_char(),
            final(self).horizontal() == old(self).horizontal(),
            final(self).lines_shown() == old(self).lines_shown(),
            final(self).window() == old(self).window(),
            final(self).scroll() == scroll_after_gaps(textbuffer_context, old(filebuffer), old(self).sels()[0].primary_index,
                old(self).scroll(), old(self).lines_shown()),
    {
        self.keep_first_selection(filebuffer);
        self.adding_selection = false;
        self.check_selection_gaps(textbuffer_context, filebuffer);
    }

    /// Back to one empty selection at the start of the text, in character
    /// mode, scrolled to the top, and in step with the buffer's history.
    pub fn reset(&mut self, filebuffer: &mut Filebuffer)
        requires
            old(filebuffer).wf(),
            0 < old(filebuffer).text().len() <= usize::MAX / 8,
            old(self).lines_shown() <= usize::MAX / 8,
        ensures
            final(self).wf(final(filebuffer)),
            Filebuffer::logged_selection_changes(old(filebuffer), final(filebuffer), old(self).window()),
            final(self).sels() == seq![Selection { primary_index: 0, secondary_index: 0, offset: 0 }],
            final(self).selection_mode() == SelectionMode::Character,
            !final(self).adding(),
            final(self).scroll() == 0,
            final(self).horizontal() == 0,
            final(self).synced() == final(filebuffer).history_position(),
            final(self).padding_char() == old(self).padding_char(),
            final(self).lines_shown() == old(self).lines_shown(),
            final(self).window() == old(self).window(),
    {
        self.vertical_scroll = 0;
        self.horizontal_scroll = 0;
        let mut selections: Vec<Selection> = Vec::new();
        selections.push(Selection::new(0, 0, 0));
        self.selections = selections;
        self.adding_selection = false;
        self.character_mode(filebuffer);
        self.history_index = filebuffer.get_history_index();
        assert(self.sels() =~= seq![Selection { primary_index: 0, secondary_index: 0, offset: 0 }]);
    }
    /// Replaces the text of the buffer, recording it, and resets the window.
    pub fn set_text(&mut self, filebuffer: &mut Filebuffer, text: Vec<char>)
        requires
            old(filebuffer).wf(),
            0 < text@.len() <= usize::MAX / 8,
            old(self).lines_shown() <= usize::MAX / 8,
        ensures
            final(self).wf(final(filebuffer)),
            final(filebuffer).text() == text@,
            final(filebuffer).tokens() == old(filebuffer).tokens(),
            final(filebuffer).actions().take(old(filebuffer).history_position() + 2) == old(filebuffer).actions().take(
                old(filebuffer).history_position()).push(ActionModel::RemoveText(old(self).window(), old(filebuffer).text(), 0)).push(
                ActionModel::InsertText(old(self).window(), text@, 0)),
            final(self).sels() == seq![Selection { primary_index: 0, secondary_index: 0, offset: 0 }],
            final(self).selection_mode() == SelectionMode::Character,
            !final(self).adding(),
            final(self).scroll() == 0,
            final(self).horizontal() == 0,
            final(self).synced() == final(filebuffer).history_position(),
            final(self).padding_char() == old(self).padding_char(),
            final(self).lines_shown() == old(self).lines_shown(),
            final(self).window() == old(self).window(),
    {
        let ghost t = text@;
        filebuffer.set_text(self.window_id, text);
        let ghost fb1 = *filebuffer;
        self.reset(filebuffer);
        proof {
            old(filebuffer).lemma_position();
            let h = old(filebuffer).history_position();
            assert(filebuffer.actions().take(h + 2) =~= fb1.actions().take(h + 2));
            assert(fb1.actions().take(h + 2) =~= fb1.actions());
        }
    }

    /// Replaces the text of the buffer without recording it, and resets the
    /// window.
    pub fn set_text_without_save(&mut self, filebuffer: &mut Filebuffer, text: Vec<char>)
        requires
            old(filebuffer).wf(),
            0 < text@.len() <= usize::MAX / 8,
            old(self).lines_shown() <= usize::MAX / 8,
        ensures
            final(self).wf(final(filebuffer)),
            final(filebuffer).text() == text@,
            final(filebuffer).tokens() == old(filebuffer).tokens(),
            final(filebuffer).actions().take(old(filebuffer).history_position()) == old(filebuffer).actions().take(
                old(filebuffer).history_position()),
            final(self).sels() == seq![Selection { primary_index: 0, secondary_index: 0, offset: 0 }],
            final(self).selection_mode() == SelectionMode::Character,
            !final(self).adding(),
            final(self).scroll() == 0,
            final(self).horizontal() == 0,
            final(self).synced() == final(filebuffer).history_position(),
            final(self).padding_char() == old(self).padding_char(),
            final(self).lines_shown() == old(self).lines_shown(),
            final(self).window() == old(self).window(),
    {
        filebuffer.set_text_without_save(text);
        let ghost fb1 = *filebuffer;
        self.reset(filebuffer);
        proof {
            fb1.lemma_position();
            let h = old(filebuffer).history_position();
            assert(filebuffer.actions().take(h) =~= fb1.actions().take(h));
        }
    }
}

} // verus!
