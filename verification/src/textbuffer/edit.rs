use vstd::prelude::*;

use super::motion::min;
use super::{selection_in, Textbuffer};
use crate::chars::slice;
use crate::filebuffer::{text_with_insert, text_with_removal, ActionModel, Filebuffer};
use crate::lines::{column, lemma_column_bound};
use crate::selection::Selection;

verus! {

broadcast use crate::textbuffer::Textbuffer::lemma_changed_one_chain;

/// `text`, ending with `padding`: the padding is appended where the text is
/// empty or ends with another character.
pub open spec fn padded(text: Seq<char>, padding: char) -> Seq<char> {
    if text.len() == 0 || text.last() != padding {
        text.push(padding)
    } else {
        text
    }
}

/// A selection after `offset` characters were taken out before it: a
/// selection whose cursor lies after `base` moves back by `offset` (not below
/// the start of the text); any other keeps its ends, each kept inside the
/// text, which ends at `last`.
pub open spec fn unadvanced(s: Selection, base: usize, offset: usize, last: int) -> Selection {
    if s.primary_index > base {
        Selection {
            primary_index: if s.primary_index >= offset { (s.primary_index - offset) as usize } else { 0 },
            secondary_index: if s.secondary_index >= offset { (s.secondary_index - offset) as usize } else { 0 },
            offset: s.offset,
        }
    } else {
        Selection {
            primary_index: min(s.primary_index as int, last) as usize,
            secondary_index: min(s.secondary_index as int, last) as usize,
            offset: s.offset,
        }
    }
}

/// A selection after `offset` characters were put in before it: a selection
/// whose cursor lies after `base` moves forward by `offset`.
pub open spec fn advanced(s: Selection, base: usize, offset: usize) -> Selection {
    if s.primary_index > base {
        Selection {
            primary_index: (s.primary_index + offset) as usize,
            secondary_index: (s.secondary_index + offset) as usize,
            offset: s.offset,
        }
    } else {
        s
    }
}

impl Textbuffer {
    /// Puts `text` in at `buffer_index` and records it.
    pub(crate) fn insert_text(&mut self, filebuffer: &mut Filebuffer, buffer_index: usize, text: Vec<char>)
        requires
            old(filebuffer).wf(),
            buffer_index <= old(filebuffer).text().len(),
            old(filebuffer).text().len() + text@.len() <= usize::MAX,
        ensures
            Filebuffer::recorded(old(filebuffer), final(filebuffer), ActionModel::InsertText(old(self).window(), text@, buffer_index),
                text_with_insert(old(filebuffer).text(), buffer_index as int, text@)),
            Filebuffer::logged_changes(old(filebuffer), final(filebuffer), old(self).window()),
            final(self).sels() == old(self).sels(),
            final(self).same_settings(old(self)),
            final(self).synced() == final(filebuffer).history_position(),
    {
        let ghost t = text@;
        self.history_index = filebuffer.insert_text(self.window_id, buffer_index, text, true);
        proof {
            Filebuffer::lemma_changes_record(old(filebuffer), filebuffer, ActionModel::InsertText(self.window_id, t, buffer_index),
                text_with_insert(old(filebuffer).text(), buffer_index as int, t), self.window_id);
        }
    }

    /// Appends the padding character where the text does not end with it.
    pub(crate) fn validate_text(&mut self, filebuffer: &mut Filebuffer)
        requires
            old(filebuffer).wf(),
            old(filebuffer).text().len() < usize::MAX / 8,
        ensures
            final(filebuffer).wf(),
            final(filebuffer).text() == padded(old(filebuffer).text(), old(self).padding_char()),
            Filebuffer::logged_changes(old(filebuffer), final(filebuffer), old(self).window()),
            final(self).sels() == old(self).sels(),
            final(self).same_settings(old(self)),
    {
        if filebuffer.is_empty() || filebuffer.last_character() != self.padding {
            let mut padding: Vec<char> = Vec::new();
            padding.push(self.padding);
            let length = filebuffer.length();
            self.insert_text(filebuffer, length, padding);
            proof {
                assert(text_with_insert(old(filebuffer).text(), length as int, seq![old(self).padding_char()])
                    =~= old(filebuffer).text().push(old(self).padding_char()));
            }
        } else {
            proof {
                Filebuffer::lemma_logged_refl(filebuffer, self.window());
            }
        }
    }

    /// Takes `length` characters out at `buffer_index`, records it, and keeps
    /// the text ending with the padding character.
    pub(crate) fn remove_text(&mut self, filebuffer: &mut Filebuffer, buffer_index: usize, length: usize)
        requires
            old(filebuffer).wf(),
            1 <= length,
            buffer_index + length <= old(filebuffer).text().len() <= usize::MAX / 8,
        ensures
            final(filebuffer).wf(),
            final(filebuffer).text() == padded(text_with_removal(old(filebuffer).text(), buffer_index as int, length as int),
                old(self).padding_char()),
            Filebuffer::logged_changes(old(filebuffer), final(filebuffer), old(self).window()),
            final(self).sels() == old(self).sels(),
            final(self).same_settings(old(self)),
    {
        self.history_index = filebuffer.remove_text(self.window_id, buffer_index, length, true);
        let ghost mid = *filebuffer;
        proof {
            Filebuffer::lemma_changes_record(old(filebuffer), filebuffer,
                ActionModel::RemoveText(self.window_id, old(filebuffer).text().subrange(buffer_index as int, buffer_index + length), buffer_index),
                text_with_removal(old(filebuffer).text(), buffer_index as int, length as int), self.window_id);
        }
        self.validate_text(filebuffer);
        proof {
            Filebuffer::lemma_changes_trans(old(filebuffer), &mid, filebuffer, self.window());
        }
    }

    /// The cursor of selection `index` is kept inside the text.
    pub(crate) fn clip_selection(&mut self, filebuffer: &mut Filebuffer, index: usize)
        requires
            index < old(self).sels().len(),
            old(filebuffer).wf(),
            old(filebuffer).text().len() > 0,
        ensures
            final(self).changed_one(old(self), final(filebuffer), old(filebuffer), index,
                old(self).sels()[index as int].with_primary(
                    min(old(self).sels()[index as int].primary_index as int, old(filebuffer).text().len() - 1) as usize,
                ),
            ),
    {
        let primary = self.selections[index].primary_index;
        let last = filebuffer.last_buffer_index();
        let clipped = if primary <= last { primary } else { last };
        self.set_primary_index(filebuffer, index, clipped);
    }

    /// Every selection whose cursor lies after the cursor of selection
    /// `reference_index` moves back by `offset`; the others are kept inside
    /// the text. Not recorded.
    pub(crate) fn unadvance_selections(&mut self, filebuffer: &Filebuffer, reference_index: usize, offset: usize)
        requires
            reference_index < old(self).sels().len(),
            filebuffer.text().len() > 0,
        ensures
            final(self).sels() == Seq::new(old(self).sels().len(), |i: int| unadvanced(old(self).sels()[i],
                old(self).sels()[reference_index as int].primary_index, offset, filebuffer.text().len() - 1)),
            final(self).same_settings(old(self)),
            final(self).synced() == old(self).synced(),
    {
        let base_index = self.selections[reference_index].primary_index;
        let last = filebuffer.last_buffer_index();
        let mut index: usize = 0;
        while index < self.selections.len()
            invariant
                index <= self.sels().len(),
                self.sels().len() == old(self).sels().len(),
                base_index == old(self).sels()[reference_index as int].primary_index,
                last == filebuffer.text().len() - 1,
                self.same_settings(old(self)),
                self.synced() == old(self).synced(),
                forall|i: int| 0 <= i < index ==> #[trigger] self.sels()[i] == unadvanced(old(self).sels()[i], base_index, offset, last as int),
                forall|i: int| index <= i < self.sels().len() ==> #[trigger] self.sels()[i] == old(self).sels()[i],
            decreases self.selections.len() - index,
        {
            let mut selection = self.selections[index];
            if selection.primary_index > base_index {
                selection.primary_index = if selection.primary_index >= offset { selection.primary_index - offset } else { 0 };
                selection.secondary_index = if selection.secondary_index >= offset { selection.secondary_index - offset } else { 0 };
            } else {
                if selection.primary_index > last {
                    selection.primary_index = last;
                }
                if selection.secondary_index > last {
                    selection.secondary_index = last;
                }
            }
            self.selections.set(index, selection);
            index = index + 1;
        }
        assert(self.sels() =~= Seq::new(old(self).sels().len(), |i: int| unadvanced(old(self).sels()[i], base_index, offset, last as int)));
    }

    /// Every selection whose cursor lies after the cursor of selection
    /// `reference_index` moves forward by `offset`. Not recorded.
    pub(crate) fn advance_selections(&mut self, filebuffer: &Filebuffer, reference_index: usize, offset: usize)
        requires
            reference_index < old(self).sels().len(),
            offset <= usize::MAX / 4,
            forall|i: int| 0 <= i < old(self).sels().len() ==> (#[trigger] old(self).sels()[i]).primary_index <= usize::MAX / 4
                && old(self).sels()[i].secondary_index <= usize::MAX / 4,
        ensures
            final(self).sels() == Seq::new(old(self).sels().len(), |i: int| advanced(old(self).sels()[i],
                old(self).sels()[reference_index as int].primary_index, offset)),
            final(self).same_settings(old(self)),
            final(self).synced() == old(self).synced(),
    {
        let base_index = self.selections[reference_index].primary_index;
        let mut index: usize = 0;
        while index < self.selections.len()
            invariant
                index <= self.sels().len(),
                self.sels().len() == old(self).sels().len(),
                base_index == old(self).sels()[reference_index as int].primary_index,
                offset <= usize::MAX / 4,
                forall|i: int| 0 <= i < old(self).sels().len() ==> (#[trigger] old(self).sels()[i]).primary_index <= usize::MAX / 4
                    && old(self).sels()[i].secondary_index <= usize::MAX / 4,
                self.same_settings(old(self)),
                self.synced() == old(self).synced(),
                forall|i: int| 0 <= i < index ==> #[trigger] self.sels()[i] == advanced(old(self).sels()[i], base_index, offset),
                forall|i: int| index <= i < self.sels().len() ==> #[trigger] self.sels()[i] == old(self).sels()[i],
            decreases self.selections.len() - index,
        {
            let mut selection = self.selections[index];
            if selection.primary_index > base_index {
                selection.primary_index = selection.primary_index + offset;
                selection.secondary_index = selection.secondary_index + offset;
            }
            self.selections.set(index, selection);
            index = index + 1;
        }
        assert(self.sels() =~= Seq::new(old(self).sels().len(), |i: int| advanced(old(self).sels()[i], base_index, offset)));
    }

    /// The selected characters of selection `index`.
    pub(crate) fn get_selected_text(&self, filebuffer: &Filebuffer, index: usize) -> (r: Vec<char>)
        requires
            index < self.sels().len(),
            selection_in(self.sels()[index as int], filebuffer.text().len() as int),
        ensures
            r@ == filebuffer.text().subrange(self.sels()[index as int].first() as int, self.sels()[index as int].last() + 1),
    {
        let start = self.selection_smallest_index(index);
        let end = self.selection_biggest_index(index);
        let text = filebuffer.get_text();
        slice(&text, start, end)
    }

    /// Selection `index` gets `length` characters from its first one, its
    /// direction kept.
    pub(crate) fn set_selection_length(&mut self, filebuffer: &mut Filebuffer, index: usize, length: usize)
        requires
            index < old(self).sels().len(),
            old(filebuffer).wf(),
            1 <= length,
            old(self).sels()[index as int].first() + length <= usize::MAX,
        ensures
            final(self).changed_one(old(self), final(filebuffer), old(filebuffer), index,
                if old(self).sels()[index as int].primary_index < old(self).sels()[index as int].secondary_index {
                    old(self).sels()[index as int].with_secondary((old(self).sels()[index as int].first() + length - 1) as usize)
                } else {
                    old(self).sels()[index as int].with_primary((old(self).sels()[index as int].first() + length - 1) as usize)
                },
            ),
    {
        let last_index = self.selection_smallest_index(index) + length - 1;
        if self.is_selection_inverted(index) {
            self.set_secondary_index(filebuffer, index, last_index);
        } else {
            self.set_primary_index(filebuffer, index, last_index);
        }
    }

    /// Selection `index` gives up its last character.
    pub(crate) fn selection_exclude_last(&mut self, filebuffer: &mut Filebuffer, index: usize)
        requires
            index < old(self).sels().len(),
            old(filebuffer).wf(),
            old(self).sels()[index as int].last() > 0,
        ensures
            final(self).changed_one(old(self), final(filebuffer), old(filebuffer), index,
                if old(self).sels()[index as int].primary_index < old(self).sels()[index as int].secondary_index {
                    old(self).sels()[index as int].with_secondary((old(self).sels()[index as int].last() - 1) as usize)
                } else {
                    old(self).sels()[index as int].with_primary((old(self).sels()[index as int].last() - 1) as usize)
                },
            ),
    {
        let new_last_index = self.selection_biggest_index(index) - 1;
        if self.is_selection_inverted(index) {
            self.set_secondary_index(filebuffer, index, new_last_index);
        } else {
            self.set_primary_index(filebuffer, index, new_last_index);
        }
    }
}

/// The text after the characters of selection `s` were deleted.
pub open spec fn deleted_text(text: Seq<char>, s: Selection, padding: char) -> Seq<char> {
    padded(text_with_removal(text, s.first() as int, s.last() - s.first() + 1), padding)
}

/// The selections after selection `index`, with first character at `from`,
/// lost `length` characters: it shrinks to one character at `from` (kept inside
/// the new text `text`), with its offset the column there, and the others move
/// as `unadvanced` says.
pub open spec fn collapsed_after_removal(sels: Seq<Selection>, index: int, from: int, length: usize, text: Seq<char>) -> Seq<Selection> {
    let p = min(from, text.len() - 1) as usize;
    let s_mid = Selection { primary_index: p, secondary_index: p, offset: column(text, p as int) as usize };
    Seq::new(sels.len(), |i: int| unadvanced(if i == index { s_mid } else { sels[i] }, p, length, text.len() - 1))
}

impl Textbuffer {
    /// Deletes the characters of selection `index`, which shrinks to one
    /// character where they began.
    pub(crate) fn delete_selected(&mut self, filebuffer: &mut Filebuffer, index: usize)
        requires
            old(self).wf(old(filebuffer)),
            index < old(self).sels().len(),
        ensures
            final(self).wf(final(filebuffer)),
            Filebuffer::logged_changes(old(filebuffer), final(filebuffer), old(self).window()),
            final(self).same_settings(old(self)),
            final(filebuffer).text() == deleted_text(old(filebuffer).text(), old(self).sels()[index as int], old(self).padding_char()),
            final(self).sels() == collapsed_after_removal(old(self).sels(), index as int, old(self).sels()[index as int].first() as int,
                (old(self).sels()[index as int].last() - old(self).sels()[index as int].first() + 1) as usize,
                final(filebuffer).text()),
    {
        let ghost s0 = self.sels()[index as int];
        let ghost t = filebuffer.text();
        let buffer_index = self.selection_smallest_index(index);
        let selection_length = self.selection_length(index);
        self.remove_text(filebuffer, buffer_index, selection_length);
        let ghost fb1 = *filebuffer;
        let ghost t1 = filebuffer.text();
        self.move_selection_to_first(filebuffer, index);
        self.clip_selection(filebuffer, index);
        proof {
            lemma_column_bound(t1, self.sels()[index as int].primary_index as int);
        }
        self.update_offset(filebuffer, index);
        self.reset_selection(filebuffer, index);
        let ghost fb2 = *filebuffer;
        let ghost mid = self.sels();
        proof {
            Filebuffer::lemma_changes_from_selection_changes(&fb1, &fb2, self.window());
            Filebuffer::lemma_changes_trans(old(filebuffer), &fb1, &fb2, self.window());
            let p = min(s0.first() as int, t1.len() - 1) as usize;
            assert(mid[index as int] == Selection { primary_index: p, secondary_index: p, offset: column(t1, p as int) as usize });
        }
        self.unadvance_selections(filebuffer, index, selection_length);
        proof {
            let n = old(self).sels().len();
            let expect = collapsed_after_removal(old(self).sels(), index as int, s0.first() as int, selection_length, t1);
            assert(self.sels() =~= expect);
            assert forall|i: int| 0 <= i < n implies selection_in(#[trigger] self.sels()[i], t1.len() as int) by {
                assert(selection_in(old(self).sels()[i], t.len() as int));
            }
        }
    }

    /// Deletes the character under the cursor of selection `index`, which
    /// shrinks to its cursor.
    pub(crate) fn delete_selected_primary(&mut self, filebuffer: &mut Filebuffer, index: usize)
        requires
            old(self).wf(old(filebuffer)),
            index < old(self).sels().len(),
        ensures
            final(self).wf(final(filebuffer)),
            Filebuffer::logged_changes(old(filebuffer), final(filebuffer), old(self).window()),
            final(self).same_settings(old(self)),
            final(filebuffer).text() == padded(text_with_removal(old(filebuffer).text(),
                old(self).sels()[index as int].primary_index as int, 1), old(self).padding_char()),
            final(self).sels() == collapsed_after_removal(old(self).sels(), index as int,
                old(self).sels()[index as int].primary_index as int, 1, final(filebuffer).text()),
    {
        let ghost s0 = self.sels()[index as int];
        let ghost t = filebuffer.text();
        let buffer_index = self.selections[index].primary_index;
        self.remove_text(filebuffer, buffer_index, 1);
        let ghost fb1 = *filebuffer;
        let ghost t1 = filebuffer.text();
        self.clip_selection(filebuffer, index);
        proof {
            lemma_column_bound(t1, self.sels()[index as int].primary_index as int);
        }
        self.update_offset(filebuffer, index);
        self.reset_selection(filebuffer, index);
        let ghost fb2 = *filebuffer;
        let ghost mid = self.sels();
        proof {
            Filebuffer::lemma_changes_from_selection_changes(&fb1, &fb2, self.window());
            Filebuffer::lemma_changes_trans(old(filebuffer), &fb1, &fb2, self.window());
        }
        self.unadvance_selections(filebuffer, index, 1);
        proof {
            let n = old(self).sels().len();
            let expect = collapsed_after_removal(old(self).sels(), index as int, s0.primary_index as int, 1, t1);
            assert(self.sels() =~= expect);
            assert forall|i: int| 0 <= i < n implies selection_in(#[trigger] self.sels()[i], t1.len() as int) by {
                assert(selection_in(old(self).sels()[i], t.len() as int));
            }
        }
    }
}

/// The selections and text after the characters of selection `index` were
/// replaced by `new_text`: nothing happens where they already equal it;
/// otherwise they are taken out (the text kept ending with `padding`), the new
/// ones put in at the same place, and the other selections moved by the
/// difference in length.
#[verifier::opaque]
pub open spec fn replaced(sels: Seq<Selection>, text: Seq<char>, index: int, new_text: Seq<char>, padding: char) -> (Seq<Selection>, Seq<char>) {
    let s = sels[index];
    let current_length = (s.last() - s.first() + 1) as usize;
    let at = s.first() as int;
    if text.subrange(at, at + current_length) == new_text {
        (sels, text)
    } else {
        let t2 = text_with_insert(padded(text_with_removal(text, at, current_length as int), padding), at, new_text);
        if current_length == new_text.len() {
            (sels, t2)
        } else if current_length > new_text.len() {
            (Seq::new(sels.len(), |j: int| unadvanced(sels[j], s.primary_index, (current_length - new_text.len()) as usize, t2.len() - 1)), t2)
        } else {
            (Seq::new(sels.len(), |j: int| advanced(sels[j], s.primary_index, (new_text.len() - current_length) as usize)), t2)
        }
    }
}

/// After a replacement every selection still lies inside the text, which grew
/// by at most the difference in length.
pub proof fn lemma_replaced_in(sels: Seq<Selection>, text: Seq<char>, index: int, new_text: Seq<char>, padding: char)
    requires
        0 <= index < sels.len(),
        1 <= new_text.len(),
        text.len() <= usize::MAX,
        forall|i: int| 0 <= i < sels.len() ==> selection_in(#[trigger] sels[i], text.len() as int),
    ensures
        ({
            let r = replaced(sels, text, index, new_text, padding);
            &&& forall|i: int| 0 <= i < r.0.len() ==> selection_in(#[trigger] r.0[i], r.1.len() as int)
            &&& r.0.len() == sels.len()
            &&& r.1.len() + (sels[index].last() - sels[index].first() + 1) <= text.len() + new_text.len() + 1
            &&& r.1.len() >= 1
            &&& r.0[index].first() == sels[index].first()
            &&& sels[index].first() + new_text.len() <= r.1.len()
        }),
{
    let s = sels[index];
    let k = (s.last() - s.first() + 1) as usize;
    let at = s.first() as int;
    reveal(replaced);
    let r = replaced(sels, text, index, new_text, padding);
    assert(selection_in(s, text.len() as int));
    if text.subrange(at, at + k) == new_text {
        assert(text.subrange(at, at + k).len() == k);
        assert(r.1.len() == text.len());
    } else {
        let t1 = padded(text_with_removal(text, at, k as int), padding);
        let t2 = text_with_insert(t1, at, new_text);
        assert(t1.len() >= text.len() - k);
        assert(t1.len() <= text.len() - k + 1);
        assert(t2.len() == t1.len() + new_text.len());
        assert forall|i: int| 0 <= i < r.0.len() implies selection_in(#[trigger] r.0[i], r.1.len() as int) by {
            assert(selection_in(sels[i], text.len() as int));
        }
        assert(r.1 == t2);
        assert(r.0.len() == sels.len());
        assert(r.1.len() >= 1);
    }
}

impl Textbuffer {
    /// Replaces the characters of selection `index` by `new_text`.
    pub(crate) fn replace_selected_text(&mut self, filebuffer: &mut Filebuffer, index: usize, new_text: Vec<char>)
        requires
            old(self).wf(old(filebuffer)),
            index < old(self).sels().len(),
            1 <= new_text@.len(),
            old(filebuffer).text().len() + new_text@.len() <= usize::MAX / 8,
        ensures
            Filebuffer::logged_changes(old(filebuffer), final(filebuffer), old(self).window()),
            final(self).same_settings(old(self)),
            (final(self).sels(), final(filebuffer).text()) == replaced(old(self).sels(), old(filebuffer).text(), index as int,
                new_text@, old(self).padding_char()),
            0 < final(filebuffer).text().len() <= usize::MAX / 8,
            final(filebuffer).text().len() + (old(self).sels()[index as int].last() - old(self).sels()[index as int].first() + 1)
                <= old(filebuffer).text().len() + new_text@.len() + 1,
            final(self).all_in(final(filebuffer).text().len() as int),
            final(self).sels().len() == old(self).sels().len(),
            final(self).sels()[index as int].first() == old(self).sels()[index as int].first(),
            old(self).sels()[index as int].first() + new_text@.len() <= final(filebuffer).text().len(),
    {
        let ghost t = filebuffer.text();
        let ghost s = self.sels()[index as int];
        proof {
            lemma_replaced_in(self.sels(), t, index as int, new_text@, self.padding_char());
            reveal(replaced);
        }
        let current_length = self.selection_length(index);
        let new_length = new_text.len();
        let current_index = self.selection_smallest_index(index);
        let text = filebuffer.get_text();
        let current_text = slice(&text, current_index, current_index + current_length - 1);
        let mut same = current_text.len() == new_text.len();
        let mut k: usize = 0;
        while same && k < new_text.len()
            invariant
                current_text@.len() == current_length,
                same ==> current_text@.len() == new_text@.len(),
                k <= new_text@.len(),
                same ==> forall|j: int| 0 <= j < k ==> current_text@[j] == new_text@[j],
                !same ==> current_text@ != new_text@,
            decreases new_text.len() - k + if same { 1int } else { 0int },
        {
            if current_text[k] != new_text[k] {
                same = false;
                assert(current_text@[k as int] != new_text@[k as int]);
            } else {
                k = k + 1;
            }
        }
        if same {
            assert(current_text@ =~= new_text@);
            proof {
                Filebuffer::lemma_logged_refl(filebuffer, self.window());
            }
            return;
        }
        self.remove_text(filebuffer, current_index, current_length);
        let ghost fb1 = *filebuffer;
        self.insert_text(filebuffer, current_index, new_text);
        proof {
            Filebuffer::lemma_changes_trans(old(filebuffer), &fb1, filebuffer, self.window());
        }
        if current_length == new_length {
            return;
        }
        if current_length > new_length {
            self.unadvance_selections(filebuffer, index, current_length - new_length);
        } else {
            proof {
                assert forall|i: int| 0 <= i < self.sels().len() implies (#[trigger] self.sels()[i]).primary_index <= usize::MAX / 4
                    && self.sels()[i].secondary_index <= usize::MAX / 4 by {
                    assert(selection_in(old(self).sels()[i], t.len() as int));
                }
            }
            self.advance_selections(filebuffer, index, new_length - current_length);
        }
    }
}

} // verus!
