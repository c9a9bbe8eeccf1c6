use vstd::prelude::*;

use super::scroll::scroll_after_gaps;
use super::{selection_in, Textbuffer};
use crate::chars::{is_positions, matches_at, position};
use crate::context::TextbufferContext;
use crate::filebuffer::Filebuffer;
use crate::lines::{column, lemma_column_bound};
use crate::selection::{Selection, SelectionMode};

verus! {

/// `p` is where `pattern` occurs next after position `from`, going on from
/// the start of the text past its end.
pub open spec fn is_next_occurrence(text: Seq<char>, pattern: Seq<char>, from: int, p: int) -> bool {
    &&& matches_at(text, pattern, p)
    &&& p != from
    &&& forall|i: int|
        #[trigger] matches_at(text, pattern, i) && i != from ==> if p > from {
            !(from < i < p)
        } else {
            i <= from && p <= i
        }
}

/// `pattern` occurs somewhere other than at `from`.
pub open spec fn occurs_elsewhere(text: Seq<char>, pattern: Seq<char>, from: int) -> bool {
    exists|p: int| #[trigger] matches_at(text, pattern, p) && p != from
}

/// Where `pattern` occurs next after `from`.
pub open spec fn next_occurrence(text: Seq<char>, pattern: Seq<char>, from: int) -> int {
    choose|p: int| is_next_occurrence(text, pattern, from, p)
}

/// There is one next occurrence at most.
pub proof fn lemma_next_occurrence_unique(text: Seq<char>, pattern: Seq<char>, from: int, p: int, q: int)
    requires
        is_next_occurrence(text, pattern, from, p),
        is_next_occurrence(text, pattern, from, q),
    ensures
        p == q,
{
    assert(matches_at(text, pattern, p) && matches_at(text, pattern, q));
}

/// The characters selection `s` covers.
pub open spec fn selected_text(text: Seq<char>, s: Selection) -> Seq<char> {
    text.subrange(s.first() as int, s.last() + 1)
}

/// Some selection covers `from ..= to`.
pub open spec fn covered(sels: Seq<Selection>, from: int, to: int) -> bool {
    exists|j: int| 0 <= j < sels.len() && from >= (#[trigger] sels[j]).first() && to <= sels[j].last()
}

/// What selecting the next occurrence does for selection `index`: a selection
/// over the next occurrence of its text, its cursor at the start, is added
/// where no selection covers it yet.
pub open spec fn next_selected(sels: Seq<Selection>, text: Seq<char>, index: int) -> Seq<Selection> {
    let s = sels[index];
    let pattern = selected_text(text, s);
    let p = next_occurrence(text, pattern, s.first() as int);
    let q = p + pattern.len() - 1;
    if covered(sels, p, q) {
        sels
    } else {
        sels.push(Selection { primary_index: p as usize, secondary_index: q as usize, offset: column(text, p) as usize })
    }
}

/// Selecting the next occurrence done for the selections `start..end`.
pub open spec fn all_next_selected(sels: Seq<Selection>, text: Seq<char>, start: int, end: int) -> Seq<Selection>
    decreases end - start,
{
    if end <= start {
        sels
    } else {
        next_selected(all_next_selected(sels, text, start, end - 1), text, end - 1)
    }
}

/// The positions `matches`, turned round so that those after `at` come first
/// and then those before it, `at` itself left out.
pub open spec fn turned_at(matches: Seq<usize>, at: usize) -> Seq<usize> {
    let k = choose|k: int| 0 <= k < matches.len() && matches[k] == at;
    matches.skip(k + 1) + matches.take(k)
}

/// Turned round at one of its occurrences, the full list of the occurrences of
/// a pattern starts with the next one.
pub proof fn lemma_turned_next(text: Seq<char>, pattern: Seq<char>, positions: Seq<usize>, at: usize)
    requires
        is_positions(text, pattern, positions),
        matches_at(text, pattern, at as int),
        occurs_elsewhere(text, pattern, at as int),
    ensures
        turned_at(positions, at).len() >= 1,
        is_next_occurrence(text, pattern, at as int, turned_at(positions, at)[0] as int),
        positions.contains(at),
{
    let k = choose|k: int| 0 <= k < positions.len() && positions[k] == at;
    assert(exists|k: int| 0 <= k < positions.len() && positions[k] == at);
    let p = choose|p: int| #[trigger] matches_at(text, pattern, p) && p != at;
    let m = choose|m: int| 0 <= m < positions.len() && positions[m] == p;
    assert(m != k);
    let r = turned_at(positions, at);
    assert(positions[k] == at);
    if k + 1 < positions.len() {
        assert(r[0] == positions[k + 1]);
        assert forall|i: int| #[trigger] matches_at(text, pattern, i) && i != at implies !(at < i < r[0]) by {
            let mi = choose|mi: int| 0 <= mi < positions.len() && positions[mi] == i;
            if at < i {
                if mi <= k {
                    if mi < k {
                        assert(positions[mi] < positions[k]);
                    }
                }
                assert(mi > k);
                if mi > k + 1 {
                    assert(positions[k + 1] < positions[mi]);
                }
            }
        }
    } else {
        assert(k >= 1) by {
            if k == 0 {
                assert(m > 0);
                assert(m < positions.len());
            }
        }
        assert(r[0] == positions[0]);
        assert(positions[0] < positions[k]);
        assert forall|i: int| #[trigger] matches_at(text, pattern, i) && i != at implies i <= at && r[0] <= i by {
            let mi = choose|mi: int| 0 <= mi < positions.len() && positions[mi] == i;
            if mi < k {
                assert(positions[mi] < positions[k]);
            }
            if mi > 0 {
                assert(positions[0] < positions[mi]);
            }
        }
    }
}

impl Textbuffer {
    /// Turns `matches` round so that the positions after the first character
    /// of selection `index` come first, and leaves that one out.
    pub(crate) fn sort_selection_matches(&self, index: usize, matches: &mut Vec<usize>)
        requires
            index < self.sels().len(),
            old(matches)@.contains(self.sels()[index as int].first()),
            forall|k: int, l: int| 0 <= k < l < old(matches)@.len() ==> old(matches)@[k] < old(matches)@[l],
        ensures
            final(matches)@ == turned_at(old(matches)@, self.sels()[index as int].first()),
    {
        let ghost orig = matches@;
        let selection_start = self.selection_smallest_index(index);
        let ghost k0 = choose|k: int| 0 <= k < orig.len() && orig[k] == selection_start;
        let count = matches.len();
        let mut turn: usize = 0;
        while turn < count
            invariant
                orig == old(matches)@,
                index < self.sels().len(),
                selection_start == self.sels()[index as int].first(),
                count == orig.len(),
                0 <= k0 < orig.len(),
                orig[k0] == selection_start,
                turn <= k0,
                matches@ == orig.skip(turn as int) + orig.take(turn as int),
                forall|k: int, l: int| 0 <= k < l < orig.len() ==> orig[k] < orig[l],
            decreases count - turn,
        {
            if matches[0] == selection_start {
                matches.remove(0);
                proof {
                    assert(orig[turn as int] == selection_start);
                    if turn < k0 {
                        assert(orig[turn as int] < orig[k0]);
                    }
                    assert(turn == k0);
                    assert(matches@ =~= orig.skip(k0 + 1) + orig.take(k0));
                    assert(turned_at(orig, selection_start) == orig.skip(k0 + 1) + orig.take(k0));
                }
                return;
            }
            let first = matches.remove(0);
            matches.push(first);
            proof {
                assert(turn != k0);
                assert(matches@ =~= orig.skip(turn + 1) + orig.take(turn + 1));
            }
            turn = turn + 1;
        }
        proof {
            assert(false);
        }
    }
}

impl Textbuffer {
    /// Every selection that actions move has text that occurs elsewhere too.
    pub open spec fn can_select_next(&self, text: Seq<char>) -> bool {
        forall|i: int|
            self.first_moved() <= i < self.sels().len() ==> occurs_elsewhere(text, selected_text(text, #[trigger] self.sels()[i]),
                self.sels()[i].first() as int)
    }

    /// In character mode, selects for each moved selection the next occurrence
    /// of its text where no selection covers it yet, then scrolls to the last
    /// selection. In the other modes only the scroll is checked.
    pub(crate) fn select_next(&mut self, textbuffer_context: &TextbufferContext, filebuffer: &mut Filebuffer)
        requires
            old(self).wf(old(filebuffer)),
            textbuffer_context.wf(),
            old(self).sels().len() * 2 <= usize::MAX / 8,
            old(self).selection_mode() == SelectionMode::Character ==> old(self).can_select_next(old(filebuffer).text()),
        ensures
            Textbuffer::kept(final(self), old(self), final(filebuffer), old(filebuffer)),
            final(self).sels() == if old(self).selection_mode() == SelectionMode::Character {
                all_next_selected(old(self).sels(), old(filebuffer).text(), old(self).first_moved(), old(self).sels().len() as int)
            } else {
                old(self).sels()
            },
            final(self).scroll() == scroll_after_gaps(textbuffer_context, old(filebuffer),
                final(self).sels().last().primary_index, old(self).scroll(), old(self).lines_shown()),
    {
        let ghost t = filebuffer.text();
        proof {
            Filebuffer::lemma_logged_refl(filebuffer, self.window());
        }
        if self.mode.is_character() {
            let count = self.selections.len();
            let start = self.selection_start();
            let text = filebuffer.get_text();
            let mut index = start;
            while index < count
                invariant
                    start <= index <= count,
                    count == old(self).sels().len(),
                    start == old(self).first_moved(),
                    count * 2 <= usize::MAX / 8,
                    t == old(filebuffer).text(),
                    text@ == t,
                    self.wf(filebuffer),
                    filebuffer.text() == t,
                    self.same_settings(old(self)),
                    old(filebuffer).wf(),
                    old(self).can_select_next(t),
                    Filebuffer::logged_selection_changes(old(filebuffer), filebuffer, old(self).window()),
                    self.sels() == all_next_selected(old(self).sels(), t, start as int, index as int),
                    count <= self.sels().len() <= count + index - start,
                    self.sels().take(count as int) == old(self).sels(),
                decreases count - index,
            {
                let ghost before = self.sels();
                let ghost fb0 = *filebuffer;
                let ghost s = self.sels()[index as int];
                assert(s == old(self).sels()[index as int]);
                let selection_length = self.selection_length(index);
                let selection_buffer = self.get_selected_text(filebuffer, index);
                let mut selection_matches = position(&text, &selection_buffer);
                proof {
                    assert(selection_buffer@ == selected_text(t, s));
                    assert(matches_at(t, selection_buffer@, s.first() as int));
                    lemma_turned_next(t, selection_buffer@, selection_matches@, s.first());
                }
                self.sort_selection_matches(index, &mut selection_matches);
                let primary_index = selection_matches[0];
                proof {
                    lemma_next_occurrence_unique(t, selection_buffer@, s.first() as int, primary_index as int,
                        next_occurrence(t, selection_buffer@, s.first() as int));
                }
                let secondary_index = primary_index + selection_length - 1;
                if !self.index_has_selection(primary_index, secondary_index) {
                    let offset = self.offset_from_index(filebuffer, primary_index);
                    proof {
                        lemma_column_bound(t, primary_index as int);
                    }
                    self.add_selection_(filebuffer, Selection::new(primary_index, secondary_index, offset));
                    proof {
                        Filebuffer::lemma_logged_trans(old(filebuffer), &fb0, filebuffer, self.window());
                        assert forall|i: int| 0 <= i < self.sels().len() implies selection_in(#[trigger] self.sels()[i],
                            t.len() as int) by {
                            if i < before.len() {
                                assert(self.sels()[i] == before[i]);
                            }
                        }
                    }
                }
                proof {
                    assert(self.sels().take(count as int) =~= old(self).sels());
                }
                index = index + 1;
            }
        }
        self.check_selection_gaps(textbuffer_context, filebuffer);
    }
}

impl Textbuffer {
    /// Drops every selection and ends the adding of one.
    fn clear_selections(&mut self)
        ensures
            final(self).sels() == Seq::<Selection>::empty(),
            !final(self).adding(),
            final(self).selection_mode() == old(self).selection_mode(),
            final(self).scroll() == old(self).scroll(),
            final(self).synced() == old(self).synced(),
    {
        self.selections.clear();
        self.adding_selection = false;
    }

    /// Puts a selection on every occurrence of `string` in the text, from its
    /// first character to the character after it, the offset the column of
    /// the first; the other selections are dropped. Nothing is recorded.
    pub(crate) fn set_selections_from_string(&mut self, filebuffer: &Filebuffer, string: &Vec<char>)
        requires
            filebuffer.text().len() < usize::MAX,
        ensures
            !final(self).adding(),
            final(self).selection_mode() == old(self).selection_mode(),
            final(self).scroll() == old(self).scroll(),
            final(self).synced() == old(self).synced(),
            exists|positions: Seq<usize>| {
                &&& is_positions(filebuffer.text(), string@, positions)
                &&& final(self).sels() == Seq::new(positions.len(), |k: int| Selection {
                    primary_index: positions[k],
                    secondary_index: (positions[k] + string@.len()) as usize,
                    offset: column(filebuffer.text(), positions[k] as int) as usize,
                })
            },
    {
        self.clear_selections();
        let text = filebuffer.get_text();
        let positions = position(&text, string);
        let length = string.len();
        let mut k: usize = 0;
        while k < positions.len()
            invariant
                k <= positions@.len(),
                text@ == filebuffer.text(),
                length == string@.len(),
                text@.len() < usize::MAX,
                is_positions(text@, string@, positions@),
                !self.adding(),
                self.selection_mode() == old(self).selection_mode(),
                self.scroll() == old(self).scroll(),
                self.synced() == old(self).synced(),
                self.sels() == Seq::new(k as nat, |j: int| Selection {
                    primary_index: positions@[j],
                    secondary_index: (positions@[j] + string@.len()) as usize,
                    offset: column(text@, positions@[j] as int) as usize,
                }),
            decreases positions.len() - k,
        {
            let index = positions[k];
            proof {
                assert(matches_at(text@, string@, positions@[k as int] as int));
                lemma_column_bound(text@, index as int);
            }
            let offset = self.offset_from_index(filebuffer, index);
            self.selections.push(Selection::new(index, index + length, offset));
            k = k + 1;
            proof {
                assert(self.sels() =~= Seq::new(k as nat, |j: int| Selection {
                    primary_index: positions@[j],
                    secondary_index: (positions@[j] + string@.len()) as usize,
                    offset: column(text@, positions@[j] as int) as usize,
                }));
            }
        }
    }
}

impl Textbuffer {
    /// Whether selecting the next occurrence can go ahead: outside character
    /// mode always, in it where the text of every moved selection occurs
    /// elsewhere too.
    pub fn select_next_possible(&self, filebuffer: &Filebuffer) -> (r: bool)
        requires
            self.wf(filebuffer),
        ensures
            r == (self.selection_mode() != SelectionMode::Character || self.can_select_next(filebuffer.text())),
    {
        if !self.mode.is_character() {
            return true;
        }
        let text = filebuffer.get_text();
        let start = self.selection_start();
        let mut index = start;
        while index < self.selections.len()
            invariant
                start == self.first_moved(),
                self.selection_mode() == SelectionMode::Character,
                start <= index <= self.sels().len(),
                text@ == filebuffer.text(),
                self.wf(filebuffer),
                forall|i: int| start <= i < index ==> occurs_elsewhere(text@, selected_text(text@, #[trigger] self.sels()[i]),
                    self.sels()[i].first() as int),
            decreases self.sels().len() - index,
        {
            let selected = self.get_selected_text(filebuffer, index);
            let matches = position(&text, &selected);
            let first = self.selection_smallest_index(index);
            let mut found = false;
            let mut k: usize = 0;
            while k < matches.len()
                invariant
                    k <= matches@.len(),
                    is_positions(text@, selected@, matches@),
                    found ==> occurs_elsewhere(text@, selected@, first as int),
                    !found ==> forall|m: int| 0 <= m < k ==> matches@[m] == first,
                decreases matches.len() - k,
            {
                if matches[k] != first {
                    assert(matches_at(text@, selected@, matches@[k as int] as int));
                    found = true;
                }
                k = k + 1;
            }
            if !found {
                proof {
                    assert forall|p: int| #[trigger] matches_at(text@, selected@, p) implies p == first by {
                        let m = choose|m: int| 0 <= m < matches@.len() && matches@[m] == p;
                    }
                    let ii = index as int;
                    assert(selected@ == selected_text(text@, self.sels()[ii]));
                    assert(!occurs_elsewhere(text@, selected_text(text@, self.sels()[ii]), self.sels()[ii].first() as int));
                    assert(!self.can_select_next(filebuffer.text()));
                }
                return false;
            }
            index = index + 1;
        }
        true
    }
}

} // verus!
