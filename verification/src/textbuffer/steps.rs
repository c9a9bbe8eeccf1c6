use vstd::prelude::*;

use super::geometry::has_newline;
use super::motion::{
    down_target, higher_word_of, lemma_targets, line_end, line_start, lower_word_of, select_to_word_result, up_target,
    word_end,
};
use super::{selection_in, Textbuffer};
use crate::context::TextbufferContext;
use crate::filebuffer::{lemma_neighbour_words, lemma_word_at, word_left_of, word_right_of, Filebuffer};
use crate::lines::{column, lemma_column_bound, first_newline, last_newline_before, lemma_first_newline, lemma_last_newline_before};
use crate::selection::Selection;
use crate::token::Word;

verus! {

broadcast use crate::textbuffer::Textbuffer::lemma_changed_one_chain;

/// What an action does to each selection it moves, when the text does not
/// change.
#[derive(Clone, Copy, PartialEq, Eq, Structural)]
pub enum Motion {
    CharLeft,
    CharRight,
    WordLeft,
    WordRight,
    CharUp,
    CharDown,
    WordUp,
    WordDown,
    LineUp,
    LineDown,
    ExtendCharLeft,
    ExtendCharRight,
    ExtendWordLeft,
    ExtendWordRight,
    ExtendCharUp,
    ExtendCharDown,
    ExtendWordUp,
    ExtendWordDown,
    ExtendLineUp,
    ExtendLineDown,
    CharEnd,
    CharStart,
    ExtendCharEnd,
    ExtendCharStart,
    WordSpan,
    LineSpan,
    Append,
    Insert,
    OpenAbove,
    OpenBelow,
}

// Pieces of the motions, on one selection.

pub open spec fn left1(s: Selection) -> Selection {
    if s.primary_index > 0 {
        s.with_primary((s.primary_index - 1) as usize)
    } else {
        s
    }
}

pub open spec fn right1(text: Seq<char>, s: Selection) -> Selection {
    if s.primary_index < text.len() - 1 {
        s.with_primary((s.primary_index + 1) as usize)
    } else {
        s
    }
}

pub open spec fn up1(text: Seq<char>, s: Selection) -> Selection {
    s.with_primary(up_target(text, s.primary_index as int, s.offset as int) as usize)
}

pub open spec fn down1(text: Seq<char>, s: Selection) -> Selection {
    s.with_primary(down_target(text, s.primary_index as int, s.offset as int) as usize)
}

/// The offset becomes the column of the cursor.
pub open spec fn offset_at(text: Seq<char>, s: Selection) -> Selection {
    s.with_offset(column(text, s.primary_index as int) as usize)
}

/// The offset becomes the column of the first selected character.
pub open spec fn offset_first(text: Seq<char>, s: Selection) -> Selection {
    s.with_offset(column(text, s.first() as int) as usize)
}

/// The selection shrinks to its cursor.
pub open spec fn collapse(s: Selection) -> Selection {
    s.with_secondary(s.primary_index)
}

pub open spec fn to_first(s: Selection) -> Selection {
    s.with_primary(s.first())
}

pub open spec fn to_last(s: Selection) -> Selection {
    s.with_primary(s.last())
}

pub open spec fn is_edge(text: Seq<char>, s: Selection) -> bool {
    s.first() == 0 || s.last() == text.len() - 1
}

pub open spec fn is_multiline(text: Seq<char>, s: Selection) -> bool {
    has_newline(text, s.first() as int, s.last() as int)
}

pub open spec fn is_multiword(fb: &Filebuffer, s: Selection) -> bool {
    fb.word_at(s.first() as int).index != fb.word_at(s.last() as int).index
}

pub open spec fn select_word_sel(s: Selection, w: Word) -> Selection {
    s.with_secondary(w.index).with_primary(word_end(w) as usize)
}

pub open spec fn to_line_end(text: Seq<char>, s: Selection) -> Selection {
    s.with_primary(line_end(text, s.primary_index as int) as usize)
}

pub open spec fn secondary_to_line_end(text: Seq<char>, s: Selection) -> Selection {
    s.with_secondary(line_end(text, s.secondary_index as int) as usize)
}

pub open spec fn to_line_start(text: Seq<char>, start_at_symbol: bool, complete: bool, s: Selection) -> Selection {
    s.with_primary(line_start(text, start_at_symbol, complete, s.primary_index as int) as usize)
}

pub open spec fn secondary_to_line_start(text: Seq<char>, start_at_symbol: bool, complete: bool, s: Selection) -> Selection {
    s.with_secondary(line_start(text, start_at_symbol, complete, s.secondary_index as int) as usize)
}

/// The selection is widened to whole lines, keeping its direction.
pub open spec fn span_lines(text: Seq<char>, start_at_symbol: bool, s: Selection) -> Selection {
    if s.primary_index < s.secondary_index {
        to_line_start(text, start_at_symbol, true, secondary_to_line_end(text, s))
    } else {
        to_line_end(text, secondary_to_line_start(text, start_at_symbol, true, s))
    }
}

/// The selection is widened to whole words, keeping its direction.
pub open spec fn span_words(fb: &Filebuffer, s: Selection) -> Selection {
    if s.primary_index < s.secondary_index {
        let s1 = s.with_secondary(word_end(fb.word_at(s.secondary_index as int)) as usize);
        s1.with_primary(fb.word_at(s1.primary_index as int).index)
    } else {
        let s1 = s.with_secondary(fb.word_at(s.secondary_index as int).index);
        s1.with_primary(word_end(fb.word_at(s1.primary_index as int)) as usize)
    }
}

pub open spec fn offset_if_edge(text: Seq<char>, s: Selection) -> Selection {
    if is_edge(text, s) {
        offset_at(text, s)
    } else {
        s
    }
}

pub open spec fn offset_first_if_edge(text: Seq<char>, s: Selection) -> Selection {
    if is_edge(text, s) {
        offset_first(text, s)
    } else {
        s
    }
}

/// What `motion` does to selection `s` of the text of `fb`.
pub open spec fn motion_result(motion: Motion, fb: &Filebuffer, start_at_symbol: bool, s: Selection) -> Selection {
    let t = fb.text();
    let len = t.len() as int;
    match motion {
        Motion::CharLeft => collapse(
            offset_at(
                t,
                if s.primary_index != s.secondary_index {
                    to_first(s)
                } else {
                    left1(s)
                },
            ),
        ),
        Motion::CharRight => collapse(
            offset_at(
                t,
                if s.primary_index != s.secondary_index {
                    to_last(s)
                } else {
                    right1(t, s)
                },
            ),
        ),
        Motion::WordLeft => offset_first(
            t,
            select_word_sel(
                s,
                if is_multiword(fb, s) {
                    fb.word_at(s.first() as int)
                } else {
                    word_left_of(fb.tokens(), s.primary_index as int, len)
                },
            ),
        ),
        Motion::WordRight => offset_first(
            t,
            select_word_sel(
                s,
                if is_multiword(fb, s) {
                    fb.word_at(s.last() as int)
                } else {
                    word_right_of(fb.tokens(), s.primary_index as int, len)
                },
            ),
        ),
        Motion::CharUp => offset_if_edge(
            t,
            collapse(
                if is_multiline(t, s) {
                    to_first(s)
                } else {
                    up1(t, s)
                },
            ),
        ),
        Motion::CharDown => offset_if_edge(
            t,
            collapse(
                if is_multiline(t, s) {
                    to_last(s)
                } else {
                    down1(t, s)
                },
            ),
        ),
        Motion::WordUp => offset_first_if_edge(
            t,
            select_word_sel(
                s,
                if is_multiword(fb, s) {
                    fb.word_at(s.first() as int)
                } else {
                    higher_word_of(fb, s.primary_index as int, s.offset as int)
                },
            ),
        ),
        Motion::WordDown => offset_first_if_edge(
            t,
            select_word_sel(
                s,
                if is_multiword(fb, s) {
                    fb.word_at(s.last() as int)
                } else {
                    lower_word_of(fb, s.primary_index as int, s.offset as int)
                },
            ),
        ),
        Motion::LineUp => offset_at(
            t,
            to_line_end(
                t,
                secondary_to_line_start(
                    t,
                    start_at_symbol,
                    true,
                    collapse(
                        if is_multiline(t, s) {
                            to_first(s)
                        } else {
                            up1(t, s)
                        },
                    ),
                ),
            ),
        ),
        Motion::LineDown => offset_at(
            t,
            to_line_end(
                t,
                secondary_to_line_start(
                    t,
                    start_at_symbol,
                    true,
                    collapse(
                        if is_multiline(t, s) {
                            to_last(s)
                        } else {
                            down1(t, s)
                        },
                    ),
                ),
            ),
        ),
        Motion::ExtendCharLeft => offset_at(t, left1(s)),
        Motion::ExtendCharRight => offset_at(t, right1(t, s)),
        Motion::ExtendWordLeft => offset_first(
            t,
            select_to_word_result(fb, s, word_left_of(fb.tokens(), s.primary_index as int, len)),
        ),
        Motion::ExtendWordRight => offset_first(
            t,
            select_to_word_result(fb, s, word_right_of(fb.tokens(), s.primary_index as int, len)),
        ),
        Motion::ExtendCharUp => offset_if_edge(t, up1(t, s)),
        Motion::ExtendCharDown => offset_if_edge(t, down1(t, s)),
        Motion::ExtendWordUp => offset_first_if_edge(
            t,
            select_to_word_result(fb, s, higher_word_of(fb, s.primary_index as int, s.offset as int)),
        ),
        Motion::ExtendWordDown => offset_first_if_edge(
            t,
            select_to_word_result(fb, s, lower_word_of(fb, s.primary_index as int, s.offset as int)),
        ),
        Motion::ExtendLineUp => offset_at(t, span_lines(t, start_at_symbol, up1(t, s))),
        Motion::ExtendLineDown => offset_at(t, span_lines(t, start_at_symbol, down1(t, s))),
        Motion::CharEnd => collapse(offset_at(t, to_line_end(t, s))),
        Motion::CharStart => collapse(offset_at(t, to_line_start(t, start_at_symbol, false, s))),
        Motion::ExtendCharEnd => offset_at(t, to_line_end(t, s)),
        Motion::ExtendCharStart => offset_at(t, to_line_start(t, start_at_symbol, is_multiline(t, s), s)),
        Motion::WordSpan => span_words(fb, s),
        Motion::LineSpan => span_lines(t, start_at_symbol, s),
        Motion::Append => {
            let s1 = to_last(s);
            collapse(
                offset_at(
                    t,
                    if t[s1.primary_index as int] != '\n' {
                        right1(t, s1)
                    } else {
                        s1
                    },
                ),
            )
        },
        Motion::Insert => collapse(offset_at(t, to_first(s))),
        Motion::OpenAbove => collapse(offset_at(t, to_line_start(t, start_at_symbol, true, to_first(s)))),
        Motion::OpenBelow => to_line_end(t, to_last(s)),
    }
}

/// `sels` with `motion` applied to each selection from `start` on.
pub open spec fn moved_by(sels: Seq<Selection>, start: int, motion: Motion, fb: &Filebuffer, start_at_symbol: bool) -> Seq<Selection> {
    Seq::new(sels.len(), |i: int| if i < start { sels[i] } else { motion_result(motion, fb, start_at_symbol, sels[i]) })
}

pub proof fn lemma_line_start_bound(text: Seq<char>, start_at_symbol: bool, complete: bool, index: int)
    requires
        0 <= index <= text.len(),
    ensures
        0 <= line_start(text, start_at_symbol, complete, index) <= index,
{
    lemma_column_bound(text, index);
    crate::lines::lemma_first_non_whitespace(text, index - column(text, index), index);
}

/// A motion depends on the text and the tokens only.
pub proof fn lemma_motion_congruence(motion: Motion, a: &Filebuffer, b: &Filebuffer, start_at_symbol: bool, s: Selection)
    requires
        a.text() == b.text(),
        a.tokens() == b.tokens(),
    ensures
        motion_result(motion, a, start_at_symbol, s) == motion_result(motion, b, start_at_symbol, s),
{
}

/// Moving the selections depends on the text and the tokens only.
pub proof fn lemma_moved_by_congruence(sels: Seq<Selection>, start: int, motion: Motion, a: &Filebuffer, b: &Filebuffer, start_at_symbol: bool)
    requires
        a.text() == b.text(),
        a.tokens() == b.tokens(),
    ensures
        moved_by(sels, start, motion, a, start_at_symbol) == moved_by(sels, start, motion, b, start_at_symbol),
{
    assert forall|i: int| 0 <= i < sels.len() implies moved_by(sels, start, motion, a, start_at_symbol)[i] == moved_by(
        sels,
        start,
        motion,
        b,
        start_at_symbol,
    )[i] by {
        lemma_motion_congruence(motion, a, b, start_at_symbol, sels[i]);
    }
    assert(moved_by(sels, start, motion, a, start_at_symbol) =~= moved_by(sels, start, motion, b, start_at_symbol));
}

impl Textbuffer {
    /// Selection `index` became what `motion` makes of it, and lies inside the text.
    pub open spec fn stepped(
        &self,
        old_tb: &Textbuffer,
        filebuffer: &Filebuffer,
        old_fb: &Filebuffer,
        index: usize,
        motion: Motion,
        start_at_symbol: bool,
    ) -> bool {
        &&& self.changed_one(old_tb, filebuffer, old_fb, index, motion_result(motion, old_fb, start_at_symbol, old_tb.sels()[index as int]))
        &&& selection_in(self.sels()[index as int], old_fb.text().len() as int)
    }

    fn step_char_horizontal(&mut self, filebuffer: &mut Filebuffer, index: usize, right: bool, sas: bool)
        requires
            old(self).movable(old(filebuffer), index),
        ensures
            final(self).stepped(old(self), final(filebuffer), old(filebuffer), index,
                if right { Motion::CharRight } else { Motion::CharLeft }, sas),
    {
        if self.is_selection_extended(index) {
            if right {
                self.move_selection_to_last(filebuffer, index);
            } else {
                self.move_selection_to_first(filebuffer, index);
            }
        } else {
            if right {
                self.move_selection_right(filebuffer, index);
            } else {
                self.move_selection_left(filebuffer, index);
            }
        }
        proof {
            lemma_column_bound(filebuffer.text(), self.sels()[index as int].primary_index as int);
        }
        self.update_offset(filebuffer, index);
        self.reset_selection(filebuffer, index);
    }

    fn step_word_horizontal(&mut self, filebuffer: &mut Filebuffer, index: usize, right: bool, sas: bool)
        requires
            old(self).movable(old(filebuffer), index),
        ensures
            final(self).stepped(old(self), final(filebuffer), old(filebuffer), index,
                if right { Motion::WordRight } else { Motion::WordLeft }, sas),
    {
        let ghost s = self.sels()[index as int];
        let ghost len = filebuffer.text().len() as int;
        let word = if self.is_selection_multiword(filebuffer, index) {
            if right {
                self.last_selected_word(filebuffer, index)
            } else {
                self.first_selected_word(filebuffer, index)
            }
        } else {
            if right {
                self.right_word(filebuffer, index)
            } else {
                self.left_word(filebuffer, index)
            }
        };
        proof {
            lemma_word_at(filebuffer.tokens(), s.first() as int, len);
            lemma_word_at(filebuffer.tokens(), s.last() as int, len);
            lemma_neighbour_words(filebuffer.tokens(), s.primary_index as int, len);
        }
        self.select_word(filebuffer, index, word);
        proof {
            lemma_column_bound(filebuffer.text(), self.sels()[index as int].first() as int);
        }
        self.update_offset_smallest(filebuffer, index);
    }

    fn step_char_vertical(&mut self, filebuffer: &mut Filebuffer, index: usize, down: bool, sas: bool)
        requires
            old(self).movable(old(filebuffer), index),
        ensures
            final(self).stepped(old(self), final(filebuffer), old(filebuffer), index,
                if down { Motion::CharDown } else { Motion::CharUp }, sas),
    {
        let ghost s = self.sels()[index as int];
        proof {
            lemma_targets(filebuffer.text(), s.primary_index as int, s.offset as int);
        }
        if self.is_selection_multiline(filebuffer, index) {
            if down {
                self.move_selection_to_last(filebuffer, index);
            } else {
                self.move_selection_to_first(filebuffer, index);
            }
        } else {
            if down {
                self.move_selection_down(filebuffer, index);
            } else {
                self.move_selection_up(filebuffer, index);
            }
        }
        self.reset_selection(filebuffer, index);
        if self.is_selection_edge(filebuffer, index) {
            proof {
                lemma_column_bound(filebuffer.text(), self.sels()[index as int].primary_index as int);
            }
            self.update_offset(filebuffer, index);
        }
    }

    fn step_word_vertical(&mut self, filebuffer: &mut Filebuffer, index: usize, down: bool, sas: bool)
        requires
            old(self).movable(old(filebuffer), index),
        ensures
            final(self).stepped(old(self), final(filebuffer), old(filebuffer), index,
                if down { Motion::WordDown } else { Motion::WordUp }, sas),
    {
        let ghost s = self.sels()[index as int];
        let ghost t = filebuffer.text();
        let ghost len = t.len() as int;
        proof {
            lemma_targets(t, s.primary_index as int, s.offset as int);
            lemma_word_at(filebuffer.tokens(), s.first() as int, len);
            lemma_word_at(filebuffer.tokens(), s.last() as int, len);
            lemma_word_at(filebuffer.tokens(), down_target(t, s.primary_index as int, s.offset as int), len);
            lemma_word_at(filebuffer.tokens(), up_target(t, s.primary_index as int, s.offset as int), len);
            lemma_word_at(filebuffer.tokens(), 0, len);
            lemma_word_at(filebuffer.tokens(), len - 1, len);
        }
        let word = if self.is_selection_multiword(filebuffer, index) {
            if down {
                self.last_selected_word(filebuffer, index)
            } else {
                self.first_selected_word(filebuffer, index)
            }
        } else {
            if down {
                self.lower_word(filebuffer, index)
            } else {
                self.higher_word(filebuffer, index)
            }
        };
        self.select_word(filebuffer, index, word);
        if self.is_selection_edge(filebuffer, index) {
            proof {
                lemma_column_bound(filebuffer.text(), self.sels()[index as int].first() as int);
            }
            self.update_offset_smallest(filebuffer, index);
        }
    }

    fn step_line_vertical(
        &mut self,
        textbuffer_context: &TextbufferContext,
        filebuffer: &mut Filebuffer,
        index: usize,
        down: bool,
    )
        requires
            old(self).movable(old(filebuffer), index),
        ensures
            final(self).stepped(old(self), final(filebuffer), old(filebuffer), index,
                if down { Motion::LineDown } else { Motion::LineUp }, textbuffer_context.start_at_symbol),
    {
        let ghost s = self.sels()[index as int];
        let ghost t = filebuffer.text();
        proof {
            lemma_targets(t, s.primary_index as int, s.offset as int);
        }
        if self.is_selection_multiline(filebuffer, index) {
            if down {
                self.move_selection_to_last(filebuffer, index);
            } else {
                self.move_selection_to_first(filebuffer, index);
            }
        } else {
            if down {
                self.move_selection_down(filebuffer, index);
            } else {
                self.move_selection_up(filebuffer, index);
            }
        }
        self.reset_selection(filebuffer, index);
        proof {
            lemma_line_start_bound(t, textbuffer_context.start_at_symbol, true, self.sels()[index as int].secondary_index as int);
        }
        self.move_secondary_to_start(textbuffer_context, filebuffer, true, index);
        proof {
            lemma_targets(t, self.sels()[index as int].primary_index as int, 0);
        }
        self.move_selection_to_end(filebuffer, index);
        proof {
            lemma_column_bound(t, self.sels()[index as int].primary_index as int);
        }
        self.update_offset(filebuffer, index);
    }
}

impl Textbuffer {
    fn step_extend_char_horizontal(&mut self, filebuffer: &mut Filebuffer, index: usize, right: bool, sas: bool)
        requires
            old(self).movable(old(filebuffer), index),
        ensures
            final(self).stepped(old(self), final(filebuffer), old(filebuffer), index,
                if right { Motion::ExtendCharRight } else { Motion::ExtendCharLeft }, sas),
    {
        if right {
            self.move_selection_right(filebuffer, index);
        } else {
            self.move_selection_left(filebuffer, index);
        }
        proof {
            lemma_column_bound(filebuffer.text(), self.sels()[index as int].primary_index as int);
        }
        self.update_offset(filebuffer, index);
    }

    fn step_extend_word_horizontal(&mut self, filebuffer: &mut Filebuffer, index: usize, right: bool, sas: bool)
        requires
            old(self).movable(old(filebuffer), index),
        ensures
            final(self).stepped(old(self), final(filebuffer), old(filebuffer), index,
                if right { Motion::ExtendWordRight } else { Motion::ExtendWordLeft }, sas),
    {
        let ghost s = self.sels()[index as int];
        let ghost t = filebuffer.text();
        let ghost len = t.len() as int;
        let word = if right {
            self.right_word(filebuffer, index)
        } else {
            self.left_word(filebuffer, index)
        };
        proof {
            lemma_neighbour_words(filebuffer.tokens(), s.primary_index as int, len);
            lemma_word_at(filebuffer.tokens(), word.index as int, len);
            let s1 = s.with_primary(word.index);
            lemma_word_at(filebuffer.tokens(), s1.secondary_index as int, len);
            let w2 = filebuffer.word_at(s1.secondary_index as int);
            lemma_word_at(filebuffer.tokens(), word_end(w2), len);
            lemma_word_at(filebuffer.tokens(), w2.index as int, len);
        }
        self.select_to_word(filebuffer, index, word);
        proof {
            lemma_column_bound(t, self.sels()[index as int].first() as int);
        }
        self.update_offset_smallest(filebuffer, index);
    }

    fn step_extend_char_vertical(&mut self, filebuffer: &mut Filebuffer, index: usize, down: bool, sas: bool)
        requires
            old(self).movable(old(filebuffer), index),
        ensures
            final(self).stepped(old(self), final(filebuffer), old(filebuffer), index,
                if down { Motion::ExtendCharDown } else { Motion::ExtendCharUp }, sas),
    {
        let ghost s = self.sels()[index as int];
        proof {
            lemma_targets(filebuffer.text(), s.primary_index as int, s.offset as int);
        }
        if down {
            self.move_selection_down(filebuffer, index);
        } else {
            self.move_selection_up(filebuffer, index);
        }
        if self.is_selection_edge(filebuffer, index) {
            proof {
                lemma_column_bound(filebuffer.text(), self.sels()[index as int].primary_index as int);
            }
            self.update_offset(filebuffer, index);
        }
    }

    fn step_extend_word_vertical(&mut self, filebuffer: &mut Filebuffer, index: usize, down: bool, sas: bool)
        requires
            old(self).movable(old(filebuffer), index),
        ensures
            final(self).stepped(old(self), final(filebuffer), old(filebuffer), index,
                if down { Motion::ExtendWordDown } else { Motion::ExtendWordUp }, sas),
    {
        let ghost s = self.sels()[index as int];
        let ghost t = filebuffer.text();
        let ghost len = t.len() as int;
        proof {
            lemma_targets(t, s.primary_index as int, s.offset as int);
            lemma_word_at(filebuffer.tokens(), down_target(t, s.primary_index as int, s.offset as int), len);
            lemma_word_at(filebuffer.tokens(), up_target(t, s.primary_index as int, s.offset as int), len);
            lemma_word_at(filebuffer.tokens(), 0, len);
            lemma_word_at(filebuffer.tokens(), len - 1, len);
        }
        let word = if down {
            self.lower_word(filebuffer, index)
        } else {
            self.higher_word(filebuffer, index)
        };
        proof {
            let s1 = s.with_primary(word.index);
            lemma_word_at(filebuffer.tokens(), s1.secondary_index as int, len);
            let w2 = filebuffer.word_at(s1.secondary_index as int);
            lemma_word_at(filebuffer.tokens(), word_end(w2), len);
            lemma_word_at(filebuffer.tokens(), w2.index as int, len);
            lemma_word_at(filebuffer.tokens(), word.index as int, len);
        }
        self.select_to_word(filebuffer, index, word);
        if self.is_selection_edge(filebuffer, index) {
            proof {
                lemma_column_bound(t, self.sels()[index as int].first() as int);
            }
            self.update_offset_smallest(filebuffer, index);
        }
    }

    /// Widens selection `index` to whole lines, keeping its direction.
    pub(crate) fn span_line_selection(&mut self, textbuffer_context: &TextbufferContext, filebuffer: &mut Filebuffer, index: usize)
        requires
            old(self).movable(old(filebuffer), index),
        ensures
            final(self).changed_one(old(self), final(filebuffer), old(filebuffer), index,
                span_lines(old(filebuffer).text(), textbuffer_context.start_at_symbol, old(self).sels()[index as int])),
            selection_in(final(self).sels()[index as int], old(filebuffer).text().len() as int),
    {
        let ghost s = self.sels()[index as int];
        let ghost t = filebuffer.text();
        proof {
            lemma_targets(t, s.primary_index as int, 0);
            lemma_targets(t, s.secondary_index as int, 0);
            lemma_line_start_bound(t, textbuffer_context.start_at_symbol, true, s.primary_index as int);
            lemma_line_start_bound(t, textbuffer_context.start_at_symbol, true, s.secondary_index as int);
        }
        if self.is_selection_inverted(index) {
            self.move_secondary_to_end(filebuffer, index);
            self.move_selection_to_start(textbuffer_context, filebuffer, true, index);
        } else {
            self.move_secondary_to_start(textbuffer_context, filebuffer, true, index);
            self.move_selection_to_end(filebuffer, index);
        }
    }

    /// Widens selection `index` to whole words, keeping its direction.
    fn span_word_selection(&mut self, filebuffer: &mut Filebuffer, index: usize)
        requires
            old(self).movable(old(filebuffer), index),
        ensures
            final(self).changed_one(old(self), final(filebuffer), old(filebuffer), index,
                span_words(old(filebuffer), old(self).sels()[index as int])),
            selection_in(final(self).sels()[index as int], old(filebuffer).text().len() as int),
    {
        let ghost s = self.sels()[index as int];
        let ghost len = filebuffer.text().len() as int;
        proof {
            lemma_word_at(filebuffer.tokens(), s.secondary_index as int, len);
            lemma_word_at(filebuffer.tokens(), s.primary_index as int, len);
        }
        if self.is_selection_inverted(index) {
            self.move_secondary_to_end_of_word(filebuffer, index);
            self.move_selection_to_start_of_word(filebuffer, index);
        } else {
            self.move_secondary_to_start_of_word(filebuffer, index);
            self.move_selection_to_end_of_word(filebuffer, index);
        }
    }

    fn step_extend_line_vertical(
        &mut self,
        textbuffer_context: &TextbufferContext,
        filebuffer: &mut Filebuffer,
        index: usize,
        down: bool,
    )
        requires
            old(self).movable(old(filebuffer), index),
        ensures
            final(self).stepped(old(self), final(filebuffer), old(filebuffer), index,
                if down { Motion::ExtendLineDown } else { Motion::ExtendLineUp }, textbuffer_context.start_at_symbol),
    {
        let ghost s = self.sels()[index as int];
        proof {
            lemma_targets(filebuffer.text(), s.primary_index as int, s.offset as int);
        }
        if down {
            self.move_selection_down(filebuffer, index);
        } else {
            self.move_selection_up(filebuffer, index);
        }
        self.span_line_selection(textbuffer_context, filebuffer, index);
        proof {
            lemma_column_bound(filebuffer.text(), self.sels()[index as int].primary_index as int);
        }
        self.update_offset(filebuffer, index);
    }

    fn step_line_edge(
        &mut self,
        textbuffer_context: &TextbufferContext,
        filebuffer: &mut Filebuffer,
        index: usize,
        to_end: bool,
        extend: bool,
    )
        requires
            old(self).movable(old(filebuffer), index),
        ensures
            final(self).stepped(old(self), final(filebuffer), old(filebuffer), index,
                if to_end {
                    if extend { Motion::ExtendCharEnd } else { Motion::CharEnd }
                } else {
                    if extend { Motion::ExtendCharStart } else { Motion::CharStart }
                }, textbuffer_context.start_at_symbol),
    {
        let ghost s = self.sels()[index as int];
        let ghost t = filebuffer.text();
        proof {
            lemma_targets(t, s.primary_index as int, 0);
            lemma_line_start_bound(t, textbuffer_context.start_at_symbol, true, s.primary_index as int);
            lemma_line_start_bound(t, textbuffer_context.start_at_symbol, false, s.primary_index as int);
        }
        if to_end {
            self.move_selection_to_end(filebuffer, index);
        } else {
            let complete = if extend { self.is_selection_multiline(filebuffer, index) } else { false };
            self.move_selection_to_start(textbuffer_context, filebuffer, complete, index);
        }
        proof {
            lemma_column_bound(t, self.sels()[index as int].primary_index as int);
        }
        self.update_offset(filebuffer, index);
        if !extend {
            self.reset_selection(filebuffer, index);
        }
    }

    fn step_append(&mut self, filebuffer: &mut Filebuffer, index: usize, sas: bool)
        requires
            old(self).movable(old(filebuffer), index),
        ensures
            final(self).stepped(old(self), final(filebuffer), old(filebuffer), index, Motion::Append, sas),
    {
        self.move_selection_to_last(filebuffer, index);
        if !self.is_selection_newline(filebuffer, index) {
            self.move_selection_right(filebuffer, index);
        }
        proof {
            lemma_column_bound(filebuffer.text(), self.sels()[index as int].primary_index as int);
        }
        self.update_offset(filebuffer, index);
        self.reset_selection(filebuffer, index);
    }

    fn step_insert(&mut self, filebuffer: &mut Filebuffer, index: usize, sas: bool)
        requires
            old(self).movable(old(filebuffer), index),
        ensures
            final(self).stepped(old(self), final(filebuffer), old(filebuffer), index, Motion::Insert, sas),
    {
        self.move_selection_to_first(filebuffer, index);
        proof {
            lemma_column_bound(filebuffer.text(), self.sels()[index as int].primary_index as int);
        }
        self.update_offset(filebuffer, index);
        self.reset_selection(filebuffer, index);
    }

    fn step_open_above(&mut self, textbuffer_context: &TextbufferContext, filebuffer: &mut Filebuffer, index: usize)
        requires
            old(self).movable(old(filebuffer), index),
        ensures
            final(self).stepped(old(self), final(filebuffer), old(filebuffer), index, Motion::OpenAbove,
                textbuffer_context.start_at_symbol),
    {
        let ghost t = filebuffer.text();
        self.move_selection_to_first(filebuffer, index);
        proof {
            lemma_line_start_bound(t, textbuffer_context.start_at_symbol, true, self.sels()[index as int].primary_index as int);
        }
        self.move_selection_to_start(textbuffer_context, filebuffer, true, index);
        proof {
            lemma_column_bound(t, self.sels()[index as int].primary_index as int);
        }
        self.update_offset(filebuffer, index);
        self.reset_selection(filebuffer, index);
    }

    fn step_open_below(&mut self, filebuffer: &mut Filebuffer, index: usize, sas: bool)
        requires
            old(self).movable(old(filebuffer), index),
        ensures
            final(self).stepped(old(self), final(filebuffer), old(filebuffer), index, Motion::OpenBelow, sas),
    {
        let ghost t = filebuffer.text();
        self.move_selection_to_last(filebuffer, index);
        proof {
            lemma_targets(t, self.sels()[index as int].primary_index as int, 0);
        }
        self.move_selection_to_end(filebuffer, index);
    }

    /// Applies `motion` to selection `index`.
    fn step(&mut self, textbuffer_context: &TextbufferContext, filebuffer: &mut Filebuffer, motion: Motion, index: usize)
        requires
            old(self).movable(old(filebuffer), index),
        ensures
            final(self).stepped(old(self), final(filebuffer), old(filebuffer), index, motion,
                textbuffer_context.start_at_symbol),
    {
        let sas = textbuffer_context.start_at_symbol;
        match motion {
            Motion::CharLeft => self.step_char_horizontal(filebuffer, index, false, sas),
            Motion::CharRight => self.step_char_horizontal(filebuffer, index, true, sas),
            Motion::WordLeft => self.step_word_horizontal(filebuffer, index, false, sas),
            Motion::WordRight => self.step_word_horizontal(filebuffer, index, true, sas),
            Motion::CharUp => self.step_char_vertical(filebuffer, index, false, sas),
            Motion::CharDown => self.step_char_vertical(filebuffer, index, true, sas),
            Motion::WordUp => self.step_word_vertical(filebuffer, index, false, sas),
            Motion::WordDown => self.step_word_vertical(filebuffer, index, true, sas),
            Motion::LineUp => self.step_line_vertical(textbuffer_context, filebuffer, index, false),
            Motion::LineDown => self.step_line_vertical(textbuffer_context, filebuffer, index, true),
            Motion::ExtendCharLeft => self.step_extend_char_horizontal(filebuffer, index, false, sas),
            Motion::ExtendCharRight => self.step_extend_char_horizontal(filebuffer, index, true, sas),
            Motion::ExtendWordLeft => self.step_extend_word_horizontal(filebuffer, index, false, sas),
            Motion::ExtendWordRight => self.step_extend_word_horizontal(filebuffer, index, true, sas),
            Motion::ExtendCharUp => self.step_extend_char_vertical(filebuffer, index, false, sas),
            Motion::ExtendCharDown => self.step_extend_char_vertical(filebuffer, index, true, sas),
            Motion::ExtendWordUp => self.step_extend_word_vertical(filebuffer, index, false, sas),
            Motion::ExtendWordDown => self.step_extend_word_vertical(filebuffer, index, true, sas),
            Motion::ExtendLineUp => self.step_extend_line_vertical(textbuffer_context, filebuffer, index, false),
            Motion::ExtendLineDown => self.step_extend_line_vertical(textbuffer_context, filebuffer, index, true),
            Motion::CharEnd => self.step_line_edge(textbuffer_context, filebuffer, index, true, false),
            Motion::CharStart => self.step_line_edge(textbuffer_context, filebuffer, index, false, false),
            Motion::ExtendCharEnd => self.step_line_edge(textbuffer_context, filebuffer, index, true, true),
            Motion::ExtendCharStart => self.step_line_edge(textbuffer_context, filebuffer, index, false, true),
            Motion::WordSpan => self.span_word_selection(filebuffer, index),
            Motion::LineSpan => self.span_line_selection(textbuffer_context, filebuffer, index),
            Motion::Append => self.step_append(filebuffer, index, sas),
            Motion::Insert => self.step_insert(filebuffer, index, sas),
            Motion::OpenAbove => self.step_open_above(textbuffer_context, filebuffer, index),
            Motion::OpenBelow => self.step_open_below(filebuffer, index, sas),
        }
    }

    /// Applies `motion` to every selection from `start` on.
    pub(crate) fn apply_motion(
        &mut self,
        textbuffer_context: &TextbufferContext,
        filebuffer: &mut Filebuffer,
        motion: Motion,
        start: usize,
    )
        requires
            old(self).wf(old(filebuffer)),
            start <= old(self).sels().len(),
        ensures
            final(self).wf(final(filebuffer)),
            final(self).same_settings(old(self)),
            Filebuffer::logged_selection_changes(old(filebuffer), final(filebuffer), old(self).window()),
            final(self).sels() == moved_by(old(self).sels(), start as int, motion, old(filebuffer),
                textbuffer_context.start_at_symbol),
    {
        let ghost old_sels = self.sels();
        let mut index = start;
        proof {
            Filebuffer::lemma_logged_refl(filebuffer, self.window());
        }
        while index < self.selections.len()
            invariant
                start <= index <= self.sels().len(),
                self.sels().len() == old_sels.len(),
                self.wf(filebuffer),
                old(filebuffer).wf(),
                self.same_settings(old(self)),
                old_sels == old(self).sels(),
                Filebuffer::logged_selection_changes(old(filebuffer), filebuffer, old(self).window()),
                forall|i: int| 0 <= i < index ==> #[trigger] self.sels()[i] == if i < start { old_sels[i] } else {
                    motion_result(motion, old(filebuffer), textbuffer_context.start_at_symbol, old_sels[i])
                },
                forall|i: int| index <= i < old_sels.len() ==> #[trigger] self.sels()[i] == old_sels[i],
            decreases old_sels.len() - index,
        {
            let ghost fb_before = *filebuffer;
            let ghost tb_before = *self;
            self.step(textbuffer_context, filebuffer, motion, index);
            proof {
                Filebuffer::lemma_logged_trans(old(filebuffer), &fb_before, filebuffer, old(self).window());
                lemma_motion_congruence(motion, &fb_before, old(filebuffer), textbuffer_context.start_at_symbol,
                    old_sels[index as int]);
                assert(tb_before.sels()[index as int] == old_sels[index as int]);
                assert(self.sels()[index as int] == motion_result(motion, &fb_before, textbuffer_context.start_at_symbol,
                    old_sels[index as int]));

            }
            index = index + 1;
        }
        assert(self.sels() =~= moved_by(old_sels, start as int, motion, old(filebuffer), textbuffer_context.start_at_symbol));
    }
}

} // verus!
