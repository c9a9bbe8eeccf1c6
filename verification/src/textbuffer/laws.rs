use vstd::prelude::*;

use super::geometry::{has_newline, start_target};
use super::motion::{down_target, line_end, line_start, up_target};
use super::edit::{padded, replaced};
use super::changes::{rotate_step, rotated, RotateState};
use super::search::{covered, is_next_occurrence, lemma_next_occurrence_unique, next_occurrence, next_selected, selected_text};
use super::editing::{delete_selection, edit_step, typed, without_last, Edit, EditState};
use super::steps::{motion_result, moved_by, span_lines, Motion};
use super::info::{lines_from, LineInfo};
use super::selections::duplicated;
use super::Textbuffer;
use crate::action::Action;
use crate::context::TextbufferContext;
use crate::selection::SelectionMode;
use crate::filebuffer::{lemma_neighbour_words, text_with_insert, text_with_removal, Filebuffer};
use crate::chars::is_whitespace;
use crate::lines::{column, line_of, first_newline, first_non_whitespace, last_newline_before, rest_of_line};
use crate::selection::Selection;
use crate::token::Token;

verus! {

/// Position `p` starts a line: it is the first position, or a newline is
/// right before it.
pub open spec fn starts_line(text: Seq<char>, p: int) -> bool {
    p == 0 || text[p - 1] == '\n'
}

/// Position `p` ends a line: it holds a newline, or it is the last position.
pub open spec fn ends_line(text: Seq<char>, p: int) -> bool {
    p == text.len() - 1 || text[p] == '\n'
}

/// No newline lies in `text[from .. to]`.
pub open spec fn no_newline_in(text: Seq<char>, from: int, to: int) -> bool {
    forall|k: int| from <= k < to ==> text[k] != '\n'
}

/// The column of a position counts the characters between the start of its
/// line and it.
pub proof fn law_column_counts_from_line_start(text: Seq<char>, i: int)
    requires
        0 <= i <= text.len(),
    ensures
        column(text, i) <= i,
        starts_line(text, i - column(text, i)),
        no_newline_in(text, i - column(text, i), i),
    decreases i,
{
    if i > 0 && text[i - 1] != '\n' {
        law_column_counts_from_line_start(text, i - 1);
    }
}

/// The rest of a line reaches its end.
proof fn lemma_rest_of_line_is_line_end(text: Seq<char>, i: int)
    requires
        0 <= i < text.len(),
    ensures
        i <= i + rest_of_line(text, i, text.len() - 1) - 1 < text.len(),
        ends_line(text, i + rest_of_line(text, i, text.len() - 1) - 1),
        no_newline_in(text, i, i + rest_of_line(text, i, text.len() - 1) - 1),
    decreases text.len() - i,
{
    if i < text.len() - 1 && text[i] != '\n' {
        lemma_rest_of_line_is_line_end(text, i + 1);
    }
}

/// The complete start of a line is where the line starts.
proof fn lemma_line_start_complete(text: Seq<char>, start_at_symbol: bool, i: int)
    requires
        0 <= i <= text.len(),
    ensures
        0 <= line_start(text, start_at_symbol, true, i) <= i,
        starts_line(text, line_start(text, start_at_symbol, true, i)),
        no_newline_in(text, line_start(text, start_at_symbol, true, i), i),
{
    law_column_counts_from_line_start(text, i);
}

/// The end of a line is where the line ends.
proof fn lemma_line_end(text: Seq<char>, i: int)
    requires
        0 <= i < text.len(),
    ensures
        i <= line_end(text, i) < text.len(),
        ends_line(text, line_end(text, i)),
        no_newline_in(text, i, line_end(text, i)),
{
    lemma_rest_of_line_is_line_end(text, i);
}

/// Spanning a selection to lines covers whole lines whatever its direction:
/// it starts where the line of its first character starts, ends where the
/// line of its last character ends, points the same way and keeps its offset.
pub proof fn law_span_lines_covers_whole_lines(text: Seq<char>, start_at_symbol: bool, s: Selection)
    requires
        s.primary_index < text.len(),
        s.secondary_index < text.len(),
        text.len() <= usize::MAX,
    ensures
        ({
            let r = span_lines(text, start_at_symbol, s);
            &&& r.first() <= s.first()
            &&& starts_line(text, r.first() as int)
            &&& no_newline_in(text, r.first() as int, s.first() as int)
            &&& s.last() <= r.last() < text.len()
            &&& ends_line(text, r.last() as int)
            &&& no_newline_in(text, s.last() as int, r.last() as int)
            &&& (r.primary_index < r.secondary_index <==> s.primary_index < s.secondary_index)
            &&& r.offset == s.offset
        }),
{
    lemma_line_start_complete(text, start_at_symbol, s.first() as int);
    lemma_line_end(text, s.last() as int);
    let a = line_start(text, start_at_symbol, true, s.first() as int);
    let b = line_end(text, s.last() as int);
    let r = span_lines(text, start_at_symbol, s);
    if s.primary_index < s.secondary_index {
        assert(r.secondary_index == b && r.primary_index == a);
    } else {
        assert(r.secondary_index == a && r.primary_index == b);
    }
}

/// Appending leaves a lone cursor right after the last selected character,
/// or on it where it is a newline or the last character of the text; the
/// offset is the cursor's column.
pub proof fn law_append_after_the_selection(fb: &Filebuffer, start_at_symbol: bool, s: Selection)
    requires
        s.primary_index < fb.text().len(),
        s.secondary_index < fb.text().len(),
        fb.text().len() <= usize::MAX,
    ensures
        ({
            let r = motion_result(Motion::Append, fb, start_at_symbol, s);
            let t = fb.text();
            &&& r.primary_index == r.secondary_index
            &&& r.primary_index == if t[s.last() as int] != '\n' && s.last() + 1 < t.len() {
                s.last() + 1
            } else {
                s.last() as int
            }
            &&& r.offset == column(t, r.primary_index as int)
        }),
{
    let t = fb.text();
    let l = s.last() as int;
    let q = if t[l] != '\n' && l + 1 < t.len() { l + 1 } else { l };
    crate::lines::lemma_column_bound(t, q);
    let r = motion_result(Motion::Append, fb, start_at_symbol, s);
    assert(r.primary_index == q);
}

/// Typing a character over a selection of more than one character puts the
/// character where the selection began, leaves the text before it as it was,
/// and leaves a lone cursor right after the typed character (on it where it
/// is the last character of the text), the offset the cursor's column.
pub proof fn law_type_over_selection(state: EditState, index: int, c: char, preserve_lines: bool, padding: char)
    requires
        0 <= index < state.0.len(),
        state.0[index].primary_index != state.0[index].secondary_index,
        state.0[index].primary_index < state.1.len(),
        state.0[index].secondary_index < state.1.len(),
        state.1.len() + 1 <= usize::MAX,
    ensures
        ({
            let r = typed(state, index, c, preserve_lines, padding);
            let f = state.0[index].first() as int;
            &&& f < r.1.len()
            &&& r.1[f] == c
            &&& r.1.take(f) == state.1.take(f)
            &&& r.0.len() == state.0.len()
            &&& r.0[index].primary_index == r.0[index].secondary_index
            &&& r.0[index].primary_index == if f + 1 < r.1.len() { f + 1 } else { f }
            &&& r.0[index].offset == column(r.1, r.0[index].primary_index as int)
        }),
{
    reveal(replaced);
    let s = state.0[index];
    let text = state.1;
    let f = s.first() as int;
    let s1 = if preserve_lines && text[s.last() as int] == '\n' { without_last(s) } else { s };
    assert(s1.first() == f);
    assert(s1.last() < text.len());
    let sels1 = state.0.update(index, s1);
    let cl = (s1.last() - s1.first() + 1) as usize;
    let (sels2, t2) = replaced(sels1, text, index, seq![c], padding);
    if text.subrange(f, f + cl) == seq![c] {
        assert(text.subrange(f, f + cl)[0] == text[f]);
        assert(t2 == text);
        assert(sels2[index] == s1);
    } else {
        let rem = text_with_removal(text, f, cl as int);
        let pd = padded(rem, padding);
        assert(rem.len() == text.len() - cl);
        assert(pd.len() >= rem.len());
        assert(t2 == text_with_insert(pd, f, seq![c]));
        assert(t2[f] == c);
        assert(t2.take(f) =~= text.take(f));
        assert(sels2[index].first() == f);
    }
    let r = typed(state, index, c, preserve_lines, padding);
    let q = if f + 1 < t2.len() { f + 1 } else { f };
    crate::lines::lemma_column_bound(t2, q);
    assert(r.1 == t2);
    assert(r.0[index].primary_index == q);
}

/// Moving left leaves a lone cursor: on the first selected character where
/// more than one is selected, else one position back (staying at the start of
/// the text); the offset is the cursor's column.
pub proof fn law_char_left(fb: &Filebuffer, start_at_symbol: bool, s: Selection)
    requires
        s.primary_index < fb.text().len(),
        s.secondary_index < fb.text().len(),
        fb.text().len() <= usize::MAX,
    ensures
        ({
            let r = motion_result(Motion::CharLeft, fb, start_at_symbol, s);
            &&& r.primary_index == r.secondary_index
            &&& r.primary_index == if s.primary_index != s.secondary_index {
                s.first() as int
            } else if s.primary_index > 0 {
                s.primary_index - 1
            } else {
                0
            }
            &&& r.offset == column(fb.text(), r.primary_index as int)
        }),
{
    let r = motion_result(Motion::CharLeft, fb, start_at_symbol, s);
    crate::lines::lemma_column_bound(fb.text(), r.primary_index as int);
}

/// Moving right leaves a lone cursor: on the last selected character where
/// more than one is selected, else one position on (staying on the last
/// character of the text); the offset is the cursor's column.
pub proof fn law_char_right(fb: &Filebuffer, start_at_symbol: bool, s: Selection)
    requires
        s.primary_index < fb.text().len(),
        s.secondary_index < fb.text().len(),
        fb.text().len() <= usize::MAX,
    ensures
        ({
            let r = motion_result(Motion::CharRight, fb, start_at_symbol, s);
            &&& r.primary_index == r.secondary_index
            &&& r.primary_index == if s.primary_index != s.secondary_index {
                s.last() as int
            } else if s.primary_index + 1 < fb.text().len() {
                s.primary_index + 1
            } else {
                s.primary_index as int
            }
            &&& r.offset == column(fb.text(), r.primary_index as int)
        }),
{
    let r = motion_result(Motion::CharRight, fb, start_at_symbol, s);
    crate::lines::lemma_column_bound(fb.text(), r.primary_index as int);
}

/// Extending left or right moves the cursor one position, inside the text,
/// and keeps the other end; the offset is the cursor's column.
pub proof fn law_extend_char(fb: &Filebuffer, start_at_symbol: bool, s: Selection)
    requires
        s.primary_index < fb.text().len(),
        s.secondary_index < fb.text().len(),
        fb.text().len() <= usize::MAX,
    ensures
        ({
            let l = motion_result(Motion::ExtendCharLeft, fb, start_at_symbol, s);
            let r = motion_result(Motion::ExtendCharRight, fb, start_at_symbol, s);
            &&& l.secondary_index == s.secondary_index
            &&& l.primary_index == if s.primary_index > 0 { s.primary_index - 1 } else { 0 }
            &&& l.offset == column(fb.text(), l.primary_index as int)
            &&& r.secondary_index == s.secondary_index
            &&& r.primary_index == if s.primary_index + 1 < fb.text().len() {
                s.primary_index + 1
            } else {
                s.primary_index as int
            }
            &&& r.offset == column(fb.text(), r.primary_index as int)
        }),
{
    let l = motion_result(Motion::ExtendCharLeft, fb, start_at_symbol, s);
    let r = motion_result(Motion::ExtendCharRight, fb, start_at_symbol, s);
    crate::lines::lemma_column_bound(fb.text(), l.primary_index as int);
    crate::lines::lemma_column_bound(fb.text(), r.primary_index as int);
}

/// Inserting leaves a lone cursor on the first selected character, the offset
/// its column.
pub proof fn law_insert_before_the_selection(fb: &Filebuffer, start_at_symbol: bool, s: Selection)
    requires
        s.primary_index < fb.text().len(),
        s.secondary_index < fb.text().len(),
        fb.text().len() <= usize::MAX,
    ensures
        ({
            let r = motion_result(Motion::Insert, fb, start_at_symbol, s);
            &&& r.primary_index == r.secondary_index
            &&& r.primary_index == s.first()
            &&& r.offset == column(fb.text(), s.first() as int)
        }),
{
    crate::lines::lemma_column_bound(fb.text(), s.first() as int);
}

/// Going to the end of the line leaves a lone cursor at the end of the
/// cursor's line, the offset its column; extending there keeps the other end.
pub proof fn law_char_end(fb: &Filebuffer, start_at_symbol: bool, s: Selection)
    requires
        s.primary_index < fb.text().len(),
        s.secondary_index < fb.text().len(),
        fb.text().len() <= usize::MAX,
    ensures
        ({
            let t = fb.text();
            let r = motion_result(Motion::CharEnd, fb, start_at_symbol, s);
            let e = motion_result(Motion::ExtendCharEnd, fb, start_at_symbol, s);
            &&& r.primary_index == r.secondary_index
            &&& s.primary_index <= r.primary_index < t.len()
            &&& ends_line(t, r.primary_index as int)
            &&& no_newline_in(t, s.primary_index as int, r.primary_index as int)
            &&& r.offset == column(t, r.primary_index as int)
            &&& e.primary_index == r.primary_index
            &&& e.secondary_index == s.secondary_index
            &&& e.offset == r.offset
        }),
{
    lemma_line_end(fb.text(), s.primary_index as int);
    crate::lines::lemma_column_bound(fb.text(), line_end(fb.text(), s.primary_index as int));
}

/// Opening a line below moves the cursor to the end of the line of the last
/// selected character, and keeps the other end and the offset.
pub proof fn law_open_below(fb: &Filebuffer, start_at_symbol: bool, s: Selection)
    requires
        s.primary_index < fb.text().len(),
        s.secondary_index < fb.text().len(),
        fb.text().len() <= usize::MAX,
    ensures
        ({
            let t = fb.text();
            let r = motion_result(Motion::OpenBelow, fb, start_at_symbol, s);
            &&& s.last() <= r.primary_index < t.len()
            &&& ends_line(t, r.primary_index as int)
            &&& no_newline_in(t, s.last() as int, r.primary_index as int)
            &&& r.secondary_index == s.secondary_index
            &&& r.offset == s.offset
        }),
{
    lemma_line_end(fb.text(), s.last() as int);
}

/// Opening a line above leaves a lone cursor where the line of the first
/// selected character starts, the offset its column.
pub proof fn law_open_above(fb: &Filebuffer, start_at_symbol: bool, s: Selection)
    requires
        s.primary_index < fb.text().len(),
        s.secondary_index < fb.text().len(),
        fb.text().len() <= usize::MAX,
    ensures
        ({
            let t = fb.text();
            let r = motion_result(Motion::OpenAbove, fb, start_at_symbol, s);
            &&& r.primary_index == r.secondary_index
            &&& r.primary_index <= s.first()
            &&& starts_line(t, r.primary_index as int)
            &&& no_newline_in(t, r.primary_index as int, s.first() as int)
            &&& r.offset == 0
        }),
{
    let t = fb.text();
    lemma_line_start_complete(t, start_at_symbol, s.first() as int);
    let a = line_start(t, start_at_symbol, true, s.first() as int);
    if a > 0 {
        assert(column(t, a) == 0);
    }
}

/// Typing a character at a lone cursor puts it in at the cursor, the rest of
/// the text following it; the cursor moves on past it, its offset the column
/// there, and every other selection whose cursor lies after the new cursor
/// moves on by one.
pub proof fn law_type_at_cursor(
    state: EditState,
    index: int,
    c: char,
    preserve_lines: bool,
    tokens: Seq<Token>,
    start_at_symbol: bool,
    padding: char,
)
    requires
        0 <= index < state.0.len(),
        state.0[index].primary_index == state.0[index].secondary_index,
        state.0[index].primary_index < state.1.len(),
        state.1.len() + 1 <= usize::MAX,
        forall|j: int| 0 <= j < state.0.len() ==> #[trigger] state.0[j].primary_index < state.1.len()
            && state.0[j].secondary_index < state.1.len(),
    ensures
        ({
            let r = edit_step(Edit::Type(c, preserve_lines), tokens, start_at_symbol, padding, state, index);
            let p = state.0[index].primary_index as int;
            &&& r.1.len() == state.1.len() + 1
            &&& r.1[p] == c
            &&& r.1.take(p) == state.1.take(p)
            &&& r.1.skip(p + 1) == state.1.skip(p)
            &&& r.0.len() == state.0.len()
            &&& r.0[index] == (Selection {
                primary_index: (p + 1) as usize,
                secondary_index: (p + 1) as usize,
                offset: column(r.1, p + 1) as usize,
            })
            &&& forall|j: int| 0 <= j < state.0.len() && j != index ==> #[trigger] r.0[j] == if state.0[j].primary_index > p + 1 {
                Selection {
                    primary_index: (state.0[j].primary_index + 1) as usize,
                    secondary_index: (state.0[j].secondary_index + 1) as usize,
                    offset: state.0[j].offset,
                }
            } else {
                state.0[j]
            }
        }),
{
    reveal(edit_step);
    let p = state.0[index].primary_index as int;
    let t2 = text_with_insert(state.1, p, seq![c]);
    assert(t2.take(p) =~= state.1.take(p));
    assert(t2.skip(p + 1) =~= state.1.skip(p));
    crate::lines::lemma_column_bound(t2, p + 1);
}

/// Removing at a lone cursor takes out the character before it, where the
/// text ends with the padding, and leaves the cursor where that character
/// was, its offset the column there; at the start of the text nothing changes.
pub proof fn law_remove_at_cursor(state: EditState, index: int, tokens: Seq<Token>, start_at_symbol: bool, padding: char)
    requires
        0 <= index < state.0.len(),
        state.0[index].primary_index == state.0[index].secondary_index,
        state.0[index].primary_index < state.1.len(),
        state.1.len() <= usize::MAX,
        state.1.last() == padding,
    ensures
        ({
            let r = edit_step(Edit::RemoveChar, tokens, start_at_symbol, padding, state, index);
            let p = state.0[index].primary_index as int;
            &&& p == 0 ==> r == state
            &&& p > 0 ==> {
                &&& r.1.len() == state.1.len() - 1
                &&& r.1.take(p - 1) == state.1.take(p - 1)
                &&& r.1.skip(p - 1) == state.1.skip(p)
                &&& r.0.len() == state.0.len()
                &&& r.0[index] == (Selection {
                    primary_index: (p - 1) as usize,
                    secondary_index: (p - 1) as usize,
                    offset: column(r.1, p - 1) as usize,
                })
            }
        }),
{
    reveal(edit_step);
    let p = state.0[index].primary_index as int;
    if p > 0 {
        let t1 = text_with_removal(state.1, p - 1, 1);
        assert(t1.len() > 0 && t1.last() == padding);
        assert(padded(t1, padding) == t1);
        assert(t1.take(p - 1) =~= state.1.take(p - 1));
        assert(t1.skip(p - 1) =~= state.1.skip(p));
        crate::lines::lemma_column_bound(t1, p - 1);
    }
}

/// Deleting at a lone cursor takes out the character under it, but for the
/// last character of the text, and leaves the cursor where it was, its offset
/// the column there.
pub proof fn law_delete_at_cursor(state: EditState, index: int, tokens: Seq<Token>, start_at_symbol: bool, padding: char)
    requires
        0 <= index < state.0.len(),
        state.0[index].primary_index == state.0[index].secondary_index,
        state.0[index].primary_index < state.1.len(),
        state.1.len() <= usize::MAX,
        state.1.last() == padding,
    ensures
        ({
            let r = edit_step(Edit::DeleteChar, tokens, start_at_symbol, padding, state, index);
            let p = state.0[index].primary_index as int;
            &&& p == state.1.len() - 1 ==> r == state
            &&& p < state.1.len() - 1 ==> {
                &&& r.1.len() == state.1.len() - 1
                &&& r.1.take(p) == state.1.take(p)
                &&& r.1.skip(p) == state.1.skip(p + 1)
                &&& r.0.len() == state.0.len()
                &&& r.0[index] == (Selection {
                    primary_index: p as usize,
                    secondary_index: p as usize,
                    offset: column(r.1, p) as usize,
                })
            }
        }),
{
    reveal(edit_step);
    let p = state.0[index].primary_index as int;
    if p < state.1.len() - 1 {
        let t1 = text_with_removal(state.1, p, 1);
        assert(t1.len() > 0 && t1.last() == padding);
        assert(padded(t1, padding) == t1);
        assert(t1.take(p) =~= state.1.take(p));
        assert(t1.skip(p) =~= state.1.skip(p + 1));
        crate::lines::lemma_column_bound(t1, p);
    }
}

/// Removing or deleting where more than one character is selected takes the
/// selected characters out, the text after them following on, and leaves a
/// lone cursor where they began, its offset the column there.
pub proof fn law_erase_selected(state: EditState, index: int, backwards: bool, tokens: Seq<Token>, start_at_symbol: bool, padding: char)
    requires
        0 <= index < state.0.len(),
        state.0[index].primary_index != state.0[index].secondary_index,
        state.0[index].primary_index < state.1.len(),
        state.0[index].secondary_index < state.1.len(),
        state.1.len() <= usize::MAX,
        state.1.last() == padding,
    ensures
        ({
            let edit = if backwards { Edit::RemoveChar } else { Edit::DeleteChar };
            let r = edit_step(edit, tokens, start_at_symbol, padding, state, index);
            let f = state.0[index].first() as int;
            let l = state.0[index].last() as int;
            &&& r.1.take(f) == state.1.take(f)
            &&& l + 1 < state.1.len() ==> r.1.skip(f) == state.1.skip(l + 1)
            &&& l + 1 == state.1.len() ==> r.1.last() == padding && r.1.len() <= f + 1
            &&& r.0.len() == state.0.len()
            &&& r.0[index].primary_index == r.0[index].secondary_index
            &&& r.0[index].primary_index == if f < r.1.len() { f } else { r.1.len() - 1 }
            &&& r.0[index].offset == column(r.1, r.0[index].primary_index as int)
        }),
{
    reveal(edit_step);
    let s = state.0[index];
    let f = s.first() as int;
    let l = s.last() as int;
    let t1 = text_with_removal(state.1, f, l - f + 1);
    assert(t1.take(f) =~= state.1.take(f));
    if l + 1 < state.1.len() {
        assert(t1.len() > 0 && t1.last() == padding);
        assert(padded(t1, padding) == t1);
        assert(t1.skip(f) =~= state.1.skip(l + 1));
    } else {
        assert(t1 =~= state.1.take(f));
    }
    let t2 = padded(t1, padding);
    assert(t2.take(f) =~= state.1.take(f));
    let q = if f < t2.len() { f } else { t2.len() - 1 };
    crate::lines::lemma_column_bound(t2, q);
}

/// Opening a line at a lone cursor puts a newline in at the cursor, the rest
/// of the text following it, and leaves the cursor on the new newline.
pub proof fn law_newline_above(state: EditState, index: int, tokens: Seq<Token>, start_at_symbol: bool, padding: char)
    requires
        0 <= index < state.0.len(),
        state.0[index].primary_index == state.0[index].secondary_index,
        state.0[index].primary_index < state.1.len(),
        state.1.len() + 1 <= usize::MAX,
    ensures
        ({
            let r = edit_step(Edit::NewlineAbove, tokens, start_at_symbol, padding, state, index);
            let p = state.0[index].primary_index as int;
            &&& r.1.len() == state.1.len() + 1
            &&& r.1[p] == '\n'
            &&& r.1.take(p) == state.1.take(p)
            &&& r.1.skip(p + 1) == state.1.skip(p)
            &&& r.0.len() == state.0.len()
            &&& r.0[index] == state.0[index]
        }),
{
    reveal(edit_step);
    let p = state.0[index].primary_index as int;
    let t2 = text_with_insert(state.1, p, seq!['\n']);
    assert(t2.take(p) =~= state.1.take(p));
    assert(t2.skip(p + 1) =~= state.1.skip(p));
}

/// Opening a line below a lone cursor puts a newline in right after it, the
/// rest of the text following, and moves the cursor onto the new newline,
/// its offset the column there.
pub proof fn law_newline_below(state: EditState, index: int, tokens: Seq<Token>, start_at_symbol: bool, padding: char)
    requires
        0 <= index < state.0.len(),
        state.0[index].primary_index == state.0[index].secondary_index,
        state.0[index].primary_index < state.1.len(),
        state.1.len() + 1 <= usize::MAX,
    ensures
        ({
            let r = edit_step(Edit::NewlineBelow, tokens, start_at_symbol, padding, state, index);
            let p = state.0[index].primary_index as int;
            &&& r.1.len() == state.1.len() + 1
            &&& r.1[p + 1] == '\n'
            &&& r.1.take(p + 1) == state.1.take(p + 1)
            &&& r.1.skip(p + 2) == state.1.skip(p + 1)
            &&& r.0.len() == state.0.len()
            &&& r.0[index] == (Selection {
                primary_index: (p + 1) as usize,
                secondary_index: (p + 1) as usize,
                offset: column(r.1, p + 1) as usize,
            })
        }),
{
    reveal(edit_step);
    let p = state.0[index].primary_index as int;
    let t2 = text_with_insert(state.1, p + 1, seq!['\n']);
    assert(t2.take(p + 1) =~= state.1.take(p + 1));
    assert(t2.skip(p + 2) =~= state.1.skip(p + 1));
    crate::lines::lemma_column_bound(t2, p + 1);
}

/// Deleting the lines of a selection takes out every line from the one of
/// its first character to the one of its last, newlines included, and leaves
/// a lone cursor where they began, its offset the column there.
pub proof fn law_erase_lines(state: EditState, index: int, tokens: Seq<Token>, start_at_symbol: bool, padding: char)
    requires
        0 <= index < state.0.len(),
        state.0[index].primary_index < state.1.len(),
        state.0[index].secondary_index < state.1.len(),
        state.1.len() <= usize::MAX,
        state.1.last() == padding,
    ensures
        ({
            let r = edit_step(Edit::EraseSpannedLines, tokens, start_at_symbol, padding, state, index);
            let f = state.0[index].first() as int;
            let l = state.0[index].last() as int;
            exists|a: int, e: int| {
                &&& 0 <= a <= f && starts_line(state.1, a) && no_newline_in(state.1, a, f)
                &&& l <= e < state.1.len() && ends_line(state.1, e) && no_newline_in(state.1, l, e)
                &&& r.1.take(a) == state.1.take(a)
                &&& (e + 1 < state.1.len() ==> r.1.skip(a) == state.1.skip(e + 1))
                &&& (e + 1 == state.1.len() ==> r.1.last() == padding && r.1.len() <= a + 1)
                &&& r.0[index].primary_index == r.0[index].secondary_index
                &&& r.0[index].primary_index == if a < r.1.len() { a } else { r.1.len() - 1 }
                &&& r.0[index].offset == column(r.1, r.0[index].primary_index as int)
            }
        }),
{
    reveal(edit_step);
    let s = state.0[index];
    law_span_lines_covers_whole_lines(state.1, start_at_symbol, s);
    let sp = span_lines(state.1, start_at_symbol, s);
    let a = sp.first() as int;
    let e = sp.last() as int;
    let t1 = text_with_removal(state.1, a, e - a + 1);
    assert(t1.take(a) =~= state.1.take(a));
    if e + 1 < state.1.len() {
        assert(t1.len() > 0 && t1.last() == padding);
        assert(padded(t1, padding) == t1);
        assert(t1.skip(a) =~= state.1.skip(e + 1));
    } else {
        assert(t1 =~= state.1.take(a));
    }
    let t2 = padded(t1, padding);
    assert(t2.take(a) =~= state.1.take(a));
    let q = if a < t2.len() { a } else { t2.len() - 1 };
    crate::lines::lemma_column_bound(t2, q);
    let r = edit_step(Edit::EraseSpannedLines, tokens, start_at_symbol, padding, state, index);
    assert(r.1 == t2);
}

proof fn lemma_first_newline_clear(text: Seq<char>, from: int, to: int)
    ensures
        first_newline(text, from, to) matches Some(j) ==> from <= j < to && text[j] == '\n' && no_newline_in(text, from, j),
        first_newline(text, from, to) is None ==> no_newline_in(text, from, to),
    decreases to - from,
{
    if from < to && text[from] != '\n' {
        lemma_first_newline_clear(text, from + 1, to);
    }
}

proof fn lemma_last_newline_clear(text: Seq<char>, index: int)
    requires
        0 <= index,
    ensures
        last_newline_before(text, index) matches Some(j) ==> 0 <= j < index && text[j] == '\n' && no_newline_in(text, j + 1, index),
        last_newline_before(text, index) is None ==> no_newline_in(text, 0, index),
    decreases index,
{
    if index > 0 && text[index - 1] != '\n' {
        lemma_last_newline_clear(text, index - 1);
    }
}

/// The column of a position after a newline with no newline between them.
proof fn lemma_column_after(text: Seq<char>, j: int, d: int)
    requires
        0 <= j < d,
        text[j] == '\n',
        no_newline_in(text, j + 1, d),
    ensures
        column(text, d) == d - (j + 1),
    decreases d - j,
{
    if d > j + 1 {
        lemma_column_after(text, j, d - 1);
    }
}

/// The column of a position of the first line.
proof fn lemma_column_first_line(text: Seq<char>, d: int)
    requires
        0 <= d,
        no_newline_in(text, 0, d),
    ensures
        column(text, d) == d,
    decreases d,
{
    if d > 0 {
        lemma_column_first_line(text, d - 1);
    }
}

/// Where a cursor one line down lands.
pub open spec fn lands_below(text: Seq<char>, p: int, offset: int, d: int) -> bool {
    ||| exists|j: int| {
        &&& p <= j < d
        &&& text[j] == '\n'
        &&& no_newline_in(text, p, j)
        &&& no_newline_in(text, j + 1, d)
        &&& (column(text, d) == offset || column(text, d) < offset && ends_line(text, d))
    }
    ||| no_newline_in(text, p, text.len() - 1) && d == text.len() - 1
}

/// Where a cursor one line up lands.
pub open spec fn lands_above(text: Seq<char>, p: int, offset: int, u: int) -> bool {
    ||| exists|j: int| {
        &&& u <= j < p
        &&& text[j] == '\n'
        &&& no_newline_in(text, j + 1, p)
        &&& no_newline_in(text, u, j)
        &&& (column(text, u) == offset || column(text, u) < offset && ends_line(text, u))
    }
    ||| no_newline_in(text, 0, p) && u == 0
}

proof fn lemma_down_target(text: Seq<char>, p: int, offset: int)
    requires
        0 <= p < text.len(),
        0 <= offset,
    ensures
        lands_below(text, p, offset, down_target(text, p, offset)),
{
    let last = text.len() - 1;
    lemma_first_newline_clear(text, p, last);
    let d = down_target(text, p, offset);
    match first_newline(text, p, last) {
        Some(j) => {
            lemma_rest_of_line_is_line_end(text, j + 1);
            let e = j + 1 + rest_of_line(text, j + 1, last) - 1;
            assert(no_newline_in(text, j + 1, d));
            lemma_column_after(text, j, d);
            if d - (j + 1) < offset {
                assert(d == e);
            }
        },
        None => {},
    }
}

proof fn lemma_up_target(text: Seq<char>, p: int, offset: int)
    requires
        0 <= p < text.len(),
        0 <= offset,
    ensures
        lands_above(text, p, offset, up_target(text, p, offset)),
{
    lemma_last_newline_clear(text, p);
    let u = up_target(text, p, offset);
    match last_newline_before(text, p) {
        Some(j) => {
            law_column_counts_from_line_start(text, j);
            let a = j - column(text, j);
            assert(no_newline_in(text, u, j));
            if a == 0 {
                lemma_column_first_line(text, u);
            } else {
                lemma_column_after(text, a - 1, u);
            }
        },
        None => {},
    }
}

/// Moving down leaves a lone cursor: on the last selected character where the
/// selection spans lines, else on the line below at the column of the offset,
/// or at the end of that line where it is shorter (on the last character
/// where there is no line below). The offset is kept, but for a cursor at
/// either end of the text, where it becomes the column.
pub proof fn law_char_down(fb: &Filebuffer, start_at_symbol: bool, s: Selection)
    requires
        s.primary_index < fb.text().len(),
        s.secondary_index < fb.text().len(),
        fb.text().len() <= usize::MAX,
    ensures
        ({
            let t = fb.text();
            let r = motion_result(Motion::CharDown, fb, start_at_symbol, s);
            &&& r.primary_index == r.secondary_index
            &&& has_newline(t, s.first() as int, s.last() as int) ==> r.primary_index == s.last()
            &&& !has_newline(t, s.first() as int, s.last() as int) ==> lands_below(t, s.primary_index as int,
                s.offset as int, r.primary_index as int)
            &&& r.offset == if r.primary_index == 0 || r.primary_index == t.len() - 1 {
                column(t, r.primary_index as int) as int
            } else {
                s.offset as int
            }
        }),
{
    let t = fb.text();
    super::motion::lemma_targets(t, s.primary_index as int, s.offset as int);
    lemma_down_target(t, s.primary_index as int, s.offset as int);
    let r = motion_result(Motion::CharDown, fb, start_at_symbol, s);
    crate::lines::lemma_column_bound(t, r.primary_index as int);
}

/// Moving up leaves a lone cursor: on the first selected character where the
/// selection spans lines, else on the line above at the column of the offset,
/// or at the end of that line where it is shorter (at the start of the text
/// where there is no line above). The offset is kept, but for a cursor at
/// either end of the text, where it becomes the column.
pub proof fn law_char_up(fb: &Filebuffer, start_at_symbol: bool, s: Selection)
    requires
        s.primary_index < fb.text().len(),
        s.secondary_index < fb.text().len(),
        fb.text().len() <= usize::MAX,
    ensures
        ({
            let t = fb.text();
            let r = motion_result(Motion::CharUp, fb, start_at_symbol, s);
            &&& r.primary_index == r.secondary_index
            &&& has_newline(t, s.first() as int, s.last() as int) ==> r.primary_index == s.first()
            &&& !has_newline(t, s.first() as int, s.last() as int) ==> lands_above(t, s.primary_index as int,
                s.offset as int, r.primary_index as int)
            &&& r.offset == if r.primary_index == 0 || r.primary_index == t.len() - 1 {
                column(t, r.primary_index as int) as int
            } else {
                s.offset as int
            }
        }),
{
    let t = fb.text();
    super::motion::lemma_targets(t, s.primary_index as int, s.offset as int);
    lemma_up_target(t, s.primary_index as int, s.offset as int);
    let r = motion_result(Motion::CharUp, fb, start_at_symbol, s);
    crate::lines::lemma_column_bound(t, r.primary_index as int);
}

/// Selecting the line below (above) selects the whole line on which moving
/// down (up) puts the cursor, the cursor at its end and the offset the column
/// there.
pub proof fn law_line_down_up(fb: &Filebuffer, start_at_symbol: bool, s: Selection)
    requires
        s.primary_index < fb.text().len(),
        s.secondary_index < fb.text().len(),
        fb.text().len() <= usize::MAX,
    ensures
        ({
            let t = fb.text();
            let down = motion_result(Motion::CharDown, fb, start_at_symbol, s).primary_index as int;
            let up = motion_result(Motion::CharUp, fb, start_at_symbol, s).primary_index as int;
            let ld = motion_result(Motion::LineDown, fb, start_at_symbol, s);
            let lu = motion_result(Motion::LineUp, fb, start_at_symbol, s);
            &&& ld.secondary_index <= down <= ld.primary_index < t.len()
            &&& starts_line(t, ld.secondary_index as int) && ends_line(t, ld.primary_index as int)
            &&& no_newline_in(t, ld.secondary_index as int, ld.primary_index as int)
            &&& ld.offset == column(t, ld.primary_index as int)
            &&& lu.secondary_index <= up <= lu.primary_index < t.len()
            &&& starts_line(t, lu.secondary_index as int) && ends_line(t, lu.primary_index as int)
            &&& no_newline_in(t, lu.secondary_index as int, lu.primary_index as int)
            &&& lu.offset == column(t, lu.primary_index as int)
        }),
{
    let t = fb.text();
    super::motion::lemma_targets(t, s.primary_index as int, s.offset as int);
    let down = motion_result(Motion::CharDown, fb, start_at_symbol, s).primary_index as int;
    let up = motion_result(Motion::CharUp, fb, start_at_symbol, s).primary_index as int;
    lemma_line_start_complete(t, start_at_symbol, down);
    lemma_line_end(t, down);
    lemma_line_start_complete(t, start_at_symbol, up);
    lemma_line_end(t, up);
    crate::lines::lemma_column_bound(t, line_end(t, down));
    crate::lines::lemma_column_bound(t, line_end(t, up));
}

/// Only whitespace lies in `text[from .. to]`.
pub open spec fn blank_in(text: Seq<char>, from: int, to: int) -> bool {
    forall|k: int| from <= k < to ==> is_whitespace(#[trigger] text[k])
}

/// `r` is where a cursor at `p` starts its line: the line's first position,
/// or, where starting at the first symbol is wanted, the first character of
/// the line before `p` that is not whitespace, if there is one.
pub open spec fn line_start_for(text: Seq<char>, start_at_symbol: bool, p: int, r: int) -> bool {
    &&& 0 <= r <= p
    &&& no_newline_in(text, r, p)
    &&& if start_at_symbol {
        ||| starts_line(text, r) && blank_in(text, r, p)
        ||| r < p && !is_whitespace(text[r]) && forall|k: int| 0 <= k < r && no_newline_in(text, k, r)
            ==> is_whitespace(#[trigger] text[k])
    } else {
        starts_line(text, r)
    }
}

proof fn lemma_first_non_whitespace_clear(text: Seq<char>, from: int, to: int)
    ensures
        first_non_whitespace(text, from, to) matches Some(j) ==> from <= j < to && !is_whitespace(text[j])
            && blank_in(text, from, j),
        first_non_whitespace(text, from, to) is None ==> blank_in(text, from, to),
    decreases to - from,
{
    if from < to && is_whitespace(text[from]) {
        lemma_first_non_whitespace_clear(text, from + 1, to);
    }
}

proof fn lemma_start_target(text: Seq<char>, start_at_symbol: bool, p: int)
    requires
        0 <= p < text.len(),
    ensures
        line_start_for(text, start_at_symbol, p, start_target(text, start_at_symbol, false, p, column(text, p) as int)),
        line_start_for(text, false, p, start_target(text, start_at_symbol, true, p, column(text, p) as int)),
{
    law_column_counts_from_line_start(text, p);
    let a = p - column(text, p);
    lemma_first_non_whitespace_clear(text, a, p);
    if start_at_symbol {
        match first_non_whitespace(text, a, p) {
            Some(j) => {
                assert forall|k: int| 0 <= k < j && no_newline_in(text, k, j) implies is_whitespace(#[trigger] text[k]) by {
                    if k < a {
                        assert(text[a - 1] == '\n');
                    }
                }
            },
            None => {},
        }
    }
}

/// Going to the start of the line leaves a lone cursor where the cursor's
/// line starts (at its first symbol, where that is wanted), the offset the
/// column there; extending there keeps the other end, and takes the line's
/// first position where the selection spans lines.
pub proof fn law_char_start(fb: &Filebuffer, start_at_symbol: bool, s: Selection)
    requires
        s.primary_index < fb.text().len(),
        s.secondary_index < fb.text().len(),
        fb.text().len() <= usize::MAX,
    ensures
        ({
            let t = fb.text();
            let r = motion_result(Motion::CharStart, fb, start_at_symbol, s);
            let e = motion_result(Motion::ExtendCharStart, fb, start_at_symbol, s);
            &&& r.primary_index == r.secondary_index
            &&& line_start_for(t, start_at_symbol, s.primary_index as int, r.primary_index as int)
            &&& r.offset == column(t, r.primary_index as int)
            &&& e.secondary_index == s.secondary_index
            &&& line_start_for(t, start_at_symbol && !has_newline(t, s.first() as int, s.last() as int),
                s.primary_index as int, e.primary_index as int)
            &&& e.offset == column(t, e.primary_index as int)
        }),
{
    let t = fb.text();
    let p = s.primary_index as int;
    lemma_start_target(t, start_at_symbol, p);
    law_column_counts_from_line_start(t, p);
    lemma_first_non_whitespace_clear(t, p - column(t, p), p);
    let r = motion_result(Motion::CharStart, fb, start_at_symbol, s);
    let e = motion_result(Motion::ExtendCharStart, fb, start_at_symbol, s);
    crate::lines::lemma_column_bound(t, r.primary_index as int);
    crate::lines::lemma_column_bound(t, e.primary_index as int);
}

/// Spanning a selection to words widens it from the start of the word at its
/// first character to the end of the word at its last, pointing the same way
/// and keeping its offset.
pub proof fn law_span_words_covers_whole_words(fb: &Filebuffer, start_at_symbol: bool, s: Selection)
    requires
        s.primary_index < fb.text().len(),
        s.secondary_index < fb.text().len(),
        fb.text().len() <= usize::MAX,
    ensures
        ({
            let r = motion_result(Motion::WordSpan, fb, start_at_symbol, s);
            let a = fb.word_at(s.first() as int);
            let b = fb.word_at(s.last() as int);
            &&& r.first() == a.index
            &&& r.last() == b.index + b.length - 1
            &&& r.first() <= s.first() <= s.last() <= r.last() < fb.text().len()
            &&& (r.primary_index < r.secondary_index <==> s.primary_index < s.secondary_index)
            &&& r.offset == s.offset
        }),
{
    let len = fb.text().len() as int;
    crate::filebuffer::lemma_word_at(fb.tokens(), s.first() as int, len);
    crate::filebuffer::lemma_word_at(fb.tokens(), s.last() as int, len);
}

/// Moving a word left (right) selects a whole word, its cursor at the word's
/// end: where the selection spans words, the word at its first (last)
/// character; else the word before (after) the one at the cursor, or that
/// one itself at the start (end) of the text. The offset is the column where
/// the word starts.
pub proof fn law_word_left_right(fb: &Filebuffer, start_at_symbol: bool, s: Selection)
    requires
        s.primary_index < fb.text().len(),
        s.secondary_index < fb.text().len(),
        fb.text().len() <= usize::MAX,
    ensures
        ({
            let len = fb.text().len() as int;
            let spans = fb.word_at(s.first() as int).index != fb.word_at(s.last() as int).index;
            let w0 = fb.word_at(s.primary_index as int);
            let before = if spans {
                fb.word_at(s.first() as int)
            } else if w0.index == 0 {
                w0
            } else {
                fb.word_at(w0.index - 1)
            };
            let after = if spans {
                fb.word_at(s.last() as int)
            } else if w0.index + w0.length < len {
                fb.word_at(w0.index + w0.length)
            } else {
                w0
            };
            let l = motion_result(Motion::WordLeft, fb, start_at_symbol, s);
            let r = motion_result(Motion::WordRight, fb, start_at_symbol, s);
            &&& l.secondary_index == before.index
            &&& l.primary_index == before.index + before.length - 1
            &&& l.offset == column(fb.text(), before.index as int)
            &&& r.secondary_index == after.index
            &&& r.primary_index == after.index + after.length - 1
            &&& r.offset == column(fb.text(), after.index as int)
        }),
{
    let len = fb.text().len() as int;
    lemma_neighbour_words(fb.tokens(), s.primary_index as int, len);
    crate::filebuffer::lemma_word_at(fb.tokens(), s.first() as int, len);
    crate::filebuffer::lemma_word_at(fb.tokens(), s.last() as int, len);
    let l = motion_result(Motion::WordLeft, fb, start_at_symbol, s);
    let r = motion_result(Motion::WordRight, fb, start_at_symbol, s);
    crate::lines::lemma_column_bound(fb.text(), l.first() as int);
    crate::lines::lemma_column_bound(fb.text(), r.first() as int);
}

/// Handling Append leaves the window in character mode, and each selection
/// that actions move a lone cursor right after its last character, or on it
/// where that is a newline or the last character of the text; the others
/// stay.
pub proof fn law_append_action(
    new: &Textbuffer,
    old: &Textbuffer,
    ctx: &TextbufferContext,
    fb: &Filebuffer,
    old_fb: &Filebuffer,
    r: Option<Action>,
)
    requires
        old.wf(old_fb),
        Textbuffer::action_done(new, old, ctx, fb, old_fb, Action::Append, r),
    ensures
        new.selection_mode() == SelectionMode::Character,
        new.sels().len() == old.sels().len(),
        forall|i: int| 0 <= i < old.first_moved() ==> new.sels()[i] == old.sels()[i],
        forall|i: int| old.first_moved() <= i < old.sels().len() ==> {
            let s = #[trigger] old.sels()[i];
            let n = new.sels()[i];
            let t = old_fb.text();
            &&& n.primary_index == n.secondary_index
            &&& n.primary_index == if t[s.last() as int] != '\n' && s.last() + 1 < t.len() {
                s.last() + 1
            } else {
                s.last() as int
            }
            &&& n.offset == column(t, n.primary_index as int)
        },
{
    assert forall|i: int| old.first_moved() <= i < old.sels().len() implies {
        let s = #[trigger] old.sels()[i];
        let n = new.sels()[i];
        let t = old_fb.text();
        &&& n.primary_index == n.secondary_index
        &&& n.primary_index == if t[s.last() as int] != '\n' && s.last() + 1 < t.len() {
            s.last() + 1
        } else {
            s.last() as int
        }
        &&& n.offset == column(t, n.primary_index as int)
    } by {
        assert(super::selection_in(old.sels()[i], old_fb.text().len() as int));
        law_append_after_the_selection(old_fb, ctx.start_at_symbol, old.sels()[i]);
    }
}

/// Handling Insert leaves the window in character mode, and each selection
/// that actions move a lone cursor on its first character; the others stay.
pub proof fn law_insert_action(
    new: &Textbuffer,
    old: &Textbuffer,
    ctx: &TextbufferContext,
    fb: &Filebuffer,
    old_fb: &Filebuffer,
    r: Option<Action>,
)
    requires
        old.wf(old_fb),
        Textbuffer::action_done(new, old, ctx, fb, old_fb, Action::Insert, r),
    ensures
        new.selection_mode() == SelectionMode::Character,
        new.sels().len() == old.sels().len(),
        forall|i: int| 0 <= i < old.first_moved() ==> new.sels()[i] == old.sels()[i],
        forall|i: int| old.first_moved() <= i < old.sels().len() ==> {
            let s = #[trigger] old.sels()[i];
            let n = new.sels()[i];
            &&& n.primary_index == n.secondary_index
            &&& n.primary_index == s.first()
            &&& n.offset == column(old_fb.text(), s.first() as int)
        },
{
    assert forall|i: int| old.first_moved() <= i < old.sels().len() implies {
        let s = #[trigger] old.sels()[i];
        let n = new.sels()[i];
        &&& n.primary_index == n.secondary_index
        &&& n.primary_index == s.first()
        &&& n.offset == column(old_fb.text(), s.first() as int)
    } by {
        assert(super::selection_in(old.sels()[i], old_fb.text().len() as int));
        law_insert_before_the_selection(old_fb, ctx.start_at_symbol, old.sels()[i]);
    }
}

/// Switching to line mode from another mode widens every selection to the
/// whole lines it touches, from the start of the line of its first character
/// to the end of the line of its last, pointing the same way.
pub proof fn law_line_mode_action(
    new: &Textbuffer,
    old: &Textbuffer,
    ctx: &TextbufferContext,
    fb: &Filebuffer,
    old_fb: &Filebuffer,
    r: Option<Action>,
)
    requires
        old.wf(old_fb),
        old.selection_mode() != SelectionMode::Line,
        Textbuffer::action_done(new, old, ctx, fb, old_fb, Action::LineMode, r),
    ensures
        new.selection_mode() == SelectionMode::Line,
        new.sels().len() == old.sels().len(),
        forall|i: int| 0 <= i < old.sels().len() ==> {
            let s = #[trigger] old.sels()[i];
            let n = new.sels()[i];
            let t = old_fb.text();
            &&& n.first() <= s.first() && starts_line(t, n.first() as int) && no_newline_in(t, n.first() as int, s.first() as int)
            &&& s.last() <= n.last() < t.len() && ends_line(t, n.last() as int) && no_newline_in(t, s.last() as int, n.last() as int)
            &&& (n.primary_index < n.secondary_index <==> s.primary_index < s.secondary_index)
        },
{
    assert forall|i: int| 0 <= i < old.sels().len() implies {
        let s = #[trigger] old.sels()[i];
        let n = new.sels()[i];
        let t = old_fb.text();
        &&& n.first() <= s.first() && starts_line(t, n.first() as int) && no_newline_in(t, n.first() as int, s.first() as int)
        &&& s.last() <= n.last() < t.len() && ends_line(t, n.last() as int) && no_newline_in(t, s.last() as int, n.last() as int)
        &&& (n.primary_index < n.secondary_index <==> s.primary_index < s.secondary_index)
    } by {
        assert(super::selection_in(old.sels()[i], old_fb.text().len() as int));
        law_span_lines_covers_whole_lines(old_fb.text(), ctx.start_at_symbol, old.sels()[i]);
    }
}

/// Switching to word mode from another mode widens every selection to the
/// whole words it touches, from the start of the word at its first character
/// to the end of the word at its last, pointing the same way.
pub proof fn law_word_mode_action(
    new: &Textbuffer,
    old: &Textbuffer,
    ctx: &TextbufferContext,
    fb: &Filebuffer,
    old_fb: &Filebuffer,
    r: Option<Action>,
)
    requires
        old.wf(old_fb),
        old.selection_mode() != SelectionMode::Word,
        Textbuffer::action_done(new, old, ctx, fb, old_fb, Action::WordMode, r),
    ensures
        new.selection_mode() == SelectionMode::Word,
        new.sels().len() == old.sels().len(),
        forall|i: int| 0 <= i < old.sels().len() ==> {
            let s = #[trigger] old.sels()[i];
            let n = new.sels()[i];
            &&& n.first() == old_fb.word_at(s.first() as int).index
            &&& n.last() == old_fb.word_at(s.last() as int).index + old_fb.word_at(s.last() as int).length - 1
            &&& (n.primary_index < n.secondary_index <==> s.primary_index < s.secondary_index)
        },
{
    assert forall|i: int| 0 <= i < old.sels().len() implies {
        let s = #[trigger] old.sels()[i];
        let n = new.sels()[i];
        &&& n.first() == old_fb.word_at(s.first() as int).index
        &&& n.last() == old_fb.word_at(s.last() as int).index + old_fb.word_at(s.last() as int).length - 1
        &&& (n.primary_index < n.secondary_index <==> s.primary_index < s.secondary_index)
    } by {
        assert(super::selection_in(old.sels()[i], old_fb.text().len() as int));
        law_span_words_covers_whole_words(old_fb, ctx.start_at_symbol, old.sels()[i]);
    }
}

/// Typing a character in a window with one selection of more than one
/// character puts the character where the selection began and leaves a lone
/// cursor right after it (on it where it ends the text).
pub proof fn law_type_over_the_one_selection(
    sels: Seq<Selection>,
    text: Seq<char>,
    c: char,
    preserve_lines: bool,
    tokens: Seq<Token>,
    start_at_symbol: bool,
    padding: char,
)
    requires
        sels.len() == 1,
        sels[0].primary_index != sels[0].secondary_index,
        sels[0].primary_index < text.len(),
        sels[0].secondary_index < text.len(),
        text.len() + 1 <= usize::MAX,
    ensures
        ({
            let r = super::editing::edited(Edit::Type(c, preserve_lines), tokens, start_at_symbol, padding, (sels, text), 0, 1);
            let f = sels[0].first() as int;
            &&& r.1[f] == c
            &&& r.1.take(f) == text.take(f)
            &&& r.0.len() == 1
            &&& r.0[0].primary_index == r.0[0].secondary_index
            &&& r.0[0].primary_index == if f + 1 < r.1.len() { f + 1 } else { f }
            &&& r.0[0].offset == column(r.1, r.0[0].primary_index as int)
        }),
{
    reveal(edit_step);
    let state = (sels, text);
    assert(super::editing::edited(Edit::Type(c, preserve_lines), tokens, start_at_symbol, padding, state, 0, 0) == state);
    law_type_over_selection(state, 0, c, preserve_lines, padding);
}

/// The lines found scanning on from a position are the text's lines in
/// order: the first begins where the current line began, each next one right
/// after the character that ends the one before, none holds a newline before
/// the character that ends it, and they are numbered on one by one. The scan
/// stops at the end of the text or after the line numbered one past `limit`.
pub proof fn law_lines_in_order(text: Seq<char>, i: int, start: int, number: int, limit: int)
    requires
        0 <= start <= i,
        no_newline_in(text, start, i),
        text.len() <= usize::MAX,
        0 <= number,
        limit + 1 <= usize::MAX,
    ensures
        ({
            let lines = lines_from(text, i, start, number, limit);
            &&& forall|k: int| 0 <= k < lines.len() ==> {
                let line = #[trigger] lines[k];
                &&& line.number == number + 1 + k
                &&& line.index + line.length < text.len()
                &&& no_newline_in(text, line.index as int, line.index + line.length)
                &&& ends_line(text, line.index + line.length)
                &&& !line.highlighted
            }
            &&& lines.len() > 0 ==> lines[0].index == start
            &&& forall|k: int| 0 < k < lines.len() ==> #[trigger] lines[k].index == lines[k - 1].index + lines[k - 1].length + 1
            &&& (i < text.len() && number <= limit ==> lines.len() > 0)
            &&& lines.len() > 0 && lines.last().index + lines.last().length < text.len() - 1 ==> lines.last().number
                == limit + 1
        }),
    decreases text.len() - i,
{
    let lines = lines_from(text, i, start, number, limit);
    if i < 0 || i >= text.len() || number > limit {
    } else if super::info::ends_line(text, i) {
        law_lines_in_order(text, i + 1, i + 1, number + 1, limit);
        let rest = lines_from(text, i + 1, i + 1, number + 1, limit);
        let head = LineInfo { number: (number + 1) as usize, index: start as usize, length: (i - start) as usize, highlighted: false };
        assert(lines == seq![head] + rest);
        assert forall|k: int| 0 <= k < lines.len() implies {
            let line = #[trigger] lines[k];
            &&& line.number == number + 1 + k
            &&& line.index + line.length < text.len()
            &&& no_newline_in(text, line.index as int, line.index + line.length)
            &&& ends_line(text, line.index + line.length)
            &&& !line.highlighted
        } by {
            if k > 0 {
                assert(lines[k] == rest[k - 1]);
            }
        }
        assert forall|k: int| 0 < k < lines.len() implies #[trigger] lines[k].index == lines[k - 1].index + lines[k - 1].length + 1 by {
            assert(lines[k] == rest[k - 1]);
            if k > 1 {
                assert(lines[k - 1] == rest[k - 2]);
            }
        }
        if rest.len() > 0 {
            assert(lines.last() == rest.last());
        } else {
            assert(lines.last() == head);
            if head.index + head.length < text.len() - 1 {
                assert(i + 1 < text.len());
                assert(number + 1 > limit);
            }
        }
    } else {
        law_lines_in_order(text, i + 1, start, number, limit);
        assert(lines == lines_from(text, i + 1, start, number, limit));
    }
}

/// Lines are counted from 0 at the start of the text, and each newline
/// passed starts the next one.
pub proof fn law_lines_counted_by_newlines(text: Seq<char>, i: int)
    requires
        0 <= i < text.len(),
    ensures
        line_of(text, 0) == 0,
        line_of(text, i + 1) == line_of(text, i) + if text[i] == '\n' { 1int } else { 0int },
{
    crate::lines::lemma_newline_count_step(text, i);
    assert(text.take(0) =~= Seq::<char>::empty());
}

/// Extending up (down) moves the cursor where moving a lone cursor up (down)
/// would land it, and keeps the other end; the offset is kept, but for a
/// cursor at either end of the text, where it becomes the column.
pub proof fn law_extend_char_vertical(fb: &Filebuffer, start_at_symbol: bool, s: Selection)
    requires
        s.primary_index < fb.text().len(),
        s.secondary_index < fb.text().len(),
        fb.text().len() <= usize::MAX,
    ensures
        ({
            let t = fb.text();
            let u = motion_result(Motion::ExtendCharUp, fb, start_at_symbol, s);
            let d = motion_result(Motion::ExtendCharDown, fb, start_at_symbol, s);
            &&& u.secondary_index == s.secondary_index
            &&& lands_above(t, s.primary_index as int, s.offset as int, u.primary_index as int)
            &&& u.offset == if u.first() == 0 || u.last() == t.len() - 1 {
                column(t, u.primary_index as int) as int
            } else {
                s.offset as int
            }
            &&& d.secondary_index == s.secondary_index
            &&& lands_below(t, s.primary_index as int, s.offset as int, d.primary_index as int)
            &&& d.offset == if d.first() == 0 || d.last() == t.len() - 1 {
                column(t, d.primary_index as int) as int
            } else {
                s.offset as int
            }
        }),
{
    let t = fb.text();
    super::motion::lemma_targets(t, s.primary_index as int, s.offset as int);
    lemma_up_target(t, s.primary_index as int, s.offset as int);
    lemma_down_target(t, s.primary_index as int, s.offset as int);
    let u = motion_result(Motion::ExtendCharUp, fb, start_at_symbol, s);
    let d = motion_result(Motion::ExtendCharDown, fb, start_at_symbol, s);
    crate::lines::lemma_column_bound(t, u.primary_index as int);
    crate::lines::lemma_column_bound(t, d.primary_index as int);
}

/// Extending a line up (down) moves the cursor where moving a lone cursor up
/// (down) would land it, then widens the selection to the whole lines it
/// touches, pointing the same way; the offset is the column of the cursor.
pub proof fn law_extend_line_vertical(fb: &Filebuffer, start_at_symbol: bool, s: Selection)
    requires
        s.primary_index < fb.text().len(),
        s.secondary_index < fb.text().len(),
        fb.text().len() <= usize::MAX,
    ensures
        ({
            let t = fb.text();
            let p = s.primary_index as int;
            let q = s.secondary_index as int;
            &&& exists|c: int| {
                let r = motion_result(Motion::ExtendLineUp, fb, start_at_symbol, s);
                let lo = if c < q { c } else { q };
                let hi = if c < q { q } else { c };
                &&& #[trigger] lands_above(t, p, s.offset as int, c)
                &&& r.first() <= lo && starts_line(t, r.first() as int) && no_newline_in(t, r.first() as int, lo)
                &&& hi <= r.last() < t.len() && ends_line(t, r.last() as int) && no_newline_in(t, hi, r.last() as int)
                &&& (r.primary_index < r.secondary_index <==> c < q)
                &&& r.offset == column(t, r.primary_index as int)
            }
            &&& exists|c: int| {
                let r = motion_result(Motion::ExtendLineDown, fb, start_at_symbol, s);
                let lo = if c < q { c } else { q };
                let hi = if c < q { q } else { c };
                &&& #[trigger] lands_below(t, p, s.offset as int, c)
                &&& r.first() <= lo && starts_line(t, r.first() as int) && no_newline_in(t, r.first() as int, lo)
                &&& hi <= r.last() < t.len() && ends_line(t, r.last() as int) && no_newline_in(t, hi, r.last() as int)
                &&& (r.primary_index < r.secondary_index <==> c < q)
                &&& r.offset == column(t, r.primary_index as int)
            }
        }),
{
    let t = fb.text();
    let p = s.primary_index as int;
    super::motion::lemma_targets(t, p, s.offset as int);
    lemma_up_target(t, p, s.offset as int);
    lemma_down_target(t, p, s.offset as int);
    let cu = up_target(t, p, s.offset as int);
    let cd = down_target(t, p, s.offset as int);
    let su = s.with_primary(cu as usize);
    let sd = s.with_primary(cd as usize);
    law_span_lines_covers_whole_lines(t, start_at_symbol, su);
    law_span_lines_covers_whole_lines(t, start_at_symbol, sd);
    let ru = motion_result(Motion::ExtendLineUp, fb, start_at_symbol, s);
    let rd = motion_result(Motion::ExtendLineDown, fb, start_at_symbol, s);
    crate::lines::lemma_column_bound(t, ru.primary_index as int);
    crate::lines::lemma_column_bound(t, rd.primary_index as int);
    assert(ru.first() == span_lines(t, start_at_symbol, su).first());
    assert(rd.first() == span_lines(t, start_at_symbol, sd).first());
}

/// Moving a word up (down) selects a whole word, its cursor at the word's
/// end: where the selection spans words, the word at its first (last)
/// character; else the word at the position where moving a lone cursor up
/// (down) would land it. The offset is the column where the word starts, but
/// for a selection away from the ends of the text, where it is kept.
pub proof fn law_word_up_down(fb: &Filebuffer, start_at_symbol: bool, s: Selection)
    requires
        s.primary_index < fb.text().len(),
        s.secondary_index < fb.text().len(),
        fb.text().len() <= usize::MAX,
    ensures
        ({
            let t = fb.text();
            let p = s.primary_index as int;
            let spans = fb.word_at(s.first() as int).index != fb.word_at(s.last() as int).index;
            let u = motion_result(Motion::WordUp, fb, start_at_symbol, s);
            let d = motion_result(Motion::WordDown, fb, start_at_symbol, s);
            &&& exists|c: int| {
                let w = if spans { fb.word_at(s.first() as int) } else { fb.word_at(c) };
                &&& #[trigger] lands_above(t, p, s.offset as int, c)
                &&& u.secondary_index == w.index
                &&& u.primary_index == w.index + w.length - 1
            }
            &&& exists|c: int| {
                let w = if spans { fb.word_at(s.last() as int) } else { fb.word_at(c) };
                &&& #[trigger] lands_below(t, p, s.offset as int, c)
                &&& d.secondary_index == w.index
                &&& d.primary_index == w.index + w.length - 1
            }
            &&& u.offset == if u.first() == 0 || u.last() == t.len() - 1 {
                column(t, u.first() as int) as int
            } else {
                s.offset as int
            }
            &&& d.offset == if d.first() == 0 || d.last() == t.len() - 1 {
                column(t, d.first() as int) as int
            } else {
                s.offset as int
            }
        }),
{
    let t = fb.text();
    let len = t.len() as int;
    let p = s.primary_index as int;
    super::motion::lemma_targets(t, p, s.offset as int);
    lemma_up_target(t, p, s.offset as int);
    lemma_down_target(t, p, s.offset as int);
    let cu = up_target(t, p, s.offset as int);
    let cd = down_target(t, p, s.offset as int);
    crate::filebuffer::lemma_word_at(fb.tokens(), cu, len);
    crate::filebuffer::lemma_word_at(fb.tokens(), cd, len);
    crate::filebuffer::lemma_word_at(fb.tokens(), s.first() as int, len);
    crate::filebuffer::lemma_word_at(fb.tokens(), s.last() as int, len);
    crate::filebuffer::lemma_word_at(fb.tokens(), 0, len);
    crate::filebuffer::lemma_word_at(fb.tokens(), len - 1, len);
    lemma_last_newline_clear(t, p);
    lemma_first_newline_clear(t, p, len - 1);
    let u = motion_result(Motion::WordUp, fb, start_at_symbol, s);
    let d = motion_result(Motion::WordDown, fb, start_at_symbol, s);
    crate::lines::lemma_column_bound(t, u.first() as int);
    crate::lines::lemma_column_bound(t, d.first() as int);
}

/// Extending a word left (right) jumps the cursor to the start of the word
/// before (after) the one at the cursor, or of that one itself at the start
/// (end) of the text, then widens the selection to whole words, from the
/// start of the word at its first end to the end of the word at its last,
/// pointing the same way; the offset is the column where it starts.
pub proof fn law_extend_word(fb: &Filebuffer, start_at_symbol: bool, s: Selection)
    requires
        s.primary_index < fb.text().len(),
        s.secondary_index < fb.text().len(),
        fb.text().len() <= usize::MAX,
    ensures
        ({
            let t = fb.text();
            let len = t.len() as int;
            let q = s.secondary_index as int;
            let w0 = fb.word_at(s.primary_index as int);
            let before = if w0.index == 0 { w0 } else { fb.word_at(w0.index - 1) };
            let after = if w0.index + w0.length < len { fb.word_at(w0.index + w0.length) } else { w0 };
            let l = motion_result(Motion::ExtendWordLeft, fb, start_at_symbol, s);
            let r = motion_result(Motion::ExtendWordRight, fb, start_at_symbol, s);
            let cl = before.index as int;
            let cr = after.index as int;
            &&& l.first() == fb.word_at(if cl < q { cl } else { q }).index
            &&& l.last() == fb.word_at(if cl < q { q } else { cl }).index + fb.word_at(if cl < q { q } else { cl }).length - 1
            &&& (l.primary_index < l.secondary_index <==> cl < q)
            &&& l.offset == column(t, l.first() as int)
            &&& r.first() == fb.word_at(if cr < q { cr } else { q }).index
            &&& r.last() == fb.word_at(if cr < q { q } else { cr }).index + fb.word_at(if cr < q { q } else { cr }).length - 1
            &&& (r.primary_index < r.secondary_index <==> cr < q)
            &&& r.offset == column(t, r.first() as int)
        }),
{
    let t = fb.text();
    let len = t.len() as int;
    lemma_neighbour_words(fb.tokens(), s.primary_index as int, len);
    let w0 = fb.word_at(s.primary_index as int);
    let before = if w0.index == 0 { w0 } else { fb.word_at(w0.index - 1) };
    let after = if w0.index + w0.length < len { fb.word_at(w0.index + w0.length) } else { w0 };
    crate::filebuffer::lemma_word_at(fb.tokens(), before.index as int, len);
    crate::filebuffer::lemma_word_at(fb.tokens(), after.index as int, len);
    crate::filebuffer::lemma_word_at(fb.tokens(), s.secondary_index as int, len);
    let l = motion_result(Motion::ExtendWordLeft, fb, start_at_symbol, s);
    let r = motion_result(Motion::ExtendWordRight, fb, start_at_symbol, s);
    crate::lines::lemma_column_bound(t, l.first() as int);
    crate::lines::lemma_column_bound(t, r.first() as int);
}

/// What deleting the characters of a selection leaves.
proof fn lemma_delete_selection(state: EditState, index: int, padding: char)
    requires
        0 <= index < state.0.len(),
        state.0[index].primary_index < state.1.len(),
        state.0[index].secondary_index < state.1.len(),
        state.1.len() <= usize::MAX,
        state.1.last() == padding,
    ensures
        ({
            let r = delete_selection(state, index, padding);
            let f = state.0[index].first() as int;
            let l = state.0[index].last() as int;
            &&& r.1.take(f) == state.1.take(f)
            &&& l + 1 < state.1.len() ==> r.1.skip(f) == state.1.skip(l + 1)
            &&& l + 1 == state.1.len() ==> r.1.last() == padding && r.1.len() <= f + 1
            &&& 0 < r.1.len() <= state.1.len()
            &&& r.0.len() == state.0.len()
            &&& r.0[index].primary_index == r.0[index].secondary_index
            &&& r.0[index].primary_index == if f < r.1.len() { f } else { r.1.len() - 1 }
            &&& r.0[index].offset == column(r.1, r.0[index].primary_index as int)
        }),
{
    let s = state.0[index];
    let f = s.first() as int;
    let l = s.last() as int;
    let t1 = text_with_removal(state.1, f, l - f + 1);
    assert(t1.take(f) =~= state.1.take(f));
    if l + 1 < state.1.len() {
        assert(t1.len() > 0 && t1.last() == padding);
        assert(padded(t1, padding) == t1);
        assert(t1.skip(f) =~= state.1.skip(l + 1));
    } else {
        assert(t1 =~= state.1.take(f));
    }
    let t2 = padded(t1, padding);
    assert(t2.take(f) =~= state.1.take(f));
    let q = if f < t2.len() { f } else { t2.len() - 1 };
    crate::lines::lemma_column_bound(t2, q);
}

/// Erasing in line mode deletes the selected characters, the text after them
/// following on, and selects the whole line where they began, its cursor at
/// the line's end.
pub proof fn law_erase_line_mode(state: EditState, index: int, tokens: Seq<Token>, start_at_symbol: bool, padding: char)
    requires
        0 <= index < state.0.len(),
        state.0[index].primary_index < state.1.len(),
        state.0[index].secondary_index < state.1.len(),
        state.1.len() <= usize::MAX,
        state.1.last() == padding,
    ensures
        ({
            let r = edit_step(Edit::EraseLine, tokens, start_at_symbol, padding, state, index);
            let f = state.0[index].first() as int;
            let l = state.0[index].last() as int;
            let q = if f < r.1.len() { f } else { r.1.len() - 1 };
            let n = r.0[index];
            &&& r.1.take(f) == state.1.take(f)
            &&& l + 1 < state.1.len() ==> r.1.skip(f) == state.1.skip(l + 1)
            &&& l + 1 == state.1.len() ==> r.1.last() == padding && r.1.len() <= f + 1
            &&& r.0.len() == state.0.len()
            &&& n.secondary_index <= q <= n.primary_index < r.1.len()
            &&& starts_line(r.1, n.secondary_index as int) && ends_line(r.1, n.primary_index as int)
            &&& no_newline_in(r.1, n.secondary_index as int, n.primary_index as int)
        }),
{
    reveal(edit_step);
    lemma_delete_selection(state, index, padding);
    let d = delete_selection(state, index, padding);
    let q = d.0[index].primary_index as int;
    lemma_line_start_complete(d.1, start_at_symbol, q);
    lemma_line_end(d.1, q);
}

/// Erasing in word mode deletes the selected characters, the text after them
/// following on, and selects from where they began as many characters as the
/// word after the one at the old cursor had (fewer at the end of the text).
pub proof fn law_erase_word_mode(state: EditState, index: int, tokens: Seq<Token>, start_at_symbol: bool, padding: char)
    requires
        0 <= index < state.0.len(),
        state.0[index].primary_index < state.1.len(),
        state.0[index].secondary_index < state.1.len(),
        state.1.len() <= usize::MAX,
        state.1.last() == padding,
    ensures
        ({
            let r = edit_step(Edit::EraseWord, tokens, start_at_symbol, padding, state, index);
            let len = state.1.len() as int;
            let f = state.0[index].first() as int;
            let l = state.0[index].last() as int;
            let q = if f < r.1.len() { f } else { r.1.len() - 1 };
            let w0 = crate::filebuffer::word_at(tokens, state.0[index].primary_index as int, len);
            let w = if w0.index + w0.length < len { crate::filebuffer::word_at(tokens, w0.index + w0.length, len) } else { w0 };
            let n = r.0[index];
            &&& r.1.take(f) == state.1.take(f)
            &&& l + 1 < state.1.len() ==> r.1.skip(f) == state.1.skip(l + 1)
            &&& l + 1 == state.1.len() ==> r.1.last() == padding && r.1.len() <= f + 1
            &&& r.0.len() == state.0.len()
            &&& n.secondary_index == q
            &&& n.primary_index == if q + w.length - 1 < r.1.len() - 1 { q + w.length - 1 } else { r.1.len() - 1 }
            &&& n.offset == column(r.1, q)
        }),
{
    reveal(edit_step);
    lemma_delete_selection(state, index, padding);
    lemma_neighbour_words(tokens, state.0[index].primary_index as int, state.1.len() as int);
}

/// Adding a selection keeps every selection and, outside word mode, adds one
/// after the last: a lone cursor right after its last character, the offset
/// the column there; in line mode it reaches on to the end of that line. In
/// word mode nothing is added.
pub proof fn law_add_selection_action(
    new: &Textbuffer,
    old: &Textbuffer,
    ctx: &TextbufferContext,
    fb: &Filebuffer,
    old_fb: &Filebuffer,
    r: Option<Action>,
)
    requires
        old.wf(old_fb),
        Textbuffer::action_done(new, old, ctx, fb, old_fb, Action::AddSelection, r),
    ensures
        ({
            let t = old_fb.text();
            let b = old.sels().last().last() + 1;
            let n = new.sels().last();
            &&& old.selection_mode() == SelectionMode::Word ==> new.sels() == old.sels()
            &&& old.selection_mode() != SelectionMode::Word ==> {
                &&& new.sels().len() == old.sels().len() + 1
                &&& new.sels().take(old.sels().len() as int) == old.sels()
                &&& new.adding()
                &&& n.secondary_index == b
                &&& n.offset == column(t, b)
                &&& old.selection_mode() == SelectionMode::Character ==> n.primary_index == b
                &&& old.selection_mode() == SelectionMode::Line && b < t.len() ==> b <= n.primary_index < t.len()
                    && ends_line(t, n.primary_index as int) && no_newline_in(t, b, n.primary_index as int)
                &&& old.selection_mode() == SelectionMode::Line && b == t.len() ==> n.primary_index == b
            }
        }),
{
    let t = old_fb.text();
    let b = old.sels().last().last() + 1;
    assert(super::selection_in(old.sels()[old.sels().len() - 1], t.len() as int));
    crate::lines::lemma_column_bound(t, b);
    if old.selection_mode() != SelectionMode::Word {
        assert(new.sels().take(old.sels().len() as int) =~= old.sels());
        if b < t.len() {
            lemma_line_end(t, b);
        } else {
            assert(rest_of_line(t, b, t.len() - 1) == 1);
        }
    }
}

/// Duplicating adds `count` selections after the others, each a lone cursor
/// where moving the one before it down (up) lands, keeping its offset.
pub proof fn law_duplicate_steps(sels: Seq<Selection>, text: Seq<char>, down: bool, count: nat)
    requires
        sels.len() > 0,
        sels.last().primary_index < text.len(),
        text.len() <= usize::MAX,
    ensures
        ({
            let r = duplicated(sels, text, down, count);
            &&& r.len() == sels.len() + count
            &&& r.take(sels.len() as int) == sels
            &&& forall|k: int| sels.len() <= k < r.len() ==> {
                let prev = r[k - 1];
                let cur = #[trigger] r[k];
                &&& cur.primary_index == cur.secondary_index
                &&& cur.offset == prev.offset
                &&& cur.primary_index < text.len()
                &&& down ==> lands_below(text, prev.primary_index as int, prev.offset as int, cur.primary_index as int)
                &&& !down ==> lands_above(text, prev.primary_index as int, prev.offset as int, cur.primary_index as int)
            }
        }),
    decreases count,
{
    if count > 0 {
        law_duplicate_steps(sels, text, down, (count - 1) as nat);
        let before = duplicated(sels, text, down, (count - 1) as nat);
        let r = duplicated(sels, text, down, count);
        let last = before.last();
        assert(last.primary_index < text.len()) by {
            if count - 1 > 0 {
                assert(before[before.len() - 1] == last);
            } else {
                assert(before == sels);
            }
        }
        super::motion::lemma_targets(text, last.primary_index as int, last.offset as int);
        lemma_down_target(text, last.primary_index as int, last.offset as int);
        lemma_up_target(text, last.primary_index as int, last.offset as int);
        assert(r == before.push(r.last()));
        assert(r.take(sels.len() as int) =~= before.take(sels.len() as int));
        assert forall|k: int| sels.len() <= k < r.len() implies {
            let prev = r[k - 1];
            let cur = #[trigger] r[k];
            &&& cur.primary_index == cur.secondary_index
            &&& cur.offset == prev.offset
            &&& cur.primary_index < text.len()
            &&& down ==> lands_below(text, prev.primary_index as int, prev.offset as int, cur.primary_index as int)
            &&& !down ==> lands_above(text, prev.primary_index as int, prev.offset as int, cur.primary_index as int)
        } by {
            if k < r.len() - 1 {
                assert(r[k] == before[k]);
                assert(r[k - 1] == before[k - 1]);
            } else {
                assert(r[k - 1] == last);
            }
        }
    }
}

/// A replacement away from the end of the text: the text around the
/// selection stays, the selection starts where it did and points the same
/// way, the selections after it move by the difference in length and those
/// before it stay.
proof fn lemma_replaced_shape(sels: Seq<Selection>, text: Seq<char>, index: int, new_text: Seq<char>, padding: char)
    requires
        0 <= index < sels.len(),
        1 <= new_text.len(),
        sels[index].primary_index < text.len(),
        sels[index].secondary_index < text.len(),
        sels[index].last() + 1 < text.len(),
        text.last() == padding,
        text.len() + new_text.len() <= usize::MAX,
    ensures
        ({
            let r = replaced(sels, text, index, new_text, padding);
            let s = sels[index];
            let f = s.first() as int;
            let l = s.last() as int;
            let d = new_text.len() - (l - f + 1);
            &&& r.1 == text.take(f) + new_text + text.skip(l + 1)
            &&& r.0.len() == sels.len()
            &&& r.0[index].first() == f
            &&& (r.0[index].primary_index < r.0[index].secondary_index <==> s.primary_index < s.secondary_index)
            &&& r.0[index].offset == s.offset
            &&& forall|j: int| 0 <= j < sels.len() && j != index && #[trigger] sels[j].first() > l ==> r.0[j] == (Selection {
                primary_index: (sels[j].primary_index + d) as usize,
                secondary_index: (sels[j].secondary_index + d) as usize,
                offset: sels[j].offset,
            })
            &&& forall|j: int| 0 <= j < sels.len() && j != index && #[trigger] sels[j].last() < f ==> r.0[j] == sels[j]
        }),
{
    reveal(replaced);
    let s = sels[index];
    let f = s.first() as int;
    let l = s.last() as int;
    let k = (l - f + 1) as usize;
    let r = replaced(sels, text, index, new_text, padding);
    if text.subrange(f, f + k) == new_text {
        assert(text =~= text.take(f) + new_text + text.skip(l + 1));
    } else {
        let t1 = text_with_removal(text, f, k as int);
        assert(t1.len() > 0 && t1.last() == padding);
        assert(padded(t1, padding) == t1);
        let t2 = text_with_insert(t1, f, new_text);
        assert(t2 =~= text.take(f) + new_text + text.skip(l + 1));
        assert(r.1 == t2);
        let last = t2.len() - 1;
        assert(f + new_text.len() <= last);
    }
}

/// Rotating two selections, the first before the second and both away from
/// the end of the text, swaps what they select: the first now selects what
/// the second did and the second what the first did, the text before, between
/// and after them staying; a selection whose cursor was at its start keeps
/// the cursor at its start, any other has it at its end.
#[verifier::rlimit(30)]
pub proof fn law_rotate_two(a: Selection, b: Selection, text: Seq<char>, padding: char)
    requires
        a.primary_index < text.len(),
        a.secondary_index < text.len(),
        b.primary_index < text.len(),
        b.secondary_index < text.len(),
        a.last() < b.first(),
        b.last() + 1 < text.len(),
        text.last() == padding,
        text.len() + b.last() - b.first() + 1 < usize::MAX / 8,
    ensures
        ({
            let ta = selected_text(text, a);
            let tb = selected_text(text, b);
            let r = rotated((seq![a, b], text, tb), padding, 2);
            &&& r.1 == text.take(a.first() as int) + tb + text.subrange(a.last() + 1, b.first() as int) + ta + text.skip(
                b.last() + 1,
            )
            &&& r.0.len() == 2
            &&& selected_text(r.1, r.0[0]) == tb
            &&& selected_text(r.1, r.0[1]) == ta
            &&& r.0[0].primary_index == if a.primary_index < a.secondary_index { r.0[0].first() } else { r.0[0].last() }
            &&& r.0[1].primary_index == if b.primary_index < b.secondary_index { r.0[1].first() } else { r.0[1].last() }
        }),
{
    let fa = a.first() as int;
    let la = a.last() as int;
    let fb = b.first() as int;
    let lb = b.last() as int;
    let ta = selected_text(text, a);
    let tb = selected_text(text, b);
    assert(tb.len() == lb - fb + 1);
    assert(ta.len() == la - fa + 1);
    assert(text.len() + tb.len() < usize::MAX / 8);
    let sels = seq![a, b];
    let st0: RotateState = (sels, text, tb);
    assert(rotated(st0, padding, 0) == st0);
    let st1 = rotate_step(st0, 0, padding);
    assert(rotated(st0, padding, 1) == st1);
    let st2 = rotate_step(st1, 1, padding);
    assert(rotated(st0, padding, 2) == st2);
    // First step: the first selection gets the text of the second.
    lemma_replaced_shape(sels, text, 0, tb, padding);
    let r0 = replaced(sels, text, 0, tb, padding);
    let d0 = tb.len() - ta.len();
    assert(sels[1] == b && sels[1].first() > la);
    let b1 = r0.0[1];
    assert(b1.first() == fb + d0 && b1.last() == lb + d0);
    let text1 = r0.1;
    assert(text1 == text.take(fa) + tb + text.skip(la + 1));
    assert(text1.len() == text.len() + d0);
    assert(st1.1 == text1);
    assert(st1.2 == ta);
    let a1 = st1.0[0];
    assert(a1.first() == fa && a1.last() == fa + tb.len() - 1);
    assert(a1.primary_index == if a.primary_index < a.secondary_index { a1.first() } else { a1.last() });
    assert(st1.0[1] == b1);
    assert(text1.last() == padding) by {
        assert(text1[text1.len() - 1] == text.skip(la + 1)[text.skip(la + 1).len() - 1]);
    }
    // Second step: the second selection gets the text of the first.
    lemma_replaced_shape(st1.0, text1, 1, ta, padding);
    let r1 = replaced(st1.0, text1, 1, ta, padding);
    assert(st1.0[0].last() < b1.first());
    assert(r1.0[0] == a1);
    assert(text1.take(fb + d0) =~= text.take(fa) + tb + text.subrange(la + 1, fb));
    assert(text1.skip(lb + d0 + 1) =~= text.skip(lb + 1));
    assert(r1.1 == text1.take(fb + d0) + ta + text1.skip(lb + d0 + 1));
    let t2 = text.take(fa) + tb + text.subrange(la + 1, fb) + ta + text.skip(lb + 1);
    assert(r1.1 =~= t2);
    assert(st2.1 == t2);
    let b2 = st2.0[1];
    assert(b2.first() == fb + d0 && b2.last() == fb + d0 + ta.len() - 1);
    assert(st2.0[0] == a1);
    assert(t2.subrange(fa, fa + tb.len()) =~= tb);
    assert(t2.subrange(fb + d0, fb + d0 + ta.len()) =~= ta);
}

/// Handling Rotate in a window with two selections, the first before the
/// second and both away from the end of the text, swaps the texts they
/// select, the rest of the text staying.
pub proof fn law_rotate_action(
    new: &Textbuffer,
    old: &Textbuffer,
    ctx: &TextbufferContext,
    fb: &Filebuffer,
    old_fb: &Filebuffer,
    r: Option<Action>,
)
    requires
        old.wf(old_fb),
        old.sels().len() == 2,
        old.sels()[0].last() < old.sels()[1].first(),
        old.sels()[1].last() + 1 < old_fb.text().len(),
        old_fb.text().last() == old.padding_char(),
        old_fb.text().len() + old.sels()[1].last() - old.sels()[1].first() + 1 < usize::MAX / 8,
        Textbuffer::action_done(new, old, ctx, fb, old_fb, Action::Rotate, r),
    ensures
        ({
            let t = old_fb.text();
            let a = old.sels()[0];
            let b = old.sels()[1];
            &&& fb.text() == t.take(a.first() as int) + selected_text(t, b) + t.subrange(a.last() + 1, b.first() as int)
                + selected_text(t, a) + t.skip(b.last() + 1)
            &&& new.sels().len() == 2
            &&& selected_text(fb.text(), new.sels()[0]) == selected_text(t, b)
            &&& selected_text(fb.text(), new.sels()[1]) == selected_text(t, a)
        }),
{
    let t = old_fb.text();
    let a = old.sels()[0];
    let b = old.sels()[1];
    assert(super::selection_in(a, t.len() as int));
    assert(super::selection_in(b, t.len() as int));
    assert(old.sels() == seq![a, b]);
    assert(old.sels().last() == b);
    law_rotate_two(a, b, t, old.padding_char());
    let rr = rotated((seq![a, b], t, selected_text(t, b)), old.padding_char(), 2);
    let tail = t.skip(b.last() + 1);
    assert(rr.1[rr.1.len() - 1] == tail[tail.len() - 1]);
    assert(padded(rr.1, old.padding_char()) == rr.1);
}

/// Selecting the next occurrence of what selection `index` selects, where
/// that text occurs next at `p`: where no selection covers that place yet, a
/// selection is added over it, its cursor at its start, selecting the same
/// text, the offset the column there; else nothing changes.
pub proof fn law_select_next_occurrence(sels: Seq<Selection>, text: Seq<char>, index: int, p: int)
    requires
        0 <= index < sels.len(),
        sels[index].primary_index < text.len(),
        sels[index].secondary_index < text.len(),
        text.len() <= usize::MAX,
        is_next_occurrence(text, selected_text(text, sels[index]), sels[index].first() as int, p),
    ensures
        ({
            let r = next_selected(sels, text, index);
            let pattern = selected_text(text, sels[index]);
            let q = p + pattern.len() - 1;
            &&& covered(sels, p, q) ==> r == sels
            &&& !covered(sels, p, q) ==> {
                &&& r.len() == sels.len() + 1
                &&& r.take(sels.len() as int) == sels
                &&& r.last().primary_index == p
                &&& r.last().first() == p
                &&& selected_text(text, r.last()) == pattern
                &&& r.last().offset == column(text, p)
            }
        }),
{
    let pattern = selected_text(text, sels[index]);
    let from = sels[index].first() as int;
    let c = next_occurrence(text, pattern, from);
    assert(is_next_occurrence(text, pattern, from, c));
    lemma_next_occurrence_unique(text, pattern, from, c, p);
    crate::lines::lemma_column_bound(text, p);
    let r = next_selected(sels, text, index);
    if !covered(sels, p, p + pattern.len() - 1) {
        assert(r.take(sels.len() as int) =~= sels);
    }
}

} // verus!
