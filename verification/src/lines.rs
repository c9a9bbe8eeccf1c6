use vstd::prelude::*;

use crate::chars::is_whitespace;

verus! {

// Lines and columns of a text.

/// The number of newlines in `s`.
pub open spec fn newline_count(s: Seq<char>) -> nat
    decreases s.len(),
{
    if s.len() == 0 {
        0
    } else {
        newline_count(s.drop_last()) + if s.last() == '\n' {
            1nat
        } else {
            0nat
        }
    }
}

/// The line (counted from 0) of position `index`: the newlines before it. A
/// position past the end is on the last line.
pub open spec fn line_of(text: Seq<char>, index: int) -> nat {
    newline_count(
        text.take(
            if index < 0 {
                0
            } else if index < text.len() {
                index
            } else {
                text.len() as int
            },
        ),
    )
}

/// The column of position `index`: how many characters lie between the
/// newline before it (or the start of the text) and it.
pub open spec fn column(text: Seq<char>, index: int) -> nat
    decreases index,
{
    if index <= 0 {
        0
    } else if text[index - 1] == '\n' {
        0
    } else {
        column(text, index - 1) + 1
    }
}

/// How far the line goes from `index` on: 1 plus the number of characters
/// from `index` to the first newline at or after it, counting no further than
/// `last`.
pub open spec fn rest_of_line(text: Seq<char>, index: int, last: int) -> nat
    decreases last - index,
{
    if index >= last {
        1
    } else if text[index] == '\n' {
        1
    } else {
        rest_of_line(text, index + 1, last) + 1
    }
}

/// The first newline in `text[from .. to]`.
pub open spec fn first_newline(text: Seq<char>, from: int, to: int) -> Option<int>
    decreases to - from,
{
    if from >= to {
        None
    } else if text[from] == '\n' {
        Some(from)
    } else {
        first_newline(text, from + 1, to)
    }
}

/// The last newline before `index`.
pub open spec fn last_newline_before(text: Seq<char>, index: int) -> Option<int>
    decreases index,
{
    if index <= 0 {
        None
    } else if text[index - 1] == '\n' {
        Some(index - 1)
    } else {
        last_newline_before(text, index - 1)
    }
}

/// The first position in `text[from .. to]` that is not whitespace.
pub open spec fn first_non_whitespace(text: Seq<char>, from: int, to: int) -> Option<int>
    decreases to - from,
{
    if from >= to {
        None
    } else if !is_whitespace(text[from]) {
        Some(from)
    } else {
        first_non_whitespace(text, from + 1, to)
    }
}

pub proof fn lemma_column_bound(text: Seq<char>, index: int)
    ensures
        index >= 0 ==> column(text, index) <= index,
    decreases index,
{
    if index > 0 {
        lemma_column_bound(text, index - 1);
    }
}

pub proof fn lemma_rest_of_line_bound(text: Seq<char>, index: int, last: int)
    ensures
        1 <= rest_of_line(text, index, last),
        index <= last ==> rest_of_line(text, index, last) <= last - index + 1,
    decreases last - index,
{
    if index < last {
        lemma_rest_of_line_bound(text, index + 1, last);
    }
}

pub proof fn lemma_first_newline(text: Seq<char>, from: int, to: int)
    ensures
        first_newline(text, from, to) matches Some(j) ==> from <= j < to && text[j] == '\n',
    decreases to - from,
{
    if from < to && text[from] != '\n' {
        lemma_first_newline(text, from + 1, to);
    }
}

pub proof fn lemma_last_newline_before(text: Seq<char>, index: int)
    ensures
        last_newline_before(text, index) matches Some(j) ==> 0 <= j < index && text[j] == '\n',
    decreases index,
{
    if index > 0 && text[index - 1] != '\n' {
        lemma_last_newline_before(text, index - 1);
    }
}

pub proof fn lemma_first_non_whitespace(text: Seq<char>, from: int, to: int)
    ensures
        first_non_whitespace(text, from, to) matches Some(j) ==> from <= j < to,
    decreases to - from,
{
    if from < to && is_whitespace(text[from]) {
        lemma_first_non_whitespace(text, from + 1, to);
    }
}

/// The newlines in a prefix one longer.
pub proof fn lemma_newline_count_step(text: Seq<char>, index: int)
    requires
        0 <= index < text.len(),
    ensures
        newline_count(text.take(index + 1)) == newline_count(text.take(index)) + if text[index] == '\n' {
            1nat
        } else {
            0nat
        },
{
    assert(text.take(index + 1).drop_last() =~= text.take(index));
}

/// Longer prefixes hold at least as many newlines.
pub proof fn lemma_newline_count_monotone(text: Seq<char>, i: int, j: int)
    requires
        0 <= i <= j <= text.len(),
    ensures
        newline_count(text.take(i)) <= newline_count(text.take(j)),
    decreases j - i,
{
    if i < j {
        lemma_newline_count_monotone(text, i, j - 1);
        lemma_newline_count_step(text, j - 1);
    }
}

/// A prefix of `n` characters holds at most `n` newlines.
pub proof fn lemma_newline_count_bound(text: Seq<char>, i: int)
    requires
        0 <= i <= text.len(),
    ensures
        newline_count(text.take(i)) <= i,
    decreases i,
{
    if i > 0 {
        lemma_newline_count_bound(text, i - 1);
        lemma_newline_count_step(text, i - 1);
    }
}

} // verus!
