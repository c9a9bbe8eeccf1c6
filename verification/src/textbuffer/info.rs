use vstd::prelude::*;

use super::Textbuffer;
use crate::context::TextbufferContext;
use crate::chars::char_is_newline;
use crate::filebuffer::Filebuffer;
use crate::lines::{column, line_of, lemma_newline_count_bound, lemma_newline_count_monotone};
use crate::selection::SelectionMode;
use crate::token::token_display_name;
use crate::selection::Selection;

verus! {

/// One line shown in a window: its number, where it starts, how many
/// characters it has before the character that ends it, and whether a
/// selection touches it.
#[derive(Clone, Copy, Debug, PartialEq, Eq, Structural)]
pub struct LineInfo {
    pub number: usize,
    pub index: usize,
    pub length: usize,
    pub highlighted: bool,
}

impl LineInfo {
    pub fn new(number: usize, index: usize, length: usize) -> (r: Self)
        ensures
            r == (LineInfo { number, index, length, highlighted: false }),
    {
        Self { number, index, length, highlighted: false }
    }
}

/// Position `i` ends a line: it holds a newline or is the last one.
pub open spec fn ends_line(text: Seq<char>, i: int) -> bool {
    text[i] == '\n' || i == text.len() - 1
}

/// The lines of `text` met scanning from position `i` on, the current line
/// having begun at `start`, numbered on from `number`, and none numbered past
/// `limit + 1`.
pub open spec fn lines_from(text: Seq<char>, i: int, start: int, number: int, limit: int) -> Seq<LineInfo>
    decreases text.len() - i,
{
    if i < 0 || i >= text.len() || number > limit {
        seq![]
    } else if ends_line(text, i) {
        seq![LineInfo { number: (number + 1) as usize, index: start as usize, length: (i - start) as usize, highlighted: false }]
            + lines_from(text, i + 1, i + 1, number + 1, limit)
    } else {
        lines_from(text, i + 1, start, number, limit)
    }
}

/// The lines found lie inside the text and are not highlighted yet.
pub proof fn lemma_lines_from(text: Seq<char>, i: int, start: int, number: int, limit: int)
    requires
        0 <= start <= i,
        text.len() <= usize::MAX,
        0 <= number,
        limit + 1 <= usize::MAX,
    ensures
        forall|k: int| 0 <= k < lines_from(text, i, start, number, limit).len() ==> {
            let line = #[trigger] lines_from(text, i, start, number, limit)[k];
            !line.highlighted && line.index + line.length < text.len()
        },
    decreases text.len() - i,
{
    if i < 0 || i >= text.len() || number > limit {
    } else if ends_line(text, i) {
        lemma_lines_from(text, i + 1, i + 1, number + 1, limit);
        let rest = lines_from(text, i + 1, i + 1, number + 1, limit);
        let head = LineInfo { number: (number + 1) as usize, index: start as usize, length: (i - start) as usize, highlighted: false };
        assert(lines_from(text, i, start, number, limit) == seq![head] + rest);
        assert forall|k: int| 0 <= k < lines_from(text, i, start, number, limit).len() implies {
            let line = #[trigger] lines_from(text, i, start, number, limit)[k];
            !line.highlighted && line.index + line.length < text.len()
        } by {
            if k > 0 {
                assert(lines_from(text, i, start, number, limit)[k] == rest[k - 1]);
            } else {
                assert(lines_from(text, i, start, number, limit)[k] == head);
                assert(head.index + head.length == i);
            }
        }
    } else {
        lemma_lines_from(text, i + 1, start, number, limit);
        assert(lines_from(text, i, start, number, limit) == lines_from(text, i + 1, start, number, limit));
    }
}

/// Some selection reaches into the line.
pub open spec fn touched(sels: Seq<Selection>, line: LineInfo) -> bool {
    exists|j: int| 0 <= j < sels.len() && (#[trigger] sels[j]).last() >= line.index && sels[j].first() <= line.index + line.length
}

/// The number shown for a line that no selection touches, relative to the
/// lines `first ..= last` of the cursor's selection.
pub open spec fn relative_number(number: usize, first: usize, last: usize) -> usize {
    if number < first {
        (first - number) as usize
    } else if number >= last {
        (number - last) as usize
    } else {
        0
    }
}

/// The line as shown: highlighted where a selection touches it, and numbered
/// relative to the last selection where that is asked for and it is not
/// highlighted.
pub open spec fn shown_line(line: LineInfo, sels: Seq<Selection>, relative: bool, first: usize, last: usize) -> LineInfo {
    let highlighted = touched(sels, line);
    LineInfo {
        number: if relative && !highlighted { relative_number(line.number, first, last) } else { line.number },
        highlighted,
        ..line
    }
}

/// Where line `line` begins: its first position, or the last position of
/// the text where the text has fewer lines.
pub open spec fn start_of_line(text: Seq<char>, line: int) -> int {
    if exists|j: int| is_line_begin(text, line, j) {
        choose|j: int| is_line_begin(text, line, j)
    } else {
        text.len() - 1
    }
}

/// `j` is the first position on line `line`.
pub open spec fn is_line_begin(text: Seq<char>, line: int, j: int) -> bool {
    &&& 0 <= j < text.len()
    &&& line_of(text, j) == line
    &&& forall|k: int| 0 <= k < j ==> line_of(text, k) != line
}

impl Textbuffer {
    /// Where the first line the window shows begins.
    pub open spec fn start_of_scroll(&self, text: Seq<char>) -> int {
        start_of_line(text, self.scroll() as int)
    }

    /// The lines the window shows, from the first one scrolled to, one more
    /// than the window's line count at most.
    pub fn line_info(&self, textbuffer_context: &TextbufferContext, filebuffer: &Filebuffer) -> (r: Vec<LineInfo>)
        requires
            self.wf_loose(filebuffer),
        ensures
            ({
                let text = filebuffer.text();
                let start = self.start_of_scroll(text);
                let lines = lines_from(text, start, start, self.scroll() as int, self.scroll() + self.lines_shown());
                let cursor = self.sels().last();
                &&& r@.len() == lines.len()
                &&& forall|k: int| 0 <= k < lines.len() ==> #[trigger] r@[k] == shown_line(lines[k], self.sels(),
                    textbuffer_context.relative_line_numbers, (line_of(text, cursor.first() as int) + 1) as usize,
                    (line_of(text, cursor.last() as int) + 1) as usize)
            }),
    {
        let ghost text = filebuffer.text();
        let ghost limit = self.scroll() + self.lines_shown();
        let scroll = self.vertical_scroll;
        let limit_number = self.vertical_scroll + self.line_count;
        let start = self.index_from_line(filebuffer, scroll);
        proof {
            if is_line_begin(text, scroll as int, start as int) {
                let c = choose|j: int| is_line_begin(text, scroll as int, j);
                if c < start {
                    assert(line_of(text, c) != scroll);
                }
                if start < c {
                    assert(line_of(text, start as int) != scroll);
                }
            } else {
                assert(!exists|j: int| is_line_begin(text, scroll as int, j));
            }
            assert(start == start_of_line(text, scroll as int));
        }
        let mut lines: Vec<LineInfo> = Vec::new();
        let mut line_number = scroll;
        let mut line_start = start;
        let mut line_length: usize = 0;
        let length = filebuffer.length();
        let last = length - 1;
        let mut index = start;
        while index < length
            invariant_except_break
                index <= length,
            invariant
                text == filebuffer.text(),
                length == text.len(),
                last == length - 1,
                start < length,
                limit_number == limit,
                limit <= usize::MAX / 4,
                scroll <= line_number <= limit + 1,
                line_start <= index,
                line_length == index - line_start,
                lines@ + lines_from(text, index as int, line_start as int, line_number as int, limit)
                    == lines_from(text, start as int, start as int, scroll as int, limit),
            ensures
                lines@ == lines_from(text, start as int, start as int, scroll as int, limit),
            decreases length - index,
        {
            if line_number > limit_number {
                assert(lines_from(text, index as int, line_start as int, line_number as int, limit) == Seq::<LineInfo>::empty());
                assert(lines@ =~= lines@ + Seq::<LineInfo>::empty());
                break;
            }
            if char_is_newline(filebuffer.character(index)) || index == last {
                line_number = line_number + 1;
                let ghost before = lines@;
                lines.push(LineInfo::new(line_number, line_start, line_length));
                proof {
                    assert(lines@ =~= before + seq![LineInfo { number: line_number, index: line_start, length: line_length,
                        highlighted: false }]);
                }
                line_start = index + 1;
                line_length = 0;
            } else {
                line_length = line_length + 1;
            }
            index = index + 1;
        }
        proof {
            if index >= length {
                assert(lines@ =~= lines@ + Seq::<LineInfo>::empty());
            }
        }
        let ghost found = lines@;
        proof {
            lemma_lines_from(text, start as int, start as int, scroll as int, limit);
        }
        let mut j: usize = 0;
        while j < self.selections.len()
            invariant
                j <= self.sels().len(),
                lines@.len() == found.len(),
                forall|k: int| 0 <= k < found.len() ==> (#[trigger] lines@[k]).number == found[k].number
                    && lines@[k].index == found[k].index && lines@[k].length == found[k].length
                    && lines@[k].highlighted == exists|i: int| 0 <= i < j && (#[trigger] self.sels()[i]).last() >= found[k].index
                        && self.sels()[i].first() <= found[k].index + found[k].length,
                forall|k: int| 0 <= k < found.len() ==> !found[k].highlighted,
                forall|k: int| 0 <= k < found.len() ==> found[k].index + found[k].length <= usize::MAX,
            decreases self.sels().len() - j,
        {
            let smallest = self.selection_smallest_index(j);
            let biggest = self.selection_biggest_index(j);
            let mut k: usize = 0;
            while k < lines.len()
                invariant
                    k <= lines@.len(),
                    j < self.sels().len(),
                    smallest == self.sels()[j as int].first(),
                    biggest == self.sels()[j as int].last(),
                    lines@.len() == found.len(),
                    forall|m: int| 0 <= m < found.len() ==> found[m].index + found[m].length <= usize::MAX,
                    forall|m: int| 0 <= m < found.len() ==> (#[trigger] lines@[m]).number == found[m].number
                        && lines@[m].index == found[m].index && lines@[m].length == found[m].length,
                    forall|m: int| 0 <= m < k ==> (#[trigger] lines@[m]).highlighted == exists|i: int| 0 <= i < j + 1
                        && (#[trigger] self.sels()[i]).last() >= found[m].index && self.sels()[i].first() <= found[m].index
                        + found[m].length,
                    forall|m: int| k <= m < found.len() ==> (#[trigger] lines@[m]).highlighted == exists|i: int| 0 <= i < j
                        && (#[trigger] self.sels()[i]).last() >= found[m].index && self.sels()[i].first() <= found[m].index
                        + found[m].length,
                decreases lines@.len() - k,
            {
                let mut line = lines[k];
                if biggest >= line.index && smallest <= line.index + line.length {
                    line.highlighted = true;
                }
                lines.set(k, line);
                k = k + 1;
            }
            j = j + 1;
        }
        if textbuffer_context.relative_line_numbers {
            let cursor = self.selections.len() - 1;
            let smallest = self.selection_smallest_index(cursor);
            let biggest = self.selection_biggest_index(cursor);
            let first_line = self.line_number_from_index(filebuffer, smallest) + 1;
            let last_line = self.line_number_from_index(filebuffer, biggest) + 1;
            let mut k: usize = 0;
            while k < lines.len()
                invariant
                    k <= lines@.len(),
                    lines@.len() == found.len(),
                    forall|m: int| 0 <= m < k ==> #[trigger] lines@[m] == shown_line(found[m], self.sels(), true,
                        first_line, last_line),
                    forall|m: int| k <= m < found.len() ==> #[trigger] lines@[m] == shown_line(found[m], self.sels(), false,
                        first_line, last_line),
                decreases lines@.len() - k,
            {
                let mut line = lines[k];
                if !line.highlighted {
                    if line.number < first_line {
                        line.number = first_line - line.number;
                    } else if line.number >= last_line {
                        line.number = line.number - last_line;
                    } else {
                        line.number = 0;
                    }
                }
                lines.set(k, line);
                k = k + 1;
            }
        }
        lines
    }
}

/// What the status bar of a window shows: the name of the kind of word under
/// the cursor of the last selection (where its kind has one), the cursor's
/// line and column counted from one, how many characters the last selection
/// covers, and the selection mode.
pub struct StatusBar {
    pub word: Option<&'static str>,
    pub line: usize,
    pub column: usize,
    pub length: usize,
    pub mode: &'static str,
}

impl Textbuffer {
    /// The status bar of the window.
    pub fn status_bar(&self, filebuffer: &Filebuffer) -> (r: StatusBar)
        requires
            self.wf_loose(filebuffer),
            self.sels().last().primary_index <= filebuffer.text().len(),
            self.sels().last().secondary_index <= filebuffer.text().len(),
        ensures
            ({
                let last = self.sels().last();
                let text = filebuffer.text();
                &&& r.line == line_of(text, last.primary_index as int) + 1
                &&& r.column == column(text, last.primary_index as int) + 1
                &&& r.length == last.last() - last.first() + 1
                &&& match (r.word, token_display_name(filebuffer.word_at(last.primary_index as int).token_type)) {
                    (Some(w), Some(n)) => w@ == n,
                    (None, None) => true,
                    _ => false,
                }
                &&& r.mode@ == match self.selection_mode() {
                    SelectionMode::Character => "character"@,
                    SelectionMode::Word => "word"@,
                    SelectionMode::Line => "line"@,
                }
            }),
    {
        let last = self.selections.len() - 1;
        let primary_index = self.selections[last].primary_index;
        proof {
            crate::lines::lemma_column_bound(filebuffer.text(), primary_index as int);
        }
        let line = self.line_number_from_index(filebuffer, primary_index) + 1;
        let column = self.offset_from_index(filebuffer, primary_index) + 1;
        let length = self.selection_biggest_index(last) - self.selection_smallest_index(last) + 1;
        let word = filebuffer.word_from_index(primary_index).display_name();
        StatusBar { word, line, column, length, mode: self.mode.name() }
    }
}

} // verus!
