use vstd::prelude::*;

use super::Textbuffer;
use crate::context::TextbufferContext;
use crate::filebuffer::Filebuffer;
use crate::lines::{lemma_newline_count_bound, lemma_newline_count_monotone, line_of};

verus! {

/// The first line shown after moving away from the end of the text: with
/// `last_line` the last line of the text, the view starts at the top when the
/// whole text and the gap fit, and otherwise ends no further than the gap
/// below the last line.
pub open spec fn bottom_scroll(last_line: int, gap: int, line_count: int, scroll: int) -> int {
    if last_line + gap + 1 < line_count {
        0
    } else if line_count > gap + 1 + (last_line - scroll) {
        gap + 1 + last_line - line_count
    } else {
        scroll
    }
}

/// The first line shown after bringing the cursor's line `line` into view
/// with `gap` lines around it.
pub open spec fn cursor_scroll(line: int, gap: int, line_count: int, scroll: int) -> int {
    if gap * 2 >= line_count {
        if line > line_count / 2 {
            line - line_count / 2
        } else {
            0
        }
    } else if line < scroll + gap {
        if line > gap {
            line - gap
        } else {
            0
        }
    } else if line + gap + 1 > scroll + line_count {
        line + gap + 1 - line_count
    } else {
        scroll
    }
}

/// Bringing a line into view: where the gap fits in the window twice, the
/// line ends up at least the gap away from either edge (or as far from the
/// top as it can), and a view that showed it so already does not move; else
/// the line is centred as far as it can be.
pub proof fn law_cursor_scroll_shows(line: int, gap: int, line_count: int, scroll: int)
    requires
        0 <= line,
        0 <= gap,
        0 <= scroll,
        0 < line_count,
    ensures
        ({
            let s = cursor_scroll(line, gap, line_count, scroll);
            &&& 0 <= s <= line
            &&& gap * 2 < line_count ==> {
                &&& s + gap <= line || s == 0
                &&& line + gap < s + line_count
                &&& (scroll + gap <= line && line + gap < scroll + line_count ==> s == scroll)
            }
            &&& gap * 2 >= line_count ==> s == if line >= line_count / 2 { line - line_count / 2 } else { 0 }
        }),
{
}

/// The bottom check: where the whole text and the gap fit in the window, the
/// view starts at the top; else it never shows more than the gap past the
/// last line, moving up only as far as needed for that.
pub proof fn law_bottom_scroll_fills(last_line: int, gap: int, line_count: int, scroll: int)
    requires
        0 <= last_line,
        0 <= gap,
        0 <= scroll,
        0 < line_count,
    ensures
        ({
            let s = bottom_scroll(last_line, gap, line_count, scroll);
            &&& last_line + gap + 1 < line_count ==> s == 0
            &&& last_line + gap + 1 >= line_count ==> {
                &&& 0 <= s <= scroll
                &&& s + line_count <= last_line + gap + 1
                &&& (s == scroll || s + line_count == last_line + gap + 1)
            }
        }),
{
}

/// The first line shown once a cursor at `cursor` is brought into view with
/// the selection gap around it, starting from `scroll` in a window of
/// `line_count` lines; in a one-line buffer the view does not move.
pub open spec fn scroll_after_gaps(
    textbuffer_context: &TextbufferContext,
    filebuffer: &Filebuffer,
    cursor: usize,
    scroll: usize,
    line_count: usize,
) -> int {
    if !textbuffer_context.multiline {
        scroll as int
    } else {
        bottom_scroll(
            Textbuffer::last_line(filebuffer),
            textbuffer_context.selection_gap as int,
            line_count as int,
            cursor_scroll(
                line_of(filebuffer.text(), cursor as int) as int,
                textbuffer_context.selection_gap as int,
                line_count as int,
                scroll as int,
            ),
        )
    }
}

/// Bringing a cursor at `cursor` into view leaves a first line that the
/// bottom check can work from: no further down than the last line, or in a
/// window tall enough to show every line with the gap.
pub open spec fn gap_scroll_fits(
    textbuffer_context: &TextbufferContext,
    filebuffer: &Filebuffer,
    cursor: usize,
    scroll: usize,
    line_count: usize,
) -> bool {
    !textbuffer_context.multiline || {
        let gap = textbuffer_context.selection_gap as int;
        let first = cursor_scroll(line_of(filebuffer.text(), cursor as int) as int, gap, line_count as int, scroll as int);
        first <= Textbuffer::last_line(filebuffer) || Textbuffer::last_line(filebuffer) + gap + 1 < line_count
    }
}

impl Textbuffer {
    /// The last line of the text.
    pub open spec fn last_line(filebuffer: &Filebuffer) -> int {
        line_of(filebuffer.text(), filebuffer.text().len() - 1) as int
    }

    /// Scrolls up by the scroll size, not past the first line.
    pub fn scroll_up(&mut self, textbuffer_context: &TextbufferContext)
        ensures
            final(self).sels() == old(self).sels(),
            final(self).synced() == old(self).synced(),
            final(self).selection_mode() == old(self).selection_mode(),
            final(self).adding() == old(self).adding(),
            final(self).padding_char() == old(self).padding_char(),
            final(self).horizontal() == old(self).horizontal(),
            final(self).lines_shown() == old(self).lines_shown(),
            final(self).window() == old(self).window(),
            final(self).scroll() == if old(self).scroll() >= textbuffer_context.scroll_size {
                old(self).scroll() - textbuffer_context.scroll_size
            } else {
                0
            },
    {
        if self.vertical_scroll >= textbuffer_context.scroll_size {
            self.vertical_scroll = self.vertical_scroll - textbuffer_context.scroll_size;
        } else {
            self.vertical_scroll = 0;
        }
    }

    /// Scrolls down by the scroll size, then pulls the view back so that it
    /// does not end further than the gap below the last line.
    pub fn scroll_down(&mut self, textbuffer_context: &TextbufferContext, filebuffer: &Filebuffer)
        requires
            old(self).wf(filebuffer),
            textbuffer_context.wf(),
            old(self).scroll() + textbuffer_context.scroll_size <= Textbuffer::last_line(filebuffer)
                || Textbuffer::last_line(filebuffer) + textbuffer_context.selection_gap + 1 < old(self).lines_shown(),
        ensures
            final(self).wf(filebuffer),
            final(self).sels() == old(self).sels(),
            final(self).synced() == old(self).synced(),
            final(self).selection_mode() == old(self).selection_mode(),
            final(self).adding() == old(self).adding(),
            final(self).padding_char() == old(self).padding_char(),
            final(self).horizontal() == old(self).horizontal(),
            final(self).lines_shown() == old(self).lines_shown(),
            final(self).window() == old(self).window(),
            final(self).scroll() == bottom_scroll(Textbuffer::last_line(filebuffer), textbuffer_context.selection_gap as int,
                old(self).lines_shown() as int, old(self).scroll() + textbuffer_context.scroll_size),
    {
        proof {
            lemma_newline_count_bound(filebuffer.text(), filebuffer.text().len() - 1);
        }
        self.vertical_scroll = self.vertical_scroll + textbuffer_context.scroll_size;
        self.check_bottom_scroll(textbuffer_context, filebuffer);
    }

    pub(crate) fn check_bottom_scroll(&mut self, textbuffer_context: &TextbufferContext, filebuffer: &Filebuffer)
        requires
            filebuffer.text().len() > 0,
            filebuffer.text().len() <= usize::MAX / 8,
            textbuffer_context.wf(),
            old(self).lines_shown() <= usize::MAX / 8,
            old(self).scroll() <= usize::MAX / 4,
            old(self).scroll() <= Textbuffer::last_line(filebuffer) || Textbuffer::last_line(filebuffer)
                + textbuffer_context.selection_gap + 1 < old(self).lines_shown(),
        ensures
            final(self).sels() == old(self).sels(),
            final(self).synced() == old(self).synced(),
            final(self).same_settings_but_scroll(old(self)),
            final(self).scroll() == bottom_scroll(Textbuffer::last_line(filebuffer), textbuffer_context.selection_gap as int,
                old(self).lines_shown() as int, old(self).scroll() as int),
            final(self).scroll() <= old(self).scroll(),
    {
        proof {
            lemma_newline_count_bound(filebuffer.text(), filebuffer.text().len() - 1);
        }
        let last_line = self.line_number_from_index(filebuffer, filebuffer.last_buffer_index());
        let scroll_gap = textbuffer_context.selection_gap + 1;
        if last_line + scroll_gap < self.line_count {
            self.vertical_scroll = 0;
        } else if self.line_count > scroll_gap + (last_line - self.vertical_scroll) {
            self.vertical_scroll = scroll_gap + last_line - self.line_count;
        }
    }

    /// Everything but the selections, the synced position and the scroll is as in `other`.
    pub open spec fn same_settings_but_scroll(&self, other: &Textbuffer) -> bool {
        &&& self.selection_mode() == other.selection_mode()
        &&& self.adding() == other.adding()
        &&& self.padding_char() == other.padding_char()
        &&& self.horizontal() == other.horizontal()
        &&& self.lines_shown() == other.lines_shown()
        &&& self.window() == other.window()
    }


    /// Scrolls so that the cursor of the last selection is shown with the
    /// selection gap around it, where the text allows.
    pub(crate) fn check_selection_gaps(&mut self, textbuffer_context: &TextbufferContext, filebuffer: &Filebuffer)
        requires
            old(self).wf_loose(filebuffer),
            textbuffer_context.wf(),
            old(self).sels().last().primary_index < filebuffer.text().len() || old(self).sels().last().primary_index
                == filebuffer.text().len() && gap_scroll_fits(textbuffer_context, filebuffer,
                old(self).sels().last().primary_index, old(self).scroll(), old(self).lines_shown()),
        ensures
            old(self).wf(filebuffer) ==> final(self).wf(filebuffer),
            final(self).wf_loose(filebuffer),
            final(self).sels() == old(self).sels(),
            final(self).synced() == old(self).synced(),
            final(self).same_settings_but_scroll(old(self)),
            final(self).scroll() == scroll_after_gaps(textbuffer_context, filebuffer, old(self).sels().last().primary_index,
                old(self).scroll(), old(self).lines_shown()),
            textbuffer_context.multiline && old(self).lines_shown() > 0 && old(self).sels().last().primary_index
                < filebuffer.text().len() ==> {
                let line = line_of(filebuffer.text(), old(self).sels().last().primary_index as int);
                final(self).scroll() <= line < final(self).scroll() + final(self).lines_shown()
            },
    {
        if !textbuffer_context.multiline {
            return;
        }
        let last = self.selections.len() - 1;
        let primary = self.selections[last].primary_index;
        let line_number = self.line_number_from_index(filebuffer, primary);
        let gap = textbuffer_context.selection_gap;
        proof {
            if primary < filebuffer.text().len() {
                lemma_newline_count_monotone(filebuffer.text(), primary as int, filebuffer.text().len() - 1);
            } else {
                lemma_newline_count_bound(filebuffer.text(), filebuffer.text().len() as int);
            }
            lemma_newline_count_bound(filebuffer.text(), filebuffer.text().len() - 1);
        }
        if gap * 2 >= self.line_count {
            if line_number > self.line_count / 2 {
                self.vertical_scroll = line_number - self.line_count / 2;
            } else {
                self.vertical_scroll = 0;
            }
        } else if line_number < self.vertical_scroll + gap {
            if line_number > gap {
                self.vertical_scroll = line_number - gap;
            } else {
                self.vertical_scroll = 0;
            }
        } else if line_number + gap + 1 > self.vertical_scroll + self.line_count {
            self.vertical_scroll = self.vertical_scroll + (line_number + gap + 1 - self.vertical_scroll - self.line_count);
        }
        self.check_bottom_scroll(textbuffer_context, filebuffer);
    }

    /// Whether a cursor just past the end of the text can be scrolled into
    /// view, as `gap_scroll_fits` says.
    pub fn scroll_fits_at_end(&self, textbuffer_context: &TextbufferContext, filebuffer: &Filebuffer) -> (r: bool)
        requires
            self.wf_loose(filebuffer),
            textbuffer_context.wf(),
        ensures
            r == gap_scroll_fits(textbuffer_context, filebuffer, filebuffer.text().len() as usize, self.scroll(),
                self.lines_shown()),
    {
        if !textbuffer_context.multiline {
            return true;
        }
        proof {
            lemma_newline_count_bound(filebuffer.text(), filebuffer.text().len() as int);
            lemma_newline_count_bound(filebuffer.text(), filebuffer.text().len() - 1);
        }
        let line = self.line_number_from_index(filebuffer, filebuffer.length());
        let last_line = self.line_number_from_index(filebuffer, filebuffer.last_buffer_index());
        let gap = textbuffer_context.selection_gap;
        let scroll = self.vertical_scroll;
        let count = self.line_count;
        let first = if gap * 2 >= count {
            if line > count / 2 {
                line - count / 2
            } else {
                0
            }
        } else if line < scroll + gap {
            if line > gap {
                line - gap
            } else {
                0
            }
        } else if line + gap + 1 > scroll + count {
            line + gap + 1 - count
        } else {
            scroll
        };
        first <= last_line || last_line + gap + 1 < count
    }

    /// Takes the number of lines the window shows now, and scrolls the cursor
    /// back into view.
    pub fn update_layout(&mut self, textbuffer_context: &TextbufferContext, filebuffer: &Filebuffer, line_count: usize)
        requires
            old(self).wf(filebuffer),
            textbuffer_context.wf(),
            line_count <= usize::MAX / 8,
        ensures
            final(self).wf(filebuffer),
            final(self).sels() == old(self).sels(),
            final(self).synced() == old(self).synced(),
            final(self).lines_shown() == line_count,
            final(self).selection_mode() == old(self).selection_mode(),
            final(self).adding() == old(self).adding(),
            final(self).padding_char() == old(self).padding_char(),
            final(self).horizontal() == old(self).horizontal(),
            final(self).window() == old(self).window(),
            textbuffer_context.multiline && line_count > 0 ==> {
                let line = line_of(filebuffer.text(), old(self).sels().last().primary_index as int);
                final(self).scroll() <= line < final(self).scroll() + line_count
            },
    {
        self.line_count = line_count;
        self.check_selection_gaps(textbuffer_context, filebuffer);
    }
}

} // verus!
