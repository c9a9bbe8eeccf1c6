use vstd::prelude::*;
use crate::action::Action;
use crate::bindings::{Binding, Modifiers, insert_binding, matching_actions, matching_bindings, is_binding_slot, longest_first, lemma_matching_actions};

verus! {

/// The settings that a text buffer is drawn and edited with.
pub struct TextbufferContext {
    pub line_numbers: bool,
    pub tab_width: usize,
    pub scroll_size: usize,
    pub append_lines: bool,
    pub status_bar: bool,
    pub highlighting: bool,
    pub selection_lines: bool,
    pub preserve_lines: bool,
    pub unfocused_selections: bool,
    pub start_at_symbol: bool,
    pub multiline: bool,
    /// How many lines are kept visible above and below the cursor.
    pub selection_gap: usize,
    /// Line numbers count from the cursor's lines.
    pub relative_line_numbers: bool,
}

impl TextbufferContext {
    /// The numbers in the settings are small enough for the arithmetic done on them.
    pub open spec fn wf(&self) -> bool {
        &&& self.selection_gap <= usize::MAX / 8
        &&& self.scroll_size <= usize::MAX / 8
    }

    /// The settings of an editor window.
    pub fn from() -> (r: Self)
        ensures
            r.wf(),
            r.line_numbers,
            r.tab_width == 4,
            r.scroll_size == 8,
            !r.append_lines,
            !r.status_bar,
            r.highlighting,
            r.selection_lines,
            r.preserve_lines,
            r.unfocused_selections,
            r.start_at_symbol,
            r.multiline,
            r.selection_gap == 8,
            !r.relative_line_numbers,
    {
        Self {
            line_numbers: true,
            tab_width: 4,
            scroll_size: 8,
            append_lines: false,
            status_bar: false,
            highlighting: true,
            selection_lines: true,
            preserve_lines: true,
            unfocused_selections: true,
            start_at_symbol: true,
            multiline: true,
            selection_gap: 8,
            relative_line_numbers: false,
        }
    }

    /// The settings of a one-line text box.
    pub fn textbox() -> (r: Self)
        ensures
            r.wf(),
            !r.line_numbers,
            r.tab_width == 4,
            r.scroll_size == 0,
            !r.append_lines,
            !r.status_bar,
            r.highlighting,
            !r.selection_lines,
            r.preserve_lines,
            !r.unfocused_selections,
            !r.start_at_symbol,
            !r.multiline,
            r.selection_gap == 0,
            !r.relative_line_numbers,
    {
        Self {
            line_numbers: false,
            tab_width: 4,
            scroll_size: 0,
            append_lines: false,
            status_bar: false,
            highlighting: true,
            selection_lines: false,
            preserve_lines: true,
            unfocused_selections: false,
            start_at_symbol: false,
            multiline: false,
            selection_gap: 0,
            relative_line_numbers: false,
        }
    }

    pub fn toggle_line_numbers(&mut self)
        ensures
            *final(self) == (TextbufferContext { line_numbers: !old(self).line_numbers, ..*old(self) }),
    {
        self.line_numbers = !self.line_numbers;
    }

    pub fn toggle_append_lines(&mut self)
        ensures
            *final(self) == (TextbufferContext { append_lines: !old(self).append_lines, ..*old(self) }),
    {
        self.append_lines = !self.append_lines;
    }

    pub fn toggle_status_bar(&mut self)
        ensures
            *final(self) == (TextbufferContext { status_bar: !old(self).status_bar, ..*old(self) }),
    {
        self.status_bar = !self.status_bar;
    }

    pub fn toggle_selection_lines(&mut self)
        ensures
            *final(self) == (TextbufferContext { selection_lines: !old(self).selection_lines, ..*old(self) }),
    {
        self.selection_lines = !self.selection_lines;
    }

    pub fn toggle_highlighting(&mut self)
        ensures
            *final(self) == (TextbufferContext { highlighting: !old(self).highlighting, ..*old(self) }),
    {
        self.highlighting = !self.highlighting;
    }

    pub fn toggle_preserve_lines(&mut self)
        ensures
            *final(self) == (TextbufferContext { preserve_lines: !old(self).preserve_lines, ..*old(self) }),
    {
        self.preserve_lines = !self.preserve_lines;
    }

    pub fn toggle_unfocused_selections(&mut self)
        ensures
            *final(self) == (TextbufferContext {
                unfocused_selections: !old(self).unfocused_selections,
                ..*old(self)
            }),
    {
        self.unfocused_selections = !self.unfocused_selections;
    }

    pub fn toggle_start_at_symbol(&mut self)
        ensures
            *final(self) == (TextbufferContext { start_at_symbol: !old(self).start_at_symbol, ..*old(self) }),
    {
        self.start_at_symbol = !self.start_at_symbol;
    }
}

/// The smallest font size zooming out reaches.
pub const SMALLEST_FONT_SIZE: usize = 5;
/// The biggest font size zooming in reaches.
pub const BIGGEST_FONT_SIZE: usize = 50;
/// The lowest antialiasing level.
pub const ANTIALIASING_MIN: usize = 0;
/// The antialiasing level that is not raised any further.
pub const ANTIALIASING_MAX: usize = 8;

/// The font size one zoom step in from `size`.
pub open spec fn zoomed_in(size: usize) -> usize {
    if size < BIGGEST_FONT_SIZE {
        (size + 1) as usize
    } else {
        size
    }
}

/// The font size one zoom step out from `size`.
pub open spec fn zoomed_out(size: usize) -> usize {
    if size > SMALLEST_FONT_SIZE {
        (size - 1) as usize
    } else {
        size
    }
}

/// Zooming keeps a font size between the smallest and the biggest one there,
/// and zooming in from below the biggest size and back out again gives the
/// size back.
pub proof fn law_zoom_in_range(size: usize)
    ensures
        SMALLEST_FONT_SIZE <= size <= BIGGEST_FONT_SIZE ==> SMALLEST_FONT_SIZE <= zoomed_in(size) <= BIGGEST_FONT_SIZE
            && SMALLEST_FONT_SIZE <= zoomed_out(size) <= BIGGEST_FONT_SIZE,
        SMALLEST_FONT_SIZE <= size < BIGGEST_FONT_SIZE ==> zoomed_out(zoomed_in(size)) == size,
{
}

/// The editor's settings, as read from its configuration.
pub struct Context {
    pub line_numbers: bool,
    pub font_size: usize,
    pub tab_width: usize,
    pub scroll_size: usize,
    pub selection_gap: usize,
    pub append_lines: bool,
    pub status_bar: bool,
    pub highlighting: bool,
    pub theme_name: String,
    pub selection_lines: bool,
    pub preserve_lines: bool,
    pub unfocused_selections: bool,
    pub focus_bar: bool,
    pub start_at_symbol: bool,
    pub antialiasing_level: usize,
    /// Each binding with how many keys it takes and the action it asks for,
    /// those that take more keys first.
    pub bindings: Vec<(Binding, usize, Action)>,
}

impl Context {
    /// The numbers, flags and theme name of `self` and `other` agree.
    pub open spec fn agrees(&self, other: &Context) -> bool {
        &&& self.line_numbers == other.line_numbers
        &&& self.font_size == other.font_size
        &&& self.tab_width == other.tab_width
        &&& self.scroll_size == other.scroll_size
        &&& self.selection_gap == other.selection_gap
        &&& self.append_lines == other.append_lines
        &&& self.status_bar == other.status_bar
        &&& self.highlighting == other.highlighting
        &&& self.theme_name@ == other.theme_name@
        &&& self.selection_lines == other.selection_lines
        &&& self.preserve_lines == other.preserve_lines
        &&& self.unfocused_selections == other.unfocused_selections
        &&& self.focus_bar == other.focus_bar
        &&& self.start_at_symbol == other.start_at_symbol
        &&& self.antialiasing_level == other.antialiasing_level
        &&& self.bindings@ == other.bindings@
    }

    /// Would write the settings back to the configuration; the editor does not
    /// do that yet, so nothing happens.
    pub fn safe(&self) {
    }

    /// Adds a binding of `length` keys for `action`, before the first binding
    /// that takes no more keys.
    pub fn add_binding(&mut self, binding: Binding, length: usize, action: Action)
        ensures
            exists|p: int| is_binding_slot(old(self).bindings@, length, p)
                && final(self).agrees(&Context { bindings: final(self).bindings, ..*old(self) })
                && final(self).bindings@ == old(self).bindings@.insert(p, (binding, length, action)),
            longest_first(old(self).bindings@) ==> longest_first(final(self).bindings@),
    {
        insert_binding(&mut self.bindings, (binding, length, action));
    }

    /// The actions of the bindings that `matched` marks (one flag per binding:
    /// whether it matches the key event), each once, in the bindings' order.
    pub fn get_matching_actions(&self, matched: &Vec<bool>) -> (r: Vec<Action>)
        requires
            matched@.len() == self.bindings@.len(),
        ensures
            r@ == matching_actions(self.bindings@, matched@, self.bindings@.len()),
            r@.no_duplicates(),
            forall|a: Action| #[trigger] r@.contains(a) <==> exists|i: int|
                0 <= i < self.bindings@.len() && matched@[i] && self.bindings@[i].2 == a,
    {
        proof {
            lemma_matching_actions(self.bindings@, matched@, self.bindings@.len());
        }
        matching_bindings(&self.bindings, matched)
    }

    /// The actions of the bindings that fire when the key `trigger` is
    /// pressed with the modifiers `held`, each once, in the bindings' order.
    pub fn get_actions_for_key(&self, trigger: u32, held: Modifiers) -> (r: Vec<Action>)
        ensures
            r@ == matching_actions(self.bindings@, Seq::new(self.bindings@.len(),
                |i: int| self.bindings@[i].0.fires_on(trigger, held)), self.bindings@.len()),
            forall|a: Action| #[trigger] r@.contains(a) <==> exists|i: int|
                0 <= i < self.bindings@.len() && self.bindings@[i].0.fires_on(trigger, held) && self.bindings@[i].2 == a,
    {
        let mut matched: Vec<bool> = Vec::new();
        let mut i: usize = 0;
        while i < self.bindings.len()
            invariant
                i <= self.bindings@.len(),
                matched@ == Seq::new(i as nat, |j: int| self.bindings@[j].0.fires_on(trigger, held)),
            decreases self.bindings@.len() - i,
        {
            let fires = self.bindings[i].0.matches(trigger, held);
            matched.push(fires);
            i = i + 1;
        }
        let r = self.get_matching_actions(&matched);
        assert forall|a: Action| #[trigger] r@.contains(a) <==> exists|i: int|
            0 <= i < self.bindings@.len() && self.bindings@[i].0.fires_on(trigger, held) && self.bindings@[i].2 == a by {
            if r@.contains(a) {
                let i = choose|i: int| 0 <= i < self.bindings@.len() && matched@[i] && self.bindings@[i].2 == a;
                assert(self.bindings@[i].0.fires_on(trigger, held));
            }
            if exists|i: int| 0 <= i < self.bindings@.len() && self.bindings@[i].0.fires_on(trigger, held)
                && self.bindings@[i].2 == a {
                let i = choose|i: int| 0 <= i < self.bindings@.len() && self.bindings@[i].0.fires_on(trigger, held)
                    && self.bindings@[i].2 == a;
                assert(matched@[i]);
            }
        }
        r
    }

    pub fn toggle_line_numbers(&mut self)
        ensures
            final(self).agrees(&Context { line_numbers: !old(self).line_numbers, ..*old(self) }),
    {
        self.line_numbers = !self.line_numbers;
    }

    pub fn toggle_append_lines(&mut self)
        ensures
            final(self).agrees(&Context { append_lines: !old(self).append_lines, ..*old(self) }),
    {
        self.append_lines = !self.append_lines;
    }

    pub fn toggle_status_bar(&mut self)
        ensures
            final(self).agrees(&Context { status_bar: !old(self).status_bar, ..*old(self) }),
    {
        self.status_bar = !self.status_bar;
    }

    pub fn toggle_selection_lines(&mut self)
        ensures
            final(self).agrees(&Context { selection_lines: !old(self).selection_lines, ..*old(self) }),
    {
        self.selection_lines = !self.selection_lines;
    }

    pub fn toggle_highlighting(&mut self)
        ensures
            final(self).agrees(&Context { highlighting: !old(self).highlighting, ..*old(self) }),
    {
        self.highlighting = !self.highlighting;
    }

    pub fn toggle_preserve_lines(&mut self)
        ensures
            final(self).agrees(&Context { preserve_lines: !old(self).preserve_lines, ..*old(self) }),
    {
        self.preserve_lines = !self.preserve_lines;
    }

    pub fn toggle_unfocused_selections(&mut self)
        ensures
            final(self).agrees(&Context { unfocused_selections: !old(self).unfocused_selections, ..*old(self) }),
    {
        self.unfocused_selections = !self.unfocused_selections;
    }

    pub fn toggle_focus_bar(&mut self)
        ensures
            final(self).agrees(&Context { focus_bar: !old(self).focus_bar, ..*old(self) }),
    {
        self.focus_bar = !self.focus_bar;
    }

    pub fn toggle_start_at_symbol(&mut self)
        ensures
            final(self).agrees(&Context { start_at_symbol: !old(self).start_at_symbol, ..*old(self) }),
    {
        self.start_at_symbol = !self.start_at_symbol;
    }

    /// One point bigger, up to the biggest font size.
    pub fn zoom_in(&mut self)
        ensures
            final(self).agrees(&Context {
                font_size: zoomed_in(old(self).font_size),
                ..*old(self)
            }),
    {
        if self.font_size < BIGGEST_FONT_SIZE {
            self.font_size = self.font_size + 1;
        }
    }

    /// One point smaller, down to the smallest font size.
    pub fn zoom_out(&mut self)
        ensures
            final(self).agrees(&Context {
                font_size: zoomed_out(old(self).font_size),
                ..*old(self)
            }),
    {
        if self.font_size > SMALLEST_FONT_SIZE {
            self.font_size = self.font_size - 1;
        }
    }

    /// Doubles the antialiasing level while it is below the highest one.
    pub fn increase_antialiasing(&mut self)
        ensures
            final(self).agrees(&Context {
                antialiasing_level: if old(self).antialiasing_level < ANTIALIASING_MAX {
                    (old(self).antialiasing_level * 2) as usize
                } else {
                    old(self).antialiasing_level
                },
                ..*old(self)
            }),
    {
        if self.antialiasing_level < ANTIALIASING_MAX {
            self.antialiasing_level = self.antialiasing_level * 2;
        }
    }

    /// Halves the antialiasing level while it is above the lowest one.
    pub fn decrease_antialiasing(&mut self)
        ensures
            final(self).agrees(&Context {
                antialiasing_level: if old(self).antialiasing_level > ANTIALIASING_MIN {
                    (old(self).antialiasing_level / 2) as usize
                } else {
                    old(self).antialiasing_level
                },
                ..*old(self)
            }),
    {
        if self.antialiasing_level > ANTIALIASING_MIN {
            self.antialiasing_level = self.antialiasing_level / 2;
        }
    }
}

} // verus!
