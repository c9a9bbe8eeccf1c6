use vstd::prelude::*;

use crate::action::Action;
use crate::chars::{contains, copy_text, occurs_in, same_text};
use vstd::pervasive::cloned;
use crate::context::Context;
use crate::status::DialogueStatus;
use crate::textbox::TextBox;
use crate::textbuffer::Textbuffer;

verus! {

/// An entry a combo box offers: a name to show, a name to match and put in
/// the field, and the value it stands for.
pub trait ComboItem: Sized {
    type Value;

    /// The name matched against what was typed and put in the field.
    spec fn name(&self) -> Seq<char>;

    fn display_name(&self) -> Vec<char>;

    fn update_name(&self) -> (r: Vec<char>)
        ensures
            r@ == self.name();

    /// `value` is the value the item stands for.
    spec fn stands_for(&self, value: &Self::Value) -> bool;

    fn return_value(&self) -> (r: Self::Value)
        ensures
            self.stands_for(&r);
}

/// What a combo box has focused: its field, or one of the items that fit what
/// was typed (the typed text kept, to go back to).
pub enum ComboSelection {
    TextBox,
    Item(usize, Vec<char>),
}

/// The focus as plain values.
pub open spec fn focused(selection: &ComboSelection) -> Option<(usize, Seq<char>)> {
    match selection {
        ComboSelection::TextBox => None,
        ComboSelection::Item(index, original) => Some((*index, original@)),
    }
}

impl ComboSelection {
    pub fn is_textbox(&self) -> (r: bool)
        ensures
            r == (focused(self) is None),
    {
        match self {
            ComboSelection::TextBox => true,
            _ => false,
        }
    }

    pub fn index_matches(&self, selected: usize) -> (r: bool)
        ensures
            r == (focused(self) matches Some(f) && f.0 == selected),
    {
        match self {
            ComboSelection::TextBox => false,
            ComboSelection::Item(index, _original) => *index == selected,
        }
    }

    /// A copy of the focus.
    pub fn duplicate(&self) -> (r: ComboSelection)
        ensures
            focused(&r) == focused(self),
    {
        match self {
            ComboSelection::TextBox => ComboSelection::TextBox,
            ComboSelection::Item(index, original) => ComboSelection::Item(*index, copy_text(original)),
        }
    }
}

/// The positions of the items whose names contain `key`, in order, among the
/// first `count` items.
pub open spec fn fitting<I: ComboItem>(items: Seq<I>, key: Seq<char>, count: int) -> Seq<usize>
    decreases count,
{
    if count <= 0 {
        seq![]
    } else if occurs_in(items[count - 1].name(), key) {
        fitting(items, key, count - 1).push((count - 1) as usize)
    } else {
        fitting(items, key, count - 1)
    }
}

pub proof fn lemma_fitting<I: ComboItem>(items: Seq<I>, key: Seq<char>, count: int)
    requires
        0 <= count <= items.len(),
    ensures
        forall|j: int| 0 <= j < fitting(items, key, count).len() ==> #[trigger] fitting(items, key, count)[j] < count,
        fitting(items, key, count).len() <= count,
    decreases count,
{
    if count > 0 {
        lemma_fitting(items, key, count - 1);
        let before = fitting(items, key, count - 1);
        assert forall|j: int| 0 <= j < fitting(items, key, count).len() implies #[trigger] fitting(items, key, count)[j]
            < count by {
            if j < before.len() {
                assert(fitting(items, key, count)[j] == before[j]);
            }
        }
    }
}

/// The items that fit are exactly those among the first `count` whose names
/// contain the key, each once, in the order of the list.
pub proof fn law_fitting_exactly<I: ComboItem>(items: Seq<I>, key: Seq<char>, count: int)
    requires
        0 <= count <= items.len(),
        items.len() <= usize::MAX,
    ensures
        forall|j: int| 0 <= j < count ==> (fitting(items, key, count).contains(j as usize) <==> occurs_in(
            #[trigger] items[j].name(),
            key,
        )),
        forall|a: int, b: int| 0 <= a < b < fitting(items, key, count).len() ==> fitting(items, key, count)[a]
            < fitting(items, key, count)[b],
    decreases count,
{
    lemma_fitting(items, key, count);
    if count > 0 {
        law_fitting_exactly(items, key, count - 1);
        lemma_fitting(items, key, count - 1);
        let before = fitting(items, key, count - 1);
        let now = fitting(items, key, count);
        let grows = occurs_in(items[count - 1].name(), key);
        if grows {
            assert(now == before.push((count - 1) as usize));
        } else {
            assert(now == before);
        }
        assert forall|j: int| 0 <= j < count implies (now.contains(j as usize) <==> occurs_in(
            #[trigger] items[j].name(),
            key,
        )) by {
            if now.contains(j as usize) {
                let k = choose|k: int| 0 <= k < now.len() && now[k] == j as usize;
                if k < before.len() {
                    assert(now[k] == before[k]);
                    assert(before.contains(j as usize));
                }
            }
            if j < count - 1 && before.contains(j as usize) {
                let k = choose|k: int| 0 <= k < before.len() && before[k] == j as usize;
                assert(now[k] == before[k]);
            }
            if j == count - 1 && occurs_in(items[j].name(), key) {
                assert(now[now.len() - 1] == j as usize);
            }
            if j == count - 1 && now.contains(j as usize) {
                let k = choose|k: int| 0 <= k < now.len() && now[k] == j as usize;
                if k < before.len() {
                    assert(before[k] < count - 1);
                }
            }
        }
        assert forall|a: int, b: int| 0 <= a < b < now.len() implies now[a] < now[b] by {
            if b < before.len() {
                assert(now[a] == before[a] && now[b] == before[b]);
            } else {
                assert(now[a] == before[a]);
                assert(before[a] < count - 1);
                assert(now[b] == (count - 1) as usize);
            }
        }
    }
}

/// Scrolling to an item shows it: where the gap fits in the list twice, the
/// item ends up at least the gap away from either edge (or as far from the
/// top as it can), and a list that showed it so already does not scroll;
/// else the item is centred as far as it can be.
pub proof fn law_list_scroll_shows(gap: int, line_count: int, scroll: int, index: int)
    requires
        0 <= gap,
        0 <= scroll,
        0 <= index,
        0 < line_count,
    ensures
        ({
            let s = list_scroll(gap, line_count, scroll, index);
            &&& 0 <= s <= index
            &&& gap * 2 < line_count ==> {
                &&& s + gap <= index || s == 0
                &&& index + gap < s + line_count
                &&& (scroll + gap <= index && index + gap < scroll + line_count ==> s == scroll)
            }
            &&& gap * 2 >= line_count ==> s == if index >= line_count / 2 { index - line_count / 2 } else { 0 }
        }),
{
}

/// The scroll that shows item `index` with the selection gap around it,
/// starting from `scroll` in a list of `line_count` lines.
pub open spec fn list_scroll(gap: int, line_count: int, scroll: int, index: int) -> int {
    if gap * 2 >= line_count {
        if index >= line_count / 2 { index - line_count / 2 } else { 0 }
    } else if gap + scroll > index {
        if index >= gap { index - gap } else { 0 }
    } else if index + 1 - scroll + gap > line_count {
        index + 1 - (line_count - gap)
    } else {
        scroll
    }
}

/// A text field with a list of items below it that fit what was typed.
pub struct ComboBox<I: ComboItem> {
    textbox: TextBox,
    allow_unknown: bool,
    items: Vec<I>,
    selection: ComboSelection,
    displacement: usize,
    scroll: usize,
    line_count: usize,
}

impl<I: ComboItem> ComboBox<I> {
    pub closed spec fn field(&self) -> TextBox {
        self.textbox
    }

    pub closed spec fn entries(&self) -> Seq<I> {
        self.items@
    }

    pub closed spec fn focus(&self) -> Option<(usize, Seq<char>)> {
        focused(&self.selection)
    }

    pub closed spec fn unknown_allowed(&self) -> bool {
        self.allow_unknown
    }

    pub closed spec fn first_shown(&self) -> usize {
        self.scroll
    }

    pub closed spec fn lines(&self) -> usize {
        self.line_count
    }

    pub closed spec fn offset(&self) -> usize {
        self.displacement
    }

    /// The text typed: kept with the focused item, else the field's.
    pub open spec fn original(&self) -> Seq<char> {
        match self.focus() {
            Some(f) => f.1,
            None => self.field().typed(),
        }
    }

    /// The positions of the items that fit what was typed.
    pub open spec fn valid(&self) -> Seq<usize> {
        fitting(self.entries(), self.original(), self.entries().len() as int)
    }

    /// The field is usable, the numbers fit the arithmetic on the list, and
    /// the names fit in the field.
    pub open spec fn wf(&self) -> bool {
        &&& self.field().wf()
        &&& self.lines() <= usize::MAX / 4
        &&& self.first_shown() <= usize::MAX / 4
        &&& self.entries().len() < usize::MAX / 4
        &&& forall|i: int| 0 <= i < self.entries().len() ==> (#[trigger] self.entries()[i]).name().len() < usize::MAX / 8
        &&& self.original().len() < usize::MAX / 8
        &&& (self.focus() matches Some(f) ==> f.0 < usize::MAX / 4)
    }

    /// Everything but the focus, the field and the scroll is as in `other`.
    pub open spec fn same_list(&self, other: &ComboBox<I>) -> bool {
        &&& self.entries() == other.entries()
        &&& self.unknown_allowed() == other.unknown_allowed()
        &&& self.lines() == other.lines()
        &&& self.offset() == other.offset()
    }

    pub fn new(description: &str, displacement: usize, allow_unknown: bool, items: Vec<I>) -> (r: Self)
        requires
            items@.len() < usize::MAX / 4,
            forall|i: int| 0 <= i < items@.len() ==> (#[trigger] items@[i]).name().len() < usize::MAX / 8,
        ensures
            r.wf(),
            r.field().description@ == description@,
            r.field().filebuffer.text() == seq![' '],
            r.unknown_allowed() == allow_unknown,
            r.entries() == items@,
            r.focus() is None,
            r.offset() == displacement,
            r.first_shown() == 0,
            r.lines() == 0,
    {
        Self {
            textbox: TextBox::new(description, displacement),
            allow_unknown,
            items,
            selection: ComboSelection::TextBox,
            displacement,
            scroll: 0,
            line_count: 0,
        }
    }

    /// The typed text.
    pub fn get_original(&self) -> (r: Vec<char>)
        ensures
            r@ == self.original(),
    {
        match &self.selection {
            ComboSelection::Item(_index, original) => copy_text(original),
            ComboSelection::TextBox => self.textbox.get(),
        }
    }

    /// The positions of the items that fit what was typed.
    fn valid_indices(&self) -> (r: Vec<usize>)
        ensures
            r@ == self.valid(),
            forall|j: int| 0 <= j < r@.len() ==> #[trigger] r@[j] < self.entries().len(),
            r@.len() <= self.entries().len(),
    {
        let original = self.get_original();
        let mut valid: Vec<usize> = Vec::new();
        let mut i: usize = 0;
        while i < self.items.len()
            invariant
                i <= self.items@.len(),
                original@ == self.original(),
                valid@ == fitting(self.items@, original@, i as int),
            decreases self.items.len() - i,
        {
            let name = self.items[i].update_name();
            if contains(&name, &original) {
                valid.push(i);
            }
            i = i + 1;
        }
        proof {
            lemma_fitting(self.items@, original@, self.items@.len() as int);
        }
        valid
    }

    /// Scrolls the list so that item `index` is shown with the selection gap
    /// around it.
    fn check_selection_gaps(&mut self, context: &Context, index: usize)
        requires
            old(self).lines() <= usize::MAX / 4,
            old(self).first_shown() <= usize::MAX / 4,
            context.selection_gap <= usize::MAX / 4,
            index < usize::MAX / 4,
        ensures
            final(self).first_shown() == list_scroll(context.selection_gap as int, old(self).lines() as int,
                old(self).first_shown() as int, index as int),
            final(self).first_shown() <= usize::MAX / 4,
            final(self).field() == old(self).field(),
            final(self).focus() == old(self).focus(),
            final(self).same_list(old(self)),
    {
        let gap = context.selection_gap;
        if gap * 2 >= self.line_count {
            self.scroll = index.saturating_sub(self.line_count / 2);
        } else if gap + self.scroll > index {
            self.scroll = index.saturating_sub(gap);
        } else if index + 1 - self.scroll + gap > self.line_count {
            self.scroll = index + 1 - (self.line_count - gap);
        }
    }
    /// What `move_up` leaves.
    pub open spec fn moved_up(new: &ComboBox<I>, old: &ComboBox<I>, gap: usize) -> bool {
        match old.focus() {
            None => new == old,
            Some(f) => if f.0 == 0 {
                &&& new.focus() is None
                &&& new.field().typed() == f.1
                &&& new.first_shown() == old.first_shown()
            } else if f.0 - 1 < old.valid().len() {
                let i = (f.0 - 1) as usize;
                &&& new.focus() == Some((i, f.1))
                &&& new.field().typed() == old.entries()[old.valid()[i as int] as int].name()
                &&& new.first_shown() == list_scroll(gap as int, old.lines() as int, old.first_shown() as int, i as int)
            } else {
                new == old
            },
        }
    }

    /// What `move_down` leaves.
    pub open spec fn moved_down(new: &ComboBox<I>, old: &ComboBox<I>, gap: usize) -> bool {
        match old.focus() {
            None => if old.valid().len() > 0 {
                &&& new.focus() == Some((0usize, old.field().typed()))
                &&& new.field().typed() == old.entries()[old.valid()[0] as int].name()
                &&& new.first_shown() == old.first_shown()
            } else {
                new == old
            },
            Some(f) => if f.0 + 1 < old.valid().len() {
                &&& new.focus() == Some(((f.0 + 1) as usize, f.1))
                &&& new.field().typed() == old.entries()[old.valid()[f.0 + 1] as int].name()
                &&& new.first_shown() == list_scroll(gap as int, old.lines() as int, old.first_shown() as int, f.0 + 1)
            } else {
                new == old
            },
        }
    }

    /// Moving down from the field onto the first item that fits and back up
    /// focuses the field again with the text that was typed, at the same
    /// scroll.
    pub proof fn law_down_then_up(old: &ComboBox<I>, mid: &ComboBox<I>, new: &ComboBox<I>, gap: usize)
        requires
            old.focus() is None,
            old.valid().len() > 0,
            ComboBox::moved_down(mid, old, gap),
            ComboBox::moved_up(new, mid, gap),
        ensures
            new.focus() is None,
            new.field().typed() == old.field().typed(),
            new.first_shown() == old.first_shown(),
    {
    }

    /// Focuses the item above, or the field (with the typed text back) from
    /// the first item. Where the focused item no longer fits, nothing happens.
    fn move_up(&mut self, context: &Context)
        requires
            old(self).wf(),
            context.selection_gap <= usize::MAX / 4,
        ensures
            final(self).wf(),
            final(self).same_list(old(self)),
            ComboBox::moved_up(final(self), old(self), context.selection_gap),
    {
        let selection = self.selection.duplicate();
        if let ComboSelection::Item(index, original) = selection {
            if index == 0 {
                self.selection = ComboSelection::TextBox;
                self.textbox.set_text_without_save(original);
            } else {
                let new_index = index - 1;
                let valid = self.valid_indices();
                if new_index < valid.len() {
                    proof {
                        assert(valid@[new_index as int] < self.entries().len());
                    }
                    let text = self.items[valid[new_index]].update_name();
                    self.selection = ComboSelection::Item(new_index, original);
                    self.textbox.set_text_without_save(text);
                    self.check_selection_gaps(context, new_index);
                }
            }
        }
    }

    /// Focuses the first item that fits, keeping the typed text, or the next
    /// one. Where there is none, nothing happens.
    fn move_down(&mut self, context: &Context)
        requires
            old(self).wf(),
            context.selection_gap <= usize::MAX / 4,
        ensures
            final(self).wf(),
            final(self).same_list(old(self)),
            ComboBox::moved_down(final(self), old(self), context.selection_gap),
    {
        let selection = self.selection.duplicate();
        match selection {
            ComboSelection::TextBox => {
                let valid = self.valid_indices();
                if valid.len() > 0 {
                    let typed = self.textbox.get();
                    let text = self.items[valid[0]].update_name();
                    self.selection = ComboSelection::Item(0, typed);
                    self.textbox.set_text_without_save(text);
                }
            },
            ComboSelection::Item(index, original) => {
                let valid = self.valid_indices();
                if valid.len() > 0 && index < valid.len() - 1 {
                    let text = self.items[valid[index + 1]].update_name();
                    self.selection = ComboSelection::Item(index + 1, original);
                    self.textbox.set_text_without_save(text);
                    self.check_selection_gaps(context, index + 1);
                }
            },
        }
    }
}

/// The actions on which a combo box focuses its field before the field
/// handles them.
pub open spec fn resets_focus(action: Action) -> bool {
    action is Left || action is Right || action is Start || action is End || action is Remove || action is Delete
        || action is DeleteLine || action is ExtendLeft || action is ExtendRight || action is MoveLeft || action is MoveRight
        || action is Copy || action is Paste || action is Cut || action is Undo || action is Redo
}

impl<I: ComboItem> ComboBox<I> {
    /// Replaces the items; the focus stays as it is.
    pub fn set_items(&mut self, items: Vec<I>)
        requires
            old(self).wf(),
            items@.len() < usize::MAX / 4,
            forall|i: int| 0 <= i < items@.len() ==> (#[trigger] items@[i]).name().len() < usize::MAX / 8,
        ensures
            final(self).wf(),
            final(self).entries() == items@,
            final(self).field() == old(self).field(),
            final(self).focus() == old(self).focus(),
            final(self).unknown_allowed() == old(self).unknown_allowed(),
            final(self).offset() == old(self).offset(),
            final(self).first_shown() == old(self).first_shown(),
            final(self).lines() == old(self).lines(),
    {
        self.items = items;
    }

    /// Copies of the items that fit what was typed.
    pub fn valid_items(&self) -> (r: Vec<I>)
        where
            I: Clone,
        ensures
            r@.len() == self.valid().len(),
            forall|j: int| 0 <= j < r@.len() ==> cloned(self.entries()[self.valid()[j] as int], #[trigger] r@[j]),
    {
        let valid = self.valid_indices();
        let mut items: Vec<I> = Vec::new();
        let mut j: usize = 0;
        while j < valid.len()
            invariant
                j <= valid@.len(),
                valid@ == self.valid(),
                forall|k: int| 0 <= k < valid@.len() ==> #[trigger] valid@[k] < self.entries().len(),
                items@.len() == j,
                forall|k: int| 0 <= k < j ==> cloned(self.entries()[self.valid()[k] as int], #[trigger] items@[k]),
            decreases valid.len() - j,
        {
            assert(valid@[j as int] < self.entries().len());
            let item = self.items[valid[j]].clone();
            items.push(item);
            j = j + 1;
        }
        items
    }

    /// The text of the field.
    pub fn get_text(&self) -> (r: Vec<char>)
        ensures
            r@ == self.field().typed(),
    {
        self.textbox.get()
    }

    /// The value of the first item named as the field's text.
    pub fn get_value(&self) -> (r: I::Value)
        requires
            exists|i: int| 0 <= i < self.entries().len() && (#[trigger] self.entries()[i]).name() == self.field().typed(),
        ensures
            exists|i: int|
                0 <= i < self.entries().len() && (#[trigger] self.entries()[i]).name() == self.field().typed() && (forall|k: int|
                    0 <= k < i ==> self.entries()[k].name() != self.field().typed()) && self.entries()[i].stands_for(&r),
    {
        let text = self.get_text();
        let mut i: usize = 0;
        while i < self.items.len()
            invariant
                i <= self.entries().len(),
                text@ == self.field().typed(),
                forall|k: int| 0 <= k < i ==> self.entries()[k].name() != self.field().typed(),
                exists|m: int| 0 <= m < self.entries().len() && (#[trigger] self.entries()[m]).name() == self.field().typed(),
            decreases self.items.len() - i,
        {
            let name = self.items[i].update_name();
            if same_text(&name, &text) {
                return self.items[i].return_value();
            }
            i = i + 1;
        }
        proof {
            let m = choose|m: int| 0 <= m < self.entries().len() && (#[trigger] self.entries()[m]).name() == self.field().typed();
            assert(self.entries()[m].name() != self.field().typed());
        }
        self.items[0].return_value()
    }

    /// A copy of the focus.
    pub fn get_selection(&self) -> (r: ComboSelection)
        ensures
            focused(&r) == self.focus(),
    {
        self.selection.duplicate()
    }

    pub fn is_textbox_focused(&self) -> (r: bool)
        ensures
            r == (self.focus() is None),
    {
        self.selection.is_textbox()
    }

    /// Puts `text` in the field, recorded.
    pub fn set_text(&mut self, text: Vec<char>)
        requires
            old(self).wf(),
            text@.len() < usize::MAX / 8,
        ensures
            final(self).wf(),
            final(self).field().typed() == text@,
            final(self).focus() == old(self).focus(),
            final(self).first_shown() == old(self).first_shown(),
            final(self).same_list(old(self)),
    {
        self.textbox.set_text(text);
    }

    /// Focuses the field and empties it.
    pub fn clear(&mut self)
        requires
            old(self).wf(),
        ensures
            final(self).wf(),
            final(self).field().typed() == Seq::<char>::empty(),
            final(self).focus() is None,
            final(self).first_shown() == 0,
            final(self).same_list(old(self)),
    {
        self.reset_selection();
        self.textbox.clear();
    }

    /// Focuses the field; the scroll stays.
    pub fn focus_field(&mut self)
        ensures
            final(self).focus() is None,
            final(self).first_shown() == old(self).first_shown(),
            final(self).field() == old(self).field(),
            final(self).same_list(old(self)),
            old(self).wf() ==> final(self).wf(),
    {
        self.selection = ComboSelection::TextBox;
    }

    /// The name of the focused item (among those that fit), if an item is
    /// focused.
    pub fn focused_name(&self) -> (r: Option<Vec<char>>)
        requires
            self.wf(),
        ensures
            match self.focus() {
                Some(f) => if f.0 < self.valid().len() {
                    r matches Some(n) && n@ == self.entries()[self.valid()[f.0 as int] as int].name()
                } else {
                    r is None
                },
                None => r is None,
            },
    {
        match &self.selection {
            ComboSelection::TextBox => None,
            ComboSelection::Item(index, _original) => {
                let index = *index;
                let valid = self.valid_indices();
                if index < valid.len() {
                    Some(self.items[valid[index]].update_name())
                } else {
                    None
                }
            },
        }
    }

    /// Focuses the field and scrolls the list back to the top.
    pub fn reset_selection(&mut self)
        ensures
            final(self).focus() is None,
            final(self).first_shown() == 0,
            final(self).field() == old(self).field(),
            final(self).same_list(old(self)),
            old(self).wf() && old(self).field().typed().len() < usize::MAX / 8 ==> final(self).wf(),
    {
        self.selection = ComboSelection::TextBox;
        self.scroll = 0;
    }

    /// Puts the name of the focused item (the first one that fits, with the
    /// field focused) in the field and focuses the field. Answers whether
    /// there was such an item.
    fn focus_next(&mut self) -> (r: bool)
        requires
            old(self).wf(),
        ensures
            final(self).wf(),
            final(self).same_list(old(self)),
            r == (old(self).valid().len() > 0 && match old(self).focus() {
                Some(f) => f.0 < old(self).valid().len(),
                None => true,
            }),
            r ==> final(self).focus() is None && final(self).first_shown() == 0 && final(self).field().typed() == old(
                self).entries()[old(self).valid()[match old(self).focus() {
                Some(f) => f.0 as int,
                None => 0,
            }] as int].name(),
            !r ==> *final(self) == *old(self),
    {
        let valid = self.valid_indices();
        if valid.len() == 0 {
            return false;
        }
        let position = match &self.selection {
            ComboSelection::Item(index, _original) => *index,
            ComboSelection::TextBox => 0,
        };
        if position >= valid.len() {
            return false;
        }
        proof {
            assert(valid@[position as int] < self.entries().len());
        }
        let suffix = self.items[valid[position]].update_name();
        self.textbox.set_text(suffix);
        self.reset_selection();
        true
    }

    /// Where unknown text is not allowed and the field is focused, completes
    /// it with the first item that fits; with none, stays open.
    fn handle_confirm(&mut self) -> (r: DialogueStatus)
        requires
            old(self).wf(),
        ensures
            final(self).wf(),
            final(self).same_list(old(self)),
            final(self).focus() == old(self).focus(),
            final(self).first_shown() == old(self).first_shown(),
            !old(self).unknown_allowed() && old(self).focus() is None && old(self).valid().len() == 0 ==> r
                == (DialogueStatus { handled: true, closed: false, completed: false }) && *final(self) == *old(self),
            !old(self).unknown_allowed() && old(self).focus() is None && old(self).valid().len() > 0 ==> r
                == (DialogueStatus { handled: true, closed: true, completed: true }) && final(self).field().typed() == old(self).entries()[old(
                self).valid()[0] as int].name(),
            !(!old(self).unknown_allowed() && old(self).focus() is None) ==> r == (DialogueStatus { handled: true, closed: true, completed: true })
                && *final(self) == *old(self),
    {
        if !self.allow_unknown && self.selection.is_textbox() {
            let valid = self.valid_indices();
            if valid.len() == 0 {
                return DialogueStatus::handled();
            }
            proof {
                assert(valid@[0] < self.entries().len());
            }
            let text = self.items[valid[0]].update_name();
            self.textbox.set_text(text);
        }
        DialogueStatus::completed()
    }
}


impl<I: ComboItem> ComboBox<I> {
    /// Removes the item at the position of the focused one among all the
    /// items, then focuses the item now at that position among those that fit
    /// (the one before it past their end), or the field with the typed text
    /// back where none fits. Where that position lies past all the items,
    /// nothing happens.
    pub fn remove_selected_item(&mut self, context: &Context)
        requires
            old(self).wf(),
            context.selection_gap <= usize::MAX / 4,
        ensures
            final(self).wf(),
            final(self).unknown_allowed() == old(self).unknown_allowed(),
            final(self).lines() == old(self).lines(),
            final(self).offset() == old(self).offset(),
            match old(self).focus() {
                Some(f) => if f.0 < old(self).entries().len() {
                    &&& final(self).entries() == old(self).entries().remove(f.0 as int)
                    &&& if final(self).valid().len() == 0 {
                        final(self).focus() is None && final(self).field().typed() == f.1
                            && final(self).first_shown() == old(self).first_shown()
                    } else {
                        let i = if f.0 >= final(self).valid().len() { f.0 - 1 } else { f.0 as int };
                        i < final(self).valid().len() ==> final(self).focus() == Some((i as usize, f.1))
                            && final(self).field().typed() == final(self).entries()[final(self).valid()[i] as int].name()
                            && final(self).first_shown() == list_scroll(context.selection_gap as int, old(self).lines() as int,
                            old(self).first_shown() as int, i)
                    }
                } else {
                    *final(self) == *old(self)
                },
                None => *final(self) == *old(self),
            },
    {
        let selection = self.selection.duplicate();
        if let ComboSelection::Item(index, original) = selection {
            if index >= self.items.len() {
                return;
            }
            self.items.remove(index);
            let valid = self.valid_indices();
            if valid.len() == 0 {
                self.selection = ComboSelection::TextBox;
                self.textbox.set_text_without_save(original);
                return;
            }
            let new_index = if index >= valid.len() { index - 1 } else { index };
            if new_index < valid.len() {
                proof {
                    assert(valid@[new_index as int] < self.entries().len());
                }
                let text = self.items[valid[new_index]].update_name();
                self.selection = ComboSelection::Item(new_index, original);
                self.textbox.set_text_without_save(text);
                self.check_selection_gaps(context, new_index);
            }
        }
    }

    /// What confirming answers where the field does not take the confirmation.
    pub open spec fn confirm_status(&self) -> DialogueStatus {
        if !self.unknown_allowed() && self.focus() is None && self.valid().len() == 0 {
            DialogueStatus { handled: true, closed: false, completed: false }
        } else {
            DialogueStatus { handled: true, closed: true, completed: true }
        }
    }

    /// `FocusNext` finds an item to complete with.
    pub open spec fn can_focus_next(&self) -> bool {
        self.valid().len() > 0 && match self.focus() {
            Some(f) => f.0 < self.valid().len(),
            None => true,
        }
    }

    /// What handling `action` does to `old` and answers.
    pub open spec fn handled_action(new: &ComboBox<I>, old: &ComboBox<I>, gap: usize, action: Action, r: DialogueStatus) -> bool {
        &&& new.same_list(old)
        &&& action is Up ==> r == (DialogueStatus { handled: true, closed: false, completed: false }) && ComboBox::moved_up(
            new, old, gap)
        &&& action is Down ==> r == (DialogueStatus { handled: true, closed: false, completed: false })
            && ComboBox::moved_down(new, old, gap)
        &&& action is FocusNext && old.can_focus_next() ==> r == (DialogueStatus { handled: true, closed: false, completed: false })
            && new.focus() is None && new.first_shown() == 0 && new.field().typed() == old.entries()[old.valid()[match old.focus() {
            Some(f) => f.0 as int,
            None => 0,
        }] as int].name()
        &&& action is Confirm && !old.field().textbuffer.adding() ==> r == old.confirm_status() && new.focus() == old.focus()
            && if !old.unknown_allowed() && old.focus() is None && old.valid().len() > 0 {
            new.field().typed() == old.entries()[old.valid()[0] as int].name()
        } else {
            new.field() == old.field()
        }
        &&& !(action is Up || action is Down || action is FocusNext && old.can_focus_next() || action is Confirm
            && !old.field().textbuffer.adding()) ==> exists|answer: Option<Action>|
            #[trigger] Textbuffer::action_done(&new.field().textbuffer, &old.field().textbuffer, &old.field().textbuffer_context,
            &new.field().filebuffer, &old.field().filebuffer, action, answer) && r == match answer {
            None => DialogueStatus { handled: true, closed: false, completed: false },
            Some(_) => if action is Confirm {
                old.confirm_status()
            } else if action is Abort {
                DialogueStatus { handled: true, closed: true, completed: false }
            } else {
                DialogueStatus { handled: false, closed: false, completed: false }
            },
        }
        &&& resets_focus(action) ==> new.focus() is None && new.first_shown() == 0
        &&& !(action is Up || action is Down || action is FocusNext || resets_focus(action)) ==> new.focus() == old.focus()
            && new.first_shown() == old.first_shown()
    }

    /// Handles `action`: moves the focus on the items, completes on
    /// `FocusNext` and on confirmation, and hands the rest to the field.
    pub fn handle_action(&mut self, context: &Context, action: Action) -> (r: DialogueStatus)
        requires
            old(self).wf(),
            context.selection_gap <= usize::MAX / 4,
            old(self).field().textbuffer.has_room(&old(self).field().filebuffer),
            old(self).field().textbuffer.can_handle(&old(self).field().textbuffer_context, &old(self).field().filebuffer, action),
        ensures
            ComboBox::handled_action(final(self), old(self), context.selection_gap, action, r),
            (!(action is Undo || action is Redo) || 0 < final(self).field().filebuffer.text().len() <= usize::MAX / 8)
                && !(action is AddSelection && old(self).field().textbuffer.adds_past_end(
                    old(self).field().filebuffer.text()))
                ==> final(self).wf(),
    {
        match action {
            Action::Up => {
                self.move_up(context);
                return DialogueStatus::handled();
            },
            Action::Down => {
                self.move_down(context);
                return DialogueStatus::handled();
            },
            Action::FocusNext => {
                if self.focus_next() {
                    return DialogueStatus::handled();
                }
            },
            Action::Left | Action::Right | Action::Start | Action::End | Action::Remove | Action::Delete
            | Action::DeleteLine | Action::ExtendLeft | Action::ExtendRight | Action::MoveLeft | Action::MoveRight
            | Action::Copy | Action::Paste | Action::Cut | Action::Undo | Action::Redo => self.reset_selection(),
            _ => {},
        }
        let ghost before = *self;
        let answer = self.textbox.handle_action(action);
        let ghost unhandled = choose|a: Option<Action>| #[trigger] Textbuffer::action_done(&self.textbox.textbuffer,
            &before.textbox.textbuffer, &before.textbox.textbuffer_context, &self.textbox.filebuffer,
            &before.textbox.filebuffer, action, a) && answer == crate::textbox::field_reply(action, a is Some);
        assert(before.textbox == old(self).textbox);
        match answer.1 {
            Some(true) => {
                assert(self.textbox == before.textbox);
                self.handle_confirm()
            },
            Some(false) => {
                assert(Textbuffer::action_done(&self.field().textbuffer, &old(self).field().textbuffer,
                    &old(self).field().textbuffer_context, &self.field().filebuffer, &old(self).field().filebuffer, action,
                    unhandled));
                DialogueStatus::aborted()
            },
            None => {
                assert(Textbuffer::action_done(&self.field().textbuffer, &old(self).field().textbuffer,
                    &old(self).field().textbuffer_context, &self.field().filebuffer, &old(self).field().filebuffer, action,
                    unhandled));
                if answer.0 {
                    DialogueStatus::handled()
                } else {
                    DialogueStatus::unhandled()
                }
            },
        }
    }
}

impl<I: ComboItem> ComboBox<I> {
    /// Focuses the field and types `character` into it.
    pub fn add_character(&mut self, character: char)
        requires
            old(self).wf(),
            old(self).field().filebuffer.text().len() + old(self).field().textbuffer.sels().len() < usize::MAX / 8,
        ensures
            final(self).focus() is None,
            final(self).first_shown() == 0,
            final(self).same_list(old(self)),
            final(self).field().wf(),
            TextBox::typed_into(&final(self).field(), &old(self).field(), character),
    {
        self.reset_selection();
        self.textbox.add_character(character);
    }

    /// Takes the number of lines the list shows, and scrolls the focused item
    /// into view.
    pub fn update_layout(&mut self, context: &Context, line_count: usize)
        requires
            old(self).wf(),
            context.selection_gap <= usize::MAX / 4,
            line_count <= usize::MAX / 4,
        ensures
            final(self).wf(),
            final(self).lines() == line_count,
            final(self).field() == old(self).field(),
            final(self).focus() == old(self).focus(),
            final(self).entries() == old(self).entries(),
            final(self).first_shown() == match old(self).focus() {
                Some(f) => list_scroll(context.selection_gap as int, line_count as int, old(self).first_shown() as int, f.0 as int),
                None => old(self).first_shown() as int,
            },
    {
        self.line_count = line_count;
        if let ComboSelection::Item(index, _) = &self.selection {
            let index = *index;
            self.check_selection_gaps(context, index);
        }
    }
}

/// A file or directory offered by a file dialogue.
#[derive(Clone)]
pub struct FileItem {
    file_name: Vec<char>,
    full_path: Vec<char>,
    directory: bool,
}

impl FileItem {
    pub closed spec fn file(&self) -> Seq<char> {
        self.file_name@
    }

    pub closed spec fn path(&self) -> Seq<char> {
        self.full_path@
    }

    pub closed spec fn is_directory(&self) -> bool {
        self.directory
    }

    /// The entry `file_name` of the directory `path`; a name ending in `/` is
    /// a directory.
    pub fn new(file_name: Vec<char>, path: &Vec<char>) -> (r: Self)
        requires
            file_name@.len() > 0,
        ensures
            r.file() == file_name@,
            r.path() == path@ + file_name@,
            r.is_directory() == (file_name@.last() == '/'),
    {
        let directory = file_name[file_name.len() - 1] == '/';
        let full_path = crate::paths::joined(path, path.len(), &file_name);
        assert(path@.take(path@.len() as int) =~= path@);
        Self { file_name, full_path, directory }
    }
}

impl ComboItem for FileItem {
    type Value = Vec<char>;

    open spec fn name(&self) -> Seq<char> {
        self.path()
    }

    fn display_name(&self) -> (r: Vec<char>)
        ensures
            r@ == self.file(),
    {
        copy_text(&self.file_name)
    }

    fn update_name(&self) -> (r: Vec<char>) {
        copy_text(&self.full_path)
    }

    open spec fn stands_for(&self, value: &Vec<char>) -> bool {
        value@ == self.path()
    }

    fn return_value(&self) -> (r: Vec<char>) {
        copy_text(&self.full_path)
    }
}

} // verus!
