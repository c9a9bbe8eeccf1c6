use vstd::prelude::*;

use super::textbox::{textbox_reply, TextBox};
use crate::action::Action;
use crate::chars::{contains, copy_text, occurs_in};
use crate::context::Context;
use crate::paths::{combined, find_last_slash, joined, last_section, lemma_last_slash, tail};

verus! {

/// What a combo box has focused: its text field, or one of the variants that
/// fit what was typed (the typed text kept, to go back to).
pub enum ComboSelection {
    TextBox,
    Variant(usize, Vec<char>),
}

/// The focus as plain values: `None` for the text field, else the position of
/// the variant among those that fit and the typed text.
pub open spec fn focus_of(selection: &ComboSelection) -> Option<(usize, Seq<char>)> {
    match selection {
        ComboSelection::TextBox => None,
        ComboSelection::Variant(index, original) => Some((*index, original@)),
    }
}

/// The texts of `v`.
pub open spec fn texts(v: Seq<Vec<char>>) -> Seq<Seq<char>> {
    v.map_values(|t: Vec<char>| t@)
}

/// Those of `variants` in which `key` occurs, in their order.
pub open spec fn containing(variants: Seq<Seq<char>>, key: Seq<char>) -> Seq<Seq<char>>
    decreases variants.len(),
{
    if variants.len() == 0 {
        seq![]
    } else if occurs_in(variants.last(), key) {
        containing(variants.drop_last(), key).push(variants.last())
    } else {
        containing(variants.drop_last(), key)
    }
}

/// The variants that fit are those of `variants` in which `key` occurs, kept
/// in their order: the variants filtered by that test.
pub proof fn law_containing_filters(variants: Seq<Seq<char>>, key: Seq<char>)
    ensures
        containing(variants, key) == variants.filter(|v: Seq<char>| occurs_in(v, key)),
    decreases variants.len(),
{
    reveal(Seq::filter);
    if variants.len() > 0 {
        law_containing_filters(variants.drop_last(), key);
    }
}

impl ComboSelection {
    pub fn is_textbox(&self) -> (r: bool)
        ensures
            r == (focus_of(self) is None),
    {
        match self {
            ComboSelection::TextBox => true,
            _ => false,
        }
    }

    pub fn index_matches(&self, selected: usize) -> (r: bool)
        ensures
            r == (focus_of(self) matches Some(f) && f.0 == selected),
    {
        match self {
            ComboSelection::TextBox => false,
            ComboSelection::Variant(index, _original) => *index == selected,
        }
    }

    /// A copy of the focus.
    pub fn duplicate(&self) -> (r: ComboSelection)
        ensures
            focus_of(&r) == focus_of(self),
    {
        match self {
            ComboSelection::TextBox => ComboSelection::TextBox,
            ComboSelection::Variant(index, original) => ComboSelection::Variant(*index, copy_text(original)),
        }
    }
}

/// A text field with a list of variants below it that fit what was typed;
/// in path mode they fit what follows the last `/`, and choosing one keeps
/// what comes before it.
pub struct ComboBox {
    pub textbox: TextBox,
    pub allow_unknown: bool,
    pub variants: Vec<Vec<char>>,
    pub selection: ComboSelection,
    pub displacement: usize,
    pub path_mode: bool,
    pub scroll: usize,
}

impl ComboBox {
    /// The text typed: kept with the focused variant, else the field's.
    pub open spec fn original(&self) -> Seq<char> {
        match focus_of(&self.selection) {
            Some(f) => f.1,
            None => self.textbox.text(),
        }
    }

    /// What the variants must contain to fit.
    pub open spec fn key(&self) -> Seq<char> {
        if self.path_mode {
            last_section(self.original())
        } else {
            self.original()
        }
    }

    /// The variants that fit.
    pub open spec fn valid(&self) -> Seq<Seq<char>> {
        containing(texts(self.variants@), self.key())
    }

    /// What choosing `variant` puts in the field.
    pub open spec fn chosen(&self, variant: Seq<char>) -> Seq<char> {
        if self.path_mode {
            combined(self.original(), variant)
        } else {
            variant
        }
    }

    pub fn new(description: &str, displacement: usize, allow_unknown: bool, path_mode: bool, variants: Vec<Vec<char>>) -> (r: Self)
        ensures
            r.textbox.description@ == description@,
            r.textbox.content@ == seq![' '],
            r.allow_unknown == allow_unknown,
            r.variants == variants,
            focus_of(&r.selection) is None,
            r.displacement == displacement,
            r.path_mode == path_mode,
            r.scroll == 0,
    {
        Self {
            textbox: TextBox::new(description, displacement),
            allow_unknown,
            variants,
            selection: ComboSelection::TextBox,
            displacement,
            path_mode,
            scroll: 0,
        }
    }

    /// The typed text followed by `suffix`, as `combined` says.
    pub fn get_combined(&self, suffix: &Vec<char>) -> (r: Vec<char>)
        ensures
            r@ == combined(self.original(), suffix@),
    {
        let original = self.get_original();
        proof {
            lemma_last_slash(original@);
        }
        match find_last_slash(&original) {
            Some(position) => joined(&original, position + 1, suffix),
            None => copy_text(suffix),
        }
    }

    /// The typed text.
    fn get_original(&self) -> (r: Vec<char>)
        ensures
            r@ == self.original(),
    {
        match &self.selection {
            ComboSelection::Variant(_index, original) => copy_text(original),
            ComboSelection::TextBox => self.textbox.get(),
        }
    }

    /// The variants that fit what was typed.
    pub fn valid_variants(&self) -> (r: Vec<Vec<char>>)
        ensures
            texts(r@) == self.valid(),
    {
        let mut original = self.get_original();
        if self.path_mode {
            proof {
                lemma_last_slash(original@);
            }
            let found = find_last_slash(&original);
            original = match found {
                Some(position) => {
                    assert(position < original@.len());
                    tail(&original, position + 1)
                },
                None => original,
            };
        }
        let mut valid: Vec<Vec<char>> = Vec::new();
        let mut i: usize = 0;
        while i < self.variants.len()
            invariant
                i <= self.variants@.len(),
                original@ == self.key(),
                texts(valid@) == containing(texts(self.variants@.take(i as int)), self.key()),
            decreases self.variants.len() - i,
        {
            proof {
                assert(texts(self.variants@.take(i + 1)).drop_last() =~= texts(self.variants@.take(i as int)));
            }
            if contains(&self.variants[i], &original) {
                valid.push(copy_text(&self.variants[i]));
                proof {
                    assert(texts(valid@) =~= containing(texts(self.variants@.take(i as int)), self.key()).push(
                        self.variants@[i as int]@));
                }
            }
            i = i + 1;
        }
        assert(self.variants@.take(self.variants@.len() as int) =~= self.variants@);
        valid
    }

    /// The text of the field.
    pub fn get(&self) -> (r: Vec<char>)
        ensures
            r@ == self.textbox.text(),
    {
        self.textbox.get()
    }

    /// Focuses the text field and scrolls back to the top.
    pub fn reset_selection(&mut self)
        ensures
            focus_of(&final(self).selection) is None,
            final(self).scroll == 0,
            final(self).textbox == old(self).textbox,
            final(self).variants == old(self).variants,
            final(self).allow_unknown == old(self).allow_unknown,
            final(self).path_mode == old(self).path_mode,
            final(self).displacement == old(self).displacement,
    {
        self.selection = ComboSelection::TextBox;
        self.scroll = 0;
    }

    /// Focuses the text field; the field's text stays.
    pub fn clear(&mut self)
        ensures
            focus_of(&final(self).selection) is None,
            final(self).scroll == 0,
            final(self).textbox == old(self).textbox,
            final(self).variants == old(self).variants,
            final(self).allow_unknown == old(self).allow_unknown,
            final(self).path_mode == old(self).path_mode,
            final(self).displacement == old(self).displacement,
    {
        self.reset_selection();
        self.textbox.clear();
    }
    /// What `move_up` leaves.
    pub open spec fn moved_up(new: &ComboBox, old: &ComboBox, gap: usize) -> bool {
        match focus_of(&old.selection) {
            None => new == old,
            Some(f) => if f.0 == 0 {
                &&& focus_of(&new.selection) is None
                &&& new.textbox.text() == f.1
                &&& new.scroll == old.scroll
            } else if f.0 - 1 < old.valid().len() {
                let i = (f.0 - 1) as usize;
                &&& focus_of(&new.selection) == Some((i, f.1))
                &&& new.textbox.text() == old.chosen(old.valid()[i as int])
                &&& new.scroll == if old.scroll != 0 && gap + old.scroll > i { (old.scroll - 1) as usize } else { old.scroll }
            } else {
                new == old
            },
        }
    }

    /// What `move_down` leaves.
    pub open spec fn moved_down(new: &ComboBox, old: &ComboBox) -> bool {
        match focus_of(&old.selection) {
            None => if old.valid().len() > 0 {
                &&& focus_of(&new.selection) == Some((0usize, old.textbox.text()))
                &&& new.textbox.text() == if old.path_mode {
                    combined(old.textbox.text(), old.valid()[0])
                } else {
                    old.valid()[0]
                }
                &&& new.scroll == old.scroll
            } else {
                new == old
            },
            Some(f) => if f.0 + 1 < old.valid().len() {
                &&& focus_of(&new.selection) == Some(((f.0 + 1) as usize, f.1))
                &&& new.textbox.text() == old.chosen(old.valid()[f.0 + 1])
                &&& new.scroll == old.scroll
            } else {
                new == old
            },
        }
    }

    /// The fields that moving the focus leaves.
    pub open spec fn same_frame(&self, other: &ComboBox) -> bool {
        &&& self.variants == other.variants
        &&& self.allow_unknown == other.allow_unknown
        &&& self.path_mode == other.path_mode
        &&& self.displacement == other.displacement
        &&& self.textbox.description == other.textbox.description
        &&& self.textbox.displacement == other.textbox.displacement
    }

    /// Focuses the variant above, or the text field (with the typed text back)
    /// from the first variant. Where the focused variant no longer fits, as
    /// after the variants changed, nothing happens.
    fn move_up(&mut self, context: &Context)
        ensures
            ComboBox::moved_up(final(self), old(self), context.selection_gap),
            final(self).same_frame(old(self)),
    {
        let selection = self.selection.duplicate();
        if let ComboSelection::Variant(index, original) = selection {
            if index == 0 {
                self.selection = ComboSelection::TextBox;
                self.textbox.set(original);
            } else {
                let new_index = index - 1;
                let valid_variants = self.valid_variants();
                if new_index < valid_variants.len() {
                    proof {
                        assert(valid_variants@[new_index as int]@ == old(self).valid()[new_index as int]);
                    }
                    self.selection = ComboSelection::Variant(new_index, original);
                    let text = if self.path_mode {
                        self.get_combined(&valid_variants[new_index])
                    } else {
                        copy_text(&valid_variants[new_index])
                    };
                    self.textbox.set(text);
                    if self.scroll != 0 && (new_index < self.scroll || context.selection_gap > new_index - self.scroll) {
                        self.scroll = self.scroll - 1;
                    }
                }
            }
        }
    }

    /// Focuses the first variant that fits, keeping the typed text, or the
    /// next one. Where there is none, nothing happens.
    fn move_down(&mut self, context: &Context)
        ensures
            ComboBox::moved_down(final(self), old(self)),
            final(self).same_frame(old(self)),
    {
        let selection = self.selection.duplicate();
        match selection {
            ComboSelection::TextBox => {
                let valid_variants = self.valid_variants();
                if valid_variants.len() > 0 {
                    proof {
                        assert(valid_variants@[0]@ == old(self).valid()[0]);
                    }
                    let typed = self.textbox.get();
                    self.selection = ComboSelection::Variant(0, typed);
                    let text = if self.path_mode {
                        self.get_combined(&valid_variants[0])
                    } else {
                        copy_text(&valid_variants[0])
                    };
                    self.textbox.set(text);
                }
            },
            ComboSelection::Variant(index, original) => {
                let valid_variants = self.valid_variants();
                if valid_variants.len() > 0 && index < valid_variants.len() - 1 {
                    proof {
                        assert(valid_variants@[index + 1]@ == old(self).valid()[index + 1]);
                    }
                    self.selection = ComboSelection::Variant(index + 1, original);
                    self.textbox.set(copy_text(&valid_variants[index + 1]));
                    let text = if self.path_mode {
                        self.get_combined(&valid_variants[index + 1])
                    } else {
                        copy_text(&valid_variants[index + 1])
                    };
                    self.textbox.set(text);
                }
            },
        }
    }
}

/// The actions on which a combo box focuses its text field before the field
/// handles them.
pub open spec fn resets_focus(action: Action) -> bool {
    action is Left || action is Right || action is Start || action is End || action is Remove || action is Delete
        || action is DeleteLine || action is ExtendLeft || action is ExtendRight || action is MoveLeft || action is MoveRight
        || action is Copy || action is Paste || action is Cut
}

impl ComboBox {
    /// What confirming puts in the field where unknown text is not allowed and
    /// the field is focused: the first variant that fits.
    pub open spec fn confirmed_text(&self) -> Seq<char> {
        if self.path_mode {
            combined(self.textbox.text(), self.valid()[0])
        } else {
            self.valid()[0]
        }
    }

    /// Confirming is taken up here: no variant fits, or a directory was
    /// completed in path mode.
    pub open spec fn confirm_stays(&self) -> bool {
        &&& !self.allow_unknown
        &&& focus_of(&self.selection) is None
        &&& (self.valid().len() == 0 || {
            let t = self.confirmed_text();
            self.path_mode && t.len() > 0 && t.last() == '/'
        })
    }

    /// Where unknown text is not allowed and the field is focused, completes
    /// it with the first variant that fits. Answers whether the confirmation
    /// stays here.
    fn handle_confirm(&mut self) -> (r: bool)
        ensures
            r == old(self).confirm_stays(),
            final(self).same_frame(old(self)),
            focus_of(&final(self).selection) == focus_of(&old(self).selection),
            final(self).scroll == old(self).scroll,
            !old(self).allow_unknown && focus_of(&old(self).selection) is None && old(self).valid().len() > 0 ==> final(
                self).textbox.text() == old(self).confirmed_text() && final(self).textbox.selection.index == 0,
            !(!old(self).allow_unknown && focus_of(&old(self).selection) is None && old(self).valid().len() > 0)
                ==> final(self).textbox == old(self).textbox,
    {
        if !self.allow_unknown && self.selection.is_textbox() {
            let valid_variants = self.valid_variants();
            if valid_variants.len() == 0 {
                return true;
            }
            proof {
                assert(valid_variants@[0]@ == old(self).valid()[0]);
            }
            let text = if self.path_mode {
                self.get_combined(&valid_variants[0])
            } else {
                copy_text(&valid_variants[0])
            };
            self.textbox.set(text);
            let current = self.textbox.get();
            return self.path_mode && current.len() > 0 && current[current.len() - 1] == '/';
        }
        false
    }

    /// What handling `action` does and answers.
    pub open spec fn handled_action(new: &ComboBox, old: &ComboBox, gap: usize, action: Action, r: (bool, Option<bool>)) -> bool {
        &&& new.same_frame(old)
        &&& action is Up ==> r == (true, None::<bool>) && ComboBox::moved_up(new, old, gap)
        &&& action is Down ==> r == (true, None::<bool>) && ComboBox::moved_down(new, old)
        &&& resets_focus(action) ==> r == textbox_reply(action) && focus_of(&new.selection) is None && new.scroll == 0
            && new.textbox == old.textbox
        &&& action is Confirm ==> r == (if old.confirm_stays() { (true, None) } else { (true, Some(true)) })
            && focus_of(&new.selection) == focus_of(&old.selection) && new.scroll == old.scroll
            && (!old.allow_unknown && focus_of(&old.selection) is None && old.valid().len() > 0 ==> new.textbox.text()
            == old.confirmed_text())
            && (!(!old.allow_unknown && focus_of(&old.selection) is None && old.valid().len() > 0) ==> new.textbox
            == old.textbox)
        &&& !(action is Up || action is Down || action is Confirm || resets_focus(action)) ==> r == textbox_reply(action)
            && focus_of(&new.selection) == focus_of(&old.selection) && new.scroll == old.scroll && new.textbox == old.textbox
    }

    /// Handles `action`: moves the focus on the variants, completes on
    /// confirmation, and hands the rest to the text field. Answers whether the
    /// action was used and whether the dialogue is done.
    pub fn handle_action(&mut self, context: &Context, action: Action) -> (r: (bool, Option<bool>))
        ensures
            ComboBox::handled_action(final(self), old(self), context.selection_gap, action, r),
    {
        match action {
            Action::Up => {
                self.move_up(context);
                return (true, None);
            },
            Action::Down => {
                self.move_down(context);
                return (true, None);
            },
            Action::Left | Action::Right | Action::Start | Action::End | Action::Remove | Action::Delete
            | Action::DeleteLine | Action::ExtendLeft | Action::ExtendRight | Action::MoveLeft | Action::MoveRight
            | Action::Copy | Action::Paste | Action::Cut => self.reset_selection(),
            Action::Confirm => {
                if self.handle_confirm() {
                    return (true, None);
                }
            },
            _ => {},
        }
        self.textbox.handle_action(action)
    }

    /// Focuses the text field and hands it the character.
    pub fn add_character(&mut self, character: char)
        ensures
            focus_of(&final(self).selection) is None,
            final(self).scroll == 0,
            final(self).textbox == old(self).textbox,
            final(self).same_frame(old(self)),
    {
        self.reset_selection();
        self.textbox.add_character(character);
    }
}

} // verus!
