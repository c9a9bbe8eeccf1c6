use vstd::prelude::*;

use crate::action::Action;
use crate::chars::{copy_text, same_text};
use crate::combobox::{ComboBox, ComboItem};
use crate::context::Context;
use crate::selection::SelectionMode;
use crate::status::{DialogueMode, DialogueStatus};
use crate::textbox::TextBox;

verus! {

/// A language definition: the language's name, the file it is read from, and
/// whether it is the one recommended for the file being edited.
#[derive(Clone)]
pub struct LanguageItem {
    name: Vec<char>,
    file_name: Vec<char>,
    recommended: bool,
}

impl LanguageItem {
    pub closed spec fn language(&self) -> Seq<char> {
        self.name@
    }

    pub closed spec fn file(&self) -> Seq<char> {
        self.file_name@
    }

    pub closed spec fn is_recommended(&self) -> bool {
        self.recommended
    }

    /// The language `name` read from `file_name` (the file's name with its
    /// `.data` taken out, as the caller found it), recommended when it is
    /// `recommendation`.
    pub fn new(file_name: Vec<char>, name: Vec<char>, recommendation: &Vec<char>) -> (r: Self)
        ensures
            r.language() == name@,
            r.file() == file_name@,
            r.is_recommended() == (name@ == recommendation@),
    {
        let recommended = same_text(&name, recommendation);
        Self { name, file_name, recommended }
    }

    /// Whether the item is shown as the recommended one.
    pub fn recommended(&self) -> (r: bool)
        ensures
            r == self.is_recommended(),
    {
        self.recommended
    }
}

impl ComboItem for LanguageItem {
    type Value = Vec<char>;

    open spec fn name(&self) -> Seq<char> {
        self.language()
    }

    fn display_name(&self) -> (r: Vec<char>)
        ensures
            r@ == self.language(),
    {
        copy_text(&self.name)
    }

    fn update_name(&self) -> (r: Vec<char>) {
        copy_text(&self.name)
    }

    open spec fn stands_for(&self, value: &Vec<char>) -> bool {
        value@ == self.file()
    }

    fn return_value(&self) -> (r: Vec<char>) {
        copy_text(&self.file_name)
    }
}

/// The items fit the arithmetic of a combo box.
pub open spec fn items_fit(items: Seq<LanguageItem>) -> bool {
    &&& items.len() < usize::MAX / 4
    &&& forall|i: int| 0 <= i < items.len() ==> (#[trigger] items[i]).name().len() < usize::MAX / 8
}

/// A dialogue that chooses the language a buffer is read in.
pub struct LanguageDialogue {
    combobox: ComboBox<LanguageItem>,
}

impl LanguageDialogue {
    pub closed spec fn combo(&self) -> ComboBox<LanguageItem> {
        self.combobox
    }

    pub open spec fn wf(&self) -> bool {
        self.combo().wf()
    }

    pub fn new() -> (r: Self)
        ensures
            r.wf(),
            r.combo().entries().len() == 0,
            r.combo().field().description@ == "language name"@,
            r.combo().field().filebuffer.text() == seq![' '],
            !r.combo().unknown_allowed(),
            r.combo().focus() is None,
    {
        Self { combobox: ComboBox::new("language name", 0, false, Vec::new()) }
    }

    /// Offers `items` (the languages found, `None` where the languages could
    /// not be listed) with an empty field.
    pub fn open(&mut self, items: Option<Vec<LanguageItem>>) -> (r: DialogueMode)
        requires
            old(self).wf(),
            items matches Some(v) ==> items_fit(v@),
        ensures
            r is Language,
            final(self).wf(),
            final(self).combo().entries() == match items {
                Some(v) => v@,
                None => old(self).combo().entries(),
            },
            final(self).combo().field().typed() == Seq::<char>::empty(),
            final(self).combo().focus() is None,
    {
        self.update_items(items);
        self.clear();
        DialogueMode::Language
    }

    /// Takes `items` as the items; where there are none to take, empties the
    /// field instead.
    fn update_items(&mut self, items: Option<Vec<LanguageItem>>)
        requires
            old(self).wf(),
            items matches Some(v) ==> items_fit(v@),
        ensures
            final(self).wf(),
            final(self).combo().entries() == match items {
                Some(v) => v@,
                None => old(self).combo().entries(),
            },
    {
        match items {
            Some(items) => self.combobox.set_items(items),
            None => self.combobox.clear(),
        }
    }

    /// The action that opens the dialogue is used up; the rest goes to the
    /// combo box.
    pub fn handle_action(&mut self, context: &Context, action: Action) -> (r: DialogueStatus)
        requires
            old(self).wf(),
            context.selection_gap <= usize::MAX / 4,
            old(self).combo().field().textbuffer.has_room(&old(self).combo().field().filebuffer),
            old(self).combo().field().textbuffer.can_handle(&old(self).combo().field().textbuffer_context, &old(self).combo().field().filebuffer, action),
        ensures
            action is Language ==> r == (DialogueStatus { handled: true, closed: false, completed: false }) && final(self).combo()
                == old(self).combo(),
            !(action is Language) ==> ComboBox::handled_action(&final(self).combo(), &old(self).combo(), context.selection_gap,
                action, r),
            (!(action is Undo || action is Redo) || 0 < final(self).combo().field().filebuffer.text().len() <= usize::MAX / 8)
                && !(action is AddSelection && old(self).combo().field().textbuffer.adds_past_end(
                    old(self).combo().field().filebuffer.text()))
                ==> final(self).wf(),
    {
        match action {
            Action::Language => DialogueStatus::handled(),
            action => self.combobox.handle_action(context, action),
        }
    }

    pub fn get_text(&self) -> (r: Vec<char>)
        ensures
            r@ == self.combo().field().typed(),
    {
        self.combobox.get_text()
    }

    pub fn clear(&mut self)
        requires
            old(self).wf(),
        ensures
            final(self).wf(),
            final(self).combo().field().typed() == Seq::<char>::empty(),
            final(self).combo().focus() is None,
            final(self).combo().first_shown() == 0,
            final(self).combo().same_list(&old(self).combo()),
    {
        self.combobox.clear();
    }

    pub fn add_character(&mut self, character: char)
        requires
            old(self).wf(),
            old(self).combo().field().filebuffer.text().len() + old(self).combo().field().textbuffer.sels().len() < usize::MAX / 8,
        ensures
            final(self).combo().focus() is None,
            final(self).combo().first_shown() == 0,
            final(self).combo().same_list(&old(self).combo()),
            final(self).combo().field().wf(),
            TextBox::typed_into(&final(self).combo().field(), &old(self).combo().field(), character),
    {
        self.combobox.add_character(character);
    }

    /// Takes the number of lines the list shows.
    pub fn update_layout(&mut self, context: &Context, line_count: usize)
        requires
            old(self).wf(),
            context.selection_gap <= usize::MAX / 4,
            line_count <= usize::MAX / 4,
        ensures
            final(self).wf(),
            final(self).combo().lines() == line_count,
            final(self).combo().field() == old(self).combo().field(),
            final(self).combo().entries() == old(self).combo().entries(),
    {
        self.combobox.update_layout(context, line_count);
    }
}

} // verus!
