use vstd::prelude::*;

use crate::action::Action;
use crate::chars::copy_text;
use crate::combobox::{ComboBox, ComboItem};
use crate::context::Context;
use crate::selection::SelectionMode;
use crate::status::{DialogueMode, DialogueStatus};
use crate::textbox::TextBox;

verus! {

/// A loaded buffer, by its file name.
#[derive(Clone)]
pub struct BufferItem {
    file_name: Vec<char>,
}

impl BufferItem {
    pub closed spec fn file(&self) -> Seq<char> {
        self.file_name@
    }

    pub fn new(file_name: Vec<char>) -> (r: Self)
        ensures
            r.file() == file_name@,
    {
        Self { file_name }
    }
}

impl ComboItem for BufferItem {
    type Value = Vec<char>;

    open spec fn name(&self) -> Seq<char> {
        self.file()
    }

    fn display_name(&self) -> (r: Vec<char>)
        ensures
            r@ == self.file(),
    {
        copy_text(&self.file_name)
    }

    fn update_name(&self) -> (r: Vec<char>) {
        copy_text(&self.file_name)
    }

    open spec fn stands_for(&self, value: &Vec<char>) -> bool {
        value@ == self.file()
    }

    fn return_value(&self) -> (r: Vec<char>) {
        copy_text(&self.file_name)
    }
}

/// The names fit the arithmetic of a combo box.
pub open spec fn names_fit(names: Seq<Vec<char>>) -> bool {
    &&& names.len() < usize::MAX / 4
    &&& forall|i: int| 0 <= i < names.len() ==> (#[trigger] names[i])@.len() < usize::MAX / 8
}

/// A dialogue over the loaded buffers.
pub struct FilebuffersDialogue {
    combobox: ComboBox<BufferItem>,
}

impl FilebuffersDialogue {
    pub closed spec fn combo(&self) -> ComboBox<BufferItem> {
        self.combobox
    }

    pub open spec fn wf(&self) -> bool {
        self.combo().wf()
    }

    pub fn new() -> (r: Self)
        ensures
            r.wf(),
            r.combo().entries().len() == 0,
            r.combo().field().description@ == "recently opened files"@,
            r.combo().field().filebuffer.text() == seq![' '],
            !r.combo().unknown_allowed(),
            r.combo().focus() is None,
    {
        Self { combobox: ComboBox::new("recently opened files", 0, false, Vec::new()) }
    }

    /// Offers the buffers named `names` (those loaded) with an empty field.
    pub fn open(&mut self, names: Vec<Vec<char>>) -> (r: DialogueMode)
        requires
            old(self).wf(),
            names_fit(names@),
        ensures
            r is Filebuffers,
            final(self).wf(),
            final(self).combo().entries().len() == names@.len(),
            forall|i: int| 0 <= i < names@.len() ==> (#[trigger] final(self).combo().entries()[i]).file() == names@[i]@,
            final(self).combo().field().typed() == Seq::<char>::empty(),
            final(self).combo().focus() is None,
    {
        self.update_items(names);
        self.clear();
        DialogueMode::Filebuffers
    }

    fn update_items(&mut self, names: Vec<Vec<char>>)
        requires
            old(self).wf(),
            names_fit(names@),
        ensures
            final(self).wf(),
            final(self).combo().entries().len() == names@.len(),
            forall|i: int| 0 <= i < names@.len() ==> (#[trigger] final(self).combo().entries()[i]).file() == names@[i]@,
            final(self).combo().field() == old(self).combo().field(),
            final(self).combo().focus() == old(self).combo().focus(),
    {
        let mut items: Vec<BufferItem> = Vec::new();
        let mut k: usize = 0;
        while k < names.len()
            invariant
                k <= names@.len(),
                items@.len() == k,
                forall|i: int| 0 <= i < k ==> (#[trigger] items@[i]).file() == names@[i]@,
            decreases names.len() - k,
        {
            items.push(BufferItem::new(copy_text(&names[k])));
            k = k + 1;
        }
        self.combobox.set_items(items);
    }

    /// The action that opens the dialogue is used up. Deleting with an item
    /// focused removes that item, and answers the name of the buffer to drop
    /// (the field's text). The rest goes to the combo box.
    pub fn handle_action(&mut self, context: &Context, action: Action) -> (r: (DialogueStatus, Option<Vec<char>>))
        requires
            old(self).wf(),
            context.selection_gap <= usize::MAX / 4,
            old(self).combo().field().textbuffer.has_room(&old(self).combo().field().filebuffer),
            old(self).combo().field().textbuffer.can_handle(&old(self).combo().field().textbuffer_context, &old(self).combo().field().filebuffer, action),
        ensures
            action is Filebuffers ==> r.0 == (DialogueStatus { handled: true, closed: false, completed: false }) && r.1 is None
                && final(self).combo() == old(self).combo(),
            action is Delete && old(self).combo().focus() is Some ==> r.0 == (DialogueStatus {
                handled: true,
                closed: false,
                completed: false,
            }) && (r.1 matches Some(name) && name@ == old(self).combo().field().typed()) && final(self).wf()
                && final(self).combo().entries() == match old(self).combo().focus() {
                Some(f) => if f.0 < old(self).combo().entries().len() {
                    old(self).combo().entries().remove(f.0 as int)
                } else {
                    old(self).combo().entries()
                },
                None => old(self).combo().entries(),
            },
            !(action is Filebuffers) && !(action is Delete && old(self).combo().focus() is Some) ==> r.1 is None
                && ComboBox::handled_action(&final(self).combo(), &old(self).combo(), context.selection_gap, action, r.0),
            (!(action is Undo || action is Redo) || 0 < final(self).combo().field().filebuffer.text().len() <= usize::MAX / 8)
                && !(action is AddSelection && old(self).combo().field().textbuffer.adds_past_end(
                    old(self).combo().field().filebuffer.text()))
                ==> final(self).wf(),
    {
        if let Action::Filebuffers = action {
            return (DialogueStatus::handled(), None);
        }
        if let Action::Delete = action {
            if !self.combobox.is_textbox_focused() {
                let buffer_name = self.combobox.get_text();
                self.combobox.remove_selected_item(context);
                return (DialogueStatus::handled(), Some(buffer_name));
            }
        }
        (self.combobox.handle_action(context, action), None)
    }

    pub fn get_text(&self) -> (r: Vec<char>)
        ensures
            r@ == self.combo().field().typed(),
    {
        self.combobox.get_text()
    }

    pub fn clear(&mut self)
        requires
            old(self).wf(),
        ensures
            final(self).wf(),
            final(self).combo().field().typed() == Seq::<char>::empty(),
            final(self).combo().focus() is None,
            final(self).combo().first_shown() == 0,
            final(self).combo().same_list(&old(self).combo()),
    {
        self.combobox.clear();
    }

    pub fn add_character(&mut self, character: char)
        requires
            old(self).wf(),
            old(self).combo().field().filebuffer.text().len() + old(self).combo().field().textbuffer.sels().len() < usize::MAX / 8,
        ensures
            final(self).combo().focus() is None,
            final(self).combo().first_shown() == 0,
            final(self).combo().same_list(&old(self).combo()),
            final(self).combo().field().wf(),
            TextBox::typed_into(&final(self).combo().field(), &old(self).combo().field(), character),
    {
        self.combobox.add_character(character);
    }

    /// Takes the number of lines the list shows.
    pub fn update_layout(&mut self, context: &Context, line_count: usize)
        requires
            old(self).wf(),
            context.selection_gap <= usize::MAX / 4,
            line_count <= usize::MAX / 4,
        ensures
            final(self).wf(),
            final(self).combo().lines() == line_count,
            final(self).combo().field() == old(self).combo().field(),
            final(self).combo().entries() == old(self).combo().entries(),
    {
        self.combobox.update_layout(context, line_count);
    }
}

} // verus!
