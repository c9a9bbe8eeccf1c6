use vstd::prelude::*;

use crate::action::Action;
use crate::context::Context;
use crate::editor::combobox::texts;
use crate::filebox::{FileBox, named, entries_fit, entry_texts, initial_variants, items_for, listing_of};
use crate::textbox::TextBox;

verus! {

/// A dialogue that asks for the path of a file to open.
pub struct OpenFileDialogue {
    pub filebox: FileBox,
}

impl OpenFileDialogue {
    /// A path field over `entries`, the entries of the current directory
    /// (`None` where they could not be read).
    pub fn new(entries: Option<Vec<Vec<char>>>) -> (r: Self)
        requires
            entries matches Some(e) ==> named(texts(e@)) && entries_fit(texts(e@), 0),
        ensures
            r.filebox.wf(),
            items_for(r.filebox.combobox.entries(), initial_variants(entry_texts(entries)), seq![]),
            r.filebox.combobox.field().description@ == "file path"@,
            r.filebox.combobox.field().filebuffer.text() == seq![' '],
            !r.filebox.combobox.unknown_allowed(),
            r.filebox.combobox.focus() is None,
            r.filebox.displacement == 0,
            r.filebox.listing is None,
    {
        Self { filebox: FileBox::new("file path", 0, false, entries) }
    }

    /// The action that opens the dialogue closes it; the rest goes to the
    /// path field.
    pub fn handle_action(&mut self, context: &Context, action: Action) -> (r: (bool, Option<bool>))
        requires
            old(self).filebox.wf(),
            context.selection_gap <= usize::MAX / 4,
            old(self).filebox.combobox.field().textbuffer.has_room(&old(self).filebox.combobox.field().filebuffer),
            old(self).filebox.combobox.field().textbuffer.can_handle(&old(self).filebox.combobox.field().textbuffer_context, &old(self).filebox.combobox.field().filebuffer, action),
        ensures
            action is OpenFile ==> r == (true, Some(false)) && final(self).filebox == old(self).filebox,
            !(action is OpenFile) ==> FileBox::handled_action(&final(self).filebox, &old(self).filebox, context.selection_gap,
                action, r),
            (!(action is Undo || action is Redo) || 0 < final(self).filebox.combobox.field().filebuffer.text().len() <= usize::MAX
                / 8)
                && !(action is AddSelection && old(self).filebox.combobox.field().textbuffer.adds_past_end(
                    old(self).filebox.combobox.field().filebuffer.text()))
                ==> final(self).filebox.wf(),
    {
        if let Action::OpenFile = action {
            return (true, Some(false));
        }
        self.filebox.handle_action(context, action)
    }

    /// The path typed.
    pub fn get(&self) -> (r: Vec<char>)
        ensures
            r@ == self.filebox.combobox.field().typed(),
    {
        self.filebox.get()
    }

    /// Types a character into the path field.
    pub fn add_character(&mut self, character: char)
        requires
            old(self).filebox.wf(),
            old(self).filebox.combobox.field().filebuffer.text().len() + old(self).filebox.combobox.field().textbuffer.sels().len()
                < usize::MAX / 8,
        ensures
            exists|mid: FileBox| #[trigger] FileBox::checked(&final(self).filebox, &mid) && mid.combobox.focus() is None
                && TextBox::typed_into(&mid.combobox.field(), &old(self).filebox.combobox.field(), character)
                && mid.combobox.entries() == old(self).filebox.combobox.entries() && mid.directories
                == old(self).filebox.directories && listing_of(&mid) == listing_of(&old(self).filebox),
    {
        self.filebox.add_character(character);
    }
}

} // verus!
