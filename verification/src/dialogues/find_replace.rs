use vstd::prelude::*;

use crate::action::Action;
use crate::textbox::TextBox;

verus! {

/// A dialogue with a field for the text to find and one for its replacement.
pub struct FindReplaceDialogue {
    pub find_textbox: TextBox,
    pub replace_textbox: TextBox,
    pub find_focused: bool,
}

impl FindReplaceDialogue {
    pub open spec fn wf(&self) -> bool {
        self.find_textbox.wf() && self.replace_textbox.wf()
    }

    /// Both fields empty, the find field focused.
    pub fn new() -> (r: Self)
        ensures
            r.wf(),
            r.find_textbox.description@ == "find"@,
            r.find_textbox.filebuffer.text() == seq![' '],
            r.find_textbox.displacement == 0,
            r.replace_textbox.description@ == "replace"@,
            r.replace_textbox.filebuffer.text() == seq![' '],
            r.replace_textbox.displacement == 1,
            r.find_focused,
    {
        Self { find_textbox: TextBox::new("find", 0), replace_textbox: TextBox::new("replace", 1), find_focused: true }
    }

    /// The action that opens the dialogue closes it; focusing the next field
    /// switches fields, up focuses the find field and down the replace
    /// field. Every other action is used up and changes nothing.
    pub fn handle_action(&mut self, action: Action) -> (r: (bool, Option<bool>))
        ensures
            final(self).find_textbox == old(self).find_textbox,
            final(self).replace_textbox == old(self).replace_textbox,
            r == if action is FindReplace { (true, Some(false)) } else { (true, None) },
            final(self).find_focused == if action is FocusNext {
                !old(self).find_focused
            } else if action is Up {
                true
            } else if action is Down {
                false
            } else {
                old(self).find_focused
            },
    {
        match action {
            Action::FindReplace => (true, Some(false)),
            Action::FocusNext => {
                self.find_focused = !self.find_focused;
                (true, None)
            },
            Action::Up => {
                self.find_focused = true;
                (true, None)
            },
            Action::Down => {
                self.find_focused = false;
                (true, None)
            },
            _ => (true, None),
        }
    }

    /// Types `character` into the focused field.
    pub fn add_character(&mut self, character: char)
        requires
            old(self).wf(),
            old(self).find_focused ==> old(self).find_textbox.filebuffer.text().len()
                + old(self).find_textbox.textbuffer.sels().len() <= usize::MAX / 8,
            !old(self).find_focused ==> old(self).replace_textbox.filebuffer.text().len()
                + old(self).replace_textbox.textbuffer.sels().len() <= usize::MAX / 8,
        ensures
            final(self).wf(),
            final(self).find_focused == old(self).find_focused,
            old(self).find_focused ==> final(self).replace_textbox == old(self).replace_textbox
                && TextBox::typed_into(&final(self).find_textbox, &old(self).find_textbox, character),
            !old(self).find_focused ==> final(self).find_textbox == old(self).find_textbox
                && TextBox::typed_into(&final(self).replace_textbox, &old(self).replace_textbox, character),
    {
        if self.find_focused {
            self.find_textbox.add_character(character);
        } else {
            self.replace_textbox.add_character(character);
        }
    }

    /// Empties both fields and focuses the find field.
    pub fn reset(&mut self)
        requires
            old(self).wf(),
        ensures
            final(self).wf(),
            final(self).find_textbox.typed() == Seq::<char>::empty(),
            final(self).replace_textbox.typed() == Seq::<char>::empty(),
            final(self).find_focused,
    {
        self.find_textbox.clear();
        self.replace_textbox.clear();
        self.find_focused = true;
    }
}

} // verus!
