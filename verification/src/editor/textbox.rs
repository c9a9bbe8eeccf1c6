use vstd::prelude::*;

use super::selection::Selection;
use crate::action::Action;
use crate::chars::copy_text;

verus! {

/// A one-line text field of a dialogue. Its content always ends with a space
/// that is not part of the text.
pub struct TextBox {
    pub description: String,
    pub content: Vec<char>,
    pub selection: Selection,
    pub displacement: usize,
}

/// What a text field answers to an action: whether it used it, and whether
/// the dialogue is done (`Some(true)` confirmed, `Some(false)` aborted).
pub open spec fn textbox_reply(action: Action) -> (bool, Option<bool>) {
    match action {
        Action::Abort => (true, Some(false)),
        Action::Confirm => (true, Some(true)),
        Action::Left | Action::Right | Action::Remove | Action::Delete | Action::DeleteLine => (true, None),
        _ => (false, None),
    }
}

impl TextBox {
    /// The text of the field: its content without the closing space.
    pub open spec fn text(&self) -> Seq<char> {
        if self.content@.len() == 0 {
            self.content@
        } else {
            self.content@.drop_last()
        }
    }

    /// An empty field.
    pub fn new(description: &str, displacement: usize) -> (r: Self)
        ensures
            r.description@ == description@,
            r.content@ == seq![' '],
            r.selection == (Selection { index: 0, length: 0, offset: 0, reversed: false }),
            r.displacement == displacement,
    {
        let mut content: Vec<char> = Vec::new();
        content.push(' ');
        assert(content@ =~= seq![' ']);
        Self { description: description.to_owned(), content, selection: Selection::new(0, 0, 0), displacement }
    }

    /// A field holding `content`, selected after its end.
    pub fn from(description: &str, displacement: usize, content: Vec<char>) -> (r: Self)
        ensures
            r.description@ == description@,
            r.content@ == content@.push(' '),
            r.selection == (Selection { index: content@.len() as usize, length: content@.len() as usize, offset: 0, reversed: false }),
            r.displacement == displacement,
    {
        let length = content.len();
        let mut padded = content;
        padded.push(' ');
        Self { description: description.to_owned(), content: padded, selection: Selection::new(length, length, 0), displacement }
    }

    /// The text of the field.
    pub fn get(&self) -> (r: Vec<char>)
        ensures
            r@ == self.text(),
    {
        let mut cut_content = copy_text(&self.content);
        cut_content.pop();
        cut_content
    }

    /// Sets the text of the field, and the selection back to the start.
    pub fn set(&mut self, content: Vec<char>)
        ensures
            final(self).content@ == content@.push(' '),
            final(self).text() == content@,
            final(self).selection == (Selection { index: 0, length: 0, offset: 0, reversed: false }),
            final(self).description == old(self).description,
            final(self).displacement == old(self).displacement,
    {
        self.selection = Selection::new(0, 0, 0);
        let mut padded = content;
        padded.push(' ');
        self.content = padded;
    }

    /// Leaves the field as it is.
    pub fn clear(&mut self)
        ensures
            *final(self) == *old(self),
    {
    }

    /// Leaves the field as it is.
    pub fn add_character(&mut self, _character: char)
        ensures
            *final(self) == *old(self),
    {
    }

    /// Answers an action; the field itself stays as it is.
    pub fn handle_action(&mut self, action: Action) -> (r: (bool, Option<bool>))
        ensures
            r == textbox_reply(action),
            *final(self) == *old(self),
    {
        match action {
            Action::Abort => (true, Some(false)),
            Action::Confirm => (true, Some(true)),
            Action::Left | Action::Right | Action::Remove | Action::Delete | Action::DeleteLine => (true, None),
            _ => (false, None),
        }
    }
}

} // verus!
