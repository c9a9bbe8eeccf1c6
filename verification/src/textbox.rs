use vstd::prelude::*;

use crate::action::Action;
use crate::context::TextbufferContext;
use crate::filebuffer::Filebuffer;
use crate::selection::{Selection, SelectionMode};
use crate::textbuffer::steps::{motion_result, Motion};
use crate::textbuffer::Textbuffer;
use crate::textbuffer::editing::{edited, Edit};

verus! {

/// A one-line text field of a dialogue, edited like a text buffer; its text
/// always ends with a space that is not part of what was typed.
pub struct TextBox {
    pub description: String,
    pub textbuffer: Textbuffer,
    pub textbuffer_context: TextbufferContext,
    pub filebuffer: Filebuffer,
    pub selection: Selection,
    pub displacement: usize,
}

/// What a text field answers: `(true, None)` where its buffer used the
/// action, else whether it ends the dialogue (`Some(true)` confirmed,
/// `Some(false)` aborted).
pub open spec fn field_reply(action: Action, unhandled: bool) -> (bool, Option<bool>) {
    if !unhandled {
        (true, None)
    } else if action is Abort {
        (true, Some(false))
    } else if action is Confirm {
        (true, Some(true))
    } else {
        (false, None)
    }
}

impl TextBox {
    /// The field's buffer and window are usable and leave room for the next action.
    pub open spec fn wf(&self) -> bool {
        &&& self.textbuffer.wf(&self.filebuffer)
        &&& self.textbuffer_context.wf()
    }

    /// The text typed: the buffer's text without the closing space.
    pub open spec fn typed(&self) -> Seq<char> {
        if self.filebuffer.text().len() == 0 {
            self.filebuffer.text()
        } else {
            self.filebuffer.text().drop_last()
        }
    }

    /// An empty field.
    pub fn new(description: &str, displacement: usize) -> (r: Self)
        ensures
            r.wf(),
            r.description@ == description@,
            r.filebuffer.text() == seq![' '],
            r.textbuffer.sels() == seq![Selection { primary_index: 0, secondary_index: 0, offset: 0 }],
            r.textbuffer.selection_mode() == SelectionMode::Character,
            r.textbuffer.padding_char() == ' ',
            r.selection == (Selection { primary_index: 0, secondary_index: 0, offset: 0 }),
            r.displacement == displacement,
    {
        let mut space: Vec<char> = Vec::new();
        space.push(' ');
        let filebuffer = Filebuffer::new(space);
        proof {
            assert(filebuffer.text() =~= seq![' ']);
        }
        Self {
            description: description.to_owned(),
            textbuffer: Textbuffer::new(0, ' '),
            textbuffer_context: TextbufferContext::textbox(),
            filebuffer,
            selection: Selection::new(0, 0, 0),
            displacement,
        }
    }

    /// A field holding `text`, its selection after the end.
    pub fn from(description: &str, displacement: usize, text: Vec<char>) -> (r: Self)
        ensures
            0 < text@.len() <= usize::MAX / 8 ==> r.wf(),
            r.description@ == description@,
            r.filebuffer.text() == text@,
            r.selection == (Selection { primary_index: text@.len() as usize, secondary_index: text@.len() as usize, offset: 0 }),
            r.displacement == displacement,
    {
        let last_index = text.len();
        Self {
            description: description.to_owned(),
            textbuffer: Textbuffer::new(0, ' '),
            textbuffer_context: TextbufferContext::textbox(),
            filebuffer: Filebuffer::new(text),
            selection: Selection::new(last_index, last_index, 0),
            displacement,
        }
    }

    /// The text typed.
    pub fn get(&self) -> (r: Vec<char>)
        ensures
            r@ == self.typed(),
    {
        let mut padded_text = self.filebuffer.get_text();
        padded_text.pop();
        padded_text
    }

    /// Puts `text` in the field, recorded, and selects its end.
    pub fn set_text(&mut self, text: Vec<char>)
        requires
            old(self).wf(),
            text@.len() < usize::MAX / 8,
        ensures
            final(self).wf(),
            final(self).filebuffer.text() == text@.push(' '),
            final(self).typed() == text@,
            final(self).textbuffer.sels() == seq![motion_result(Motion::CharEnd, &final(self).filebuffer, false,
                Selection { primary_index: 0, secondary_index: 0, offset: 0 })],
            final(self).textbuffer.selection_mode() == SelectionMode::Character,
            final(self).description == old(self).description,
            final(self).displacement == old(self).displacement,
    {
        let padded = with_space(text);
        self.textbuffer.set_text(&mut self.filebuffer, padded);
        let ghost fb = self.filebuffer;
        self.textbuffer.select_last_character(&mut self.filebuffer);
        proof {
            assert(self.filebuffer.text().drop_last() =~= text@);
        }
    }

    /// Puts `text` in the field without recording it, and selects its end.
    pub fn set_text_without_save(&mut self, text: Vec<char>)
        requires
            old(self).wf(),
            text@.len() < usize::MAX / 8,
        ensures
            final(self).wf(),
            final(self).filebuffer.text() == text@.push(' '),
            final(self).typed() == text@,
            final(self).textbuffer.sels() == seq![motion_result(Motion::CharEnd, &final(self).filebuffer, false,
                Selection { primary_index: 0, secondary_index: 0, offset: 0 })],
            final(self).textbuffer.selection_mode() == SelectionMode::Character,
            final(self).description == old(self).description,
            final(self).displacement == old(self).displacement,
    {
        let padded = with_space(text);
        self.textbuffer.set_text_without_save(&mut self.filebuffer, padded);
        self.textbuffer.select_last_character(&mut self.filebuffer);
        proof {
            assert(self.filebuffer.text().drop_last() =~= text@);
        }
    }

    /// Empties the field, recorded.
    pub fn clear(&mut self)
        requires
            old(self).wf(),
        ensures
            final(self).wf(),
            final(self).filebuffer.text() == seq![' '],
            final(self).typed() == Seq::<char>::empty(),
            final(self).textbuffer.sels() == seq![Selection { primary_index: 0, secondary_index: 0, offset: 0 }],
            final(self).description == old(self).description,
            final(self).displacement == old(self).displacement,
    {
        let mut space: Vec<char> = Vec::new();
        space.push(' ');
        assert(space@ =~= seq![' ']);
        self.textbuffer.set_text(&mut self.filebuffer, space);
        proof {
            assert(self.filebuffer.text().drop_last() =~= Seq::<char>::empty());
        }
    }

    /// `new` is `old` with `character` typed at its selections, as the
    /// field's buffer types it.
    pub open spec fn typed_into(new: &TextBox, old: &TextBox, character: char) -> bool {
        &&& new.description == old.description
        &&& new.displacement == old.displacement
        &&& new.textbuffer_context == old.textbuffer_context
        &&& (new.textbuffer.sels(), new.filebuffer.text()) == edited(
            Edit::Type(character, old.textbuffer_context.preserve_lines),
            old.filebuffer.tokens(),
            old.textbuffer_context.start_at_symbol,
            old.textbuffer.padding_char(),
            (old.textbuffer.sels(), old.filebuffer.text()),
            0,
            old.textbuffer.sels().len() as int,
        )
    }

    /// Typing a character into a field with one lone cursor puts the
    /// character into the typed text where the cursor is, and moves the
    /// cursor on past it.
    pub proof fn law_typing_into_the_field(new: &TextBox, old: &TextBox, character: char)
        requires
            old.wf(),
            old.textbuffer.sels().len() == 1,
            old.textbuffer.sels()[0].primary_index == old.textbuffer.sels()[0].secondary_index,
            TextBox::typed_into(new, old, character),
        ensures
            ({
                let p = old.textbuffer.sels()[0].primary_index as int;
                &&& new.typed() == old.typed().take(p).push(character) + old.typed().skip(p)
                &&& new.textbuffer.sels().len() == 1
                &&& new.textbuffer.sels()[0].primary_index == p + 1
                &&& new.textbuffer.sels()[0].secondary_index == p + 1
            }),
    {
        let state = (old.textbuffer.sels(), old.filebuffer.text());
        let p = old.textbuffer.sels()[0].primary_index as int;
        let c = old.textbuffer_context;
        let t = old.filebuffer.text();
        assert(crate::textbuffer::selection_in(old.textbuffer.sels()[0], t.len() as int));
        crate::textbuffer::laws::law_type_at_cursor(state, 0, character, c.preserve_lines, old.filebuffer.tokens(),
            c.start_at_symbol, old.textbuffer.padding_char());
        reveal(crate::textbuffer::editing::edit_step);
        assert(edited(Edit::Type(character, c.preserve_lines), old.filebuffer.tokens(), c.start_at_symbol,
            old.textbuffer.padding_char(), state, 0, 0) == state);
        let t2 = new.filebuffer.text();
        assert(t2.take(p) == t.take(p));
        assert(t2.skip(p + 1) == t.skip(p));
        assert(new.typed() =~= old.typed().take(p).push(character) + old.typed().skip(p)) by {
            assert forall|k: int| 0 <= k < new.typed().len() implies new.typed()[k] == (old.typed().take(p).push(
                character,
            ) + old.typed().skip(p))[k] by {
                if k < p {
                    assert(t2.take(p)[k] == t.take(p)[k]);
                } else if k > p {
                    assert(t2.skip(p + 1)[k - p - 1] == t.skip(p)[k - p - 1]);
                }
            }
        }
    }

    /// Types `character` into the field.
    pub fn add_character(&mut self, character: char)
        requires
            old(self).wf(),
            old(self).filebuffer.text().len() + old(self).textbuffer.sels().len() <= usize::MAX / 8,
        ensures
            final(self).wf(),
            TextBox::typed_into(final(self), old(self), character),
    {
        self.textbuffer.add_character(&self.textbuffer_context, &mut self.filebuffer, character);
    }

    /// Hands `action` to the field's buffer, and answers as `field_reply` says.
    pub fn handle_action(&mut self, action: Action) -> (r: (bool, Option<bool>))
        requires
            old(self).wf(),
            old(self).textbuffer.has_room(&old(self).filebuffer),
            old(self).textbuffer.can_handle(&old(self).textbuffer_context, &old(self).filebuffer, action),
        ensures
            exists|answer: Option<Action>| #[trigger] Textbuffer::action_done(&final(self).textbuffer, &old(self).textbuffer,
                &old(self).textbuffer_context, &final(self).filebuffer, &old(self).filebuffer, action, answer) && r
                == field_reply(action, answer is Some),
            final(self).textbuffer_context == old(self).textbuffer_context,
            final(self).description == old(self).description,
            final(self).displacement == old(self).displacement,
            final(self).selection == old(self).selection,
    {
        let answer = self.textbuffer.handle_action(&self.textbuffer_context, &mut self.filebuffer, action);
        assert(Textbuffer::action_done(&self.textbuffer, &old(self).textbuffer, &old(self).textbuffer_context,
            &self.filebuffer, &old(self).filebuffer, action, answer));
        if answer.is_some() {
            match action {
                Action::Abort => (true, Some(false)),
                Action::Confirm => (true, Some(true)),
                _ => (false, None),
            }
        } else {
            (true, None)
        }
    }
}

/// `text` followed by a space.
fn with_space(text: Vec<char>) -> (r: Vec<char>)
    ensures
        r@ == text@.push(' '),
{
    let mut padded = text;
    padded.push(' ');
    padded
}

} // verus!
