use vstd::prelude::*;

use crate::action::Action;
use crate::context::Context;
use crate::editor::combobox::{ComboBox, focus_of};

verus! {

/// A dialogue over the names of the loaded buffers.
pub struct LoadedBuffersDialogue {
    pub buffers_box: ComboBox,
}

impl LoadedBuffersDialogue {
    pub fn new() -> (r: Self)
        ensures
            r.buffers_box.textbox.description@ == "recently opened files"@,
            r.buffers_box.textbox.content@ == seq![' '],
            !r.buffers_box.allow_unknown,
            !r.buffers_box.path_mode,
            r.buffers_box.variants@.len() == 0,
            focus_of(&r.buffers_box.selection) is None,
    {
        Self { buffers_box: ComboBox::new("recently opened files", 0, false, false, Vec::new()) }
    }

    /// The action that opens the dialogue closes it; the rest goes to the
    /// combo box.
    pub fn handle_action(&mut self, context: &Context, action: Action) -> (r: (bool, Option<bool>))
        ensures
            action is LoadedBuffers ==> r == (true, Some(false)) && final(self).buffers_box == old(self).buffers_box,
            !(action is LoadedBuffers) ==> ComboBox::handled_action(&final(self).buffers_box, &old(self).buffers_box,
                context.selection_gap, action, r),
    {
        if let Action::LoadedBuffers = action {
            return (true, Some(false));
        }
        self.buffers_box.handle_action(context, action)
    }

    /// Offers `names`, the names of the loaded buffers.
    pub fn update_variants(&mut self, names: Vec<Vec<char>>)
        ensures
            final(self).buffers_box == (ComboBox { variants: names, ..old(self).buffers_box }),
    {
        self.buffers_box.variants = names;
    }

    pub fn clear(&mut self)
        ensures
            focus_of(&final(self).buffers_box.selection) is None,
            final(self).buffers_box.scroll == 0,
            final(self).buffers_box.textbox == old(self).buffers_box.textbox,
            final(self).buffers_box.variants == old(self).buffers_box.variants,
    {
        self.buffers_box.clear();
    }

    pub fn add_character(&mut self, character: char)
        ensures
            focus_of(&final(self).buffers_box.selection) is None,
            final(self).buffers_box.scroll == 0,
            final(self).buffers_box.textbox == old(self).buffers_box.textbox,
            final(self).buffers_box.variants == old(self).buffers_box.variants,
    {
        self.buffers_box.add_character(character);
    }
}

} // verus!
