use vstd::prelude::*;

use crate::action::Action;
use crate::chars::chars_of;
use crate::context::Context;
use crate::editor::combobox::{ComboBox, focus_of};

verus! {

/// The languages the language dialogue offers.
pub open spec fn known_languages() -> Seq<Seq<char>> {
    seq!["cipher"@, "c++"@, "default"@, "doofenshmirtz"@, "entleman"@, "none"@, "rust"@, "seashell"@]
}

/// A dialogue that chooses a language by its name.
pub struct SetLanguageDialogue {
    pub language_box: ComboBox,
}

impl SetLanguageDialogue {
    pub fn new() -> (r: Self)
        ensures
            r.language_box.textbox.description@ == "language name"@,
            r.language_box.textbox.content@ == seq![' '],
            !r.language_box.allow_unknown,
            !r.language_box.path_mode,
            r.language_box.variants@.len() == known_languages().len(),
            forall|i: int| 0 <= i < known_languages().len() ==> (#[trigger] r.language_box.variants@[i])@ == known_languages()[i],
            focus_of(&r.language_box.selection) is None,
    {
        let variants = vec![
            chars_of("cipher"),
            chars_of("c++"),
            chars_of("default"),
            chars_of("doofenshmirtz"),
            chars_of("entleman"),
            chars_of("none"),
            chars_of("rust"),
            chars_of("seashell"),
        ];
        Self { language_box: ComboBox::new("language name", 0, false, false, variants) }
    }

    /// The action that opens the dialogue closes it; the rest goes to the
    /// combo box.
    pub fn handle_action(&mut self, context: &Context, action: Action) -> (r: (bool, Option<bool>))
        ensures
            action is SetLanguage ==> r == (true, Some(false)) && final(self).language_box == old(self).language_box,
            !(action is SetLanguage) ==> ComboBox::handled_action(&final(self).language_box, &old(self).language_box,
                context.selection_gap, action, r),
    {
        if let Action::SetLanguage = action {
            return (true, Some(false));
        }
        self.language_box.handle_action(context, action)
    }

    pub fn clear(&mut self)
        ensures
            focus_of(&final(self).language_box.selection) is None,
            final(self).language_box.scroll == 0,
            final(self).language_box.textbox == old(self).language_box.textbox,
            final(self).language_box.variants == old(self).language_box.variants,
    {
        self.language_box.clear();
    }

    pub fn add_character(&mut self, character: char)
        ensures
            focus_of(&final(self).language_box.selection) is None,
            final(self).language_box.scroll == 0,
            final(self).language_box.textbox == old(self).language_box.textbox,
            final(self).language_box.variants == old(self).language_box.variants,
    {
        self.language_box.add_character(character);
    }
}

} // verus!
