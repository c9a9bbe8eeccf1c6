use vstd::prelude::*;

use crate::action::Action;
use crate::chars::{chars_of, copy_text};
use crate::combobox::{ComboBox, ComboItem};
use crate::context::Context;
use crate::selection::SelectionMode;
use crate::status::{DialogueMode, DialogueStatus};
use crate::textbox::TextBox;

verus! {

/// An action that the action dialogue offers, with the name it goes by.
#[derive(Clone)]
pub struct ActionItem {
    action: Action,
    name: Vec<char>,
}

impl ActionItem {
    pub closed spec fn action_of(&self) -> Action {
        self.action
    }

    pub closed spec fn label(&self) -> Seq<char> {
        self.name@
    }

    pub fn new(action: Action, name: &str) -> (r: Self)
        ensures
            r.action_of() == action,
            r.label() == name@,
    {
        Self { action, name: chars_of(name) }
    }
}

impl ComboItem for ActionItem {
    type Value = Action;

    open spec fn name(&self) -> Seq<char> {
        self.label()
    }

    fn display_name(&self) -> (r: Vec<char>)
        ensures
            r@ == self.label(),
    {
        copy_text(&self.name)
    }

    fn update_name(&self) -> (r: Vec<char>) {
        copy_text(&self.name)
    }

    open spec fn stands_for(&self, value: &Action) -> bool {
        *value == self.action_of()
    }

    fn return_value(&self) -> (r: Action) {
        self.action
    }
}

/// The actions that can be chosen by name, in the order offered. Confirming,
/// aborting, the action dialogue itself and hidden files are not among them.
pub open spec fn offered_actions() -> Seq<(Action, Seq<char>)> {
    seq![
        (Action::AddSelection, "add selection"@),
        (Action::Append, "append"@),
        (Action::CharacterMode, "character mode"@),
        (Action::CloseWindow, "close window"@),
        (Action::Copy, "copy"@),
        (Action::Cut, "cut"@),
        (Action::DecreaseAntialiasing, "decrease antialiasing"@),
        (Action::Delete, "delete"@),
        (Action::DeleteLine, "delete line"@),
        (Action::Down, "down"@),
        (Action::DuplicateDown, "duplicate down"@),
        (Action::DuplicateUp, "duplicate up"@),
        (Action::End, "end"@),
        (Action::ExtendDown, "extend down"@),
        (Action::ExtendEnd, "extend end"@),
        (Action::ExtendLeft, "extend left"@),
        (Action::ExtendPageDown, "extend page down"@),
        (Action::ExtendPageUp, "extend page up"@),
        (Action::ExtendRight, "extend right"@),
        (Action::ExtendStart, "extend start"@),
        (Action::ExtendUp, "extend up"@),
        (Action::Replace, "find replace"@),
        (Action::FocusNext, "focus next"@),
        (Action::IncreaseAntialiasing, "increase antialiasing"@),
        (Action::Insert, "insert"@),
        (Action::Left, "left"@),
        (Action::LineMode, "line mode"@),
        (Action::Filebuffers, "loaded buffers"@),
        (Action::MoveDown, "move down"@),
        (Action::MoveLeft, "move left"@),
        (Action::MoveRight, "move right"@),
        (Action::MoveUp, "move up"@),
        (Action::NewFile, "new file"@),
        (Action::NewlineDown, "newline down"@),
        (Action::NewlineUp, "newline up"@),
        (Action::NewWindow, "new window"@),
        (Action::Notes, "notes"@),
        (Action::Open, "open file"@),
        (Action::PageDown, "page down"@),
        (Action::PageUp, "page up"@),
        (Action::Paste, "paste"@),
        (Action::Quit, "quit"@),
        (Action::Reload, "reload"@),
        (Action::Remove, "remove"@),
        (Action::RemoveSection, "remove section"@),
        (Action::Right, "right"@),
        (Action::Rotate, "rotate"@),
        (Action::SaveFile, "save file"@),
        (Action::SelectNext, "select next"@),
        (Action::Language, "set language"@),
        (Action::Theme, "set theme"@),
        (Action::Start, "start"@),
        (Action::ToggleAppendLines, "toggle append lines"@),
        (Action::ToggleStatusBar, "toggle status bar"@),
        (Action::ToggleLineNumbers, "toggle line numbers"@),
        (Action::ToggleSelectionLines, "toggle selection lines"@),
        (Action::ToggleHighlighting, "toggle highlighting"@),
        (Action::TogglePreserveLines, "toggle preserve lines"@),
        (Action::ToggleStartAtSymbol, "toggle start at symbol"@),
        (Action::ToggleRelativeLineNumbers, "toggle relative line numbers"@),
        (Action::ToggleUnfocusedSelections, "toggle unfocused selections"@),
        (Action::Up, "up"@),
        (Action::WordMode, "word mode"@),
        (Action::ZoomIn, "zoom in"@),
        (Action::ZoomOut, "zoom out"@),
    ]
}

/// The names of the offered actions are short.
proof fn lemma_offered_names()
    ensures
        forall|i: int| 0 <= i < offered_actions().len() ==> (#[trigger] offered_actions()[i]).1.len() < 64,
{
    reveal_strlit("add selection");
    reveal_strlit("append");
    reveal_strlit("character mode");
    reveal_strlit("close window");
    reveal_strlit("copy");
    reveal_strlit("cut");
    reveal_strlit("decrease antialiasing");
    reveal_strlit("delete");
    reveal_strlit("delete line");
    reveal_strlit("down");
    reveal_strlit("duplicate down");
    reveal_strlit("duplicate up");
    reveal_strlit("end");
    reveal_strlit("extend down");
    reveal_strlit("extend end");
    reveal_strlit("extend left");
    reveal_strlit("extend page down");
    reveal_strlit("extend page up");
    reveal_strlit("extend right");
    reveal_strlit("extend start");
    reveal_strlit("extend up");
    reveal_strlit("find replace");
    reveal_strlit("focus next");
    reveal_strlit("increase antialiasing");
    reveal_strlit("insert");
    reveal_strlit("left");
    reveal_strlit("line mode");
    reveal_strlit("loaded buffers");
    reveal_strlit("move down");
    reveal_strlit("move left");
    reveal_strlit("move right");
    reveal_strlit("move up");
    reveal_strlit("new file");
    reveal_strlit("newline down");
    reveal_strlit("newline up");
    reveal_strlit("new window");
    reveal_strlit("notes");
    reveal_strlit("open file");
    reveal_strlit("page down");
    reveal_strlit("page up");
    reveal_strlit("paste");
    reveal_strlit("quit");
    reveal_strlit("reload");
    reveal_strlit("remove");
    reveal_strlit("remove section");
    reveal_strlit("right");
    reveal_strlit("rotate");
    reveal_strlit("save file");
    reveal_strlit("select next");
    reveal_strlit("set language");
    reveal_strlit("set theme");
    reveal_strlit("start");
    reveal_strlit("toggle append lines");
    reveal_strlit("toggle status bar");
    reveal_strlit("toggle line numbers");
    reveal_strlit("toggle selection lines");
    reveal_strlit("toggle highlighting");
    reveal_strlit("toggle preserve lines");
    reveal_strlit("toggle start at symbol");
    reveal_strlit("toggle relative line numbers");
    reveal_strlit("toggle unfocused selections");
    reveal_strlit("up");
    reveal_strlit("word mode");
    reveal_strlit("zoom in");
    reveal_strlit("zoom out");
}

/// A dialogue that runs an action chosen by its name.
pub struct ActionDialogue {
    combobox: ComboBox<ActionItem>,
}

impl ActionDialogue {
    pub closed spec fn combo(&self) -> ComboBox<ActionItem> {
        self.combobox
    }

    pub open spec fn wf(&self) -> bool {
        self.combo().wf()
    }

    /// The dialogue over `offered_actions`, with an empty field.
    pub fn new() -> (r: Self)
        ensures
            r.wf(),
            r.combo().entries().len() == offered_actions().len(),
            forall|i: int|
                0 <= i < offered_actions().len() ==> (#[trigger] r.combo().entries()[i]).action_of() == offered_actions()[i].0
                    && r.combo().entries()[i].label() == offered_actions()[i].1,
            r.combo().field().description@ == "action"@,
            r.combo().field().filebuffer.text() == seq![' '],
            !r.combo().unknown_allowed(),
            r.combo().focus() is None,
    {
        let items = vec![
            ActionItem::new(Action::AddSelection, "add selection"),
            ActionItem::new(Action::Append, "append"),
            ActionItem::new(Action::CharacterMode, "character mode"),
            ActionItem::new(Action::CloseWindow, "close window"),
            ActionItem::new(Action::Copy, "copy"),
            ActionItem::new(Action::Cut, "cut"),
            ActionItem::new(Action::DecreaseAntialiasing, "decrease antialiasing"),
            ActionItem::new(Action::Delete, "delete"),
            ActionItem::new(Action::DeleteLine, "delete line"),
            ActionItem::new(Action::Down, "down"),
            ActionItem::new(Action::DuplicateDown, "duplicate down"),
            ActionItem::new(Action::DuplicateUp, "duplicate up"),
            ActionItem::new(Action::End, "end"),
            ActionItem::new(Action::ExtendDown, "extend down"),
            ActionItem::new(Action::ExtendEnd, "extend end"),
            ActionItem::new(Action::ExtendLeft, "extend left"),
            ActionItem::new(Action::ExtendPageDown, "extend page down"),
            ActionItem::new(Action::ExtendPageUp, "extend page up"),
            ActionItem::new(Action::ExtendRight, "extend right"),
            ActionItem::new(Action::ExtendStart, "extend start"),
            ActionItem::new(Action::ExtendUp, "extend up"),
            ActionItem::new(Action::Replace, "find replace"),
            ActionItem::new(Action::FocusNext, "focus next"),
            ActionItem::new(Action::IncreaseAntialiasing, "increase antialiasing"),
            ActionItem::new(Action::Insert, "insert"),
            ActionItem::new(Action::Left, "left"),
            ActionItem::new(Action::LineMode, "line mode"),
            ActionItem::new(Action::Filebuffers, "loaded buffers"),
            ActionItem::new(Action::MoveDown, "move down"),
            ActionItem::new(Action::MoveLeft, "move left"),
            ActionItem::new(Action::MoveRight, "move right"),
            ActionItem::new(Action::MoveUp, "move up"),
            ActionItem::new(Action::NewFile, "new file"),
            ActionItem::new(Action::NewlineDown, "newline down"),
            ActionItem::new(Action::NewlineUp, "newline up"),
            ActionItem::new(Action::NewWindow, "new window"),
            ActionItem::new(Action::Notes, "notes"),
            ActionItem::new(Action::Open, "open file"),
            ActionItem::new(Action::PageDown, "page down"),
            ActionItem::new(Action::PageUp, "page up"),
            ActionItem::new(Action::Paste, "paste"),
            ActionItem::new(Action::Quit, "quit"),
            ActionItem::new(Action::Reload, "reload"),
            ActionItem::new(Action::Remove, "remove"),
            ActionItem::new(Action::RemoveSection, "remove section"),
            ActionItem::new(Action::Right, "right"),
            ActionItem::new(Action::Rotate, "rotate"),
            ActionItem::new(Action::SaveFile, "save file"),
            ActionItem::new(Action::SelectNext, "select next"),
            ActionItem::new(Action::Language, "set language"),
            ActionItem::new(Action::Theme, "set theme"),
            ActionItem::new(Action::Start, "start"),
            ActionItem::new(Action::ToggleAppendLines, "toggle append lines"),
            ActionItem::new(Action::ToggleStatusBar, "toggle status bar"),
            ActionItem::new(Action::ToggleLineNumbers, "toggle line numbers"),
            ActionItem::new(Action::ToggleSelectionLines, "toggle selection lines"),
            ActionItem::new(Action::ToggleHighlighting, "toggle highlighting"),
            ActionItem::new(Action::TogglePreserveLines, "toggle preserve lines"),
            ActionItem::new(Action::ToggleStartAtSymbol, "toggle start at symbol"),
            ActionItem::new(Action::ToggleRelativeLineNumbers, "toggle relative line numbers"),
            ActionItem::new(Action::ToggleUnfocusedSelections, "toggle unfocused selections"),
            ActionItem::new(Action::Up, "up"),
            ActionItem::new(Action::WordMode, "word mode"),
            ActionItem::new(Action::ZoomIn, "zoom in"),
            ActionItem::new(Action::ZoomOut, "zoom out"),
        ];
        proof {
            lemma_offered_names();
            assert forall|i: int| 0 <= i < items@.len() implies (#[trigger] items@[i]).name().len() < usize::MAX / 8 by {
                assert(items@[i].label() == offered_actions()[i].1);
            }
        }
        Self { combobox: ComboBox::new("action", 0, false, items) }
    }

    pub fn open(&self) -> (r: DialogueMode)
        ensures
            r is Action,
    {
        DialogueMode::Action
    }

    /// The action of the first item named as the field's text.
    pub fn get_value(&self) -> (r: Action)
        requires
            exists|i: int| 0 <= i < self.combo().entries().len() && (#[trigger] self.combo().entries()[i]).name()
                == self.combo().field().typed(),
        ensures
            exists|i: int|
                0 <= i < self.combo().entries().len() && (#[trigger] self.combo().entries()[i]).name() == self.combo().field().typed()
                    && (forall|k: int| 0 <= k < i ==> self.combo().entries()[k].name() != self.combo().field().typed())
                    && r == self.combo().entries()[i].action_of(),
    {
        self.combobox.get_value()
    }

    /// The action that opens the dialogue is used up; the rest goes to the
    /// combo box.
    pub fn handle_action(&mut self, context: &Context, action: Action) -> (r: DialogueStatus)
        requires
            old(self).wf(),
            context.selection_gap <= usize::MAX / 4,
            old(self).combo().field().textbuffer.has_room(&old(self).combo().field().filebuffer),
            old(self).combo().field().textbuffer.can_handle(&old(self).combo().field().textbuffer_context, &old(self).combo().field().filebuffer, action),
        ensures
            action is Action ==> r == (DialogueStatus { handled: true, closed: false, completed: false }) && final(self).combo()
                == old(self).combo(),
            !(action is Action) ==> ComboBox::handled_action(&final(self).combo(), &old(self).combo(), context.selection_gap,
                action, r),
            (!(action is Undo || action is Redo) || 0 < final(self).combo().field().filebuffer.text().len() <= usize::MAX / 8)
                && !(action is AddSelection && old(self).combo().field().textbuffer.adds_past_end(
                    old(self).combo().field().filebuffer.text()))
                ==> final(self).wf(),
    {
        match action {
            Action::Action => DialogueStatus::handled(),
            action => self.combobox.handle_action(context, action),
        }
    }

    pub fn add_character(&mut self, character: char)
        requires
            old(self).wf(),
            old(self).combo().field().filebuffer.text().len() + old(self).combo().field().textbuffer.sels().len() < usize::MAX / 8,
        ensures
            final(self).combo().focus() is None,
            final(self).combo().first_shown() == 0,
            final(self).combo().same_list(&old(self).combo()),
            final(self).combo().field().wf(),
            TextBox::typed_into(&final(self).combo().field(), &old(self).combo().field(), character),
    {
        self.combobox.add_character(character);
    }

    /// Takes the number of lines the list shows.
    pub fn update_layout(&mut self, context: &Context, line_count: usize)
        requires
            old(self).wf(),
            context.selection_gap <= usize::MAX / 4,
            line_count <= usize::MAX / 4,
        ensures
            final(self).wf(),
            final(self).combo().lines() == line_count,
            final(self).combo().field() == old(self).combo().field(),
            final(self).combo().entries() == old(self).combo().entries(),
    {
        self.combobox.update_layout(context, line_count);
    }
}

} // verus!
