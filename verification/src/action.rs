use vstd::prelude::*;

verus! {

/// What a key binding asks the editor to do.
#[derive(Clone, Copy, Debug, PartialEq, Eq, Hash, Structural)]
pub enum Action {
    Quit,
    ToggleAppendLines,
    ToggleStatusBar,
    ToggleLineNumbers,
    ToggleSelectionLines,
    ToggleHighlighting,
    TogglePreserveLines,
    ToggleUnfocusedSelections,
    ToggleFocusBar,
    CharacterMode,
    TokenMode,
    WordMode,
    LineMode,
    OpenFile,
    SaveFile,
    SetLanguage,
    FindReplace,
    Down,
    Up,
    Left,
    Right,
    Start,
    End,
    ExtendStart,
    ExtendEnd,
    AddSelection,
    SelectNext,
    FocusNext,
    Action,
    Abort,
    Confirm,
    Remove,
    Delete,
    DeleteLine,
    ZoomIn,
    ZoomOut,
    NewEditor,
    CloseWindow,
    PageUp,
    PageDown,
    ExtendPageUp,
    ExtendPageDown,
    DuplicateUp,
    DuplicateDown,
    Insert,
    Append,
    NewlineUp,
    NewlineDown,
    ExtendLeft,
    ExtendRight,
    ExtendUp,
    ExtendDown,
    MoveLeft,
    MoveRight,
    MoveUp,
    MoveDown,
    Copy,
    Paste,
    Cut,
    Rotate,
    Undo,
    Redo,
    RemoveSection,
    ToggleHiddenFiles,
    IncreaseAntialiasing,
    DecreaseAntialiasing,
    ToggleStartAtSymbol,
    ToggleRelativeLineNumbers,
    NewFile,
    NewWindow,
    Reload,
    Open,
    Filebuffers,
    LoadedBuffers,
    Notes,
    Language,
    Theme,
    Replace,
}

/// The literal each action is named by in a configuration.
pub open spec fn literal_action(literal: Seq<char>) -> Option<Action> {
    if literal == "quit"@ {
        Some(Action::Quit)
    } else if literal == "append_lines"@ {
        Some(Action::ToggleAppendLines)
    } else if literal == "status_bar"@ {
        Some(Action::ToggleStatusBar)
    } else if literal == "line_numbers"@ {
        Some(Action::ToggleLineNumbers)
    } else if literal == "selection_lines"@ {
        Some(Action::ToggleSelectionLines)
    } else if literal == "highlighting"@ {
        Some(Action::ToggleHighlighting)
    } else if literal == "unfocused_selections"@ {
        Some(Action::ToggleUnfocusedSelections)
    } else if literal == "focus_bar"@ {
        Some(Action::ToggleFocusBar)
    } else if literal == "character_mode"@ {
        Some(Action::CharacterMode)
    } else if literal == "token_mode"@ {
        Some(Action::TokenMode)
    } else if literal == "line_mode"@ {
        Some(Action::LineMode)
    } else if literal == "open_file"@ {
        Some(Action::OpenFile)
    } else if literal == "save_file"@ {
        Some(Action::SaveFile)
    } else if literal == "set_language"@ {
        Some(Action::SetLanguage)
    } else if literal == "find_replace"@ {
        Some(Action::FindReplace)
    } else if literal == "start"@ {
        Some(Action::Start)
    } else if literal == "end"@ {
        Some(Action::End)
    } else if literal == "extend_start"@ {
        Some(Action::ExtendStart)
    } else if literal == "extend_end"@ {
        Some(Action::ExtendEnd)
    } else if literal == "add_selection"@ {
        Some(Action::AddSelection)
    } else if literal == "select_next"@ {
        Some(Action::SelectNext)
    } else if literal == "focus_next"@ {
        Some(Action::FocusNext)
    } else if literal == "action"@ {
        Some(Action::Action)
    } else if literal == "abort"@ {
        Some(Action::Abort)
    } else if literal == "confirm"@ {
        Some(Action::Confirm)
    } else if literal == "remove"@ {
        Some(Action::Remove)
    } else if literal == "delete"@ {
        Some(Action::Delete)
    } else if literal == "delete_line"@ {
        Some(Action::DeleteLine)
    } else if literal == "zoom_in"@ {
        Some(Action::ZoomIn)
    } else if literal == "zoom_out"@ {
        Some(Action::ZoomOut)
    } else if literal == "new_editor"@ {
        Some(Action::NewEditor)
    } else if literal == "close_window"@ {
        Some(Action::CloseWindow)
    } else if literal == "page_up"@ {
        Some(Action::PageUp)
    } else if literal == "page_down"@ {
        Some(Action::PageDown)
    } else if literal == "extend_page_up"@ {
        Some(Action::ExtendPageUp)
    } else if literal == "extend_page_down"@ {
        Some(Action::ExtendPageDown)
    } else if literal == "duplicate_up"@ {
        Some(Action::DuplicateUp)
    } else if literal == "duplicate_down"@ {
        Some(Action::DuplicateDown)
    } else if literal == "insert"@ {
        Some(Action::Insert)
    } else if literal == "append"@ {
        Some(Action::Append)
    } else if literal == "newline_up"@ {
        Some(Action::NewlineUp)
    } else if literal == "newline_down"@ {
        Some(Action::NewlineDown)
    } else if literal == "left"@ {
        Some(Action::Left)
    } else if literal == "right"@ {
        Some(Action::Right)
    } else if literal == "up"@ {
        Some(Action::Up)
    } else if literal == "down"@ {
        Some(Action::Down)
    } else if literal == "extend_left"@ {
        Some(Action::ExtendLeft)
    } else if literal == "extend_right"@ {
        Some(Action::ExtendRight)
    } else if literal == "extend_up"@ {
        Some(Action::ExtendUp)
    } else if literal == "extend_down"@ {
        Some(Action::ExtendDown)
    } else if literal == "move_left"@ {
        Some(Action::MoveLeft)
    } else if literal == "move_right"@ {
        Some(Action::MoveRight)
    } else if literal == "move_up"@ {
        Some(Action::MoveUp)
    } else if literal == "move_down"@ {
        Some(Action::MoveDown)
    } else if literal == "copy"@ {
        Some(Action::Copy)
    } else if literal == "paste"@ {
        Some(Action::Paste)
    } else if literal == "cut"@ {
        Some(Action::Cut)
    } else if literal == "rotate"@ {
        Some(Action::Rotate)
    } else {
        None
    }
}

/// An action named by a literal that names none.
#[derive(Debug)]
pub struct InvalidAction {
    pub literal: String,
}

/// Whether `literal` is `word`.
fn is_word(literal: &String, word: &str) -> (r: bool)
    ensures
        r == (literal@ == word@),
{
    let owned = word.to_owned();
    *literal == owned
}

impl Action {
    /// The action a configuration names by `literal`, or the literal back as
    /// an error where it names none.
    pub fn from_literal(literal: &String) -> (r: Result<Action, InvalidAction>)
        ensures
            match r {
                Ok(action) => literal_action(literal@) == Some(action),
                Err(e) => literal_action(literal@) is None && e.literal@ == literal@,
            },
    {
        if is_word(literal, "quit") {
            return Ok(Action::Quit);
        }
        if is_word(literal, "append_lines") {
            return Ok(Action::ToggleAppendLines);
        }
        if is_word(literal, "status_bar") {
            return Ok(Action::ToggleStatusBar);
        }
        if is_word(literal, "line_numbers") {
            return Ok(Action::ToggleLineNumbers);
        }
        if is_word(literal, "selection_lines") {
            return Ok(Action::ToggleSelectionLines);
        }
        if is_word(literal, "highlighting") {
            return Ok(Action::ToggleHighlighting);
        }
        if is_word(literal, "unfocused_selections") {
            return Ok(Action::ToggleUnfocusedSelections);
        }
        if is_word(literal, "focus_bar") {
            return Ok(Action::ToggleFocusBar);
        }
        if is_word(literal, "character_mode") {
            return Ok(Action::CharacterMode);
        }
        if is_word(literal, "token_mode") {
            return Ok(Action::TokenMode);
        }
        if is_word(literal, "line_mode") {
            return Ok(Action::LineMode);
        }
        if is_word(literal, "open_file") {
            return Ok(Action::OpenFile);
        }
        if is_word(literal, "save_file") {
            return Ok(Action::SaveFile);
        }
        if is_word(literal, "set_language") {
            return Ok(Action::SetLanguage);
        }
        if is_word(literal, "find_replace") {
            return Ok(Action::FindReplace);
        }
        if is_word(literal, "start") {
            return Ok(Action::Start);
        }
        if is_word(literal, "end") {
            return Ok(Action::End);
        }
        if is_word(literal, "extend_start") {
            return Ok(Action::ExtendStart);
        }
        if is_word(literal, "extend_end") {
            return Ok(Action::ExtendEnd);
        }
        if is_word(literal, "add_selection") {
            return Ok(Action::AddSelection);
        }
        if is_word(literal, "select_next") {
            return Ok(Action::SelectNext);
        }
        if is_word(literal, "focus_next") {
            return Ok(Action::FocusNext);
        }
        if is_word(literal, "action") {
            return Ok(Action::Action);
        }
        if is_word(literal, "abort") {
            return Ok(Action::Abort);
        }
        if is_word(literal, "confirm") {
            return Ok(Action::Confirm);
        }
        if is_word(literal, "remove") {
            return Ok(Action::Remove);
        }
        if is_word(literal, "delete") {
            return Ok(Action::Delete);
        }
        if is_word(literal, "delete_line") {
            return Ok(Action::DeleteLine);
        }
        if is_word(literal, "zoom_in") {
            return Ok(Action::ZoomIn);
        }
        if is_word(literal, "zoom_out") {
            return Ok(Action::ZoomOut);
        }
        if is_word(literal, "new_editor") {
            return Ok(Action::NewEditor);
        }
        if is_word(literal, "close_window") {
            return Ok(Action::CloseWindow);
        }
        if is_word(literal, "page_up") {
            return Ok(Action::PageUp);
        }
        if is_word(literal, "page_down") {
            return Ok(Action::PageDown);
        }
        if is_word(literal, "extend_page_up") {
            return Ok(Action::ExtendPageUp);
        }
        if is_word(literal, "extend_page_down") {
            return Ok(Action::ExtendPageDown);
        }
        if is_word(literal, "duplicate_up") {
            return Ok(Action::DuplicateUp);
        }
        if is_word(literal, "duplicate_down") {
            return Ok(Action::DuplicateDown);
        }
        if is_word(literal, "insert") {
            return Ok(Action::Insert);
        }
        if is_word(literal, "append") {
            return Ok(Action::Append);
        }
        if is_word(literal, "newline_up") {
            return Ok(Action::NewlineUp);
        }
        if is_word(literal, "newline_down") {
            return Ok(Action::NewlineDown);
        }
        if is_word(literal, "left") {
            return Ok(Action::Left);
        }
        if is_word(literal, "right") {
            return Ok(Action::Right);
        }
        if is_word(literal, "up") {
            return Ok(Action::Up);
        }
        if is_word(literal, "down") {
            return Ok(Action::Down);
        }
        if is_word(literal, "extend_left") {
            return Ok(Action::ExtendLeft);
        }
        if is_word(literal, "extend_right") {
            return Ok(Action::ExtendRight);
        }
        if is_word(literal, "extend_up") {
            return Ok(Action::ExtendUp);
        }
        if is_word(literal, "extend_down") {
            return Ok(Action::ExtendDown);
        }
        if is_word(literal, "move_left") {
            return Ok(Action::MoveLeft);
        }
        if is_word(literal, "move_right") {
            return Ok(Action::MoveRight);
        }
        if is_word(literal, "move_up") {
            return Ok(Action::MoveUp);
        }
        if is_word(literal, "move_down") {
            return Ok(Action::MoveDown);
        }
        if is_word(literal, "copy") {
            return Ok(Action::Copy);
        }
        if is_word(literal, "paste") {
            return Ok(Action::Paste);
        }
        if is_word(literal, "cut") {
            return Ok(Action::Cut);
        }
        if is_word(literal, "rotate") {
            return Ok(Action::Rotate);
        }
        Err(InvalidAction { literal: literal.clone() })
    }
}

} // verus!
