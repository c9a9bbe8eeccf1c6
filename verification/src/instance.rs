use vstd::prelude::*;

use crate::action::Action;
use crate::context::{Context, zoomed_in, zoomed_out};

verus! {

/// What the instance does about an action that one of its windows hands on.
#[derive(Clone, Copy, Debug, PartialEq, Eq, Structural)]
pub enum InstanceCommand {
    /// Close the window and drop it.
    CloseWindow,
    /// Open a new editor window.
    NewEditor,
    /// The settings changed: every window is drawn again.
    Rerender,
    /// Nothing to do.
    Ignore,
}

/// The actions the instance has no handling for yet, on which it stops.
pub open spec fn unimplemented_action(action: Action) -> bool {
    ||| action is ToggleAppendLines
    ||| action is ToggleStatusBar
    ||| action is ToggleLineNumbers
    ||| action is ToggleSelectionLines
    ||| action is ToggleHighlighting
    ||| action is ToggleUnfocusedSelections
    ||| action is ToggleFocusBar
    ||| action is Quit
}

/// Whether the instance stops on `action`.
pub fn is_unimplemented_action(action: Action) -> (r: bool)
    ensures
        r == unimplemented_action(action),
{
    match action {
        Action::ToggleAppendLines | Action::ToggleStatusBar | Action::ToggleLineNumbers | Action::ToggleSelectionLines
        | Action::ToggleHighlighting | Action::ToggleUnfocusedSelections | Action::ToggleFocusBar | Action::Quit => true,
        _ => false,
    }
}

/// Decides what the instance does about `action`: closing a window, opening
/// an editor, or zooming (which draws every window again); anything else is
/// left alone.
pub fn window_action(context: &mut Context, action: Action) -> (r: InstanceCommand)
    requires
        !unimplemented_action(action),
    ensures
        r == match action {
            Action::CloseWindow => InstanceCommand::CloseWindow,
            Action::NewEditor => InstanceCommand::NewEditor,
            Action::ZoomIn | Action::ZoomOut => InstanceCommand::Rerender,
            _ => InstanceCommand::Ignore,
        },
        final(context).agrees(
            &match action {
                Action::ZoomIn => Context { font_size: zoomed_in(old(context).font_size), ..*old(context) },
                Action::ZoomOut => Context { font_size: zoomed_out(old(context).font_size), ..*old(context) },
                _ => *old(context),
            },
        ),
{
    match action {
        Action::CloseWindow => InstanceCommand::CloseWindow,
        Action::NewEditor => InstanceCommand::NewEditor,
        Action::ZoomIn => {
            context.zoom_in();
            InstanceCommand::Rerender
        },
        Action::ZoomOut => {
            context.zoom_out();
            InstanceCommand::Rerender
        },
        _ => InstanceCommand::Ignore,
    }
}

} // verus!
