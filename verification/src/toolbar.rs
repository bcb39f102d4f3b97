//! The user-facing actions and what the library knows about each.
use vstd::prelude::*;

verus! {

#[derive(Debug, Clone, Copy, PartialEq, Eq)]
pub enum ToolbarAction {
    OpenFile,
    Export,
    Play,
    Pause,
    Stop,
    ZoomIn,
    ZoomOut,
    ZoomToFit,
    GapDelete,
    RippleDelete,
    Crop,
    Cut,
    Copy,
    Paste,
    Duplicate,
    Undo,
    Redo,
    PlaySelection,
    ToggleLoop,
    ToggleFollow,
    Reverse,
    Normalize,
    ToggleFade,
    RemoveDC,
    SelectAll,
    SetInPoint,
    SetOutPoint,
    GoToInPoint,
    GoToOutPoint,
    GoToStart,
    GoToEnd,
    NudgeLeft,
    NudgeRight,
    VolumeUp,
    VolumeDown,
    Quit,
    FadeInLinear,
    FadeInExponential,
    FadeInLogarithmic,
    FadeInSCurve,
    FadeOutLinear,
    FadeOutExponential,
    FadeOutLogarithmic,
    FadeOutSCurve,
    VerticalZoomIn,
    VerticalZoomOut,
    VerticalZoomReset,
    ChangeSpeed,
}

impl ToolbarAction {
    /// Whether the action works on the whole file when nothing is selected.
    pub fn falls_back_to_full_file(&self) -> (r: bool)
        ensures
            r == (*self is Reverse || *self is Normalize || *self is RemoveDC),
    {
        match self {
            ToolbarAction::Reverse | ToolbarAction::Normalize | ToolbarAction::RemoveDC => true,
            _ => false,
        }
    }
}

/// The text under which the action is reported once done; `None` for actions that are
/// not reported.
pub open spec fn label_text(action: ToolbarAction) -> Option<Seq<char>> {
    match action {
        ToolbarAction::GapDelete => Some("Gap Delete"@),
        ToolbarAction::RippleDelete => Some("Ripple Delete"@),
        ToolbarAction::Crop => Some("Crop"@),
        ToolbarAction::Cut => Some("Cut"@),
        ToolbarAction::Copy => Some("Copy"@),
        ToolbarAction::Paste => Some("Paste"@),
        ToolbarAction::Duplicate => Some("Duplicate"@),
        ToolbarAction::Undo => Some("Undo"@),
        ToolbarAction::Redo => Some("Redo"@),
        ToolbarAction::Reverse => Some("Reverse"@),
        ToolbarAction::Normalize => Some("Normalize"@),
        ToolbarAction::RemoveDC => Some("Remove DC"@),
        ToolbarAction::SelectAll => Some("Select All"@),
        ToolbarAction::Export => Some("Exported"@),
        ToolbarAction::SetInPoint => Some("Set In Point"@),
        ToolbarAction::SetOutPoint => Some("Set Out Point"@),
        ToolbarAction::GoToInPoint => Some("Go to In"@),
        ToolbarAction::GoToOutPoint => Some("Go to Out"@),
        ToolbarAction::GoToStart => Some("Go to Start"@),
        ToolbarAction::GoToEnd => Some("Go to End"@),
        _ => None,
    }
}

/// The text under which the action is reported once done.
pub fn action_label(action: &ToolbarAction) -> (r: Option<&'static str>)
    ensures
        r is None <==> label_text(*action) is None,
        r matches Some(s) ==> label_text(*action) == Some(s@),
{
    match action {
        ToolbarAction::GapDelete => Some("Gap Delete"),
        ToolbarAction::RippleDelete => Some("Ripple Delete"),
        ToolbarAction::Crop => Some("Crop"),
        ToolbarAction::Cut => Some("Cut"),
        ToolbarAction::Copy => Some("Copy"),
        ToolbarAction::Paste => Some("Paste"),
        ToolbarAction::Duplicate => Some("Duplicate"),
        ToolbarAction::Undo => Some("Undo"),
        ToolbarAction::Redo => Some("Redo"),
        ToolbarAction::Reverse => Some("Reverse"),
        ToolbarAction::Normalize => Some("Normalize"),
        ToolbarAction::RemoveDC => Some("Remove DC"),
        ToolbarAction::SelectAll => Some("Select All"),
        ToolbarAction::Export => Some("Exported"),
        ToolbarAction::SetInPoint => Some("Set In Point"),
        ToolbarAction::SetOutPoint => Some("Set Out Point"),
        ToolbarAction::GoToInPoint => Some("Go to In"),
        ToolbarAction::GoToOutPoint => Some("Go to Out"),
        ToolbarAction::GoToStart => Some("Go to Start"),
        ToolbarAction::GoToEnd => Some("Go to End"),
        _ => None,
    }
}

} // verus!
