//! The panels on either side of the document.

use crate::text::{chars_of, same_text};
use crate::words::{IconName, Key};
use vstd::prelude::*;

verus! {

/// Which left-panel section is showing.
#[derive(Clone, Copy, Debug, PartialEq, Eq, Structural)]
pub enum SidePanel {
    Files,
    Search,
    Harness,
    Outline,
}

impl SidePanel {
    /// Every section, in the order of the navigation.
    pub fn all() -> (panels: [SidePanel; 4])
        ensures
            panels@ == seq![
                SidePanel::Files,
                SidePanel::Search,
                SidePanel::Harness,
                SidePanel::Outline,
            ],
    {
        let panels = [SidePanel::Files, SidePanel::Search, SidePanel::Harness, SidePanel::Outline];
        assert(panels@ =~= seq![
            SidePanel::Files,
            SidePanel::Search,
            SidePanel::Harness,
            SidePanel::Outline,
        ]);
        panels
    }

    /// The name of this section.
    pub fn label(self) -> (key: Key)
        ensures
            key == (match self {
                SidePanel::Files => Key::PanelFiles,
                SidePanel::Search => Key::PanelSearch,
                SidePanel::Harness => Key::PanelHarness,
                SidePanel::Outline => Key::PanelOutline,
            }),
    {
        match self {
            SidePanel::Files => Key::PanelFiles,
            SidePanel::Search => Key::PanelSearch,
            SidePanel::Harness => Key::PanelHarness,
            SidePanel::Outline => Key::PanelOutline,
        }
    }

    /// The stable identity of this section's navigation button.
    pub fn id(self) -> (id: &'static str)
        ensures
            id@ == (match self {
                SidePanel::Files => "side-panel-files"@,
                SidePanel::Search => "side-panel-search"@,
                SidePanel::Harness => "side-panel-harness"@,
                SidePanel::Outline => "side-panel-outline"@,
            }),
    {
        match self {
            SidePanel::Files => "side-panel-files",
            SidePanel::Search => "side-panel-search",
            SidePanel::Harness => "side-panel-harness",
            SidePanel::Outline => "side-panel-outline",
        }
    }

    /// The icon of this section.
    pub fn icon(self) -> (icon: IconName)
        ensures
            icon == (match self {
                SidePanel::Files => IconName::Folder,
                SidePanel::Search => IconName::Search,
                SidePanel::Harness => IconName::Bot,
                SidePanel::Outline => IconName::BookOpen,
            }),
    {
        match self {
            SidePanel::Files => IconName::Folder,
            SidePanel::Search => IconName::Search,
            SidePanel::Harness => IconName::Bot,
            SidePanel::Outline => IconName::BookOpen,
        }
    }
}

/// What the left panel shows below its navigation.
#[derive(Clone, Copy, Debug, PartialEq, Eq, Structural)]
pub enum SidePanelContent {
    Explorer,
    Search,
    Harness,
    Outline,
    /// A hint in place of a tool that needs an open folder.
    Hint { key: Key },
}

/// What the left panel shows. Search and the outline need no folder: hiding
/// them without one would hide what works the moment a document is open.
pub fn side_panel_content(panel: SidePanel, folder_open: bool) -> (content: SidePanelContent)
    ensures
        content == (match panel {
            SidePanel::Files => if folder_open {
                SidePanelContent::Explorer
            } else {
                SidePanelContent::Hint { key: Key::OpenFolderToBegin }
            },
            SidePanel::Search => SidePanelContent::Search,
            SidePanel::Harness => if folder_open {
                SidePanelContent::Harness
            } else {
                SidePanelContent::Hint { key: Key::OpenFolderToDiscover }
            },
            SidePanel::Outline => SidePanelContent::Outline,
        }),
{
    match panel {
        SidePanel::Files => if folder_open {
            SidePanelContent::Explorer
        } else {
            SidePanelContent::Hint { key: Key::OpenFolderToBegin }
        },
        SidePanel::Search => SidePanelContent::Search,
        SidePanel::Harness => if folder_open {
            SidePanelContent::Harness
        } else {
            SidePanelContent::Hint { key: Key::OpenFolderToDiscover }
        },
        SidePanel::Outline => SidePanelContent::Outline,
    }
}

/// The hint in place of an outline, if there is no outline to show.
pub fn outline_hint(document_open: bool, outline_is_empty: bool) -> (hint: Option<Key>)
    ensures
        hint == (if !document_open {
            Some(Key::OpenDocumentForOutline)
        } else if outline_is_empty {
            Some(Key::NoHeadings)
        } else {
            None
        }),
{
    if !document_open {
        Some(Key::OpenDocumentForOutline)
    } else if outline_is_empty {
        Some(Key::NoHeadings)
    } else {
        None
    }
}

/// How far a heading of this depth is indented.
pub fn outline_indent(depth: u8) -> (indent: u8)
    ensures
        indent == (if depth == 0 {
            0
        } else {
            depth - 1
        }),
{
    if depth == 0 {
        0
    } else {
        depth - 1
    }
}

/// What the details panel describes.
#[derive(Clone, Copy, Debug, PartialEq, Eq, Structural)]
pub enum DetailsContent {
    Empty,
    Document,
    Harness,
}

/// What the details panel describes: the selected Harness artifact while that
/// section shows, else the open document.
pub fn details_content(
    side_panel: SidePanel,
    settings_open: bool,
    document_open: bool,
    harness_selected: bool,
) -> (content: DetailsContent)
    ensures
        content == (if settings_open {
            DetailsContent::Empty
        } else if side_panel == SidePanel::Harness && harness_selected {
            DetailsContent::Harness
        } else if document_open {
            DetailsContent::Document
        } else {
            DetailsContent::Empty
        }),
{
    if settings_open {
        DetailsContent::Empty
    } else if side_panel == SidePanel::Harness && harness_selected {
        DetailsContent::Harness
    } else if document_open {
        DetailsContent::Document
    } else {
        DetailsContent::Empty
    }
}

/// A document's state in the details panel. A change on disk outranks unsaved
/// edits: it is what the user does not know yet.
pub fn document_details_status_key(is_externally_changed: bool, is_dirty: bool) -> (key: Key)
    ensures
        key == (if is_externally_changed {
            Key::ChangedOnDisk
        } else if is_dirty {
            Key::UnsavedChanges
        } else {
            Key::Saved
        }),
{
    if is_externally_changed {
        Key::ChangedOnDisk
    } else if is_dirty {
        Key::UnsavedChanges
    } else {
        Key::Saved
    }
}

/// The divider between the document and one of the panels.
#[derive(Clone, Copy, Debug, PartialEq, Eq, Structural)]
pub enum WorkspaceResizeEdge {
    Left,
    Right,
}

/// Which way a key moves a panel's width.
#[derive(Clone, Copy, Debug, PartialEq, Eq, Structural)]
pub enum ResizeStep {
    Narrower,
    Wider,
}

/// What a divider is called and how it is announced.
#[derive(Clone, Copy, Debug, PartialEq, Eq, Structural)]
pub enum ResizeRole {
    /// A writable range with a horizontal orientation.
    Slider,
    /// A vertical splitter.
    Splitter,
}

impl WorkspaceResizeEdge {
    /// The stable identity of the divider.
    pub fn handle_id(self) -> (id: &'static str)
        ensures
            id@ == (match self {
                WorkspaceResizeEdge::Left => "left-panel-resize-handle"@,
                WorkspaceResizeEdge::Right => "right-panel-resize-handle"@,
            }),
    {
        match self {
            WorkspaceResizeEdge::Left => "left-panel-resize-handle",
            WorkspaceResizeEdge::Right => "right-panel-resize-handle",
        }
    }

    /// The hover group of the divider.
    pub fn group_id(self) -> (id: &'static str)
        ensures
            id@ == (match self {
                WorkspaceResizeEdge::Left => "left-panel-resize-group"@,
                WorkspaceResizeEdge::Right => "right-panel-resize-group"@,
            }),
    {
        match self {
            WorkspaceResizeEdge::Left => "left-panel-resize-group",
            WorkspaceResizeEdge::Right => "right-panel-resize-group",
        }
    }

    /// The name of the width that the divider sets.
    pub fn label(self) -> (key: Key)
        ensures
            key == (match self {
                WorkspaceResizeEdge::Left => Key::SidePanelWidth,
                WorkspaceResizeEdge::Right => Key::DetailsPanelWidth,
            }),
    {
        match self {
            WorkspaceResizeEdge::Left => Key::SidePanelWidth,
            WorkspaceResizeEdge::Right => Key::DetailsPanelWidth,
        }
    }

    /// Whether the panel on the other side of the document is showing.
    pub fn opposite_visible(self, left_visible: bool, right_visible: bool) -> (visible: bool)
        ensures
            visible == (match self {
                WorkspaceResizeEdge::Left => right_visible,
                WorkspaceResizeEdge::Right => left_visible,
            }),
    {
        match self {
            WorkspaceResizeEdge::Left => right_visible,
            WorkspaceResizeEdge::Right => left_visible,
        }
    }

    /// Which way an arrow key moves the width: the divider follows the arrow,
    /// so the same arrow widens one panel and narrows the other.
    pub fn key_step(self, key: &str) -> (step: Option<ResizeStep>)
        ensures
            step == moved_by(self, key@),
    {
        let chars = chars_of(key);
        if same_text(&chars, &chars_of("left")) {
            Some(
                match self {
                    WorkspaceResizeEdge::Left => ResizeStep::Narrower,
                    WorkspaceResizeEdge::Right => ResizeStep::Wider,
                },
            )
        } else if same_text(&chars, &chars_of("right")) {
            Some(
                match self {
                    WorkspaceResizeEdge::Left => ResizeStep::Wider,
                    WorkspaceResizeEdge::Right => ResizeStep::Narrower,
                },
            )
        } else {
            None
        }
    }
}

/// How a divider is announced. On Windows a splitter's value is read-only to
/// assistive technology, so the same control is announced as a slider there.
pub fn resize_role(on_windows: bool) -> (role: ResizeRole)
    ensures
        role == (if on_windows {
            ResizeRole::Slider
        } else {
            ResizeRole::Splitter
        }),
{
    if on_windows {
        ResizeRole::Slider
    } else {
        ResizeRole::Splitter
    }
}

/// Whether a drag of the divider `dragged` belongs to the gesture that was
/// begun at `grabbed`.
pub fn drag_is_grabbed(grabbed: Option<WorkspaceResizeEdge>, dragged: WorkspaceResizeEdge) -> (
same: bool)
    ensures
        same == (grabbed == Some(dragged)),
{
    match grabbed {
        Some(edge) => edge == dragged,
        None => false,
    }
}

/// The same arrow moves both dividers the same way: it widens one panel exactly
/// if it narrows the other.
pub proof fn law_arrows_move_the_divider(key: Seq<char>)
    ensures
        key == "left"@ || key == "right"@ ==> moved_by(WorkspaceResizeEdge::Left, key)
            != moved_by(WorkspaceResizeEdge::Right, key),
        moved_by(WorkspaceResizeEdge::Left, key) is None <==> moved_by(
            WorkspaceResizeEdge::Right,
            key,
        ) is None,
{
}

/// The divider follows the arrow: to the left it narrows the left panel and
/// widens the right one, and to the right it does the opposite. No other key
/// moves it.
pub proof fn law_a_divider_follows_the_arrow(key: Seq<char>)
    ensures
        key == "left"@ ==> moved_by(WorkspaceResizeEdge::Left, key) == Some(ResizeStep::Narrower)
            && moved_by(WorkspaceResizeEdge::Right, key) == Some(ResizeStep::Wider),
        key == "right"@ ==> moved_by(WorkspaceResizeEdge::Left, key) == Some(ResizeStep::Wider)
            && moved_by(WorkspaceResizeEdge::Right, key) == Some(ResizeStep::Narrower),
        key != "left"@ && key != "right"@ ==> moved_by(WorkspaceResizeEdge::Left, key) is None
            && moved_by(WorkspaceResizeEdge::Right, key) is None,
{
    reveal_strlit("left");
    reveal_strlit("right");
    assert("left"@.len() != "right"@.len());
}

/// Which way `key` moves the width of the panel at `edge`.
pub open spec fn moved_by(edge: WorkspaceResizeEdge, key: Seq<char>) -> Option<ResizeStep> {
    if key == "left"@ {
        Some(
            match edge {
                WorkspaceResizeEdge::Left => ResizeStep::Narrower,
                WorkspaceResizeEdge::Right => ResizeStep::Wider,
            },
        )
    } else if key == "right"@ {
        Some(
            match edge {
                WorkspaceResizeEdge::Left => ResizeStep::Wider,
                WorkspaceResizeEdge::Right => ResizeStep::Narrower,
            },
        )
    } else {
        None
    }
}

} // verus!
