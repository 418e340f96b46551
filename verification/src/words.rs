//! Names of the interface's texts and icons. The host resolves them against the
//! chosen language and icon set when it draws.

use vstd::prelude::*;

verus! {

/// A text of the interface.
#[derive(Clone, Copy, Debug, PartialEq, Eq, Structural)]
pub enum Key {
    AutoRefresh,
    AutoRefreshOn,
    ChangedOnDisk,
    CopyPath,
    CopyRelativePath,
    Details,
    DetailsPanelWidth,
    DontShowWelcomeAgain,
    NewDocument,
    NoHeadings,
    OpenAMarkdownFile,
    OpenBundledSample,
    OpenDocumentForOutline,
    OpenFilePicker,
    OpenFolderPicker,
    OpenFolderToBegin,
    OpenFolderToDiscover,
    PanelFiles,
    PanelHarness,
    PanelOutline,
    PanelSearch,
    Paste,
    RecentMissing,
    RecentUnavailable,
    Saved,
    Settings,
    SidePanelWidth,
    ToggleLeftPanel,
    ToggleRightPanel,
    Translate,
    UnsavedChanges,
}

/// An icon of the interface.
#[derive(Clone, Copy, Debug, PartialEq, Eq, Structural)]
pub enum IconName {
    BookOpen,
    Bot,
    Close,
    Copy,
    Eye,
    EyeOff,
    File,
    Folder,
    FolderOpen,
    Globe,
    PanelLeft,
    PanelRight,
    Plus,
    Search,
    Settings,
    TriangleAlert,
}

} // verus!
