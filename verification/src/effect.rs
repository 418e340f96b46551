//! What the workspace asks of its host.

use crate::scope::{DocumentId, RecoveryKey};
use vstd::prelude::*;

verus! {

/// A point on the host's monotonic clock, in milliseconds.
pub type Instant = u64;

/// Handle of a path the host has interned: equal paths have equal handles.
pub type PathId = u64;

/// Handle of a text the host has interned, such as an error's message.
pub type TextId = u64;

/// Handle of a place in a document: how far down the embedded browser is to be
/// scrolled.
pub type PlaceId = u64;

/// Capability to write one generation of a recovery record.
pub type TokenId = u64;

/// Handle of one recovery record's retirement.
pub type TicketId = u64;

/// Handle of a retirement that covers several recovery records at once.
pub type BatchId = u64;

/// Identity of one checkpoint attempt and of the flag that cancels it.
pub type AttemptId = u64;

/// When a checkpoint was taken, and by when it has to be durable.
#[derive(Clone, Copy, Debug, PartialEq, Eq, Structural)]
pub struct AttemptTiming {
    pub snapshot_at: Instant,
    pub durable_complete_by: Instant,
}

/// A step of a document's checkpoint schedule, which the host keeps.
#[derive(Clone, Copy, Debug, PartialEq, Eq, Structural)]
pub enum ScheduleStep {
    /// Start over with a schedule that has seen nothing.
    Reset,
    MarkDirty { now: Instant },
    MarkDurableBaseline { at: Instant },
    Written { timing: AttemptTiming },
    Superseded { timing: AttemptTiming },
    Cancelled { timing: AttemptTiming, now: Instant },
    Failed { timing: AttemptTiming, now: Instant },
    DeadlineMissed { timing: AttemptTiming, now: Instant },
}

/// Something that takes documents away from the user.
#[derive(Clone, Copy, Debug, PartialEq, Eq, Structural)]
pub enum DestructiveAction {
    CloseTab { document: DocumentId },
    CloseWindow,
    ReplaceWorkspace { path: PathId },
}

/// Why a checkpoint was not written.
#[derive(Clone, Copy, Debug, PartialEq, Eq, Structural)]
pub enum CheckpointError {
    /// The store refused it, for the reason in the text.
    Reported { text: TextId },
    /// The text is larger than the store admits.
    Oversized { bytes: u64, limit: u64 },
}

/// A line for the status bar.
#[allow(inconsistent_fields)]
#[derive(Clone, Copy, Debug, PartialEq, Eq, Structural)]
pub enum Notice {
    /// A message in the words of whoever raised it.
    Message { text: TextId },
    NotADirectory { path: PathId },
    CannotOpen { path: PathId },
    CannotLoad { path: PathId, error: TextId },
    FileChangedOnDisk,
    ClipboardTextUnavailable,
    WaitingForRecoveryStorage,
    RecoveryStorageUnavailable,
    WaitingForRecoveryCleanup,
    CouldNotClearCheckpoint { error: TextId },
    CouldNotClearCheckpointKeptOpen { error: TextId },
    CheckpointCleanupPending { error: TextId },
    CouldNotFinishCleanup { error: TextId },
    StartupRecovery { restored: u64, skipped: u64, error: Option<TextId> },
    CheckpointBatch { issues: u64, error: Option<CheckpointError> },
    SaveAsFailed { error: TextId },
    SaveAsSnapshotChanged,
    SaveAsPathAlreadyOpen { path: PathId },
    Copied { text: TextId },
    NoFolderIsOpen,
    OutsideTheOpenFolder,
    SelectSomeTextFirst,
    NoTranslationKey,
    TranslationUnavailable { error: TextId },
    Translating { provider: TextId },
    Translated { segments: u64, provider: TextId },
    TranslationOutdated,
    TranslationFailed { error: TextId },
}

/// One thing the host has to do. Effects are carried out in order, and what one
/// of them asks for in turn comes before the effects after it.
#[allow(inconsistent_fields)]
#[derive(Clone, Copy, Debug, PartialEq, Eq, Structural)]
pub enum Effect {
    /// Show a line in the status bar.
    Report { notice: Notice },
    /// Retire a recovery record that is kept for `document`.
    Invalidate { key: RecoveryKey, document: Option<DocumentId> },
    /// Complete a retirement, after one second if `delayed`.
    CompleteRetirement {
        key: RecoveryKey,
        ticket: TicketId,
        document: Option<DocumentId>,
        delayed: bool,
    },
    /// Come back to a retirement that could not begin, after one second.
    RetryRetirement { key: RecoveryKey },
    /// Raise the flag that stops a checkpoint attempt.
    CancelAttempt { attempt: AttemptId },
    /// Ask the store for the current token of `key` and mark the key active.
    ActivateToken { document: DocumentId, key: RecoveryKey },
    /// Move a document's checkpoint schedule.
    Schedule { document: DocumentId, step: ScheduleStep },
    /// Replace the wake-up for the earliest checkpoint deadline.
    RescheduleTimer,
    /// Look for documents whose checkpoint is due.
    CheckpointDue { now: Instant },
    /// Arm recovery again for every dirty document.
    RearmDirtyDocuments,
    /// Bring the embedded browser up to date.
    RefreshWeb,
    /// Scroll the embedded browser, once it is ready to.
    ScrollWeb { place: PlaceId },
    /// Watch the directories of the documents that are open now.
    SyncDocumentWatches,
    /// Remember a position for Back and Forward.
    RecordVisit { path: PathId, offset: u64 },
    /// Forget every remembered position in a path.
    ForgetVisits { path: PathId },
    /// Put a path at the head of the recently opened files.
    RecordRecentFile { path: PathId },
    /// Put a path at the head of the recently opened workspaces.
    RecordRecentWorkspace { path: PathId },
    /// Bring the tab that shows a path to the front.
    FocusTab { path: PathId },
    /// Drop a document's tab and move the selection off it.
    CloseTab { document: DocumentId },
    /// Give a document's tab the path that its text was saved under.
    RenameTab { document: DocumentId, path: PathId },
    /// Build the file tree, the harness panel and the watcher of a folder.
    OpenPanels { path: PathId },
    /// Search again: the results belong to what was open a moment ago.
    RerunSearch,
    /// Drop focus, let the focused input drain across two frames, and ask the
    /// platform again to close the window.
    DrainInput,
    /// Put the keyboard focus into the search field.
    FocusSearch,
    /// Move a document's cursor to an offset in its text.
    RevealOffset { document: DocumentId, offset: u64 },
    /// Stop showing the welcome surface at launch.
    DisableWelcome,
    /// Ask where to save a document.
    PromptSaveAs { document: DocumentId },
    /// Resolve the chosen theme again, and apply it.
    ApplyTheme,
    /// Rebuild what the open documents have cached in the colors of a theme.
    RepaintDocuments,
    /// Draw every view again, with the labels of the chosen language.
    RedrawViews,
    /// Look for skills and instructions again.
    RescanHarness,
}

/// The effect that shows one line.
pub(crate) fn report(notice: Notice) -> (effects: Vec<Effect>)
    ensures
        effects@ == seq![Effect::Report { notice }],
{
    let mut effects: Vec<Effect> = Vec::new();
    effects.push(Effect::Report { notice });
    assert(effects@ =~= seq![Effect::Report { notice }]);
    effects
}

} // verus!
