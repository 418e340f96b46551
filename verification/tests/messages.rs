use markturbo::effect::{CheckpointError, Notice};
use markturbo::messages::{
    checkpoint_batch_status, notice_text, save_changes_question, startup_recovery_status,
    RECOVERY_WARNING,
};

#[test]
fn startup_recovery_status_keeps_single_signal_messages_and_combines_mixed_outcomes() {
    assert_eq!(startup_recovery_status(0, 0, None), None);
    assert_eq!(
        startup_recovery_status(0, 0, Some("recovery decryption failed")).as_deref(),
        Some("recovery decryption failed. Editing remains available.")
    );
    assert_eq!(
        startup_recovery_status(1, 0, None).as_deref(),
        Some("Restored 1 recovery checkpoint(s); skipped 0 unavailable or invalid record(s).")
    );
    assert_eq!(
        startup_recovery_status(0, 2, None).as_deref(),
        Some("Restored 0 recovery checkpoint(s); skipped 2 unavailable or invalid record(s).")
    );
    assert_eq!(
        startup_recovery_status(0, 1, Some("recovery decryption failed")).as_deref(),
        Some(
            "recovery decryption failed. Editing remains available. Restored 0 recovery checkpoint(s); skipped 1 unavailable or invalid record(s)."
        )
    );
}

#[test]
fn checkpoint_batch_status_keeps_single_signal_messages_and_combines_both() {
    assert_eq!(checkpoint_batch_status(0, None), None);
    assert_eq!(
        checkpoint_batch_status(2, None).as_deref(),
        Some("Recovery skipped 2 malformed, oversized, expired, or unreadable record(s).")
    );
    assert_eq!(
        checkpoint_batch_status(0, Some("recovery encryption failed")).as_deref(),
        Some("recovery encryption failed. Editing and source files are unchanged.")
    );
    assert_eq!(
        checkpoint_batch_status(1, Some("recovery encryption failed")).as_deref(),
        Some(
            "recovery encryption failed. Editing and source files are unchanged. Recovery skipped 1 malformed, oversized, expired, or unreadable record(s)."
        )
    );
}

#[test]
fn numbers_are_written_in_decimal() {
    assert_eq!(
        startup_recovery_status(10, 4096, None).as_deref(),
        Some("Restored 10 recovery checkpoint(s); skipped 4096 unavailable or invalid record(s).")
    );
    assert_eq!(
        notice_text(Notice::Translated { segments: u64::MAX, provider: 1 }, "a server", ""),
        "Translated 18446744073709551615 segment(s) via a server"
    );
}

#[test]
fn notices_about_opening_name_the_path() {
    assert_eq!(notice_text(Notice::NotADirectory { path: 1 }, "/tmp/a", ""), "Not a directory: /tmp/a");
    assert_eq!(notice_text(Notice::CannotOpen { path: 1 }, "/tmp/a", ""), "Cannot open /tmp/a");
    assert_eq!(
        notice_text(Notice::CannotLoad { path: 1, error: 2 }, "/tmp/a", "no such file"),
        "Cannot open /tmp/a: no such file"
    );
    assert_eq!(
        notice_text(Notice::FileChangedOnDisk, "", ""),
        "This file changed on disk. Reload or overwrite from the banner."
    );
}

#[test]
fn notices_about_records_say_that_the_document_stays() {
    assert_eq!(
        notice_text(Notice::WaitingForRecoveryStorage, "", ""),
        "Waiting for recovery storage to clear its checkpoint. The document remains open."
    );
    assert_eq!(
        notice_text(Notice::RecoveryStorageUnavailable, "", ""),
        "Recovery storage is unavailable, so its checkpoint could not be cleared. The document remains open."
    );
    assert_eq!(
        notice_text(Notice::WaitingForRecoveryCleanup, "", ""),
        "Waiting for recovery checkpoint cleanup before continuing. The document remains open."
    );
    assert_eq!(
        notice_text(Notice::CouldNotClearCheckpoint { error: 1 }, "disk full", ""),
        "Could not clear the recovery checkpoint: disk full"
    );
    assert_eq!(
        notice_text(Notice::CouldNotClearCheckpointKeptOpen { error: 1 }, "disk full", ""),
        "Could not clear the recovery checkpoint: disk full. The document remains open."
    );
    assert_eq!(
        notice_text(Notice::CheckpointCleanupPending { error: 1 }, "disk full", ""),
        "Recovery checkpoint was cleared, but cleanup remains pending: disk full"
    );
    assert_eq!(
        notice_text(Notice::CouldNotFinishCleanup { error: 1 }, "disk full", ""),
        "Could not finish recovery checkpoint cleanup: disk full"
    );
}

#[test]
fn notices_about_batches_combine_their_signals() {
    assert_eq!(
        notice_text(Notice::StartupRecovery { restored: 1, skipped: 1, error: Some(3) }, "scan failed", ""),
        "scan failed. Editing remains available. Restored 1 recovery checkpoint(s); skipped 1 unavailable or invalid record(s)."
    );
    let error = CheckpointError::Oversized { bytes: 9, limit: 8 };
    assert_eq!(
        notice_text(Notice::CheckpointBatch { issues: 3, error: Some(error) }, "too large", ""),
        "too large. Editing and source files are unchanged. Recovery skipped 3 malformed, oversized, expired, or unreadable record(s)."
    );
}

#[test]
fn notices_about_saving_and_copying_are_exact() {
    assert_eq!(notice_text(Notice::SaveAsFailed { error: 1 }, "denied", ""), "Save As failed: denied");
    assert_eq!(notice_text(Notice::SaveAsSnapshotChanged, "changed", ""), "changed");
    assert_eq!(notice_text(Notice::SaveAsPathAlreadyOpen { path: 1 }, "open", ""), "open");
    assert_eq!(notice_text(Notice::ClipboardTextUnavailable, "nothing", ""), "nothing");
    assert_eq!(notice_text(Notice::Message { text: 1 }, "Saved", ""), "Saved");
    assert_eq!(notice_text(Notice::Copied { text: 1 }, "docs/a.md", ""), "Copied docs/a.md");
    assert_eq!(
        notice_text(Notice::NoFolderIsOpen, "", ""),
        "No folder is open, so there is no relative path"
    );
    assert_eq!(
        notice_text(Notice::OutsideTheOpenFolder, "", ""),
        "That file is outside the open folder"
    );
}

#[test]
fn notices_about_translation_are_exact() {
    assert_eq!(notice_text(Notice::SelectSomeTextFirst, "", ""), "Select some text first");
    assert_eq!(
        notice_text(Notice::NoTranslationKey, "", ""),
        "No translation API key. Set one in Settings (Ctrl/Cmd+,), or export ANTHROPIC_API_KEY / OPENAI_API_KEY. A local server that wants no key still needs a placeholder."
    );
    assert_eq!(
        notice_text(Notice::TranslationUnavailable { error: 1 }, "bad url", ""),
        "Translation unavailable: bad url"
    );
    assert_eq!(
        notice_text(Notice::Translating { provider: 1 }, "a server", ""),
        "Translating via a server…"
    );
    assert_eq!(
        notice_text(Notice::TranslationOutdated, "", ""),
        "The document changed while translation was running. The result was not applied; run Translate again to use the latest text."
    );
    assert_eq!(
        notice_text(Notice::TranslationFailed { error: 1 }, "timeout", ""),
        "Translation failed: timeout"
    );
}

#[test]
fn the_question_about_a_document_names_it() {
    assert_eq!(save_changes_question("notes.md"), "Save changes to notes.md?");
    assert_eq!(
        RECOVERY_WARNING,
        "Recovery protection is unavailable for at least one dirty document. Editing and source files are unchanged."
    );
}
