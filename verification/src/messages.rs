//! The words of the status bar.

use crate::effect::Notice;
use crate::text::{append, append_number, decimal};
use vstd::prelude::*;

verus! {

/// Shown while some dirty document is not protected.
pub const RECOVERY_WARNING: &'static str =
    "Recovery protection is unavailable for at least one dirty document. Editing and source files are unchanged.";

/// How many checkpoints were restored and how many were not.
pub open spec fn restored_summary(restored: u64, skipped: u64) -> Seq<char> {
    "Restored "@ + decimal(restored as nat) + " recovery checkpoint(s); skipped "@ + decimal(
        skipped as nat,
    ) + " unavailable or invalid record(s)."@
}

/// How many records a batch of checkpoints had to skip.
pub open spec fn skipped_summary(issues: u64) -> Seq<char> {
    "Recovery skipped "@ + decimal(issues as nat)
        + " malformed, oversized, expired, or unreadable record(s)."@
}

/// An error, a reassurance, and a summary, as far as there is one.
pub open spec fn combined(
    error: Option<Seq<char>>,
    reassurance: Seq<char>,
    summary: Option<Seq<char>>,
) -> Option<Seq<char>> {
    match (error, summary) {
        (Some(error), Some(summary)) => Some(error + reassurance + " "@ + summary),
        (Some(error), None) => Some(error + reassurance),
        (None, summary) => summary,
    }
}

/// The view of a text that may be missing.
pub open spec fn text_view(text: Option<String>) -> Option<Seq<char>> {
    match text {
        Some(text) => Some(text@),
        None => None,
    }
}

/// The view of a text that may be missing.
pub open spec fn str_view(text: Option<&str>) -> Option<Seq<char>> {
    match text {
        Some(text) => Some(text@),
        None => None,
    }
}

fn combine(error: Option<&str>, reassurance: &str, summary: Option<String>) -> (status: Option<
    String,
>)
    ensures
        text_view(status) == combined(str_view(error), reassurance@, text_view(summary)),
{
    match error {
        Some(error) => {
            let mut status: String = String::new();
            append(&mut status, error);
            append(&mut status, reassurance);
            assert(status@ =~= error@ + reassurance@);
            match summary {
                Some(summary) => {
                    append(&mut status, " ");
                    append(&mut status, summary.as_str());
                    assert(status@ =~= error@ + reassurance@ + " "@ + summary@);
                },
                None => {},
            }
            Some(status)
        },
        None => summary,
    }
}

/// The status line after startup recovery; nothing if there is nothing to tell.
pub fn startup_recovery_status(restored: u64, skipped: u64, error: Option<&str>) -> (status: Option<
    String,
>)
    ensures
        text_view(status) == combined(
            str_view(error),
            ". Editing remains available."@,
            if restored > 0 || skipped > 0 {
                Some(restored_summary(restored, skipped))
            } else {
                None
            },
        ),
{
    let summary = if restored > 0 || skipped > 0 {
        let mut summary: String = String::new();
        append(&mut summary, "Restored ");
        append_number(&mut summary, restored);
        append(&mut summary, " recovery checkpoint(s); skipped ");
        append_number(&mut summary, skipped);
        append(&mut summary, " unavailable or invalid record(s).");
        assert(summary@ =~= restored_summary(restored, skipped));
        Some(summary)
    } else {
        None
    };
    combine(error, ". Editing remains available.", summary)
}

/// The status line after a batch of checkpoints; nothing if all went well.
pub fn checkpoint_batch_status(maintenance_issues: u64, last_error: Option<&str>) -> (status: Option<
    String,
>)
    ensures
        text_view(status) == combined(
            str_view(last_error),
            ". Editing and source files are unchanged."@,
            if maintenance_issues > 0 {
                Some(skipped_summary(maintenance_issues))
            } else {
                None
            },
        ),
{
    let summary = if maintenance_issues > 0 {
        let mut summary: String = String::new();
        append(&mut summary, "Recovery skipped ");
        append_number(&mut summary, maintenance_issues);
        append(&mut summary, " malformed, oversized, expired, or unreadable record(s).");
        assert(summary@ =~= skipped_summary(maintenance_issues));
        Some(summary)
    } else {
        None
    };
    combine(last_error, ". Editing and source files are unchanged.", summary)
}

/// The line for `notice`. `detail` and `reason` are the texts behind the
/// handles it carries, in order; a notice of the interface's own words is its
/// `detail`.
pub open spec fn notice_line(notice: Notice, detail: Seq<char>, reason: Seq<char>) -> Seq<char> {
    match notice {
        Notice::Message { .. } => detail,
        Notice::NotADirectory { .. } => "Not a directory: "@ + detail,
        Notice::CannotOpen { .. } => "Cannot open "@ + detail,
        Notice::CannotLoad { .. } => "Cannot open "@ + detail + ": "@ + reason,
        Notice::FileChangedOnDisk =>
            "This file changed on disk. Reload or overwrite from the banner."@,
        Notice::ClipboardTextUnavailable => detail,
        Notice::WaitingForRecoveryStorage =>
            "Waiting for recovery storage to clear its checkpoint. The document remains open."@,
        Notice::RecoveryStorageUnavailable =>
            "Recovery storage is unavailable, so its checkpoint could not be cleared. The document remains open."@,
        Notice::WaitingForRecoveryCleanup =>
            "Waiting for recovery checkpoint cleanup before continuing. The document remains open."@,
        Notice::CouldNotClearCheckpoint { .. } => "Could not clear the recovery checkpoint: "@
            + detail,
        Notice::CouldNotClearCheckpointKeptOpen { .. } =>
            "Could not clear the recovery checkpoint: "@ + detail
            + ". The document remains open."@,
        Notice::CheckpointCleanupPending { .. } =>
            "Recovery checkpoint was cleared, but cleanup remains pending: "@ + detail,
        Notice::CouldNotFinishCleanup { .. } => "Could not finish recovery checkpoint cleanup: "@
            + detail,
        Notice::StartupRecovery { restored, skipped, error } => match combined(
            if error is Some {
                Some(detail)
            } else {
                None
            },
            ". Editing remains available."@,
            if restored > 0 || skipped > 0 {
                Some(restored_summary(restored, skipped))
            } else {
                None
            },
        ) {
            Some(status) => status,
            None => Seq::empty(),
        },
        Notice::CheckpointBatch { issues, error } => match combined(
            if error is Some {
                Some(detail)
            } else {
                None
            },
            ". Editing and source files are unchanged."@,
            if issues > 0 {
                Some(skipped_summary(issues))
            } else {
                None
            },
        ) {
            Some(status) => status,
            None => Seq::empty(),
        },
        Notice::SaveAsFailed { .. } => "Save As failed: "@ + detail,
        Notice::SaveAsSnapshotChanged => detail,
        Notice::SaveAsPathAlreadyOpen { .. } => detail,
        Notice::Copied { .. } => "Copied "@ + detail,
        Notice::NoFolderIsOpen => "No folder is open, so there is no relative path"@,
        Notice::OutsideTheOpenFolder => "That file is outside the open folder"@,
        Notice::SelectSomeTextFirst => "Select some text first"@,
        Notice::NoTranslationKey =>
            "No translation API key. Set one in Settings (Ctrl/Cmd+,), or export ANTHROPIC_API_KEY / OPENAI_API_KEY. A local server that wants no key still needs a placeholder."@,
        Notice::TranslationUnavailable { .. } => "Translation unavailable: "@ + detail,
        Notice::Translating { .. } => "Translating via "@ + detail + "…"@,
        Notice::Translated { segments, .. } => "Translated "@ + decimal(segments as nat)
            + " segment(s) via "@ + detail,
        Notice::TranslationOutdated =>
            "The document changed while translation was running. The result was not applied; run Translate again to use the latest text."@,
        Notice::TranslationFailed { .. } => "Translation failed: "@ + detail,
    }
}

fn two(first: &str, second: &str) -> (text: String)
    ensures
        text@ == first@ + second@,
{
    let mut text: String = String::new();
    append(&mut text, first);
    append(&mut text, second);
    assert(text@ =~= first@ + second@);
    text
}

fn three(first: &str, second: &str, third: &str) -> (text: String)
    ensures
        text@ == first@ + second@ + third@,
{
    let mut text = two(first, second);
    append(&mut text, third);
    text
}

fn one(only: &str) -> (text: String)
    ensures
        text@ == only@,
{
    let mut text: String = String::new();
    append(&mut text, only);
    assert(text@ =~= only@);
    text
}

/// The line for `notice`, where `detail` and `reason` are the texts behind the
/// handles it carries.
pub fn notice_text(notice: Notice, detail: &str, reason: &str) -> (text: String)
    ensures
        text@ == notice_line(notice, detail@, reason@),
{
    match notice {
        Notice::Message { text: _ } => one(detail),
        Notice::NotADirectory { path: _ } => two("Not a directory: ", detail),
        Notice::CannotOpen { path: _ } => two("Cannot open ", detail),
        Notice::CannotLoad { path: _, error: _ } => {
            let mut text = three("Cannot open ", detail, ": ");
            append(&mut text, reason);
            text
        },
        Notice::FileChangedOnDisk => one(
            "This file changed on disk. Reload or overwrite from the banner.",
        ),
        Notice::ClipboardTextUnavailable => one(detail),
        Notice::WaitingForRecoveryStorage => one(
            "Waiting for recovery storage to clear its checkpoint. The document remains open.",
        ),
        Notice::RecoveryStorageUnavailable => one(
            "Recovery storage is unavailable, so its checkpoint could not be cleared. The document remains open.",
        ),
        Notice::WaitingForRecoveryCleanup => one(
            "Waiting for recovery checkpoint cleanup before continuing. The document remains open.",
        ),
        Notice::CouldNotClearCheckpoint { error: _ } => two(
            "Could not clear the recovery checkpoint: ",
            detail,
        ),
        Notice::CouldNotClearCheckpointKeptOpen { error: _ } => three(
            "Could not clear the recovery checkpoint: ",
            detail,
            ". The document remains open.",
        ),
        Notice::CheckpointCleanupPending { error: _ } => two(
            "Recovery checkpoint was cleared, but cleanup remains pending: ",
            detail,
        ),
        Notice::CouldNotFinishCleanup { error: _ } => two(
            "Could not finish recovery checkpoint cleanup: ",
            detail,
        ),
        Notice::StartupRecovery { restored, skipped, error } => {
            let error = if error.is_some() {
                Some(detail)
            } else {
                None
            };
            match startup_recovery_status(restored, skipped, error) {
                Some(status) => status,
                None => String::new(),
            }
        },
        Notice::CheckpointBatch { issues, error } => {
            let error = if error.is_some() {
                Some(detail)
            } else {
                None
            };
            match checkpoint_batch_status(issues, error) {
                Some(status) => status,
                None => String::new(),
            }
        },
        Notice::SaveAsFailed { error: _ } => two("Save As failed: ", detail),
        Notice::SaveAsSnapshotChanged => one(detail),
        Notice::SaveAsPathAlreadyOpen { path: _ } => one(detail),
        Notice::Copied { text: _ } => two("Copied ", detail),
        Notice::NoFolderIsOpen => one("No folder is open, so there is no relative path"),
        Notice::OutsideTheOpenFolder => one("That file is outside the open folder"),
        Notice::SelectSomeTextFirst => one("Select some text first"),
        Notice::NoTranslationKey => one(
            "No translation API key. Set one in Settings (Ctrl/Cmd+,), or export ANTHROPIC_API_KEY / OPENAI_API_KEY. A local server that wants no key still needs a placeholder.",
        ),
        Notice::TranslationUnavailable { error: _ } => two("Translation unavailable: ", detail),
        Notice::Translating { provider: _ } => three("Translating via ", detail, "…"),
        Notice::Translated { segments, provider: _ } => {
            let mut text = one("Translated ");
            append_number(&mut text, segments);
            append(&mut text, " segment(s) via ");
            append(&mut text, detail);
            text
        },
        Notice::TranslationOutdated => one(
            "The document changed while translation was running. The result was not applied; run Translate again to use the latest text.",
        ),
        Notice::TranslationFailed { error: _ } => two("Translation failed: ", detail),
    }
}

/// The question about a dirty document.
pub fn save_changes_question(title: &str) -> (question: String)
    ensures
        question@ == "Save changes to "@ + title@ + "?"@,
{
    three("Save changes to ", title, "?")
}

/// Whether `part` stands somewhere in `line`.
pub open spec fn mentions(line: Seq<char>, part: Seq<char>) -> bool {
    exists|before: Seq<char>, after: Seq<char>| #[trigger] (before + part + after) == line
}

/// A status says something exactly where there is something to say, begins with
/// the error if there is one, and ends with the summary if there is one.
pub proof fn law_a_status_tells_error_and_summary(
    error: Option<Seq<char>>,
    reassurance: Seq<char>,
    summary: Option<Seq<char>>,
)
    ensures
        combined(error, reassurance, summary) is Some <==> error is Some || summary is Some,
        error matches Some(error) ==> mentions(
            combined(Some(error), reassurance, summary)->0,
            error + reassurance,
        ),
        summary matches Some(summary) ==> mentions(
            combined(error, reassurance, Some(summary))->0,
            summary,
        ),
{
    if let Some(error) = error {
        let line = combined(Some(error), reassurance, summary)->0;
        let rest = match summary {
            Some(summary) => " "@ + summary,
            None => Seq::empty(),
        };
        assert(Seq::<char>::empty() + (error + reassurance) + rest =~= line);
    }
    if let Some(summary) = summary {
        let line = combined(error, reassurance, Some(summary))->0;
        let front = match error {
            Some(error) => error + reassurance + " "@,
            None => Seq::empty(),
        };
        assert(front + summary + Seq::<char>::empty() =~= line);
    }
}

/// A summary tells its numbers as they are.
pub proof fn law_a_summary_tells_its_numbers(restored: u64, skipped: u64)
    ensures
        mentions(
            restored_summary(restored, skipped),
            "Restored "@ + decimal(restored as nat) + " recovery checkpoint(s)"@,
        ),
        mentions(
            restored_summary(restored, skipped),
            "skipped "@ + decimal(skipped as nat) + " unavailable or invalid record(s)."@,
        ),
        mentions(
            skipped_summary(skipped),
            "Recovery skipped "@ + decimal(skipped as nat),
        ),
{
    reveal_strlit("Restored ");
    reveal_strlit(" recovery checkpoint(s); skipped ");
    reveal_strlit(" recovery checkpoint(s)");
    reveal_strlit("; ");
    reveal_strlit("skipped ");
    let some = decimal(restored as nat);
    let others = decimal(skipped as nat);
    let line = restored_summary(restored, skipped);
    let first = "Restored "@ + some + " recovery checkpoint(s)"@;
    let last = "skipped "@ + others + " unavailable or invalid record(s)."@;
    assert(" recovery checkpoint(s); skipped "@ =~= " recovery checkpoint(s)"@ + "; "@
        + "skipped "@);
    assert(Seq::<char>::empty() + first + ("; "@ + last) =~= line);
    assert((first + "; "@) + last + Seq::<char>::empty() =~= line);
    let short = "Recovery skipped "@ + others;
    assert(Seq::<char>::empty() + short
        + " malformed, oversized, expired, or unreadable record(s)."@ =~= skipped_summary(skipped));
}

/// Whether a notice carries a text of somebody else's.
pub open spec fn carries_detail(notice: Notice) -> bool {
    match notice {
        Notice::FileChangedOnDisk
        | Notice::WaitingForRecoveryStorage
        | Notice::RecoveryStorageUnavailable
        | Notice::WaitingForRecoveryCleanup
        | Notice::NoFolderIsOpen
        | Notice::OutsideTheOpenFolder
        | Notice::SelectSomeTextFirst
        | Notice::NoTranslationKey
        | Notice::TranslationOutdated => false,
        Notice::StartupRecovery { error, .. } => error is Some,
        Notice::CheckpointBatch { error, .. } => error is Some,
        _ => true,
    }
}

/// No text is swallowed on its way to the status bar: whatever a notice carries
/// is told in its line.
pub proof fn law_a_notice_tells_what_it_carries(
    notice: Notice,
    detail: Seq<char>,
    reason: Seq<char>,
)
    ensures
        carries_detail(notice) ==> mentions(notice_line(notice, detail, reason), detail),
        notice is CannotLoad ==> mentions(notice_line(notice, detail, reason), reason),
        notice matches Notice::Translated { segments, .. } ==> mentions(
            notice_line(notice, detail, reason),
            decimal(segments as nat),
        ),
{
    let line = notice_line(notice, detail, reason);
    let none = Seq::<char>::empty();
    match notice {
        Notice::NotADirectory { .. } => {
            assert("Not a directory: "@ + detail + none =~= line);
        },
        Notice::CannotOpen { .. } => {
            assert("Cannot open "@ + detail + none =~= line);
        },
        Notice::CannotLoad { .. } => {
            assert("Cannot open "@ + detail + (": "@ + reason) =~= line);
            assert(("Cannot open "@ + detail + ": "@) + reason + none =~= line);
        },
        Notice::CouldNotClearCheckpoint { .. } => {
            assert("Could not clear the recovery checkpoint: "@ + detail + none =~= line);
        },
        Notice::CouldNotClearCheckpointKeptOpen { .. } => {
            assert("Could not clear the recovery checkpoint: "@ + detail
                + ". The document remains open."@ =~= line);
        },
        Notice::CheckpointCleanupPending { .. } => {
            assert("Recovery checkpoint was cleared, but cleanup remains pending: "@ + detail + none
                =~= line);
        },
        Notice::CouldNotFinishCleanup { .. } => {
            assert("Could not finish recovery checkpoint cleanup: "@ + detail + none =~= line);
        },
        Notice::StartupRecovery { restored, skipped, error } => {
            if error is Some {
                let rest = if restored > 0 || skipped > 0 {
                    ". Editing remains available."@ + " "@ + restored_summary(restored, skipped)
                } else {
                    ". Editing remains available."@
                };
                assert(none + detail + rest =~= line);
            }
        },
        Notice::CheckpointBatch { issues, error } => {
            if error is Some {
                let rest = if issues > 0 {
                    ". Editing and source files are unchanged."@ + " "@ + skipped_summary(issues)
                } else {
                    ". Editing and source files are unchanged."@
                };
                assert(none + detail + rest =~= line);
            }
        },
        Notice::SaveAsFailed { .. } => {
            assert("Save As failed: "@ + detail + none =~= line);
        },
        Notice::Copied { .. } => {
            assert("Copied "@ + detail + none =~= line);
        },
        Notice::TranslationUnavailable { .. } => {
            assert("Translation unavailable: "@ + detail + none =~= line);
        },
        Notice::Translating { .. } => {
            assert("Translating via "@ + detail + "…"@ =~= line);
        },
        Notice::Translated { segments, .. } => {
            let count = decimal(segments as nat);
            assert(("Translated "@ + count + " segment(s) via "@) + detail + none =~= line);
            assert("Translated "@ + count + (" segment(s) via "@ + detail) =~= line);
        },
        Notice::TranslationFailed { .. } => {
            assert("Translation failed: "@ + detail + none =~= line);
        },
        _ => {
            if carries_detail(notice) {
                assert(none + detail + none =~= line);
            }
        },
    }
}

} // verus!
