use markturbo::effect::{Effect, Notice};
use markturbo::save_as::{
    save_as_directory, save_as_name, SaveAsFacts, SaveAsNext, SaveAsOutcome, SaveAsStep, WalkFacts,
};
use markturbo::workspace::{FolderFacts, Workspace};

const NO_WALK: WalkFacts = WalkFacts { current: None, prompt_matches: false };

fn workspace() -> Workspace {
    Workspace::new(None, false).0
}

fn facts(destination_open: bool) -> Option<SaveAsFacts> {
    Some(SaveAsFacts { key: 101, destination_open })
}

fn ended(step: SaveAsStep) -> Vec<Effect> {
    match step {
        SaveAsStep::Ended { effects } => effects,
        SaveAsStep::Write => panic!("nothing is to be written"),
    }
}

/// A workspace whose walk number 7 waits for a Save As of document 1, with one
/// other document decided before.
fn waiting() -> Workspace {
    let mut workspace = workspace();
    workspace.lifecycle.interlock.pending = Some(7);
    workspace.lifecycle.interlock.handled = vec![(55, Some(2))];
    workspace
}

const WALK: WalkFacts = WalkFacts { current: Some(1), prompt_matches: true };

#[test]
fn the_dialog_starts_where_the_document_is() {
    assert_eq!(save_as_directory(Some("/docs"), Some("/root")), "/docs");
    assert_eq!(save_as_directory(None, Some("/root")), "/root");
    assert_eq!(save_as_directory(None, None), ".");
    assert_eq!(save_as_name(Some("notes.md")), "notes.md");
    assert_eq!(save_as_name(None), "Untitled.md");
}

#[test]
fn choosing_nothing_changes_nothing() {
    let mut workspace = workspace();
    let step = workspace.finish_save_as_selection(1, None, facts(false), NO_WALK);
    assert!(ended(step).is_empty());
    assert!(workspace.lifecycle.save_as_recovery_keys.is_empty());
}

#[test]
fn a_first_save_as_gives_a_document_its_folder() {
    let mut workspace = workspace();
    let step = workspace.finish_save_as_selection(1, Some(9), facts(false), NO_WALK);
    assert!(matches!(step, SaveAsStep::Write));
    assert_eq!(workspace.lifecycle.save_as_recovery_keys.get(&1), Some(&101));
    let parent = Some(FolderFacts { path: 8, is_dir: true });
    let result = workspace.save_as_written(1, 9, true, SaveAsOutcome::Saved, None, parent, None);
    assert_eq!(
        result.effects,
        [
            Effect::RenameTab { document: 1, path: 9 },
            Effect::OpenPanels { path: 8 },
            Effect::SyncDocumentWatches,
            Effect::RerunSearch,
            Effect::SyncDocumentWatches,
            Effect::RecordRecentFile { path: 9 },
            Effect::RecordVisit { path: 9, offset: 0 },
            Effect::RefreshWeb
        ]
    );
    assert_eq!(result.next, SaveAsNext::Done);
    assert_eq!(workspace.root, Some(8));
    // The record of the unsaved document is retired once it has become clean.
    assert_eq!(workspace.lifecycle.save_as_recovery_keys.get(&1), Some(&101));
}

#[test]
fn a_renamed_document_leaves_no_history_behind() {
    let mut workspace = workspace();
    let parent = Some(FolderFacts { path: 8, is_dir: true });
    let result = workspace.save_as_written(1, 9, true, SaveAsOutcome::Saved, Some(3), parent, None);
    assert_eq!(
        result.effects,
        [
            Effect::RenameTab { document: 1, path: 9 },
            Effect::ForgetVisits { path: 3 },
            Effect::SyncDocumentWatches,
            Effect::RecordRecentFile { path: 9 },
            Effect::RecordVisit { path: 9, offset: 0 },
            Effect::RefreshWeb
        ]
    );
    assert_eq!(workspace.root, None);
}

#[test]
fn a_destination_in_another_tab_is_refused() {
    let mut workspace = workspace();
    let step = workspace.finish_save_as_selection(1, Some(9), facts(true), NO_WALK);
    assert_eq!(
        ended(step),
        [Effect::Report { notice: Notice::SaveAsPathAlreadyOpen { path: 9 } }]
    );
    assert!(workspace.lifecycle.save_as_recovery_keys.is_empty());
}

#[test]
fn a_document_that_is_gone_is_not_saved() {
    let mut workspace = waiting();
    let step = workspace.finish_save_as_selection(1, Some(9), None, WALK);
    assert!(ended(step).is_empty());
    assert_eq!(workspace.lifecycle.interlock.pending, None);
}

#[test]
fn a_text_that_has_changed_ends_the_walk_unwritten() {
    let mut workspace = waiting();
    let changed = WalkFacts { prompt_matches: false, ..WALK };
    let step = workspace.finish_save_as_selection(1, Some(9), facts(false), changed);
    assert_eq!(ended(step), [Effect::Report { notice: Notice::SaveAsSnapshotChanged }]);
    assert_eq!(workspace.lifecycle.interlock.pending, None);
    assert!(workspace.lifecycle.interlock.handled.is_empty());
}

#[test]
fn another_document_cannot_be_saved_in_the_middle_of_a_walk() {
    let mut workspace = waiting();
    let step = workspace.finish_save_as_selection(3, Some(9), facts(false), WALK);
    assert_eq!(ended(step), [Effect::Report { notice: Notice::SaveAsSnapshotChanged }]);
    // The walk is about another document, and goes on.
    assert_eq!(workspace.lifecycle.interlock.pending, Some(7));
    assert_eq!(workspace.lifecycle.interlock.handled, [(55, Some(2))]);
}

#[test]
fn cancelling_the_dialog_ends_the_walk_and_keeps_every_record() {
    let mut workspace = waiting();
    let step = workspace.finish_save_as_selection(1, None, facts(false), WALK);
    assert!(ended(step).is_empty());
    assert_eq!(workspace.lifecycle.interlock.pending, None);
    assert!(workspace.lifecycle.interlock.handled.is_empty());
    assert!(workspace.lifecycle.retirements.pending.is_empty());
}

#[test]
fn a_saved_document_lets_its_walk_go_on() {
    let mut workspace = waiting();
    let step = workspace.finish_save_as_selection(1, Some(9), facts(false), WALK);
    assert!(matches!(step, SaveAsStep::Write));
    let result = workspace.save_as_written(1, 9, true, SaveAsOutcome::Saved, None, None, Some(1));
    assert_eq!(result.next, SaveAsNext::Decide { request: 7 });
    assert_eq!(workspace.lifecycle.interlock.pending, None);
    assert_eq!(workspace.lifecycle.interlock.handled, [(55, Some(2))]);
}

#[test]
fn a_file_that_is_there_is_not_replaced_without_asking() {
    let mut workspace = waiting();
    workspace.finish_save_as_selection(1, Some(9), facts(false), WALK);
    let exists = SaveAsOutcome::DestinationExists;
    let result = workspace.save_as_written(1, 9, true, exists, None, None, Some(1));
    assert!(result.effects.is_empty());
    assert_eq!(result.next, SaveAsNext::AskOverwrite);
    assert!(workspace.lifecycle.save_as_recovery_keys.is_empty());
    assert_eq!(workspace.lifecycle.interlock.pending, Some(7));

    // The user agrees, and the text is written after all.
    let step = workspace.overwrite_answered(1, 9, true, facts(false), WALK);
    assert!(matches!(step, SaveAsStep::Write));
    let result = workspace.save_as_written(1, 9, false, SaveAsOutcome::Saved, None, None, Some(1));
    assert_eq!(result.next, SaveAsNext::Decide { request: 7 });
}

#[test]
fn refusing_to_replace_a_file_ends_the_walk() {
    let mut workspace = waiting();
    let step = workspace.overwrite_answered(1, 9, false, facts(false), WALK);
    assert!(ended(step).is_empty());
    assert_eq!(workspace.lifecycle.interlock.pending, None);
}

#[test]
fn a_destination_that_changed_again_ends_the_walk() {
    let mut workspace = waiting();
    workspace.finish_save_as_selection(1, Some(9), facts(false), WALK);
    let exists = SaveAsOutcome::DestinationExists;
    let result = workspace.save_as_written(1, 9, false, exists, None, None, Some(1));
    assert_eq!(result.next, SaveAsNext::Done);
    assert_eq!(workspace.lifecycle.interlock.pending, None);
}

#[test]
fn a_failed_write_ends_the_walk() {
    let mut workspace = waiting();
    workspace.finish_save_as_selection(1, Some(9), facts(false), WALK);
    let result = workspace.save_as_written(1, 9, true, SaveAsOutcome::Failed, None, None, Some(1));
    assert_eq!(result.next, SaveAsNext::Done);
    assert!(result.effects.is_empty());
    assert!(workspace.lifecycle.save_as_recovery_keys.is_empty());
    assert_eq!(workspace.lifecycle.interlock.pending, None);
}

#[test]
fn a_file_that_cannot_be_looked_at_is_reported() {
    let mut workspace = waiting();
    let effects = workspace.overwrite_unavailable(1, 4, Some(1));
    assert_eq!(effects, [Effect::Report { notice: Notice::SaveAsFailed { error: 4 } }]);
    assert_eq!(workspace.lifecycle.interlock.pending, None);
}
