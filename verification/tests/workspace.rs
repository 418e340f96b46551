use markturbo::checkpoint::DocumentFacts;
use markturbo::effect::{DestructiveAction, Effect, Notice};
use markturbo::panels::SidePanel;
use markturbo::workspace::{
    should_show_welcome, FolderFacts, Launch, OpenStep, OpenTab, TargetFacts, TargetStep, Workspace,
};

fn facts(id: u64, dirty: bool) -> DocumentFacts {
    DocumentFacts { id, dirty, revision: 1, key: 100 + id, text_bytes: 10 }
}

fn workspace() -> Workspace {
    Workspace::new(None, true).0
}

fn focus(path: u64) -> Vec<Effect> {
    vec![
        Effect::FocusTab { path },
        Effect::RecordVisit { path, offset: 0 },
        Effect::RefreshWeb,
    ]
}

fn opened(step: OpenStep) -> Vec<Effect> {
    match step {
        OpenStep::Opened { effects } => effects,
        OpenStep::Load { .. } => panic!("the tab was there"),
    }
}

fn loading(step: OpenStep) -> Vec<Effect> {
    match step {
        OpenStep::Opened { .. } => panic!("the tab was not there"),
        OpenStep::Load { effects } => effects,
    }
}

fn target(path: u64) -> TargetFacts {
    TargetFacts { path, is_dir: false, is_file: true, openable: true, open: false }
}

#[test]
fn welcome_visibility_requires_a_no_argument_launch_and_the_saved_preference() {
    assert!(should_show_welcome(None, true));
    assert!(!should_show_welcome(Some(1), true));
    assert!(!should_show_welcome(None, false));
}

#[test]
fn a_launch_without_a_target_shows_the_welcome_surface() {
    let (workspace, launch) = Workspace::new(None, true);
    assert_eq!(launch, Launch::Welcome);
    assert!(workspace.chrome.show_welcome);
    assert!(workspace.chrome.left_panel_open && workspace.chrome.right_panel_open);
    assert_eq!(workspace.chrome.side_panel, SidePanel::Files);
    assert!(workspace.lifecycle.startup_recovery_pending);
    assert_eq!(workspace.root, None);
}

#[test]
fn a_launch_with_the_welcome_surface_turned_off_starts_a_document() {
    let (workspace, launch) = Workspace::new(None, false);
    assert_eq!(launch, Launch::NewMemory);
    assert!(!workspace.chrome.show_welcome);
}

#[test]
fn a_launch_with_a_target_opens_it() {
    let (workspace, launch) = Workspace::new(Some(7), true);
    assert_eq!(launch, Launch::Open { path: 7 });
    assert!(!workspace.chrome.show_welcome);
}

#[test]
fn a_folder_becomes_the_root_and_its_panels_are_built() {
    let mut workspace = workspace();
    let effects = workspace.open_folder(FolderFacts { path: 3, is_dir: true });
    assert_eq!(
        effects,
        [Effect::OpenPanels { path: 3 }, Effect::SyncDocumentWatches, Effect::RerunSearch]
    );
    assert_eq!(workspace.root, Some(3));
    assert!(!workspace.chrome.show_welcome);
}

#[test]
fn something_that_is_no_folder_changes_nothing() {
    let mut workspace = workspace();
    let effects = workspace.open_folder(FolderFacts { path: 3, is_dir: false });
    assert_eq!(effects, [Effect::Report { notice: Notice::NotADirectory { path: 3 } }]);
    assert_eq!(workspace.root, None);
    assert!(workspace.chrome.show_welcome);
}

#[test]
fn a_file_that_is_open_is_focused_and_settings_make_way() {
    let mut workspace = workspace();
    workspace.chrome.settings_open = true;
    let effects = opened(workspace.open_file(5, true));
    assert_eq!(effects, focus(5));
    assert!(!workspace.chrome.settings_open);
    assert_eq!(workspace.preview, None);
}

#[test]
fn a_file_that_is_not_open_is_loaded_into_a_tab() {
    let mut workspace = workspace();
    assert!(loading(workspace.open_file(5, false)).is_empty());
    let file = workspace.file_loaded(5, false, Ok(facts(1, false)), 0);
    assert!(file.opened);
    assert_eq!(
        file.effects,
        [
            Effect::RecordVisit { path: 5, offset: 0 },
            Effect::SyncDocumentWatches,
            Effect::RefreshWeb
        ]
    );
    assert!(!workspace.chrome.show_welcome);
    assert_eq!(workspace.preview, None);
    assert_eq!(workspace.lifecycle.startup_recovery_keys.get(&1), Some(&101));
}

#[test]
fn a_file_that_cannot_be_loaded_leaves_the_welcome_surface() {
    let mut workspace = workspace();
    loading(workspace.open_file(5, false));
    let file = workspace.file_loaded(5, false, Err(9), 0);
    assert!(!file.opened);
    assert_eq!(
        file.effects,
        [Effect::Report { notice: Notice::CannotLoad { path: 5, error: 9 } }]
    );
    assert!(workspace.chrome.show_welcome);
    assert_eq!(workspace.root, None);
}

#[test]
fn opening_a_preview_replaces_the_previous_one() {
    let mut workspace = workspace();
    loading(workspace.open_file_as(5, true, false, None));
    workspace.file_loaded(5, true, Ok(facts(1, false)), 0);
    assert_eq!(workspace.preview, Some(5));

    let effects = loading(workspace.open_file_as(6, true, false, Some(facts(1, false))));
    assert_eq!(
        effects,
        [
            Effect::RescheduleTimer,
            Effect::CloseTab { document: 1 },
            Effect::ForgetVisits { path: 5 },
            Effect::SyncDocumentWatches,
            Effect::RefreshWeb
        ]
    );
    workspace.file_loaded(6, true, Ok(facts(2, false)), 0);
    assert_eq!(workspace.preview, Some(6));
}

#[test]
fn a_tab_opened_for_good_stays_until_it_is_closed() {
    let mut workspace = workspace();
    loading(workspace.open_file(5, false));
    workspace.file_loaded(5, false, Ok(facts(1, false)), 0);
    assert_eq!(opened(workspace.open_file_as(5, true, true, None)), focus(5));
    assert_eq!(workspace.preview, None);
    assert!(loading(workspace.open_file_as(6, true, false, None)).is_empty());
    workspace.file_loaded(6, true, Ok(facts(2, false)), 0);
    assert_eq!(workspace.preview, Some(6));

    // Going back to the pinned file gives up the preview, and nothing else.
    let effects = opened(workspace.open_file_as(5, true, true, Some(facts(2, false))));
    assert!(effects.contains(&Effect::CloseTab { document: 2 }));
    assert!(!effects.contains(&Effect::CloseTab { document: 1 }));
    assert_eq!(workspace.preview, None);
}

#[test]
fn a_dirty_preview_is_kept() {
    let mut workspace = workspace();
    workspace.file_loaded(5, true, Ok(facts(1, false)), 0);
    let effects = loading(workspace.open_file_as(6, true, false, Some(facts(1, true))));
    assert!(effects.is_empty());
    assert_eq!(workspace.preview, None);
}

#[test]
fn a_preview_is_kept_until_its_retirement_is_durable() {
    let mut workspace = workspace();
    workspace.file_loaded(5, true, Ok(facts(1, false)), 0);
    // The document was saved before the store was there: its record is queued.
    let request = workspace.lifecycle.retirements.invalidate_recovery(101, Some(1), false);
    assert!(request.is_none());
    let effects = loading(workspace.open_file_as(6, true, false, Some(facts(1, false))));
    assert!(effects.is_empty());
}

#[test]
fn opening_the_preview_for_good_promotes_it() {
    let mut workspace = workspace();
    workspace.file_loaded(5, true, Ok(facts(1, false)), 0);
    assert_eq!(opened(workspace.open_file_as(5, true, true, None)), focus(5));
    assert_eq!(workspace.preview, Some(5));
    assert_eq!(opened(workspace.open_file_as(5, false, true, None)), focus(5));
    assert_eq!(workspace.preview, None);
}

#[test]
fn a_failed_preview_leaves_no_preview_behind() {
    let mut workspace = workspace();
    loading(workspace.open_file_as(5, true, false, None));
    let file = workspace.file_loaded(5, true, Err(9), 0);
    assert!(!file.opened);
    assert_eq!(workspace.preview, None);
}

#[test]
fn a_new_document_takes_the_place_of_welcome_and_settings() {
    let mut workspace = workspace();
    workspace.chrome.settings_open = true;
    let effects = workspace.new_memory(facts(1, false), 0);
    assert_eq!(effects, [Effect::SyncDocumentWatches, Effect::RefreshWeb]);
    assert!(!workspace.chrome.show_welcome && !workspace.chrome.settings_open);
}

#[test]
fn pasted_text_is_protected_at_once() {
    let mut workspace = workspace();
    let effects = workspace.new_memory(facts(1, true), 40);
    assert_eq!(effects.last(), Some(&Effect::RefreshWeb));
    assert!(effects.contains(&Effect::RescheduleTimer));
    assert_eq!(workspace.lifecycle.checkpoints.states.get(&1).map(|state| state.key), Some(101));
}

#[test]
fn a_folder_the_user_picks_is_put_to_the_interlock() {
    let mut workspace = workspace();
    let folder = TargetFacts { is_dir: true, is_file: false, ..target(4) };
    assert!(matches!(workspace.open_target(folder, true), TargetStep::Replace { path: 4 }));
    assert_eq!(workspace.root, None);
    match workspace.open_target(folder, false) {
        TargetStep::Folder { effects } => {
            assert_eq!(effects.last(), Some(&Effect::RecordRecentWorkspace { path: 4 }));
        }
        _ => panic!("the launch opens the folder"),
    }
    assert_eq!(workspace.root, Some(4));
}

#[test]
fn a_target_that_cannot_be_shown_is_refused() {
    let mut workspace = workspace();
    for refused in [
        TargetFacts { openable: false, ..target(4) },
        TargetFacts { is_file: false, ..target(4) },
    ] {
        match workspace.open_target(refused, true) {
            TargetStep::Refused { effects } => {
                assert_eq!(effects, [Effect::Report { notice: Notice::CannotOpen { path: 4 } }]);
            }
            _ => panic!("it cannot be shown"),
        }
    }
    assert!(workspace.chrome.show_welcome);
}

#[test]
fn a_file_without_a_workspace_brings_its_folder() {
    let mut workspace = workspace();
    match workspace.open_target(target(4), true) {
        TargetStep::File { step } => assert!(loading(step).is_empty()),
        _ => panic!("it is a file"),
    }
    workspace.file_loaded(4, false, Ok(facts(1, false)), 0);
    let parent = Some(FolderFacts { path: 2, is_dir: true });
    assert_eq!(
        workspace.file_target_opened(4, parent),
        [
            Effect::OpenPanels { path: 2 },
            Effect::SyncDocumentWatches,
            Effect::RerunSearch,
            Effect::RecordRecentFile { path: 4 }
        ]
    );
    assert_eq!(workspace.root, Some(2));
    // With a workspace open, only the file is remembered.
    let elsewhere = Some(FolderFacts { path: 9, is_dir: true });
    assert_eq!(workspace.file_target_opened(4, elsewhere), [Effect::RecordRecentFile { path: 4 }]);
    assert_eq!(workspace.root, Some(2));
}

#[test]
fn a_closed_tab_releases_its_document_and_the_preview_slot() {
    let mut workspace = workspace();
    workspace.file_loaded(5, true, Ok(facts(1, true)), 0);
    assert!(workspace.lifecycle.checkpoints.states.contains_key(&1));
    let tabs = vec![OpenTab { document: 1, path: Some(5) }];
    let effects =
        workspace.perform_destructive(DestructiveAction::CloseTab { document: 1 }, &tabs, false);
    assert!(effects.contains(&Effect::CloseTab { document: 1 }));
    assert!(effects.contains(&Effect::ForgetVisits { path: 5 }));
    assert!(effects.contains(&Effect::Invalidate { key: 101, document: Some(1) }));
    assert_eq!(workspace.preview, None);
    assert!(workspace.lifecycle.checkpoints.states.is_empty());
}

#[test]
fn a_tab_that_is_gone_is_not_closed_again() {
    let mut workspace = workspace();
    let tabs = vec![OpenTab { document: 1, path: Some(5) }];
    let effects =
        workspace.perform_destructive(DestructiveAction::CloseTab { document: 2 }, &tabs, false);
    assert!(effects.is_empty());
}

#[test]
fn a_replaced_workspace_closes_its_tabs_from_the_last_to_the_first() {
    let mut workspace = workspace();
    workspace.open_folder(FolderFacts { path: 1, is_dir: true });
    workspace.file_loaded(5, false, Ok(facts(1, true)), 0);
    workspace.file_loaded(6, true, Ok(facts(2, false)), 0);
    let tabs = vec![
        OpenTab { document: 1, path: Some(5) },
        OpenTab { document: 2, path: Some(6) },
    ];
    let action = DestructiveAction::ReplaceWorkspace { path: 8 };
    let effects = workspace.perform_destructive(action, &tabs, true);
    let closed: Vec<Effect> = effects
        .iter()
        .copied()
        .filter(|effect| matches!(effect, Effect::CloseTab { .. }))
        .collect();
    assert_eq!(closed, [Effect::CloseTab { document: 2 }, Effect::CloseTab { document: 1 }]);
    assert_eq!(effects.last(), Some(&Effect::RecordRecentWorkspace { path: 8 }));
    assert_eq!(workspace.root, Some(8));
    assert_eq!(workspace.preview, None);
    assert!(workspace.lifecycle.checkpoints.states.is_empty());
}

#[test]
fn a_workspace_whose_folder_is_gone_keeps_its_root() {
    let mut workspace = workspace();
    workspace.open_folder(FolderFacts { path: 1, is_dir: true });
    let action = DestructiveAction::ReplaceWorkspace { path: 8 };
    let effects = workspace.perform_destructive(action, &Vec::new(), false);
    assert_eq!(effects, [Effect::Report { notice: Notice::NotADirectory { path: 8 } }]);
    assert_eq!(workspace.root, Some(1));
}

#[test]
fn a_window_drains_its_input_once() {
    let mut workspace = workspace();
    let none: Vec<OpenTab> = Vec::new();
    let first = workspace.perform_destructive(DestructiveAction::CloseWindow, &none, false);
    assert_eq!(first, [Effect::DrainInput]);
    assert!(workspace.lifecycle.interlock.window_close_pending);
    let second = workspace.perform_destructive(DestructiveAction::CloseWindow, &none, false);
    assert!(second.is_empty());
}
