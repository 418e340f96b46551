use markturbo::checkpoint::DocumentFacts;
use markturbo::effect::Effect;
use markturbo::welcome::{
    moves_recent_targets, open_recent_target, recent_display_name, recent_row, recent_target_issue,
    welcome_accessibility_id, welcome_command_id, welcome_commands, RecentFacts, RecentTarget,
    RecentTargetKind, WelcomeAvailability, WelcomeCommand,
};
use markturbo::words::{IconName, Key};
use markturbo::workspace::{TargetFacts, Workspace};

fn file(path: u64) -> RecentFacts {
    RecentFacts {
        target: RecentTarget { path, kind: RecentTargetKind::File, display_name: 1 },
        exists: true,
        is_file: true,
        is_dir: false,
        openable: true,
        open: false,
    }
}

fn folder(path: u64) -> RecentFacts {
    RecentFacts {
        target: RecentTarget { path, kind: RecentTargetKind::Workspace, display_name: 1 },
        is_file: false,
        is_dir: true,
        openable: false,
        ..file(path)
    }
}

#[test]
fn recent_target_validation_distinguishes_missing_and_mismatched_entries() {
    // A directory that was remembered as a file.
    let directory = RecentFacts { is_file: false, is_dir: true, openable: false, ..file(1) };
    assert_eq!(recent_target_issue(&directory), Some(Key::RecentUnavailable));
    let missing = RecentFacts { exists: false, is_file: false, ..file(2) };
    assert_eq!(recent_target_issue(&missing), Some(Key::RecentMissing));
}

#[test]
fn recent_targets_that_are_there_have_no_issue() {
    assert_eq!(recent_target_issue(&file(1)), None);
    assert_eq!(recent_target_issue(&folder(1)), None);
    let unreadable = RecentFacts { openable: false, ..file(1) };
    assert_eq!(recent_target_issue(&unreadable), Some(Key::RecentUnavailable));
    let replaced = RecentFacts { is_dir: false, is_file: true, ..folder(1) };
    assert_eq!(recent_target_issue(&replaced), Some(Key::RecentUnavailable));
}

#[test]
fn a_recent_target_is_looked_at_again_when_it_is_opened() {
    let recents = vec![file(1), RecentFacts { exists: false, ..file(2) }, folder(3)];
    assert_eq!(
        open_recent_target(&recents, 1),
        Some(TargetFacts { path: 1, is_dir: false, is_file: true, openable: true, open: false })
    );
    assert_eq!(open_recent_target(&recents, 2), None);
    assert!(open_recent_target(&recents, 3).is_some_and(|target| target.is_dir));
    assert_eq!(open_recent_target(&recents, 4), None);
}

#[test]
fn welcome_render_uses_cached_filesystem_availability() {
    let recents = vec![file(1), RecentFacts { exists: false, ..file(2) }];
    let availability = WelcomeAvailability::refreshed(&recents, true);
    assert_eq!(availability.issue(1), None);
    assert_eq!(availability.issue(2), Some(Key::RecentMissing));
    assert_eq!(availability.issue(3), None);
    assert!(availability.sample_available);
}

#[test]
fn a_target_at_the_head_of_the_list_stays_there() {
    let target = file(1).target;
    assert!(!moves_recent_targets(Some(target), target));
    assert!(moves_recent_targets(Some(file(2).target), target));
    assert!(moves_recent_targets(Some(folder(1).target), target));
    assert!(moves_recent_targets(None, target));
}

#[test]
fn recent_targets_are_named_after_their_file() {
    assert_eq!(recent_display_name(Some("notes.md"), "/docs/notes.md"), "notes.md");
    assert_eq!(recent_display_name(Some(""), "/"), "/");
    assert_eq!(recent_display_name(None, "/"), "/");
}

#[test]
fn welcome_controls_have_stable_windows_uia_ids() {
    let buttons = welcome_commands(false);
    let ids: Vec<&str> = buttons.iter().map(|button| welcome_command_id(button.command)).collect();
    assert_eq!(
        ids,
        [
            "welcome-new",
            "welcome-paste",
            "welcome-open-file",
            "welcome-open-folder",
            "welcome-open-sample",
            "welcome-dont-show-again"
        ]
    );
    let ids: Vec<&str> =
        buttons.iter().map(|button| welcome_accessibility_id(button.command)).collect();
    assert_eq!(
        ids,
        [
            "markturbo-welcome-new",
            "markturbo-welcome-paste",
            "markturbo-welcome-open-file",
            "markturbo-welcome-open-folder",
            "markturbo-welcome-open-sample",
            "markturbo-welcome-dont-show-again"
        ]
    );
    let row = recent_row(RecentTargetKind::File, "a.md", "/a.md", Some("/"), "abc", None);
    assert_eq!(row.status_id, "markturbo-welcome-recent-status-abc");
}

#[test]
fn the_sample_can_be_opened_only_where_it_is() {
    let enabled = |available: bool| {
        welcome_commands(available)
            .iter()
            .filter(|button| !button.enabled)
            .map(|button| button.command)
            .collect::<Vec<WelcomeCommand>>()
    };
    assert_eq!(enabled(false), [WelcomeCommand::OpenSample]);
    assert!(enabled(true).is_empty());
}

#[test]
fn a_recent_row_names_its_target_and_its_issue() {
    let row = recent_row(
        RecentTargetKind::File,
        "notes.md",
        "/docs/notes.md",
        Some("/docs"),
        "abc",
        Some(Key::RecentMissing),
    );
    assert_eq!(row.label, "notes.md  /docs");
    assert_eq!(row.icon, IconName::File);
    assert_eq!(row.issue, Some(Key::RecentMissing));
    assert_eq!(row.open_id, "welcome-recent-abc");
    assert_eq!(row.open_accessibility_id, "markturbo-welcome-recent-abc");
    assert_eq!(row.remove_id, "welcome-recent-remove-abc");
    assert_eq!(row.remove_accessibility_id, "markturbo-welcome-recent-remove-abc");
    assert_eq!(row.status_id, "markturbo-welcome-recent-status-abc");
    let root = recent_row(RecentTargetKind::Workspace, "disk", "/", None, "x", None);
    assert_eq!((root.label.as_str(), root.icon), ("disk", IconName::Folder));
    let unnamed = recent_row(RecentTargetKind::Workspace, "", "/docs", Some("/"), "x", None);
    assert_eq!(unnamed.label, "/docs");
}

#[test]
fn stale_recent_button_reports_the_accesskit_disabled_state() {
    let row = |issue| {
        recent_row(RecentTargetKind::File, "a.md", "/docs/a.md", Some("/docs"), "abc", issue)
    };
    assert!(!row(Some(Key::RecentMissing)).enabled());
    assert!(!row(Some(Key::RecentUnavailable)).enabled());
    assert!(row(None).enabled());
}

#[test]
fn turning_the_surface_off_starts_a_document() {
    let mut workspace = Workspace::new(None, true).0;
    let facts = DocumentFacts { id: 1, dirty: false, revision: 0, key: 101, text_bytes: 0 };
    let effects = workspace.dont_show_welcome_again(facts, 0);
    assert_eq!(
        effects,
        [Effect::DisableWelcome, Effect::SyncDocumentWatches, Effect::RefreshWeb]
    );
    assert!(!workspace.chrome.show_welcome);
}
