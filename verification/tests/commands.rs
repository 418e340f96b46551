use markturbo::commands::{
    copy_path, copy_relative_path, drop_report, paste_unavailable, plan_drop, reveal_in,
    reveal_offset, tab_clicked, ActiveDocument, CopyStep, Dropped,
};
use markturbo::effect::{Effect, Notice};
use markturbo::panels::{
    outline_hint, outline_indent, resize_role, side_panel_content, ResizeRole, SidePanel,
    WorkspaceResizeEdge,
};
use markturbo::search::{search_corpus, HarnessPaths, SearchScope};
use markturbo::settings::{appearance_changed, settings_changed, SettingsEvent};
use markturbo::tabs::{
    detail_label, document_details, empty_title, tab_model, web_path_controls, TabFacts, TabSuffix,
    WebPathControls,
};
use markturbo::watch::{document_directories, Change, Refresh, SourceDirectories};
use markturbo::words::{IconName, Key};
use markturbo::workspace::{FolderFacts, OpenTab, Workspace};
use std::collections::BTreeSet;

fn copied(step: CopyStep) -> Option<String> {
    match step {
        CopyStep::Copy { text } => Some(text),
        _ => None,
    }
}

#[test]
fn paths_are_copied_with_forward_slashes() {
    assert_eq!(copied(copy_path(Some("C:\\docs\\a.md"))).as_deref(), Some("C:/docs/a.md"));
    assert!(matches!(copy_path(None), CopyStep::Ignored));
    assert_eq!(
        copied(copy_relative_path(true, true, Some("docs\\a.md"))).as_deref(),
        Some("docs/a.md")
    );
}

#[test]
fn a_relative_path_needs_a_folder_around_it() {
    assert!(matches!(copy_relative_path(false, true, Some("a.md")), CopyStep::Ignored));
    assert!(matches!(
        copy_relative_path(true, false, None),
        CopyStep::Refused { notice: Notice::NoFolderIsOpen }
    ));
    assert!(matches!(
        copy_relative_path(true, true, None),
        CopyStep::Refused { notice: Notice::OutsideTheOpenFolder }
    ));
}

#[test]
fn dropping_paths_handles_all_three_cases() {
    let document = Dropped { is_dir: false, openable: true };
    let image = Dropped { is_dir: false, openable: false };
    let folder = Dropped { is_dir: true, openable: false };
    let plan = plan_drop(&vec![image, document, folder, document, image]);
    assert_eq!(plan.open, [1, 2]);
    assert_eq!(plan.skipped, [0]);
    let plan = plan_drop(&vec![document, image, document]);
    assert_eq!(plan.open, [0, 2]);
    assert_eq!(plan.skipped, [1]);
    let names = vec!["a.png".to_string()];
    assert_eq!(drop_report(&names).as_deref(), Some("Cannot open a.png"));
    let plan = plan_drop(&Vec::new());
    assert!(plan.open.is_empty() && plan.skipped.is_empty());
}

#[test]
fn what_cannot_be_shown_is_reported() {
    let names = vec!["a.png".to_string(), "b.zip".to_string()];
    assert_eq!(drop_report(&names).as_deref(), Some("Cannot open a.png, b.zip"));
    assert_eq!(drop_report(&Vec::new()), None);
}

#[test]
fn an_empty_clipboard_is_reported() {
    assert_eq!(
        paste_unavailable(),
        [Effect::Report { notice: Notice::ClipboardTextUnavailable }]
    );
}

#[test]
fn jumps_are_remembered() {
    let saved = ActiveDocument { document: 1, path: Some(9) };
    let unsaved = ActiveDocument { document: 2, path: None };
    assert_eq!(
        reveal_offset(Some(saved), 40),
        [
            Effect::RecordVisit { path: 9, offset: 40 },
            Effect::RevealOffset { document: 1, offset: 40 }
        ]
    );
    assert_eq!(
        reveal_offset(Some(unsaved), 40),
        [Effect::RevealOffset { document: 2, offset: 40 }]
    );
    assert!(reveal_offset(None, 40).is_empty());
}

#[test]
fn a_jump_into_a_file_that_did_not_open_moves_nothing() {
    let other = ActiveDocument { document: 1, path: Some(9) };
    assert!(reveal_in(8, 40, Some(other)).is_empty());
    assert!(reveal_in(8, 40, None).is_empty());
    assert_eq!(
        reveal_in(9, 40, Some(other)),
        [
            Effect::RecordVisit { path: 9, offset: 40 },
            Effect::RevealOffset { document: 1, offset: 40 }
        ]
    );
}

#[test]
fn clicking_a_tab_is_a_visit() {
    assert_eq!(
        tab_clicked(true, Some(9)),
        [Effect::RecordVisit { path: 9, offset: 0 }, Effect::RefreshWeb]
    );
    assert_eq!(tab_clicked(true, None), [Effect::RefreshWeb]);
    assert_eq!(tab_clicked(false, Some(9)), [Effect::RefreshWeb]);
}

#[test]
fn panels_are_toggled_except_on_the_welcome_surface() {
    let mut workspace = Workspace::new(None, true).0;
    assert!(workspace.toggle_left_panel().is_empty());
    assert!(workspace.toggle_right_panel().is_empty());
    assert!(workspace.chrome.left_panel_open && workspace.chrome.right_panel_open);
    workspace.open_folder(FolderFacts { path: 1, is_dir: true });
    assert_eq!(workspace.toggle_left_panel(), [Effect::RefreshWeb]);
    assert_eq!(workspace.toggle_right_panel(), [Effect::RefreshWeb]);
    assert!(!workspace.chrome.left_panel_open && !workspace.chrome.right_panel_open);
    workspace.toggle_right_panel();
    assert!(workspace.chrome.right_panel_open);
}

#[test]
fn searching_opens_its_panel_and_takes_the_caret() {
    let mut workspace = Workspace::new(None, false).0;
    workspace.toggle_left_panel();
    assert_eq!(workspace.focus_search(), [Effect::FocusSearch, Effect::RefreshWeb]);
    assert_eq!(workspace.chrome.side_panel, SidePanel::Search);
    assert!(workspace.chrome.left_panel_open);
    workspace.select_side_panel(SidePanel::Outline);
    assert_eq!(workspace.chrome.side_panel, SidePanel::Outline);
    assert_eq!(workspace.toggle_settings(), [Effect::RefreshWeb]);
    assert!(workspace.chrome.settings_open);
}

#[test]
fn the_search_corpus_is_cheap_to_build_and_prefers_editor_text() {
    let tabs = vec![
        OpenTab { document: 1, path: Some(11) },
        OpenTab { document: 2, path: None },
        OpenTab { document: 3, path: Some(13) },
    ];
    let active = Some(ActiveDocument { document: 3, path: Some(13) });
    let harness = HarnessPaths { skill_dirs: vec![20, 21], instructions: vec![13, 30] };
    let search = |scope| search_corpus(scope, &tabs, active, Some(5), Some(&harness));
    let open = |scope| search(scope).open.iter().map(|tab| tab.document).collect::<Vec<u64>>();

    assert_eq!(open(SearchScope::Document), [3]);
    assert_eq!(open(SearchScope::OpenTabs), [1, 3]);
    let folder = search(SearchScope::Folder);
    assert_eq!((folder.roots, folder.files), (vec![5], vec![]));
    let all = search(SearchScope::Harness);
    assert_eq!(all.roots, [20, 21]);
    assert_eq!(all.files, [30]);
    assert_eq!(open(SearchScope::Harness), [1, 3]);

    let nothing = search_corpus(SearchScope::Folder, &tabs, active, None, None);
    assert!(nothing.roots.is_empty());
    let unsaved = Some(ActiveDocument { document: 2, path: None });
    assert!(search_corpus(SearchScope::Document, &tabs, unsaved, None, None).open.is_empty());
}

fn change(relative: &str) -> Change {
    Change {
        affects_tree: false,
        in_root: true,
        over_artifact: false,
        relative: relative.to_string(),
        is_dir: false,
        has_extension: true,
        is_instruction: false,
        watched_by: BTreeSet::new(),
    }
}

fn watching(startup_pending: bool) -> Workspace {
    let mut workspace = Workspace::new(None, false).0;
    workspace.open_folder(FolderFacts { path: 1, is_dir: true });
    if !startup_pending {
        workspace.lifecycle.begin_startup_restore(true);
    }
    workspace
}

#[test]
fn auto_refresh_never_reloads_a_document_with_unsaved_edits() {
    let documents = vec![1, 2, 3];
    let watched = Change { watched_by: [2, 4].into_iter().collect(), ..change("src/a.md") };
    let again = Change { watched_by: [2].into_iter().collect(), ..change("src/a.md") };
    let changes = vec![change("src/b.md"), watched, again];
    let plan = |startup_pending, auto_reload| {
        watching(startup_pending)
            .apply_watcher_changes(&changes, &documents, auto_reload, &vec![], &vec![])
            .unwrap()
    };
    assert_eq!(plan(true, true).documents, [Refresh::Mark { document: 2 }]);
    assert_eq!(plan(false, false).documents, [Refresh::Mark { document: 2 }]);
    assert_eq!(plan(false, true).documents, [Refresh::ReloadOrMark { document: 2 }]);
    assert!(!plan(false, true).refresh_tree && !plan(false, true).refresh_harness);
}

#[test]
fn documents_are_watched_where_they_are_and_where_links_lead() {
    let sources = vec![
        SourceDirectories { named: Some(3), resolved: Some(3) },
        SourceDirectories { named: Some(3), resolved: Some(9) },
        SourceDirectories { named: Some(5), resolved: None },
        SourceDirectories { named: None, resolved: None },
    ];
    let directories: Vec<u64> = document_directories(&sources).into_iter().collect();
    assert_eq!(directories, [3, 5, 9]);
    assert!(document_directories(&Vec::new()).is_empty());
}

#[test]
fn nothing_changed_means_nothing_to_do() {
    let workspace = watching(false);
    assert!(workspace
        .apply_watcher_changes(&vec![], &vec![1], true, &vec![], &vec![])
        .is_none());
}

#[test]
fn unrelated_tree_changes_do_not_rescan_harness() {
    let workspace = watching(false);
    let skills = vec!["skills".to_string()];
    let plan = |change| {
        let plan = workspace
            .apply_watcher_changes(&vec![change], &vec![], true, &skills, &vec![])
            .unwrap();
        (plan.refresh_tree, plan.refresh_harness)
    };
    assert_eq!(plan(change("src/a.rs")), (false, false));
    assert_eq!(plan(Change { affects_tree: true, ..change("src/a.rs") }), (true, false));
    assert_eq!(
        plan(Change { affects_tree: true, in_root: false, ..change("/other/a.rs") }),
        (false, false)
    );
    assert_eq!(plan(change("skills/review/SKILL.md")), (false, true));
    assert_eq!(
        plan(Change { affects_tree: true, over_artifact: true, ..change("old") }),
        (true, true)
    );
    let closed = Workspace::new(None, false).0;
    let everything = Change { affects_tree: true, over_artifact: true, ..change("skills") };
    let plan = closed
        .apply_watcher_changes(&vec![everything], &vec![], true, &skills, &vec![])
        .unwrap();
    assert!(!plan.refresh_tree && !plan.refresh_harness);
}

fn tab<'a>() -> TabFacts<'a> {
    TabFacts {
        title: "a-very-long-document-name-indeed.mdx",
        path: Some("C:\\docs\\a.mdx"),
        relative: Some("a.mdx"),
        dirty: false,
        externally_changed: false,
        is_preview: true,
    }
}

#[test]
fn tab_affordances_cover_the_tab() {
    let model = tab_model(&tab(), 3, true, false, "Unsaved");
    assert_eq!(model.label, "a-very-long-docum….mdx");
    assert_eq!(model.aria_label, model.label);
    assert_eq!(model.icon, None);
    assert!(model.italic);
    assert_eq!((model.suffix, model.suffix_id.as_str()), (TabSuffix::CloseButton, "close-3"));
    assert_eq!(model.suffix_accessibility_id, Some("markturbo-document-tab-close"));
    let affordances = model.affordances.unwrap();
    assert_eq!(affordances.id, "tab-affordances-3");
    assert_eq!(affordances.tooltip, "C:/docs/a.mdx");
    assert!(affordances.copies_relative_path);
    let memory = TabFacts { path: None, relative: None, ..tab() };
    assert!(tab_model(&memory, 3, true, false, "Unsaved").affordances.is_none());
}

#[test]
fn a_dirty_tab_says_so_even_where_its_name_is_elided() {
    let dirty = TabFacts { dirty: true, externally_changed: true, relative: None, ..tab() };
    let model = tab_model(&dirty, 12, false, false, "Unsaved");
    assert_eq!(model.aria_label, "a-very-long-docum….mdx, Unsaved");
    assert_eq!((model.suffix, model.suffix_id.as_str()), (TabSuffix::DirtyDot, "dirty-12"));
    assert_eq!(model.icon, Some(IconName::TriangleAlert));
    assert_eq!(model.suffix_accessibility_id, None);
    assert!(model.suffix_tooltip);
    assert!(!model.affordances.unwrap().copies_relative_path);
}

#[test]
fn an_embedded_browser_moves_the_menu_into_the_title_row() {
    let model = tab_model(&TabFacts { dirty: true, ..tab() }, 0, true, true, "Unsaved");
    assert!(model.affordances.is_none() && !model.suffix_tooltip);
    assert_eq!(
        web_path_controls(true, true, false),
        Some(WebPathControls { copies_relative_path: false })
    );
    assert_eq!(web_path_controls(false, true, true), None);
    assert_eq!(web_path_controls(true, false, true), None);
    assert_eq!(empty_title(), "markturbo");
    let memory = TabFacts { path: None, relative: None, ..tab() };
    let model = tab_model(&memory, 0, true, false, "Unsaved");
    assert!(model.affordances.is_none() && !model.italic);
}

#[test]
fn details_locate_a_document() {
    let shown = document_details("Details", "a.md", None, None, false, true);
    assert_eq!(shown.accessibility_label, "Details: a.md");
    assert_eq!(shown.location, "Unsaved document");
    assert_eq!(shown.status, Key::UnsavedChanges);
    let shown = document_details("Details", "a.md", Some("/x/docs/a.md"), Some("docs/a.md"), true, true);
    assert_eq!((shown.location.as_str(), shown.status), ("docs/a.md", Key::ChangedOnDisk));
    let shown = document_details("Details", "a.md", Some("C:\\x\\a.md"), None, false, false);
    assert_eq!((shown.location.as_str(), shown.status), ("C:/x/a.md", Key::Saved));
    assert_eq!(detail_label("Kind", "Markdown"), "Kind: Markdown");
}

#[test]
fn panels_explain_themselves_when_empty() {
    assert_eq!(outline_hint(false, false), Some(Key::OpenDocumentForOutline));
    assert_eq!(outline_hint(true, true), Some(Key::NoHeadings));
    assert_eq!(outline_hint(true, false), None);
    assert_eq!((outline_indent(0), outline_indent(1), outline_indent(4)), (0, 0, 3));
    assert_ne!(
        side_panel_content(SidePanel::Files, false),
        side_panel_content(SidePanel::Files, true)
    );
    assert_eq!(
        side_panel_content(SidePanel::Search, false),
        side_panel_content(SidePanel::Search, true)
    );
}

#[test]
fn dividers_move_with_the_arrow_keys() {
    let left = WorkspaceResizeEdge::Left;
    let right = WorkspaceResizeEdge::Right;
    assert_eq!(left.handle_id(), "left-panel-resize-handle");
    assert_eq!(right.group_id(), "right-panel-resize-group");
    assert_eq!(left.label(), Key::SidePanelWidth);
    assert_eq!(left.key_step("right"), right.key_step("left"));
    assert_eq!(left.key_step("left"), right.key_step("right"));
    assert_ne!(left.key_step("left"), left.key_step("right"));
    assert_eq!(left.key_step("up"), None);
}

#[test]
fn windows_exposes_panel_resize_as_a_writable_range_control() {
    assert_eq!(resize_role(true), ResizeRole::Slider);
    assert_eq!(resize_role(false), ResizeRole::Splitter);
}

#[test]
fn a_setting_reaches_what_it_concerns() {
    let repainting = [Effect::ApplyTheme, Effect::RepaintDocuments, Effect::RefreshWeb];
    assert_eq!(settings_changed(SettingsEvent::ThemeChanged, true), repainting);
    assert_eq!(settings_changed(SettingsEvent::LanguageChanged, true), [Effect::RedrawViews]);
    assert_eq!(settings_changed(SettingsEvent::SkillScopeChanged, true), [Effect::RescanHarness]);
    assert!(settings_changed(SettingsEvent::SkillScopeChanged, false).is_empty());
    assert_eq!(appearance_changed(true), repainting);
    assert!(appearance_changed(false).is_empty());
}
