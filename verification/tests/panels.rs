use markturbo::panels::{
    details_content, document_details_status_key, drag_is_grabbed, DetailsContent, SidePanel,
    WorkspaceResizeEdge,
};
use markturbo::words::{IconName, Key};

#[test]
fn details_content_follows_the_visible_context() {
    assert_eq!(details_content(SidePanel::Files, false, false, false), DetailsContent::Empty);
    assert_eq!(details_content(SidePanel::Files, false, true, false), DetailsContent::Document);
    assert_eq!(details_content(SidePanel::Harness, false, true, true), DetailsContent::Harness);
    assert_eq!(details_content(SidePanel::Files, false, true, true), DetailsContent::Document);
    assert_eq!(details_content(SidePanel::Harness, false, false, true), DetailsContent::Harness);
    assert_eq!(details_content(SidePanel::Harness, true, true, true), DetailsContent::Empty);
}

#[test]
fn document_details_status_prioritizes_external_changes() {
    assert_eq!(
        document_details_status_key(false, false),
        Key::Saved,
        "a clean document whose file matches disk is saved"
    );
    assert_eq!(
        document_details_status_key(false, true),
        Key::UnsavedChanges,
        "local edits are unsaved when no external change exists"
    );
    assert_eq!(
        document_details_status_key(true, false),
        Key::ChangedOnDisk,
        "an external change is not saved even without local edits"
    );
    assert_eq!(
        document_details_status_key(true, true),
        Key::ChangedOnDisk,
        "an external conflict takes precedence over local unsaved edits"
    );
}

#[test]
fn side_panels_have_stable_names() {
    let ids: Vec<&str> = SidePanel::all().iter().map(|panel| panel.id()).collect();
    assert_eq!(
        ids,
        ["side-panel-files", "side-panel-search", "side-panel-harness", "side-panel-outline"]
    );
    assert_eq!(SidePanel::Files.label(), Key::PanelFiles);
    assert_eq!(SidePanel::Harness.icon(), IconName::Bot);
    assert_eq!(SidePanel::Outline.icon(), IconName::BookOpen);
}

#[test]
fn a_drag_belongs_to_the_divider_it_began_at() {
    let left = WorkspaceResizeEdge::Left;
    let right = WorkspaceResizeEdge::Right;
    assert!(drag_is_grabbed(Some(left), left));
    assert!(!drag_is_grabbed(Some(left), right));
    assert!(!drag_is_grabbed(None, left));
    assert!(left.opposite_visible(false, true) && !right.opposite_visible(false, true));
}
