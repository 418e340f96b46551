//! How tabs and document details are drawn.

use crate::commands::shown_path;
use crate::labels::{elide_tab_label, tab_label};
use crate::panels::document_details_status_key;
use crate::text::{append, append_number, decimal, with_slashes};
use crate::words::{IconName, Key};
use vstd::prelude::*;

verus! {

/// What stands in place of a path that a document does not have.
pub const UNSAVED_DOCUMENT: &'static str = "Unsaved document";

/// The identity of the one tab's close control to assistive technology.
pub const TAB_CLOSE_ACCESSIBILITY_ID: &'static str = "markturbo-document-tab-close";

/// What a tab shows.
pub struct TabFacts<'a> {
    pub title: &'a str,
    pub path: Option<&'a str>,
    /// What is left of the path below the folder that is open.
    pub relative: Option<&'a str>,
    pub dirty: bool,
    pub externally_changed: bool,
    pub is_preview: bool,
}

/// The control at the end of a tab.
#[derive(Clone, Copy, Debug, PartialEq, Eq, Structural)]
pub enum TabSuffix {
    /// A dot that closes the tab. Unsaved work shows it where the close button
    /// would be, since a long name may be elided.
    DirtyDot,
    CloseButton,
}

/// A tab, as it is drawn.
pub struct TabModel {
    pub label: String,
    /// The tab to assistive technology.
    pub aria_label: String,
    pub icon: Option<IconName>,
    /// The popup and the menu of a tab that has a path. Over an embedded
    /// browser they would be covered by it.
    pub affordances: Option<TabAffordances>,
    /// The next preview replaces it, which its look has to say.
    pub italic: bool,
    pub suffix: TabSuffix,
    pub suffix_id: String,
    pub suffix_accessibility_id: Option<&'static str>,
    /// The dot explains itself in a popup.
    pub suffix_tooltip: bool,
}

/// The popup and the menu of a tab.
pub struct TabAffordances {
    pub id: String,
    pub tooltip: String,
    pub copies_relative_path: bool,
}

/// A tab to assistive technology: its label, and whether it is unsaved.
pub open spec fn spoken_label(label: Seq<char>, dirty: bool, unsaved: Seq<char>) -> Seq<char> {
    if dirty {
        label + ", "@ + unsaved
    } else {
        label
    }
}

fn numbered(prefix: &str, at: u64) -> (id: String)
    ensures
        id@ == prefix@ + decimal(at as nat),
{
    let mut id: String = String::new();
    append(&mut id, prefix);
    append_number(&mut id, at);
    assert(id@ =~= prefix@ + decimal(at as nat));
    id
}

/// A tab, as it is drawn. `at` is its position, `only` says that it is the one
/// tab and active, and `unsaved` is the word for unsaved changes.
pub fn tab_model(facts: &TabFacts, at: u64, only: bool, web_active: bool, unsaved: &str) -> (model:
    TabModel)
    ensures
        model.label@ == tab_label(facts.title@),
        model.aria_label@ == spoken_label(tab_label(facts.title@), facts.dirty, unsaved@),
        model.icon == (if facts.externally_changed {
            Some(IconName::TriangleAlert)
        } else {
            None
        }),
        model.affordances is Some <==> !web_active && facts.path is Some,
        model.affordances matches Some(affordances) ==> {
            &&& affordances.id@ == "tab-affordances-"@ + decimal(at as nat)
            &&& affordances.tooltip@ == with_slashes(facts.path->0@)
            &&& affordances.copies_relative_path == facts.relative is Some
        },
        model.italic == (facts.path is Some && facts.is_preview),
        model.suffix == (if facts.dirty {
            TabSuffix::DirtyDot
        } else {
            TabSuffix::CloseButton
        }),
        model.suffix_id@ == (if facts.dirty {
            "dirty-"@
        } else {
            "close-"@
        }) + decimal(at as nat),
        model.suffix_accessibility_id is Some <==> only,
        model.suffix_accessibility_id matches Some(id) ==> id@ == TAB_CLOSE_ACCESSIBILITY_ID@,
        model.suffix_tooltip == (facts.dirty && !web_active),
{
    let label = elide_tab_label(facts.title);
    let mut aria_label: String = String::new();
    append(&mut aria_label, label.as_str());
    assert(aria_label@ =~= tab_label(facts.title@));
    if facts.dirty {
        append(&mut aria_label, ", ");
        append(&mut aria_label, unsaved);
    }
    let affordances = match facts.path {
        Some(path) => if web_active {
            None
        } else {
            Some(
                TabAffordances {
                    id: numbered("tab-affordances-", at),
                    tooltip: shown_path(path),
                    copies_relative_path: facts.relative.is_some(),
                },
            )
        },
        None => None,
    };
    let prefix = if facts.dirty {
        "dirty-"
    } else {
        "close-"
    };
    TabModel {
        label,
        aria_label,
        icon: if facts.externally_changed {
            Some(IconName::TriangleAlert)
        } else {
            None
        },
        affordances,
        italic: facts.path.is_some() && facts.is_preview,
        suffix: if facts.dirty {
            TabSuffix::DirtyDot
        } else {
            TabSuffix::CloseButton
        },
        suffix_id: numbered(prefix, at),
        suffix_accessibility_id: if only {
            Some(TAB_CLOSE_ACCESSIBILITY_ID)
        } else {
            None
        },
        suffix_tooltip: facts.dirty && !web_active,
    }
}

/// What the title row says in place of tabs.
pub fn empty_title() -> (title: &'static str)
    ensures
        title@ == "markturbo"@,
{
    "markturbo"
}

/// The path commands that stand in the title row while an embedded browser
/// covers the menus.
#[derive(Clone, Copy, Debug, PartialEq, Eq, Structural)]
pub struct WebPathControls {
    pub copies_relative_path: bool,
}

/// The path commands beside the tabs: only over an embedded browser, and only
/// for a document that has a path.
pub fn web_path_controls(web_active: bool, has_path: bool, has_relative: bool) -> (controls: Option<
    WebPathControls,
>)
    ensures
        controls == (if web_active && has_path {
            Some(WebPathControls { copies_relative_path: has_relative })
        } else {
            None
        }),
{
    if web_active && has_path {
        Some(WebPathControls { copies_relative_path: has_relative })
    } else {
        None
    }
}

/// The details of a document.
pub struct DocumentDetails {
    pub accessibility_label: String,
    pub location: String,
    pub status: Key,
}

/// The details of a document. `details` is the word for details; `relative` is
/// how the document's path is shown below the folder that is open.
pub fn document_details(
    details: &str,
    title: &str,
    path: Option<&str>,
    relative: Option<&str>,
    externally_changed: bool,
    dirty: bool,
) -> (shown: DocumentDetails)
    ensures
        shown.accessibility_label@ == details@ + ": "@ + title@,
        shown.location@ == (match path {
            None => UNSAVED_DOCUMENT@,
            Some(path) => match relative {
                Some(relative) => relative@,
                None => with_slashes(path@),
            },
        }),
        shown.status == (if externally_changed {
            Key::ChangedOnDisk
        } else if dirty {
            Key::UnsavedChanges
        } else {
            Key::Saved
        }),
{
    let mut location: String = String::new();
    match path {
        None => {
            append(&mut location, UNSAVED_DOCUMENT);
            assert(location@ =~= UNSAVED_DOCUMENT@);
        },
        Some(path) => match relative {
            Some(relative) => {
                append(&mut location, relative);
                assert(location@ =~= relative@);
            },
            None => {
                location = shown_path(path);
            },
        },
    }
    DocumentDetails {
        accessibility_label: detail_label(details, title),
        location,
        status: document_details_status_key(externally_changed, dirty),
    }
}

/// A line of the details to assistive technology.
pub fn detail_label(name: &str, value: &str) -> (label: String)
    ensures
        label@ == name@ + ": "@ + value@,
{
    let mut label: String = String::new();
    append(&mut label, name);
    append(&mut label, ": ");
    append(&mut label, value);
    assert(label@ =~= name@ + ": "@ + value@);
    label
}

/// Assistive technology hears a tab's label, and of unsaved changes exactly
/// where there are some.
pub proof fn law_unsaved_changes_are_spoken(label: Seq<char>, dirty: bool, unsaved: Seq<char>)
    ensures
        label.is_prefix_of(spoken_label(label, dirty, unsaved)),
        dirty ==> spoken_label(label, dirty, unsaved).skip(
            spoken_label(label, dirty, unsaved).len() - unsaved.len(),
        ) == unsaved && spoken_label(label, dirty, unsaved).len() > label.len() + unsaved.len(),
        !dirty ==> spoken_label(label, dirty, unsaved) == label,
{
    reveal_strlit(", ");
    let spoken = spoken_label(label, dirty, unsaved);
    assert(spoken.take(label.len() as int) =~= label);
    if dirty {
        assert(spoken.skip(spoken.len() - unsaved.len()) =~= unsaved);
    }
}

} // verus!
