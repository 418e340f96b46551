//! The window's smaller commands: panels, the clipboard, dropped files, and
//! jumps inside documents.

use crate::chrome::{join_names, listed, ChromeState};
use crate::effect::{report, Effect, Notice, PathId};
use crate::panels::SidePanel;
use crate::scope::DocumentId;
use crate::text::{append, chars_of, slashed, text_of, with_slashes};
use crate::workspace::Workspace;
use vstd::prelude::*;

verus! {

/// What a copy command does.
pub enum CopyStep {
    /// No tab to copy from.
    Ignored,
    /// Put the text on the clipboard, and say so.
    Copy { text: String },
    /// There is nothing to copy, for the reason given.
    Refused { notice: Notice },
}

/// The document in the active tab.
#[derive(Clone, Copy, Debug, PartialEq, Eq, Structural)]
pub struct ActiveDocument {
    pub document: DocumentId,
    pub path: Option<PathId>,
}

/// Something dropped onto the window.
#[derive(Clone, Copy, Debug, PartialEq, Eq, Structural)]
pub struct Dropped {
    pub is_dir: bool,
    /// The document pipeline can show files of this kind.
    pub openable: bool,
}

/// What is done about a drop. Positions are those in the list of what was
/// dropped.
pub struct DropPlan {
    /// Open these, in order.
    pub open: Vec<usize>,
    /// These cannot be shown.
    pub skipped: Vec<usize>,
}

/// How many of `dropped` are looked at: those up to the first folder, which
/// becomes the workspace.
pub open spec fn considered(dropped: Seq<Dropped>) -> nat
    decreases dropped.len(),
{
    if dropped.len() == 0 {
        0
    } else if dropped[0].is_dir {
        1
    } else {
        1 + considered(dropped.skip(1))
    }
}

/// Whether something dropped is opened, if it is looked at.
pub open spec fn is_opened(dropped: Dropped) -> bool {
    dropped.is_dir || dropped.openable
}

/// The positions before `end` of what is opened, or else of what is skipped.
pub open spec fn positions(dropped: Seq<Dropped>, end: nat, opened: bool) -> Seq<usize>
    decreases end,
{
    if end == 0 {
        Seq::empty()
    } else {
        let earlier = positions(dropped, (end - 1) as nat, opened);
        if is_opened(dropped[end - 1]) == opened {
            earlier.push((end - 1) as usize)
        } else {
            earlier
        }
    }
}

proof fn lemma_considered(dropped: Seq<Dropped>, end: nat)
    requires
        end <= dropped.len(),
        forall|i: int| 0 <= i < end ==> !(#[trigger] dropped[i]).is_dir,
    ensures
        considered(dropped) == (if end == dropped.len() {
            end
        } else if dropped[end as int].is_dir {
            end + 1
        } else {
            considered(dropped)
        }),
    decreases end,
{
    if end > 0 {
        let rest = dropped.skip(1);
        assert forall|i: int| 0 <= i < end - 1 implies !(#[trigger] rest[i]).is_dir by {
            assert(rest[i] == dropped[i + 1]);
        }
        lemma_considered(rest, (end - 1) as nat);
        assert(end < dropped.len() ==> rest[end - 1] == dropped[end as int]);
        assert(!dropped[0].is_dir);
    }
}

/// Of what a drop gets to, everything is either opened or skipped, and what is
/// skipped is exactly what can be shown neither as a folder nor as a document.
pub proof fn law_no_dropped_item_is_passed_over(dropped: Seq<Dropped>, end: nat, at: usize)
    requires
        end <= dropped.len(),
        dropped.len() <= usize::MAX,
        at < end,
    ensures
        positions(dropped, end, true).contains(at) <==> is_opened(dropped[at as int]),
        positions(dropped, end, false).contains(at) <==> !is_opened(dropped[at as int]),
{
    lemma_positions(dropped, end, true, at);
    lemma_positions(dropped, end, false, at);
}

proof fn lemma_positions(dropped: Seq<Dropped>, end: nat, opened: bool, at: usize)
    requires
        end <= dropped.len(),
        dropped.len() <= usize::MAX,
    ensures
        positions(dropped, end, opened).contains(at) <==> at < end && is_opened(
            dropped[at as int],
        ) == opened,
    decreases end,
{
    if end == 0 {
        assert(!positions(dropped, end, opened).contains(at));
    } else {
        let earlier = positions(dropped, (end - 1) as nat, opened);
        lemma_positions(dropped, (end - 1) as nat, opened, at);
        crate::scope::lemma_push_contains(earlier, (end - 1) as usize);
    }
}

/// What is done about a drop: files open one by one, and the first folder ends
/// it.
pub fn plan_drop(dropped: &Vec<Dropped>) -> (plan: DropPlan)
    ensures
        plan.open@ == positions(dropped@, considered(dropped@), true),
        plan.skipped@ == positions(dropped@, considered(dropped@), false),
{
    let mut plan = DropPlan { open: Vec::new(), skipped: Vec::new() };
    let mut i: usize = 0;
    while i < dropped.len()
        invariant
            i <= dropped.len(),
            forall|j: int| 0 <= j < i ==> !(#[trigger] dropped@[j]).is_dir,
            plan.open@ == positions(dropped@, i as nat, true),
            plan.skipped@ == positions(dropped@, i as nat, false),
        decreases dropped.len() - i,
    {
        let item: Dropped = dropped[i];
        if item.is_dir || item.openable {
            plan.open.push(i);
        } else {
            plan.skipped.push(i);
        }
        if item.is_dir {
            proof {
                lemma_considered(dropped@, i as nat);
            }
            return plan;
        }
        i = i + 1;
    }
    proof {
        lemma_considered(dropped@, dropped@.len());
    }
    plan
}

/// The line about what was dropped and cannot be shown. Nothing is passed over
/// in silence, whatever else the drop has opened.
pub fn drop_report(skipped: &Vec<String>) -> (line: Option<String>)
    ensures
        line is Some <==> skipped@.len() > 0,
        line matches Some(line) ==> line@ == "Cannot open "@ + listed(skipped@),
{
    if skipped.len() == 0 {
        return None;
    }
    let names = join_names(skipped);
    let mut line: String = String::new();
    append(&mut line, "Cannot open ");
    append(&mut line, names.as_str());
    assert(line@ =~= "Cannot open "@ + listed(skipped@));
    Some(line)
}

/// A path as it is shown and copied: with forward slashes.
pub fn shown_path(path: &str) -> (text: String)
    ensures
        text@ == with_slashes(path@),
{
    text_of(&slashed(&chars_of(path)))
}

/// Copy the path of the tab that a menu belongs to, or else of the active tab.
pub fn copy_path(path: Option<&str>) -> (step: CopyStep)
    ensures
        match path {
            None => step is Ignored,
            Some(path) => step matches CopyStep::Copy { text } && text@ == with_slashes(path@),
        },
{
    match path {
        None => CopyStep::Ignored,
        Some(path) => CopyStep::Copy { text: shown_path(path) },
    }
}

/// Copy the path of a tab, relative to the folder that is open. `relative` is
/// what is left of the path below that folder. Nothing is copied in place of a
/// path that does not exist: that would look like the other command.
pub fn copy_relative_path(has_path: bool, root_open: bool, relative: Option<&str>) -> (step:
    CopyStep)
    ensures
        if !has_path {
            step is Ignored
        } else if !root_open {
            step == (CopyStep::Refused { notice: Notice::NoFolderIsOpen })
        } else {
            match relative {
                None => step == (CopyStep::Refused { notice: Notice::OutsideTheOpenFolder }),
                Some(relative) => step matches CopyStep::Copy { text } && text@ == with_slashes(
                    relative@,
                ),
            }
        },
{
    if !has_path {
        return CopyStep::Ignored;
    }
    if !root_open {
        return CopyStep::Refused { notice: Notice::NoFolderIsOpen };
    }
    match relative {
        None => CopyStep::Refused { notice: Notice::OutsideTheOpenFolder },
        Some(relative) => CopyStep::Copy { text: shown_path(relative) },
    }
}

/// The clipboard holds no text to start a document with.
pub fn paste_unavailable() -> (effects: Vec<Effect>)
    ensures
        effects@ == seq![Effect::Report { notice: Notice::ClipboardTextUnavailable }],
{
    report(Notice::ClipboardTextUnavailable)
}

/// Move the active document's cursor. The outline and the search results land
/// here, and both are jumps that Back is expected to undo.
pub fn reveal_offset(active: Option<ActiveDocument>, offset: u64) -> (effects: Vec<Effect>)
    ensures
        effects@ == (match active {
            None => Seq::empty(),
            Some(active) => (match active.path {
                Some(path) => seq![Effect::RecordVisit { path, offset }],
                None => Seq::empty(),
            }).push(Effect::RevealOffset { document: active.document, offset }),
        }),
{
    let mut effects: Vec<Effect> = Vec::new();
    match active {
        Some(active) => {
            match active.path {
                Some(path) => {
                    effects.push(Effect::RecordVisit { path, offset });
                    assert(effects@ =~= seq![Effect::RecordVisit { path, offset }]);
                },
                None => {},
            }
            effects.push(Effect::RevealOffset { document: active.document, offset });
        },
        None => {},
    }
    effects
}

/// A file was opened as a preview to show a place in it. If that failed, the
/// cursor of whatever tab is active stays where it is.
pub fn reveal_in(path: PathId, offset: u64, active: Option<ActiveDocument>) -> (effects: Vec<Effect>)
    ensures
        effects@ == (match active {
            Some(active) => if active.path == Some(path) {
                seq![
                    Effect::RecordVisit { path, offset },
                    Effect::RevealOffset { document: active.document, offset },
                ]
            } else {
                Seq::empty()
            },
            None => Seq::empty(),
        }),
{
    let mut effects: Vec<Effect> = Vec::new();
    match active {
        Some(active) => {
            if active.path == Some(path) {
                effects.push(Effect::RecordVisit { path, offset });
                effects.push(Effect::RevealOffset { document: active.document, offset });
                assert(effects@ =~= seq![
                    Effect::RecordVisit { path, offset },
                    Effect::RevealOffset { document: active.document, offset },
                ]);
            }
        },
        None => {},
    }
    effects
}

/// A tab was clicked; `focused` says whether it was there.
pub fn tab_clicked(focused: bool, path: Option<PathId>) -> (effects: Vec<Effect>)
    ensures
        effects@ == (match path {
            Some(path) => if focused {
                seq![Effect::RecordVisit { path, offset: 0 }]
            } else {
                Seq::empty()
            },
            None => Seq::empty(),
        }).push(Effect::RefreshWeb),
{
    let mut effects: Vec<Effect> = Vec::new();
    match path {
        Some(path) => {
            if focused {
                effects.push(Effect::RecordVisit { path, offset: 0 });
                assert(effects@ =~= seq![Effect::RecordVisit { path, offset: 0 }]);
            }
        },
        None => {},
    }
    effects.push(Effect::RefreshWeb);
    effects
}

fn refresh_web() -> (effects: Vec<Effect>)
    ensures
        effects@ == seq![Effect::RefreshWeb],
{
    let mut effects: Vec<Effect> = Vec::new();
    effects.push(Effect::RefreshWeb);
    assert(effects@ =~= seq![Effect::RefreshWeb]);
    effects
}

impl Workspace {
    /// Whether nothing but the chrome has changed since `before`.
    pub open spec fn same_but_chrome(&self, before: &Workspace) -> bool {
        &&& self.lifecycle == before.lifecycle
        &&& self.root == before.root
        &&& self.preview == before.preview
        &&& self.status == before.status
    }

    /// Show the settings, or put them away.
    pub fn toggle_settings(&mut self) -> (effects: Vec<Effect>)
        ensures
            final(self).same_but_chrome(old(self)),
            final(self).chrome == (ChromeState {
                settings_open: !old(self).chrome.settings_open,
                ..old(self).chrome
            }),
            effects@ == seq![Effect::RefreshWeb],
    {
        self.chrome.settings_open = !self.chrome.settings_open;
        refresh_web()
    }

    /// Show the left panel, or put it away. The welcome surface has no panels.
    pub fn toggle_left_panel(&mut self) -> (effects: Vec<Effect>)
        ensures
            final(self).same_but_chrome(old(self)),
            old(self).chrome.show_welcome ==> final(self).chrome == old(self).chrome
                && effects@.len() == 0,
            !old(self).chrome.show_welcome ==> {
                &&& final(self).chrome == (ChromeState {
                    left_panel_open: !old(self).chrome.left_panel_open,
                    ..old(self).chrome
                })
                &&& effects@ == seq![Effect::RefreshWeb]
            },
    {
        if self.chrome.show_welcome {
            return Vec::new();
        }
        self.chrome.left_panel_open = !self.chrome.left_panel_open;
        refresh_web()
    }

    /// Show the right panel, or put it away. The welcome surface has no panels.
    pub fn toggle_right_panel(&mut self) -> (effects: Vec<Effect>)
        ensures
            final(self).same_but_chrome(old(self)),
            old(self).chrome.show_welcome ==> final(self).chrome == old(self).chrome
                && effects@.len() == 0,
            !old(self).chrome.show_welcome ==> {
                &&& final(self).chrome == (ChromeState {
                    right_panel_open: !old(self).chrome.right_panel_open,
                    ..old(self).chrome
                })
                &&& effects@ == seq![Effect::RefreshWeb]
            },
    {
        if self.chrome.show_welcome {
            return Vec::new();
        }
        self.chrome.right_panel_open = !self.chrome.right_panel_open;
        refresh_web()
    }

    /// Show another section of the left panel.
    pub fn select_side_panel(&mut self, panel: SidePanel)
        ensures
            final(self).same_but_chrome(old(self)),
            final(self).chrome == (ChromeState { side_panel: panel, ..old(self).chrome }),
    {
        self.chrome.side_panel = panel;
    }

    /// Show the search section and put the caret into its field.
    pub fn focus_search(&mut self) -> (effects: Vec<Effect>)
        ensures
            final(self).same_but_chrome(old(self)),
            final(self).chrome == (ChromeState {
                side_panel: SidePanel::Search,
                left_panel_open: true,
                ..old(self).chrome
            }),
            effects@ == seq![Effect::FocusSearch, Effect::RefreshWeb],
    {
        self.chrome.side_panel = SidePanel::Search;
        self.chrome.left_panel_open = true;
        let mut effects: Vec<Effect> = Vec::new();
        effects.push(Effect::FocusSearch);
        effects.push(Effect::RefreshWeb);
        assert(effects@ =~= seq![Effect::FocusSearch, Effect::RefreshWeb]);
        effects
    }
}

/// A drop is looked at up to its first folder, and to its end if there is none.
pub proof fn law_a_drop_goes_up_to_its_first_folder(dropped: Seq<Dropped>)
    ensures
        considered(dropped) <= dropped.len(),
        dropped.len() > 0 ==> considered(dropped) > 0,
        forall|i: int| 0 <= i < considered(dropped) - 1 ==> !(#[trigger] dropped[i]).is_dir,
        considered(dropped) < dropped.len() ==> dropped[considered(dropped) - 1].is_dir,
    decreases dropped.len(),
{
    if dropped.len() > 0 && !dropped[0].is_dir {
        let rest = dropped.skip(1);
        law_a_drop_goes_up_to_its_first_folder(rest);
        assert forall|i: int|
            0 <= i < considered(dropped) - 1 implies !(#[trigger] dropped[i]).is_dir by {
            if i > 0 {
                assert(dropped[i] == rest[i - 1]);
            }
        }
        if considered(dropped) < dropped.len() {
            assert(dropped[considered(dropped) - 1] == rest[considered(rest) - 1]);
        }
    }
}

/// What was dropped is opened, or reported, in the order in which it was
/// dropped, and once.
pub proof fn law_dropped_items_keep_their_order(dropped: Seq<Dropped>, end: nat, opened: bool)
    requires
        end <= dropped.len(),
        dropped.len() <= usize::MAX,
    ensures
        forall|i: int, j: int|
            0 <= i < j < positions(dropped, end, opened).len() ==> (#[trigger] positions(
                dropped,
                end,
                opened,
            )[i]) < (#[trigger] positions(dropped, end, opened)[j]),
        forall|i: int|
            0 <= i < positions(dropped, end, opened).len() ==> (#[trigger] positions(
                dropped,
                end,
                opened,
            )[i]) < end,
    decreases end,
{
    if end > 0 {
        law_dropped_items_keep_their_order(dropped, (end - 1) as nat, opened);
        let earlier = positions(dropped, (end - 1) as nat, opened);
        let all = positions(dropped, end, opened);
        assert forall|i: int| 0 <= i < earlier.len() implies #[trigger] all[i] == earlier[i] by {}
    }
}

/// A folder, or a file that the document pipeline can show, is opened; anything
/// else is reported.
pub proof fn law_what_can_be_shown_is_opened(dropped: Seq<Dropped>, end: nat, at: usize)
    requires
        end <= dropped.len(),
        dropped.len() <= usize::MAX,
        at < end,
    ensures
        positions(dropped, end, true).contains(at) <==> dropped[at as int].is_dir
            || dropped[at as int].openable,
        positions(dropped, end, false).contains(at) <==> !dropped[at as int].is_dir
            && !dropped[at as int].openable,
{
    law_no_dropped_item_is_passed_over(dropped, end, at);
}

} // verus!
