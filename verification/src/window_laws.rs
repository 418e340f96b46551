//! What opening and closing promise, whatever the window holds.

use crate::checkpoint::DocumentFacts;
use crate::document_laws::law_a_closed_tab_leaves_nothing_behind;
use crate::documents::tab_closing;
use crate::effect::{DestructiveAction, Effect, Notice, PathId};
use crate::laws::{law_only_the_preview_gives_way, law_replacing_releases_every_document};
use crate::protection::{entry, retiring_effects, States};
use crate::recovery_laws::law_the_last_decision_retires_the_record;
use crate::requests::{group_requests, lemma_times_contains, times};
use crate::scope::DocumentId;
use crate::workspace::{
    all_closing, all_vacated, asked, file_opening, first_tab_of, folder_effects, performed,
    preview_replaced, shows, with_folder, FolderFacts, OpenStep, OpenTab, Workspace,
};
use vstd::prelude::*;

verus! {

broadcast use group_requests;

/// A folder that is there becomes the root, takes the place of the welcome
/// surface, and gets its panels, its watcher and a fresh search; nothing else
/// about the window changes. Anything else changes nothing, and is reported.
pub proof fn law_a_folder_becomes_the_root(before: Workspace, folder: FolderFacts)
    ensures
        ({
            let after = with_folder(before, folder);
            let effects = folder_effects(folder);
            &&& folder.is_dir ==> {
                &&& after.root == Some(folder.path)
                &&& !after.chrome.show_welcome
                &&& times(effects, Effect::OpenPanels { path: folder.path }) == 1
                &&& effects.contains(Effect::SyncDocumentWatches)
                &&& effects.contains(Effect::RerunSearch)
            }
            &&& !folder.is_dir ==> {
                &&& after == before
                &&& times(
                    effects,
                    Effect::Report { notice: Notice::NotADirectory { path: folder.path } },
                ) == 1
                &&& effects.len() == 1
            }
            &&& after.lifecycle == before.lifecycle
            &&& after.preview == before.preview
            &&& after.status == before.status
            &&& after.chrome.settings_open == before.chrome.settings_open
            &&& after.chrome.left_panel_open == before.chrome.left_panel_open
            &&& after.chrome.right_panel_open == before.chrome.right_panel_open
            &&& after.chrome.translating == before.chrome.translating
            &&& after.chrome.side_panel == before.chrome.side_panel
            &&& forall|effect: Effect| #[trigger]
                effects.contains(effect) ==> effect is OpenPanels || effect is SyncDocumentWatches
                    || effect is RerunSearch || effect is Report
        }),
{
    let effects = folder_effects(folder);
    if folder.is_dir {
        assert(effects =~= seq![Effect::OpenPanels { path: folder.path }].push(
            Effect::SyncDocumentWatches,
        ).push(Effect::RerunSearch));
    }
}

/// A file whose tab is there is brought to the front and visited, and settings
/// that cover it make way; a file without a tab is loaded. Nothing else about
/// the window changes.
pub proof fn law_opening_a_file_shows_it(
    before: &Workspace,
    after: &Workspace,
    path: PathId,
    preview: bool,
    open: bool,
    outgoing: Option<DocumentFacts>,
    step: OpenStep,
)
    requires
        file_opening(before, after, path, preview, open, outgoing, step),
    ensures
        open ==> step is Opened && asked(step).contains(Effect::FocusTab { path })
            && asked(step).contains(Effect::RecordVisit { path, offset: 0 })
            && asked(step).contains(Effect::RefreshWeb),
        !open && before.preview != Some(path) ==> step is Load,
        !open && before.preview == Some(path) ==> step is Opened && asked(step).len() == 0,
        forall|other: PathId| #[trigger]
            asked(step).contains(Effect::FocusTab { path: other }) ==> open && other == path,
        open && before.preview != Some(path) ==> !after.chrome.settings_open,
        !open ==> after.chrome == before.chrome,
        after.chrome.show_welcome == before.chrome.show_welcome,
        after.chrome.left_panel_open == before.chrome.left_panel_open,
        after.chrome.right_panel_open == before.chrome.right_panel_open,
        after.chrome.side_panel == before.chrome.side_panel,
        after.chrome.translating == before.chrome.translating,
        after.root == before.root,
        after.status == before.status,
        after.lifecycle.retirements == before.lifecycle.retirements,
        after.lifecycle.interlock == before.lifecycle.interlock,
{
    if before.preview != Some(path) && preview && before.preview is Some {
        let closing = choose|closing: Seq<Effect>|
            #![trigger shows(step, path, open, closing)]
            preview_replaced(
                &before.lifecycle,
                &after.lifecycle,
                before.preview->0,
                outgoing,
                closing,
            ) && shows(step, path, open, closing);
        assert forall|other: PathId| !(#[trigger] closing.contains(
            Effect::FocusTab { path: other },
        )) by {
            if let Some(facts) = outgoing {
                if !before.lifecycle.keeps_preview(facts) {
                    let held = entry(before.lifecycle.checkpoints.states@, facts.id);
                    law_the_last_decision_retires_the_record(held, facts.id, None, 0, None, 0);
                    assert(!retiring_effects(held, facts.id, None).contains(
                        Effect::FocusTab { path: other },
                    ));
                }
            }
        }
    }
}

/// A preview whose document has nothing to lose gives way to the next preview:
/// its tab is closed, once, and its document is released. A preview that is
/// kept, and whatever is opened for good, closes nothing.
pub proof fn law_a_preview_gives_way_to_the_next(
    before: &Workspace,
    after: &Workspace,
    path: PathId,
    preview: bool,
    open: bool,
    outgoing: Option<DocumentFacts>,
    step: OpenStep,
)
    requires
        file_opening(before, after, path, preview, open, outgoing, step),
    ensures
        ({
            let replaced = preview && before.preview is Some && before.preview != Some(path) && (
            outgoing matches Some(facts) && !before.lifecycle.keeps_preview(facts));
            &&& replaced ==> {
                &&& asked(step).contains(Effect::CloseTab { document: outgoing->0.id })
                &&& asked(step).contains(Effect::ForgetVisits { path: before.preview->0 })
                &&& !after.lifecycle.checkpoints.states@.contains_key(outgoing->0.id)
            }
            &&& !replaced ==> after.lifecycle == before.lifecycle
            &&& forall|document: DocumentId| #[trigger]
                asked(step).contains(Effect::CloseTab { document }) ==> replaced && document
                    == outgoing->0.id
        }),
        before.preview == Some(path) ==> after.preview == (if preview {
            Some(path)
        } else {
            None
        }),
        before.preview != Some(path) && (preview || open) ==> after.preview is None,
        before.preview != Some(path) && !preview && !open ==> after.preview == before.preview,
{
    assert forall|document: DocumentId| #[trigger]
        asked(step).contains(Effect::CloseTab { document }) implies preview && before.preview
        is Some && before.preview != Some(path) && (outgoing matches Some(facts) && facts.id
        == document && !before.lifecycle.keeps_preview(facts)) by {
        law_only_the_preview_gives_way(
            before,
            after,
            path,
            preview,
            open,
            outgoing,
            step,
            document,
        );
    }
    if before.preview != Some(path) && preview && before.preview is Some {
        let closing = choose|closing: Seq<Effect>|
            #![trigger shows(step, path, open, closing)]
            preview_replaced(
                &before.lifecycle,
                &after.lifecycle,
                before.preview->0,
                outgoing,
                closing,
            ) && shows(step, path, open, closing);
        if let Some(facts) = outgoing {
            if !before.lifecycle.keeps_preview(facts) {
                law_a_closed_tab_leaves_nothing_behind(
                    &before.lifecycle,
                    &after.lifecycle,
                    facts.id,
                    before.preview,
                    closing,
                    facts.id,
                    0,
                    before.preview->0,
                );
                lemma_times_contains(closing, Effect::CloseTab { document: facts.id });
            }
        }
    }
}

/// Closing all tabs closes every one of them and no other, and retires the
/// record of each document that is protected.
pub proof fn law_every_tab_is_closed(
    states: States,
    tabs: Seq<OpenTab>,
    document: DocumentId,
    visited: PathId,
)
    ensures
        all_closing(states, tabs).contains(Effect::CloseTab { document }) <==> exists|i: int|
            0 <= i < tabs.len() && (#[trigger] tabs[i]).document == document,
        all_closing(states, tabs).contains(Effect::ForgetVisits { path: visited }) <==> exists|
            i: int,
        |
            0 <= i < tabs.len() && (#[trigger] tabs[i]).path == Some(visited),
        (exists|i: int| 0 <= i < tabs.len() && (#[trigger] tabs[i]).document == document)
            && states.contains_key(document) ==> all_closing(states, tabs).contains(
            Effect::Invalidate { key: states[document].key, document: Some(document) },
        ),
    decreases tabs.len(),
{
    let effects = all_closing(states, tabs);
    if tabs.len() > 0 {
        let rest = tabs.drop_last();
        let tab = tabs.last();
        let fewer = states.remove(tab.document);
        law_every_tab_is_closed(fewer, rest, document, visited);
        let held = entry(states, tab.document);
        let own = retiring_effects(held, tab.document, None);
        law_the_last_decision_retires_the_record(
            held,
            tab.document,
            None,
            if states.contains_key(tab.document) {
                states[tab.document].key
            } else {
                0
            },
            Some(tab.document),
            0,
        );
        assert(!own.contains(Effect::CloseTab { document }));
        assert(!own.contains(Effect::ForgetVisits { path: visited }));
        let closing = tab_closing(tab.document, tab.path);
        assert(closing.contains(Effect::CloseTab { document }) <==> tab.document == document);
        assert(closing.contains(Effect::ForgetVisits { path: visited }) <==> tab.path == Some(
            visited,
        ));
        assert(tabs[tabs.len() - 1] == tab);
        assert forall|i: int| 0 <= i < rest.len() implies #[trigger] rest[i] == tabs[i] by {}
        if exists|i: int| 0 <= i < rest.len() && (#[trigger] rest[i]).document == document {
            let i = choose|i: int| 0 <= i < rest.len() && (#[trigger] rest[i]).document == document;
            assert(tabs[i].document == document);
        }
        if exists|i: int| 0 <= i < rest.len() && (#[trigger] rest[i]).path == Some(visited) {
            let i = choose|i: int|
                0 <= i < rest.len() && (#[trigger] rest[i]).path == Some(visited);
            assert(tabs[i].path == Some(visited));
        }
        if exists|i: int| 0 <= i < tabs.len() && (#[trigger] tabs[i]).document == document {
            let i = choose|i: int| 0 <= i < tabs.len() && (#[trigger] tabs[i]).document == document;
            if i < rest.len() {
                assert(rest[i].document == document);
            }
        }
        if exists|i: int| 0 <= i < tabs.len() && (#[trigger] tabs[i]).path == Some(visited) {
            let i = choose|i: int|
                0 <= i < tabs.len() && (#[trigger] tabs[i]).path == Some(visited);
            if i < rest.len() {
                assert(rest[i].path == Some(visited));
            }
        }
    }
}

/// The preview's slot is emptied with the preview's tab, and by nothing else.
pub proof fn law_the_preview_slot_goes_with_its_tab(preview: PathId, tabs: Seq<OpenTab>)
    ensures
        all_vacated(Some(preview), tabs) == (if exists|i: int|
            0 <= i < tabs.len() && (#[trigger] tabs[i]).path == Some(preview) {
            None
        } else {
            Some(preview)
        }),
        all_vacated(None, tabs) is None,
    decreases tabs.len(),
{
    if tabs.len() > 0 {
        let rest = tabs.drop_last();
        law_the_preview_slot_goes_with_its_tab(preview, rest);
        assert(tabs[tabs.len() - 1] == tabs.last());
        if exists|i: int| 0 <= i < rest.len() && (#[trigger] rest[i]).path == Some(preview) {
            let i = choose|i: int|
                0 <= i < rest.len() && (#[trigger] rest[i]).path == Some(preview);
            assert(tabs[i] == rest[i]);
        }
        if exists|i: int| 0 <= i < tabs.len() && (#[trigger] tabs[i]).path == Some(preview) {
            let i = choose|i: int|
                0 <= i < tabs.len() && (#[trigger] tabs[i]).path == Some(preview);
            if i < rest.len() {
                assert(rest[i] == tabs[i]);
            }
        }
    }
}

/// An action that was granted takes away exactly what it is about. Closing a tab
/// closes that tab; replacing the workspace closes them all and opens the new
/// folder; closing the window closes no tab and drains the input once.
pub proof fn law_a_granted_action_does_what_it_says(
    before: &Workspace,
    after: &Workspace,
    action: DestructiveAction,
    tabs: Seq<OpenTab>,
    is_dir: bool,
    effects: Seq<Effect>,
    document: DocumentId,
)
    requires
        performed(before, after, action, tabs, is_dir, effects),
    ensures
        action is CloseWindow ==> {
            &&& !effects.contains(Effect::CloseTab { document })
            &&& after.lifecycle.interlock.window_close_pending
            &&& times(effects, Effect::DrainInput)
                == (if before.lifecycle.interlock.window_close_pending {
                0nat
            } else {
                1
            })
            &&& after.lifecycle.checkpoints == before.lifecycle.checkpoints
            &&& after.lifecycle.retirements == before.lifecycle.retirements
            &&& after.lifecycle.interlock.window_close_ready
                == before.lifecycle.interlock.window_close_ready
            &&& after.chrome == before.chrome
            &&& after.root == before.root
            &&& after.preview == before.preview
        },
        action is ReplaceWorkspace ==> {
            let path = action->ReplaceWorkspace_path;
            &&& effects.contains(Effect::CloseTab { document }) <==> exists|i: int|
                0 <= i < tabs.len() && (#[trigger] tabs[i]).document == document
            &&& (exists|i: int| 0 <= i < tabs.len() && (#[trigger] tabs[i]).document == document)
                ==> !after.lifecycle.checkpoints.states@.contains_key(document)
            &&& is_dir ==> after.root == Some(path) && effects.contains(Effect::OpenPanels { path })
                && effects.contains(Effect::RecordRecentWorkspace { path })
            &&& !is_dir ==> after.root == before.root && effects.contains(
                Effect::Report { notice: Notice::NotADirectory { path } },
            )
            &&& after.lifecycle.retirements == before.lifecycle.retirements
            &&& after.lifecycle.interlock == before.lifecycle.interlock
        },
        action is CloseTab ==> {
            let closed = action->CloseTab_document;
            &&& (exists|i: int| 0 <= i < tabs.len() && (#[trigger] tabs[i]).document == closed)
                ==> times(effects, Effect::CloseTab { document: closed }) == 1
                && !after.lifecycle.checkpoints.states@.contains_key(closed)
            &&& effects.contains(Effect::CloseTab { document }) ==> document == closed
            &&& document != closed ==> entry(after.lifecycle.checkpoints.states@, document)
                == entry(before.lifecycle.checkpoints.states@, document)
            &&& after.root == before.root
            &&& after.chrome == before.chrome
            &&& after.lifecycle.retirements == before.lifecycle.retirements
            &&& after.lifecycle.interlock == before.lifecycle.interlock
            &&& forall|at: int| #[trigger]
                first_tab_of(tabs, closed, at) && tabs[at].path == before.preview ==> after.preview
                    is None
            &&& after.preview != before.preview ==> after.preview is None && exists|i: int|
                0 <= i < tabs.len() && (#[trigger] tabs[i]).document == closed && tabs[i].path
                    == before.preview
            &&& !(exists|i: int| 0 <= i < tabs.len() && (#[trigger] tabs[i]).document == closed)
                ==> *after == *before && effects.len() == 0
        },
        after.status == before.status,
{
    let states = before.lifecycle.checkpoints.states@;
    match action {
        DestructiveAction::CloseTab { document: closed } => {
            if exists|i: int| 0 <= i < tabs.len() && (#[trigger] tabs[i]).document == closed {
                let at = lemma_first_tab(tabs, closed);
                law_a_closed_tab_leaves_nothing_behind(
                    &before.lifecycle,
                    &after.lifecycle,
                    closed,
                    tabs[at].path,
                    effects,
                    document,
                    0,
                    0,
                );
            } else {
                assert(effects =~= Seq::empty());
            }
        },
        DestructiveAction::CloseWindow => {},
        DestructiveAction::ReplaceWorkspace { path } => {
            let folder = FolderFacts { path, is_dir };
            law_every_tab_is_closed(states, tabs, document, path);
            law_a_folder_becomes_the_root(*before, folder);
            law_replacing_releases_every_document(states, tabs, document);
            lemma_times_contains(folder_effects(folder), Effect::OpenPanels { path });
            lemma_times_contains(
                folder_effects(folder),
                Effect::Report { notice: Notice::NotADirectory { path } },
            );
            assert(!folder_effects(folder).contains(Effect::CloseTab { document }));
        },
    }
}

proof fn lemma_first_tab(tabs: Seq<OpenTab>, document: DocumentId) -> (at: int)
    requires
        exists|i: int| 0 <= i < tabs.len() && (#[trigger] tabs[i]).document == document,
    ensures
        first_tab_of(tabs, document, at),
    decreases tabs.len(),
{
    let rest = tabs.drop_last();
    if exists|i: int| 0 <= i < rest.len() && (#[trigger] rest[i]).document == document {
        let at = lemma_first_tab(rest, document);
        assert forall|i: int| 0 <= i < at implies (#[trigger] tabs[i]).document != document by {
            assert(rest[i] == tabs[i]);
        }
        assert(tabs[at] == rest[at]);
        at
    } else {
        let at = tabs.len() - 1;
        let i = choose|i: int| 0 <= i < tabs.len() && (#[trigger] tabs[i]).document == document;
        if i < rest.len() {
            assert(rest[i] == tabs[i]);
        }
        assert forall|i: int| 0 <= i < at implies (#[trigger] tabs[i]).document != document by {
            assert(rest[i] == tabs[i]);
        }
        at
    }
}

} // verus!
