//! Saving a document under another name.

use crate::effect::{report, Effect, Notice, PathId, TextId};
use crate::lifecycle::{Lifecycle, RequestId};
use crate::requests::{group_requests, times};
use crate::scope::{DocumentId, RecoveryKey};
use crate::text::append;
use crate::workspace::{folder_effects, with_folder, FolderFacts, Workspace};
use vstd::prelude::*;

verus! {

broadcast use {vstd::std_specs::btree::group_btree_axioms, group_requests};

/// The name that is suggested for a document without one.
pub const UNTITLED: &'static str = "Untitled.md";

/// What the host knows of a document that is to be saved under another name.
#[derive(Clone, Copy, Debug, PartialEq, Eq, Structural)]
pub struct SaveAsFacts {
    pub key: RecoveryKey,
    /// Another tab shows the destination.
    pub destination_open: bool,
}

/// Where the walk that may wait for a Save As stands.
#[derive(Clone, Copy, Debug, PartialEq, Eq, Structural)]
pub struct WalkFacts {
    /// The document that the user was asked about last.
    pub current: Option<DocumentId>,
    /// That document still is what the user was asked about.
    pub prompt_matches: bool,
}

/// How a Save As goes on once its destination is known.
pub enum SaveAsStep {
    /// It ends here.
    Ended { effects: Vec<Effect> },
    /// Write the text to the destination, and say how that went.
    Write,
}

/// What came of writing the text.
#[derive(Clone, Copy, Debug, PartialEq, Eq, Structural)]
pub enum SaveAsOutcome {
    Saved,
    DestinationExists,
    Failed,
}

/// How a Save As goes on once the text is written or refused.
#[derive(Clone, Copy, Debug, PartialEq, Eq, Structural)]
pub enum SaveAsNext {
    Done,
    /// Ask whether the file that is there is to be replaced.
    AskOverwrite,
    /// Enter the decision of the walk that waited, as saved.
    Decide { request: RequestId },
}

/// What is done about a Save As whose text was written or refused.
pub struct SaveAsResult {
    pub effects: Vec<Effect>,
    pub next: SaveAsNext,
}

/// The directory that is offered: that of the document, or else the
/// workspace's, or else the current one.
pub fn save_as_directory(parent: Option<&str>, root: Option<&str>) -> (directory: String)
    ensures
        directory@ == (match parent {
            Some(parent) => parent@,
            None => match root {
                Some(root) => root@,
                None => "."@,
            },
        }),
{
    let chosen = match parent {
        Some(parent) => parent,
        None => match root {
            Some(root) => root,
            None => ".",
        },
    };
    let mut directory: String = String::new();
    append(&mut directory, chosen);
    assert(directory@ =~= chosen@);
    directory
}

/// The name that is suggested: that of the document's file, if it has one.
pub fn save_as_name(file_name: Option<&str>) -> (name: String)
    ensures
        name@ == (match file_name {
            Some(file_name) => file_name@,
            None => UNTITLED@,
        }),
{
    let chosen = match file_name {
        Some(file_name) => file_name,
        None => UNTITLED,
    };
    let mut name: String = String::new();
    append(&mut name, chosen);
    assert(name@ =~= chosen@);
    name
}

/// A Save As of `document` came to nothing: a walk that waited for it ends, and
/// nothing else about the lifecycle changes.
pub open spec fn walk_ended(
    before: &Lifecycle,
    after: &Lifecycle,
    document: DocumentId,
    current: Option<DocumentId>,
) -> bool {
    if before.interlock.pending is Some && current == Some(document) {
        &&& after.same_but_interlock(before)
        &&& after.interlock.same_window(&before.interlock)
        &&& after.interlock.waiting == before.interlock.waiting
        &&& after.interlock.pending is None
        &&& after.interlock.handled@.len() == 0
    } else {
        *after == *before
    }
}

/// Whether nothing but the lifecycle has changed.
pub open spec fn same_but_lifecycle(before: &Workspace, after: &Workspace) -> bool {
    &&& after.chrome == before.chrome
    &&& after.root == before.root
    &&& after.preview == before.preview
    &&& after.status == before.status
}

/// Whether all of the lifecycle is as before, but for the keys that a running
/// Save As is to retire.
pub open spec fn same_but_save_as_keys(before: &Lifecycle, after: &Lifecycle) -> bool {
    &&& after.retirements == before.retirements
    &&& after.checkpoints == before.checkpoints
    &&& after.interlock == before.interlock
    &&& after.store_ready == before.store_ready
    &&& after.startup_recovery_pending == before.startup_recovery_pending
    &&& after.startup_recovery_keys == before.startup_recovery_keys
}

/// Whether a Save As may write: no walk is under way, or it is the walk's own
/// document and still is what the user was asked about.
pub open spec fn snapshot_is_current(
    lifecycle: &Lifecycle,
    document: DocumentId,
    walk: WalkFacts,
) -> bool {
    lifecycle.interlock.pending is None || (walk.current == Some(document) && walk.prompt_matches)
}

/// What a successful Save As asks of the host.
pub open spec fn saved_effects(
    document: DocumentId,
    path: PathId,
    source: Option<PathId>,
    root: Option<PathId>,
    parent: Option<FolderFacts>,
) -> Seq<Effect> {
    seq![Effect::RenameTab { document, path }] + (match source {
        Some(source) => seq![Effect::ForgetVisits { path: source }],
        None => if root is None && parent is Some {
            folder_effects(parent->0)
        } else {
            Seq::empty()
        },
    }) + seq![
        Effect::SyncDocumentWatches,
        Effect::RecordRecentFile { path },
        Effect::RecordVisit { path, offset: 0 },
        Effect::RefreshWeb,
    ]
}

impl Workspace {
    /// The user has chosen where to save a document, or has chosen nothing.
    pub fn finish_save_as_selection(
        &mut self,
        document: DocumentId,
        path: Option<PathId>,
        facts: Option<SaveAsFacts>,
        walk: WalkFacts,
    ) -> (step: SaveAsStep)
        ensures
            old(self).lifecycle.well_formed() ==> final(self).lifecycle.well_formed(),
            same_but_lifecycle(old(self), final(self)),
            match path {
                Some(path) => save_as_begun(
                    &old(self).lifecycle,
                    &final(self).lifecycle,
                    document,
                    path,
                    facts,
                    walk,
                    step,
                ),
                None => {
                    &&& walk_ended(
                        &old(self).lifecycle,
                        &final(self).lifecycle,
                        document,
                        walk.current,
                    )
                    &&& step matches SaveAsStep::Ended { effects } && effects@.len() == 0
                },
            },
    {
        match path {
            Some(path) => self.finish_save_as(document, path, facts, walk),
            None => {
                self.lifecycle.cancel_pending_destructive_save_as(document, walk.current);
                SaveAsStep::Ended { effects: Vec::new() }
            },
        }
    }

    /// The destination is known. `facts` describe the document if it is still
    /// open. A destination that another tab shows is refused, and so is a text
    /// that is no longer the one the user was asked about.
    pub fn finish_save_as(
        &mut self,
        document: DocumentId,
        path: PathId,
        facts: Option<SaveAsFacts>,
        walk: WalkFacts,
    ) -> (step: SaveAsStep)
        ensures
            old(self).lifecycle.well_formed() ==> final(self).lifecycle.well_formed(),
            same_but_lifecycle(old(self), final(self)),
            save_as_begun(
                &old(self).lifecycle,
                &final(self).lifecycle,
                document,
                path,
                facts,
                walk,
                step,
            ),
    {
        let facts = match facts {
            Some(facts) => facts,
            None => {
                self.lifecycle.cancel_pending_destructive_save_as(document, walk.current);
                return SaveAsStep::Ended { effects: Vec::new() };
            },
        };
        if !self.lifecycle.save_as_snapshot_is_current(
            document,
            walk.current,
            walk.prompt_matches,
        ) {
            self.lifecycle.cancel_pending_destructive_save_as(document, walk.current);
            return SaveAsStep::Ended { effects: report(Notice::SaveAsSnapshotChanged) };
        }
        if facts.destination_open {
            self.lifecycle.cancel_pending_destructive_save_as(document, walk.current);
            return SaveAsStep::Ended { effects: report(Notice::SaveAsPathAlreadyOpen { path }) };
        }
        self.lifecycle.save_as_recovery_keys.insert(document, facts.key);
        SaveAsStep::Write
    }

    /// The text was written to the destination, or could not be. A first Save
    /// As gives a document its folder as workspace, if there is none.
    pub fn save_as_written(
        &mut self,
        document: DocumentId,
        path: PathId,
        create_only: bool,
        outcome: SaveAsOutcome,
        source: Option<PathId>,
        parent: Option<FolderFacts>,
        current: Option<DocumentId>,
    ) -> (result: SaveAsResult)
        ensures
            old(self).lifecycle.well_formed() ==> final(self).lifecycle.well_formed(),
            final(self).preview == old(self).preview,
            final(self).status == old(self).status,
            match outcome {
                SaveAsOutcome::Saved => {
                    let adopts = source is None && old(self).root is None && parent is Some;
                    let awaited = old(self).lifecycle.interlock.pending is Some && current == Some(
                        document,
                    );
                    let workspace = if adopts {
                        with_folder(*old(self), parent->0)
                    } else {
                        *old(self)
                    };
                    &&& final(self).root == workspace.root
                    &&& final(self).chrome == workspace.chrome
                    &&& result.effects@ == saved_effects(
                        document,
                        path,
                        source,
                        old(self).root,
                        parent,
                    )
                    &&& final(self).lifecycle.same_but_interlock(&old(self).lifecycle)
                    &&& final(self).lifecycle.interlock.same_window(&old(self).lifecycle.interlock)
                    &&& final(self).lifecycle.interlock.waiting == old(
                        self,
                    ).lifecycle.interlock.waiting
                    &&& final(self).lifecycle.interlock.handled == old(
                        self,
                    ).lifecycle.interlock.handled
                    &&& final(self).lifecycle.interlock.pending == (if awaited {
                        None
                    } else {
                        old(self).lifecycle.interlock.pending
                    })
                    &&& result.next == (if awaited {
                        SaveAsNext::Decide { request: old(self).lifecycle.interlock.pending->0 }
                    } else {
                        SaveAsNext::Done
                    })
                    &&& times(result.effects@, Effect::RenameTab { document, path }) == 1
                },
                _ => {
                    let asks = outcome is DestinationExists && create_only;
                    &&& final(self).root == old(self).root
                    &&& final(self).chrome == old(self).chrome
                    &&& result.effects@.len() == 0
                    &&& result.next == (if asks {
                        SaveAsNext::AskOverwrite
                    } else {
                        SaveAsNext::Done
                    })
                    &&& final(self).lifecycle.save_as_recovery_keys@ == old(
                        self,
                    ).lifecycle.save_as_recovery_keys@.remove(document)
                    &&& final(self).lifecycle.retirements == old(self).lifecycle.retirements
                    &&& final(self).lifecycle.checkpoints == old(self).lifecycle.checkpoints
                    &&& final(self).lifecycle.store_ready == old(self).lifecycle.store_ready
                    &&& final(self).lifecycle.startup_recovery_pending == old(
                        self,
                    ).lifecycle.startup_recovery_pending
                    &&& final(self).lifecycle.startup_recovery_keys == old(
                        self,
                    ).lifecycle.startup_recovery_keys
                    &&& if !asks && old(self).lifecycle.interlock.pending is Some && current
                        == Some(document) {
                        &&& final(self).lifecycle.interlock.pending is None
                        &&& final(self).lifecycle.interlock.handled@.len() == 0
                        &&& final(self).lifecycle.interlock.waiting == old(
                            self,
                        ).lifecycle.interlock.waiting
                        &&& final(self).lifecycle.interlock.same_window(
                            &old(self).lifecycle.interlock,
                        )
                    } else {
                        final(self).lifecycle.interlock == old(self).lifecycle.interlock
                    }
                },
            },
    {
        match outcome {
            SaveAsOutcome::Saved => {},
            SaveAsOutcome::DestinationExists => {
                self.lifecycle.save_as_recovery_keys.remove(&document);
                if create_only {
                    return SaveAsResult { effects: Vec::new(), next: SaveAsNext::AskOverwrite };
                }
                self.lifecycle.cancel_pending_destructive_save_as(document, current);
                return SaveAsResult { effects: Vec::new(), next: SaveAsNext::Done };
            },
            SaveAsOutcome::Failed => {
                self.lifecycle.save_as_recovery_keys.remove(&document);
                self.lifecycle.cancel_pending_destructive_save_as(document, current);
                return SaveAsResult { effects: Vec::new(), next: SaveAsNext::Done };
            },
        }
        let mut effects: Vec<Effect> = Vec::new();
        effects.push(Effect::RenameTab { document, path });
        match source {
            Some(source) => {
                effects.push(Effect::ForgetVisits { path: source });
            },
            None => {
                if self.root.is_none() {
                    match parent {
                        Some(folder) => {
                            let mut opening = self.open_folder(folder);
                            effects.append(&mut opening);
                        },
                        None => {},
                    }
                }
            },
        }
        effects.push(Effect::SyncDocumentWatches);
        effects.push(Effect::RecordRecentFile { path });
        effects.push(Effect::RecordVisit { path, offset: 0 });
        effects.push(Effect::RefreshWeb);
        proof {
            assert(effects@ =~= saved_effects(document, path, source, old(self).root, parent));
            law_a_saved_document_takes_its_new_name(
                document,
                path,
                source,
                old(self).root,
                parent,
            );
        }
        let next = match self.lifecycle.complete_pending_destructive_save_as(document, current) {
            Some(request) => SaveAsNext::Decide { request },
            None => SaveAsNext::Done,
        };
        SaveAsResult { effects, next }
    }

    /// The file that is there cannot be looked at, so nobody can be asked
    /// whether to replace it.
    pub fn overwrite_unavailable(
        &mut self,
        document: DocumentId,
        error: TextId,
        current: Option<DocumentId>,
    ) -> (effects: Vec<Effect>)
        ensures
            old(self).lifecycle.well_formed() ==> final(self).lifecycle.well_formed(),
            same_but_lifecycle(old(self), final(self)),
            walk_ended(&old(self).lifecycle, &final(self).lifecycle, document, current),
            effects@ == seq![Effect::Report { notice: Notice::SaveAsFailed { error } }],
    {
        self.lifecycle.cancel_pending_destructive_save_as(document, current);
        report(Notice::SaveAsFailed { error })
    }

    /// The user has answered whether the file that is there is to be replaced.
    pub fn overwrite_answered(
        &mut self,
        document: DocumentId,
        path: PathId,
        replace: bool,
        facts: Option<SaveAsFacts>,
        walk: WalkFacts,
    ) -> (step: SaveAsStep)
        ensures
            old(self).lifecycle.well_formed() ==> final(self).lifecycle.well_formed(),
            same_but_lifecycle(old(self), final(self)),
            if replace {
                save_as_begun(
                    &old(self).lifecycle,
                    &final(self).lifecycle,
                    document,
                    path,
                    facts,
                    walk,
                    step,
                )
            } else {
                &&& walk_ended(
                    &old(self).lifecycle,
                    &final(self).lifecycle,
                    document,
                    walk.current,
                )
                &&& step matches SaveAsStep::Ended { effects } && effects@.len() == 0
            },
    {
        if replace {
            self.finish_save_as(document, path, facts, walk)
        } else {
            self.lifecycle.cancel_pending_destructive_save_as(document, walk.current);
            SaveAsStep::Ended { effects: Vec::new() }
        }
    }
}

/// How a Save As whose destination is known goes on.
pub open spec fn save_as_begun(
    before: &Lifecycle,
    after: &Lifecycle,
    document: DocumentId,
    path: PathId,
    facts: Option<SaveAsFacts>,
    walk: WalkFacts,
    step: SaveAsStep,
) -> bool {
    match facts {
        None => {
            &&& walk_ended(before, after, document, walk.current)
            &&& step matches SaveAsStep::Ended { effects } && effects@.len() == 0
        },
        Some(facts) => if !snapshot_is_current(before, document, walk) {
            &&& walk_ended(before, after, document, walk.current)
            &&& step matches SaveAsStep::Ended { effects } && effects@ == seq![
                Effect::Report { notice: Notice::SaveAsSnapshotChanged },
            ]
        } else if facts.destination_open {
            &&& walk_ended(before, after, document, walk.current)
            &&& step matches SaveAsStep::Ended { effects } && effects@ == seq![
                Effect::Report { notice: Notice::SaveAsPathAlreadyOpen { path } },
            ]
        } else {
            &&& same_but_save_as_keys(before, after)
            &&& after.save_as_recovery_keys@ == before.save_as_recovery_keys@.insert(
                document,
                facts.key,
            )
            &&& step is Write
        },
    }
}

/// After every successful Save As the document's tab stands for the file it was
/// saved as, and no other tab is renamed. That file is the one that is recently
/// opened, visited and watched from now on; a file it had before is no longer
/// found by Back. Only a first Save As without a workspace opens one: the folder
/// that the file is in.
pub proof fn law_a_saved_document_takes_its_new_name(
    document: DocumentId,
    path: PathId,
    source: Option<PathId>,
    root: Option<PathId>,
    parent: Option<FolderFacts>,
)
    ensures
        ({
            let effects = saved_effects(document, path, source, root, parent);
            &&& times(effects, Effect::RenameTab { document, path }) == 1
            &&& forall|other: DocumentId, name: PathId| #[trigger]
                effects.contains(Effect::RenameTab { document: other, path: name }) ==> other
                    == document && name == path
            &&& effects[0] == (Effect::RenameTab { document, path })
            &&& times(effects, Effect::RecordRecentFile { path }) == 1
            &&& times(effects, Effect::RecordVisit { path, offset: 0 }) == 1
            &&& effects.contains(Effect::SyncDocumentWatches)
            &&& effects.contains(Effect::RefreshWeb)
            &&& forall|other: PathId| #[trigger]
                effects.contains(Effect::ForgetVisits { path: other }) <==> source == Some(other)
            &&& forall|folder: PathId| #[trigger]
                effects.contains(Effect::OpenPanels { path: folder }) <==> source is None && root
                    is None && parent == Some(FolderFacts { path: folder, is_dir: true })
            &&& forall|other: DocumentId|
                !(#[trigger] effects.contains(Effect::CloseTab { document: other }))
        }),
{
    let effects = saved_effects(document, path, source, root, parent);
    let rename = Effect::RenameTab { document, path };
    let recent = Effect::RecordRecentFile { path };
    let visit = Effect::RecordVisit { path, offset: 0 };
    let middle = match source {
        Some(source) => seq![Effect::ForgetVisits { path: source }],
        None => if root is None && parent is Some {
            folder_effects(parent->0)
        } else {
            Seq::empty()
        },
    };
    let last = seq![Effect::SyncDocumentWatches, recent, visit, Effect::RefreshWeb];
    assert(last =~= seq![Effect::SyncDocumentWatches].push(recent).push(visit).push(
        Effect::RefreshWeb,
    ));
    if source is None && root is None && parent is Some {
        let folder = parent->0;
        if folder.is_dir {
            assert(middle =~= seq![Effect::OpenPanels { path: folder.path }].push(
                Effect::SyncDocumentWatches,
            ).push(Effect::RerunSearch));
        }
    }
    assert(effects =~= seq![rename] + middle + last);
    assert(times(middle, rename) == 0 && times(middle, recent) == 0 && times(middle, visit) == 0);
    assert(times(last, rename) == 0 && times(last, recent) == 1 && times(last, visit) == 1);
}

/// A Save As writes exactly where the document is still there, is still what the
/// user was asked about if a walk waits for it, and no other tab shows the
/// destination. Until it is written it is remembered which record it leaves.
pub proof fn law_a_save_as_writes_what_the_user_asked_for(
    before: &Lifecycle,
    after: &Lifecycle,
    document: DocumentId,
    path: PathId,
    facts: Option<SaveAsFacts>,
    walk: WalkFacts,
    step: SaveAsStep,
    other: DocumentId,
)
    requires
        save_as_begun(before, after, document, path, facts, walk, step),
    ensures
        step is Write <==> (facts matches Some(known) && !known.destination_open && (
        before.interlock.pending is Some ==> walk.current == Some(document)
            && walk.prompt_matches)),
        step is Write ==> {
            &&& after.save_as_recovery_keys@.contains_key(document)
            &&& after.save_as_recovery_keys@[document] == facts->0.key
            &&& after.interlock == before.interlock
            &&& other != document ==> after.save_as_recovery_keys@.contains_key(other)
                == before.save_as_recovery_keys@.contains_key(other)
            &&& other != document && before.save_as_recovery_keys@.contains_key(other)
                ==> after.save_as_recovery_keys@[other] == before.save_as_recovery_keys@[other]
        },
        !(step is Write) ==> {
            &&& after.save_as_recovery_keys == before.save_as_recovery_keys
            &&& before.interlock.pending is Some && walk.current == Some(document) ==> {
                &&& after.interlock.pending is None
                &&& after.interlock.handled@.len() == 0
            }
            &&& !(before.interlock.pending is Some && walk.current == Some(document))
                ==> after.interlock == before.interlock
            &&& step matches SaveAsStep::Ended { effects } && match facts {
                None => effects@.len() == 0,
                Some(_) => effects@.len() == 1 && effects@[0] == (Effect::Report {
                    notice: if before.interlock.pending is Some && !(walk.current == Some(document)
                        && walk.prompt_matches) {
                        Notice::SaveAsSnapshotChanged
                    } else {
                        Notice::SaveAsPathAlreadyOpen { path }
                    },
                }),
            }
        },
        after.retirements == before.retirements,
        after.checkpoints == before.checkpoints,
        after.startup_recovery_keys == before.startup_recovery_keys,
        after.interlock.waiting == before.interlock.waiting,
        after.interlock.window_close_pending == before.interlock.window_close_pending,
        after.interlock.window_close_ready == before.interlock.window_close_ready,
{
}

} // verus!
