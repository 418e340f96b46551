//! What a change on disk means to the open workspace.

use crate::effect::PathId;
use crate::harness::{affects_harness, path_affects_harness};
use crate::scope::DocumentId;
use crate::workspace::Workspace;
use std::collections::BTreeSet;
use vstd::prelude::*;

verus! {

broadcast use vstd::std_specs::btree::group_btree_axioms;

/// A change that the watcher has seen.
pub struct Change {
    /// Something was created, removed or renamed.
    pub affects_tree: bool,
    /// It lies in the watched folder.
    pub in_root: bool,
    /// The harness panel lists something at or below it.
    pub over_artifact: bool,
    /// The path, relative to the watched folder if it lies in it.
    pub relative: String,
    pub is_dir: bool,
    pub has_extension: bool,
    /// Its name is that of an instruction file.
    pub is_instruction: bool,
    /// The documents that watch the path.
    pub watched_by: BTreeSet<DocumentId>,
}

/// Where the file of a document is.
#[derive(Clone, Copy, Debug, PartialEq, Eq, Structural)]
pub struct SourceDirectories {
    /// The directory that its path names.
    pub named: Option<PathId>,
    /// The directory that its path leads to once every link is followed, where
    /// it leads anywhere.
    pub resolved: Option<PathId>,
}

/// Whether `directory` is where the file of a document is, by name or by links.
pub open spec fn holds_source(sources: Seq<SourceDirectories>, directory: PathId) -> bool {
    exists|i: int|
        0 <= i < sources.len() && ((#[trigger] sources[i]).named == Some(directory)
            || sources[i].resolved == Some(directory))
}

/// The directories to watch for the open documents, each once.
pub fn document_directories(sources: &Vec<SourceDirectories>) -> (directories: BTreeSet<PathId>)
    ensures
        forall|directory: PathId|
            #![trigger directories@.contains(directory)]
            directories@.contains(directory) <==> holds_source(sources@, directory),
{
    let mut directories: BTreeSet<PathId> = BTreeSet::new();
    let mut i: usize = 0;
    while i < sources.len()
        invariant
            i <= sources.len(),
            forall|directory: PathId|
                #![trigger directories@.contains(directory)]
                directories@.contains(directory) <==> exists|j: int|
                    0 <= j < i && ((#[trigger] sources[j]).named == Some(directory)
                        || sources[j].resolved == Some(directory)),
        decreases sources.len() - i,
    {
        let source = sources[i];
        if let Some(directory) = source.named {
            directories.insert(directory);
        }
        if let Some(directory) = source.resolved {
            directories.insert(directory);
        }
        assert(sources[i as int] == source);
        i = i + 1;
    }
    directories
}

/// Whether one of `changes` is to a path that `document` watches.
pub open spec fn affects(changes: Seq<Change>, document: DocumentId) -> bool {
    exists|i: int|
        0 <= i < changes.len() && (#[trigger] changes[i]).watched_by@.contains(document)
}

/// What is done about a document whose file has changed.
#[derive(Clone, Copy, Debug, PartialEq, Eq, Structural)]
pub enum Refresh {
    /// Read it again if it is clean, and else mark it as changed on disk.
    ReloadOrMark { document: DocumentId },
    /// Mark it as changed on disk, and leave its text to the user.
    Mark { document: DocumentId },
}

/// What is done about a batch of changes.
pub struct WatchPlan {
    pub documents: Vec<Refresh>,
    pub refresh_tree: bool,
    pub refresh_harness: bool,
}

/// Whether a change concerns the harness panel by where it happened.
pub open spec fn harness_concerned(
    change: Change,
    skill_roots: Seq<String>,
    project_roots: Seq<String>,
) -> bool {
    affects_harness(
        change.relative@,
        change.is_dir || !change.has_extension,
        change.is_instruction,
        skill_roots,
        project_roots,
    )
}

/// Whether a change concerns the file tree.
pub open spec fn tree_concerned(change: Change) -> bool {
    change.affects_tree && change.in_root
}

/// Whether a change took something from the harness panel, or may have.
pub open spec fn artifact_concerned(change: Change) -> bool {
    change.affects_tree && change.over_artifact
}

/// What is done about the affected ones of `documents`, in order.
pub open spec fn refreshes(
    documents: Seq<DocumentId>,
    changes: Seq<Change>,
    auto_reload: bool,
) -> Seq<Refresh>
    decreases documents.len(),
{
    if documents.len() == 0 {
        Seq::empty()
    } else {
        let earlier = refreshes(documents.drop_last(), changes, auto_reload);
        let document = documents.last();
        if !affects(changes, document) {
            earlier
        } else if auto_reload {
            earlier.push(Refresh::ReloadOrMark { document })
        } else {
            earlier.push(Refresh::Mark { document })
        }
    }
}

/// Without automatic reloading no document is read again: each affected one is
/// only marked, and its text stays the user's to keep or discard.
pub proof fn law_marking_keeps_the_text(documents: Seq<DocumentId>, changes: Seq<Change>)
    ensures
        forall|i: int|
            0 <= i < refreshes(documents, changes, false).len() ==> (#[trigger] refreshes(
                documents,
                changes,
                false,
            )[i]) is Mark,
    decreases documents.len(),
{
    if documents.len() > 0 {
        law_marking_keeps_the_text(documents.drop_last(), changes);
    }
}

/// No document is passed over, and none is touched that no change affects.
pub proof fn law_refreshes_reach_the_affected(
    documents: Seq<DocumentId>,
    changes: Seq<Change>,
    auto_reload: bool,
    document: DocumentId,
)
    ensures
        documents.contains(document) && affects(changes, document) <==> refreshes(
            documents,
            changes,
            auto_reload,
        ).contains(
            if auto_reload {
                Refresh::ReloadOrMark { document }
            } else {
                Refresh::Mark { document }
            },
        ),
    decreases documents.len(),
{
    let answer = if auto_reload {
        Refresh::ReloadOrMark { document }
    } else {
        Refresh::Mark { document }
    };
    let all = refreshes(documents, changes, auto_reload);
    if documents.len() > 0 {
        let rest = documents.drop_last();
        let earlier = refreshes(rest, changes, auto_reload);
        law_refreshes_reach_the_affected(rest, changes, auto_reload, document);
        assert(documents =~= rest.push(documents.last()));
        crate::scope::lemma_push_contains(rest, documents.last());
        if affects(changes, documents.last()) {
            crate::scope::lemma_push_contains(earlier, all.last());
            assert(all =~= earlier.push(all.last()));
        }
    } else {
        assert(!documents.contains(document));
        assert(!all.contains(answer));
    }
}

/// Looks through the whole batch for a path that `document` watches.
fn is_affected(changes: &Vec<Change>, document: DocumentId) -> (affected: bool)
    ensures
        affected == affects(changes@, document),
{
    let mut i: usize = 0;
    while i < changes.len()
        invariant
            i <= changes.len(),
            forall|j: int| 0 <= j < i ==> !(#[trigger] changes[j]).watched_by@.contains(document),
        decreases changes.len() - i,
    {
        if changes[i].watched_by.contains(&document) {
            assert(changes@[i as int].watched_by@.contains(document));
            return true;
        }
        i = i + 1;
    }
    false
}

impl Workspace {
    /// A batch of changes has arrived. Each of `documents` that a change affects
    /// is dealt with once. Automatic reloading waits for startup recovery, and
    /// never discards typed text.
    pub fn apply_watcher_changes(
        &self,
        changes: &Vec<Change>,
        documents: &Vec<DocumentId>,
        watch_auto_reload: bool,
        skill_roots: &Vec<String>,
        project_roots: &Vec<String>,
    ) -> (plan: Option<WatchPlan>)
        ensures
            plan is Some <==> changes.len() > 0,
            plan matches Some(plan) ==> {
                &&& plan.documents@ == refreshes(
                    documents@,
                    changes@,
                    !self.lifecycle.startup_recovery_pending && watch_auto_reload,
                )
                &&& plan.refresh_tree == (self.root is Some && exists|i: int|
                    0 <= i < changes.len() && tree_concerned(#[trigger] changes[i]))
                &&& plan.refresh_harness == (self.root is Some && exists|i: int|
                    0 <= i < changes.len() && (artifact_concerned(#[trigger] changes[i])
                        || harness_concerned(changes[i], skill_roots@, project_roots@)))
                &&& forall|i: int, d: int|
                    #![trigger changes[i], documents[d]]
                    0 <= i < changes.len() && 0 <= d < documents.len()
                        && changes[i].watched_by@.contains(documents[d]) ==> deals_with(
                        plan.documents@,
                        documents[d],
                    )
            },
    {
        if changes.len() == 0 {
            return None;
        }
        let mut tree = false;
        let mut harness = false;
        let mut i: usize = 0;
        while i < changes.len()
            invariant
                i <= changes.len(),
                tree == exists|j: int| 0 <= j < i && tree_concerned(#[trigger] changes[j]),
                harness == exists|j: int|
                    0 <= j < i && (artifact_concerned(#[trigger] changes[j]) || harness_concerned(
                        changes[j],
                        skill_roots@,
                        project_roots@,
                    )),
            decreases changes.len() - i,
        {
            let change = &changes[i];
            let in_tree = change.affects_tree && change.in_root;
            let in_harness = (change.affects_tree && change.over_artifact) || path_affects_harness(
                change.relative.as_str(),
                change.is_dir,
                change.has_extension,
                change.is_instruction,
                skill_roots,
                project_roots,
            );
            assert(changes[i as int] == change);
            tree = tree || in_tree;
            harness = harness || in_harness;
            i = i + 1;
        }
        let auto_reload = !self.lifecycle.startup_recovery_pending && watch_auto_reload;
        let mut plan: Vec<Refresh> = Vec::new();
        let mut d: usize = 0;
        while d < documents.len()
            invariant
                d <= documents.len(),
                plan@ == refreshes(documents@.take(d as int), changes@, auto_reload),
            decreases documents.len() - d,
        {
            let document: DocumentId = documents[d];
            proof {
                assert(documents@.take(d + 1).drop_last() =~= documents@.take(d as int));
                assert(documents@.take(d + 1).last() == document);
            }
            if is_affected(changes, document) {
                if auto_reload {
                    plan.push(Refresh::ReloadOrMark { document });
                } else {
                    plan.push(Refresh::Mark { document });
                }
            }
            d = d + 1;
        }
        proof {
            assert(documents@.take(documents.len() as int) =~= documents@);
            assert forall|i: int, d: int|
                #![trigger changes[i], documents[d]]
                0 <= i < changes.len() && 0 <= d < documents.len()
                    && changes[i].watched_by@.contains(documents[d]) implies deals_with(
                plan@,
                documents[d],
            ) by {
                let document = documents[d];
                assert(documents@.contains(document));
                assert(affects(changes@, document));
                law_refreshes_reach_the_affected(documents@, changes@, auto_reload, document);
                let answer = if auto_reload {
                    Refresh::ReloadOrMark { document }
                } else {
                    Refresh::Mark { document }
                };
                assert(plan@[plan@.index_of(answer)] == answer);
            }
        }
        Some(
            WatchPlan {
                documents: plan,
                refresh_tree: tree && self.root.is_some(),
                refresh_harness: harness && self.root.is_some(),
            },
        )
    }
}

/// The document that something is done about.
pub open spec fn subject(refresh: Refresh) -> DocumentId {
    match refresh {
        Refresh::ReloadOrMark { document } => document,
        Refresh::Mark { document } => document,
    }
}

/// Whether something is done about `document`.
pub open spec fn deals_with(all: Seq<Refresh>, document: DocumentId) -> bool {
    exists|at: int| 0 <= at < all.len() && subject(#[trigger] all[at]) == document
}

/// A change to a path that an open document watches is dealt with in that
/// document, once, whatever kind of change it is and wherever it happened: it is
/// read again if it can be and is to be, and else marked.
pub proof fn law_a_watched_change_reaches_its_document(
    documents: Seq<DocumentId>,
    changes: Seq<Change>,
    auto_reload: bool,
    change: int,
    document: DocumentId,
)
    requires
        documents.no_duplicates(),
        documents.contains(document),
        0 <= change < changes.len(),
        changes[change].watched_by@.contains(document),
    ensures
        exists|i: int|
            0 <= i < refreshes(documents, changes, auto_reload).len() && #[trigger] refreshes(
                documents,
                changes,
                auto_reload,
            )[i] == (if auto_reload {
                Refresh::ReloadOrMark { document }
            } else {
                Refresh::Mark { document }
            }),
        forall|i: int, j: int|
            0 <= i < refreshes(documents, changes, auto_reload).len() && 0 <= j < refreshes(
                documents,
                changes,
                auto_reload,
            ).len() && subject(#[trigger] refreshes(documents, changes, auto_reload)[i])
                == document && subject(#[trigger] refreshes(documents, changes, auto_reload)[j])
                == document ==> i == j,
{
    let all = refreshes(documents, changes, auto_reload);
    let answer = if auto_reload {
        Refresh::ReloadOrMark { document }
    } else {
        Refresh::Mark { document }
    };
    assert(affects(changes, document));
    law_refreshes_reach_the_affected(documents, changes, auto_reload, document);
    assert(all[all.index_of(answer)] == answer);
    lemma_refreshed_in_order(documents, changes, auto_reload);
    assert forall|i: int, j: int|
        0 <= i < all.len() && 0 <= j < all.len() && subject(#[trigger] all[i]) == document
            && subject(#[trigger] all[j]) == document implies i == j by {
        let chosen = choose|chosen: Seq<int>|
            #![trigger chosen.len()]
            selects(documents, all, chosen);
        assert(documents[chosen[i]] == document && documents[chosen[j]] == document);
    }
}

/// Whether each of `all` is about the document at the position in `chosen`, and
/// the positions rise.
spec fn selects(documents: Seq<DocumentId>, all: Seq<Refresh>, chosen: Seq<int>) -> bool {
    &&& chosen.len() == all.len()
    &&& forall|i: int|
        #![trigger chosen[i]]
        #![trigger all[i]]
        0 <= i < all.len() ==> 0 <= chosen[i] < documents.len() && documents[chosen[i]] == subject(
            all[i],
        )
    &&& forall|i: int, j: int|
        #![trigger chosen[i], chosen[j]]
        0 <= i < j < all.len() ==> chosen[i] < chosen[j]
}

proof fn lemma_refreshed_in_order(
    documents: Seq<DocumentId>,
    changes: Seq<Change>,
    auto_reload: bool,
)
    ensures
        exists|chosen: Seq<int>|
            #![trigger chosen.len()]
            selects(documents, refreshes(documents, changes, auto_reload), chosen),
    decreases documents.len(),
{
    let all = refreshes(documents, changes, auto_reload);
    if documents.len() == 0 {
        let none = Seq::<int>::empty();
        assert(none.len() == 0);
        assert(selects(documents, all, none));
    } else {
        let rest = documents.drop_last();
        let earlier = refreshes(rest, changes, auto_reload);
        lemma_refreshed_in_order(rest, changes, auto_reload);
        let chosen = choose|chosen: Seq<int>|
            #![trigger chosen.len()]
            selects(rest, earlier, chosen);
        let longer = if affects(changes, documents.last()) {
            chosen.push(documents.len() - 1)
        } else {
            chosen
        };
        assert(longer.len() == all.len());
        assert forall|i: int|
            #![trigger longer[i]]
            0 <= i < all.len() implies 0 <= longer[i] < documents.len() && documents[longer[i]]
            == subject(all[i]) by {
            if i < earlier.len() {
                assert(chosen[i] == longer[i]);
                assert(all[i] == earlier[i]);
                assert(rest[chosen[i]] == documents[chosen[i]]);
            }
        }
        assert forall|i: int, j: int|
            #![trigger longer[i], longer[j]]
            0 <= i < j < all.len() implies longer[i] < longer[j] by {
            assert(chosen[i] == longer[i]);
            if j < earlier.len() {
                assert(chosen[j] == longer[j]);
            }
        }
        assert(selects(documents, all, longer));
    }
}

/// What is done is done about open documents that watch something that changed.
pub proof fn law_only_watched_changes_reach_a_document(
    documents: Seq<DocumentId>,
    changes: Seq<Change>,
    auto_reload: bool,
    at: int,
)
    requires
        0 <= at < refreshes(documents, changes, auto_reload).len(),
    ensures
        documents.contains(subject(refreshes(documents, changes, auto_reload)[at])),
        exists|i: int|
            0 <= i < changes.len() && (#[trigger] changes[i]).watched_by@.contains(
                subject(refreshes(documents, changes, auto_reload)[at]),
            ),
        refreshes(documents, changes, auto_reload)[at] is ReloadOrMark == auto_reload,
    decreases documents.len(),
{
    let rest = documents.drop_last();
    let earlier = refreshes(rest, changes, auto_reload);
    assert(documents =~= rest.push(documents.last()));
    crate::scope::lemma_push_contains(rest, documents.last());
    if at < earlier.len() {
        law_only_watched_changes_reach_a_document(rest, changes, auto_reload, at);
        assert(refreshes(documents, changes, auto_reload)[at] == earlier[at]);
    } else {
        assert(affects(changes, documents.last()));
    }
}

/// The file tree follows whatever comes or goes in the open folder. The harness
/// panel follows whatever comes or goes over something it lists.
pub proof fn law_panels_follow_what_comes_and_goes(change: Change)
    ensures
        change.affects_tree && change.in_root <==> tree_concerned(change),
        change.affects_tree && change.over_artifact <==> artifact_concerned(change),
{
}

/// The directory that holds a document's file is watched, by its name and by
/// where its links lead, and no directory is watched for nothing.
pub proof fn law_every_source_is_watched(sources: Seq<SourceDirectories>, directory: PathId)
    ensures
        forall|i: int|
            0 <= i < sources.len() && ((#[trigger] sources[i]).named == Some(directory)
                || sources[i].resolved == Some(directory)) ==> holds_source(sources, directory),
        (forall|i: int|
            0 <= i < sources.len() ==> (#[trigger] sources[i]).named != Some(directory)
                && sources[i].resolved != Some(directory)) ==> !holds_source(sources, directory),
{
}

} // verus!
