//! Which texts a search covers.

use crate::commands::ActiveDocument;
use crate::effect::PathId;
use crate::scope::lemma_push_contains;
use crate::workspace::OpenTab;
use vstd::prelude::*;

verus! {

/// How far a search reaches.
#[derive(Clone, Copy, Debug, PartialEq, Eq, Structural)]
pub enum SearchScope {
    Document,
    OpenTabs,
    Folder,
    Harness,
}

/// The texts that a search covers.
pub struct Corpus {
    /// Documents whose text is taken from their editor, so that nothing typed
    /// since the last save is missed.
    pub open: Vec<ActiveDocument>,
    /// Folders to walk.
    pub roots: Vec<PathId>,
    /// Single files to read.
    pub files: Vec<PathId>,
}

/// What the harness panel lists.
pub struct HarnessPaths {
    /// The directories of the skills. References and scripts beside a skill's
    /// entry document are as much a part of it.
    pub skill_dirs: Vec<PathId>,
    pub instructions: Vec<PathId>,
}

/// The tabs that show files.
pub open spec fn file_tabs(tabs: Seq<OpenTab>) -> Seq<ActiveDocument>
    decreases tabs.len(),
{
    if tabs.len() == 0 {
        Seq::empty()
    } else {
        let earlier = file_tabs(tabs.drop_last());
        let tab = tabs.last();
        if tab.path is Some {
            earlier.push(ActiveDocument { document: tab.document, path: tab.path })
        } else {
            earlier
        }
    }
}

/// Whether a tab shows `path`.
pub open spec fn is_shown(tabs: Seq<OpenTab>, path: PathId) -> bool {
    exists|i: int| 0 <= i < tabs.len() && (#[trigger] tabs[i]).path == Some(path)
}

/// `files` without those that a tab shows.
pub open spec fn closed_files(files: Seq<PathId>, tabs: Seq<OpenTab>) -> Seq<PathId>
    decreases files.len(),
{
    if files.len() == 0 {
        Seq::empty()
    } else {
        let earlier = closed_files(files.drop_last(), tabs);
        if is_shown(tabs, files.last()) {
            earlier
        } else {
            earlier.push(files.last())
        }
    }
}

/// No file that a tab shows is read from disk as well: every match in it would
/// be reported twice.
pub proof fn law_open_files_are_read_once(files: Seq<PathId>, tabs: Seq<OpenTab>)
    ensures
        forall|i: int|
            0 <= i < closed_files(files, tabs).len() ==> !is_shown(
                tabs,
                #[trigger] closed_files(files, tabs)[i],
            ),
    decreases files.len(),
{
    if files.len() > 0 {
        law_open_files_are_read_once(files.drop_last(), tabs);
        let earlier = closed_files(files.drop_last(), tabs);
        assert forall|i: int| 0 <= i < closed_files(files, tabs).len() implies !is_shown(
            tabs,
            #[trigger] closed_files(files, tabs)[i],
        ) by {
            assert(i < earlier.len() ==> closed_files(files, tabs)[i] == earlier[i]);
        }
    }
}

fn shows(tabs: &Vec<OpenTab>, path: PathId) -> (shown: bool)
    ensures
        shown == is_shown(tabs@, path),
{
    let mut i: usize = 0;
    while i < tabs.len()
        invariant
            i <= tabs.len(),
            forall|j: int| 0 <= j < i ==> (#[trigger] tabs@[j]).path != Some(path),
        decreases tabs.len() - i,
    {
        if tabs[i].path == Some(path) {
            assert(tabs@[i as int].path == Some(path));
            return true;
        }
        i = i + 1;
    }
    false
}

fn all_file_tabs(tabs: &Vec<OpenTab>) -> (open: Vec<ActiveDocument>)
    ensures
        open@ == file_tabs(tabs@),
{
    let mut open: Vec<ActiveDocument> = Vec::new();
    let mut i: usize = 0;
    while i < tabs.len()
        invariant
            i <= tabs.len(),
            open@ == file_tabs(tabs@.take(i as int)),
        decreases tabs.len() - i,
    {
        let tab: OpenTab = tabs[i];
        proof {
            assert(tabs@.take(i + 1).drop_last() =~= tabs@.take(i as int));
            assert(tabs@.take(i + 1).last() == tab);
        }
        if tab.path.is_some() {
            open.push(ActiveDocument { document: tab.document, path: tab.path });
        }
        i = i + 1;
    }
    assert(tabs@.take(tabs.len() as int) =~= tabs@);
    open
}

fn all_closed_files(files: &Vec<PathId>, tabs: &Vec<OpenTab>) -> (closed: Vec<PathId>)
    ensures
        closed@ == closed_files(files@, tabs@),
{
    let mut closed: Vec<PathId> = Vec::new();
    let mut i: usize = 0;
    while i < files.len()
        invariant
            i <= files.len(),
            closed@ == closed_files(files@.take(i as int), tabs@),
        decreases files.len() - i,
    {
        let file: PathId = files[i];
        proof {
            assert(files@.take(i + 1).drop_last() =~= files@.take(i as int));
            assert(files@.take(i + 1).last() == file);
        }
        if !shows(tabs, file) {
            closed.push(file);
        }
        i = i + 1;
    }
    assert(files@.take(files.len() as int) =~= files@);
    closed
}

fn copied(paths: &Vec<PathId>) -> (copy: Vec<PathId>)
    ensures
        copy@ == paths@,
{
    let mut copy: Vec<PathId> = Vec::new();
    let mut i: usize = 0;
    while i < paths.len()
        invariant
            i <= paths.len(),
            copy@ == paths@.take(i as int),
        decreases paths.len() - i,
    {
        copy.push(paths[i]);
        assert(paths@.take(i + 1) =~= paths@.take(i as int).push(paths@[i as int]));
        i = i + 1;
    }
    assert(paths@.take(paths.len() as int) =~= paths@);
    copy
}

/// The documents that are searched for in `scope`.
pub fn search_corpus(
    scope: SearchScope,
    tabs: &Vec<OpenTab>,
    active: Option<ActiveDocument>,
    root: Option<PathId>,
    harness: Option<&HarnessPaths>,
) -> (corpus: Corpus)
    ensures
        corpus.open@ == (match scope {
            SearchScope::Document => match active {
                Some(active) => if active.path is Some {
                    seq![active]
                } else {
                    Seq::empty()
                },
                None => Seq::empty(),
            },
            _ => file_tabs(tabs@),
        }),
        corpus.roots@ == (match scope {
            SearchScope::Folder => match root {
                Some(root) => seq![root],
                None => Seq::empty(),
            },
            SearchScope::Harness => match harness {
                Some(harness) => harness.skill_dirs@,
                None => Seq::empty(),
            },
            _ => Seq::empty(),
        }),
        corpus.files@ == (match (scope, harness) {
            (SearchScope::Harness, Some(harness)) => closed_files(harness.instructions@, tabs@),
            _ => Seq::empty(),
        }),
        !(scope is Document) ==> forall|i: int|
            0 <= i < tabs.len() && (#[trigger] tabs[i]).path is Some ==> corpus.open@.contains(
                ActiveDocument { document: tabs[i].document, path: tabs[i].path },
            ),
        scope is Harness && harness is Some ==> {
            &&& forall|i: int|
                0 <= i < harness->0.skill_dirs.len() ==> corpus.roots@.contains(
                    #[trigger] harness->0.skill_dirs[i],
                )
            &&& forall|i: int|
                0 <= i < harness->0.instructions.len() ==> corpus.files@.contains(
                    #[trigger] harness->0.instructions[i],
                ) || exists|j: int|
                    0 <= j < tabs.len() && (#[trigger] tabs[j]).path == Some(
                        harness->0.instructions[i],
                    )
        },
{
    proof {
        law_every_file_tab_is_searched(tabs@);
        if let Some(harness) = harness {
            law_every_closed_file_is_read(harness.instructions@, tabs@);
            assert forall|i: int| 0 <= i < harness.instructions.len() implies closed_files(
                harness.instructions@,
                tabs@,
            ).contains(#[trigger] harness.instructions[i]) || exists|j: int|
                0 <= j < tabs.len() && (#[trigger] tabs[j]).path == Some(
                    harness.instructions[i],
                ) by {
                assert(harness.instructions@.contains(harness.instructions[i]));
            }
        }
    }
    let mut corpus = Corpus { open: Vec::new(), roots: Vec::new(), files: Vec::new() };
    match scope {
        SearchScope::Document => {
            match active {
                Some(active) => {
                    if active.path.is_some() {
                        corpus.open.push(active);
                        assert(corpus.open@ =~= seq![active]);
                    }
                },
                None => {},
            }
        },
        SearchScope::OpenTabs => {
            corpus.open = all_file_tabs(tabs);
        },
        SearchScope::Folder => {
            corpus.open = all_file_tabs(tabs);
            match root {
                Some(root) => {
                    corpus.roots.push(root);
                    assert(corpus.roots@ =~= seq![root]);
                },
                None => {},
            }
        },
        SearchScope::Harness => {
            corpus.open = all_file_tabs(tabs);
            match harness {
                Some(harness) => {
                    corpus.roots = copied(&harness.skill_dirs);
                    corpus.files = all_closed_files(&harness.instructions, tabs);
                },
                None => {},
            }
        },
    }
    corpus
}

/// Every file that no tab shows is read, in the order of the list, and no other
/// file is.
pub proof fn law_every_closed_file_is_read(files: Seq<PathId>, tabs: Seq<OpenTab>)
    ensures
        closed_files(files, tabs) == files.filter(
            |file: PathId|
                forall|i: int| 0 <= i < tabs.len() ==> (#[trigger] tabs[i]).path != Some(file),
        ),
        forall|file: PathId| #[trigger]
            closed_files(files, tabs).contains(file) <==> files.contains(file) && forall|i: int|
                0 <= i < tabs.len() ==> (#[trigger] tabs[i]).path != Some(file),
    decreases files.len(),
{
    let wanted = |file: PathId|
        forall|i: int| 0 <= i < tabs.len() ==> (#[trigger] tabs[i]).path != Some(file);
    reveal(Seq::filter);
    if files.len() > 0 {
        let rest = files.drop_last();
        let last = files.last();
        law_every_closed_file_is_read(rest, tabs);
        assert(is_shown(tabs, last) == !wanted(last));
        assert(files =~= rest.push(last));
        lemma_push_contains(rest, last);
        lemma_push_contains(closed_files(rest, tabs), last);
    } else {
        assert(forall|file: PathId| !files.contains(file));
        assert(forall|file: PathId| !(#[trigger] closed_files(files, tabs).contains(file)));
    }
}

/// Every tab that shows a file is searched in its editor, once and in the order
/// of the tabs; a document without a file is not.
pub proof fn law_every_file_tab_is_searched(tabs: Seq<OpenTab>)
    ensures
        file_tabs(tabs) == tabs.filter(|tab: OpenTab| tab.path is Some).map_values(
            |tab: OpenTab| ActiveDocument { document: tab.document, path: tab.path },
        ),
        forall|i: int|
            0 <= i < tabs.len() && (#[trigger] tabs[i]).path is Some ==> file_tabs(tabs).contains(
                ActiveDocument { document: tabs[i].document, path: tabs[i].path },
            ),
    decreases tabs.len(),
{
    let shows_file = |tab: OpenTab| tab.path is Some;
    let searched = |tab: OpenTab| ActiveDocument { document: tab.document, path: tab.path };
    reveal(Seq::filter);
    if tabs.len() > 0 {
        let rest = tabs.drop_last();
        law_every_file_tab_is_searched(rest);
        let earlier = rest.filter(shows_file);
        assert(earlier.push(tabs.last()).map_values(searched) =~= earlier.map_values(
            searched,
        ).push(searched(tabs.last())));
        assert forall|i: int|
            0 <= i < tabs.len() && (#[trigger] tabs[i]).path is Some implies file_tabs(
            tabs,
        ).contains(ActiveDocument { document: tabs[i].document, path: tabs[i].path }) by {
            if tabs.last().path is Some {
                lemma_push_contains(file_tabs(rest), searched(tabs.last()));
            }
            if i < rest.len() {
                assert(rest[i] == tabs[i]);
            }
        }
    } else {
        assert(file_tabs(tabs) =~= tabs.filter(shows_file).map_values(searched));
    }
}

} // verus!
