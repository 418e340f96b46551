//! The workspace of one window: its folder, its panels, and the documents that
//! come and go in its tabs.

use crate::checkpoint::DocumentFacts;
use crate::chrome::ChromeState;
use crate::documents::{inserted, tab_closed, tab_closing};
use crate::effect::{report, DestructiveAction, Effect, Instant, Notice, PathId, TextId};
use crate::lifecycle::{Interlock, Lifecycle};
use crate::panels::SidePanel;
use crate::protection::{entry, retiring_effects, unprotected, States};
use crate::scope::DocumentId;
use crate::status::StatusLine;
use vstd::prelude::*;

verus! {

broadcast use vstd::std_specs::btree::group_btree_axioms;

/// The state of one window.
pub struct Workspace {
    pub lifecycle: Lifecycle,
    pub chrome: ChromeState,
    /// The folder that is open.
    pub root: Option<PathId>,
    /// The file in the one tab that the next preview replaces.
    pub preview: Option<PathId>,
    pub status: StatusLine,
}

/// What a new window does first.
#[derive(Clone, Copy, Debug, PartialEq, Eq, Structural)]
pub enum Launch {
    /// Open the target of the launch, without replacing a workspace.
    Open { path: PathId },
    /// Start with an empty document.
    NewMemory,
    /// Leave the choice to the user.
    Welcome,
}

/// A tab, as far as closing it is concerned.
#[derive(Clone, Copy, Debug, PartialEq, Eq, Structural)]
pub struct OpenTab {
    pub document: DocumentId,
    pub path: Option<PathId>,
}

/// How the opening of a file goes on.
pub enum OpenStep {
    /// The file's tab is there.
    Opened { effects: Vec<Effect> },
    /// After the effects, load the file and say how that went.
    Load { effects: Vec<Effect> },
}

/// What an opening asks of the host before anything else.
pub open spec fn asked(step: OpenStep) -> Seq<Effect> {
    match step {
        OpenStep::Opened { effects } => effects@,
        OpenStep::Load { effects } => effects@,
    }
}

/// What came of loading a file.
pub struct LoadedFile {
    pub opened: bool,
    pub effects: Vec<Effect>,
}

/// What the disk and the tabs say of something to open.
#[derive(Clone, Copy, Debug, PartialEq, Eq, Structural)]
pub struct TargetFacts {
    pub path: PathId,
    pub is_dir: bool,
    pub is_file: bool,
    /// The document pipeline can show files of this kind.
    pub openable: bool,
    /// A tab shows it.
    pub open: bool,
}

/// How the opening of a target goes on.
pub enum TargetStep {
    /// Put the replacement of the workspace to the interlock.
    Replace { path: PathId },
    /// The folder is open.
    Folder { effects: Vec<Effect> },
    /// The file is being opened.
    File { step: OpenStep },
    /// It cannot be opened.
    Refused { effects: Vec<Effect> },
}

/// A folder that may or may not be there.
#[derive(Clone, Copy, Debug, PartialEq, Eq, Structural)]
pub struct FolderFacts {
    pub path: PathId,
    pub is_dir: bool,
}

/// Whether a launch shows the welcome surface: nothing was asked for, and the
/// user has not turned it off.
pub fn should_show_welcome(initial: Option<PathId>, show_welcome_on_startup: bool) -> (show: bool)
    ensures
        show == (initial is None && show_welcome_on_startup),
{
    initial.is_none() && show_welcome_on_startup
}

/// `preview` once a tab is closed.
pub open spec fn vacated(preview: Option<PathId>, path: Option<PathId>) -> Option<PathId> {
    if preview == path {
        None
    } else {
        preview
    }
}

/// `preview` once all of `tabs` are closed, from the last to the first.
pub open spec fn all_vacated(preview: Option<PathId>, tabs: Seq<OpenTab>) -> Option<PathId>
    decreases tabs.len(),
{
    if tabs.len() == 0 {
        preview
    } else {
        all_vacated(vacated(preview, tabs.last().path), tabs.drop_last())
    }
}

/// The protection that is left once all of `tabs` are closed.
pub open spec fn all_released(states: States, tabs: Seq<OpenTab>) -> States
    decreases tabs.len(),
{
    if tabs.len() == 0 {
        states
    } else {
        all_released(states.remove(tabs.last().document), tabs.drop_last())
    }
}

/// What closing all of `tabs`, from the last to the first, asks of the host.
pub open spec fn all_closing(states: States, tabs: Seq<OpenTab>) -> Seq<Effect>
    decreases tabs.len(),
{
    if tabs.len() == 0 {
        Seq::empty()
    } else {
        let tab = tabs.last();
        retiring_effects(entry(states, tab.document), tab.document, None) + tab_closing(
            tab.document,
            tab.path,
        ) + all_closing(states.remove(tab.document), tabs.drop_last())
    }
}

/// How closing all of `tabs` changes the lifecycle.
pub open spec fn all_closed(before: &Lifecycle, after: &Lifecycle, tabs: Seq<OpenTab>) -> bool {
    &&& after.same_but_checkpoints(before)
    &&& after.checkpoints.states@ == all_released(before.checkpoints.states@, tabs)
    &&& after.checkpoints.worker_active == before.checkpoints.worker_active
    &&& after.checkpoints.timer_generation == before.checkpoints.timer_generation
    &&& after.checkpoints.warning == (if tabs.len() == 0 {
        before.checkpoints.warning
    } else {
        unprotected(after.checkpoints.states@)
    })
}

/// What opening a folder asks of the host.
pub open spec fn folder_effects(folder: FolderFacts) -> Seq<Effect> {
    if folder.is_dir {
        seq![
            Effect::OpenPanels { path: folder.path },
            Effect::SyncDocumentWatches,
            Effect::RerunSearch,
        ]
    } else {
        seq![Effect::Report { notice: Notice::NotADirectory { path: folder.path } }]
    }
}

/// Brings a tab to the front.
pub open spec fn focusing(path: PathId) -> Seq<Effect> {
    seq![
        Effect::FocusTab { path },
        Effect::RecordVisit { path, offset: 0 },
        Effect::RefreshWeb,
    ]
}

/// The workspace once a folder is opened, if it is one.
pub open spec fn with_folder(before: Workspace, folder: FolderFacts) -> Workspace {
    if folder.is_dir {
        Workspace {
            root: Some(folder.path),
            chrome: ChromeState { show_welcome: false, ..before.chrome },
            ..before
        }
    } else {
        before
    }
}

/// How replacing the preview changes the lifecycle: its tab is closed unless
/// that would lose something.
pub open spec fn preview_replaced(
    before: &Lifecycle,
    after: &Lifecycle,
    path: PathId,
    outgoing: Option<DocumentFacts>,
    effects: Seq<Effect>,
) -> bool {
    match outgoing {
        Some(facts) => if before.keeps_preview(facts) {
            *after == *before && effects.len() == 0
        } else {
            tab_closed(before, after, facts.id, Some(path), effects)
        },
        None => *after == *before && effects.len() == 0,
    }
}

/// What follows the replacement of the preview: the file's tab comes to the
/// front if there is one.
pub open spec fn shows(step: OpenStep, path: PathId, open: bool, closing: Seq<Effect>) -> bool {
    if open {
        step matches OpenStep::Opened { effects } && effects@ == closing + focusing(path)
    } else {
        step matches OpenStep::Load { effects } && effects@ == closing
    }
}

/// Opening a file. `outgoing` is the document that the preview's tab shows.
pub open spec fn file_opening(
    before: &Workspace,
    after: &Workspace,
    path: PathId,
    preview: bool,
    open: bool,
    outgoing: Option<DocumentFacts>,
    step: OpenStep,
) -> bool {
    &&& after.root == before.root
    &&& after.status == before.status
    &&& if before.preview == Some(path) {
        &&& after.lifecycle == before.lifecycle
        &&& after.chrome == before.chrome
        &&& after.preview == (if preview {
            Some(path)
        } else {
            None
        })
        &&& step matches OpenStep::Opened { effects } && effects@ == (if open {
            focusing(path)
        } else {
            Seq::empty()
        })
    } else {
        &&& after.chrome == (ChromeState {
            settings_open: before.chrome.settings_open && !open,
            ..before.chrome
        })
        &&& after.preview == (if open || preview {
            None
        } else {
            before.preview
        })
        &&& if preview && before.preview is Some {
            exists|closing: Seq<Effect>|
                #![trigger shows(step, path, open, closing)]
                preview_replaced(
                    &before.lifecycle,
                    &after.lifecycle,
                    before.preview->0,
                    outgoing,
                    closing,
                ) && shows(step, path, open, closing)
        } else {
            &&& after.lifecycle == before.lifecycle
            &&& shows(step, path, open, Seq::empty())
        }
    }
}

impl Workspace {
    /// A window that opens `initial`, and what it does first.
    pub fn new(initial: Option<PathId>, show_welcome_on_startup: bool) -> (created: (Self, Launch))
        ensures
            created.0.chrome == (ChromeState {
                show_welcome: initial is None && show_welcome_on_startup,
                settings_open: false,
                left_panel_open: true,
                right_panel_open: true,
                translating: false,
                side_panel: SidePanel::Files,
            }),
            created.0.root is None,
            created.0.preview is None,
            created.0.status == (StatusLine { notice: None, generation: 0 }),
            created.0.lifecycle.is_new(),
            created.0.lifecycle.well_formed(),
            created.1 == (match initial {
                Some(path) => Launch::Open { path },
                None => if show_welcome_on_startup {
                    Launch::Welcome
                } else {
                    Launch::NewMemory
                },
            }),
    {
        let show_welcome = should_show_welcome(initial, show_welcome_on_startup);
        let workspace = Workspace {
            lifecycle: Lifecycle::new(),
            chrome: ChromeState {
                show_welcome,
                settings_open: false,
                left_panel_open: true,
                right_panel_open: true,
                translating: false,
                side_panel: SidePanel::Files,
            },
            root: None,
            preview: None,
            status: StatusLine::new(),
        };
        let launch = match initial {
            Some(path) => Launch::Open { path },
            None => if show_welcome {
                Launch::Welcome
            } else {
                Launch::NewMemory
            },
        };
        (workspace, launch)
    }

    /// Open a folder as the workspace root.
    pub fn open_folder(&mut self, folder: FolderFacts) -> (effects: Vec<Effect>)
        ensures
            *final(self) == with_folder(*old(self), folder),
            effects@ == folder_effects(folder),
    {
        if !folder.is_dir {
            return report(Notice::NotADirectory { path: folder.path });
        }
        self.root = Some(folder.path);
        self.chrome.show_welcome = false;
        let mut effects: Vec<Effect> = Vec::new();
        effects.push(Effect::OpenPanels { path: folder.path });
        effects.push(Effect::SyncDocumentWatches);
        effects.push(Effect::RerunSearch);
        assert(effects@ =~= folder_effects(folder));
        effects
    }

    /// Open a file in a tab that stays until the user closes it, or focus the
    /// tab it has.
    pub fn open_file(&mut self, path: PathId, open: bool) -> (step: OpenStep)
        ensures
            old(self).lifecycle.well_formed() ==> final(self).lifecycle.well_formed(),
            file_opening(old(self), final(self), path, false, open, None, step),
    {
        self.open_file_as(path, false, open, None)
    }

    /// Open a file, as a preview if `preview`. A preview reuses one slot, so
    /// that clicking through a tree leaves no bar full of tabs behind; opening
    /// the preview's own file for good is what promotes it. A preview that has
    /// something to lose is kept and simply stops being one. A file that is open
    /// and is not the preview was opened for good, and is only brought to the
    /// front.
    pub fn open_file_as(
        &mut self,
        path: PathId,
        preview: bool,
        open: bool,
        outgoing: Option<DocumentFacts>,
    ) -> (step: OpenStep)
        ensures
            old(self).lifecycle.well_formed() ==> final(self).lifecycle.well_formed(),
            file_opening(old(self), final(self), path, preview, open, outgoing, step),
    {
        let mut effects: Vec<Effect> = Vec::new();
        if self.preview == Some(path) {
            if !preview {
                self.preview = None;
            }
            if open {
                push_focus(&mut effects, path);
                assert(effects@ =~= focusing(path));
            }
            assert(self.preview == (if preview {
                Some(path)
            } else {
                None
            }));
            return OpenStep::Opened { effects };
        }
        let ghost before = self.lifecycle;
        if preview {
            match self.preview.take() {
                Some(current) => {
                    match outgoing {
                        Some(facts) => {
                            if !self.lifecycle.preserves_preview(facts) {
                                effects =
                                self.lifecycle.close_tab_unchecked(facts.id, Some(current));
                            }
                        },
                        None => {},
                    }
                },
                None => {},
            }
        }
        let ghost closing = effects@;
        if !open {
            proof {
                assert(closing =~= effects@);
                assert(old(self).preview is None || !preview ==> closing =~= Seq::empty());
            }
            let step = OpenStep::Load { effects };
            assert(shows(step, path, open, closing));
            return step;
        }
        self.chrome.settings_open = false;
        push_focus(&mut effects, path);
        self.preview = None;
        proof {
            assert(old(self).preview is None || !preview ==> closing =~= Seq::empty());
            assert(effects@ =~= closing + focusing(path));
        }
        let step = OpenStep::Opened { effects };
        assert(shows(step, path, open, closing));
        step
    }

    /// A file that was to be opened has been loaded, or could not be.
    pub fn file_loaded(
        &mut self,
        path: PathId,
        preview: bool,
        loaded: Result<DocumentFacts, TextId>,
        now: Instant,
    ) -> (file: LoadedFile)
        ensures
            old(self).lifecycle.well_formed() ==> final(self).lifecycle.well_formed(),
            final(self).root == old(self).root,
            final(self).status == old(self).status,
            file.opened == loaded is Ok,
            match loaded {
                Ok(facts) => {
                    &&& inserted(
                        &old(self).lifecycle,
                        &final(self).lifecycle,
                        facts,
                        Some(path),
                        true,
                        now,
                        file.effects@,
                    )
                    &&& final(self).chrome == (ChromeState {
                        settings_open: false,
                        show_welcome: false,
                        ..old(self).chrome
                    })
                    &&& final(self).preview == (if preview {
                        Some(path)
                    } else {
                        None
                    })
                },
                Err(error) => {
                    &&& final(self).lifecycle == old(self).lifecycle
                    &&& final(self).chrome == old(self).chrome
                    &&& final(self).preview is None
                    &&& file.effects@ == seq![
                        Effect::Report { notice: Notice::CannotLoad { path, error } },
                    ]
                },
            },
    {
        match loaded {
            Ok(facts) => {
                self.chrome.settings_open = false;
                let effects = self.insert_document(facts, Some(path), true, now);
                self.preview = if preview {
                    Some(path)
                } else {
                    None
                };
                LoadedFile { opened: true, effects }
            },
            Err(error) => {
                self.preview = None;
                let effects = report(Notice::CannotLoad { path, error });
                LoadedFile { opened: false, effects }
            },
        }
    }

    /// A document has got a tab, which takes the place of the welcome surface.
    pub fn insert_document(
        &mut self,
        facts: DocumentFacts,
        path: Option<PathId>,
        arm_dirty: bool,
        now: Instant,
    ) -> (effects: Vec<Effect>)
        ensures
            old(self).lifecycle.well_formed() ==> final(self).lifecycle.well_formed(),
            final(self).root == old(self).root,
            final(self).preview == old(self).preview,
            final(self).status == old(self).status,
            final(self).chrome == (ChromeState { show_welcome: false, ..old(self).chrome }),
            inserted(
                &old(self).lifecycle,
                &final(self).lifecycle,
                facts,
                path,
                arm_dirty,
                now,
                effects@,
            ),
    {
        self.chrome.show_welcome = false;
        self.lifecycle.document_inserted(facts, path, arm_dirty, now)
    }

    /// A document that has no path yet has got a tab.
    pub fn new_memory(&mut self, facts: DocumentFacts, now: Instant) -> (effects: Vec<Effect>)
        ensures
            old(self).lifecycle.well_formed() ==> final(self).lifecycle.well_formed(),
            final(self).root == old(self).root,
            final(self).preview == old(self).preview,
            final(self).status == old(self).status,
            final(self).chrome == (ChromeState {
                settings_open: false,
                show_welcome: false,
                ..old(self).chrome
            }),
            inserted(
                &old(self).lifecycle,
                &final(self).lifecycle,
                facts,
                None,
                true,
                now,
                effects@,
            ),
    {
        self.chrome.settings_open = false;
        self.insert_document(facts, None, true, now)
    }

    /// Open a file or a folder. A folder that the user picks replaces the
    /// workspace, which is for the interlock to grant.
    pub fn open_target(&mut self, target: TargetFacts, replace_workspace: bool) -> (step: TargetStep)
        ensures
            old(self).lifecycle.well_formed() ==> final(self).lifecycle.well_formed(),
            if target.is_dir {
                if replace_workspace {
                    &&& *final(self) == *old(self)
                    &&& step == (TargetStep::Replace { path: target.path })
                } else {
                    let folder = FolderFacts { path: target.path, is_dir: true };
                    &&& *final(self) == with_folder(*old(self), folder)
                    &&& step matches TargetStep::Folder { effects } && effects@ == folder_effects(
                        folder,
                    ).push(Effect::RecordRecentWorkspace { path: target.path })
                }
            } else if target.is_file && target.openable {
                step matches TargetStep::File { step: opening } && file_opening(
                    old(self),
                    final(self),
                    target.path,
                    false,
                    target.open,
                    None,
                    opening,
                )
            } else {
                &&& *final(self) == *old(self)
                &&& step matches TargetStep::Refused { effects } && effects@ == seq![
                    Effect::Report { notice: Notice::CannotOpen { path: target.path } },
                ]
            },
    {
        if target.is_dir {
            if replace_workspace {
                return TargetStep::Replace { path: target.path };
            }
            let mut effects = self.open_folder(FolderFacts { path: target.path, is_dir: true });
            effects.push(Effect::RecordRecentWorkspace { path: target.path });
            return TargetStep::Folder { effects };
        }
        if !target.is_file || !target.openable {
            return TargetStep::Refused {
                effects: report(Notice::CannotOpen { path: target.path }),
            };
        }
        TargetStep::File { step: self.open_file(target.path, target.open) }
    }

    /// A file that was opened by itself has its tab. Without a workspace, its
    /// folder becomes the root, but is no recently opened workspace.
    pub fn file_target_opened(&mut self, path: PathId, parent: Option<FolderFacts>) -> (effects: Vec<
        Effect,
    >)
        ensures
            if old(self).root is None && parent is Some {
                &&& *final(self) == with_folder(*old(self), parent->0)
                &&& effects@ == folder_effects(parent->0).push(Effect::RecordRecentFile { path })
            } else {
                &&& *final(self) == *old(self)
                &&& effects@ == seq![Effect::RecordRecentFile { path }]
            },
    {
        let mut effects: Vec<Effect> = Vec::new();
        if self.root.is_none() {
            match parent {
                Some(folder) => {
                    effects = self.open_folder(folder);
                },
                None => {},
            }
        }
        effects.push(Effect::RecordRecentFile { path });
        assert(old(self).root is None && parent is Some || effects@ =~= seq![
            Effect::RecordRecentFile { path },
        ]);
        effects
    }

    /// A tab is taken away, after the interlock has granted it.
    pub fn close_tab_unchecked(&mut self, tab: OpenTab) -> (effects: Vec<Effect>)
        ensures
            old(self).lifecycle.well_formed() ==> final(self).lifecycle.well_formed(),
            final(self).chrome == old(self).chrome,
            final(self).root == old(self).root,
            final(self).status == old(self).status,
            final(self).preview == vacated(old(self).preview, tab.path),
            tab_closed(
                &old(self).lifecycle,
                &final(self).lifecycle,
                tab.document,
                tab.path,
                effects@,
            ),
    {
        if self.preview == tab.path {
            self.preview = None;
        }
        self.lifecycle.close_tab_unchecked(tab.document, tab.path)
    }

    /// Carry out an action that the interlock has granted. `tabs` are those
    /// that the action takes away: the document's own, or all of them.
    pub fn perform_destructive(
        &mut self,
        action: DestructiveAction,
        tabs: &Vec<OpenTab>,
        is_dir: bool,
    ) -> (effects: Vec<Effect>)
        ensures
            old(self).lifecycle.well_formed() ==> final(self).lifecycle.well_formed(),
            performed(old(self), final(self), action, tabs@, is_dir, effects@),
    {
        match action {
            DestructiveAction::CloseTab { document } => {
                let mut i: usize = 0;
                while i < tabs.len()
                    invariant
                        i <= tabs.len(),
                        action == (DestructiveAction::CloseTab { document }),
                        *self == *old(self),
                        forall|j: int| 0 <= j < i ==> (#[trigger] tabs[j]).document != document,
                    decreases tabs.len() - i,
                {
                    let tab: OpenTab = tabs[i];
                    if tab.document == document {
                        let effects = self.close_tab_unchecked(tab);
                        proof {
                            assert forall|at: int| first_tab_of(tabs@, document, at) implies at
                                == i by {
                                assert(at < i ==> tabs[at].document != document);
                                assert(i < at ==> tabs@[i as int].document != document);
                            }
                            assert(tabs[i as int].document == document);
                        }
                        return effects;
                    }
                    i = i + 1;
                }
                let effects: Vec<Effect> = Vec::new();
                effects
            },
            DestructiveAction::CloseWindow => {
                let mut effects: Vec<Effect> = Vec::new();
                if self.lifecycle.close_window_after_input_drain() {
                    effects.push(Effect::DrainInput);
                    assert(effects@ =~= seq![Effect::DrainInput]);
                }
                effects
            },
            DestructiveAction::ReplaceWorkspace { path } => {
                let mut effects = self.close_all(tabs);
                let ghost closing = effects@;
                let mut opening = self.open_folder(FolderFacts { path, is_dir });
                effects.append(&mut opening);
                if self.root == Some(path) {
                    effects.push(Effect::RecordRecentWorkspace { path });
                }
                proof {
                    let folder = FolderFacts { path, is_dir };
                    let recorded = if self.root == Some(path) {
                        seq![Effect::RecordRecentWorkspace { path }]
                    } else {
                        Seq::empty()
                    };
                    assert(effects@ =~= closing + folder_effects(folder) + recorded);
                }
                effects
            },
        }
    }

    fn close_all(&mut self, tabs: &Vec<OpenTab>) -> (effects: Vec<Effect>)
        ensures
            old(self).lifecycle.well_formed() ==> final(self).lifecycle.well_formed(),
            final(self).chrome == old(self).chrome,
            final(self).root == old(self).root,
            final(self).status == old(self).status,
            final(self).preview == all_vacated(old(self).preview, tabs@),
            all_closed(&old(self).lifecycle, &final(self).lifecycle, tabs@),
            effects@ == all_closing(old(self).lifecycle.checkpoints.states@, tabs@),
    {
        let mut effects: Vec<Effect> = Vec::new();
        let mut left: usize = tabs.len();
        assert(tabs@.take(left as int) =~= tabs@);
        assert(effects@ + all_closing(self.lifecycle.checkpoints.states@, tabs@)
            =~= all_closing(self.lifecycle.checkpoints.states@, tabs@));
        while left > 0
            invariant
                left <= tabs.len(),
                self.chrome == old(self).chrome,
                self.root == old(self).root,
                self.status == old(self).status,
                self.lifecycle.same_but_checkpoints(&old(self).lifecycle),
                old(self).lifecycle.well_formed() ==> self.lifecycle.well_formed(),
                self.lifecycle.checkpoints.worker_active
                    == old(self).lifecycle.checkpoints.worker_active,
                self.lifecycle.checkpoints.timer_generation
                    == old(self).lifecycle.checkpoints.timer_generation,
                self.lifecycle.checkpoints.warning == (if left == tabs.len() {
                    old(self).lifecycle.checkpoints.warning
                } else {
                    unprotected(self.lifecycle.checkpoints.states@)
                }),
                all_vacated(self.preview, tabs@.take(left as int)) == all_vacated(
                    old(self).preview,
                    tabs@,
                ),
                all_released(self.lifecycle.checkpoints.states@, tabs@.take(left as int))
                    == all_released(old(self).lifecycle.checkpoints.states@, tabs@),
                effects@ + all_closing(
                    self.lifecycle.checkpoints.states@,
                    tabs@.take(left as int),
                ) == all_closing(old(self).lifecycle.checkpoints.states@, tabs@),
            decreases left,
        {
            left = left - 1;
            let tab: OpenTab = tabs[left];
            let ghost states = self.lifecycle.checkpoints.states@;
            let ghost done = effects@;
            proof {
                assert(tabs@.take(left + 1).drop_last() =~= tabs@.take(left as int));
                assert(tabs@.take(left + 1).last() == tab);
            }
            let mut more = self.close_tab_unchecked(tab);
            effects.append(&mut more);
            proof {
                let step = retiring_effects(entry(states, tab.document), tab.document, None)
                    + tab_closing(tab.document, tab.path);
                let rest = all_closing(states.remove(tab.document), tabs@.take(left as int));
                assert(effects@ =~= done + step);
                assert(done + (step + rest) =~= done + step + rest);
            }
        }
        proof {
            assert(tabs@.take(0).len() == 0);
            assert(effects@ + Seq::<Effect>::empty() =~= effects@);
        }
        effects
    }
}

/// Whether the first tab of a document is at `at`.
pub open spec fn first_tab_of(tabs: Seq<OpenTab>, document: DocumentId, at: int) -> bool {
    &&& 0 <= at < tabs.len()
    &&& tabs[at].document == document
    &&& forall|i: int| 0 <= i < at ==> (#[trigger] tabs[i]).document != document
}

/// How an action that the interlock has granted changes the workspace.
pub open spec fn performed(
    before: &Workspace,
    after: &Workspace,
    action: DestructiveAction,
    tabs: Seq<OpenTab>,
    is_dir: bool,
    effects: Seq<Effect>,
) -> bool {
    let states = before.lifecycle.checkpoints.states@;
    &&& after.status == before.status
    &&& match action {
        DestructiveAction::CloseTab { document } => {
            &&& after.chrome == before.chrome
            &&& after.root == before.root
            &&& forall|at: int| #[trigger]
                first_tab_of(tabs, document, at) ==> {
                    &&& after.preview == vacated(before.preview, tabs[at].path)
                    &&& tab_closed(
                        &before.lifecycle,
                        &after.lifecycle,
                        document,
                        tabs[at].path,
                        effects,
                    )
                }
            &&& (forall|i: int| 0 <= i < tabs.len() ==> (#[trigger] tabs[i]).document != document)
                ==> *after == *before && effects.len() == 0
        },
        DestructiveAction::CloseWindow => {
            &&& after.chrome == before.chrome
            &&& after.root == before.root
            &&& after.preview == before.preview
            &&& after.lifecycle.same_but_interlock(&before.lifecycle)
            &&& after.lifecycle.interlock == (Interlock {
                window_close_pending: true,
                ..before.lifecycle.interlock
            })
            &&& effects == (if before.lifecycle.interlock.window_close_pending {
                Seq::empty()
            } else {
                seq![Effect::DrainInput]
            })
        },
        DestructiveAction::ReplaceWorkspace { path } => {
            let folder = FolderFacts { path, is_dir };
            &&& after.root == with_folder(*before, folder).root
            &&& after.chrome == with_folder(*before, folder).chrome
            &&& after.preview == all_vacated(before.preview, tabs)
            &&& all_closed(&before.lifecycle, &after.lifecycle, tabs)
            &&& effects == all_closing(states, tabs) + folder_effects(folder) + (if after.root
                == Some(path) {
                seq![Effect::RecordRecentWorkspace { path }]
            } else {
                Seq::empty()
            })
        },
    }
}

fn push_focus(effects: &mut Vec<Effect>, path: PathId)
    ensures
        final(effects)@ == old(effects)@ + focusing(path),
{
    effects.push(Effect::FocusTab { path });
    effects.push(Effect::RecordVisit { path, offset: 0 });
    effects.push(Effect::RefreshWeb);
    assert(effects@ =~= old(effects)@ + focusing(path));
}

} // verus!
