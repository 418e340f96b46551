//! The welcome surface, and the targets that were opened recently.

use crate::checkpoint::DocumentFacts;
use crate::chrome::ChromeState;
use crate::documents::inserted;
use crate::effect::{Effect, Instant, PathId, TextId};
use crate::text::append;
use crate::words::{IconName, Key};
use crate::workspace::{TargetFacts, Workspace};
use std::collections::BTreeMap;
use vstd::prelude::*;

verus! {

broadcast use vstd::std_specs::btree::group_btree_axioms;

/// What kind of target was opened.
#[derive(Clone, Copy, Debug, PartialEq, Eq, Structural)]
pub enum RecentTargetKind {
    File,
    Workspace,
}

/// A target that was opened recently.
#[derive(Clone, Copy, Debug, PartialEq, Eq, Structural)]
pub struct RecentTarget {
    pub path: PathId,
    pub kind: RecentTargetKind,
    pub display_name: TextId,
}

/// What the disk says of a recent target.
#[derive(Clone, Copy, Debug, PartialEq, Eq, Structural)]
pub struct RecentFacts {
    pub target: RecentTarget,
    pub exists: bool,
    pub is_file: bool,
    pub is_dir: bool,
    /// The document pipeline can show files of this kind.
    pub openable: bool,
    /// A tab shows it.
    pub open: bool,
}

/// Why a recent target cannot be opened: it is gone, or it is no longer what
/// it was.
pub open spec fn issue_of(recent: RecentFacts) -> Option<Key> {
    if !recent.exists {
        Some(Key::RecentMissing)
    } else {
        match recent.target.kind {
            RecentTargetKind::File => if recent.is_file && recent.openable {
                None
            } else {
                Some(Key::RecentUnavailable)
            },
            RecentTargetKind::Workspace => if recent.is_dir {
                None
            } else {
                Some(Key::RecentUnavailable)
            },
        }
    }
}

/// Why a recent target cannot be opened, if it cannot.
pub fn recent_target_issue(recent: &RecentFacts) -> (issue: Option<Key>)
    ensures
        issue == issue_of(*recent),
{
    if !recent.exists {
        return Some(Key::RecentMissing);
    }
    let available = match recent.target.kind {
        RecentTargetKind::File => recent.is_file && recent.openable,
        RecentTargetKind::Workspace => recent.is_dir,
    };
    if available {
        None
    } else {
        Some(Key::RecentUnavailable)
    }
}

/// The name a recent target is shown under: that of its file, or else its whole
/// path.
pub fn recent_display_name(file_name: Option<&str>, path: &str) -> (name: String)
    ensures
        name@ == (match file_name {
            Some(file_name) => if file_name@.len() > 0 {
                file_name@
            } else {
                path@
            },
            None => path@,
        }),
{
    let mut name: String = String::new();
    match file_name {
        Some(file_name) => {
            append(&mut name, file_name);
            assert(name@ =~= file_name@);
            if name.unicode_len() == 0 {
                append(&mut name, path);
                assert(name@ =~= path@);
            }
        },
        None => {
            append(&mut name, path);
            assert(name@ =~= path@);
        },
    }
    name
}

/// Whether opening a target changes the list of recent ones: it does not if the
/// target is its head already.
pub fn moves_recent_targets(head: Option<RecentTarget>, target: RecentTarget) -> (moves: bool)
    ensures
        moves == (head != Some(target)),
{
    match head {
        Some(head) => head != target,
        None => true,
    }
}

/// Whether the first recent target at `path` is at `at`.
pub open spec fn first_recent(recents: Seq<RecentFacts>, path: PathId, at: int) -> bool {
    &&& 0 <= at < recents.len()
    &&& recents[at].target.path == path
    &&& forall|i: int| 0 <= i < at ==> (#[trigger] recents[i]).target.path != path
}

/// What to open for a recent target that was picked, as the disk is now. What
/// the surface has shown of it never authorizes opening it.
pub fn open_recent_target(recents: &Vec<RecentFacts>, path: PathId) -> (target: Option<TargetFacts>)
    ensures
        forall|at: int| #[trigger]
            first_recent(recents@, path, at) ==> target == (if issue_of(recents[at]) is None {
                Some(
                    TargetFacts {
                        path,
                        is_dir: recents[at].is_dir,
                        is_file: recents[at].is_file,
                        openable: recents[at].openable,
                        open: recents[at].open,
                    },
                )
            } else {
                None
            }),
        (forall|i: int| 0 <= i < recents.len() ==> (#[trigger] recents[i]).target.path != path)
            ==> target is None,
{
    let mut i: usize = 0;
    while i < recents.len()
        invariant
            i <= recents.len(),
            forall|j: int| 0 <= j < i ==> (#[trigger] recents[j]).target.path != path,
        decreases recents.len() - i,
    {
        let recent: RecentFacts = recents[i];
        if recent.target.path == path {
            proof {
                assert forall|at: int| first_recent(recents@, path, at) implies at == i by {
                    assert(at < i ==> recents[at].target.path != path);
                    assert(i < at ==> recents@[i as int].target.path != path);
                }
                assert(recents[i as int].target.path == path);
            }
            if recent_target_issue(&recent).is_some() {
                return None;
            }
            return Some(
                TargetFacts {
                    path,
                    is_dir: recent.is_dir,
                    is_file: recent.is_file,
                    openable: recent.openable,
                    open: recent.open,
                },
            );
        }
        i = i + 1;
    }
    None
}

/// What the welcome surface shows of the disk, as it was when the surface was
/// entered.
pub struct WelcomeAvailability {
    pub issues: BTreeMap<PathId, Option<Key>>,
    pub sample_available: bool,
}

/// The issues of `recents`, by path.
pub open spec fn issues_of(recents: Seq<RecentFacts>) -> Map<PathId, Option<Key>>
    decreases recents.len(),
{
    if recents.len() == 0 {
        Map::empty()
    } else {
        issues_of(recents.drop_last()).insert(
            recents.last().target.path,
            issue_of(recents.last()),
        )
    }
}

impl WelcomeAvailability {
    /// Look at the disk once, when the surface is entered.
    pub fn refreshed(recents: &Vec<RecentFacts>, sample_available: bool) -> (availability: Self)
        ensures
            availability.issues@ == issues_of(recents@),
            availability.sample_available == sample_available,
    {
        let mut issues: BTreeMap<PathId, Option<Key>> = BTreeMap::new();
        let mut i: usize = 0;
        while i < recents.len()
            invariant
                i <= recents.len(),
                issues@ == issues_of(recents@.take(i as int)),
            decreases recents.len() - i,
        {
            let recent: RecentFacts = recents[i];
            proof {
                assert(recents@.take(i + 1).drop_last() =~= recents@.take(i as int));
                assert(recents@.take(i + 1).last() == recent);
            }
            let issue = recent_target_issue(&recent);
            issues.insert(recent.target.path, issue);
            i = i + 1;
        }
        assert(recents@.take(recents.len() as int) =~= recents@);
        WelcomeAvailability { issues, sample_available }
    }

    /// What the surface says about a recent target.
    pub fn issue(&self, path: PathId) -> (issue: Option<Key>)
        ensures
            issue == (if self.issues@.contains_key(path) {
                self.issues@[path]
            } else {
                None
            }),
    {
        match self.issues.get(&path) {
            Some(issue) => *issue,
            None => None,
        }
    }
}

/// A command of the welcome surface.
#[derive(Clone, Copy, Debug, PartialEq, Eq, Structural)]
pub enum WelcomeCommand {
    NewDocument,
    Paste,
    OpenFile,
    OpenFolder,
    OpenSample,
    DontShowAgain,
}

/// A command of the welcome surface, as it is drawn.
#[derive(Clone, Copy, Debug, PartialEq, Eq, Structural)]
pub struct WelcomeButton {
    pub command: WelcomeCommand,
    pub icon: Option<IconName>,
    pub label: Key,
    pub enabled: bool,
}

/// The commands of the welcome surface, from top to bottom. The recent targets
/// stand above the last one.
pub open spec fn welcome_buttons(sample_available: bool) -> Seq<WelcomeButton> {
    seq![
        WelcomeButton {
            command: WelcomeCommand::NewDocument,
            icon: Some(IconName::Plus),
            label: Key::NewDocument,
            enabled: true,
        },
        WelcomeButton {
            command: WelcomeCommand::Paste,
            icon: Some(IconName::Copy),
            label: Key::Paste,
            enabled: true,
        },
        WelcomeButton {
            command: WelcomeCommand::OpenFile,
            icon: Some(IconName::File),
            label: Key::OpenFilePicker,
            enabled: true,
        },
        WelcomeButton {
            command: WelcomeCommand::OpenFolder,
            icon: Some(IconName::FolderOpen),
            label: Key::OpenFolderPicker,
            enabled: true,
        },
        WelcomeButton {
            command: WelcomeCommand::OpenSample,
            icon: Some(IconName::BookOpen),
            label: Key::OpenBundledSample,
            enabled: sample_available,
        },
        WelcomeButton {
            command: WelcomeCommand::DontShowAgain,
            icon: None,
            label: Key::DontShowWelcomeAgain,
            enabled: true,
        },
    ]
}

/// The commands of the welcome surface, from top to bottom.
pub fn welcome_commands(sample_available: bool) -> (buttons: Vec<WelcomeButton>)
    ensures
        buttons@ == welcome_buttons(sample_available),
{
    let mut buttons: Vec<WelcomeButton> = Vec::new();
    buttons.push(
        WelcomeButton {
            command: WelcomeCommand::NewDocument,
            icon: Some(IconName::Plus),
            label: Key::NewDocument,
            enabled: true,
        },
    );
    buttons.push(
        WelcomeButton {
            command: WelcomeCommand::Paste,
            icon: Some(IconName::Copy),
            label: Key::Paste,
            enabled: true,
        },
    );
    buttons.push(
        WelcomeButton {
            command: WelcomeCommand::OpenFile,
            icon: Some(IconName::File),
            label: Key::OpenFilePicker,
            enabled: true,
        },
    );
    buttons.push(
        WelcomeButton {
            command: WelcomeCommand::OpenFolder,
            icon: Some(IconName::FolderOpen),
            label: Key::OpenFolderPicker,
            enabled: true,
        },
    );
    buttons.push(
        WelcomeButton {
            command: WelcomeCommand::OpenSample,
            icon: Some(IconName::BookOpen),
            label: Key::OpenBundledSample,
            enabled: sample_available,
        },
    );
    buttons.push(
        WelcomeButton {
            command: WelcomeCommand::DontShowAgain,
            icon: None,
            label: Key::DontShowWelcomeAgain,
            enabled: true,
        },
    );
    assert(buttons@ =~= welcome_buttons(sample_available));
    buttons
}

/// The stable identity of a command.
pub fn welcome_command_id(command: WelcomeCommand) -> (id: &'static str)
    ensures
        id@ == (match command {
            WelcomeCommand::NewDocument => "welcome-new"@,
            WelcomeCommand::Paste => "welcome-paste"@,
            WelcomeCommand::OpenFile => "welcome-open-file"@,
            WelcomeCommand::OpenFolder => "welcome-open-folder"@,
            WelcomeCommand::OpenSample => "welcome-open-sample"@,
            WelcomeCommand::DontShowAgain => "welcome-dont-show-again"@,
        }),
{
    match command {
        WelcomeCommand::NewDocument => "welcome-new",
        WelcomeCommand::Paste => "welcome-paste",
        WelcomeCommand::OpenFile => "welcome-open-file",
        WelcomeCommand::OpenFolder => "welcome-open-folder",
        WelcomeCommand::OpenSample => "welcome-open-sample",
        WelcomeCommand::DontShowAgain => "welcome-dont-show-again",
    }
}

/// The identity of a command to assistive technology.
pub fn welcome_accessibility_id(command: WelcomeCommand) -> (id: &'static str)
    ensures
        id@ == (match command {
            WelcomeCommand::NewDocument => "markturbo-welcome-new"@,
            WelcomeCommand::Paste => "markturbo-welcome-paste"@,
            WelcomeCommand::OpenFile => "markturbo-welcome-open-file"@,
            WelcomeCommand::OpenFolder => "markturbo-welcome-open-folder"@,
            WelcomeCommand::OpenSample => "markturbo-welcome-open-sample"@,
            WelcomeCommand::DontShowAgain => "markturbo-welcome-dont-show-again"@,
        }),
{
    match command {
        WelcomeCommand::NewDocument => "markturbo-welcome-new",
        WelcomeCommand::Paste => "markturbo-welcome-paste",
        WelcomeCommand::OpenFile => "markturbo-welcome-open-file",
        WelcomeCommand::OpenFolder => "markturbo-welcome-open-folder",
        WelcomeCommand::OpenSample => "markturbo-welcome-open-sample",
        WelcomeCommand::DontShowAgain => "markturbo-welcome-dont-show-again",
    }
}

/// A recent target, as it is drawn.
pub struct RecentRow {
    pub label: String,
    pub icon: IconName,
    /// Why it cannot be opened, if it cannot.
    pub issue: Option<Key>,
    pub open_id: String,
    pub open_accessibility_id: String,
    pub remove_id: String,
    pub remove_accessibility_id: String,
    pub status_id: String,
}

impl RecentRow {
    /// Whether the target can be opened from its row. A stale one can only be
    /// removed from the list.
    pub fn enabled(&self) -> (enabled: bool)
        ensures
            enabled == self.issue is None,
    {
        self.issue.is_none()
    }
}

fn joined(prefix: &str, identity: &str) -> (id: String)
    ensures
        id@ == prefix@ + identity@,
{
    let mut id: String = String::new();
    append(&mut id, prefix);
    append(&mut id, identity);
    assert(id@ =~= prefix@ + identity@);
    id
}

/// The label of a recent target: its name and the folder it is in.
pub open spec fn recent_label(
    display_name: Seq<char>,
    path: Seq<char>,
    parent: Option<Seq<char>>,
) -> Seq<char> {
    if display_name.len() == 0 {
        path
    } else {
        match parent {
            Some(parent) => display_name + "  "@ + parent,
            None => display_name,
        }
    }
}

/// A recent target, as it is drawn. `identity` is unique to its path.
pub fn recent_row(
    kind: RecentTargetKind,
    display_name: &str,
    path: &str,
    parent: Option<&str>,
    identity: &str,
    issue: Option<Key>,
) -> (row: RecentRow)
    ensures
        row.label@ == recent_label(
            display_name@,
            path@,
            match parent {
                Some(parent) => Some(parent@),
                None => None,
            },
        ),
        row.icon == (match kind {
            RecentTargetKind::File => IconName::File,
            RecentTargetKind::Workspace => IconName::Folder,
        }),
        row.issue == issue,
        row.open_id@ == "welcome-recent-"@ + identity@,
        row.open_accessibility_id@ == "markturbo-welcome-recent-"@ + identity@,
        row.remove_id@ == "welcome-recent-remove-"@ + identity@,
        row.remove_accessibility_id@ == "markturbo-welcome-recent-remove-"@ + identity@,
        row.status_id@ == "markturbo-welcome-recent-status-"@ + identity@,
{
    let mut label: String = String::new();
    append(&mut label, display_name);
    assert(label@ =~= display_name@);
    if label.unicode_len() == 0 {
        append(&mut label, path);
        assert(label@ =~= path@);
    } else {
        match parent {
            Some(parent) => {
                append(&mut label, "  ");
                append(&mut label, parent);
            },
            None => {},
        }
    }
    RecentRow {
        label,
        icon: match kind {
            RecentTargetKind::File => IconName::File,
            RecentTargetKind::Workspace => IconName::Folder,
        },
        issue,
        open_id: joined("welcome-recent-", identity),
        open_accessibility_id: joined("markturbo-welcome-recent-", identity),
        remove_id: joined("welcome-recent-remove-", identity),
        remove_accessibility_id: joined("markturbo-welcome-recent-remove-", identity),
        status_id: joined("markturbo-welcome-recent-status-", identity),
    }
}

impl Workspace {
    /// Never show the welcome surface again, and start with a document.
    pub fn dont_show_welcome_again(&mut self, facts: DocumentFacts, now: Instant) -> (effects: Vec<
        Effect,
    >)
        ensures
            old(self).lifecycle.well_formed() ==> final(self).lifecycle.well_formed(),
            final(self).root == old(self).root,
            final(self).preview == old(self).preview,
            final(self).status == old(self).status,
            final(self).chrome == (ChromeState {
                settings_open: false,
                show_welcome: false,
                ..old(self).chrome
            }),
            effects@.len() > 0,
            effects@[0] == Effect::DisableWelcome,
            inserted(
                &old(self).lifecycle,
                &final(self).lifecycle,
                facts,
                None,
                true,
                now,
                effects@.skip(1),
            ),
    {
        let mut effects: Vec<Effect> = Vec::new();
        effects.push(Effect::DisableWelcome);
        let mut more = self.new_memory(facts, now);
        let ghost opening = more@;
        effects.append(&mut more);
        assert(effects@.skip(1) =~= opening);
        effects
    }
}

/// A recent target can be opened exactly where it is still there and still what
/// it was: a file that can be shown, or a folder. One that is gone is told from
/// one that has changed.
pub proof fn law_a_recent_target_is_judged_by_what_is_there(recent: RecentFacts)
    ensures
        issue_of(recent) is None <==> recent.exists && match recent.target.kind {
            RecentTargetKind::File => recent.is_file && recent.openable,
            RecentTargetKind::Workspace => recent.is_dir,
        },
        issue_of(recent) == Some(Key::RecentMissing) <==> !recent.exists,
        issue_of(recent) is Some && recent.exists ==> issue_of(recent) == Some(
            Key::RecentUnavailable,
        ),
{
}

/// The surface knows of every recent target what its last entry says, and of
/// nothing else.
pub proof fn law_the_surface_knows_every_recent_target(
    recents: Seq<RecentFacts>,
    path: PathId,
    at: int,
)
    ensures
        issues_of(recents).contains_key(path) <==> exists|i: int|
            0 <= i < recents.len() && (#[trigger] recents[i]).target.path == path,
        0 <= at < recents.len() && recents[at].target.path == path && (forall|i: int|
            at < i < recents.len() ==> (#[trigger] recents[i]).target.path != path) ==> issues_of(
            recents,
        )[path] == issue_of(recents[at]),
    decreases recents.len(),
{
    if recents.len() > 0 {
        let rest = recents.drop_last();
        law_the_surface_knows_every_recent_target(rest, path, at);
        assert(recents[recents.len() - 1] == recents.last());
        assert forall|i: int| 0 <= i < rest.len() implies #[trigger] rest[i] == recents[i] by {}
        if exists|i: int| 0 <= i < rest.len() && (#[trigger] rest[i]).target.path == path {
            let i = choose|i: int| 0 <= i < rest.len() && (#[trigger] rest[i]).target.path == path;
            assert(recents[i].target.path == path);
        }
        if exists|i: int| 0 <= i < recents.len() && (#[trigger] recents[i]).target.path == path {
            let i = choose|i: int|
                0 <= i < recents.len() && (#[trigger] recents[i]).target.path == path;
            if i < rest.len() {
                assert(rest[i].target.path == path);
            }
        }
    }
}

/// Every command of the surface is there once, and can be used but for a sample
/// that is not there.
pub proof fn law_every_welcome_command_is_there(sample_available: bool, command: WelcomeCommand)
    ensures
        exists|i: int|
            0 <= i < welcome_buttons(sample_available).len() && #[trigger] welcome_buttons(
                sample_available,
            )[i].command == command,
        forall|i: int, j: int|
            0 <= i < j < welcome_buttons(sample_available).len() ==> #[trigger] welcome_buttons(
                sample_available,
            )[i].command != #[trigger] welcome_buttons(sample_available)[j].command,
        forall|i: int|
            0 <= i < welcome_buttons(sample_available).len() ==> (#[trigger] welcome_buttons(
                sample_available,
            )[i]).enabled == (sample_available || !(welcome_buttons(sample_available)[i].command
                is OpenSample)),
{
    let buttons = welcome_buttons(sample_available);
    let at: int = match command {
        WelcomeCommand::NewDocument => 0,
        WelcomeCommand::Paste => 1,
        WelcomeCommand::OpenFile => 2,
        WelcomeCommand::OpenFolder => 3,
        WelcomeCommand::OpenSample => 4,
        WelcomeCommand::DontShowAgain => 5,
    };
    assert(buttons[at].command == command);
}

/// A recent target is labelled with its name and the folder it is in, or with
/// its path where it has no name.
pub proof fn law_a_recent_label_names_its_target(
    display_name: Seq<char>,
    path: Seq<char>,
    parent: Option<Seq<char>>,
)
    ensures
        display_name.len() > 0 ==> display_name.is_prefix_of(
            recent_label(display_name, path, parent),
        ),
        display_name.len() == 0 ==> recent_label(display_name, path, parent) == path,
        display_name.len() > 0 && parent is Some ==> {
            let label = recent_label(display_name, path, parent);
            label.skip(label.len() - parent->0.len()) == parent->0
        },
        display_name.len() > 0 && parent is None ==> recent_label(display_name, path, parent)
            == display_name,
{
    let label = recent_label(display_name, path, parent);
    if display_name.len() > 0 {
        assert(label.take(display_name.len() as int) =~= display_name);
        if parent is Some {
            assert(label.skip(label.len() - parent->0.len()) =~= parent->0);
        }
    }
}

} // verus!
