//! The keyboard shortcuts of the workspace.

use crate::chrome::KeyContext;
use vstd::prelude::*;

verus! {

/// What a shortcut does.
#[derive(Clone, Copy, Debug, PartialEq, Eq, Structural)]
pub enum Action {
    NewDocument,
    PasteIntoNew,
    OpenFile,
    OpenFolder,
    Save,
    SaveAs,
    CloseTab,
    OpenSettings,
    TranslateDocument,
    TranslateSelection,
    TranslateBlock,
    CopyPath,
    CopyRelativePath,
    ToggleLeftPanel,
    ToggleRightPanel,
    FocusSearch,
    NavigateBack,
    NavigateForward,
}

/// A keystroke and what it does. Without a context it applies everywhere.
#[derive(Clone, Copy, Debug, PartialEq, Eq)]
pub struct Shortcut {
    pub keystroke: &'static str,
    pub action: Action,
    pub context: Option<KeyContext>,
}

/// A shortcut, as the tables of this module list it.
pub open spec fn listed(
    keystroke: Seq<char>,
    action: Action,
    context: Option<KeyContext>,
) -> (Seq<char>, Action, Option<KeyContext>) {
    (keystroke, action, context)
}

/// The shortcuts for opening and closing documents. Pasting starts a document
/// only on the welcome surface: elsewhere the keystroke is the editor's.
pub open spec fn document_shortcuts() -> Seq<(Seq<char>, Action, Option<KeyContext>)> {
    seq![
        listed("cmd-n"@, Action::NewDocument, None),
        listed("ctrl-n"@, Action::NewDocument, None),
        listed("cmd-v"@, Action::PasteIntoNew, Some(KeyContext::Welcome)),
        listed("ctrl-v"@, Action::PasteIntoNew, Some(KeyContext::Welcome)),
        listed("cmd-o"@, Action::OpenFile, None),
        listed("ctrl-o"@, Action::OpenFile, None),
        listed("cmd-shift-o"@, Action::OpenFolder, None),
        listed("ctrl-alt-o"@, Action::OpenFolder, None),
        listed("cmd-s"@, Action::Save, None),
        listed("ctrl-s"@, Action::Save, None),
        listed("cmd-shift-s"@, Action::SaveAs, None),
        listed("ctrl-shift-s"@, Action::SaveAs, None),
        listed("cmd-w"@, Action::CloseTab, None),
        listed("ctrl-w"@, Action::CloseTab, None),
        listed("cmd-,"@, Action::OpenSettings, None),
        listed("ctrl-,"@, Action::OpenSettings, None),
    ]
}

/// The shortcuts for translating, for the panels, and for moving about. The
/// three reaches of a translation are the document, the selection, and the
/// block under the cursor. The plain find keystroke stays with the editor: it
/// searches one document, the workspace's searches all of them.
pub open spec fn view_shortcuts() -> Seq<(Seq<char>, Action, Option<KeyContext>)> {
    seq![
        listed("cmd-shift-t"@, Action::TranslateDocument, None),
        listed("ctrl-shift-t"@, Action::TranslateDocument, None),
        listed("cmd-shift-l"@, Action::TranslateSelection, None),
        listed("ctrl-shift-l"@, Action::TranslateSelection, None),
        listed("cmd-shift-b"@, Action::TranslateBlock, None),
        listed("ctrl-shift-b"@, Action::TranslateBlock, None),
        listed("cmd-b"@, Action::ToggleLeftPanel, None),
        listed("ctrl-b"@, Action::ToggleLeftPanel, None),
        listed("cmd-alt-b"@, Action::ToggleRightPanel, None),
        listed("ctrl-alt-b"@, Action::ToggleRightPanel, None),
        listed("cmd-shift-f"@, Action::FocusSearch, None),
        listed("ctrl-shift-f"@, Action::FocusSearch, None),
        listed("ctrl-alt--"@, Action::NavigateBack, None),
        listed("ctrl-alt-shift--"@, Action::NavigateForward, None),
        listed("cmd-alt-left"@, Action::NavigateBack, None),
        listed("cmd-alt-right"@, Action::NavigateForward, None),
        listed("alt-left"@, Action::NavigateBack, None),
        listed("alt-right"@, Action::NavigateForward, None),
    ]
}

/// What `shortcuts` list.
pub open spec fn tabulated(shortcuts: Seq<Shortcut>) -> Seq<
    (Seq<char>, Action, Option<KeyContext>),
> {
    shortcuts.map_values(
        |shortcut: Shortcut| listed(shortcut.keystroke@, shortcut.action, shortcut.context),
    )
}

fn bind(
    shortcuts: &mut Vec<Shortcut>,
    keystroke: &'static str,
    action: Action,
    context: Option<KeyContext>,
)
    ensures
        tabulated(final(shortcuts)@) == tabulated(old(shortcuts)@).push(
            listed(keystroke@, action, context),
        ),
{
    shortcuts.push(Shortcut { keystroke, action, context });
    assert(tabulated(shortcuts@) =~= tabulated(old(shortcuts)@).push(
        listed(keystroke@, action, context),
    ));
}

fn bind_document_shortcuts(shortcuts: &mut Vec<Shortcut>)
    requires
        old(shortcuts)@.len() == 0,
    ensures
        tabulated(final(shortcuts)@) == document_shortcuts(),
{
    bind(shortcuts, "cmd-n", Action::NewDocument, None);
    bind(shortcuts, "ctrl-n", Action::NewDocument, None);
    bind(shortcuts, "cmd-v", Action::PasteIntoNew, Some(KeyContext::Welcome));
    bind(shortcuts, "ctrl-v", Action::PasteIntoNew, Some(KeyContext::Welcome));
    bind(shortcuts, "cmd-o", Action::OpenFile, None);
    bind(shortcuts, "ctrl-o", Action::OpenFile, None);
    bind(shortcuts, "cmd-shift-o", Action::OpenFolder, None);
    bind(shortcuts, "ctrl-alt-o", Action::OpenFolder, None);
    bind(shortcuts, "cmd-s", Action::Save, None);
    bind(shortcuts, "ctrl-s", Action::Save, None);
    bind(shortcuts, "cmd-shift-s", Action::SaveAs, None);
    bind(shortcuts, "ctrl-shift-s", Action::SaveAs, None);
    bind(shortcuts, "cmd-w", Action::CloseTab, None);
    bind(shortcuts, "ctrl-w", Action::CloseTab, None);
    bind(shortcuts, "cmd-,", Action::OpenSettings, None);
    bind(shortcuts, "ctrl-,", Action::OpenSettings, None);
    assert(tabulated(shortcuts@) =~= document_shortcuts());
}

fn bind_view_shortcuts(shortcuts: &mut Vec<Shortcut>)
    ensures
        tabulated(final(shortcuts)@) == tabulated(old(shortcuts)@) + view_shortcuts(),
{
    bind(shortcuts, "cmd-shift-t", Action::TranslateDocument, None);
    bind(shortcuts, "ctrl-shift-t", Action::TranslateDocument, None);
    bind(shortcuts, "cmd-shift-l", Action::TranslateSelection, None);
    bind(shortcuts, "ctrl-shift-l", Action::TranslateSelection, None);
    bind(shortcuts, "cmd-shift-b", Action::TranslateBlock, None);
    bind(shortcuts, "ctrl-shift-b", Action::TranslateBlock, None);
    bind(shortcuts, "cmd-b", Action::ToggleLeftPanel, None);
    bind(shortcuts, "ctrl-b", Action::ToggleLeftPanel, None);
    bind(shortcuts, "cmd-alt-b", Action::ToggleRightPanel, None);
    bind(shortcuts, "ctrl-alt-b", Action::ToggleRightPanel, None);
    bind(shortcuts, "cmd-shift-f", Action::FocusSearch, None);
    bind(shortcuts, "ctrl-shift-f", Action::FocusSearch, None);
    bind(shortcuts, "ctrl-alt--", Action::NavigateBack, None);
    bind(shortcuts, "ctrl-alt-shift--", Action::NavigateForward, None);
    bind(shortcuts, "cmd-alt-left", Action::NavigateBack, None);
    bind(shortcuts, "cmd-alt-right", Action::NavigateForward, None);
    bind(shortcuts, "alt-left", Action::NavigateBack, None);
    bind(shortcuts, "alt-right", Action::NavigateForward, None);
    assert(tabulated(shortcuts@) =~= tabulated(old(shortcuts)@) + view_shortcuts());
}

/// The keyboard shortcuts of the workspace's actions.
pub fn init() -> (shortcuts: Vec<Shortcut>)
    ensures
        tabulated(shortcuts@) == document_shortcuts() + view_shortcuts(),
{
    let mut shortcuts: Vec<Shortcut> = Vec::new();
    bind_document_shortcuts(&mut shortcuts);
    bind_view_shortcuts(&mut shortcuts);
    shortcuts
}

/// Pasting starts a document only on the welcome surface, and nothing else is
/// confined to it.
pub proof fn law_only_pasting_is_confined_to_the_welcome_surface(at: int)
    requires
        0 <= at < (document_shortcuts() + view_shortcuts()).len(),
    ensures
        (document_shortcuts() + view_shortcuts())[at].1 == Action::PasteIntoNew <==> (
        document_shortcuts() + view_shortcuts())[at].2 == Some(KeyContext::Welcome),
        (document_shortcuts() + view_shortcuts())[at].1 != Action::PasteIntoNew ==> (
        document_shortcuts() + view_shortcuts())[at].2 is None,
{
}

/// The keystrokes of an action, on one kind of keyboard and on the other. Moving
/// about has more than one keystroke on each, and copying a path has none.
pub open spec fn keystrokes(action: Action) -> Set<Seq<char>> {
    match action {
        Action::NewDocument => set!["cmd-n"@, "ctrl-n"@],
        Action::PasteIntoNew => set!["cmd-v"@, "ctrl-v"@],
        Action::OpenFile => set!["cmd-o"@, "ctrl-o"@],
        Action::OpenFolder => set!["cmd-shift-o"@, "ctrl-alt-o"@],
        Action::Save => set!["cmd-s"@, "ctrl-s"@],
        Action::SaveAs => set!["cmd-shift-s"@, "ctrl-shift-s"@],
        Action::CloseTab => set!["cmd-w"@, "ctrl-w"@],
        Action::OpenSettings => set!["cmd-,"@, "ctrl-,"@],
        Action::TranslateDocument => set!["cmd-shift-t"@, "ctrl-shift-t"@],
        Action::TranslateSelection => set!["cmd-shift-l"@, "ctrl-shift-l"@],
        Action::TranslateBlock => set!["cmd-shift-b"@, "ctrl-shift-b"@],
        Action::ToggleLeftPanel => set!["cmd-b"@, "ctrl-b"@],
        Action::ToggleRightPanel => set!["cmd-alt-b"@, "ctrl-alt-b"@],
        Action::FocusSearch => set!["cmd-shift-f"@, "ctrl-shift-f"@],
        Action::NavigateBack => set!["ctrl-alt--"@, "cmd-alt-left"@, "alt-left"@],
        Action::NavigateForward => set!["ctrl-alt-shift--"@, "cmd-alt-right"@, "alt-right"@],
        Action::CopyPath | Action::CopyRelativePath => Set::empty(),
    }
}

/// Every keystroke of every action is bound to that action, and nothing else is
/// bound.
pub proof fn law_every_action_is_reached_by_its_keystrokes(action: Action, keystroke: Seq<char>)
    ensures
        keystrokes(action).contains(keystroke) <==> exists|at: int|
            0 <= at < (document_shortcuts() + view_shortcuts()).len() && (
            #[trigger] (document_shortcuts() + view_shortcuts())[at]).0 == keystroke && (
            document_shortcuts() + view_shortcuts())[at].1 == action,
{
    let table = document_shortcuts() + view_shortcuts();
    let first = document_shortcuts().len() as int;
    assert(table[0].0 == "cmd-n"@);
    assert(table[1].0 == "ctrl-n"@);
    assert(table[2].0 == "cmd-v"@);
    assert(table[3].0 == "ctrl-v"@);
    assert(table[4].0 == "cmd-o"@);
    assert(table[5].0 == "ctrl-o"@);
    assert(table[6].0 == "cmd-shift-o"@);
    assert(table[7].0 == "ctrl-alt-o"@);
    assert(table[8].0 == "cmd-s"@);
    assert(table[9].0 == "ctrl-s"@);
    assert(table[10].0 == "cmd-shift-s"@);
    assert(table[11].0 == "ctrl-shift-s"@);
    assert(table[12].0 == "cmd-w"@);
    assert(table[13].0 == "ctrl-w"@);
    assert(table[14].0 == "cmd-,"@);
    assert(table[15].0 == "ctrl-,"@);
    assert(table[first + 0].0 == "cmd-shift-t"@);
    assert(table[first + 1].0 == "ctrl-shift-t"@);
    assert(table[first + 2].0 == "cmd-shift-l"@);
    assert(table[first + 3].0 == "ctrl-shift-l"@);
    assert(table[first + 4].0 == "cmd-shift-b"@);
    assert(table[first + 5].0 == "ctrl-shift-b"@);
    assert(table[first + 6].0 == "cmd-b"@);
    assert(table[first + 7].0 == "ctrl-b"@);
    assert(table[first + 8].0 == "cmd-alt-b"@);
    assert(table[first + 9].0 == "ctrl-alt-b"@);
    assert(table[first + 10].0 == "cmd-shift-f"@);
    assert(table[first + 11].0 == "ctrl-shift-f"@);
    assert(table[first + 12].0 == "ctrl-alt--"@);
    assert(table[first + 13].0 == "ctrl-alt-shift--"@);
    assert(table[first + 14].0 == "cmd-alt-left"@);
    assert(table[first + 15].0 == "cmd-alt-right"@);
    assert(table[first + 16].0 == "alt-left"@);
    assert(table[first + 17].0 == "alt-right"@);
    if exists|at: int|
        0 <= at < table.len() && (#[trigger] table[at]).0 == keystroke && table[at].1 == action {
        let at = choose|at: int|
            0 <= at < table.len() && (#[trigger] table[at]).0 == keystroke && table[at].1 == action;
        if at < first {
            assert(table[at] == document_shortcuts()[at]);
        } else {
            assert(table[at] == view_shortcuts()[at - first]);
        }
    }
}

} // verus!
