//! What the window shows around the document.

use crate::effect::Notice;
use crate::panels::{details_content, DetailsContent, SidePanel};
use crate::text::append;
use crate::words::{IconName, Key};
use vstd::prelude::*;

verus! {

/// How an icon-only command behaves.
#[derive(Clone, Copy, Debug, PartialEq, Eq, Structural)]
pub struct ChromeIconButton {
    /// `None` for a command; whether it is on, for a toggle.
    pub pressed: Option<bool>,
    pub disabled: bool,
    pub loading: bool,
}

/// How an icon-only command is drawn.
#[derive(Clone, Copy, Debug, PartialEq, Eq, Structural)]
pub struct ChromeIconButtonLook {
    /// It takes no presses and no clicks.
    pub inert: bool,
    /// A spinner stands in place of the icon.
    pub spinner: bool,
    /// It answers to the pointer hovering over it.
    pub hover: bool,
    /// It is drawn in the muted color of a disabled control.
    pub muted: bool,
    /// It is drawn slightly transparent.
    pub faded: bool,
    /// It shows that it has the keyboard focus.
    pub focus_ring: bool,
}

/// How an icon-only command is drawn.
pub open spec fn button_look(button: ChromeIconButton, is_focused: bool) -> ChromeIconButtonLook {
    let inert = button.disabled || button.loading;
    ChromeIconButtonLook {
        inert,
        spinner: button.loading,
        hover: !inert && button.pressed != Some(true),
        muted: inert && !button.loading,
        faded: button.loading && button.pressed is None,
        focus_ring: is_focused && !inert,
    }
}

impl ChromeIconButton {
    /// A command that is neither disabled nor loading.
    pub fn new() -> (button: Self)
        ensures
            button == (ChromeIconButton { pressed: None, disabled: false, loading: false }),
    {
        ChromeIconButton { pressed: None, disabled: false, loading: false }
    }

    /// A toggle that is on or off.
    pub fn pressed(self, pressed: bool) -> (button: Self)
        ensures
            button == (ChromeIconButton { pressed: Some(pressed), ..self }),
    {
        ChromeIconButton { pressed: Some(pressed), ..self }
    }

    /// The same command, taking no clicks if `disabled`.
    pub fn disabled(self, disabled: bool) -> (button: Self)
        ensures
            button == (ChromeIconButton { disabled, ..self }),
    {
        ChromeIconButton { disabled, ..self }
    }

    /// The same command, at work if `loading`.
    pub fn loading(self, loading: bool) -> (button: Self)
        ensures
            button == (ChromeIconButton { loading, ..self }),
    {
        ChromeIconButton { loading, ..self }
    }

    /// The look of the command. A command that is loading goes inert, so that a
    /// second click cannot start it twice, but is not drawn as disabled.
    pub fn look(&self, is_focused: bool) -> (look: ChromeIconButtonLook)
        ensures
            look == button_look(*self, is_focused),
    {
        let inert = self.disabled || self.loading;
        let on = match self.pressed {
            Some(pressed) => pressed,
            None => false,
        };
        ChromeIconButtonLook {
            inert,
            spinner: self.loading,
            hover: !inert && !on,
            muted: inert && !self.loading,
            faded: self.loading && self.pressed.is_none(),
            focus_ring: is_focused && !inert,
        }
    }
}

/// A loading command takes no second click, and a command that takes clicks is
/// neither disabled nor loading.
pub proof fn law_inert_commands_take_no_clicks(button: ChromeIconButton, is_focused: bool)
    ensures
        button.loading ==> button_look(button, is_focused).inert,
        button_look(button, is_focused).inert ==> !button_look(button, is_focused).hover
            && !button_look(button, is_focused).focus_ring,
        !button_look(button, is_focused).inert <==> !button.disabled && !button.loading,
{
}

/// The identity of the popup of a command.
pub fn tooltip_id(id: &str) -> (text: String)
    ensures
        text@ == "chrome-tooltip-"@ + id@,
{
    let mut text: String = String::new();
    append(&mut text, "chrome-tooltip-");
    append(&mut text, id);
    assert(text@ =~= "chrome-tooltip-"@ + id@);
    text
}

/// An entry of the left panel's navigation.
#[derive(Clone, Copy, Debug, PartialEq, Eq, Structural)]
pub struct SidebarNavigationButton {
    pub panel: SidePanel,
    pub selected: bool,
}

/// How an entry of the left panel's navigation is drawn.
#[derive(Clone, Copy, Debug, PartialEq, Eq, Structural)]
pub struct SidebarNavigationLook {
    /// It answers to the pointer hovering over it.
    pub hover: bool,
    pub focus_ring: bool,
}

impl SidebarNavigationButton {
    /// The look of the entry.
    pub fn look(&self, is_focused: bool) -> (look: SidebarNavigationLook)
        ensures
            look == (SidebarNavigationLook { hover: !self.selected, focus_ring: is_focused }),
    {
        SidebarNavigationLook { hover: !self.selected, focus_ring: is_focused }
    }
}

/// The left panel's navigation, from top to bottom.
pub fn side_panel_buttons(current: SidePanel) -> (buttons: Vec<SidebarNavigationButton>)
    ensures
        buttons@ == seq![
            SidebarNavigationButton {
                panel: SidePanel::Files,
                selected: current == SidePanel::Files,
            },
            SidebarNavigationButton {
                panel: SidePanel::Search,
                selected: current == SidePanel::Search,
            },
            SidebarNavigationButton {
                panel: SidePanel::Harness,
                selected: current == SidePanel::Harness,
            },
            SidebarNavigationButton {
                panel: SidePanel::Outline,
                selected: current == SidePanel::Outline,
            },
        ],
{
    let mut buttons: Vec<SidebarNavigationButton> = Vec::new();
    let panels = SidePanel::all();
    let mut i: usize = 0;
    while i < 4
        invariant
            i <= 4,
            panels@ == seq![
                SidePanel::Files,
                SidePanel::Search,
                SidePanel::Harness,
                SidePanel::Outline,
            ],
            buttons.len() == i,
            forall|j: int|
                0 <= j < i ==> (#[trigger] buttons[j]) == (SidebarNavigationButton {
                    panel: panels@[j],
                    selected: current == panels@[j],
                }),
        decreases 4 - i,
    {
        let panel: SidePanel = panels[i];
        buttons.push(SidebarNavigationButton { panel, selected: panel == current });
        i = i + 1;
    }
    buttons
}

/// How the platform draws a window.
#[derive(Clone, Copy, Debug, PartialEq, Eq, Structural)]
pub enum Platform {
    /// It draws the window's own controls outside the title row.
    ControlsOutside,
    /// Linux, where the application draws the controls if `client` says so.
    Linux { client: bool },
    /// The controls stand in the title row.
    ControlsInside,
}

/// How many of the window's own controls stand in the title row.
pub fn native_window_controls(platform: Platform, minimize: bool, maximize: bool) -> (count: u32)
    ensures
        count == (if platform is ControlsOutside || platform == (Platform::Linux { client: false }) {
            0
        } else {
            1int + (if minimize {
                1int
            } else {
                0
            }) + (if maximize {
                1int
            } else {
                0
            })
        }),
{
    let outside = match platform {
        Platform::ControlsOutside => true,
        Platform::Linux { client } => !client,
        Platform::ControlsInside => false,
    };
    if outside {
        return 0;
    }
    let mut count: u32 = 1;
    if minimize {
        count = count + 1;
    }
    if maximize {
        count = count + 1;
    }
    count
}

/// A command in the title bar.
#[derive(Clone, Copy, Debug, PartialEq, Eq, Structural)]
pub enum TitleCommand {
    OpenFolder,
    Translate,
    ToggleRightPanel,
    Settings,
}

/// A command in the title bar, as it is drawn.
#[derive(Clone, Copy, Debug, PartialEq, Eq, Structural)]
pub struct TitleButton {
    pub command: TitleCommand,
    pub icon: IconName,
    pub label: Key,
    pub button: ChromeIconButton,
}

/// The state of the window that its chrome depends on.
#[derive(Clone, Copy, Debug, PartialEq, Eq, Structural)]
pub struct ChromeState {
    pub show_welcome: bool,
    pub settings_open: bool,
    pub left_panel_open: bool,
    pub right_panel_open: bool,
    pub translating: bool,
    pub side_panel: SidePanel,
}

/// The settings command, which is always there.
pub open spec fn settings_button(state: ChromeState) -> TitleButton {
    TitleButton {
        command: TitleCommand::Settings,
        icon: IconName::Settings,
        label: Key::Settings,
        button: ChromeIconButton {
            pressed: Some(state.settings_open),
            disabled: false,
            loading: false,
        },
    }
}

/// The commands in the title bar, in order. The welcome surface hides those
/// that act on a document or a workspace.
pub open spec fn title_buttons(state: ChromeState) -> Seq<TitleButton> {
    if state.show_welcome {
        seq![settings_button(state)]
    } else {
        seq![
            TitleButton {
                command: TitleCommand::OpenFolder,
                icon: IconName::FolderOpen,
                label: Key::OpenFolderPicker,
                button: ChromeIconButton { pressed: None, disabled: false, loading: false },
            },
            TitleButton {
                command: TitleCommand::Translate,
                icon: IconName::Globe,
                label: Key::Translate,
                button: ChromeIconButton {
                    pressed: None,
                    disabled: false,
                    loading: state.translating,
                },
            },
            TitleButton {
                command: TitleCommand::ToggleRightPanel,
                icon: IconName::PanelRight,
                label: Key::ToggleRightPanel,
                button: ChromeIconButton {
                    pressed: Some(state.right_panel_open),
                    disabled: false,
                    loading: false,
                },
            },
            settings_button(state),
        ]
    }
}

/// The stable identity of a command in the title bar.
pub fn title_command_id(command: TitleCommand) -> (id: &'static str)
    ensures
        id@ == (match command {
            TitleCommand::OpenFolder => "open-folder"@,
            TitleCommand::Translate => "translate"@,
            TitleCommand::ToggleRightPanel => "toggle-right-panel"@,
            TitleCommand::Settings => "settings"@,
        }),
{
    match command {
        TitleCommand::OpenFolder => "open-folder",
        TitleCommand::Translate => "translate",
        TitleCommand::ToggleRightPanel => "toggle-right-panel",
        TitleCommand::Settings => "settings",
    }
}

/// The commands in the title bar, in order.
pub fn title_commands(state: ChromeState) -> (buttons: Vec<TitleButton>)
    ensures
        buttons@ == title_buttons(state),
{
    let mut buttons: Vec<TitleButton> = Vec::new();
    if !state.show_welcome {
        buttons.push(
            TitleButton {
                command: TitleCommand::OpenFolder,
                icon: IconName::FolderOpen,
                label: Key::OpenFolderPicker,
                button: ChromeIconButton::new(),
            },
        );
        buttons.push(
            TitleButton {
                command: TitleCommand::Translate,
                icon: IconName::Globe,
                label: Key::Translate,
                button: ChromeIconButton::new().loading(state.translating),
            },
        );
        buttons.push(
            TitleButton {
                command: TitleCommand::ToggleRightPanel,
                icon: IconName::PanelRight,
                label: Key::ToggleRightPanel,
                button: ChromeIconButton::new().pressed(state.right_panel_open),
            },
        );
    }
    buttons.push(
        TitleButton {
            command: TitleCommand::Settings,
            icon: IconName::Settings,
            label: Key::Settings,
            button: ChromeIconButton::new().pressed(state.settings_open),
        },
    );
    assert(buttons@ =~= title_buttons(state));
    buttons
}

/// The toggle of the left panel, at the fixed place where the title bar begins.
pub fn left_toggle(state: ChromeState) -> (toggle: Option<ChromeIconButton>)
    ensures
        toggle == (if state.show_welcome {
            None
        } else {
            Some(
                ChromeIconButton {
                    pressed: Some(state.left_panel_open),
                    disabled: false,
                    loading: false,
                },
            )
        }),
{
    if state.show_welcome {
        None
    } else {
        Some(ChromeIconButton::new().pressed(state.left_panel_open))
    }
}

/// What fills the document column.
#[derive(Clone, Copy, Debug, PartialEq, Eq, Structural)]
pub enum MainContent {
    Settings,
    Welcome,
    Document,
    /// No document is open.
    Hint,
}

/// Where the keyboard shortcuts of the window apply.
#[derive(Clone, Copy, Debug, PartialEq, Eq, Structural)]
pub enum KeyContext {
    Welcome,
    Workspace,
}

/// Which parts of the window are showing.
#[derive(Clone, Copy, Debug, PartialEq, Eq, Structural)]
pub struct WindowLayout {
    pub content: MainContent,
    pub left_panel_visible: bool,
    pub right_panel_visible: bool,
    /// What the right panel describes, where it is visible.
    pub details: DetailsContent,
    /// Popups are shown; over an embedded browser they would be covered by it.
    pub tooltips: bool,
    /// The document's title row leaves room for the left panel's toggle.
    pub reserve_left_toggle: bool,
    /// The document's title row leaves room for the title commands.
    pub reserve_commands: bool,
    pub key_context: KeyContext,
    pub web_active: bool,
}

/// Whether the embedded browser is showing: the active document uses it, and
/// settings do not cover the document.
pub fn web_active(settings_open: bool, document_uses_web: bool) -> (active: bool)
    ensures
        active == (!settings_open && document_uses_web),
{
    !settings_open && document_uses_web
}

/// Which parts of the window are showing.
pub open spec fn layout_of(
    state: ChromeState,
    document_open: bool,
    document_uses_web: bool,
    harness_selected: bool,
) -> WindowLayout {
    let web_active = !state.settings_open && document_open && document_uses_web;
    let left = !state.show_welcome && state.left_panel_open;
    let right = !state.show_welcome && state.right_panel_open;
    WindowLayout {
        content: if state.settings_open {
            MainContent::Settings
        } else if state.show_welcome {
            MainContent::Welcome
        } else if document_open {
            MainContent::Document
        } else {
            MainContent::Hint
        },
        left_panel_visible: left,
        right_panel_visible: right,
        details: if state.settings_open {
            DetailsContent::Empty
        } else if state.side_panel == SidePanel::Harness && harness_selected {
            DetailsContent::Harness
        } else if document_open {
            DetailsContent::Document
        } else {
            DetailsContent::Empty
        },
        tooltips: !web_active,
        reserve_left_toggle: !left,
        reserve_commands: !right,
        key_context: if state.show_welcome && !state.settings_open {
            KeyContext::Welcome
        } else {
            KeyContext::Workspace
        },
        web_active,
    }
}

/// Which parts of the window are showing.
pub fn window_layout(
    state: ChromeState,
    document_open: bool,
    document_uses_web: bool,
    harness_selected: bool,
) -> (layout: WindowLayout)
    ensures
        layout == layout_of(state, document_open, document_uses_web, harness_selected),
{
    let web = web_active(state.settings_open, document_open && document_uses_web);
    let left = !state.show_welcome && state.left_panel_open;
    let right = !state.show_welcome && state.right_panel_open;
    WindowLayout {
        content: if state.settings_open {
            MainContent::Settings
        } else if state.show_welcome {
            MainContent::Welcome
        } else if document_open {
            MainContent::Document
        } else {
            MainContent::Hint
        },
        left_panel_visible: left,
        right_panel_visible: right,
        details: details_content(
            state.side_panel,
            state.settings_open,
            document_open,
            harness_selected,
        ),
        tooltips: !web,
        reserve_left_toggle: !left,
        reserve_commands: !right,
        key_context: if state.show_welcome && !state.settings_open {
            KeyContext::Welcome
        } else {
            KeyContext::Workspace
        },
        web_active: web,
    }
}

/// The name that shortcuts use for where they apply.
pub fn key_context_name(context: KeyContext) -> (name: &'static str)
    ensures
        name@ == (match context {
            KeyContext::Welcome => "Welcome"@,
            KeyContext::Workspace => "Workspace"@,
        }),
{
    match context {
        KeyContext::Welcome => "Welcome",
        KeyContext::Workspace => "Workspace",
    }
}

/// The title row never leaves the window without a toggle for its left panel or
/// without its commands: room is reserved exactly where no panel column holds
/// them, whatever else is showing.
pub proof fn law_title_row_keeps_its_controls(
    state: ChromeState,
    document_open: bool,
    document_uses_web: bool,
    harness_selected: bool,
)
    ensures
        layout_of(state, document_open, document_uses_web, harness_selected).reserve_left_toggle
            == !layout_of(
            state,
            document_open,
            document_uses_web,
            harness_selected,
        ).left_panel_visible,
        layout_of(state, document_open, document_uses_web, harness_selected).reserve_commands
            == !layout_of(
            state,
            document_open,
            document_uses_web,
            harness_selected,
        ).right_panel_visible,
        title_buttons(state).last() == settings_button(state),
        state.show_welcome ==> !layout_of(
            state,
            document_open,
            document_uses_web,
            harness_selected,
        ).left_panel_visible && !layout_of(
            state,
            document_open,
            document_uses_web,
            harness_selected,
        ).right_panel_visible,
{
}

/// Which translation the title command starts.
#[derive(Clone, Copy, Debug, PartialEq, Eq, Structural)]
pub enum TranslateChoice {
    Selection,
    Document,
}

/// The title command translates what is selected, or else the document.
pub fn translate_choice(has_selection: bool) -> (choice: TranslateChoice)
    ensures
        choice == (if has_selection {
            TranslateChoice::Selection
        } else {
            TranslateChoice::Document
        }),
{
    if has_selection {
        TranslateChoice::Selection
    } else {
        TranslateChoice::Document
    }
}

/// What the status bar says.
#[derive(Clone, Copy, Debug, PartialEq, Eq, Structural)]
pub enum StatusText {
    /// [`crate::messages::RECOVERY_WARNING`].
    RecoveryWarning,
    Notice { notice: Notice },
    /// The workspace root.
    Root,
    Nothing,
}

/// What the status bar says: a missing protection outranks every message, and
/// without either the bar names the workspace.
pub fn status_text(recovery_warning: bool, notice: Option<Notice>, root_open: bool) -> (text:
    StatusText)
    ensures
        text == (if recovery_warning {
            StatusText::RecoveryWarning
        } else {
            match notice {
                Some(notice) => StatusText::Notice { notice },
                None => if root_open {
                    StatusText::Root
                } else {
                    StatusText::Nothing
                },
            }
        }),
{
    if recovery_warning {
        StatusText::RecoveryWarning
    } else {
        match notice {
            Some(notice) => StatusText::Notice { notice },
            None => if root_open {
                StatusText::Root
            } else {
                StatusText::Nothing
            },
        }
    }
}

/// The control that shows and sets whether open files are watched.
#[derive(Clone, Copy, Debug, PartialEq, Eq, Structural)]
pub struct WatchToggle {
    pub icon: IconName,
    pub label: Key,
    pub primary: bool,
    /// The label is part of the control rather than a popup.
    pub label_in_place: bool,
}

/// The control that shows and sets whether open files are watched.
pub fn watch_toggle(watching: bool, web_active: bool) -> (toggle: WatchToggle)
    ensures
        toggle == (WatchToggle {
            icon: if watching {
                IconName::Eye
            } else {
                IconName::EyeOff
            },
            label: if watching {
                Key::AutoRefreshOn
            } else {
                Key::AutoRefresh
            },
            primary: watching,
            label_in_place: web_active,
        }),
{
    WatchToggle {
        icon: if watching {
            IconName::Eye
        } else {
            IconName::EyeOff
        },
        label: if watching {
            Key::AutoRefreshOn
        } else {
            Key::AutoRefresh
        },
        primary: watching,
        label_in_place: web_active,
    }
}

/// `names` with ", " between them.
pub open spec fn listed(names: Seq<String>) -> Seq<char>
    decreases names.len(),
{
    if names.len() == 0 {
        Seq::empty()
    } else if names.len() == 1 {
        names[0]@
    } else {
        listed(names.drop_last()) + ", "@ + names.last()@
    }
}

/// `names` with ", " between them.
pub fn join_names(names: &Vec<String>) -> (text: String)
    ensures
        text@ == listed(names@),
{
    let mut text: String = String::new();
    let mut i: usize = 0;
    assert(text@ =~= listed(names@.take(0)));
    while i < names.len()
        invariant
            i <= names.len(),
            text@ == listed(names@.take(i as int)),
        decreases names.len() - i,
    {
        proof {
            assert(names@.take(i + 1).drop_last() =~= names@.take(i as int));
            assert(names@.take(i + 1).last() == names@[i as int]);
        }
        if i > 0 {
            append(&mut text, ", ");
        }
        append(&mut text, names[i].as_str());
        proof {
            if i == 0 {
                assert(names@.take(1)[0] == names@[0]);
            }
            assert(text@ =~= listed(names@.take(i + 1)));
        }
        i = i + 1;
    }
    assert(names@.take(names.len() as int) =~= names@);
    text
}

/// Which renderers are missing, if any.
pub fn unavailable_renderers(names: &Vec<String>) -> (text: Option<String>)
    ensures
        text is Some <==> names@.len() > 0,
        text matches Some(text) ==> text@ == listed(names@) + " unavailable"@,
{
    if names.len() == 0 {
        return None;
    }
    let mut text = join_names(names);
    append(&mut text, " unavailable");
    Some(text)
}

/// What fills the window: settings cover everything, then the welcome surface,
/// then the document, and a hint only where there is none of them. An embedded
/// browser shows exactly with its document, and takes the popups with it.
pub proof fn law_the_window_shows_one_thing(
    state: ChromeState,
    document_open: bool,
    document_uses_web: bool,
    harness_selected: bool,
)
    ensures
        ({
            let layout = layout_of(state, document_open, document_uses_web, harness_selected);
            &&& layout.content is Settings <==> state.settings_open
            &&& layout.content is Welcome <==> state.show_welcome && !state.settings_open
            &&& layout.content is Document <==> document_open && !state.show_welcome
                && !state.settings_open
            &&& layout.web_active <==> document_open && document_uses_web && !state.settings_open
            &&& layout.tooltips <==> !layout.web_active
            &&& layout.left_panel_visible <==> state.left_panel_open && !state.show_welcome
            &&& layout.right_panel_visible <==> state.right_panel_open && !state.show_welcome
            &&& layout.key_context is Welcome <==> layout.content is Welcome
            &&& layout.details is Harness <==> state.side_panel == SidePanel::Harness
                && harness_selected && !state.settings_open
            &&& layout.details is Empty <==> state.settings_open || (!(layout.details is Harness)
                && !document_open)
        }),
{
}

/// Off the welcome surface every command of the title bar is there once, in one
/// order; the translation is at work exactly while it runs, and the toggles show
/// what they toggle.
pub proof fn law_the_title_bar_holds_every_command(state: ChromeState)
    requires
        !state.show_welcome,
    ensures
        ({
            let buttons = title_buttons(state);
            &&& buttons.len() == 4
            &&& buttons[0].command is OpenFolder
            &&& buttons[1].command is Translate
            &&& buttons[2].command is ToggleRightPanel
            &&& buttons[3].command is Settings
            &&& buttons[1].button.loading == state.translating
            &&& buttons[2].button.pressed == Some(state.right_panel_open)
            &&& buttons[3].button.pressed == Some(state.settings_open)
            &&& forall|i: int| 0 <= i < 4 ==> !(#[trigger] buttons[i]).button.disabled
            &&& forall|i: int| 0 <= i < 4 && i != 1 ==> !(#[trigger] buttons[i]).button.loading
        }),
{
}

/// How a command looks: at work it shows so and is not muted, a disabled one is
/// muted, and one that is on does not answer to hovering.
pub proof fn law_a_command_looks_like_what_it_does(button: ChromeIconButton, is_focused: bool)
    ensures
        ({
            let look = button_look(button, is_focused);
            &&& look.spinner == button.loading
            &&& look.muted == (button.disabled && !button.loading)
            &&& look.hover == (!button.disabled && !button.loading && button.pressed != Some(true))
            &&& look.faded == (button.loading && button.pressed is None)
            &&& look.focus_ring == (is_focused && !button.disabled && !button.loading)
        }),
{
}

/// Names are listed in order, with a comma between each two.
pub proof fn law_names_are_listed_in_order(names: Seq<String>, name: String)
    ensures
        names.len() == 0 ==> listed(names).len() == 0,
        names.len() == 0 ==> listed(names.push(name)) == name@,
        names.len() > 0 ==> listed(names.push(name)) == listed(names) + ", "@ + name@,
{
    assert(names.push(name).drop_last() =~= names);
    assert(names.push(name).last() == name);
}

} // verus!
