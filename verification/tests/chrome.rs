use markturbo::bindings::{init, Action};
use markturbo::chrome::{
    join_names, key_context_name, left_toggle, native_window_controls, side_panel_buttons,
    status_text, title_command_id, title_commands, tooltip_id, unavailable_renderers, watch_toggle,
    web_active, window_layout, ChromeIconButton, ChromeState, KeyContext, MainContent, Platform,
    StatusText, TitleCommand,
};
use markturbo::effect::Notice;
use markturbo::panels::{DetailsContent, SidePanel};
use markturbo::status::{StatusLine, STATUS_LINGER};
use markturbo::words::{IconName, Key};

const WORKING: ChromeState = ChromeState {
    show_welcome: false,
    settings_open: false,
    left_panel_open: true,
    right_panel_open: false,
    translating: false,
    side_panel: SidePanel::Files,
};

const WELCOME: ChromeState = ChromeState { show_welcome: true, right_panel_open: true, ..WORKING };

#[test]
fn a_loading_command_is_inert_but_not_drawn_as_disabled() {
    let look = ChromeIconButton::new().loading(true).look(true);
    assert!(look.inert && look.spinner && look.faded);
    assert!(!look.muted && !look.hover && !look.focus_ring);
}

#[test]
fn a_disabled_command_is_muted() {
    let look = ChromeIconButton::new().disabled(true).look(true);
    assert!(look.inert && look.muted);
    assert!(!look.spinner && !look.hover && !look.focus_ring && !look.faded);
}

#[test]
fn a_toggle_that_is_on_does_not_answer_to_hovering() {
    assert!(!ChromeIconButton::new().pressed(true).look(false).hover);
    assert!(ChromeIconButton::new().pressed(false).look(false).hover);
    assert!(ChromeIconButton::new().look(true).focus_ring);
    assert!(!ChromeIconButton::new().pressed(true).loading(true).look(true).faded);
}

#[test]
fn popups_have_their_own_identity() {
    assert_eq!(tooltip_id("translate"), "chrome-tooltip-translate");
}

#[test]
fn panel_toggles_and_global_commands_stay_in_the_title_bar() {
    let commands: Vec<&str> = title_commands(WORKING)
        .iter()
        .map(|button| title_command_id(button.command))
        .collect();
    assert_eq!(commands, ["open-folder", "translate", "toggle-right-panel", "settings"]);
    let buttons = title_commands(ChromeState { translating: true, ..WORKING });
    assert!(buttons[1].button.loading);
    assert_eq!(buttons[2].button.pressed, Some(false));
    assert_eq!(buttons[3].label, Key::Settings);
}

#[test]
fn welcome_hides_document_only_title_commands() {
    let buttons = title_commands(WELCOME);
    assert_eq!(buttons.len(), 1);
    assert_eq!(buttons[0].command, TitleCommand::Settings);
    assert_eq!(left_toggle(WELCOME), None);
    assert_eq!(left_toggle(WORKING), Some(ChromeIconButton::new().pressed(true)));
}

#[test]
fn settings_cover_everything_else() {
    let layout = window_layout(ChromeState { settings_open: true, ..WELCOME }, true, true, true);
    assert_eq!(layout.content, MainContent::Settings);
    assert_eq!(layout.details, DetailsContent::Empty);
    assert!(!layout.web_active && layout.tooltips);
    assert_eq!(layout.key_context, KeyContext::Workspace);
}

#[test]
fn the_welcome_surface_has_no_panels() {
    let layout = window_layout(WELCOME, false, false, false);
    assert_eq!(layout.content, MainContent::Welcome);
    assert!(!layout.left_panel_visible && !layout.right_panel_visible);
    assert!(layout.reserve_left_toggle && layout.reserve_commands);
    assert_eq!(key_context_name(layout.key_context), "Welcome");
}

#[test]
fn a_document_fills_its_column() {
    let layout = window_layout(WORKING, true, true, false);
    assert_eq!(layout.content, MainContent::Document);
    assert_eq!(layout.details, DetailsContent::Document);
    assert!(layout.left_panel_visible && !layout.right_panel_visible);
    assert!(!layout.reserve_left_toggle && layout.reserve_commands);
    assert!(layout.web_active && !layout.tooltips);
    assert_eq!(key_context_name(layout.key_context), "Workspace");
    let empty = window_layout(WORKING, false, false, false);
    assert_eq!(empty.content, MainContent::Hint);
}

#[test]
fn settings_hide_the_embedded_browser() {
    assert!(web_active(false, true));
    assert!(!web_active(true, true));
    assert!(!web_active(false, false));
}

#[test]
fn the_left_panel_uses_vertical_sidebar_navigation() {
    let buttons = side_panel_buttons(SidePanel::Harness);
    let selected: Vec<bool> = buttons.iter().map(|button| button.selected).collect();
    assert_eq!(selected, [false, false, true, false]);
    assert!(!buttons[2].look(true).hover && buttons[2].look(true).focus_ring);
    assert!(buttons[0].look(false).hover);
}

#[test]
fn window_controls_take_room_only_in_the_title_row() {
    assert_eq!(native_window_controls(Platform::ControlsOutside, true, true), 0);
    assert_eq!(native_window_controls(Platform::Linux { client: false }, true, true), 0);
    assert_eq!(native_window_controls(Platform::Linux { client: true }, true, false), 2);
    assert_eq!(native_window_controls(Platform::ControlsInside, true, true), 3);
    assert_eq!(native_window_controls(Platform::ControlsInside, false, false), 1);
}

#[test]
fn a_missing_protection_outranks_every_message() {
    let notice = Notice::FileChangedOnDisk;
    assert_eq!(status_text(true, Some(notice), true), StatusText::RecoveryWarning);
    assert_eq!(status_text(false, Some(notice), true), StatusText::Notice { notice });
    assert_eq!(status_text(false, None, true), StatusText::Root);
    assert_eq!(status_text(false, None, false), StatusText::Nothing);
}

#[test]
fn a_status_message_outlives_the_one_before_it() {
    assert_eq!(STATUS_LINGER, 6000);
    let mut status = StatusLine::new();
    let first = status.set_status(Notice::FileChangedOnDisk);
    let second = status.set_status(Notice::NoFolderIsOpen);
    status.status_elapsed(first);
    assert_eq!(status.notice, Some(Notice::NoFolderIsOpen));
    status.status_elapsed(second);
    assert_eq!(status.notice, None);
}

#[test]
fn status_generations_wrap_around() {
    let mut status = StatusLine { notice: None, generation: u64::MAX };
    assert_eq!(status.set_status(Notice::NoFolderIsOpen), 0);
}

#[test]
fn the_watch_toggle_shows_whether_it_is_on() {
    let on = watch_toggle(true, false);
    assert_eq!((on.icon, on.label, on.primary), (IconName::Eye, Key::AutoRefreshOn, true));
    assert!(!on.label_in_place);
    let off = watch_toggle(false, true);
    assert_eq!((off.icon, off.label, off.primary), (IconName::EyeOff, Key::AutoRefresh, false));
    assert!(off.label_in_place);
}

#[test]
fn missing_renderers_are_named() {
    let names = |names: &[&str]| -> Vec<String> { names.iter().map(|name| name.to_string()).collect() };
    assert_eq!(unavailable_renderers(&names(&[])), None);
    assert_eq!(unavailable_renderers(&names(&["d2"])).as_deref(), Some("d2 unavailable"));
    assert_eq!(
        unavailable_renderers(&names(&["d2", "plantuml", "math"])).as_deref(),
        Some("d2, plantuml, math unavailable")
    );
    assert_eq!(join_names(&names(&[])), "");
}

#[test]
fn save_as_has_an_explicit_workspace_action_and_keybinding() {
    let shortcuts = init();
    assert_eq!(shortcuts.len(), 34);
    let action = |keystroke: &str| {
        shortcuts
            .iter()
            .find(|shortcut| shortcut.keystroke == keystroke)
            .map(|shortcut| (shortcut.action, shortcut.context))
    };
    assert_eq!(action("ctrl-n"), Some((Action::NewDocument, None)));
    assert_eq!(action("ctrl-o"), Some((Action::OpenFile, None)));
    assert_eq!(action("ctrl-alt-o"), Some((Action::OpenFolder, None)));
    assert_eq!(action("cmd-shift-s"), Some((Action::SaveAs, None)));
    assert_eq!(action("ctrl-shift-s"), Some((Action::SaveAs, None)));
    assert_eq!(action("ctrl-v"), Some((Action::PasteIntoNew, Some(KeyContext::Welcome))));
    assert_eq!(action("alt-right"), Some((Action::NavigateForward, None)));
    assert_eq!(action("ctrl-f"), None);
}

#[test]
fn no_keystroke_is_bound_twice() {
    let shortcuts = init();
    for (at, shortcut) in shortcuts.iter().enumerate() {
        for other in &shortcuts[at + 1..] {
            assert_ne!(shortcut.keystroke, other.keystroke);
        }
    }
}
