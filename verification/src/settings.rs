//! What a change of the settings means to the window.

use crate::effect::Effect;
use vstd::prelude::*;

verus! {

/// What the user has changed in the settings.
#[derive(Clone, Copy, Debug, PartialEq, Eq, Structural)]
pub enum SettingsEvent {
    ThemeChanged,
    LanguageChanged,
    SkillScopeChanged,
}

/// Applies a theme. An embedded browser keeps its pages with the colors baked
/// in, so they have to be built again.
pub open spec fn repainting() -> Seq<Effect> {
    seq![Effect::ApplyTheme, Effect::RepaintDocuments, Effect::RefreshWeb]
}

fn repaint() -> (effects: Vec<Effect>)
    ensures
        effects@ == repainting(),
{
    let mut effects: Vec<Effect> = Vec::new();
    effects.push(Effect::ApplyTheme);
    effects.push(Effect::RepaintDocuments);
    effects.push(Effect::RefreshWeb);
    assert(effects@ =~= repainting());
    effects
}

/// Bring the window in line with a setting.
pub fn settings_changed(event: SettingsEvent, folder_open: bool) -> (effects: Vec<Effect>)
    ensures
        effects@ == (match event {
            SettingsEvent::ThemeChanged => repainting(),
            SettingsEvent::LanguageChanged => seq![Effect::RedrawViews],
            SettingsEvent::SkillScopeChanged => if folder_open {
                seq![Effect::RescanHarness]
            } else {
                Seq::empty()
            },
        }),
{
    let mut effects: Vec<Effect> = Vec::new();
    match event {
        SettingsEvent::ThemeChanged => {
            effects = repaint();
        },
        SettingsEvent::LanguageChanged => {
            effects.push(Effect::RedrawViews);
            assert(effects@ =~= seq![Effect::RedrawViews]);
        },
        SettingsEvent::SkillScopeChanged => {
            if folder_open {
                effects.push(Effect::RescanHarness);
                assert(effects@ =~= seq![Effect::RescanHarness]);
            }
        },
    }
    effects
}

/// The system has switched between light and dark. A theme that was chosen
/// explicitly ignores that.
pub fn appearance_changed(follows_system: bool) -> (effects: Vec<Effect>)
    ensures
        effects@ == (if follows_system {
            repainting()
        } else {
            Seq::empty()
        }),
{
    if follows_system {
        repaint()
    } else {
        Vec::new()
    }
}

/// A theme is applied first; then everything that has cached its colors is
/// drawn again.
pub proof fn law_a_theme_reaches_everything_it_colors()
    ensures
        repainting()[0] == Effect::ApplyTheme,
        repainting().contains(Effect::RepaintDocuments),
        repainting().contains(Effect::RefreshWeb),
{
    assert(repainting()[1] == Effect::RepaintDocuments);
    assert(repainting()[2] == Effect::RefreshWeb);
}

} // verus!
