use markturbo::chrome::{translate_choice, TranslateChoice};
use markturbo::effect::{Effect, Notice};
use markturbo::translate::{
    translation_end, translation_target, trim_marked, EditorFacts, ProviderLookup, TranslateCommand, TranslateScope,
    TranslateStep, TranslationEnd,
};
use markturbo::workspace::Workspace;

const EDITOR: EditorFacts = EditorFacts { selection_start: 2, selection_end: 5, cursor: 5 };

fn workspace() -> Workspace {
    Workspace::new(None, false).0
}

fn scope(step: TranslateStep) -> Option<TranslateScope> {
    match step {
        TranslateStep::Resolve { scope } => Some(scope),
        _ => None,
    }
}

#[test]
fn each_command_has_its_own_reach() {
    let workspace = workspace();
    assert_eq!(
        scope(workspace.translate(TranslateCommand::Document, Some(EDITOR))),
        Some(TranslateScope::Document)
    );
    assert_eq!(
        scope(workspace.translate(TranslateCommand::Selection, Some(EDITOR))),
        Some(TranslateScope::Selection { start: 2, end: 5 })
    );
    assert_eq!(
        scope(workspace.translate(TranslateCommand::Block, Some(EDITOR))),
        Some(TranslateScope::Block { cursor: 5 })
    );
}

#[test]
fn without_a_document_nothing_is_translated() {
    let workspace = workspace();
    for command in [TranslateCommand::Document, TranslateCommand::Selection, TranslateCommand::Block] {
        assert!(matches!(workspace.translate(command, None), TranslateStep::Ignored));
    }
}

#[test]
fn an_empty_selection_is_refused() {
    let empty = EditorFacts { selection_start: 5, selection_end: 5, cursor: 5 };
    match workspace().translate(TranslateCommand::Selection, Some(empty)) {
        TranslateStep::Refused { effects } => {
            assert_eq!(effects, [Effect::Report { notice: Notice::SelectSomeTextFirst }]);
        }
        _ => panic!("there is nothing to translate"),
    }
}

#[test]
fn a_translation_in_flight_blocks_a_second_one() {
    let mut workspace = workspace();
    let effects = workspace.provider_resolved(ProviderLookup::Ready { label: 3 });
    assert_eq!(effects, [Effect::Report { notice: Notice::Translating { provider: 3 } }]);
    assert!(workspace.chrome.translating);
    for command in [TranslateCommand::Document, TranslateCommand::Selection, TranslateCommand::Block] {
        assert!(matches!(workspace.translate(command, Some(EDITOR)), TranslateStep::Ignored));
    }
}

#[test]
fn a_missing_provider_starts_nothing() {
    let mut workspace = workspace();
    let effects = workspace.provider_resolved(ProviderLookup::Missing);
    assert_eq!(effects, [Effect::Report { notice: Notice::NoTranslationKey }]);
    let effects = workspace.provider_resolved(ProviderLookup::Unavailable { error: 6 });
    assert_eq!(effects, [Effect::Report { notice: Notice::TranslationUnavailable { error: 6 } }]);
    assert!(!workspace.chrome.translating);
}

#[test]
fn the_command_comes_back_however_a_translation_ends() {
    for (end, notice) in [
        (TranslationEnd::Applied { segments: 4 }, Notice::Translated { segments: 4, provider: 3 }),
        (TranslationEnd::Outdated, Notice::TranslationOutdated),
        (TranslationEnd::Failed { error: 8 }, Notice::TranslationFailed { error: 8 }),
    ] {
        let mut workspace = workspace();
        workspace.provider_resolved(ProviderLookup::Ready { label: 3 });
        assert_eq!(workspace.translation_finished(end, 3), [Effect::Report { notice }]);
        assert!(!workspace.chrome.translating);
    }
}

#[test]
fn a_translation_ends_in_one_of_three_ways() {
    let segments = vec![true, false, true, true];
    assert_eq!(translation_end(Ok(&segments), true), TranslationEnd::Applied { segments: 3 });
    assert_eq!(translation_end(Ok(&segments), false), TranslationEnd::Outdated);
    assert_eq!(translation_end(Ok(&Vec::new()), true), TranslationEnd::Applied { segments: 0 });
    assert_eq!(translation_end(Err(7), true), TranslationEnd::Failed { error: 7 });
    assert_eq!(translation_end(Err(7), false), TranslationEnd::Failed { error: 7 });
}

#[test]
fn every_white_space_character_is_trimmed_and_no_other() {
    let white = "\u{9}\u{a}\u{b}\u{c}\u{d}\u{20}\u{85}\u{a0}\u{1680}\u{2000}\u{2001}\u{2002}\
        \u{2003}\u{2004}\u{2005}\u{2006}\u{2007}\u{2008}\u{2009}\u{200a}\u{2028}\u{2029}\
        \u{202f}\u{205f}\u{3000}";
    assert_eq!(white.chars().count(), 25);
    assert_eq!(translation_target(white), "zh");
    for c in '\0'..=char::MAX {
        let trimmed = translation_target(&c.to_string()) == "zh";
        assert_eq!(trimmed, white.contains(c), "{c:?}");
    }
}

#[test]
fn the_target_language_is_trimmed_and_has_a_default() {
    assert_eq!(translation_target("fr"), "fr");
    assert_eq!(translation_target("  pt BR\t\n"), "pt BR");
    assert_eq!(translation_target("\u{3000}ja\u{a0}"), "ja");
    assert_eq!(translation_target(""), "zh");
    assert_eq!(translation_target(" \t"), "zh");
}

#[test]
fn the_title_command_prefers_the_selection() {
    assert_eq!(translate_choice(true), TranslateChoice::Selection);
    assert_eq!(translate_choice(false), TranslateChoice::Document);
}

#[test]
fn only_marked_characters_at_the_ends_are_trimmed() {
    let text: Vec<char> = "xxaxbxx".chars().collect();
    let white: Vec<bool> = text.iter().map(|c| *c == 'x').collect();
    assert_eq!(trim_marked(&text, &white), ['a', 'x', 'b']);
    let all = vec![true; text.len()];
    assert!(trim_marked(&text, &all).is_empty());
    let none = vec![false; text.len()];
    assert_eq!(trim_marked(&text, &none), text);
    assert!(trim_marked(&Vec::new(), &Vec::new()).is_empty());
}
