//! Translating a document: what may start, and what is said about its end.

use crate::chrome::ChromeState;
use crate::effect::{report, Effect, Notice, TextId};
use crate::text::{chars_of, text_of};
use crate::workspace::Workspace;
use vstd::prelude::*;

verus! {

/// The language that a text is translated to when none is chosen.
pub const DEFAULT_TARGET: &'static str = "zh";

/// What the user asked to have translated.
#[derive(Clone, Copy, Debug, PartialEq, Eq, Structural)]
pub enum TranslateCommand {
    Document,
    Selection,
    Block,
}

/// What the active document's editor shows.
#[derive(Clone, Copy, Debug, PartialEq, Eq, Structural)]
pub struct EditorFacts {
    pub selection_start: u64,
    pub selection_end: u64,
    pub cursor: u64,
}

/// The part of a document that is translated.
#[derive(Clone, Copy, Debug, PartialEq, Eq, Structural)]
pub enum TranslateScope {
    Document,
    Selection { start: u64, end: u64 },
    Block { cursor: u64 },
}

/// How a translation goes on.
pub enum TranslateStep {
    /// Nothing to do.
    Ignored,
    /// It cannot start.
    Refused { effects: Vec<Effect> },
    /// Look for a provider.
    Resolve { scope: TranslateScope },
}

/// What came of looking for a provider.
#[derive(Clone, Copy, Debug, PartialEq, Eq, Structural)]
pub enum ProviderLookup {
    /// No provider has a key.
    Missing,
    Unavailable { error: TextId },
    Ready { label: TextId },
}

/// How a translation ended.
#[derive(Clone, Copy, Debug, PartialEq, Eq, Structural)]
pub enum TranslationEnd {
    /// The text arrived and replaced the one that was sent.
    Applied { segments: u64 },
    /// The document has changed since, or is gone.
    Outdated,
    Failed { error: TextId },
}

/// How a translation has ended, where `result` says of each segment whether it
/// was to be translated, and `applied` whether the text was still the one that
/// was sent when it was to be replaced.
pub fn translation_end(result: Result<&Vec<bool>, TextId>, applied: bool) -> (end: TranslationEnd)
    ensures
        match result {
            Err(error) => end == (TranslationEnd::Failed { error }),
            Ok(segments) => if applied {
                end matches TranslationEnd::Applied { segments: count } && count
                    == segments@.filter(|translatable: bool| translatable).len()
            } else {
                end is Outdated
            },
        },
{
    match result {
        Err(error) => TranslationEnd::Failed { error },
        Ok(segments) => {
            if !applied {
                return TranslationEnd::Outdated;
            }
            let ghost wanted = |translatable: bool| translatable;
            let mut count: u64 = 0;
            let mut i: usize = 0;
            while i < segments.len()
                invariant
                    i <= segments.len(),
                    count <= i,
                    wanted == (|translatable: bool| translatable),
                    count == segments@.take(i as int).filter(wanted).len(),
                decreases segments.len() - i,
            {
                proof {
                    reveal(Seq::filter);
                    assert(segments@.take(i + 1).drop_last() =~= segments@.take(i as int));
                    assert(segments@.take(i + 1).last() == segments@[i as int]);
                }
                if segments[i] {
                    count = count + 1;
                }
                i = i + 1;
            }
            assert(segments@.take(segments.len() as int) =~= segments@);
            TranslationEnd::Applied { segments: count }
        },
    }
}

/// What a command does while nothing is being translated.
pub open spec fn translation_asked(
    command: TranslateCommand,
    editor: Option<EditorFacts>,
    step: TranslateStep,
) -> bool {
    match editor {
        None => step is Ignored,
        Some(editor) => match command {
            TranslateCommand::Document => step == (TranslateStep::Resolve {
                scope: TranslateScope::Document,
            }),
            TranslateCommand::Selection => if editor.selection_start < editor.selection_end {
                step == (TranslateStep::Resolve {
                    scope: TranslateScope::Selection {
                        start: editor.selection_start,
                        end: editor.selection_end,
                    },
                })
            } else {
                step matches TranslateStep::Refused { effects } && effects@ == seq![
                    Effect::Report { notice: Notice::SelectSomeTextFirst },
                ]
            },
            TranslateCommand::Block => step == (TranslateStep::Resolve {
                scope: TranslateScope::Block { cursor: editor.cursor },
            }),
        },
    }
}

/// The line about a provider.
pub open spec fn provider_notice(lookup: ProviderLookup) -> Notice {
    match lookup {
        ProviderLookup::Missing => Notice::NoTranslationKey,
        ProviderLookup::Unavailable { error } => Notice::TranslationUnavailable { error },
        ProviderLookup::Ready { label } => Notice::Translating { provider: label },
    }
}

/// The line about the end of a translation.
pub open spec fn translation_notice(end: TranslationEnd, provider: TextId) -> Notice {
    match end {
        TranslationEnd::Applied { segments } => Notice::Translated { segments, provider },
        TranslationEnd::Outdated => Notice::TranslationOutdated,
        TranslationEnd::Failed { error } => Notice::TranslationFailed { error },
    }
}

impl Workspace {
    /// Whether all but the translation is as in `before`.
    pub open spec fn same_but_translating(&self, before: &Workspace) -> bool {
        &&& self.lifecycle == before.lifecycle
        &&& self.root == before.root
        &&& self.preview == before.preview
        &&& self.status == before.status
        &&& self.chrome == (ChromeState {
            translating: self.chrome.translating,
            ..before.chrome
        })
    }

    /// The user asks for a translation. While one is under way nothing starts:
    /// two requests over the same text would race to overwrite the editor with
    /// two answers.
    pub fn translate(&self, command: TranslateCommand, editor: Option<EditorFacts>) -> (step:
        TranslateStep)
        ensures
            self.chrome.translating ==> step is Ignored,
            !self.chrome.translating ==> translation_asked(command, editor, step),
    {
        if self.chrome.translating {
            return TranslateStep::Ignored;
        }
        let editor = match editor {
            Some(editor) => editor,
            None => {
                return TranslateStep::Ignored;
            },
        };
        match command {
            TranslateCommand::Document => TranslateStep::Resolve {
                scope: TranslateScope::Document,
            },
            TranslateCommand::Selection => {
                if editor.selection_start < editor.selection_end {
                    TranslateStep::Resolve {
                        scope: TranslateScope::Selection {
                            start: editor.selection_start,
                            end: editor.selection_end,
                        },
                    }
                } else {
                    let effects = report(Notice::SelectSomeTextFirst);
                    TranslateStep::Refused { effects }
                }
            },
            TranslateCommand::Block => TranslateStep::Resolve {
                scope: TranslateScope::Block { cursor: editor.cursor },
            },
        }
    }

    /// A provider was found or not. Only with one is the translation under way,
    /// from this moment on: a second click must find the command inert.
    pub fn provider_resolved(&mut self, lookup: ProviderLookup) -> (effects: Vec<Effect>)
        ensures
            final(self).same_but_translating(old(self)),
            final(self).chrome.translating == (old(self).chrome.translating || lookup is Ready),
            effects@ == seq![Effect::Report { notice: provider_notice(lookup) }],
    {
        match lookup {
            ProviderLookup::Missing => report(Notice::NoTranslationKey),
            ProviderLookup::Unavailable { error } => report(
                Notice::TranslationUnavailable { error },
            ),
            ProviderLookup::Ready { label } => {
                self.chrome.translating = true;
                report(Notice::Translating { provider: label })
            },
        }
    }

    /// A translation has ended. The command comes back to life however it did.
    pub fn translation_finished(&mut self, end: TranslationEnd, provider: TextId) -> (effects: Vec<
        Effect,
    >)
        ensures
            final(self).same_but_translating(old(self)),
            !final(self).chrome.translating,
            effects@ == seq![Effect::Report { notice: translation_notice(end, provider) }],
    {
        self.chrome.translating = false;
        match end {
            TranslationEnd::Applied { segments } => report(
                Notice::Translated { segments, provider },
            ),
            TranslationEnd::Outdated => report(Notice::TranslationOutdated),
            TranslationEnd::Failed { error } => report(Notice::TranslationFailed { error }),
        }
    }
}

/// Whether a character has the property `White_Space` of the Unicode Character
/// Database.
pub open spec fn is_white_space(c: char) -> bool {
    let point = c as u32;
    ||| 0x9 <= point <= 0xd
    ||| point == 0x20
    ||| point == 0x85
    ||| point == 0xa0
    ||| point == 0x1680
    ||| 0x2000 <= point <= 0x200a
    ||| point == 0x2028
    ||| point == 0x2029
    ||| point == 0x202f
    ||| point == 0x205f
    ||| point == 0x3000
}

/// `char::is_whitespace` says whether a character has the property
/// `White_Space`. That it holds of exactly the characters listed above is taken
/// on trust.
pub assume_specification[ char::is_whitespace ](c: char) -> (answer: bool)
    ensures
        answer == is_white_space(c),
;

/// How many of `white` are set before the first that is not.
pub open spec fn leading(white: Seq<bool>) -> nat
    decreases white.len(),
{
    if white.len() == 0 || !white[0] {
        0
    } else {
        1 + leading(white.skip(1))
    }
}

/// How many of `white` are set after the last that is not.
pub open spec fn trailing(white: Seq<bool>) -> nat
    decreases white.len(),
{
    if white.len() == 0 || !white.last() {
        0
    } else {
        1 + trailing(white.drop_last())
    }
}

/// `text` without the characters at both of its ends that `white` marks.
pub open spec fn trimmed(text: Seq<char>, white: Seq<bool>) -> Seq<char> {
    if leading(white) == white.len() {
        Seq::empty()
    } else {
        text.subrange(leading(white) as int, text.len() - trailing(white))
    }
}

/// Which characters of `text` are white space.
pub open spec fn white_space(text: Seq<char>) -> Seq<bool> {
    text.map_values(|c: char| is_white_space(c))
}

proof fn lemma_leading(white: Seq<bool>, count: nat)
    requires
        count <= white.len(),
        forall|i: int| 0 <= i < count ==> #[trigger] white[i],
        count < white.len() ==> !white[count as int],
    ensures
        leading(white) == count,
    decreases count,
{
    if count > 0 {
        let rest = white.skip(1);
        assert forall|i: int| 0 <= i < count - 1 implies #[trigger] rest[i] by {
            assert(rest[i] == white[i + 1]);
        }
        lemma_leading(rest, (count - 1) as nat);
        assert(white[0]);
    }
}

proof fn lemma_trailing(white: Seq<bool>, end: nat)
    requires
        end <= white.len(),
        forall|i: int| end <= i < white.len() ==> #[trigger] white[i],
        end > 0 ==> !white[end - 1],
    ensures
        trailing(white) == white.len() - end,
    decreases white.len() - end,
{
    if end < white.len() {
        let rest = white.drop_last();
        assert forall|i: int| end <= i < rest.len() implies #[trigger] rest[i] by {
            assert(rest[i] == white[i]);
        }
        lemma_trailing(rest, end);
        assert(white[white.len() - 1]);
    }
}

/// `text` without the characters at both of its ends that `white` marks.
pub fn trim_marked(text: &Vec<char>, white: &Vec<bool>) -> (kept: Vec<char>)
    requires
        text.len() == white.len(),
    ensures
        kept@ == trimmed(text@, white@),
{
    let mut start: usize = 0;
    while start < white.len() && white[start]
        invariant
            start <= white.len(),
            forall|i: int| 0 <= i < start ==> #[trigger] white@[i],
        decreases white.len() - start,
    {
        start = start + 1;
    }
    proof {
        lemma_leading(white@, start as nat);
    }
    let mut kept: Vec<char> = Vec::new();
    if start == white.len() {
        return kept;
    }
    let mut end: usize = white.len();
    while white[end - 1]
        invariant
            start < end <= white.len(),
            !white@[start as int],
            forall|i: int| end <= i < white.len() ==> #[trigger] white@[i],
        decreases end,
    {
        end = end - 1;
    }
    proof {
        lemma_trailing(white@, end as nat);
    }
    let mut i: usize = start;
    while i < end
        invariant
            start <= i <= end <= text.len(),
            kept@ == text@.subrange(start as int, i as int),
        decreases end - i,
    {
        kept.push(text[i]);
        assert(text@.subrange(start as int, i + 1) =~= text@.subrange(start as int, i as int).push(
            text@[i as int],
        ));
        i = i + 1;
    }
    kept
}

/// The language to translate to: the setting without the white space around
/// it, or [`DEFAULT_TARGET`] if nothing is left of it.
pub fn translation_target(setting: &str) -> (target: String)
    ensures
        target@ == ({
            let kept = trimmed(setting@, white_space(setting@));
            if kept.len() == 0 {
                DEFAULT_TARGET@
            } else {
                kept
            }
        }),
{
    let text = chars_of(setting);
    let mut white: Vec<bool> = Vec::new();
    let mut i: usize = 0;
    while i < text.len()
        invariant
            i <= text.len(),
            text@ == setting@,
            white.len() == i,
            forall|j: int| 0 <= j < i ==> #[trigger] white@[j] == is_white_space(setting@[j]),
        decreases text.len() - i,
    {
        white.push(text[i].is_whitespace());
        i = i + 1;
    }
    assert(white@ =~= white_space(setting@));
    let kept = trim_marked(&text, &white);
    if kept.len() == 0 {
        let chars = chars_of(DEFAULT_TARGET);
        text_of(&chars)
    } else {
        text_of(&kept)
    }
}

/// A command translates what it is for, and only in an editor: the document, a
/// selection that holds something, or the block at the cursor. An empty
/// selection is refused, and says so.
pub proof fn law_a_translation_reaches_what_was_asked_for(
    command: TranslateCommand,
    editor: EditorFacts,
    step: TranslateStep,
)
    requires
        translation_asked(command, Some(editor), step),
    ensures
        command is Document ==> step == (TranslateStep::Resolve { scope: TranslateScope::Document }),
        command is Block ==> step == (TranslateStep::Resolve {
            scope: TranslateScope::Block { cursor: editor.cursor },
        }),
        command is Selection ==> match step {
            TranslateStep::Resolve { scope } => scope == (TranslateScope::Selection {
                start: editor.selection_start,
                end: editor.selection_end,
            }) && editor.selection_start < editor.selection_end,
            TranslateStep::Refused { effects } => editor.selection_start >= editor.selection_end
                && effects@ == seq![Effect::Report { notice: Notice::SelectSomeTextFirst }],
            TranslateStep::Ignored => false,
        },
{
}

/// Without an editor nothing is translated.
pub proof fn law_a_translation_needs_an_editor(command: TranslateCommand, step: TranslateStep)
    requires
        translation_asked(command, None, step),
    ensures
        step is Ignored,
{
}

/// Only a translation that was applied claims to have translated anything; one
/// that came too late or failed says so, with its reason.
pub proof fn law_every_end_of_a_translation_is_told(end: TranslationEnd, provider: TextId)
    ensures
        translation_notice(end, provider) is Translated <==> end is Applied,
        end matches TranslationEnd::Applied { segments } ==> translation_notice(end, provider) == (
        Notice::Translated { segments, provider }),
        end is Outdated ==> translation_notice(end, provider) == Notice::TranslationOutdated,
        end matches TranslationEnd::Failed { error } ==> translation_notice(end, provider) == (
        Notice::TranslationFailed { error }),
{
}

/// A provider that was found is named, one that cannot be used says why, and
/// one that is missing asks for a key.
pub proof fn law_every_lookup_is_told(lookup: ProviderLookup)
    ensures
        lookup matches ProviderLookup::Ready { label } ==> provider_notice(lookup) == (
        Notice::Translating { provider: label }),
        lookup matches ProviderLookup::Unavailable { error } ==> provider_notice(lookup) == (
        Notice::TranslationUnavailable { error }),
        lookup is Missing ==> provider_notice(lookup) == Notice::NoTranslationKey,
{
}

/// Trimming cuts white space from both ends and nothing else: what is left is a
/// stretch of the text that begins and ends with something, and all around it
/// is white space. Nothing is left exactly where there was nothing else.
pub proof fn law_trimming_cuts_only_white_space(text: Seq<char>)
    ensures
        ({
            let white = white_space(text);
            let kept = trimmed(text, white);
            let start = leading(white) as int;
            let end = text.len() - trailing(white);
            &&& forall|i: int| 0 <= i < start ==> is_white_space(#[trigger] text[i])
            &&& kept.len() == 0 <==> forall|i: int|
                0 <= i < text.len() ==> is_white_space(#[trigger] text[i])
            &&& kept.len() > 0 ==> {
                &&& 0 <= start < end <= text.len()
                &&& kept == text.subrange(start, end)
                &&& !is_white_space(kept[0])
                &&& !is_white_space(kept.last())
                &&& forall|i: int| end <= i < text.len() ==> is_white_space(#[trigger] text[i])
            }
        }),
{
    let white = white_space(text);
    lemma_leading_is_exact(white);
    lemma_trailing_is_exact(white);
    assert forall|i: int| 0 <= i < text.len() implies white[i] == is_white_space(
        #[trigger] text[i],
    ) by {}
    let start = leading(white) as int;
    let end = text.len() - trailing(white);
    if start < white.len() {
        assert(!white[start]);
        assert(start < end) by {
            if end <= start {
                assert(white[start]);
            }
        }
        assert(!white[end - 1]);
        assert(!is_white_space(text[start]));
        let kept = text.subrange(start, end);
        assert(kept[0] == text[start]);
        assert(kept.last() == text[end - 1]);
    } else {
        assert forall|i: int| 0 <= i < text.len() implies is_white_space(#[trigger] text[i]) by {
            assert(white[i]);
        }
    }
}

proof fn lemma_leading_is_exact(white: Seq<bool>)
    ensures
        leading(white) <= white.len(),
        forall|i: int| 0 <= i < leading(white) ==> #[trigger] white[i],
        leading(white) < white.len() ==> !white[leading(white) as int],
    decreases white.len(),
{
    if white.len() > 0 && white[0] {
        let rest = white.skip(1);
        lemma_leading_is_exact(rest);
        assert forall|i: int| 0 <= i < leading(white) implies #[trigger] white[i] by {
            if i > 0 {
                assert(rest[i - 1] == white[i]);
            }
        }
        if leading(white) < white.len() {
            assert(rest[leading(rest) as int] == white[leading(white) as int]);
        }
    }
}

proof fn lemma_trailing_is_exact(white: Seq<bool>)
    ensures
        trailing(white) <= white.len(),
        forall|i: int| white.len() - trailing(white) <= i < white.len() ==> #[trigger] white[i],
        trailing(white) < white.len() ==> !white[white.len() - trailing(white) - 1],
    decreases white.len(),
{
    if white.len() > 0 && white.last() {
        let rest = white.drop_last();
        lemma_trailing_is_exact(rest);
        assert forall|i: int|
            white.len() - trailing(white) <= i < white.len() implies #[trigger] white[i] by {
            if i < rest.len() {
                assert(rest[i] == white[i]);
            }
        }
        if trailing(white) < white.len() {
            assert(rest[rest.len() - trailing(rest) - 1] == white[white.len() - trailing(white)
                - 1]);
        }
    }
}

} // verus!
