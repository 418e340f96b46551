use markturbo::checkpoint::DocumentFacts;
use markturbo::destructive::{
    decision_of, prompt_answers, PromptStep, PromptedDocument, WindowClose, SAVE_CHANGES_DETAIL,
};
use markturbo::effect::{DestructiveAction, Effect, Notice};
use markturbo::lifecycle::{DirtyDecision, Lifecycle, Next, Resolution, Stage, Step};
use markturbo::retirement::{Completion, RetirementRequest};
use std::collections::BTreeSet;

const CLOSE: DestructiveAction = DestructiveAction::CloseTab { document: 1 };
const PROCEED: Resolution = Resolution::Proceed { action: CLOSE };
const REQUEST: u64 = 7;

fn facts(id: u64) -> DocumentFacts {
    DocumentFacts { id, dirty: true, revision: 1, key: 100 + id, text_bytes: 10 }
}

fn clean() -> BTreeSet<u64> {
    BTreeSet::new()
}

/// A workspace with a store, whose documents 1 and 2 are dirty.
fn ready() -> Lifecycle {
    let mut lifecycle = Lifecycle::new();
    lifecycle.begin_startup_restore(true);
    for id in [1, 2] {
        lifecycle.document_inserted(facts(id), None, true, 0);
        lifecycle.checkpoints.token_activated(id, 100 + id, 70 + id, false);
    }
    lifecycle
}

fn begins(step: &Step) -> Vec<(u64, Option<u64>)> {
    match &step.next {
        Next::BeginRetirements { request, keys } => {
            assert_eq!(*request, REQUEST);
            keys.clone()
        }
        _ => panic!("the records are to be retired"),
    }
}

fn performs(next: &Next) -> DestructiveAction {
    match next {
        Next::Perform { action } => *action,
        _ => panic!("the action is to be carried out"),
    }
}

fn revalidates(next: Next) -> (Vec<(u64, Option<u64>)>, Stage) {
    match next {
        Next::Revalidate { request, keys, stage } => {
            assert_eq!(request, REQUEST);
            (keys, stage)
        }
        _ => panic!("the walk is to be validated"),
    }
}

/// Discards document 1, up to the marker that the store is to write.
fn discarding(lifecycle: &mut Lifecycle) -> Step {
    let step = lifecycle.request_destructive(CLOSE, REQUEST, Resolution::Prompt, &clean(), 0);
    assert!(matches!(step.next, Next::Prompt { request: REQUEST }));
    let document = PromptedDocument { id: 1, on_disk: true };
    let next = lifecycle.resolve_destructive(DirtyDecision::Discard, true, Some(document));
    assert!(matches!(next, Next::Decide { request: REQUEST, save: false }));
    let next = lifecycle.destructive_decided(
        REQUEST,
        DirtyDecision::Discard,
        Some(1),
        Some(101),
        PROCEED,
    );
    let (keys, stage) = revalidates(next);
    lifecycle.destructive_revalidated(REQUEST, keys, stage, PROCEED, &clean(), 0)
}

#[test]
fn a_clean_tab_is_closed_at_once() {
    let mut lifecycle = ready();
    let step = lifecycle.request_destructive(CLOSE, REQUEST, PROCEED, &clean(), 0);
    assert_eq!(performs(&step.next), CLOSE);
    assert!(step.effects.is_empty());
}

#[test]
fn a_second_request_is_refused_while_one_is_decided() {
    let mut lifecycle = ready();
    lifecycle.request_destructive(CLOSE, REQUEST, Resolution::Prompt, &clean(), 0);
    let other = DestructiveAction::CloseWindow;
    let step = lifecycle.request_destructive(other, 8, Resolution::Prompt, &clean(), 0);
    assert!(matches!(step.next, Next::Done));
    assert_eq!(lifecycle.interlock.pending, Some(REQUEST));
}

#[test]
fn a_discarded_document_is_closed_once_its_record_is_retired() {
    let mut lifecycle = ready();
    let step = discarding(&mut lifecycle);
    let keys = begins(&step);
    assert_eq!(keys, [(101, Some(1))]);
    assert_eq!(lifecycle.checkpoints.state_of(1).unwrap().token, None);
    assert!(lifecycle.retirements.is_undurable_recovery_retirement(101));

    assert_eq!(lifecycle.retirements_began(REQUEST, &keys, 60), [Effect::RescheduleTimer]);
    assert!(!lifecycle.retirements.is_undurable_recovery_retirement(101));
    assert!(lifecycle.retirements.owned(101));
    let done = lifecycle.finish_discard_retirements(keys, 60, Completion::Retired);
    assert!(done.effects.is_empty() && !done.retry_batch);
    let (request, keys) = match done.next {
        Next::CheckReplayed { request, keys } => (request, keys),
        _ => panic!("queued records are looked for"),
    };
    let step = lifecycle.check_replayed(request, keys);
    let (keys, stage) = revalidates(step.next);
    assert_eq!(stage, Stage::Retired { cleanup_error: None });
    let step = lifecycle.destructive_revalidated(REQUEST, keys, stage, PROCEED, &clean(), 0);
    assert_eq!(performs(&step.next), CLOSE);
    assert_eq!(lifecycle.checkpoints.state_of(1), None);
    assert!(lifecycle.checkpoints.state_of(2).is_some());
}

#[test]
fn a_discard_goes_ahead_although_the_cleanup_fails() {
    let mut lifecycle = ready();
    let step = discarding(&mut lifecycle);
    let keys = begins(&step);
    lifecycle.retirements_began(REQUEST, &keys, 60);
    let done =
        lifecycle.finish_discard_retirements(keys, 60, Completion::CleanupPending { error: 4 });
    assert!(done.retry_batch);
    let (keys, stage) = revalidates(done.next);
    assert_eq!(stage, Stage::Retired { cleanup_error: Some(4) });
    let step = lifecycle.destructive_revalidated(REQUEST, keys, stage, PROCEED, &clean(), 0);
    assert_eq!(performs(&step.next), CLOSE);
    assert_eq!(
        step.effects.last(),
        Some(&Effect::Report { notice: Notice::CheckpointCleanupPending { error: 4 } })
    );
}

#[test]
fn a_marker_that_cannot_be_written_keeps_the_document_open() {
    let mut lifecycle = ready();
    let step = discarding(&mut lifecycle);
    begins(&step);
    assert_eq!(
        lifecycle.retirements_refused(4),
        [
            Effect::RearmDirtyDocuments,
            Effect::Report { notice: Notice::CouldNotClearCheckpointKeptOpen { error: 4 } }
        ]
    );
    let effects = lifecycle.rearm_dirty_recovery(&vec![facts(1), facts(2)], 9);
    assert!(effects.contains(&Effect::ActivateToken { document: 1, key: 101 }));
    assert!(!effects.contains(&Effect::ActivateToken { document: 2, key: 102 }));
}

#[test]
fn a_batch_that_fails_keeps_every_document_open() {
    let mut lifecycle = ready();
    let step = discarding(&mut lifecycle);
    let keys = begins(&step);
    lifecycle.retirements_began(REQUEST, &keys, 60);
    let done = lifecycle.finish_discard_retirements(keys, 60, Completion::Failed { error: 4 });
    assert_eq!(
        done.effects,
        [
            Effect::RearmDirtyDocuments,
            Effect::Report { notice: Notice::CouldNotClearCheckpointKeptOpen { error: 4 } }
        ]
    );
    assert!(matches!(done.next, Next::Done));
    assert!(!lifecycle.retirements.owned(101));
    assert_eq!(lifecycle.interlock.pending, None);
}

#[test]
fn a_walk_asks_about_every_dirty_document() {
    let mut lifecycle = ready();
    let action = DestructiveAction::CloseWindow;
    let proceed = Resolution::Proceed { action };
    lifecycle.request_destructive(action, REQUEST, Resolution::Prompt, &clean(), 0);
    for (document, resolution) in [(1, Resolution::Prompt), (2, proceed)] {
        let prompted = PromptedDocument { id: document, on_disk: true };
        lifecycle.resolve_destructive(DirtyDecision::Discard, true, Some(prompted));
        let next = lifecycle.destructive_decided(
            REQUEST,
            DirtyDecision::Discard,
            Some(document),
            Some(100 + document),
            resolution,
        );
        if document == 1 {
            assert!(matches!(next, Next::Prompt { request: REQUEST }));
        } else {
            let (keys, stage) = revalidates(next);
            let step =
                lifecycle.destructive_revalidated(REQUEST, keys, stage, proceed, &clean(), 0);
            let mut keys = begins(&step);
            keys.sort();
            assert_eq!(keys, [(101, Some(1)), (102, Some(2))]);
        }
    }
}

#[test]
fn cancelling_in_the_middle_of_a_walk_keeps_every_record() {
    let mut lifecycle = ready();
    let action = DestructiveAction::CloseWindow;
    lifecycle.request_destructive(action, REQUEST, Resolution::Prompt, &clean(), 0);
    let prompted = PromptedDocument { id: 1, on_disk: true };
    lifecycle.resolve_destructive(DirtyDecision::Discard, true, Some(prompted));
    lifecycle.destructive_decided(
        REQUEST,
        DirtyDecision::Discard,
        Some(1),
        Some(101),
        Resolution::Prompt,
    );
    assert_eq!(lifecycle.interlock.handled, [(101, Some(1))]);
    let prompted = PromptedDocument { id: 2, on_disk: true };
    lifecycle.resolve_destructive(DirtyDecision::Cancel, true, Some(prompted));
    let next = lifecycle.destructive_decided(
        REQUEST,
        DirtyDecision::Cancel,
        Some(2),
        Some(102),
        Resolution::Cancelled,
    );
    assert!(matches!(next, Next::Done));
    assert!(lifecycle.interlock.handled.is_empty());
    assert!(lifecycle.retirements.pending.is_empty());
    assert!(lifecycle.checkpoints.state_of(1).unwrap().token.is_some());
}

#[test]
fn a_failed_save_ends_the_walk() {
    let mut lifecycle = ready();
    lifecycle.request_destructive(CLOSE, REQUEST, Resolution::Prompt, &clean(), 0);
    let prompted = PromptedDocument { id: 1, on_disk: true };
    let next = lifecycle.resolve_destructive(DirtyDecision::Save, true, Some(prompted));
    assert!(matches!(next, Next::Decide { request: REQUEST, save: true }));
    let next = lifecycle.destructive_decided(
        REQUEST,
        DirtyDecision::Save,
        Some(1),
        Some(101),
        Resolution::SaveFailed,
    );
    assert!(matches!(next, Next::Done));
    assert!(lifecycle.retirements.pending.is_empty());
}

#[test]
fn a_document_that_changed_under_the_question_is_asked_about_again() {
    let mut lifecycle = ready();
    lifecycle.request_destructive(CLOSE, REQUEST, Resolution::Prompt, &clean(), 0);
    let prompted = PromptedDocument { id: 1, on_disk: true };
    let next = lifecycle.resolve_destructive(DirtyDecision::Discard, false, Some(prompted));
    let (keys, stage) = revalidates(next);
    let step =
        lifecycle.destructive_revalidated(REQUEST, keys, stage, Resolution::Prompt, &clean(), 0);
    assert!(matches!(step.next, Next::Prompt { request: REQUEST }));
    assert!(lifecycle.interlock.handled.is_empty());
}

#[test]
fn saving_a_document_without_a_path_keeps_the_request_open() {
    let mut lifecycle = ready();
    lifecycle.request_destructive(CLOSE, REQUEST, Resolution::Prompt, &clean(), 0);
    let prompted = PromptedDocument { id: 1, on_disk: false };
    let next = lifecycle.resolve_destructive(DirtyDecision::Save, true, Some(prompted));
    assert!(matches!(next, Next::PromptSaveAs { document: 1 }));
    assert_eq!(lifecycle.interlock.pending, Some(REQUEST));
    // Once it is saved, the walk goes on with its old record.
    let request = lifecycle.complete_pending_destructive_save_as(1, Some(1)).unwrap();
    let next = lifecycle.save_as_decided(request, 1, 101, PROCEED);
    let (_, stage) = revalidates(next);
    assert_eq!(stage, Stage::SavedAs);
    assert_eq!(lifecycle.interlock.handled, [(101, Some(1))]);
}

#[test]
fn a_discard_waits_for_the_store_during_startup() {
    let mut lifecycle = Lifecycle::new();
    lifecycle.document_inserted(facts(1), None, true, 0);
    let step = discarding(&mut lifecycle);
    assert!(matches!(step.next, Next::Done));
    assert_eq!(
        step.effects.last(),
        Some(&Effect::Report { notice: Notice::WaitingForRecoveryStorage })
    );
    assert!(lifecycle.retirements.is_undurable_recovery_retirement(101));
    assert_eq!(lifecycle.checkpoints.state_of(1), None);

    let waiting = lifecycle.begin_startup_restore(true).unwrap();
    assert_eq!((waiting.request, waiting.keys.clone()), (REQUEST, vec![(101, Some(1))]));
    assert!(lifecycle.finish_startup_restore(true).resume);
    let step = lifecycle.destructive_revalidated(
        waiting.request,
        waiting.keys,
        Stage::Resumed,
        PROCEED,
        &clean(),
        0,
    );
    assert_eq!(begins(&step), [(101, Some(1))]);
}

#[test]
fn a_waiting_discard_stays_open_where_no_store_comes() {
    let mut lifecycle = Lifecycle::new();
    lifecycle.document_inserted(facts(1), None, true, 0);
    discarding(&mut lifecycle);
    let waiting = lifecycle.begin_startup_restore(false);
    assert!(waiting.is_some());
    let step = lifecycle.finish_startup_restore(true);
    assert!(!step.resume);
    assert_eq!(
        step.effects,
        [Effect::Report { notice: Notice::RecoveryStorageUnavailable }]
    );
    // A later attempt is told the same.
    let step = discarding(&mut lifecycle);
    assert_eq!(
        step.effects.last(),
        Some(&Effect::Report { notice: Notice::RecoveryStorageUnavailable })
    );
}

#[test]
fn a_new_question_after_waiting_protects_the_documents_again() {
    let mut lifecycle = Lifecycle::new();
    lifecycle.document_inserted(facts(1), None, true, 0);
    discarding(&mut lifecycle);
    let waiting = lifecycle.begin_startup_restore(true).unwrap();
    let step = lifecycle.destructive_revalidated(
        waiting.request,
        waiting.keys,
        Stage::Resumed,
        Resolution::Prompt,
        &clean(),
        0,
    );
    assert_eq!(step.effects, [Effect::RearmDirtyDocuments]);
    assert!(matches!(step.next, Next::Prompt { request: REQUEST }));
    assert_eq!(lifecycle.interlock.handled, [(101, Some(1))]);
}

#[test]
fn an_unrelated_record_does_not_hold_up_a_tab() {
    let mut lifecycle = ready();
    lifecycle.retirements.pending.insert(900, Some(2));
    let step = lifecycle.request_destructive(CLOSE, REQUEST, PROCEED, &clean(), 0);
    assert_eq!(performs(&step.next), CLOSE);
}

#[test]
fn a_record_of_unknown_origin_holds_up_a_tab() {
    let mut lifecycle = ready();
    lifecycle.retirements.pending.insert(900, None);
    let step = lifecycle.request_destructive(CLOSE, REQUEST, PROCEED, &clean(), 0);
    assert_eq!(begins(&step), [(900, None)]);
}

#[test]
fn closing_the_window_retires_every_queued_record_in_one_batch() {
    let mut lifecycle = ready();
    lifecycle.retirements.pending.insert(900, Some(2));
    lifecycle.retirements.pending.insert(901, Some(3));
    let action = DestructiveAction::CloseWindow;
    let proceed = Resolution::Proceed { action };
    let step = lifecycle.request_destructive(action, REQUEST, proceed, &clean(), 0);
    let mut keys = begins(&step);
    keys.sort();
    assert_eq!(keys, [(900, Some(2)), (901, Some(3))]);
}

#[test]
fn a_dirty_document_under_an_old_retirement_delays_the_action() {
    let mut lifecycle = ready();
    lifecycle.retirements.retirement_began(RetirementRequest { key: 101, document: Some(1) }, 50);
    let dirty: BTreeSet<u64> = [101].into_iter().collect();
    lifecycle.request_destructive(CLOSE, REQUEST, Resolution::Prompt, &dirty, 0);
    let document = PromptedDocument { id: 1, on_disk: true };
    lifecycle.resolve_destructive(DirtyDecision::Discard, true, Some(document));
    let next = lifecycle.destructive_decided(
        REQUEST,
        DirtyDecision::Discard,
        Some(1),
        Some(101),
        PROCEED,
    );
    let (keys, stage) = revalidates(next);
    let step = lifecycle.destructive_revalidated(REQUEST, keys, stage, PROCEED, &dirty, 0);
    assert!(matches!(step.next, Next::ResumeLater));
    assert_eq!(
        step.effects,
        [Effect::Report { notice: Notice::WaitingForRecoveryCleanup }]
    );
    // The walk is taken up where it was left.
    let (keys, stage) = revalidates(lifecycle.take_waiting());
    assert_eq!((keys, stage), (vec![(101, Some(1))], Stage::Resumed));
    assert!(matches!(lifecycle.take_waiting(), Next::Done));
}

#[test]
fn a_record_that_is_being_retired_needs_no_second_marker() {
    let mut lifecycle = ready();
    lifecycle.retirements.retirement_began(RetirementRequest { key: 101, document: Some(1) }, 50);
    let step = discarding(&mut lifecycle);
    assert_eq!(performs(&step.next), CLOSE);
}

#[test]
fn a_record_that_waits_for_another_attempt_delays_the_action() {
    let mut lifecycle = ready();
    lifecycle.retirements.retries.insert(101);
    let step = discarding(&mut lifecycle);
    assert!(matches!(step.next, Next::ResumeLater));
}

#[test]
fn another_owner_of_a_record_takes_the_walk_with_it() {
    let mut lifecycle = ready();
    let step = discarding(&mut lifecycle);
    let keys = begins(&step);
    lifecycle.retirements_began(REQUEST, &keys, 60);
    lifecycle.retirements.retirement_began(RetirementRequest { key: 101, document: Some(1) }, 50);
    let done = lifecycle.finish_discard_retirements(keys, 60, Completion::Retired);
    let (keys, stage) = revalidates(done.next);
    assert_eq!(stage, Stage::Resumed);
    let step = lifecycle.destructive_revalidated(REQUEST, keys, stage, PROCEED, &clean(), 0);
    assert_eq!(performs(&step.next), CLOSE);
}

#[test]
fn a_record_queued_again_keeps_the_action_waiting() {
    let mut lifecycle = ready();
    let step = discarding(&mut lifecycle);
    let keys = begins(&step);
    lifecycle.retirements_began(REQUEST, &keys, 60);
    lifecycle.retirements.invalidate_recovery(101, Some(1), true);
    let done = lifecycle.finish_discard_retirements(keys, 60, Completion::Retired);
    assert_eq!(done.effects, [Effect::Invalidate { key: 101, document: Some(1) }]);
    let (request, keys) = match done.next {
        Next::CheckReplayed { request, keys } => (request, keys),
        _ => panic!("queued records are looked for"),
    };
    let step = lifecycle.check_replayed(request, keys);
    assert!(matches!(step.next, Next::ResumeLater));
    assert_eq!(
        step.effects,
        [Effect::Report { notice: Notice::WaitingForRecoveryCleanup }]
    );
}

#[test]
fn window_close_drains_input_then_reenters_the_native_close_path() {
    let mut lifecycle = ready();
    assert_eq!(lifecycle.request_window_close(), WindowClose::Ask);
    assert!(lifecycle.close_window_after_input_drain());
    assert!(!lifecycle.close_window_after_input_drain());
    assert_eq!(lifecycle.request_window_close(), WindowClose::Refuse);
    lifecycle.input_drained();
    assert_eq!(lifecycle.request_window_close(), WindowClose::Allow);
}

#[test]
fn a_question_is_asked_only_about_a_document_that_is_there() {
    let mut lifecycle = ready();
    assert_eq!(lifecycle.prompt_destructive(Some(1), true), PromptStep::Nothing);
    lifecycle.request_destructive(CLOSE, REQUEST, Resolution::Prompt, &clean(), 0);
    assert_eq!(lifecycle.prompt_destructive(Some(1), true), PromptStep::Ask { document: 1 });
    assert_eq!(lifecycle.prompt_destructive(Some(1), false), PromptStep::Discard);
    assert_eq!(lifecycle.prompt_destructive(None, true), PromptStep::Nothing);
}

#[test]
fn an_answer_is_a_decision_and_no_answer_is_none() {
    assert_eq!(prompt_answers(), ["Save", "Discard", "Cancel"]);
    assert_eq!(SAVE_CHANGES_DETAIL, "Your changes will be lost if you discard them.");
    assert_eq!(decision_of(Some(0)), DirtyDecision::Save);
    assert_eq!(decision_of(Some(1)), DirtyDecision::Discard);
    assert_eq!(decision_of(Some(2)), DirtyDecision::Cancel);
    assert_eq!(decision_of(None), DirtyDecision::Cancel);
}

#[test]
fn a_batch_takes_only_records_that_nobody_retires() {
    let mut lifecycle = ready();
    lifecycle.retirements.pending.insert(900, Some(2));
    lifecycle.retirements.retirement_began(RetirementRequest { key: 101, document: Some(1) }, 50);
    let action = DestructiveAction::CloseWindow;
    let proceed = Resolution::Proceed { action };
    lifecycle.interlock.handled = vec![(101, Some(1))];
    let step = lifecycle.destructive_revalidated(
        REQUEST,
        Vec::new(),
        Stage::Answered,
        proceed,
        &clean(),
        0,
    );
    assert_eq!(begins(&step), [(900, Some(2))]);
}
