use markturbo::effect::{DestructiveAction, Effect, Notice};
use markturbo::retirement::{Completion, RetirementRequest, Retirements};
use markturbo::scope::insert_scoped_recovery_key;
use std::collections::BTreeMap;

fn queued(keys: &[(u64, Option<u64>)]) -> Retirements {
    let mut retirements = Retirements::new();
    for (key, document) in keys {
        retirements.pending.insert(*key, *document);
    }
    retirements
}

fn request(key: u64, document: u64) -> RetirementRequest {
    RetirementRequest { key, document: Some(document) }
}

#[test]
fn a_record_claimed_for_two_documents_belongs_to_none() {
    let mut keys = BTreeMap::new();
    assert_eq!(insert_scoped_recovery_key(&mut keys, 9, Some(1)), Some(1));
    assert_eq!(insert_scoped_recovery_key(&mut keys, 9, Some(1)), Some(1));
    assert_eq!(insert_scoped_recovery_key(&mut keys, 9, Some(2)), None);
    assert_eq!(insert_scoped_recovery_key(&mut keys, 9, Some(2)), None);
    assert_eq!(keys.get(&9), Some(&None));
}

#[test]
fn without_a_store_a_retirement_is_only_queued() {
    let mut retirements = Retirements::new();
    assert_eq!(retirements.invalidate_recovery(9, Some(1), false), None);
    assert!(retirements.is_undurable_recovery_retirement(9));
    assert!(!retirements.owned(9));
}

#[test]
fn a_durable_marker_takes_a_record_off_the_queue() {
    let mut retirements = Retirements::new();
    let asked = retirements.invalidate_recovery(9, Some(1), true);
    assert_eq!(asked, Some(request(9, 1)));
    assert!(retirements.is_undurable_recovery_retirement(9));
    let effects = retirements.retirement_began(request(9, 1), 70);
    assert_eq!(
        effects,
        [Effect::CompleteRetirement { key: 9, ticket: 70, document: Some(1), delayed: false }]
    );
    assert!(!retirements.is_undurable_recovery_retirement(9));
    assert!(retirements.owned(9));
    assert!(retirements.finish_recovery_retirement(9, 70, Some(1), Completion::Retired).is_empty());
    assert!(!retirements.owned(9));
}

#[test]
fn a_refused_marker_is_tried_again_in_a_second() {
    let mut retirements = Retirements::new();
    retirements.invalidate_recovery(9, Some(1), true);
    let report = Effect::Report { notice: Notice::CouldNotClearCheckpoint { error: 4 } };
    let effects = retirements.retirement_refused(request(9, 1), 4);
    assert_eq!(effects, [report, Effect::RetryRetirement { key: 9 }]);
    // One attempt at a time.
    assert_eq!(retirements.retirement_refused(request(9, 1), 4), [report]);
    let effects = retirements.retirement_retry_elapsed(9);
    assert_eq!(effects, [Effect::Invalidate { key: 9, document: Some(1) }]);
    assert!(retirements.retries.is_empty());
}

#[test]
fn a_refused_marker_is_left_to_the_owner_of_the_record() {
    let mut retirements = Retirements::new();
    retirements.retirement_began(request(9, 1), 70);
    retirements.invalidate_recovery(9, Some(1), true);
    let effects = retirements.retirement_refused(request(9, 1), 4);
    assert_eq!(effects, [Effect::Report { notice: Notice::CouldNotClearCheckpoint { error: 4 } }]);
    assert!(retirements.retries.is_empty());
    // When the owner is done, the queued decision comes up again.
    let effects = retirements.finish_recovery_retirement(9, 70, Some(1), Completion::Retired);
    assert_eq!(effects, [Effect::Invalidate { key: 9, document: Some(1) }]);
}

#[test]
fn a_second_decision_replaces_the_owner_of_a_record() {
    let mut retirements = Retirements::new();
    retirements.retirement_began(request(9, 1), 70);
    retirements.retirement_began(request(9, 1), 71);
    let stale = retirements.finish_recovery_retirement(9, 70, Some(1), Completion::Retired);
    assert!(stale.is_empty());
    assert!(retirements.owned(9));
    retirements.finish_recovery_retirement(9, 71, Some(1), Completion::Retired);
    assert!(!retirements.owned(9));
}

#[test]
fn a_cleanup_that_is_not_finished_keeps_its_owner() {
    let mut retirements = Retirements::new();
    retirements.retirement_began(request(9, 1), 70);
    let pending = Completion::CleanupPending { error: 5 };
    let effects = retirements.finish_recovery_retirement(9, 70, Some(1), pending);
    assert_eq!(
        effects,
        [
            Effect::Report { notice: Notice::CheckpointCleanupPending { error: 5 } },
            Effect::CompleteRetirement { key: 9, ticket: 70, document: Some(1), delayed: true }
        ]
    );
    assert!(retirements.owned(9));
}

#[test]
fn a_failed_retirement_goes_back_to_the_queue() {
    let mut retirements = Retirements::new();
    retirements.retirement_began(request(9, 1), 70);
    let effects =
        retirements.finish_recovery_retirement(9, 70, Some(1), Completion::Failed { error: 5 });
    assert_eq!(
        effects,
        [
            Effect::Report { notice: Notice::CouldNotClearCheckpoint { error: 5 } },
            Effect::RetryRetirement { key: 9 }
        ]
    );
    assert!(!retirements.owned(9));
    assert!(retirements.is_undurable_recovery_retirement(9));
}

#[test]
fn taking_one_record_out_of_a_batch_dissolves_it() {
    let mut retirements = queued(&[(8, Some(2))]);
    for key in [7, 8, 9] {
        retirements.batches.insert(key, 60);
    }
    retirements.batches.insert(5, 61);
    retirements.retries.insert(9);
    let effects = retirements.retirement_began(request(9, 1), 70);
    assert_eq!(
        effects,
        [
            Effect::CompleteRetirement { key: 9, ticket: 70, document: Some(1), delayed: false },
            Effect::Invalidate { key: 8, document: Some(2) }
        ]
    );
    assert_eq!(retirements.batches.keys().copied().collect::<Vec<u64>>(), [5]);
    assert!(retirements.retries.is_empty());
}

#[test]
fn a_batch_is_completed_again_only_where_no_record_waits() {
    let mut retirements = Retirements::new();
    let keys = vec![7, 8];
    assert!(!retirements.schedule_recovery_retirement_batch_retry(&keys, false));
    assert!(!retirements.schedule_recovery_retirement_batch_retry(&Vec::new(), true));
    assert!(retirements.schedule_recovery_retirement_batch_retry(&keys, true));
    assert!(!retirements.schedule_recovery_retirement_batch_retry(&vec![8, 9], true));
    assert!(retirements.any_retrying(&keys));
    assert!(!retirements.any_retrying(&vec![9]));
}

#[test]
fn a_stale_batch_changes_nothing() {
    let mut retirements = queued(&[(7, None)]);
    retirements.batches.insert(7, 61);
    let keys = vec![7];
    assert!(!retirements.batch_is_current(&keys, 60));
    assert!(retirements.finish_recovery_retirement_batch(&keys, 60).is_empty());
    let retry = retirements.batch_retry_completed(&keys, 60, Completion::Retired, true);
    assert!(retry.effects.is_empty() && !retry.again);
    assert!(retirements.owned(7));
}

#[test]
fn a_delayed_batch_ends_in_one_of_three_ways() {
    let build = || {
        let mut retirements = queued(&[(8, Some(2))]);
        retirements.batches.insert(7, 60);
        retirements.batches.insert(8, 60);
        retirements
    };
    let keys = vec![7, 8];
    let replay = Effect::Invalidate { key: 8, document: Some(2) };

    let mut done = build();
    let retry = done.batch_retry_completed(&keys, 60, Completion::Retired, true);
    assert_eq!(retry.effects, [replay]);
    assert!(!retry.again && done.batches.is_empty());

    let mut unclean = build();
    let retry =
        unclean.batch_retry_completed(&keys, 60, Completion::CleanupPending { error: 3 }, true);
    assert_eq!(
        retry.effects,
        [Effect::Report { notice: Notice::CheckpointCleanupPending { error: 3 } }]
    );
    assert!(retry.again && unclean.owned(7));

    let mut failed = build();
    let retry = failed.batch_retry_completed(&keys, 60, Completion::Failed { error: 3 }, true);
    assert_eq!(
        retry.effects,
        [
            replay,
            Effect::RearmDirtyDocuments,
            Effect::Report { notice: Notice::CouldNotFinishCleanup { error: 3 } }
        ]
    );
    assert!(!retry.again && !failed.owned(7));
}

#[test]
fn every_queued_record_is_offered_once_the_store_is_there() {
    let retirements = queued(&[(7, Some(1)), (9, None)]);
    let effects = retirements.flush_pending_recovery_retirements();
    assert_eq!(effects.len(), 2);
    assert!(effects.contains(&Effect::Invalidate { key: 7, document: Some(1) }));
    assert!(effects.contains(&Effect::Invalidate { key: 9, document: None }));
}

#[test]
fn an_action_waits_for_the_records_that_concern_it() {
    let retirements = queued(&[(7, Some(1)), (8, Some(2)), (9, None)]);
    let names = |action| {
        let mut keys: Vec<u64> =
            retirements.pending_recovery_keys(action).into_iter().map(|(key, _)| key).collect();
        keys.sort();
        keys
    };
    assert_eq!(names(DestructiveAction::CloseTab { document: 1 }), [7, 9]);
    assert_eq!(names(DestructiveAction::CloseTab { document: 3 }), [9]);
    assert_eq!(names(DestructiveAction::CloseWindow), [7, 8, 9]);
    assert_eq!(names(DestructiveAction::ReplaceWorkspace { path: 1 }), [7, 8, 9]);
}
